//! What holds of all the attempts at a transaction, from the first to the one that settles it.

use vstd::prelude::*;
use crate::parallel::{
    self, AbortReason, ExecuteAction, ExecutionState, Task, TxVersion, VmExecutionError, VmExecutionResult,
};

verus! {

/// One attempt at a transaction, with what it led to.
pub struct Attempt<R, X, F> {
    /// The state of the block when the outcome was taken in.
    pub before: ExecutionState<R, X>,
    pub outcome: Result<VmExecutionResult<R, F>, VmExecutionError<X>>,
    /// The state of the block once it was.
    pub after: ExecutionState<R, X>,
    /// What followed from the outcome.
    pub action: ExecuteAction<F, X>,
    /// Where the scheduler was asked to hold the transaction back: the state of the block when it
    /// answered, and the answer.
    pub answer: Option<(ExecutionState<R, X>, bool)>,
    /// What followed in the end.
    pub settled: ExecuteAction<F, X>,
    /// Where the block was given up: the state of the block when the scheduler had been told, to
    /// which the reason was added.
    pub told: Option<ExecutionState<R, X>>,
}

/// Whatever the other workers did from one state to another, a block that was given up stays so,
/// for the same reason.
pub open spec fn keeps_abort<R, X>(
    earlier: ExecutionState<R, X>,
    later: ExecutionState<R, X>,
) -> bool {
    earlier.abort_reason is Some ==> later.abort_reason == earlier.abort_reason
}

impl<R, X, F> Attempt<R, X, F> {
    /// What was done follows from the outcome and from the answer of the scheduler.
    pub open spec fn is_made(self, tx_version: TxVersion) -> bool {
        &&& self.before.attempt(tx_version, self.outcome, self.after, self.action)
        &&& match self.answer {
            Some((seen, added)) => {
                &&& self.action is AddDependency
                &&& keeps_abort(self.after, seen)
                &&& self.settled == parallel::dependency_leads_to::<F, X>(
                    seen.abort_reason is Some,
                    added,
                )
            },
            None => {
                &&& !(self.action is AddDependency)
                &&& self.settled == self.action
            },
        }
        &&& match self.told {
            Some(seen) => self.settled is AbortScheduler && keeps_abort(self.after, seen),
            None => !(self.settled is AbortScheduler),
        }
    }

    /// The state of the block at the end of the attempt.
    pub open spec fn end(self) -> ExecutionState<R, X> {
        match (self.told, self.settled) {
            (Some(seen), ExecuteAction::AbortScheduler { reason }) => seen.abort(reason),
            _ => match self.answer {
                Some((seen, _)) => seen,
                None => self.after,
            },
        }
    }
}

/// The attempts at a transaction: each is made because the one before it led to another, and the
/// last one leads to none.
pub open spec fn is_run<R, X, F>(tx_version: TxVersion, attempts: Seq<Attempt<R, X, F>>) -> bool {
    &&& attempts.len() > 0
    &&& forall|i: int| 0 <= i < attempts.len() ==> (#[trigger] attempts[i]).is_made(tx_version)
    &&& forall|i: int|
        0 <= i < attempts.len() - 1 ==> (#[trigger] attempts[i]).settled is Retry && keeps_abort(
            attempts[i].end(),
            attempts[i + 1].before,
        )
    &&& !(attempts.last().settled is Retry)
}

/// All attempts but the last were to be made again or were blocked, and none of them was made on a
/// block that had been given up.
pub proof fn lemma_only_last_attempt_settles<R, X, F>(
    tx_version: TxVersion,
    attempts: Seq<Attempt<R, X, F>>,
    index: int,
)
    requires
        is_run(tx_version, attempts),
        0 <= index < attempts.len() - 1,
    ensures
        attempts[index].outcome matches Err(error) && (error is Retry || error is Blocking),
        attempts[index].before.abort_reason is None,
        attempts[index].after == attempts[index].before,
{
    let attempt = attempts[index];
    assert(attempt.is_made(tx_version));
    assert(attempt.settled is Retry);
}

/// An attempt that is to be made again is made again exactly where the block was not given up.
/// Where it was, the scheduler is told nothing and there is no next task.
pub proof fn lemma_retry_needs_open_block<R, X, F>(
    tx_version: TxVersion,
    attempt: Attempt<R, X, F>,
)
    requires
        attempt.is_made(tx_version),
        attempt.outcome matches Err(error) && error is Retry,
    ensures
        attempt.settled is Retry <==> attempt.before.abort_reason is None,
        attempt.settled is Stop <==> attempt.before.abort_reason is Some,
        attempt.answer is None,
{
}

/// There is a next task only where the last attempt succeeded and the scheduler, told of it, gave
/// one.
pub proof fn lemma_next_task_comes_from_success<R, X, F, K, A, D, G>(
    tx_version: TxVersion,
    attempts: Seq<Attempt<R, X, F>>,
    abort: A,
    record: D,
    finish: G,
    result: Option<Task>,
) where
    A: FnOnce() -> K,
    D: FnOnce(K, AbortReason<X>),
    G: FnOnce(TxVersion, F) -> Option<Task>,

    requires
        is_run(tx_version, attempts),
        parallel::concludes(attempts.last().settled, abort, record, finish, result),
        result is Some,
    ensures
        attempts.last().outcome matches Ok(success) && call_ensures(
            finish,
            (tx_version, success.flags),
            result,
        ),
{
    assert(attempts[attempts.len() - 1].is_made(tx_version));
}

/// A reason for which the block was given up, whoever gave it up, stays to the end of the attempt,
/// and no further attempt is made.
pub proof fn lemma_abort_reason_stays<R, X, F>(
    tx_version: TxVersion,
    attempts: Seq<Attempt<R, X, F>>,
    index: int,
)
    requires
        is_run(tx_version, attempts),
        0 <= index < attempts.len(),
    ensures
        keeps_abort(attempts[index].before, attempts[index].after),
        keeps_abort(attempts[index].after, attempts[index].end()),
        attempts[index].end().abort_reason is Some ==> index == attempts.len() - 1,
        attempts[index].settled is AbortScheduler ==> attempts[index].end().abort_reason is Some,
{
    assert(attempts[index].is_made(tx_version));
    if index < attempts.len() - 1 {
        lemma_only_last_attempt_settles(tx_version, attempts, index);
        assert(attempts[index].settled is Retry);
    }
}

} // verus!
