//! What holds of a mining task over any number of steps: no transaction is lost or mined twice, and
//! the blocks answer the committed batches in their order.

use vstd::prelude::*;
use crate::task::{self, TaskAction, TaskState};
use crate::transaction::{ExternalTransaction, PooledTransaction};

verus! {

/// One step of a mining task: what came in, what the task did, and whether the insertion ended
/// before the next step, with the pipeline events that it gave back.
pub struct TaskStep<T, E> {
    pub batches: Seq<Vec<ExternalTransaction>>,
    pub best: Seq<PooledTransaction<T>>,
    pub action: TaskAction<T, E>,
    pub finished: Option<Option<E>>,
}

/// The state once a step has been taken.
pub open spec fn stepped<T, E>(received: TaskState<T, E>) -> TaskState<T, E> {
    if received.can_start() {
        received.start()
    } else {
        received
    }
}

/// A step leads from one state to the next.
pub open spec fn leads<T, E>(
    before: TaskState<T, E>,
    step: TaskStep<T, E>,
    after: TaskState<T, E>,
) -> bool {
    let received = before.receive(step.batches, step.best);
    &&& task::takes_step(received, stepped(received), step.action)
    &&& match step.finished {
        Some(events) => stepped(received).inserting && after == stepped(received).finish(events),
        None => after == stepped(received),
    }
}

/// The steps lead through the states, from the state of a new task on.
pub open spec fn is_run<T, E>(states: Seq<TaskState<T, E>>, steps: Seq<TaskStep<T, E>>) -> bool {
    &&& states.len() == steps.len() + 1
    &&& states[0].queued.len() == 0
    &&& states[0].committed.len() == 0
    &&& forall|i: int|
        0 <= i < steps.len() ==> leads(states[i], #[trigger] steps[i], states[i + 1])
}

/// The transactions of all the blocks that were started, in order.
pub open spec fn mined<T, E>(steps: Seq<TaskStep<T, E>>) -> Seq<PooledTransaction<T>>
    decreases steps.len(),
{
    if steps.len() == 0 {
        Seq::empty()
    } else {
        let earlier = mined(steps.drop_last());
        match steps.last().action {
            TaskAction::Insert(job) => earlier + job.transactions@,
            _ => earlier,
        }
    }
}

/// The transactions that were accepted into the queue, in order.
pub open spec fn arrived<T, E>(
    states: Seq<TaskState<T, E>>,
    steps: Seq<TaskStep<T, E>>,
) -> Seq<PooledTransaction<T>>
    decreases steps.len(),
{
    if steps.len() == 0 {
        Seq::empty()
    } else {
        arrived(states.drop_last(), steps.drop_last()) + task::accepted(
            states[steps.len() - 1].seen,
            steps.last().best,
        )
    }
}

/// How many transactions each batch holds.
pub open spec fn sizes(batches: Seq<Vec<ExternalTransaction>>) -> Seq<nat> {
    Seq::new(batches.len(), |i: int| batches[i]@.len())
}

/// The batches that came in, in order.
pub open spec fn committed_in<T, E>(steps: Seq<TaskStep<T, E>>) -> Seq<Vec<ExternalTransaction>>
    decreases steps.len(),
{
    if steps.len() == 0 {
        Seq::empty()
    } else {
        committed_in(steps.drop_last()) + steps.last().batches
    }
}

/// How many transactions each block holds that was started.
pub open spec fn block_sizes<T, E>(steps: Seq<TaskStep<T, E>>) -> Seq<nat>
    decreases steps.len(),
{
    if steps.len() == 0 {
        Seq::empty()
    } else {
        let earlier = block_sizes(steps.drop_last());
        match steps.last().action {
            TaskAction::Insert(job) => earlier.push(job.transactions@.len()),
            _ => earlier,
        }
    }
}

/// A run without its last step is a run.
proof fn lemma_run_prefix<T, E>(states: Seq<TaskState<T, E>>, steps: Seq<TaskStep<T, E>>)
    requires
        is_run(states, steps),
        steps.len() > 0,
    ensures
        is_run(states.drop_last(), steps.drop_last()),
        leads(states[steps.len() - 1], steps.last(), states.last()),
{
    let shorter = steps.drop_last();
    assert forall|i: int| 0 <= i < shorter.len() implies leads(
        states.drop_last()[i],
        #[trigger] shorter[i],
        states.drop_last()[i + 1],
    ) by {
        assert(leads(states[i], steps[i], states[i + 1]));
    }
    assert(steps[steps.len() - 1] == steps.last());
}

/// No transaction is lost, and none overtakes another: those that were accepted are those of the
/// blocks, in the order of the blocks, and then those that still wait.
pub proof fn lemma_no_transaction_is_lost<T, E>(
    states: Seq<TaskState<T, E>>,
    steps: Seq<TaskStep<T, E>>,
)
    requires
        is_run(states, steps),
    ensures
        arrived(states, steps) == mined(steps) + states.last().queued,
    decreases steps.len(),
{
    if steps.len() == 0 {
        assert(arrived(states, steps) =~= mined(steps) + states.last().queued);
    } else {
        lemma_run_prefix(states, steps);
        lemma_no_transaction_is_lost(states.drop_last(), steps.drop_last());
        let step = steps.last();
        let received = states[steps.len() - 1].receive(step.batches, step.best);
        let size = received.block_size() as int;
        assert(states.drop_last().last() == states[steps.len() - 1]);
        if step.action is Insert {
            assert(received.queued =~= received.queued.take(size) + received.queued.skip(size));
        }
        assert(arrived(states, steps) =~= mined(steps) + states.last().queued);
    }
}

/// No nonce is accepted twice: over all the steps of a task, the transactions that were accepted have
/// distinct nonces, all of which were seen.
pub proof fn lemma_no_nonce_is_accepted_twice<T, E>(
    states: Seq<TaskState<T, E>>,
    steps: Seq<TaskStep<T, E>>,
)
    requires
        is_run(states, steps),
    ensures
        task::distinct_nonces(arrived(states, steps)),
        task::nonces(arrived(states, steps)).subset_of(states.last().seen),
    decreases steps.len(),
{
    if steps.len() > 0 {
        lemma_run_prefix(states, steps);
        lemma_no_nonce_is_accepted_twice(states.drop_last(), steps.drop_last());
        let before = states[steps.len() - 1];
        let best = steps.last().best;
        let old_ones = arrived(states.drop_last(), steps.drop_last());
        let new_ones = task::accepted(before.seen, best);
        let all = arrived(states, steps);
        task::lemma_accepted_are_new(before.seen, best);
        assert(states.drop_last().last() == before);
        let seen = states.last().seen;
        assert forall|nonce: u64| task::nonces(all).contains(nonce) implies seen.contains(nonce) by {
            let k = choose|k: int| 0 <= k < all.len() && (#[trigger] all[k]).nonce == nonce;
            if k < old_ones.len() {
                assert(old_ones[k].nonce == nonce);
                assert(task::nonces(old_ones).contains(nonce));
            } else {
                assert(new_ones[k - old_ones.len()].nonce == nonce);
                assert(task::nonces(new_ones).contains(nonce));
            }
        }
        assert forall|i: int, j: int| 0 <= i < j < all.len() implies (#[trigger] all[i]).nonce != (
        #[trigger] all[j]).nonce by {
            let split = old_ones.len() as int;
            if j < split {
                assert(old_ones[i].nonce != old_ones[j].nonce);
            } else if i < split {
                assert(task::nonces(old_ones).contains(old_ones[i].nonce));
                assert(task::nonces(new_ones).contains(new_ones[j - split].nonce));
            } else {
                assert(new_ones[i - split].nonce != new_ones[j - split].nonce);
            }
        }
    }
}

/// No nonce is mined twice: over all the blocks that a task starts, no two transactions have the
/// same nonce.
pub proof fn lemma_no_nonce_is_mined_twice<T, E>(
    states: Seq<TaskState<T, E>>,
    steps: Seq<TaskStep<T, E>>,
)
    requires
        is_run(states, steps),
    ensures
        task::distinct_nonces(mined(steps)),
{
    lemma_no_transaction_is_lost(states, steps);
    lemma_no_nonce_is_accepted_twice(states, steps);
    let all = arrived(states, steps);
    let blocks = mined(steps);
    assert forall|i: int, j: int| 0 <= i < j < blocks.len() implies (#[trigger] blocks[i]).nonce
        != (#[trigger] blocks[j]).nonce by {
        assert(all[i].nonce != all[j].nonce);
    }
}

/// The blocks answer the batches in their order: the first block holds as many transactions as the
/// first batch, and so on, and the batches without a block yet are those that still wait.
pub proof fn lemma_blocks_answer_batches_in_order<T, E>(
    states: Seq<TaskState<T, E>>,
    steps: Seq<TaskStep<T, E>>,
)
    requires
        is_run(states, steps),
    ensures
        sizes(committed_in(steps)) == block_sizes(steps) + sizes(states.last().committed),
    decreases steps.len(),
{
    if steps.len() == 0 {
        assert(sizes(committed_in(steps)) =~= block_sizes(steps) + sizes(states.last().committed));
    } else {
        lemma_run_prefix(states, steps);
        lemma_blocks_answer_batches_in_order(states.drop_last(), steps.drop_last());
        let step = steps.last();
        let before = states[steps.len() - 1];
        let received = before.receive(step.batches, step.best);
        assert(states.drop_last().last() == before);
        assert(sizes(committed_in(steps)) =~= sizes(committed_in(steps.drop_last())) + sizes(
            step.batches,
        ));
        assert(sizes(received.committed) =~= sizes(before.committed) + sizes(step.batches));
        if step.action is Insert {
            assert(sizes(received.committed) =~= seq![received.block_size()] + sizes(
                received.committed.skip(1),
            ));
        }
        assert(sizes(committed_in(steps)) =~= block_sizes(steps) + sizes(states.last().committed));
    }
}

} // verus!
