//! The mining task: it queues transactions of the pool, waits for the consensus layer to commit as
//! many, and hands them on, one batch at a time, to be inserted as a block.

use std::collections::{HashSet, VecDeque};
use std::sync::Arc;
use vstd::prelude::*;
use crate::debug;
use crate::hardfork::ChainSpec;
use crate::mode::ScalarMiningMode;
use crate::transaction::{ExternalTransaction, PooledTransaction};

verus! {

broadcast use vstd::std_specs::hash::group_hash_axioms;

/// The nonces of some transactions.
pub open spec fn nonces<T>(transactions: Seq<PooledTransaction<T>>) -> Set<u64> {
    Set::new(
        |nonce: u64|
            exists|i: int|
                0 <= i < transactions.len() && (#[trigger] transactions[i]).nonce == nonce,
    )
}

/// No two transactions have the same nonce.
pub open spec fn distinct_nonces<T>(transactions: Seq<PooledTransaction<T>>) -> bool {
    forall|i: int, j: int|
        0 <= i < j < transactions.len() ==> (#[trigger] transactions[i]).nonce != (
        #[trigger] transactions[j]).nonce
}

/// The nonce of a transaction is not among `seen`, nor does a transaction before it have it.
pub open spec fn is_new<T>(
    seen: Set<u64>,
    transactions: Seq<PooledTransaction<T>>,
    index: int,
) -> bool {
    &&& !seen.contains(transactions[index].nonce)
    &&& forall|j: int|
        0 <= j < index ==> (#[trigger] transactions[j]).nonce != transactions[index].nonce
}

/// The transactions with a new nonce, in their order.
pub open spec fn accepted<T>(seen: Set<u64>, transactions: Seq<PooledTransaction<T>>) -> Seq<
    PooledTransaction<T>,
>
    decreases transactions.len(),
{
    if transactions.len() == 0 {
        Seq::empty()
    } else {
        let earlier = accepted(seen, transactions.drop_last());
        if is_new(seen, transactions, transactions.len() - 1) {
            earlier.push(transactions.last())
        } else {
            earlier
        }
    }
}

/// The state of the mining task.
pub struct TaskState<T, E> {
    /// The transactions that wait for a block, in the order in which they were accepted.
    pub queued: Seq<PooledTransaction<T>>,
    /// The committed batches that wait for a block, in the order in which they came.
    pub committed: Seq<Vec<ExternalTransaction>>,
    /// The nonces of all the transactions that were ever queued.
    pub seen: Set<u64>,
    /// Whether a block is being inserted.
    pub inserting: bool,
    /// The stream of pipeline events, while no insertion holds it.
    pub events: Option<E>,
}

impl<T, E> TaskState<T, E> {
    /// Each queued transaction has a nonce of its own, and it has been seen.
    pub open spec fn wf(self) -> bool {
        &&& distinct_nonces(self.queued)
        &&& nonces(self.queued).subset_of(self.seen)
    }

    /// The state once committed batches and the best transactions of the pool have come in.
    pub open spec fn receive(
        self,
        batches: Seq<Vec<ExternalTransaction>>,
        best: Seq<PooledTransaction<T>>,
    ) -> TaskState<T, E> {
        TaskState {
            committed: self.committed + batches,
            queued: self.queued + accepted(self.seen, best),
            seen: self.seen.union(nonces(best)),
            ..self
        }
    }

    /// A block can be started: none is being inserted, a batch waits, and there are as many
    /// transactions as it holds.
    pub open spec fn can_start(self) -> bool {
        &&& !self.inserting
        &&& self.committed.len() > 0
        &&& self.queued.len() >= self.committed[0]@.len()
    }

    /// The number of transactions in the next block.
    pub open spec fn block_size(self) -> nat {
        self.committed[0]@.len()
    }

    /// The state once a block has been started.
    pub open spec fn start(self) -> TaskState<T, E> {
        TaskState {
            committed: self.committed.skip(1),
            queued: self.queued.skip(self.block_size() as int),
            inserting: true,
            events: None,
            ..self
        }
    }

    /// The state once the insertion has ended and given `events` back.
    pub open spec fn finish(self, events: Option<E>) -> TaskState<T, E> {
        TaskState { inserting: false, events, ..self }
    }
}

/// The transactions of one block, with the stream of pipeline events that the insertion holds
/// until it ends.
#[derive(Debug)]
pub struct InsertJob<T, E> {
    pub transactions: Vec<PooledTransaction<T>>,
    pub events: Option<E>,
}

/// What the task does next.
#[derive(Debug)]
pub enum TaskAction<T, E> {
    /// Nothing can be done until something comes in.
    Wait,
    /// Start to insert this block.
    Insert(InsertJob<T, E>),
    /// Go on with the insertion that was started before.
    Resume,
}

/// What a step does to the state and which action it takes.
pub open spec fn takes_step<T, E>(
    before: TaskState<T, E>,
    after: TaskState<T, E>,
    action: TaskAction<T, E>,
) -> bool {
    if before.inserting {
        &&& action is Resume
        &&& after == before
    } else if before.can_start() {
        &&& action matches TaskAction::Insert(job)
        &&& job.transactions@ == before.queued.take(before.block_size() as int)
        &&& job.events == before.events
        &&& after == before.start()
    } else {
        &&& action is Wait
        &&& after == before
    }
}

/// Listens for transactions of the pool and for committed batches, and puts blocks together.
///
/// `T` is the type of a signed transaction and `E` that of the stream of pipeline events. The task
/// passes both on without reading them.
pub struct ScalarMiningTask<T, E> {
    /// The configured chain.
    chain_spec: Arc<ChainSpec>,
    /// The active miner.
    miner: ScalarMiningMode,
    /// Whether a block is being inserted.
    insert_task: bool,
    /// The transactions that wait for a block.
    queued: VecDeque<PooledTransaction<T>>,
    /// The stream of pipeline events.
    pipe_line_events: Option<E>,
    /// The committed batches that wait for a block.
    queue_committed_transactions: VecDeque<Vec<ExternalTransaction>>,
    /// The nonces of all the transactions that were ever queued.
    queued_txs: HashSet<u64>,
}

impl<T, E> core::fmt::Debug for ScalarMiningTask<T, E> {
    /// Shows no field.
    fn fmt(&self, f: &mut core::fmt::Formatter<'_>) -> core::fmt::Result {
        let mut output = debug::begin_struct(f, "ScalarMiningTask");
        debug::finish_with_more(&mut output)
    }
}

impl<T, E> View for ScalarMiningTask<T, E> {
    type V = TaskState<T, E>;

    closed spec fn view(&self) -> TaskState<T, E> {
        TaskState {
            queued: self.queued@,
            committed: self.queue_committed_transactions@,
            seen: self.queued_txs@,
            inserting: self.insert_task,
            events: self.pipe_line_events,
        }
    }
}

impl<T, E> ScalarMiningTask<T, E> {
    /// The chain that the task mines for.
    pub closed spec fn spec_chain(self) -> ChainSpec {
        *self.chain_spec
    }

    /// The miner that the task was made with.
    pub closed spec fn spec_miner(self) -> ScalarMiningMode {
        self.miner
    }

    /// A task that has heard of nothing yet.
    pub fn new(chain_spec: Arc<ChainSpec>, miner: ScalarMiningMode) -> (result: Self)
        ensures
            result.spec_chain() == *chain_spec,
            result.spec_miner() == miner,
            result@ == (TaskState::<T, E> {
                queued: Seq::empty(),
                committed: Seq::empty(),
                seen: Set::empty(),
                inserting: false,
                events: None,
            }),
            result@.wf(),
    {
        ScalarMiningTask {
            chain_spec,
            miner,
            insert_task: false,
            queued: VecDeque::new(),
            pipe_line_events: None,
            queue_committed_transactions: VecDeque::new(),
            queued_txs: HashSet::new(),
        }
    }

    /// The chain that the task mines for.
    pub fn chain_spec(&self) -> (result: Arc<ChainSpec>)
        ensures
            *result == self.spec_chain(),
    {
        self.chain_spec.clone()
    }

    /// Sets the stream of pipeline events to listen on.
    pub fn set_pipeline_events(&mut self, events: E)
        ensures
            final(self)@ == (TaskState { events: Some(events), ..old(self)@ }),
            old(self)@.wf() ==> final(self)@.wf(),
            final(self).spec_chain() == old(self).spec_chain(),
            final(self).spec_miner() == old(self).spec_miner(),
    {
        self.pipe_line_events = Some(events);
    }

    /// Queues the batches that the consensus layer has committed.
    fn receive_committed(&mut self, batches: Vec<Vec<ExternalTransaction>>)
        ensures
            final(self)@ == (TaskState {
                committed: old(self)@.committed + batches@,
                ..old(self)@
            }),
            final(self).spec_chain() == old(self).spec_chain(),
            final(self).spec_miner() == old(self).spec_miner(),
    {
        let ghost all = batches@;
        assert(all.take(0) =~= Seq::empty());
        assert(self@.committed =~= old(self)@.committed + all.take(0));
        for batch in it: batches
            invariant
                it.seq() == all,
                self@ == (TaskState {
                    committed: old(self)@.committed + all.take(it.index()),
                    ..old(self)@
                }),
                self.spec_chain() == old(self).spec_chain(),
                self.spec_miner() == old(self).spec_miner(),
        {
            self.queue_committed_transactions.push_back(batch);
            assert(all.take(it.index() + 1) =~= all.take(it.index()).push(all[it.index()]));
            assert(self@.committed =~= old(self)@.committed + all.take(it.index() + 1));
        }
        assert(all.take(all.len() as int) =~= all);
    }

    /// Queues the transactions of the pool whose nonce has not been queued before.
    fn queue_transactions(&mut self, best: Vec<PooledTransaction<T>>)
        ensures
            final(self)@ == (TaskState {
                queued: old(self)@.queued + accepted(old(self)@.seen, best@),
                seen: old(self)@.seen.union(nonces(best@)),
                ..old(self)@
            }),
            final(self).spec_chain() == old(self).spec_chain(),
            final(self).spec_miner() == old(self).spec_miner(),
    {
        let ghost all = best@;
        proof {
            assert(all.take(0) =~= Seq::empty());
            assert(self@.queued =~= old(self)@.queued + accepted(old(self)@.seen, all.take(0)));
            assert(self@.seen =~= old(self)@.seen.union(nonces(all.take(0))));
        }
        for transaction in it: best
            invariant
                it.seq() == all,
                self@ == (TaskState {
                    queued: old(self)@.queued + accepted(old(self)@.seen, all.take(it.index())),
                    seen: old(self)@.seen.union(nonces(all.take(it.index()))),
                    ..old(self)@
                }),
                self.spec_chain() == old(self).spec_chain(),
                self.spec_miner() == old(self).spec_miner(),
        {
            let ghost index = it.index();
            let ghost so_far = all.take(index);
            let ghost more = all.take(index + 1);
            proof {
                assert(more.drop_last() =~= so_far);
                assert(more.last() == all[index]);
                assert forall|nonce: u64| #[trigger]
                    nonces(more).contains(nonce) == nonces(so_far).insert(
                        all[index].nonce,
                    ).contains(nonce) by {
                    if nonces(so_far).contains(nonce) {
                        let k = choose|k: int|
                            0 <= k < so_far.len() && (#[trigger] so_far[k]).nonce == nonce;
                        assert(more[k].nonce == nonce);
                    }
                    if nonce == all[index].nonce {
                        assert(more[index].nonce == nonce);
                    }
                    if nonces(more).contains(nonce) && nonce != all[index].nonce {
                        let k = choose|k: int|
                            0 <= k < more.len() && (#[trigger] more[k]).nonce == nonce;
                        assert(so_far[k].nonce == nonce);
                    }
                }
                assert(is_new(old(self)@.seen, more, index) == !self@.seen.contains(
                    all[index].nonce,
                )) by {
                    let nonce = all[index].nonce;
                    if nonces(so_far).contains(nonce) {
                        let k = choose|k: int|
                            0 <= k < so_far.len() && (#[trigger] so_far[k]).nonce == nonce;
                        assert(more[k].nonce == nonce);
                    }
                    if !is_new(old(self)@.seen, more, index) && !old(self)@.seen.contains(nonce) {
                        let k = choose|k: int|
                            0 <= k < index && (#[trigger] more[k]).nonce == nonce;
                        assert(so_far[k].nonce == nonce);
                    }
                }
            }
            if !self.queued_txs.contains(&transaction.nonce) {
                self.queued_txs.insert(transaction.nonce);
                self.queued.push_back(transaction);
            }
            proof {
                assert(self@.queued =~= old(self)@.queued + accepted(old(self)@.seen, more));
                assert(self@.seen =~= old(self)@.seen.union(nonces(more)));
            }
        }
        assert(all.take(all.len() as int) =~= all);
    }

    /// Takes in what has come, and starts the next block where that can be done.
    ///
    /// `committed` holds the batches that the consensus layer has committed since the last step,
    /// and `best` the transactions of the pool, the best first. The caller drives the insertion:
    /// after `Insert` and after `Resume` it goes on with it, reports its end by `finish_insert`
    /// and then takes the next step; after `Wait` it sleeps until something comes in.
    pub fn step(
        &mut self,
        committed: Vec<Vec<ExternalTransaction>>,
        best: Vec<PooledTransaction<T>>,
    ) -> (action: TaskAction<T, E>)
        ensures
            takes_step(old(self)@.receive(committed@, best@), final(self)@, action),
            old(self)@.wf() ==> final(self)@.wf(),
            final(self).spec_chain() == old(self).spec_chain(),
            final(self).spec_miner() == old(self).spec_miner(),
    {
        let ghost received = self@.receive(committed@, best@);
        self.receive_committed(committed);
        self.queue_transactions(best);
        assert(self@ == received);
        proof {
            if old(self)@.wf() {
                lemma_receive_keeps_wf(old(self)@, committed@, best@);
            }
        }
        if self.insert_task {
            return TaskAction::Resume;
        }
        if self.queue_committed_transactions.len() == 0 {
            return TaskAction::Wait;
        }
        let committed_size: usize = self.queue_committed_transactions[0].len();
        if self.queued.len() < committed_size {
            return TaskAction::Wait;
        }
        let mut transactions: Vec<PooledTransaction<T>> = Vec::new();
        let mut taken: usize = 0;
        assert(received.queued.take(0) =~= Seq::empty());
        assert(received.queued.skip(0) =~= received.queued);
        while taken < committed_size
            invariant
                taken <= committed_size <= received.queued.len(),
                transactions@ == received.queued.take(taken as int),
                self@ == (TaskState { queued: received.queued.skip(taken as int), ..received }),
                self.spec_chain() == old(self).spec_chain(),
                self.spec_miner() == old(self).spec_miner(),
            decreases committed_size - taken,
        {
            let front = self.queued.pop_front();
            if let Some(transaction) = front {
                transactions.push(transaction);
            }
            proof {
                assert(received.queued.take(taken + 1) =~= received.queued.take(
                    taken as int,
                ).push(received.queued[taken as int]));
                assert(self@.queued =~= received.queued.skip(taken + 1));
            }
            taken = taken + 1;
        }
        let _ = self.queue_committed_transactions.pop_front();
        let events = self.pipe_line_events.take();
        self.insert_task = true;
        assert(self@.committed =~= received.committed.skip(1));
        let action = TaskAction::Insert(InsertJob { transactions, events });
        proof {
            if received.wf() {
                lemma_step_keeps_wf(received, self@, action, None);
            }
        }
        action
    }

    /// Reports that the insertion of the block has ended and has given `events` back.
    pub fn finish_insert(&mut self, events: Option<E>)
        requires
            old(self)@.inserting,
        ensures
            final(self)@ == old(self)@.finish(events),
            old(self)@.wf() ==> final(self)@.wf(),
            final(self).spec_chain() == old(self).spec_chain(),
            final(self).spec_miner() == old(self).spec_miner(),
    {
        self.insert_task = false;
        self.pipe_line_events = events;
    }
}

/// Only transactions with a nonce of their own are accepted, and none whose nonce was seen.
pub proof fn lemma_accepted_are_new<T>(seen: Set<u64>, transactions: Seq<PooledTransaction<T>>)
    ensures
        distinct_nonces(accepted(seen, transactions)),
        nonces(accepted(seen, transactions)).disjoint(seen),
        nonces(accepted(seen, transactions)).subset_of(nonces(transactions)),
    decreases transactions.len(),
{
    let result = accepted(seen, transactions);
    if transactions.len() > 0 {
        let rest = transactions.drop_last();
        lemma_accepted_are_new(seen, rest);
        let earlier = accepted(seen, rest);
        let last = transactions.len() - 1;
        assert forall|nonce: u64| nonces(result).contains(nonce) implies !seen.contains(nonce)
            && nonces(transactions).contains(nonce) by {
            let k = choose|k: int| 0 <= k < result.len() && (#[trigger] result[k]).nonce == nonce;
            if k < earlier.len() {
                assert(earlier[k].nonce == nonce);
                assert(nonces(earlier).contains(nonce));
                let m = choose|m: int| 0 <= m < rest.len() && (#[trigger] rest[m]).nonce == nonce;
                assert(transactions[m].nonce == nonce);
            } else {
                assert(transactions[last].nonce == nonce);
            }
        }
        assert forall|i: int, j: int| 0 <= i < j < result.len() implies (
        #[trigger] result[i]).nonce != (#[trigger] result[j]).nonce by {
            assert(earlier[i].nonce == result[i].nonce);
            if j == earlier.len() {
                assert(nonces(earlier).contains(result[i].nonce));
                let m = choose|m: int|
                    0 <= m < rest.len() && (#[trigger] rest[m]).nonce == result[i].nonce;
                assert(transactions[m].nonce == result[i].nonce);
            } else {
                assert(earlier[j].nonce == result[j].nonce);
            }
        }
    }
}

/// The queue stays well formed whatever comes in.
pub proof fn lemma_receive_keeps_wf<T, E>(
    state: TaskState<T, E>,
    batches: Seq<Vec<ExternalTransaction>>,
    best: Seq<PooledTransaction<T>>,
)
    requires
        state.wf(),
    ensures
        state.receive(batches, best).wf(),
{
    let fresh = accepted(state.seen, best);
    let after = state.receive(batches, best);
    lemma_accepted_are_new(state.seen, best);
    assert forall|nonce: u64| nonces(after.queued).contains(nonce) implies after.seen.contains(
        nonce,
    ) by {
        let k = choose|k: int|
            0 <= k < after.queued.len() && (#[trigger] after.queued[k]).nonce == nonce;
        if k < state.queued.len() {
            assert(state.queued[k].nonce == nonce);
            assert(nonces(state.queued).contains(nonce));
        } else {
            assert(fresh[k - state.queued.len()].nonce == nonce);
            assert(nonces(fresh).contains(nonce));
        }
    }
    assert forall|i: int, j: int| 0 <= i < j < after.queued.len() implies (
    #[trigger] after.queued[i]).nonce != (#[trigger] after.queued[j]).nonce by {
        let split = state.queued.len();
        if j >= split {
            let new = fresh[j - split];
            assert(nonces(fresh).contains(new.nonce));
            if i < split {
                assert(nonces(state.queued).contains(state.queued[i].nonce));
            } else {
                assert(fresh[i - split].nonce != new.nonce);
            }
        }
    }
}

/// A step keeps the queue well formed, and so does the end of an insertion.
pub proof fn lemma_step_keeps_wf<T, E>(
    before: TaskState<T, E>,
    after: TaskState<T, E>,
    action: TaskAction<T, E>,
    events: Option<E>,
)
    requires
        before.wf(),
        takes_step(before, after, action),
    ensures
        after.wf(),
        after.finish(events).wf(),
{
    if !before.inserting && before.can_start() {
        let size = before.block_size() as int;
        assert forall|nonce: u64| nonces(after.queued).contains(nonce) implies after.seen.contains(
            nonce,
        ) by {
            let k = choose|k: int|
                0 <= k < after.queued.len() && (#[trigger] after.queued[k]).nonce == nonce;
            assert(before.queued[k + size].nonce == nonce);
            assert(nonces(before.queued).contains(nonce));
        }
        assert forall|i: int, j: int| 0 <= i < j < after.queued.len() implies (
        #[trigger] after.queued[i]).nonce != (#[trigger] after.queued[j]).nonce by {
            assert(before.queued[i + size].nonce != before.queued[j + size].nonce);
        }
    }
}

/// A nonce that was once queued is never queued again: whatever comes in later, a transaction with
/// that nonce is not among those that join the queue.
pub proof fn lemma_seen_nonce_is_not_queued_again<T, E>(
    state: TaskState<T, E>,
    batches: Seq<Vec<ExternalTransaction>>,
    best: Seq<PooledTransaction<T>>,
    nonce: u64,
)
    requires
        state.seen.contains(nonce),
    ensures
        state.receive(batches, best).seen.contains(nonce),
        state.receive(batches, best).queued == state.queued + accepted(state.seen, best),
        !nonces(accepted(state.seen, best)).contains(nonce),
{
    lemma_accepted_are_new(state.seen, best);
}

/// A block answers one committed batch, the oldest: it holds as many transactions as the batch,
/// those that have waited longest, in their order, and nothing is lost. The nonces in it are
/// distinct from each other and from those that stay in the queue.
pub proof fn lemma_block_answers_oldest_batch<T, E>(
    before: TaskState<T, E>,
    after: TaskState<T, E>,
    job: InsertJob<T, E>,
)
    requires
        before.wf(),
        takes_step(before, after, TaskAction::Insert(job)),
    ensures
        job.transactions@.len() == before.committed[0]@.len(),
        before.queued == job.transactions@ + after.queued,
        before.committed == seq![before.committed[0]] + after.committed,
        distinct_nonces(job.transactions@),
        nonces(job.transactions@).disjoint(nonces(after.queued)),
{
    let block = job.transactions@;
    assert(before.queued =~= block + after.queued);
    assert(before.committed =~= seq![before.committed[0]] + after.committed);
    assert forall|i: int, j: int| 0 <= i < j < block.len() implies (#[trigger] block[i]).nonce != (
    #[trigger] block[j]).nonce by {
        assert(before.queued[i].nonce != before.queued[j].nonce);
    }
    assert forall|nonce: u64| nonces(block).contains(nonce) implies !nonces(
        after.queued,
    ).contains(nonce) by {
        let i = choose|i: int| 0 <= i < block.len() && (#[trigger] block[i]).nonce == nonce;
        if nonces(after.queued).contains(nonce) {
            let k = choose|k: int|
                0 <= k < after.queued.len() && (#[trigger] after.queued[k]).nonce == nonce;
            assert(before.queued[i].nonce != before.queued[k + block.len()].nonce);
        }
    }
}

/// At most one block is inserted at a time: a step starts one only where none is being inserted,
/// and from then on the next step starts none until the insertion has ended.
pub proof fn lemma_one_insertion_at_a_time<T, E>(
    before: TaskState<T, E>,
    after: TaskState<T, E>,
    job: InsertJob<T, E>,
    batches: Seq<Vec<ExternalTransaction>>,
    best: Seq<PooledTransaction<T>>,
    later: TaskState<T, E>,
    action: TaskAction<T, E>,
)
    requires
        takes_step(before, after, TaskAction::Insert(job)),
        takes_step(after.receive(batches, best), later, action),
    ensures
        !before.inserting,
        after.inserting,
        action is Resume,
        later.inserting,
{
}

/// The task does not wait once as many transactions are queued as the oldest batch holds.
pub proof fn lemma_full_batch_is_inserted<T, E>(
    before: TaskState<T, E>,
    after: TaskState<T, E>,
    action: TaskAction<T, E>,
)
    requires
        takes_step(before, after, action),
        before.committed.len() > 0,
        before.queued.len() >= before.committed[0]@.len(),
    ensures
        !(action is Wait),
{
}

} // verus!
