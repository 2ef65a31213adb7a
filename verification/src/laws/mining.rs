//! Laws of the miners and of the mining task.

use vstd::prelude::*;
use crate::mode::{
    self, FixedBlockTimeMiner, MinerEvents, NarwhalState, NarwhalTransactionMiner, Polled,
    ReadyTransactionMiner, ScalarMiningMode,
};
use crate::primitives::TxHash;
use crate::task::{self, InsertJob, TaskAction, TaskState};
use crate::transaction::{ExternalTransaction, PooledTransaction};

verus! {

/// A miner that is not sure that nothing is pending puts as many of the best transactions in the
/// block as there are, or as fit in one, whatever number of hashes came in. It takes the pool for
/// drained only where they all went into the block.
pub proof fn lemma_instant_block_is_full<T>(
    miner: ReadyTransactionMiner,
    notified: nat,
    best: Seq<T>,
    after: ReadyTransactionMiner,
    result: Polled<Seq<T>>,
)
    requires
        miner.polls(notified, best, after, result),
        notified > 0 || miner.has_pending_txs is None || miner.has_pending_txs == Some(true),
    ensures
        result is Pending <==> best.len() == 0 || miner.max_transactions == 0,
        result matches Polled::Ready(items) ==> {
            &&& items.len() <= best.len() && items.len() <= miner.max_transactions
            &&& items.len() == best.len() || items.len() == miner.max_transactions
            &&& forall|i: int| 0 <= i < items.len() ==> items[i] == best[i]
        },
        after.max_transactions == miner.max_transactions,
        after.has_pending_txs == Some(best.len() >= miner.max_transactions),
        after.has_pending_txs == Some(false) ==> (result matches Polled::Ready(items) ==> items
            == best),
        after.has_pending_txs == Some(false) && result is Pending ==> best.len() == 0,
{
    if let Polled::Ready(items) = result {
        if after.has_pending_txs == Some(false) {
            assert(items =~= best);
        }
    }
}

/// A miner that knows that nothing is pending stays as it is and is silent until a hash comes in.
pub proof fn lemma_drained_miner_is_silent<T>(
    miner: ReadyTransactionMiner,
    best: Seq<T>,
    after: ReadyTransactionMiner,
    result: Polled<Seq<T>>,
)
    requires
        miner.polls(0, best, after, result),
        miner.has_pending_txs == Some(false),
    ensures
        after == miner,
        result is Pending,
{
}

/// It makes no difference how many hashes came in, as long as some did.
pub proof fn lemma_number_of_hashes_does_not_matter<T>(
    miner: ReadyTransactionMiner,
    notified: nat,
    other_notified: nat,
    best: Seq<T>,
    after: ReadyTransactionMiner,
    result: Polled<Seq<T>>,
    other_after: ReadyTransactionMiner,
    other_result: Polled<Seq<T>>,
)
    requires
        notified > 0,
        other_notified > 0,
        miner.polls(notified, best, after, result),
        miner.polls(other_notified, best, other_after, other_result),
    ensures
        after == other_after,
        result == other_result,
{
}

/// The interval miner puts all transactions of the pool in a block at a tick, and answers nothing
/// between ticks.
pub proof fn lemma_interval_block_is_the_pool<T>(
    miner: FixedBlockTimeMiner,
    ticked: bool,
    best: Seq<T>,
    after: FixedBlockTimeMiner,
    result: Polled<Seq<T>>,
)
    requires
        miner.polls(ticked, best, after, result),
    ensures
        after == miner,
        ticked ==> (result matches Polled::Ready(items) && items == best),
        !ticked ==> result is Pending,
{
}

/// A mode answers what its miner answers: the idle mode nothing, and each of the others by the
/// events that its miner listens for alone.
pub proof fn lemma_mode_answers_by_its_miner<T>(
    mode: ScalarMiningMode,
    events: MinerEvents,
    best: Seq<T>,
    after: ScalarMiningMode,
    result: Polled<Seq<T>>,
)
    requires
        mode.polls(events, best, after, result),
    ensures
        mode is Idle ==> after is Idle && result is Pending,
        mode matches ScalarMiningMode::Auto(miner) ==> (after matches ScalarMiningMode::Auto(next)
            && miner.polls(events.pending@.len(), best, next, result)),
        mode matches ScalarMiningMode::Narwhal(miner) ==> (
        after matches ScalarMiningMode::Narwhal(next) && miner.polls(
            events.commited@,
            events.pending@,
            best,
            next,
            result,
        )),
        mode matches ScalarMiningMode::FixedBlockTime(miner) ==> (
        after matches ScalarMiningMode::FixedBlockTime(next) && miner.polls(
            events.ticked,
            best,
            next,
            result,
        )),
{
}

/// The pool is asked wherever its transactions can matter: by the instant mode unless nothing is
/// known to be pending, by the interval mode at a tick, and by the Narwhal mode where a hash at the
/// front of the queue can be used up. What is taken for its answer is then what it gave.
pub proof fn lemma_pool_is_asked_where_it_matters<T, B: FnOnce() -> Vec<T>>(
    mode: ScalarMiningMode,
    events: MinerEvents,
    best: B,
    pool: Vec<T>,
)
    requires
        mode::is_asked_if(mode.looks(events), best, pool),
    ensures
        mode matches ScalarMiningMode::Auto(miner) && (events.pending@.len() > 0
            || miner.has_pending_txs != Some(false)) ==> call_ensures(best, (), pool),
        mode is FixedBlockTime && events.ticked ==> call_ensures(best, (), pool),
        mode matches ScalarMiningMode::Narwhal(miner) && miner@.receive(
            events.commited@,
            events.pending@,
        ).mineable() > 0 ==> call_ensures(best, (), pool),
{
}

/// A mode looks into the pool exactly where it can use what it finds: the idle mode never does, the
/// instant mode unless nothing is known to be pending, the interval mode at a tick, and the Narwhal
/// mode where the first pending hash is committed and no more hashes are pending than committed.
pub proof fn lemma_modes_look_where_needed(mode: ScalarMiningMode, events: MinerEvents)
    ensures
        mode is Idle ==> !mode.looks(events),
        mode matches ScalarMiningMode::Auto(miner) ==> (mode.looks(events) <==>
            events.pending@.len() > 0 || miner.has_pending_txs != Some(false)),
        mode is FixedBlockTime ==> (mode.looks(events) <==> events.ticked),
        mode matches ScalarMiningMode::Narwhal(miner) ==> {
            let received = miner@.receive(events.commited@, events.pending@);
            mode.looks(events) <==> {
                &&& received.pending.len() > 0
                &&& received.pending.len() <= received.commited.len()
                &&& received.commited.contains(received.pending[0])
            }
        },
{
    if let ScalarMiningMode::Narwhal(miner) = mode {
        lemma_narwhal_mines_longest_run(miner@.receive(events.commited@, events.pending@), 1);
    }
}

/// What has come in: the committed hashes are those that were known and those of all the
/// transactions of all the batches, and the pending ones queue up behind those that waited.
pub proof fn lemma_narwhal_takes_in_everything(
    state: NarwhalState,
    batches: Seq<Vec<ExternalTransaction>>,
    hashes: Seq<TxHash>,
)
    ensures
        ({
            let received = state.receive(batches, hashes);
            &&& forall|bytes: Seq<u8>|
                #![trigger received.commited.contains(bytes)]
                received.commited.contains(bytes) <==> (state.commited.contains(bytes) || exists|
                    i: int,
                    j: int,
                |
                    #![trigger batches[i]@[j]]
                    0 <= i < batches.len() && 0 <= j < batches[i]@.len()
                        && batches[i]@[j].tx_bytes@ == bytes)
            &&& received.pending.len() == state.pending.len() + hashes.len()
            &&& forall|i: int|
                #![trigger received.pending[i]]
                0 <= i < state.pending.len() ==> received.pending[i] == state.pending[i]
            &&& forall|i: int|
                #![trigger hashes[i]]
                0 <= i < hashes.len() ==> received.pending[state.pending.len() + i]
                    == hashes[i].bytes@
        }),
{
    let received = state.receive(batches, hashes);
    assert forall|bytes: Seq<u8>|
        #![trigger received.commited.contains(bytes)]
        received.commited.contains(bytes) <==> (state.commited.contains(bytes) || exists|
            i: int,
            j: int,
        |
            #![trigger batches[i]@[j]]
            0 <= i < batches.len() && 0 <= j < batches[i]@.len() && batches[i]@[j].tx_bytes@
                == bytes) by {
        if mode::batch_bytes(batches).contains(bytes) {
            let i = choose|i: int|
                0 <= i < batches.len() && mode::bytes_of((#[trigger] batches[i])@).contains(bytes);
            let j = choose|j: int|
                0 <= j < batches[i]@.len() && (#[trigger] batches[i]@[j]).tx_bytes@ == bytes;
            assert(batches[i]@[j].tx_bytes@ == bytes);
        }
        if exists|i: int, j: int|
            #![trigger batches[i]@[j]]
            0 <= i < batches.len() && 0 <= j < batches[i]@.len() && batches[i]@[j].tx_bytes@
                == bytes {
            let (i, j) = choose|i: int, j: int|
                #![trigger batches[i]@[j]]
                0 <= i < batches.len() && 0 <= j < batches[i]@.len() && batches[i]@[j].tx_bytes@
                    == bytes;
            assert(mode::bytes_of(batches[i]@).contains(bytes));
        }
    }
}

/// While there are more pending hashes than committed ones, none can be mined. Else as many can be
/// mined as there are, at the front of the queue, committed hashes that are distinct: a run of that
/// length is mined, and no longer one is.
pub proof fn lemma_narwhal_mines_longest_run(state: NarwhalState, count: nat)
    ensures
        state.pending.len() > state.commited.len() ==> state.mineable() == 0,
        state.pending.len() <= state.commited.len() ==> (count <= state.mineable() <==> {
            &&& count <= state.pending.len()
            &&& forall|i: int|
                0 <= i < count ==> state.commited.contains(#[trigger] state.pending[i])
            &&& forall|i: int, j: int|
                0 <= i < j < count ==> #[trigger] state.pending[i] != #[trigger] state.pending[j]
        }),
        state.mineable() <= state.pending.len(),
{
    mode::lemma_match_is_longest(state.commited, state.pending, count);
    mode::lemma_match_is_longest(state.commited, state.pending, state.mineable());
    mode::lemma_match_is_longest(
        state.commited,
        state.pending,
        mode::match_len(state.commited, state.pending),
    );
}

/// The hashes that are mined leave the queue at its front and leave the committed ones. All others
/// stay, in their order.
pub proof fn lemma_narwhal_uses_up_what_it_mines(state: NarwhalState, count: nat)
    requires
        count <= state.pending.len(),
    ensures
        ({
            let left = state.consume(count);
            &&& left.pending.len() == state.pending.len() - count
            &&& forall|i: int|
                #![trigger left.pending[i]]
                0 <= i < left.pending.len() ==> left.pending[i] == state.pending[count + i]
            &&& forall|bytes: Seq<u8>|
                #![trigger left.commited.contains(bytes)]
                left.commited.contains(bytes) <==> state.commited.contains(bytes) && forall|i: int|
                    0 <= i < count ==> #[trigger] state.pending[i] != bytes
        }),
{
    let left = state.consume(count);
    let used = state.pending.take(count as int);
    assert forall|bytes: Seq<u8>|
        #![trigger left.commited.contains(bytes)]
        left.commited.contains(bytes) <==> state.commited.contains(bytes) && forall|i: int|
            0 <= i < count ==> #[trigger] state.pending[i] != bytes by {
        if used.contains(bytes) {
            let i = choose|i: int| 0 <= i < used.len() && used[i] == bytes;
            assert(state.pending[i] == bytes);
        }
        if exists|i: int| 0 <= i < count && #[trigger] state.pending[i] == bytes {
            let i = choose|i: int| 0 <= i < count && #[trigger] state.pending[i] == bytes;
            assert(used[i] == bytes);
        }
    }
}

/// A poll of the Narwhal miner mines the longest run of distinct committed hashes at the front of
/// the queue, once there are at least as many committed hashes as pending ones, and puts one
/// transaction of the pool, the best first, in the block for each of them, as far as there are
/// transactions.
pub proof fn lemma_narwhal_block_follows_commits<T>(
    miner: NarwhalTransactionMiner,
    commited: Seq<Vec<ExternalTransaction>>,
    pending: Seq<TxHash>,
    best: Seq<T>,
    after: NarwhalTransactionMiner,
    result: Polled<Seq<T>>,
)
    requires
        miner.polls(commited, pending, best, after, result),
    ensures
        ({
            let received = miner@.receive(commited, pending);
            let mined = received.pending.len() - after@.pending.len();
            &&& 0 <= mined <= received.pending.len()
            &&& forall|i: int|
                #![trigger after@.pending[i]]
                0 <= i < after@.pending.len() ==> after@.pending[i] == received.pending[mined + i]
            &&& forall|bytes: Seq<u8>|
                #![trigger after@.commited.contains(bytes)]
                after@.commited.contains(bytes) <==> received.commited.contains(bytes) && forall|
                    i: int,
                |
                    0 <= i < mined ==> #[trigger] received.pending[i] != bytes
            &&& received.pending.len() > received.commited.len() ==> mined == 0
            &&& forall|i: int|
                0 <= i < mined ==> received.commited.contains(#[trigger] received.pending[i])
            &&& received.pending.len() <= received.commited.len() && mined < received.pending.len()
                ==> !after@.commited.contains(received.pending[mined])
            &&& result is Pending <==> mined == 0 || best.len() == 0
            &&& result matches Polled::Ready(items) ==> {
                &&& items.len() <= best.len() && items.len() <= mined
                &&& items.len() == best.len() || items.len() == mined
                &&& forall|i: int| 0 <= i < items.len() ==> items[i] == best[i]
            }
            &&& after.spec_max_transactions() == miner.spec_max_transactions()
            &&& after.spec_has_pending_txs() == miner.spec_has_pending_txs()
        }),
{
    let received = miner@.receive(commited, pending);
    let count = received.mineable();
    lemma_narwhal_mines_longest_run(received, count);
    lemma_narwhal_mines_longest_run(received, count + 1);
    lemma_narwhal_uses_up_what_it_mines(received, count);
    if received.pending.len() <= received.commited.len() && count < received.pending.len() {
        let next = received.pending[count as int];
        if after@.commited.contains(next) {
            assert forall|i: int| 0 <= i < count + 1 implies received.commited.contains(
                #[trigger] received.pending[i],
            ) by {}
            assert forall|i: int, j: int|
                0 <= i < j < count + 1 implies #[trigger] received.pending[i]
                != #[trigger] received.pending[j] by {
                if j == count {
                    assert(received.pending[i] != next);
                }
            }
        }
    }
}

/// Nothing new is left out of the queue, and nothing that is not new joins it: those that join are
/// the transactions of the pool whose nonce was not seen before, the first one with each such nonce,
/// in the order in which the pool offers them.
pub proof fn lemma_all_new_transactions_join<T>(
    seen: Set<u64>,
    best: Seq<PooledTransaction<T>>,
) -> (indices: Seq<int>)
    ensures
        indices.len() == task::accepted(seen, best).len(),
        forall|k: int|
            #![trigger indices[k]]
            0 <= k < indices.len() ==> {
                &&& 0 <= indices[k] < best.len()
                &&& task::accepted(seen, best)[k] == best[indices[k]]
                &&& !seen.contains(best[indices[k]].nonce)
            },
        forall|k: int, m: int|
            0 <= k < m < indices.len() ==> #[trigger] indices[k] < #[trigger] indices[m],
        forall|i: int|
            #![trigger best[i]]
            0 <= i < best.len() && !seen.contains(best[i].nonce) && (forall|j: int|
                0 <= j < i ==> (#[trigger] best[j]).nonce != best[i].nonce) ==> indices.contains(i),
        forall|k: int, j: int|
            #![trigger indices[k], best[j]]
            0 <= k < indices.len() && 0 <= j < indices[k] ==> best[j].nonce
                != best[indices[k]].nonce,
    decreases best.len(),
{
    if best.len() == 0 {
        Seq::empty()
    } else {
        let rest = best.drop_last();
        let last = best.len() - 1;
        let earlier = lemma_all_new_transactions_join(seen, rest);
        let new = task::is_new(seen, best, last);
        let indices = if new {
            earlier.push(last)
        } else {
            earlier
        };
        assert forall|k: int|
            #![trigger indices[k]]
            0 <= k < indices.len() implies {
            &&& 0 <= indices[k] < best.len()
            &&& task::accepted(seen, best)[k] == best[indices[k]]
            &&& !seen.contains(best[indices[k]].nonce)
        } by {
            if k < earlier.len() {
                assert(indices[k] == earlier[k]);
                assert(rest[earlier[k]] == best[earlier[k]]);
            }
        }
        assert forall|k: int, m: int| 0 <= k < m < indices.len() implies #[trigger] indices[k]
            < #[trigger] indices[m] by {
            assert(indices[k] == earlier[k]);
            if m < earlier.len() {
                assert(indices[m] == earlier[m]);
            }
        }
        assert forall|i: int|
            #![trigger best[i]]
            0 <= i < best.len() && !seen.contains(best[i].nonce) && (forall|j: int|
                0 <= j < i ==> (#[trigger] best[j]).nonce
                    != best[i].nonce) implies indices.contains(i) by {
            if i == last {
                assert(indices[earlier.len() as int] == last);
            } else {
                assert(rest[i] == best[i]);
                assert forall|j: int| 0 <= j < i implies (#[trigger] rest[j]).nonce
                    != rest[i].nonce by {
                    assert(best[j].nonce != best[i].nonce);
                }
                assert(earlier.contains(i));
                let k = choose|k: int| 0 <= k < earlier.len() && earlier[k] == i;
                assert(indices[k] == i);
            }
        }
        assert forall|k: int, j: int|
            #![trigger indices[k], best[j]]
            0 <= k < indices.len() && 0 <= j < indices[k] implies best[j].nonce
            != best[indices[k]].nonce by {
            if k < earlier.len() {
                assert(indices[k] == earlier[k]);
                assert(rest[j] == best[j]);
                assert(rest[earlier[k]] == best[earlier[k]]);
            }
        }
        indices
    }
}

/// The nonces that join the queue are exactly those that the pool offers and that were not seen.
pub proof fn lemma_joining_nonces_are_the_unseen<T>(
    seen: Set<u64>,
    best: Seq<PooledTransaction<T>>,
    nonce: u64,
)
    ensures
        (exists|k: int|
            #![trigger task::accepted(seen, best)[k]]
            0 <= k < task::accepted(seen, best).len() && task::accepted(seen, best)[k].nonce
                == nonce) <==> !seen.contains(nonce) && exists|i: int|
            0 <= i < best.len() && (#[trigger] best[i]).nonce == nonce,
{
    let joined = task::accepted(seen, best);
    let indices = lemma_all_new_transactions_join(seen, best);
    if exists|k: int|
        #![trigger task::accepted(seen, best)[k]]
        0 <= k < task::accepted(seen, best).len() && task::accepted(seen, best)[k].nonce == nonce {
        let k = choose|k: int|
            #![trigger task::accepted(seen, best)[k]]
            0 <= k < task::accepted(seen, best).len() && task::accepted(seen, best)[k].nonce
                == nonce;
        assert(joined[k] == best[indices[k]]);
    }
    if !seen.contains(nonce) && exists|i: int|
        0 <= i < best.len() && (#[trigger] best[i]).nonce == nonce {
        let i = choose|i: int| 0 <= i < best.len() && (#[trigger] best[i]).nonce == nonce;
        let first = lemma_first_with_nonce(best, i);
        assert(indices.contains(first));
        let k = choose|k: int| 0 <= k < indices.len() && indices[k] == first;
        assert(joined[k] == best[indices[k]]);
    }
}

/// Among the transactions with a nonce there is a first one.
proof fn lemma_first_with_nonce<T>(best: Seq<PooledTransaction<T>>, index: int) -> (first: int)
    requires
        0 <= index < best.len(),
    ensures
        0 <= first <= index,
        best[first].nonce == best[index].nonce,
        forall|j: int| 0 <= j < first ==> (#[trigger] best[j]).nonce != best[first].nonce,
    decreases index,
{
    if exists|j: int| 0 <= j < index && (#[trigger] best[j]).nonce == best[index].nonce {
        let j = choose|j: int| 0 <= j < index && (#[trigger] best[j]).nonce == best[index].nonce;
        lemma_first_with_nonce(best, j)
    } else {
        index
    }
}

/// What has come in joins the task: the new batches behind those that wait, the new transactions
/// behind those that are queued, and the nonces that the pool offers to those that were seen.
pub proof fn lemma_task_takes_in_everything<T, E>(
    state: TaskState<T, E>,
    batches: Seq<Vec<ExternalTransaction>>,
    best: Seq<PooledTransaction<T>>,
)
    ensures
        ({
            let received = state.receive(batches, best);
            let joined = task::accepted(state.seen, best);
            &&& received.committed.len() == state.committed.len() + batches.len()
            &&& forall|i: int|
                #![trigger state.committed[i]]
                0 <= i < state.committed.len() ==> received.committed[i] == state.committed[i]
            &&& forall|i: int|
                #![trigger batches[i]]
                0 <= i < batches.len() ==> received.committed[state.committed.len() + i]
                    == batches[i]
            &&& received.queued.len() == state.queued.len() + joined.len()
            &&& forall|i: int|
                #![trigger state.queued[i]]
                0 <= i < state.queued.len() ==> received.queued[i] == state.queued[i]
            &&& forall|i: int|
                #![trigger joined[i]]
                0 <= i < joined.len() ==> received.queued[state.queued.len() + i] == joined[i]
            &&& forall|nonce: u64|
                #![trigger received.seen.contains(nonce)]
                received.seen.contains(nonce) <==> state.seen.contains(nonce) || exists|i: int|
                    0 <= i < best.len() && (#[trigger] best[i]).nonce == nonce
            &&& received.inserting == state.inserting
            &&& received.events == state.events
        }),
{
}

/// A task inserts a block exactly where none is being inserted, a batch waits and at least as many
/// transactions are queued as the oldest batch holds. The block takes that many off the front of the
/// queue, in their order, and the batch with it.
pub proof fn lemma_task_answers_batches<T, E>(
    before: TaskState<T, E>,
    after: TaskState<T, E>,
    action: TaskAction<T, E>,
)
    requires
        task::takes_step(before, after, action),
    ensures
        action is Resume <==> before.inserting,
        action is Insert <==> !before.inserting && before.committed.len() > 0
            && before.queued.len() >= before.committed[0]@.len(),
        !(action is Insert) ==> after == before,
        action matches TaskAction::Insert(job) ==> {
            let size = before.committed[0]@.len() as int;
            &&& job.transactions@.len() == size
            &&& forall|i: int|
                #![trigger job.transactions@[i]]
                0 <= i < size ==> job.transactions@[i] == before.queued[i]
            &&& job.events == before.events
            &&& after.queued.len() == before.queued.len() - size
            &&& forall|i: int|
                #![trigger after.queued[i]]
                0 <= i < after.queued.len() ==> after.queued[i] == before.queued[size + i]
            &&& after.committed.len() == before.committed.len() - 1
            &&& forall|i: int|
                #![trigger after.committed[i]]
                0 <= i < after.committed.len() ==> after.committed[i] == before.committed[i + 1]
            &&& after.seen == before.seen
            &&& after.inserting
            &&& after.events is None
        },
{
}

/// The end of an insertion lets the next one start, and gives back the events that it was lent or
/// none. Nothing else changes.
pub proof fn lemma_end_of_insertion<T, E>(state: TaskState<T, E>, events: Option<E>)
    ensures
        ({
            let after = state.finish(events);
            &&& !after.inserting
            &&& after.events == events
            &&& after.queued == state.queued
            &&& after.committed == state.committed
            &&& after.seen == state.seen
        }),
{
}

/// As many transactions as a batch holds, offered in any order of their nonces, are a block: where
/// no block is being inserted, no batch and no transaction waits, and the pool offers transactions
/// with nonces that are new and distinct, the block is made of the first of them.
pub proof fn lemma_pool_fills_the_block<T, E>(
    state: TaskState<T, E>,
    batch: Vec<ExternalTransaction>,
    best: Seq<PooledTransaction<T>>,
    after: TaskState<T, E>,
    action: TaskAction<T, E>,
)
    requires
        !state.inserting,
        state.committed.len() == 0,
        state.queued.len() == 0,
        batch@.len() <= best.len(),
        forall|i: int| 0 <= i < best.len() ==> !state.seen.contains((#[trigger] best[i]).nonce),
        forall|i: int, j: int|
            0 <= i < j < best.len() ==> (#[trigger] best[i]).nonce != (#[trigger] best[j]).nonce,
        task::takes_step(state.receive(seq![batch], best), after, action),
    ensures
        action matches TaskAction::Insert(job) && {
            &&& job.transactions@.len() == batch@.len()
            &&& forall|i: int|
                #![trigger job.transactions@[i]]
                0 <= i < batch@.len() ==> job.transactions@[i] == best[i]
        },
{
    lemma_distinct_new_ones_all_join(state.seen, best);
    let received = state.receive(seq![batch], best);
    assert(received.queued =~= best);
    assert(received.committed[0] == batch);
    lemma_task_answers_batches(received, after, action);
}

/// Transactions with new and distinct nonces all join the queue.
proof fn lemma_distinct_new_ones_all_join<T>(seen: Set<u64>, best: Seq<PooledTransaction<T>>)
    requires
        forall|i: int| 0 <= i < best.len() ==> !seen.contains((#[trigger] best[i]).nonce),
        forall|i: int, j: int|
            0 <= i < j < best.len() ==> (#[trigger] best[i]).nonce != (#[trigger] best[j]).nonce,
    ensures
        task::accepted(seen, best) == best,
    decreases best.len(),
{
    if best.len() > 0 {
        let rest = best.drop_last();
        assert forall|i: int| 0 <= i < rest.len() implies !seen.contains(
            (#[trigger] rest[i]).nonce,
        ) by {
            assert(rest[i] == best[i]);
        }
        assert forall|i: int, j: int| 0 <= i < j < rest.len() implies (#[trigger] rest[i]).nonce
            != (#[trigger] rest[j]).nonce by {
            assert(best[i].nonce != best[j].nonce);
        }
        lemma_distinct_new_ones_all_join(seen, rest);
        assert(task::is_new(seen, best, best.len() - 1));
        assert(rest.push(best.last()) =~= best);
    } else {
        assert(task::accepted(seen, best) =~= best);
    }
}

} // verus!
