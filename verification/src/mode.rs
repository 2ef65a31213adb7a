//! The modes in which the miner picks transactions for the next block.

use std::collections::VecDeque;
use vstd::prelude::*;
use crate::byte_set::{self, ByteSet};
use crate::debug;
use crate::primitives::TxHash;
use crate::transaction::ExternalTransaction;

verus! {

/// What a miner says when it is polled.
#[derive(Debug, PartialEq, Eq)]
pub enum Polled<B> {
    /// There is nothing to put in a block yet.
    Pending,
    /// A block can be built from this.
    Ready(B),
}

/// A span of time, in seconds and further nanoseconds.
#[derive(Clone, Copy, Debug, PartialEq, Eq)]
pub struct BlockTime {
    pub secs: u64,
    pub nanos: u32,
}

/// The first `count` items of a list, or all of them where there are fewer.
pub open spec fn at_most<T>(items: Seq<T>, count: nat) -> Seq<T> {
    if count < items.len() {
        items.take(count as int)
    } else {
        items
    }
}

/// What comes of a selection of transactions: an empty one makes no block.
pub open spec fn unless_empty<T>(items: Seq<T>) -> Polled<Seq<T>> {
    if items.len() == 0 {
        Polled::Pending
    } else {
        Polled::Ready(items)
    }
}

impl<T> View for Polled<Vec<T>> {
    type V = Polled<Seq<T>>;

    open spec fn view(&self) -> Polled<Seq<T>> {
        match self {
            Polled::Pending => Polled::Pending,
            Polled::Ready(items) => Polled::Ready(items@),
        }
    }
}

/// The transactions are what the pool gave, where it was asked.
pub open spec fn is_asked_if<T, B: FnOnce() -> Vec<T>>(
    looks: bool,
    best: B,
    pool: Vec<T>,
) -> bool {
    looks ==> call_ensures(best, (), pool)
}

/// Keeps the first `count` of the best transactions; an empty selection makes no block.
pub fn select<T>(best: Vec<T>, count: usize) -> (result: Polled<Vec<T>>)
    ensures
        result@ == unless_empty(at_most(best@, count as nat)),
        result is Pending <==> best@.len() == 0 || count == 0,
        result matches Polled::Ready(items) ==> {
            &&& items@.len() <= best@.len() && items@.len() <= count
            &&& items@.len() == best@.len() || items@.len() == count
            &&& forall|i: int| 0 <= i < items@.len() ==> items@[i] == best@[i]
        },
{
    let mut selected = best;
    selected.truncate(count);
    assert(selected@ =~= at_most(best@, count as nat));
    if selected.len() == 0 {
        Polled::Pending
    } else {
        Polled::Ready(selected)
    }
}

/// A miner that creates a block at every tick of an interval, out of all the transactions that
/// are ready at that time.
#[derive(Debug)]
pub struct FixedBlockTimeMiner {
    period: BlockTime,
}

impl FixedBlockTimeMiner {
    /// The time between two ticks.
    pub closed spec fn spec_period(self) -> BlockTime {
        self.period
    }

    /// A miner that ticks once per `duration`. A timer cannot tick with a period of zero.
    pub fn new(duration: BlockTime) -> (result: FixedBlockTimeMiner)
        requires
            duration.secs > 0 || duration.nanos > 0,
        ensures
            result.spec_period() == duration,
    {
        FixedBlockTimeMiner { period: duration }
    }

    /// The time between two ticks.
    pub fn period(&self) -> (result: BlockTime)
        ensures
            result == self.spec_period(),
    {
        self.period
    }

    /// What a poll does to the miner (`after`) and what it answers: at a tick all the best
    /// transactions, even if there are none, and else nothing.
    pub open spec fn polls<T>(
        self,
        ticked: bool,
        best: Seq<T>,
        after: FixedBlockTimeMiner,
        result: Polled<Seq<T>>,
    ) -> bool {
        &&& after == self
        &&& result == if ticked {
            Polled::Ready(best)
        } else {
            Polled::Pending
        }
    }

    /// At a tick, all the best transactions, even if there are none; else nothing. The pool is
    /// asked for them, by `best`, only at a tick.
    pub fn poll<T, B: FnOnce() -> Vec<T>>(&mut self, ticked: bool, best: B) -> (result: Polled<
        Vec<T>,
    >)
        requires
            ticked ==> call_requires(best, ()),
        ensures
            exists|pool: Vec<T>|
                {
                    &&& #[trigger] is_asked_if(ticked, best, pool)
                    &&& old(self).polls(ticked, pool@, *final(self), result@)
                },
    {
        if ticked {
            let pool = best();
            assert(is_asked_if(ticked, best, pool));
            return Polled::Ready(pool);
        }
        assert(is_asked_if(ticked, best, arbitrary::<Vec<T>>()));
        Polled::Pending
    }
}

impl Default for FixedBlockTimeMiner {
    /// The default block time is six seconds.
    fn default() -> (result: FixedBlockTimeMiner)
        ensures
            result.spec_period() == (BlockTime { secs: 6, nanos: 0 }),
    {
        FixedBlockTimeMiner::new(BlockTime { secs: 6, nanos: 0 })
    }
}

/// A miner that listens for transactions that become ready.
pub struct ReadyTransactionMiner {
    /// How many transactions to mine per block.
    pub max_transactions: usize,
    /// Whether there are pending transactions, if known.
    pub has_pending_txs: Option<bool>,
}

impl core::fmt::Debug for ReadyTransactionMiner {
    /// Shows how many transactions the miner puts in a block.
    fn fmt(&self, f: &mut core::fmt::Formatter<'_>) -> core::fmt::Result {
        let mut output = debug::begin_struct(f, "ReadyTransactionMiner");
        debug::write_count(&mut output, "max_transactions", self.max_transactions);
        debug::finish_with_more(&mut output)
    }
}

impl ReadyTransactionMiner {
    /// Whether the miner looks into the pool, once `notified` hashes have come in: it does unless
    /// it knows that nothing is pending.
    pub open spec fn looks(self, notified: nat) -> bool {
        notified > 0 || self.has_pending_txs != Some(false)
    }

    /// What a poll does, once `notified` hashes have come in, to the miner (`after`), and what it
    /// answers: as many of the best transactions as fit in a block. A full block means that there
    /// may be more of them.
    pub open spec fn polls<T>(
        self,
        notified: nat,
        best: Seq<T>,
        after: ReadyTransactionMiner,
        result: Polled<Seq<T>>,
    ) -> bool {
        if self.looks(notified) {
            &&& after.max_transactions == self.max_transactions
            &&& after.has_pending_txs == Some(best.len() >= self.max_transactions)
            &&& result == unless_empty(at_most(best, self.max_transactions as nat))
        } else {
            &&& after == self
            &&& result == Polled::<Seq<T>>::Pending
        }
    }

    /// Takes note of the hashes that came in and picks the best transactions, as many as fit in a
    /// block. The pool is asked for them, by `best`, unless the miner knows that nothing is
    /// pending.
    pub fn poll<T, B: FnOnce() -> Vec<T>>(&mut self, hashes: &Vec<TxHash>, best: B) -> (result:
        Polled<Vec<T>>)
        requires
            old(self).looks(hashes@.len()) ==> call_requires(best, ()),
        ensures
            exists|pool: Vec<T>|
                {
                    &&& #[trigger] is_asked_if(old(self).looks(hashes@.len()), best, pool)
                    &&& old(self).polls(hashes@.len(), pool@, *final(self), result@)
                },
    {
        if hashes.len() > 0 {
            self.has_pending_txs = Some(true);
        }
        if let Some(false) = self.has_pending_txs {
            assert(is_asked_if(old(self).looks(hashes@.len()), best, arbitrary::<Vec<T>>()));
            return Polled::Pending;
        }
        let pool = best();
        assert(is_asked_if(old(self).looks(hashes@.len()), best, pool));
        self.has_pending_txs = Some(pool.len() >= self.max_transactions);
        select(pool, self.max_transactions)
    }
}

/// The set of the bytes of some transactions.
pub open spec fn bytes_of(transactions: Seq<ExternalTransaction>) -> Set<Seq<u8>> {
    Set::new(
        |bytes: Seq<u8>|
            exists|i: int|
                0 <= i < transactions.len() && (#[trigger] transactions[i]).tx_bytes@ == bytes,
    )
}

/// The set of the bytes of the transactions in some batches.
pub open spec fn batch_bytes(batches: Seq<Vec<ExternalTransaction>>) -> Set<Seq<u8>> {
    Set::new(
        |bytes: Seq<u8>|
            exists|i: int|
                0 <= i < batches.len() && bytes_of((#[trigger] batches[i])@).contains(bytes),
    )
}

/// The bytes of some hashes, in order.
pub open spec fn hash_bytes(hashes: Seq<TxHash>) -> Seq<Seq<u8>> {
    Seq::new(hashes.len(), |i: int| hashes[i].bytes@)
}

/// How many hashes at the front of `pending` can be matched, one after the other, each with a
/// committed one that no earlier hash has used up.
pub open spec fn match_len(commited: Set<Seq<u8>>, pending: Seq<Seq<u8>>) -> nat
    decreases pending.len(),
{
    if pending.len() > 0 && commited.contains(pending[0]) {
        1 + match_len(commited.remove(pending[0]), pending.skip(1))
    } else {
        0
    }
}

/// What the Narwhal miner knows: the committed hashes that have not been used up, and the pending
/// hashes in the order in which they came.
pub struct NarwhalState {
    pub commited: Set<Seq<u8>>,
    pub pending: Seq<Seq<u8>>,
}

impl NarwhalState {
    /// The state once committed batches and pending hashes have come in.
    pub open spec fn receive(
        self,
        batches: Seq<Vec<ExternalTransaction>>,
        hashes: Seq<TxHash>,
    ) -> NarwhalState {
        NarwhalState {
            commited: self.commited.union(batch_bytes(batches)),
            pending: self.pending + hash_bytes(hashes),
        }
    }

    /// How many of the pending hashes can be mined. None can while there are more of them than
    /// there are committed ones.
    pub open spec fn mineable(self) -> nat {
        if self.pending.len() > self.commited.len() {
            0
        } else {
            match_len(self.commited, self.pending)
        }
    }

    /// The state once the first `count` pending hashes are used up.
    pub open spec fn consume(self, count: nat) -> NarwhalState {
        NarwhalState {
            commited: self.commited.difference(self.pending.take(count as int).to_set()),
            pending: self.pending.skip(count as int),
        }
    }
}

/// A miner that waits for the consensus layer to commit the transactions that are pending.
pub struct NarwhalTransactionMiner {
    /// How many transactions to mine per block.
    max_transactions: usize,
    /// Whether there are pending transactions, if known.
    has_pending_txs: Option<bool>,
    /// The committed hashes that no block has used yet.
    commited_transactions: ByteSet,
    /// The pending hashes, in the order in which they came.
    queue_pending_txs: VecDeque<Vec<u8>>,
}

impl View for NarwhalTransactionMiner {
    type V = NarwhalState;

    closed spec fn view(&self) -> NarwhalState {
        NarwhalState {
            commited: self.commited_transactions@,
            pending: byte_set::contents(self.queue_pending_txs@),
        }
    }
}

/// The match ends where the hash at the front cannot be used up.
proof fn lemma_match_end(commited: Set<Seq<u8>>, pending: Seq<Seq<u8>>, count: nat)
    requires
        count <= match_len(commited, pending),
        count < pending.len() ==> !commited.difference(
            pending.take(count as int).to_set(),
        ).contains(pending[count as int]),
    ensures
        count == match_len(commited, pending),
    decreases count,
{
    if count == 0 {
        assert(pending.take(0).to_set() =~= Set::<Seq<u8>>::empty());
    } else {
        let rest = pending.skip(1);
        if count < pending.len() {
            let hash = pending[count as int];
            if commited.remove(pending[0]).difference(rest.take(count - 1).to_set()).contains(
                hash,
            ) {
                assert(pending.take(count as int).contains(hash));
                let i = choose|i: int| 0 <= i < count && pending.take(count as int)[i] == hash;
                assert(i > 0);
                assert(rest.take(count - 1)[i - 1] == hash);
            }
        }
        lemma_match_end(commited.remove(pending[0]), rest, (count - 1) as nat);
    }
}

/// Taking on one more step of the match.
proof fn lemma_match_grow(commited: Set<Seq<u8>>, pending: Seq<Seq<u8>>, count: nat)
    requires
        count <= match_len(commited, pending),
        count < pending.len(),
        commited.difference(pending.take(count as int).to_set()).contains(pending[count as int]),
    ensures
        count < match_len(commited, pending),
    decreases count,
{
    if count == 0 {
        assert(pending.take(0).to_set() =~= Set::<Seq<u8>>::empty());
    } else {
        let rest = pending.skip(1);
        let hash = pending[count as int];
        assert(pending.take(count as int)[0] == pending[0]);
        assert(pending.take(count as int).contains(pending[0]));
        assert(hash != pending[0]);
        if rest.take(count - 1).contains(hash) {
            let used = rest.take(count - 1);
            let i = choose|i: int| 0 <= i < used.len() && used[i] == hash;
            assert(pending.take(count as int)[i + 1] == hash);
        }
        lemma_match_grow(commited.remove(pending[0]), rest, (count - 1) as nat);
    }
}

impl core::fmt::Debug for NarwhalTransactionMiner {
    /// Shows how many transactions the miner puts in a block.
    fn fmt(&self, f: &mut core::fmt::Formatter<'_>) -> core::fmt::Result {
        let mut output = debug::begin_struct(f, "NarwhalTransactionMiner");
        debug::write_count(&mut output, "max_transactions", self.max_transactions);
        debug::finish_with_more(&mut output)
    }
}

impl NarwhalTransactionMiner {
    /// The committed hashes are held without repetition.
    pub closed spec fn wf(self) -> bool {
        self.commited_transactions.wf()
    }

    /// How many transactions to mine per block.
    pub closed spec fn spec_max_transactions(self) -> usize {
        self.max_transactions
    }

    /// Whether there are pending transactions, if known.
    pub closed spec fn spec_has_pending_txs(self) -> Option<bool> {
        self.has_pending_txs
    }

    /// The settings of the miner are those of another one.
    pub open spec fn keeps_settings(self, other: NarwhalTransactionMiner) -> bool {
        &&& self.spec_max_transactions() == other.spec_max_transactions()
        &&& self.spec_has_pending_txs() == other.spec_has_pending_txs()
    }

    /// A miner that has heard of nothing yet.
    pub fn new() -> (result: NarwhalTransactionMiner)
        ensures
            result.wf(),
            result.spec_max_transactions() == usize::MAX,
            result.spec_has_pending_txs() is None,
            result@ == (NarwhalState {
                commited: Set::<Seq<u8>>::empty(),
                pending: Seq::<Seq<u8>>::empty(),
            }),
    {
        let result = NarwhalTransactionMiner {
            max_transactions: usize::MAX,
            has_pending_txs: None,
            commited_transactions: ByteSet::new(),
            queue_pending_txs: VecDeque::new(),
        };
        assert(result@.pending =~= Seq::<Seq<u8>>::empty());
        result
    }

    /// Takes note of the transactions of one committed batch.
    fn receive_batch(&mut self, transactions: &Vec<ExternalTransaction>)
        requires
            old(self).wf(),
        ensures
            final(self).wf(),
            final(self).keeps_settings(*old(self)),
            final(self)@.commited == old(self)@.commited.union(bytes_of(transactions@)),
            final(self)@.pending == old(self)@.pending,
    {
        let ghost all = transactions@;
        let mut i: usize = 0;
        proof {
            assert(bytes_of(all.take(0)) =~= Set::<Seq<u8>>::empty());
            assert(self@.commited =~= old(self)@.commited.union(bytes_of(all.take(0))));
        }
        while i < transactions.len()
            invariant
                i <= transactions.len(),
                transactions@ == all,
                self.wf(),
                self.keeps_settings(*old(self)),
                self@.commited == old(self)@.commited.union(bytes_of(all.take(i as int))),
                self@.pending == old(self)@.pending,
            decreases transactions.len() - i,
        {
            let bytes = transactions[i].tx_bytes.clone();
            self.commited_transactions.insert(bytes);
            proof {
                let seen = all.take(i as int);
                let more = all.take(i + 1);
                assert(bytes@ == all[i as int].tx_bytes@);
                assert forall|b: Seq<u8>| #[trigger]
                    bytes_of(more).contains(b) == bytes_of(seen).insert(bytes@).contains(b) by {
                    if bytes_of(seen).contains(b) {
                        let k = choose|k: int|
                            0 <= k < seen.len() && (#[trigger] seen[k]).tx_bytes@ == b;
                        assert(more[k].tx_bytes@ == b);
                    }
                    if b == bytes@ {
                        assert(more[i as int].tx_bytes@ == b);
                    }
                    if bytes_of(more).contains(b) && b != bytes@ {
                        let k = choose|k: int|
                            0 <= k < more.len() && (#[trigger] more[k]).tx_bytes@ == b;
                        assert(seen[k].tx_bytes@ == b);
                    }
                }
                assert(self@.commited =~= old(self)@.commited.union(bytes_of(more)));
            }
            i = i + 1;
        }
        assert(all.take(all.len() as int) =~= all);
    }

    /// Takes note of the transactions of all committed batches.
    fn receive_batches(&mut self, batches: &Vec<Vec<ExternalTransaction>>)
        requires
            old(self).wf(),
        ensures
            final(self).wf(),
            final(self).keeps_settings(*old(self)),
            final(self)@.commited == old(self)@.commited.union(batch_bytes(batches@)),
            final(self)@.pending == old(self)@.pending,
    {
        let ghost all = batches@;
        let mut i: usize = 0;
        proof {
            assert(batch_bytes(all.take(0)) =~= Set::<Seq<u8>>::empty());
            assert(self@.commited =~= old(self)@.commited.union(batch_bytes(all.take(0))));
        }
        while i < batches.len()
            invariant
                i <= batches.len(),
                batches@ == all,
                self.wf(),
                self.keeps_settings(*old(self)),
                self@.commited == old(self)@.commited.union(batch_bytes(all.take(i as int))),
                self@.pending == old(self)@.pending,
            decreases batches.len() - i,
        {
            self.receive_batch(&batches[i]);
            proof {
                let seen = all.take(i as int);
                let more = all.take(i + 1);
                let batch = bytes_of(all[i as int]@);
                assert forall|b: Seq<u8>| #[trigger]
                    batch_bytes(more).contains(b) == batch_bytes(seen).union(batch).contains(b) by {
                    if batch_bytes(seen).contains(b) {
                        let k = choose|k: int|
                            0 <= k < seen.len() && bytes_of((#[trigger] seen[k])@).contains(b);
                        assert(bytes_of(more[k]@).contains(b));
                    }
                    if batch.contains(b) {
                        assert(bytes_of(more[i as int]@).contains(b));
                    }
                    if batch_bytes(more).contains(b) && !batch.contains(b) {
                        let k = choose|k: int|
                            0 <= k < more.len() && bytes_of((#[trigger] more[k])@).contains(b);
                        assert(bytes_of(seen[k]@).contains(b));
                    }
                }
                assert(self@.commited =~= old(self)@.commited.union(batch_bytes(more)));
            }
            i = i + 1;
        }
        assert(all.take(all.len() as int) =~= all);
    }

    /// Queues the hashes that have become pending.
    fn receive_hashes(&mut self, hashes: &Vec<TxHash>)
        requires
            old(self).wf(),
        ensures
            final(self).wf(),
            final(self).keeps_settings(*old(self)),
            final(self)@.commited == old(self)@.commited,
            final(self)@.pending == old(self)@.pending + hash_bytes(hashes@),
    {
        let ghost all = hashes@;
        let mut i: usize = 0;
        assert(self@.pending =~= old(self)@.pending + hash_bytes(all.take(0)));
        while i < hashes.len()
            invariant
                i <= hashes.len(),
                hashes@ == all,
                self.wf(),
                self.keeps_settings(*old(self)),
                self@.commited == old(self)@.commited,
                self@.pending == old(self)@.pending + hash_bytes(all.take(i as int)),
            decreases hashes.len() - i,
        {
            let bytes = hashes[i].to_vec();
            let ghost before = self.queue_pending_txs@;
            self.queue_pending_txs.push_back(bytes);
            proof {
                let hash = all[i as int].bytes@;
                assert(byte_set::contents(self.queue_pending_txs@) =~= byte_set::contents(
                    before,
                ).push(hash));
                assert(hash_bytes(all.take(i + 1)) =~= hash_bytes(all.take(i as int)).push(hash));
                assert(self@.pending =~= old(self)@.pending + hash_bytes(all.take(i + 1)));
            }
            i = i + 1;
        }
        assert(all.take(all.len() as int) =~= all);
    }

    /// Takes note of what the consensus layer has committed and of the hashes that have become
    /// pending, uses up the pending hashes at the front that are committed, and says how many
    /// these are.
    pub fn advance(
        &mut self,
        commited: &Vec<Vec<ExternalTransaction>>,
        pending: &Vec<TxHash>,
    ) -> (count: usize)
        requires
            old(self).wf(),
        ensures
            final(self).wf(),
            final(self).keeps_settings(*old(self)),
            count == old(self)@.receive(commited@, pending@).mineable(),
            final(self)@ == old(self)@.receive(commited@, pending@).consume(count as nat),
            ({
                let received = old(self)@.receive(commited@, pending@);
                if received.pending.len() > received.commited.len() {
                    count == 0
                } else {
                    forall|run: nat| #[trigger]
                        all_matched(received.commited, received.pending, run) <==> run <= count
                }
            }),
    {
        let ghost received = self@.receive(commited@, pending@);
        self.receive_batches(commited);
        self.receive_hashes(pending);
        let known: usize = self.commited_transactions.len();
        let mut count: usize = 0;
        proof {
            assert(received.pending.take(0).to_set() =~= Set::<Seq<u8>>::empty());
            assert(self@.commited =~= received.consume(0).commited);
            assert(self@.pending =~= received.consume(0).pending);
        }
        if self.queue_pending_txs.len() > known {
            return 0;
        }
        loop
            invariant_except_break
                self.wf(),
                self.keeps_settings(*old(self)),
                count <= match_len(received.commited, received.pending),
                self@.commited == received.consume(count as nat).commited,
                self@.pending == received.consume(count as nat).pending,
                count + self@.pending.len() == received.pending.len(),
                received.pending.len() <= usize::MAX,
            ensures
                self.wf(),
                self.keeps_settings(*old(self)),
                count == match_len(received.commited, received.pending),
                self@.commited == received.consume(count as nat).commited,
                self@.pending == received.consume(count as nat).pending,
            decreases self.queue_pending_txs.len(),
        {
            if self.queue_pending_txs.len() == 0 {
                proof {
                    lemma_match_end(received.commited, received.pending, count as nat);
                }
                break;
            }
            let ghost front = received.pending[count as int];
            assert(front == self@.pending[0]);
            let matched: bool = self.commited_transactions.remove(&self.queue_pending_txs[0]);
            if !matched {
                proof {
                    lemma_match_end(received.commited, received.pending, count as nat);
                    assert(self@.commited =~= received.consume(count as nat).commited);
                }
                break;
            }
            let ghost before = self.queue_pending_txs@;
            let _ = self.queue_pending_txs.pop_front();
            proof {
                assert(byte_set::contents(self.queue_pending_txs@) =~= byte_set::contents(
                    before,
                ).skip(1));
                lemma_match_grow(received.commited, received.pending, count as nat);
                let used = received.pending.take(count as int);
                let more = received.pending.take(count + 1);
                assert(more =~= used.push(front));
                assert(more.to_set() =~= used.to_set().insert(front)) by {
                    assert(more[count as int] == front);
                    assert forall|x: Seq<u8>| used.contains(x) implies more.contains(x) by {
                        let k = choose|k: int| 0 <= k < used.len() && used[k] == x;
                        assert(more[k] == x);
                    }
                }
                assert(self@.commited =~= received.consume((count + 1) as nat).commited);
                assert(self@.pending =~= received.consume((count + 1) as nat).pending);
            }
            count = count + 1;
        }
        proof {
            assert forall|run: nat| #[trigger]
                all_matched(received.commited, received.pending, run) <==> run <= count by {
                lemma_match_is_longest(received.commited, received.pending, run);
            }
        }
        count
    }

    /// What a poll does to the miner (`after`) and what it answers: as many of the best
    /// transactions as there are hashes that it has used up.
    pub open spec fn polls<T>(
        self,
        commited: Seq<Vec<ExternalTransaction>>,
        pending: Seq<TxHash>,
        best: Seq<T>,
        after: NarwhalTransactionMiner,
        result: Polled<Seq<T>>,
    ) -> bool {
        let received = self@.receive(commited, pending);
        &&& after.keeps_settings(self)
        &&& after@ == received.consume(received.mineable())
        &&& result == unless_empty(at_most(best, received.mineable()))
    }

    /// The miner looks into the pool: there are hashes that it can use up.
    pub open spec fn looks(
        self,
        commited: Seq<Vec<ExternalTransaction>>,
        pending: Seq<TxHash>,
    ) -> bool {
        self@.receive(commited, pending).mineable() > 0
    }

    /// Advances the match and picks as many of the best transactions as there are hashes that it
    /// has used up. The pool is asked for them, by `best`, only where there are such hashes.
    pub fn poll<T, B: FnOnce() -> Vec<T>>(
        &mut self,
        commited: &Vec<Vec<ExternalTransaction>>,
        pending: &Vec<TxHash>,
        best: B,
    ) -> (result: Polled<Vec<T>>)
        requires
            old(self).wf(),
            old(self).looks(commited@, pending@) ==> call_requires(best, ()),
        ensures
            final(self).wf(),
            exists|pool: Vec<T>|
                {
                    &&& #[trigger] is_asked_if(old(self).looks(commited@, pending@), best, pool)
                    &&& old(self).polls(commited@, pending@, pool@, *final(self), result@)
                },
    {
        let count: usize = self.advance(commited, pending);
        if count == 0 {
            assert(is_asked_if(
                old(self).looks(commited@, pending@),
                best,
                arbitrary::<Vec<T>>(),
            ));
            return Polled::Pending;
        }
        let pool = best();
        assert(is_asked_if(old(self).looks(commited@, pending@), best, pool));
        select(pool, count)
    }
}

/// What has reached a miner since it was last polled.
#[derive(Debug)]
pub struct MinerEvents {
    /// The hashes of transactions that have become pending, in order.
    pub pending: Vec<TxHash>,
    /// The batches that the consensus layer has committed, in order.
    pub commited: Vec<Vec<ExternalTransaction>>,
    /// Whether the block timer has ticked.
    pub ticked: bool,
}

/// The mode of operation of the miner.
#[derive(Debug)]
pub enum ScalarMiningMode {
    /// A miner that does nothing.
    Idle,
    /// A miner that listens for transactions that become ready.
    Auto(ReadyTransactionMiner),
    /// A miner that waits for the consensus layer to commit transactions.
    Narwhal(NarwhalTransactionMiner),
    /// A miner that builds a block at every tick of an interval.
    FixedBlockTime(FixedBlockTimeMiner),
}

impl ScalarMiningMode {
    /// The miner of the mode is well formed.
    pub open spec fn wf(self) -> bool {
        match self {
            ScalarMiningMode::Narwhal(miner) => miner.wf(),
            _ => true,
        }
    }

    /// Listens for transactions and builds blocks of at most `max_transactions` as soon as some
    /// arrive.
    pub fn instant(max_transactions: usize) -> (result: ScalarMiningMode)
        ensures
            result.wf(),
            result == ScalarMiningMode::Auto(
                ReadyTransactionMiner { max_transactions, has_pending_txs: None },
            ),
    {
        ScalarMiningMode::Auto(ReadyTransactionMiner { max_transactions, has_pending_txs: None })
    }

    /// Builds blocks as the consensus layer commits the transactions that are pending.
    pub fn narwhal() -> (result: ScalarMiningMode)
        ensures
            result.wf(),
            result matches ScalarMiningMode::Narwhal(miner) && {
                &&& miner.spec_max_transactions() == usize::MAX
                &&& miner.spec_has_pending_txs() is None
                &&& miner@ == (NarwhalState {
                    commited: Set::<Seq<u8>>::empty(),
                    pending: Seq::<Seq<u8>>::empty(),
                })
            },
    {
        ScalarMiningMode::Narwhal(NarwhalTransactionMiner::new())
    }

    /// Builds a block once per `duration`.
    pub fn interval(duration: BlockTime) -> (result: ScalarMiningMode)
        requires
            duration.secs > 0 || duration.nanos > 0,
        ensures
            result.wf(),
            result matches ScalarMiningMode::FixedBlockTime(miner) && miner.spec_period()
                == duration,
    {
        ScalarMiningMode::FixedBlockTime(FixedBlockTimeMiner::new(duration))
    }

    /// What a poll does to the mode (`after`) and what it answers: what the miner of the mode
    /// does and answers.
    pub open spec fn polls<T>(
        self,
        events: MinerEvents,
        best: Seq<T>,
        after: ScalarMiningMode,
        result: Polled<Seq<T>>,
    ) -> bool {
        match self {
            ScalarMiningMode::Idle => {
                &&& after == self
                &&& result == Polled::<Seq<T>>::Pending
            },
            ScalarMiningMode::Auto(miner) => {
                &&& after matches ScalarMiningMode::Auto(next)
                &&& miner.polls(events.pending@.len(), best, next, result)
            },
            ScalarMiningMode::Narwhal(miner) => {
                &&& after matches ScalarMiningMode::Narwhal(next)
                &&& miner.polls(events.commited@, events.pending@, best, next, result)
            },
            ScalarMiningMode::FixedBlockTime(miner) => {
                &&& after matches ScalarMiningMode::FixedBlockTime(next)
                &&& miner.polls(events.ticked, best, next, result)
            },
        }
    }

    /// The miner of the mode looks into the pool.
    pub open spec fn looks(self, events: MinerEvents) -> bool {
        match self {
            ScalarMiningMode::Idle => false,
            ScalarMiningMode::Auto(miner) => miner.looks(events.pending@.len()),
            ScalarMiningMode::Narwhal(miner) => miner.looks(events.commited@, events.pending@),
            ScalarMiningMode::FixedBlockTime(_) => events.ticked,
        }
    }

    /// Hands the events to the miner and answers with the transactions that should be put in a
    /// block, if any. `best` asks the pool for its transactions, the best first. It is called only
    /// where the miner looks into the pool.
    pub fn poll<T, B: FnOnce() -> Vec<T>>(&mut self, events: &MinerEvents, best: B) -> (result:
        Polled<Vec<T>>)
        requires
            old(self).wf(),
            old(self).looks(*events) ==> call_requires(best, ()),
        ensures
            final(self).wf(),
            exists|pool: Vec<T>|
                {
                    &&& #[trigger] is_asked_if(old(self).looks(*events), best, pool)
                    &&& old(self).polls(*events, pool@, *final(self), result@)
                },
    {
        match self {
            ScalarMiningMode::Idle => {
                assert(is_asked_if(old(self).looks(*events), best, arbitrary::<Vec<T>>()));
                Polled::Pending
            },
            ScalarMiningMode::Auto(miner) => miner.poll(&events.pending, best),
            ScalarMiningMode::Narwhal(miner) => {
                miner.poll(&events.commited, &events.pending, best)
            },
            ScalarMiningMode::FixedBlockTime(miner) => miner.poll(events.ticked, best),
        }
    }
}

/// The first `count` pending hashes are committed and no two of them are the same.
pub open spec fn all_matched(commited: Set<Seq<u8>>, pending: Seq<Seq<u8>>, count: nat) -> bool {
    &&& count <= pending.len()
    &&& forall|i: int| 0 <= i < count ==> commited.contains(#[trigger] pending[i])
    &&& forall|i: int, j: int|
        0 <= i < j < count ==> #[trigger] pending[i] != #[trigger] pending[j]
}

/// The match is the longest run of distinct committed hashes at the front of the queue: as long a
/// run is matched, and none that is longer.
pub proof fn lemma_match_is_longest(commited: Set<Seq<u8>>, pending: Seq<Seq<u8>>, count: nat)
    ensures
        all_matched(commited, pending, count) <==> count <= match_len(commited, pending),
    decreases pending.len(),
{
    if count > 0 && pending.len() > 0 {
        let rest = pending.skip(1);
        let left = commited.remove(pending[0]);
        lemma_match_is_longest(left, rest, (count - 1) as nat);
        if all_matched(commited, pending, count) {
            assert forall|i: int| 0 <= i < count - 1 implies left.contains(#[trigger] rest[i]) by {
                assert(rest[i] == pending[i + 1]);
                assert(pending[0] != pending[i + 1]);
            }
            assert forall|i: int, j: int| 0 <= i < j < count - 1 implies #[trigger] rest[i]
                != #[trigger] rest[j] by {
                assert(pending[i + 1] != pending[j + 1]);
            }
            assert(commited.contains(pending[0]));
        }
        if count <= match_len(commited, pending) {
            assert forall|i: int| 0 <= i < count implies commited.contains(
                #[trigger] pending[i],
            ) by {
                if i > 0 {
                    assert(rest[i - 1] == pending[i]);
                }
            }
            assert forall|i: int, j: int| 0 <= i < j < count implies #[trigger] pending[i]
                != #[trigger] pending[j] by {
                assert(rest[j - 1] == pending[j]);
                if i > 0 {
                    assert(rest[i - 1] == pending[i]);
                }
            }
        }
    }
}

/// A hash that a block has used up is neither committed nor counted again: the run that is matched
/// leaves the committed set, and the hashes behind it stay in their order.
pub proof fn lemma_used_hashes_leave(state: NarwhalState, index: int)
    requires
        0 <= index < state.mineable(),
    ensures
        state.commited.contains(state.pending[index]),
        !state.consume(state.mineable()).commited.contains(state.pending[index]),
        state.pending == state.pending.take(state.mineable() as int) + state.consume(
            state.mineable(),
        ).pending,
{
    let count = state.mineable();
    lemma_match_is_longest(state.commited, state.pending, count);
    let used = state.pending.take(count as int);
    assert(used[index] == state.pending[index]);
    assert(state.pending =~= used + state.pending.skip(count as int));
}

/// The modes that listen for transactions never build an empty block; only the interval mode may.
pub proof fn lemma_listening_modes_build_no_empty_block<T>(
    mode: ScalarMiningMode,
    events: MinerEvents,
    best: Seq<T>,
    after: ScalarMiningMode,
    result: Polled<Seq<T>>,
)
    requires
        mode.polls(events, best, after, result),
        !(mode is FixedBlockTime),
    ensures
        result matches Polled::Ready(items) ==> items.len() > 0,
{
}

/// A block holds the best transactions in the order of the pool, and no more of them than the mode
/// allows: the instant mode at most its maximum, the Narwhal mode at most one per hash that it has
/// used up.
pub proof fn lemma_block_is_bounded_prefix<T>(
    mode: ScalarMiningMode,
    events: MinerEvents,
    best: Seq<T>,
    after: ScalarMiningMode,
    result: Polled<Seq<T>>,
)
    requires
        mode.polls(events, best, after, result),
    ensures
        result matches Polled::Ready(items) ==> {
            &&& items.len() <= best.len()
            &&& items == best.take(items.len() as int)
            &&& mode matches ScalarMiningMode::Auto(miner) ==> items.len()
                <= miner.max_transactions
            &&& mode matches ScalarMiningMode::Narwhal(miner) ==> items.len() <= miner@.receive(
                events.commited@,
                events.pending@,
            ).mineable()
        },
{
    if let Polled::Ready(items) = result {
        assert(items =~= best.take(items.len() as int));
    }
}

/// A miner that did not fill its last block stays silent until a hash comes in.
pub proof fn lemma_drained_miner_waits<T>(
    miner: ReadyTransactionMiner,
    notified: nat,
    best: Seq<T>,
    drained: ReadyTransactionMiner,
    block: Polled<Seq<T>>,
    later: Seq<T>,
    after: ReadyTransactionMiner,
    result: Polled<Seq<T>>,
)
    requires
        miner.looks(notified),
        best.len() < miner.max_transactions,
        miner.polls(notified, best, drained, block),
        drained.polls(0, later, after, result),
    ensures
        after == drained,
        result == Polled::<Seq<T>>::Pending,
{
}

} // verus!
