//! The insertion of one block: it is executed, announced to the engine, and committed once the
//! engine has found it valid.

use vstd::prelude::*;
use crate::primitives::{Address, B256, TxHash};
use crate::task::InsertJob;
use crate::transaction::PooledTransaction;

verus! {

/// A header with its hash.
#[derive(Debug)]
pub struct SealedHeader<H> {
    pub header: H,
    pub hash: B256,
}

/// The blocks that the engine takes for the head of the chain, the last safe one and the last
/// finalized one.
#[derive(Clone, Copy, Debug, PartialEq, Eq)]
pub struct ForkchoiceState {
    pub head_block_hash: B256,
    pub safe_block_hash: B256,
    pub finalized_block_hash: B256,
}

/// What the engine answers to a fork choice update.
#[derive(Clone, Copy, Debug, PartialEq, Eq)]
pub enum ForkchoiceReply {
    /// The head is valid.
    Valid,
    /// The head is invalid.
    Invalid,
    /// The engine has not got to the head yet.
    Syncing,
    /// The update itself failed.
    Failed,
}

/// A withdrawal of the beacon chain.
#[derive(Clone, Copy, Debug, PartialEq, Eq)]
pub struct Withdrawal {
    pub index: u64,
    pub validator_index: u64,
    pub address: Address,
    pub amount: u64,
}

/// A block under a sealed header.
#[derive(Debug)]
pub struct SealedBlock<T, H> {
    pub header: SealedHeader<H>,
    pub body: Vec<T>,
    pub ommers: Vec<H>,
    pub withdrawals: Option<Vec<Withdrawal>>,
}

/// The signed transactions of a list, in order.
pub open spec fn signed_of<T>(transactions: Seq<PooledTransaction<T>>) -> Seq<T> {
    Seq::new(transactions.len(), |i: int| transactions[i].signed)
}

/// The signers of a list of transactions, in order.
pub open spec fn signers_of<T>(transactions: Seq<PooledTransaction<T>>) -> Seq<Address> {
    Seq::new(transactions.len(), |i: int| transactions[i].signer)
}

/// The hashes of a list of transactions, in order.
pub open spec fn hashes_of<T>(transactions: Seq<PooledTransaction<T>>) -> Seq<TxHash> {
    Seq::new(transactions.len(), |i: int| transactions[i].hash)
}

/// The update that makes a block the head, the safe and the finalized block at once.
pub open spec fn forkchoice_for(hash: B256) -> ForkchoiceState {
    ForkchoiceState {
        head_block_hash: hash,
        safe_block_hash: hash,
        finalized_block_hash: hash,
    }
}

/// A block that is to be executed.
#[derive(Debug)]
pub struct PendingBlock<T, E> {
    /// The signed transactions.
    pub transactions: Vec<T>,
    /// The signers of the transactions.
    pub senders: Vec<Address>,
    /// The hashes of the transactions.
    pub hashes: Vec<TxHash>,
    /// The stream of pipeline events.
    pub events: Option<E>,
}

/// A block that has been executed and that the engine has been told of.
#[derive(Debug)]
pub struct AnnouncedBlock<T, E, H> {
    pub header: SealedHeader<H>,
    pub transactions: Vec<T>,
    pub senders: Vec<Address>,
    pub events: Option<E>,
}

/// What follows from the execution of a block.
#[derive(Debug)]
pub enum AfterExecution<T, E, H> {
    /// Take the transactions with these hashes out of the pool and send the engine the update.
    Announce { remove: Vec<TxHash>, update: ForkchoiceState, announced: AnnouncedBlock<T, E, H> },
    /// The execution failed: the insertion ends and gives the pipeline events back.
    Abandon { events: Option<E> },
}

/// What follows from the reply of the engine.
#[derive(Debug)]
pub enum AfterReply<T, E, H> {
    /// Send the engine the update once more.
    Resend { update: ForkchoiceState, announced: AnnouncedBlock<T, E, H> },
    /// Make the block the canonical head, the safe and the finalized block, and let the consumers
    /// know of it. The insertion ends and gives the pipeline events back.
    Commit { block: SealedBlock<T, H>, senders: Vec<Address>, events: Option<E> },
    /// The engine refused the block: the insertion ends without giving pipeline events back.
    Refused,
}

impl<T, E> PendingBlock<T, E> {
    /// The transactions of the block are those of the job, and so are the events.
    pub open spec fn is_for(self, job: InsertJob<T, E>) -> bool {
        &&& self.transactions@ == signed_of(job.transactions@)
        &&& self.senders@ == signers_of(job.transactions@)
        &&& self.hashes@ == hashes_of(job.transactions@)
        &&& self.events == job.events
    }

    /// The block of a job.
    pub fn new(job: InsertJob<T, E>) -> (result: PendingBlock<T, E>)
        ensures
            result.is_for(job),
    {
        let ghost all = job.transactions@;
        let mut transactions: Vec<T> = Vec::new();
        let mut senders: Vec<Address> = Vec::new();
        let mut hashes: Vec<TxHash> = Vec::new();
        for transaction in it: job.transactions
            invariant
                it.seq() == all,
                transactions@ == signed_of(all.take(it.index())),
                senders@ == signers_of(all.take(it.index())),
                hashes@ == hashes_of(all.take(it.index())),
        {
            hashes.push(transaction.hash);
            senders.push(transaction.signer);
            transactions.push(transaction.signed);
            proof {
                let more = all.take(it.index() + 1);
                assert(transactions@ =~= signed_of(more));
                assert(senders@ =~= signers_of(more));
                assert(hashes@ =~= hashes_of(more));
            }
        }
        assert(all.take(all.len() as int) =~= all);
        PendingBlock { transactions, senders, hashes, events: job.events }
    }

    /// What follows from the execution of the block.
    pub open spec fn follows_execution<H, X>(
        self,
        outcome: Result<SealedHeader<H>, X>,
        result: AfterExecution<T, E, H>,
    ) -> bool {
        match outcome {
            Ok(header) => result == (AfterExecution::Announce {
                remove: self.hashes,
                update: forkchoice_for(header.hash),
                announced: AnnouncedBlock {
                    header,
                    transactions: self.transactions,
                    senders: self.senders,
                    events: self.events,
                },
            }),
            Err(_) => result == (AfterExecution::<T, E, H>::Abandon { events: self.events }),
        }
    }

    /// Goes on once the block has been executed, with its sealed header where that succeeded.
    pub fn executed<H, X>(self, outcome: Result<SealedHeader<H>, X>) -> (result: AfterExecution<
        T,
        E,
        H,
    >)
        ensures
            self.follows_execution(outcome, result),
    {
        match outcome {
            Ok(header) => {
                let update = forkchoice_state(header.hash);
                AfterExecution::Announce {
                    remove: self.hashes,
                    update,
                    announced: AnnouncedBlock {
                        header,
                        transactions: self.transactions,
                        senders: self.senders,
                        events: self.events,
                    },
                }
            },
            Err(_) => AfterExecution::Abandon { events: self.events },
        }
    }
}

/// The update that makes a block the head, the safe and the finalized block at once.
pub fn forkchoice_state(hash: B256) -> (result: ForkchoiceState)
    ensures
        result == forkchoice_for(hash),
{
    ForkchoiceState {
        head_block_hash: hash,
        safe_block_hash: hash,
        finalized_block_hash: hash,
    }
}

impl<T, E, H> AnnouncedBlock<T, E, H> {
    /// What follows from the reply of the engine.
    pub open spec fn continues(self, reply: ForkchoiceReply, result: AfterReply<T, E, H>) -> bool {
        match reply {
            ForkchoiceReply::Valid => {
                &&& result matches AfterReply::Commit { block, senders, events }
                &&& block.header == self.header
                &&& block.body == self.transactions
                &&& block.ommers@ == Seq::<H>::empty()
                &&& block.withdrawals is None
                &&& senders == self.senders
                &&& events == self.events
            },
            ForkchoiceReply::Syncing => result == (AfterReply::Resend {
                update: forkchoice_for(self.header.hash),
                announced: self,
            }),
            ForkchoiceReply::Invalid | ForkchoiceReply::Failed => result is Refused,
        }
    }

    /// Goes on once the engine has replied.
    pub fn replied(self, reply: ForkchoiceReply) -> (result: AfterReply<T, E, H>)
        ensures
            self.continues(reply, result),
    {
        match reply {
            ForkchoiceReply::Valid => {
                let block = SealedBlock {
                    header: self.header,
                    body: self.transactions,
                    ommers: Vec::new(),
                    withdrawals: None,
                };
                AfterReply::Commit { block, senders: self.senders, events: self.events }
            },
            ForkchoiceReply::Syncing => {
                let update = forkchoice_state(self.header.hash);
                AfterReply::Resend { update, announced: self }
            },
            ForkchoiceReply::Invalid | ForkchoiceReply::Failed => AfterReply::Refused,
        }
    }
}

/// A run of replies leads from an announced block to a result: each but the last has the update
/// sent once more.
pub open spec fn replies_lead_to<T, E, H>(
    block: AnnouncedBlock<T, E, H>,
    replies: Seq<ForkchoiceReply>,
    result: AfterReply<T, E, H>,
) -> bool
    decreases replies.len(),
{
    if replies.len() == 0 {
        false
    } else if replies.len() == 1 {
        block.continues(replies[0], result)
    } else {
        exists|update: ForkchoiceState, next: AnnouncedBlock<T, E, H>|
            {
                &&& #[trigger] block.continues(
                    replies[0],
                    AfterReply::Resend { update, announced: next },
                )
                &&& update == forkchoice_for(block.header.hash)
                &&& replies_lead_to(next, replies.skip(1), result)
            }
    }
}

/// While the engine is syncing, the same update is sent over and over and the block stays as it
/// is: the first reply that says anything else decides alone.
pub proof fn lemma_syncing_changes_nothing<T, E, H>(
    block: AnnouncedBlock<T, E, H>,
    replies: Seq<ForkchoiceReply>,
    result: AfterReply<T, E, H>,
)
    requires
        replies_lead_to(block, replies, result),
    ensures
        replies.len() > 0,
        forall|i: int|
            0 <= i < replies.len() - 1 ==> #[trigger] replies[i] == ForkchoiceReply::Syncing,
        block.continues(replies.last(), result),
    decreases replies.len(),
{
    if replies.len() > 1 {
        let rest = replies.skip(1);
        let (update, next) = choose|update: ForkchoiceState, next: AnnouncedBlock<T, E, H>|
            {
                &&& #[trigger] block.continues(
                    replies[0],
                    AfterReply::Resend { update, announced: next },
                )
                &&& update == forkchoice_for(block.header.hash)
                &&& replies_lead_to(next, rest, result)
            };
        assert(next == block);
        lemma_syncing_changes_nothing(next, rest, result);
        assert forall|i: int| 0 <= i < replies.len() - 1 implies #[trigger] replies[i]
            == ForkchoiceReply::Syncing by {
            if i > 0 {
                assert(rest[i - 1] == replies[i]);
            }
        }
    }
}

/// What is committed is the block of the job: its signed transactions in their order, one sender
/// for each of them, under the header that the execution gave, and exactly those transactions
/// leave the pool. The pipeline events come back, however often the engine was syncing.
pub proof fn lemma_committed_block_is_the_job<T, E, H, X>(
    job: InsertJob<T, E>,
    pending: PendingBlock<T, E>,
    header: SealedHeader<H>,
    remove: Vec<TxHash>,
    update: ForkchoiceState,
    announced: AnnouncedBlock<T, E, H>,
    replies: Seq<ForkchoiceReply>,
    block: SealedBlock<T, H>,
    senders: Vec<Address>,
    events: Option<E>,
)
    requires
        pending.is_for(job),
        pending.follows_execution(
            Ok::<SealedHeader<H>, X>(header),
            AfterExecution::Announce { remove, update, announced },
        ),
        replies_lead_to(announced, replies, AfterReply::Commit { block, senders, events }),
    ensures
        block.header == header,
        block.body@ == signed_of(job.transactions@),
        senders@ == signers_of(job.transactions@),
        senders@.len() == block.body@.len(),
        remove@ == hashes_of(job.transactions@),
        update.head_block_hash == header.hash,
        update.safe_block_hash == header.hash,
        update.finalized_block_hash == header.hash,
        events == job.events,
{
    lemma_syncing_changes_nothing(
        announced,
        replies,
        AfterReply::Commit { block, senders, events },
    );
}

} // verus!
