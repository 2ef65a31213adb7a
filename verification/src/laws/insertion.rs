//! Laws of the insertion of a block, and of what the consensus layer is told.

use vstd::prelude::*;
use crate::consensus;
use crate::insertion::{
    self, AfterExecution, AfterReply, AnnouncedBlock, ForkchoiceReply, ForkchoiceState,
    PendingBlock, SealedBlock, SealedHeader,
};
use crate::primitives::{Address, TxHash};
use crate::task::InsertJob;
use crate::transaction::ExternalTransaction;

verus! {

/// The block of a job holds, for each transaction of the job and at its place, the signed
/// transaction, its signer and its hash, and nothing else.
pub proof fn lemma_block_holds_the_job<T, E>(block: PendingBlock<T, E>, job: InsertJob<T, E>)
    requires
        block.is_for(job),
    ensures
        block.transactions@.len() == job.transactions@.len(),
        block.senders@.len() == job.transactions@.len(),
        block.hashes@.len() == job.transactions@.len(),
        forall|i: int|
            #![trigger job.transactions@[i]]
            0 <= i < job.transactions@.len() ==> {
                &&& block.transactions@[i] == job.transactions@[i].signed
                &&& block.senders@[i] == job.transactions@[i].signer
                &&& block.hashes@[i] == job.transactions@[i].hash
            },
        block.events == job.events,
{
}

/// A block that was executed has all its transactions taken out of the pool, and the engine is told
/// that it is the head, the safe and the finalized block. A block that failed changes nothing, and
/// the events come back.
pub proof fn lemma_executed_block_is_announced<T, E, H, X>(
    block: PendingBlock<T, E>,
    outcome: Result<SealedHeader<H>, X>,
    result: AfterExecution<T, E, H>,
)
    requires
        block.follows_execution(outcome, result),
    ensures
        result is Announce <==> outcome is Ok,
        result matches AfterExecution::Announce { remove, update, announced } ==> {
            &&& remove == block.hashes
            &&& update.head_block_hash == outcome->Ok_0.hash
            &&& update.safe_block_hash == outcome->Ok_0.hash
            &&& update.finalized_block_hash == outcome->Ok_0.hash
            &&& announced.header == outcome->Ok_0
            &&& announced.transactions == block.transactions
            &&& announced.senders == block.senders
            &&& announced.events == block.events
        },
        result matches AfterExecution::Abandon { events } ==> events == block.events,
{
}

/// A valid block is committed as it was announced, without ommers and withdrawals, and the events
/// come back. While the engine is syncing, the same block is announced again. A block that is
/// invalid, or whose update failed, is refused.
pub proof fn lemma_reply_decides<T, E, H>(
    block: AnnouncedBlock<T, E, H>,
    reply: ForkchoiceReply,
    result: AfterReply<T, E, H>,
)
    requires
        block.continues(reply, result),
    ensures
        result is Commit <==> reply is Valid,
        result is Resend <==> reply is Syncing,
        result is Refused <==> reply is Invalid || reply is Failed,
        result matches AfterReply::Commit { block: committed, senders, events } ==> {
            &&& committed.header == block.header
            &&& committed.body == block.transactions
            &&& committed.ommers@.len() == 0
            &&& committed.withdrawals is None
            &&& senders == block.senders
            &&& events == block.events
        },
        result matches AfterReply::Resend { update, announced } ==> {
            &&& update.head_block_hash == block.header.hash
            &&& update.safe_block_hash == block.header.hash
            &&& update.finalized_block_hash == block.header.hash
            &&& announced == block
        },
{
}

/// The update for a block names that block three times.
pub proof fn lemma_update_names_the_block(header_hash: crate::primitives::B256)
    ensures
        insertion::forkchoice_for(header_hash).head_block_hash == header_hash,
        insertion::forkchoice_for(header_hash).safe_block_hash == header_hash,
        insertion::forkchoice_for(header_hash).finalized_block_hash == header_hash,
{
}

/// From the job to the end: the block that is committed holds the signed transactions of the job at
/// their places, with the signer of each, and the pool loses the hash of each.
pub proof fn lemma_job_is_committed<T, E, H, X>(
    job: InsertJob<T, E>,
    pending: PendingBlock<T, E>,
    header: SealedHeader<H>,
    remove: Vec<TxHash>,
    update: ForkchoiceState,
    announced: AnnouncedBlock<T, E, H>,
    block: SealedBlock<T, H>,
    senders: Vec<Address>,
    events: Option<E>,
)
    requires
        pending.is_for(job),
        pending.follows_execution(
            Ok::<SealedHeader<H>, X>(header),
            AfterExecution::Announce { remove, update, announced },
        ),
        announced.continues(ForkchoiceReply::Valid, AfterReply::Commit { block, senders, events }),
    ensures
        block.header == header,
        block.body@.len() == job.transactions@.len(),
        senders@.len() == job.transactions@.len(),
        remove@.len() == job.transactions@.len(),
        forall|i: int|
            #![trigger job.transactions@[i]]
            0 <= i < job.transactions@.len() ==> {
                &&& block.body@[i] == job.transactions@[i].signed
                &&& senders@[i] == job.transactions@[i].signer
                &&& remove@[i] == job.transactions@[i].hash
            },
        events == job.events,
{
}

/// An announcement carries the bytes of the hash under the namespace, so two announcements under
/// one namespace with the same bytes are of the same hash.
pub proof fn lemma_announcement_carries_the_hash(
    transaction: ExternalTransaction,
    namespace: Seq<char>,
    hash: TxHash,
)
    requires
        consensus::is_announcement(transaction, namespace, hash),
    ensures
        transaction.namespace@ == namespace,
        transaction.tx_bytes@ == hash.bytes@,
{
}

} // verus!
