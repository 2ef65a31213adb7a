//! The consensus of the node: it accepts every block, and leaves the order of transactions to an
//! external consensus layer.

use std::sync::Arc;
use vstd::prelude::*;
use crate::env::Header;
use crate::hardfork::ChainSpec;
use crate::insertion::{SealedBlock, SealedHeader};
use crate::mode::{self, NarwhalState, ScalarMiningMode};
use crate::primitives::{TxHash, U256};
use crate::task::{ScalarMiningTask, TaskState};
use crate::transaction::{CommitedTransactions, ExternalTransaction, PooledTransaction};

verus! {

/// The default port of the consensus layer.
pub const DEFAULT_NARWHAL_PORT: u16 = 8555;

/// What is left to hold once the consensus client runs.
#[derive(Clone, Copy, Debug, PartialEq, Eq)]
pub struct ScalarConsensusHandles {}

/// Why a header or a block is refused.
#[derive(Debug, PartialEq, Eq)]
pub struct ConsensusError {
    pub reason: String,
}

/// The rules by which the node accepts blocks: it accepts them all, since it builds them itself
/// from what the consensus layer has committed.
#[derive(Clone, Debug)]
pub struct ScalarConsensus {
    chain_spec: Arc<ChainSpec>,
}

impl ScalarConsensus {
    /// The chain that the consensus is for.
    pub closed spec fn spec_chain(self) -> ChainSpec {
        *self.chain_spec
    }

    /// The consensus of a chain.
    pub fn new(chain_spec: Arc<ChainSpec>) -> (result: ScalarConsensus)
        ensures
            result.spec_chain() == *chain_spec,
    {
        ScalarConsensus { chain_spec }
    }

    /// The chain that the consensus is for.
    pub fn chain_spec(&self) -> (result: Arc<ChainSpec>)
        ensures
            *result == self.spec_chain(),
    {
        self.chain_spec.clone()
    }

    /// Accepts a header.
    pub fn validate_header<H>(&self, _header: &SealedHeader<H>) -> (result: Result<
        (),
        ConsensusError,
    >)
        ensures
            result == Ok::<(), ConsensusError>(()),
    {
        Ok(())
    }

    /// Accepts a header after its parent.
    pub fn validate_header_against_parent<H>(
        &self,
        _header: &SealedHeader<H>,
        _parent: &SealedHeader<H>,
    ) -> (result: Result<(), ConsensusError>)
        ensures
            result == Ok::<(), ConsensusError>(()),
    {
        Ok(())
    }

    /// Accepts a header at a total difficulty.
    pub fn validate_header_with_total_difficulty(
        &self,
        _header: &Header,
        _total_difficulty: U256,
    ) -> (result: Result<(), ConsensusError>)
        ensures
            result == Ok::<(), ConsensusError>(()),
    {
        Ok(())
    }

    /// Accepts a block.
    pub fn validate_block<T, H>(&self, _block: &SealedBlock<T, H>) -> (result: Result<
        (),
        ConsensusError,
    >)
        ensures
            result == Ok::<(), ConsensusError>(()),
    {
        Ok(())
    }
}

/// The URL of the consensus layer at a socket address.
pub fn consensus_url(socket_addr: &str) -> (result: String)
    ensures
        result@ == "http://"@ + socket_addr@,
{
    let mut url = "http://".to_string();
    url.append(socket_addr);
    url
}

/// The transaction tells the consensus layer of a hash.
pub open spec fn is_announcement(
    transaction: ExternalTransaction,
    namespace: Seq<char>,
    hash: TxHash,
) -> bool {
    &&& transaction.namespace@ == namespace
    &&& transaction.tx_bytes@ == hash.bytes@
}

/// What the consensus layer is told of a transaction that has become pending: its hash.
pub fn announce_pending(hash: &TxHash, namespace: &str) -> (result: ExternalTransaction)
    ensures
        is_announcement(result, namespace@, *hash),
{
    ExternalTransaction { namespace: namespace.to_string(), tx_bytes: hash.to_vec() }
}

/// What the consensus layer is told of a transaction of the pool: its hash.
pub fn create_consensus_transaction<T>(
    transaction: &PooledTransaction<T>,
    namespace: &str,
) -> (result: ExternalTransaction)
    ensures
        is_announcement(result, namespace@, transaction.hash),
{
    announce_pending(&transaction.hash, namespace)
}

/// What is done with a reply of the consensus layer.
#[derive(Debug)]
pub enum ReplyAction<X> {
    /// Hand the batch on to the mining task.
    Forward(Vec<ExternalTransaction>),
    /// Report the error, and go on with the next reply.
    Report(X),
}

/// What is done with a reply of the consensus layer.
pub fn on_reply<X>(received: Result<CommitedTransactions, X>) -> (action: ReplyAction<X>)
    ensures
        match received {
            Ok(commited) => action == ReplyAction::<X>::Forward(commited.transactions),
            Err(error) => action == ReplyAction::<X>::Report(error),
        },
{
    match received {
        Ok(CommitedTransactions { transactions }) => ReplyAction::Forward(transactions),
        Err(error) => ReplyAction::Report(error),
    }
}

/// Where the consensus layer is reached.
#[derive(Debug, PartialEq, Eq)]
pub struct ConsensusArgs {
    pub narwhal_addr: String,
    pub narwhal_port: u16,
}

/// Puts the consensus, the storage and the mining task of a node together. `H` is the type of a
/// header.
#[derive(Debug)]
pub struct ScalarBuilder<H> {
    consensus: ScalarConsensus,
    mode: ScalarMiningMode,
    latest_header: SealedHeader<H>,
    consensus_args: ConsensusArgs,
}

/// The parts of a node. `T` is the type of a signed transaction and `E` that of the stream of
/// pipeline events.
pub struct ScalarParts<T, E, H> {
    pub consensus: ScalarConsensus,
    /// The header that the storage starts from.
    pub latest_header: SealedHeader<H>,
    pub task: ScalarMiningTask<T, E>,
    /// Where the consensus client connects to.
    pub consensus_args: ConsensusArgs,
}

impl<H> ScalarBuilder<H> {
    /// The chain of the node.
    pub closed spec fn spec_chain(self) -> ChainSpec {
        self.consensus.spec_chain()
    }

    /// The mode in which the node mines.
    pub closed spec fn spec_mode(self) -> ScalarMiningMode {
        self.mode
    }

    /// The header that the storage starts from.
    pub closed spec fn spec_latest_header(self) -> SealedHeader<H> {
        self.latest_header
    }

    /// Where the consensus layer is reached.
    pub closed spec fn spec_consensus_args(self) -> ConsensusArgs {
        self.consensus_args
    }

    /// A builder for a chain. The storage starts from the latest header, or from that of the
    /// genesis block where there is none or it cannot be read.
    pub fn new<X>(
        chain_spec: Arc<ChainSpec>,
        latest_header: Result<Option<SealedHeader<H>>, X>,
        genesis_header: SealedHeader<H>,
        mode: ScalarMiningMode,
        consensus_args: ConsensusArgs,
    ) -> (result: ScalarBuilder<H>)
        ensures
            result.spec_chain() == *chain_spec,
            result.spec_mode() == mode,
            result.spec_latest_header() == match latest_header {
                Ok(Some(header)) => header,
                _ => genesis_header,
            },
            result.spec_consensus_args() == consensus_args,
    {
        let latest_header = match latest_header {
            Ok(Some(header)) => header,
            _ => genesis_header,
        };
        ScalarBuilder {
            consensus: ScalarConsensus::new(chain_spec),
            mode,
            latest_header,
            consensus_args,
        }
    }

    /// Sets the mode in which the node mines.
    pub fn mode(self, mode: ScalarMiningMode) -> (result: ScalarBuilder<H>)
        ensures
            result.spec_mode() == mode,
            result.spec_chain() == self.spec_chain(),
            result.spec_latest_header() == self.spec_latest_header(),
            result.spec_consensus_args() == self.spec_consensus_args(),
    {
        ScalarBuilder {
            consensus: self.consensus,
            mode,
            latest_header: self.latest_header,
            consensus_args: self.consensus_args,
        }
    }

    /// The parts of the node. The mining task has heard of nothing yet.
    pub fn build<T, E>(self) -> (result: ScalarParts<T, E, H>)
        ensures
            result.consensus.spec_chain() == self.spec_chain(),
            result.latest_header == self.spec_latest_header(),
            result.task.spec_chain() == self.spec_chain(),
            result.task.spec_miner() == self.spec_mode(),
            result.task@ == (TaskState::<T, E> {
                queued: Seq::empty(),
                committed: Seq::empty(),
                seen: Set::empty(),
                inserting: false,
                events: None,
            }),
            result.consensus_args == self.spec_consensus_args(),
    {
        let task = ScalarMiningTask::new(self.consensus.chain_spec(), self.mode);
        ScalarParts {
            consensus: self.consensus,
            latest_header: self.latest_header,
            task,
            consensus_args: self.consensus_args,
        }
    }
}

/// Some committed batch holds the announcement of a hash.
pub open spec fn is_committed(
    batches: Seq<Vec<ExternalTransaction>>,
    namespace: Seq<char>,
    hash: TxHash,
) -> bool {
    exists|i: int, j: int|
        {
            &&& 0 <= i < batches.len()
            &&& 0 <= j < batches[i]@.len()
            &&& is_announcement(#[trigger] batches[i]@[j], namespace, hash)
        }
}

/// A list of transactions has finitely many bytes.
proof fn lemma_bytes_are_finite(transactions: Seq<ExternalTransaction>)
    ensures
        mode::bytes_of(transactions).finite(),
    decreases transactions.len(),
{
    if transactions.len() == 0 {
        assert(mode::bytes_of(transactions) =~= Set::<Seq<u8>>::empty());
    } else {
        let rest = transactions.drop_last();
        lemma_bytes_are_finite(rest);
        assert forall|bytes: Seq<u8>| #[trigger]
            mode::bytes_of(transactions).contains(bytes) implies mode::bytes_of(rest).insert(
            transactions.last().tx_bytes@,
        ).contains(bytes) by {
            let k = choose|k: int|
                0 <= k < transactions.len() && (#[trigger] transactions[k]).tx_bytes@ == bytes;
            if k < rest.len() {
                assert(rest[k].tx_bytes@ == bytes);
            }
        }
        vstd::set_lib::lemma_len_subset(
            mode::bytes_of(transactions),
            mode::bytes_of(rest).insert(transactions.last().tx_bytes@),
        );
    }
}

/// So has a list of batches.
proof fn lemma_batch_bytes_are_finite(batches: Seq<Vec<ExternalTransaction>>)
    ensures
        mode::batch_bytes(batches).finite(),
    decreases batches.len(),
{
    if batches.len() == 0 {
        assert(mode::batch_bytes(batches) =~= Set::<Seq<u8>>::empty());
    } else {
        let rest = batches.drop_last();
        lemma_batch_bytes_are_finite(rest);
        lemma_bytes_are_finite(batches.last()@);
        let all = mode::batch_bytes(rest).union(mode::bytes_of(batches.last()@));
        assert forall|bytes: Seq<u8>| #[trigger]
            mode::batch_bytes(batches).contains(bytes) implies all.contains(bytes) by {
            let k = choose|k: int|
                0 <= k < batches.len() && mode::bytes_of((#[trigger] batches[k])@).contains(bytes);
            if k < rest.len() {
                assert(mode::bytes_of(rest[k]@).contains(bytes));
            }
        }
        vstd::set_lib::lemma_len_subset(mode::batch_bytes(batches), all);
    }
}

/// What the pool announces is mined once the consensus layer has committed it, in whatever order
/// and in however many batches it did so: a miner that waits for nothing else matches all the
/// hashes.
pub proof fn lemma_committed_announcements_are_mined(
    state: NarwhalState,
    namespace: Seq<char>,
    hashes: Seq<TxHash>,
    batches: Seq<Vec<ExternalTransaction>>,
)
    requires
        state.commited.finite(),
        state.pending.len() == 0,
        forall|i: int, j: int|
            0 <= i < j < hashes.len() ==> (#[trigger] hashes[i]).bytes@ != (
            #[trigger] hashes[j]).bytes@,
        forall|i: int|
            0 <= i < hashes.len() ==> is_committed(batches, namespace, #[trigger] hashes[i]),
    ensures
        state.receive(batches, hashes).mineable() == hashes.len(),
        state.receive(batches, hashes).consume(hashes.len()).pending.len() == 0,
{
    let received = state.receive(batches, hashes);
    let pending = mode::hash_bytes(hashes);
    assert(received.pending =~= pending);
    assert forall|i: int| 0 <= i < pending.len() implies received.commited.contains(
        #[trigger] pending[i],
    ) by {
        assert(is_committed(batches, namespace, hashes[i]));
        let (k, m) = choose|k: int, m: int|
            {
                &&& 0 <= k < batches.len()
                &&& 0 <= m < batches[k]@.len()
                &&& is_announcement(#[trigger] batches[k]@[m], namespace, hashes[i])
            };
        assert(batches[k]@[m].tx_bytes@ == pending[i]);
        assert(mode::bytes_of(batches[k]@).contains(pending[i]));
    }
    assert forall|i: int, j: int| 0 <= i < j < pending.len() implies #[trigger] pending[i]
        != #[trigger] pending[j] by {
        assert(hashes[i].bytes@ != hashes[j].bytes@);
    }
    mode::lemma_match_is_longest(received.commited, pending, pending.len());
    mode::lemma_match_is_longest(received.commited, pending, (pending.len() + 1) as nat);
    lemma_batch_bytes_are_finite(batches);
    pending.unique_seq_to_set();
    assert(pending.to_set().subset_of(received.commited));
    vstd::set_lib::lemma_len_subset(pending.to_set(), received.commited);
}

} // verus!
