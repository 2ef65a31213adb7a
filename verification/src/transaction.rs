//! Transactions, as the pool and the consensus layer hand them over.

use vstd::prelude::*;
use crate::primitives::{Address, TxHash};

verus! {

/// A transaction as the consensus layer carries it: opaque bytes under a namespace.
#[derive(Debug, PartialEq, Eq)]
pub struct ExternalTransaction {
    pub namespace: String,
    pub tx_bytes: Vec<u8>,
}

/// A list of transactions that the consensus layer has committed, in order.
#[derive(Debug, PartialEq, Eq)]
pub struct CommitedTransactions {
    pub transactions: Vec<ExternalTransaction>,
}

/// A validated transaction of the pool.
///
/// `signed` is the signed transaction itself; mining passes it on without reading it.
#[derive(Debug, PartialEq, Eq)]
pub struct PooledTransaction<T> {
    pub nonce: u64,
    pub hash: TxHash,
    pub signer: Address,
    pub signed: T,
}

} // verus!
