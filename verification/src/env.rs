//! What an EVM is configured with: the chain, the block and the transaction.

use vstd::prelude::*;
use crate::fees::BlobExcessGasAndPrice;
use crate::primitives::{Address, B256, TxKind, U256};

verus! {

/// The rules that an EVM follows, the oldest first.
#[allow(non_camel_case_types)]
#[derive(Clone, Copy, Debug, PartialEq, Eq, Structural)]
pub enum SpecId {
    FRONTIER,
    HOMESTEAD,
    TANGERINE,
    SPURIOUS_DRAGON,
    BYZANTIUM,
    PETERSBURG,
    ISTANBUL,
    BERLIN,
    LONDON,
    MERGE,
    SHANGHAI,
    CANCUN,
    PRAGUE,
}

/// What is done to byte code when it is created.
#[derive(Clone, Copy, Debug, PartialEq, Eq, Structural)]
pub enum AnalysisKind {
    /// It is left as it is.
    Raw,
    /// It is analysed.
    Analyse,
}

/// The configuration of an EVM.
#[derive(Clone, Copy, Debug, PartialEq, Eq)]
pub struct CfgEnvWithHandlerCfg {
    /// The id of the chain.
    pub chain_id: u64,
    /// What is done to byte code when it is created.
    pub perf_analyse_created_bytecodes: AnalysisKind,
    /// The rules that the EVM follows.
    pub spec_id: SpecId,
}

/// The block that an EVM executes in.
#[derive(Clone, Copy, Debug, PartialEq, Eq)]
pub struct BlockEnv {
    pub number: U256,
    /// Who receives the fees of the block.
    pub coinbase: Address,
    pub timestamp: U256,
    pub gas_limit: U256,
    pub basefee: U256,
    pub difficulty: U256,
    /// The output of the randomness beacon.
    pub prevrandao: Option<B256>,
    pub blob_excess_gas_and_price: Option<BlobExcessGasAndPrice>,
}

/// An account, and slots of its storage, that a transaction declares it will use.
#[derive(Debug, PartialEq, Eq)]
pub struct AccessListItem {
    pub address: Address,
    pub storage_keys: Vec<B256>,
}

/// The transaction that an EVM executes.
#[derive(Debug, PartialEq, Eq)]
pub struct TxEnv {
    pub caller: Address,
    pub gas_limit: u64,
    pub gas_price: U256,
    pub transact_to: TxKind,
    pub value: U256,
    pub data: Vec<u8>,
    /// Where there is none, the nonce is not checked.
    pub nonce: Option<u64>,
    /// Where there is none, the id of the chain is not checked.
    pub chain_id: Option<u64>,
    pub access_list: Vec<AccessListItem>,
    pub gas_priority_fee: Option<U256>,
    pub blob_hashes: Vec<B256>,
    pub max_fee_per_blob_gas: Option<U256>,
    /// The encoded authorizations of the transaction.
    pub authorization_list: Option<Vec<Vec<u8>>>,
}

impl TxEnv {
    /// Nothing has been filled in: the transaction calls the zero address with all the gas there
    /// is, and with nothing else.
    pub open spec fn is_blank(self) -> bool {
        &&& self.caller.bytes@ == Seq::new(20, |i: int| 0u8)
        &&& self.transact_to matches TxKind::Call(to) && to.bytes@ == Seq::new(20, |i: int| 0u8)
        &&& self.gas_limit == u64::MAX
        &&& self.gas_price@ == 0
        &&& self.gas_priority_fee is None
        &&& self.value@ == 0
        &&& self.data@.len() == 0
        &&& self.nonce is None
        &&& self.chain_id is None
        &&& self.access_list@.len() == 0
        &&& self.blob_hashes@.len() == 0
        &&& self.max_fee_per_blob_gas is None
        &&& self.authorization_list is None
    }
}

impl Default for TxEnv {
    /// A transaction in which nothing has been filled in.
    fn default() -> (result: TxEnv)
        ensures
            result.is_blank(),
    {
        let nobody = Address { bytes: [0u8; 20] };
        assert(nobody.bytes@ =~= Seq::new(20, |i: int| 0u8));
        TxEnv {
            caller: nobody,
            gas_limit: u64::MAX,
            gas_price: U256::zero(),
            transact_to: TxKind::Call(nobody),
            value: U256::zero(),
            data: Vec::new(),
            nonce: None,
            chain_id: None,
            access_list: Vec::new(),
            gas_priority_fee: None,
            blob_hashes: Vec::new(),
            max_fee_per_blob_gas: None,
            authorization_list: None,
        }
    }
}

/// What an EVM is configured with.
#[derive(Debug, PartialEq, Eq)]
pub struct Env {
    pub cfg: CfgEnvWithHandlerCfg,
    pub block: BlockEnv,
    pub tx: TxEnv,
}

/// The header of a block, as far as the configuration of an EVM depends on it.
#[derive(Clone, Copy, Debug, PartialEq, Eq)]
pub struct Header {
    pub number: u64,
    pub timestamp: u64,
    pub difficulty: U256,
    pub gas_limit: u128,
    pub gas_used: u128,
    pub base_fee_per_gas: Option<u128>,
    pub blob_gas_used: Option<u128>,
    pub excess_blob_gas: Option<u128>,
}

/// What is known of the next block before it is built.
#[derive(Clone, Copy, Debug, PartialEq, Eq)]
pub struct NextBlockEnvAttributes {
    pub timestamp: u64,
    /// Who should receive the fees of the block.
    pub suggested_fee_recipient: Address,
    /// The output of the randomness beacon for the block.
    pub prev_randao: B256,
}

} // verus!
