//! The configuration of the EVM: which rules hold at a block, and what the next block looks like
//! to a transaction.

use std::sync::Arc;
use vstd::prelude::*;
use crate::env::{
    AnalysisKind, BlockEnv, CfgEnvWithHandlerCfg, Env, Header, NextBlockEnvAttributes, SpecId,
    TxEnv,
};
use crate::fees::{self, BaseFeeParams, BlobExcessGasAndPrice};
use crate::hardfork::{ChainSpec, EthereumHardfork, ForkCondition, Head};
use crate::primitives::{Address, TxKind, U256};

verus! {

/// The hardforks that change the rules, the newest first, each with the rules that it brings.
pub open spec fn fork_ladder() -> Seq<(EthereumHardfork, SpecId)> {
    seq![
        (EthereumHardfork::Prague, SpecId::PRAGUE),
        (EthereumHardfork::Cancun, SpecId::CANCUN),
        (EthereumHardfork::Shanghai, SpecId::SHANGHAI),
        (EthereumHardfork::Paris, SpecId::MERGE),
        (EthereumHardfork::London, SpecId::LONDON),
        (EthereumHardfork::Berlin, SpecId::BERLIN),
        (EthereumHardfork::Istanbul, SpecId::ISTANBUL),
        (EthereumHardfork::Petersburg, SpecId::PETERSBURG),
        (EthereumHardfork::Byzantium, SpecId::BYZANTIUM),
        (EthereumHardfork::SpuriousDragon, SpecId::SPURIOUS_DRAGON),
        (EthereumHardfork::Tangerine, SpecId::TANGERINE),
        (EthereumHardfork::Homestead, SpecId::HOMESTEAD),
        (EthereumHardfork::Frontier, SpecId::FRONTIER),
    ]
}

/// The fork at a rung of the ladder is active at a block.
pub open spec fn rung_is_active(chain_spec: ChainSpec, head: Head, rung: int) -> bool {
    chain_spec.condition(fork_ladder()[rung].0).is_active_at_head(head)
}

/// The fork at a rung of the ladder is the newest one that is active at a block.
pub open spec fn is_newest_active(chain_spec: ChainSpec, head: Head, rung: int) -> bool {
    &&& 0 <= rung < fork_ladder().len()
    &&& rung_is_active(chain_spec, head, rung)
    &&& forall|newer: int| 0 <= newer < rung ==> !rung_is_active(chain_spec, head, newer)
}

/// Some fork of the ladder is active at a block.
pub open spec fn some_fork_is_active(chain_spec: ChainSpec, head: Head) -> bool {
    exists|rung: int| 0 <= rung < fork_ladder().len() && rung_is_active(chain_spec, head, rung)
}

/// The rules at a block: those of the newest fork that is active there.
pub open spec fn is_spec_at(chain_spec: ChainSpec, head: Head, spec_id: SpecId) -> bool {
    exists|rung: int| #[trigger]
        is_newest_active(chain_spec, head, rung) && spec_id == fork_ladder()[rung].1
}

/// The rules at a time after the merge.
pub open spec fn spec_after_merge(chain_spec: ChainSpec, timestamp: u64) -> SpecId {
    if chain_spec.condition(EthereumHardfork::Prague).is_active_at_timestamp(timestamp) {
        SpecId::PRAGUE
    } else if chain_spec.condition(EthereumHardfork::Cancun).is_active_at_timestamp(timestamp) {
        SpecId::CANCUN
    } else if chain_spec.condition(EthereumHardfork::Shanghai).is_active_at_timestamp(timestamp) {
        SpecId::SHANGHAI
    } else {
        SpecId::MERGE
    }
}

/// The rules at a time. This is meant for blocks after the merge, where hardforks become active by
/// time.
pub fn revm_spec_by_timestamp_after_merge(chain_spec: &ChainSpec, timestamp: u64) -> (result:
    SpecId)
    ensures
        result == spec_after_merge(*chain_spec, timestamp),
{
    if chain_spec.fork(EthereumHardfork::Prague).active_at_timestamp(timestamp) {
        SpecId::PRAGUE
    } else if chain_spec.fork(EthereumHardfork::Cancun).active_at_timestamp(timestamp) {
        SpecId::CANCUN
    } else if chain_spec.fork(EthereumHardfork::Shanghai).active_at_timestamp(timestamp) {
        SpecId::SHANGHAI
    } else {
        SpecId::MERGE
    }
}

/// The hardforks that change the rules, the newest first, each with the rules that it brings.
fn ladder() -> (result: Vec<(EthereumHardfork, SpecId)>)
    ensures
        result@ == fork_ladder(),
{
    vec![
        (EthereumHardfork::Prague, SpecId::PRAGUE),
        (EthereumHardfork::Cancun, SpecId::CANCUN),
        (EthereumHardfork::Shanghai, SpecId::SHANGHAI),
        (EthereumHardfork::Paris, SpecId::MERGE),
        (EthereumHardfork::London, SpecId::LONDON),
        (EthereumHardfork::Berlin, SpecId::BERLIN),
        (EthereumHardfork::Istanbul, SpecId::ISTANBUL),
        (EthereumHardfork::Petersburg, SpecId::PETERSBURG),
        (EthereumHardfork::Byzantium, SpecId::BYZANTIUM),
        (EthereumHardfork::SpuriousDragon, SpecId::SPURIOUS_DRAGON),
        (EthereumHardfork::Tangerine, SpecId::TANGERINE),
        (EthereumHardfork::Homestead, SpecId::HOMESTEAD),
        (EthereumHardfork::Frontier, SpecId::FRONTIER),
    ]
}

/// The rules at a block, where some hardfork is active there.
pub fn newest_active_spec(chain_spec: &ChainSpec, block: &Head) -> (result: Option<SpecId>)
    ensures
        match result {
            Some(spec_id) => is_spec_at(*chain_spec, *block, spec_id),
            None => !some_fork_is_active(*chain_spec, *block),
        },
{
    let forks = ladder();
    let mut rung: usize = 0;
    while rung < forks.len()
        invariant
            rung <= forks.len(),
            forks@ == fork_ladder(),
            forall|newer: int| 0 <= newer < rung ==> !rung_is_active(*chain_spec, *block, newer),
        decreases forks.len() - rung,
    {
        if chain_spec.fork(forks[rung].0).active_at_head(block) {
            assert(is_newest_active(*chain_spec, *block, rung as int));
            return Some(forks[rung].1);
        }
        rung = rung + 1;
    }
    None
}

/// Maps the newest hardfork that is active at a block to the rules that it brings. A chain on which
/// no hardfork is active has no rules.
pub fn revm_spec(chain_spec: &ChainSpec, block: &Head) -> (result: SpecId)
    requires
        some_fork_is_active(*chain_spec, *block),
    ensures
        is_spec_at(*chain_spec, *block, result),
{
    newest_active_spec(chain_spec, block).unwrap()
}

/// The greatest gas that a call of a system contract may use.
pub const SYSTEM_CALL_GAS_LIMIT: u64 = 30_000_000;

/// The transaction is a call of a system contract: it has no nonce and no chain id to check, costs
/// nothing, transfers nothing and has neither an access list nor blobs nor authorizations.
pub open spec fn is_system_call(
    tx: TxEnv,
    caller: Address,
    contract: Address,
    data: Seq<u8>,
) -> bool {
    &&& tx.caller == caller
    &&& tx.transact_to == TxKind::Call(contract)
    &&& tx.data@ == data
    &&& tx.nonce is None
    &&& tx.chain_id is None
    &&& tx.gas_limit == SYSTEM_CALL_GAS_LIMIT
    &&& tx.gas_price@ == 0
    &&& tx.gas_priority_fee is None
    &&& tx.value@ == 0
    &&& tx.access_list@.len() == 0
    &&& tx.blob_hashes@.len() == 0
    &&& tx.max_fee_per_blob_gas is None
    &&& tx.authorization_list is None
}

/// The block that a header describes, as far as the activation of a hardfork depends on it.
pub open spec fn head_of(header: Header, total_difficulty: U256) -> Head {
    Head {
        number: header.number,
        timestamp: header.timestamp,
        difficulty: header.difficulty,
        total_difficulty,
    }
}

/// The blob gas of the next block: the excess that the parent leaves, and where the parent knows
/// no blobs yet but the rules of Cancun hold, no excess.
pub open spec fn next_excess_blob_gas(parent: Header, spec_id: SpecId) -> Option<u128> {
    match fees::excess_blob_gas_after(parent.excess_blob_gas, parent.blob_gas_used) {
        Some(excess) => Some(excess),
        None => if spec_id == SpecId::CANCUN {
            Some(0)
        } else {
            None
        },
    }
}

/// The fees of the block after `parent` can be computed: no number on the way leaves its range.
pub open spec fn fees_are_computable(parent: Header, params: BaseFeeParams) -> bool {
    &&& parent.number < u64::MAX
    &&& fees::blob_gas_is_addable(parent.excess_blob_gas, parent.blob_gas_used)
    &&& fees::excess_blob_gas_after(parent.excess_blob_gas, parent.blob_gas_used) matches Some(
        excess,
    ) ==> excess % 0x1_0000_0000_0000_0000 <= fees::MAX_PRICED_EXCESS_BLOB_GAS
    &&& parent.base_fee_per_gas matches Some(fee) ==> fees::base_fee_is_computable(
        parent.gas_used,
        parent.gas_limit,
        fee,
        params,
    )
}

/// Whether the block after `parent` is the first one with a base fee.
pub open spec fn is_london_boundary(chain_spec: ChainSpec, parent: Header) -> bool {
    chain_spec.condition(EthereumHardfork::London).is_transition((parent.number + 1) as u64)
}

/// The gas limit of the block after `parent`: the same, but at the London boundary it grows by the
/// elasticity multiplier.
pub open spec fn next_gas_limit(
    chain_spec: ChainSpec,
    parent: Header,
    params: BaseFeeParams,
) -> int {
    if is_london_boundary(chain_spec, parent) {
        parent.gas_limit * params.elasticity_multiplier
    } else {
        parent.gas_limit as int
    }
}

/// The base fee of the block after `parent`: what EIP-1559 makes of the parent's, zero where it has
/// none, and at the London boundary the initial base fee.
pub open spec fn next_base_fee(
    chain_spec: ChainSpec,
    parent: Header,
    params: BaseFeeParams,
) -> int {
    if is_london_boundary(chain_spec, parent) {
        fees::EIP1559_INITIAL_BASE_FEE as int
    } else {
        match parent.base_fee_per_gas {
            Some(fee) => fees::base_fee_after(parent.gas_used, parent.gas_limit, fee, params),
            None => 0,
        }
    }
}

/// The block environment is that of the block after `parent`.
pub open spec fn is_next_block_env(
    chain_spec: ChainSpec,
    parent: Header,
    attributes: NextBlockEnvAttributes,
    params: BaseFeeParams,
    block: BlockEnv,
) -> bool {
    &&& block.number@ == parent.number + 1
    &&& block.coinbase == attributes.suggested_fee_recipient
    &&& block.timestamp@ == attributes.timestamp
    &&& block.difficulty@ == 0
    &&& block.prevrandao == Some(attributes.prev_randao)
    &&& block.gas_limit@ == next_gas_limit(chain_spec, parent, params)
    &&& block.basefee@ == next_base_fee(chain_spec, parent, params)
    &&& match next_excess_blob_gas(parent, spec_after_merge(chain_spec, attributes.timestamp)) {
        Some(excess) => {
            let low = (excess % 0x1_0000_0000_0000_0000) as u64;
            &&& block.blob_excess_gas_and_price matches Some(priced)
            &&& priced.excess_blob_gas == low
            &&& fees::is_blob_gasprice(low, priced.blob_gasprice)
        },
        None => block.blob_excess_gas_and_price is None,
    }
}

/// Whether the fees of the block after `parent` can be computed.
pub fn fees_computable(parent: &Header, params: BaseFeeParams) -> (result: bool)
    ensures
        result == fees_are_computable(*parent, params),
{
    if parent.number == u64::MAX {
        return false;
    }
    if let (Some(excess), Some(used)) = (parent.excess_blob_gas, parent.blob_gas_used) {
        if used > u128::MAX - excess {
            return false;
        }
    }
    let next_excess = fees::next_block_excess_blob_gas(
        parent.excess_blob_gas,
        parent.blob_gas_used,
    );
    if let Some(excess) = next_excess {
        if excess % 0x1_0000_0000_0000_0000 > fees::MAX_PRICED_EXCESS_BLOB_GAS as u128 {
            return false;
        }
    }
    match parent.base_fee_per_gas {
        Some(fee) => fees::base_fee_computable(parent.gas_used, parent.gas_limit, fee, params),
        None => true,
    }
}

/// How an EVM is configured for the blocks of a chain.
pub trait ConfigureEvmEnv {
    /// The chain that the configuration is for.
    spec fn spec_chain(&self) -> ChainSpec;

    /// Prepares the call of a system contract: the transaction is replaced, and the block lets it
    /// pass whatever its gas limit and base fee were.
    fn fill_tx_env_system_contract_call(
        &self,
        env: &mut Env,
        caller: Address,
        contract: Address,
        data: Vec<u8>,
    )
        ensures
            is_system_call(final(env).tx, caller, contract, data@),
            final(env).tx.gas_limit == 30_000_000,
            final(env).block.gas_limit@ == SYSTEM_CALL_GAS_LIMIT,
            final(env).block.basefee@ == 0,
            final(env).tx.gas_limit <= final(env).block.gas_limit@,
            final(env).tx.gas_price@ >= final(env).block.basefee@,
            final(env).cfg == old(env).cfg,
            final(env).block == (BlockEnv {
                gas_limit: final(env).block.gas_limit,
                basefee: final(env).block.basefee,
                ..old(env).block
            }),
    ;

    /// Configures an EVM for the block of a header.
    fn fill_cfg_env(
        &self,
        cfg_env: &mut CfgEnvWithHandlerCfg,
        header: &Header,
        total_difficulty: U256,
    )
        requires
            some_fork_is_active(self.spec_chain(), head_of(*header, total_difficulty)),
        ensures
            final(cfg_env).chain_id == self.spec_chain().spec_chain_id(),
            final(cfg_env).perf_analyse_created_bytecodes == AnalysisKind::Analyse,
            is_spec_at(
                self.spec_chain(),
                head_of(*header, total_difficulty),
                final(cfg_env).spec_id,
            ),
    ;

    /// The configuration of the EVM and of the block after `parent`.
    ///
    /// `base_fee_params` are those of the chain at the time of the next block.
    fn next_cfg_and_block_env(
        &self,
        parent: &Header,
        attributes: NextBlockEnvAttributes,
        base_fee_params: BaseFeeParams,
    ) -> (result: (CfgEnvWithHandlerCfg, BlockEnv))
        requires
            fees_are_computable(*parent, base_fee_params),
        ensures
            result.0 == (CfgEnvWithHandlerCfg {
                chain_id: self.spec_chain().spec_chain_id(),
                perf_analyse_created_bytecodes: AnalysisKind::Analyse,
                spec_id: spec_after_merge(self.spec_chain(), attributes.timestamp),
            }),
            is_next_block_env(
                self.spec_chain(),
                *parent,
                attributes,
                base_fee_params,
                result.1,
            ),
            parent.base_fee_per_gas is Some && self.spec_chain().condition(EthereumHardfork::London)
                != ForkCondition::Block((parent.number + 1) as u64) ==> result.1.basefee@
                == fees::base_fee_after(
                parent.gas_used,
                parent.gas_limit,
                parent.base_fee_per_gas->0,
                base_fee_params,
            ),
            self.spec_chain().condition(EthereumHardfork::London) == ForkCondition::Block(
                (parent.number + 1) as u64,
            ) ==> result.1.basefee@ == 1_000_000_000,
    ;
}

/// The EVM configuration of an Ethereum chain.
#[derive(Clone, Debug)]
pub struct EthEvmConfig {
    chain_spec: Arc<ChainSpec>,
}

impl EthEvmConfig {
    /// The configuration for a chain.
    pub fn new(chain_spec: Arc<ChainSpec>) -> (result: EthEvmConfig)
        ensures
            result.spec_chain() == *chain_spec,
    {
        EthEvmConfig { chain_spec }
    }

    /// The chain that the configuration is for.
    pub fn chain_spec(&self) -> (result: &ChainSpec)
        ensures
            *result == self.spec_chain(),
    {
        &self.chain_spec
    }
}

impl ConfigureEvmEnv for EthEvmConfig {
    closed spec fn spec_chain(&self) -> ChainSpec {
        *self.chain_spec
    }

    fn fill_tx_env_system_contract_call(
        &self,
        env: &mut Env,
        caller: Address,
        contract: Address,
        data: Vec<u8>,
    ) {
        env.tx = TxEnv {
            caller,
            transact_to: TxKind::Call(contract),
            // without a nonce, none is checked
            nonce: None,
            gas_limit: SYSTEM_CALL_GAS_LIMIT,
            value: U256::zero(),
            data,
            // with a gas price of zero no value is transferred for the call, and the call does not
            // count against the block's gas limit
            gas_price: U256::zero(),
            chain_id: None,
            // without a priority fee the effective price is the gas price, which is zero
            gas_priority_fee: None,
            access_list: Vec::new(),
            blob_hashes: Vec::new(),
            max_fee_per_blob_gas: None,
            authorization_list: None,
        };
        // the block's gas limit is not below the transaction's
        env.block.gas_limit = U256::from_u64(env.tx.gas_limit);
        // with a base fee of zero the base fee is not checked
        env.block.basefee = U256::zero();
    }

    fn fill_cfg_env(
        &self,
        cfg_env: &mut CfgEnvWithHandlerCfg,
        header: &Header,
        total_difficulty: U256,
    ) {
        let spec_id = revm_spec(
            self.chain_spec(),
            &Head {
                number: header.number,
                timestamp: header.timestamp,
                difficulty: header.difficulty,
                total_difficulty,
            },
        );
        cfg_env.chain_id = self.chain_spec.chain_id();
        cfg_env.perf_analyse_created_bytecodes = AnalysisKind::Analyse;
        cfg_env.spec_id = spec_id;
    }

    fn next_cfg_and_block_env(
        &self,
        parent: &Header,
        attributes: NextBlockEnvAttributes,
        base_fee_params: BaseFeeParams,
    ) -> (result: (CfgEnvWithHandlerCfg, BlockEnv)) {
        // no hardfork that becomes active by time is missed
        let spec_id = revm_spec_by_timestamp_after_merge(
            self.chain_spec(),
            attributes.timestamp,
        );
        // where the parent has no excess blob gas (it is older than Cancun) but the next block is
        // of Cancun, the excess starts at zero
        let parent_excess = fees::next_block_excess_blob_gas(
            parent.excess_blob_gas,
            parent.blob_gas_used,
        );
        let excess_blob_gas: Option<u128> = match parent_excess {
            Some(excess) => Some(excess),
            None => if spec_id == SpecId::CANCUN {
                Some(0u128)
            } else {
                None
            },
        };
        let blob_excess_gas_and_price: Option<BlobExcessGasAndPrice> = match excess_blob_gas {
            Some(excess) => {
                let low: u64 = (excess % 0x1_0000_0000_0000_0000) as u64;
                Some(BlobExcessGasAndPrice::new(low))
            },
            None => None,
        };
        let mut basefee: Option<u128> = fees::next_block_base_fee(
            parent.gas_used,
            parent.gas_limit,
            parent.base_fee_per_gas,
            base_fee_params,
        );
        let mut gas_limit = U256::from_u128(parent.gas_limit);
        // at the London boundary the gas limit grows by the elasticity multiplier, and the base fee
        // starts at its initial value
        if self.chain_spec.fork(EthereumHardfork::London).transitions_at_block(parent.number + 1) {
            gas_limit = gas_limit.wrapping_mul(
                U256::from_u128(base_fee_params.elasticity_multiplier),
            );
            proof {
                lemma_product_fits(parent.gas_limit, base_fee_params.elasticity_multiplier);
            }
            basefee = Some(fees::EIP1559_INITIAL_BASE_FEE as u128);
        }
        let block_env = BlockEnv {
            number: U256::from_u64(parent.number + 1),
            coinbase: attributes.suggested_fee_recipient,
            timestamp: U256::from_u64(attributes.timestamp),
            difficulty: U256::zero(),
            prevrandao: Some(attributes.prev_randao),
            gas_limit,
            basefee: match basefee {
                Some(fee) => U256::from_u128(fee),
                None => U256::zero(),
            },
            blob_excess_gas_and_price,
        };
        let cfg = CfgEnvWithHandlerCfg {
            chain_id: self.chain_spec.chain_id(),
            perf_analyse_created_bytecodes: AnalysisKind::Analyse,
            spec_id,
        };
        (cfg, block_env)
    }
}

/// The product of two 128-bit numbers fits in 256 bits.
proof fn lemma_product_fits(left: u128, right: u128)
    ensures
        (left as nat) * (right as nat) < crate::primitives::u256_modulus(),
        ((left as nat) * (right as nat)) % crate::primitives::u256_modulus() == left * right,
{
    let bound = 0x1_0000_0000_0000_0000_0000_0000_0000_0000int;
    assert((left as nat) * (right as nat) <= (bound - 1) * (bound - 1)) by (nonlinear_arith)
        requires
            left as int <= bound - 1,
            right as int <= bound - 1,
    ;
}

/// At most one set of rules holds at a block.
pub proof fn lemma_rules_are_unique(chain_spec: ChainSpec, head: Head, one: SpecId, other: SpecId)
    requires
        is_spec_at(chain_spec, head, one),
        is_spec_at(chain_spec, head, other),
    ensures
        one == other,
{
    let first = choose|rung: int| #[trigger]
        is_newest_active(chain_spec, head, rung) && one == fork_ladder()[rung].1;
    let second = choose|rung: int| #[trigger]
        is_newest_active(chain_spec, head, rung) && other == fork_ladder()[rung].1;
    if first < second {
        assert(!rung_is_active(chain_spec, head, first));
    }
    if second < first {
        assert(!rung_is_active(chain_spec, head, second));
    }
}

/// The total difficulty of the chain before a block.
pub open spec fn difficulty_before(head: Head) -> int {
    if head.total_difficulty@ >= head.difficulty@ {
        head.total_difficulty@ - head.difficulty@
    } else {
        0
    }
}

/// As a chain grows, in number, time and difficulty, the rules only move on to newer ones: the rung
/// of the newest active fork never falls back.
pub proof fn lemma_rules_never_go_back(
    chain_spec: ChainSpec,
    head: Head,
    later: Head,
    rung: int,
    later_rung: int,
)
    requires
        head.number <= later.number,
        head.timestamp <= later.timestamp,
        difficulty_before(head) <= difficulty_before(later),
        is_newest_active(chain_spec, head, rung),
        is_newest_active(chain_spec, later, later_rung),
    ensures
        later_rung <= rung,
{
    assert(rung_is_active(chain_spec, later, rung));
}

/// A hardfork that becomes active by time, if it ever does.
pub open spec fn is_timed(chain_spec: ChainSpec, fork: EthereumHardfork) -> bool {
    chain_spec.condition(fork) is Timestamp || chain_spec.condition(fork) is Never
}

/// After the merge the time of a block is enough: where the forks since Shanghai become active by
/// time, the rules by time are the rules at the block.
pub proof fn lemma_time_decides_after_merge(chain_spec: ChainSpec, head: Head)
    requires
        is_timed(chain_spec, EthereumHardfork::Prague),
        is_timed(chain_spec, EthereumHardfork::Cancun),
        is_timed(chain_spec, EthereumHardfork::Shanghai),
        chain_spec.condition(EthereumHardfork::Paris).is_active_at_head(head),
    ensures
        is_spec_at(chain_spec, head, spec_after_merge(chain_spec, head.timestamp)),
{
    let rung: int = match spec_after_merge(chain_spec, head.timestamp) {
        SpecId::PRAGUE => 0,
        SpecId::CANCUN => 1,
        SpecId::SHANGHAI => 2,
        _ => 3,
    };
    assert(rung_is_active(chain_spec, head, rung));
    assert forall|newer: int| 0 <= newer < rung implies !rung_is_active(
        chain_spec,
        head,
        newer,
    ) by {
        assert(newer == 0 || newer == 1 || newer == 2);
    }
    assert(is_newest_active(chain_spec, head, rung));
}

/// A block under the rules of Cancun always has a blob gas price, also where its parent knows no
/// blobs.
pub proof fn lemma_cancun_block_has_blob_price(
    chain_spec: ChainSpec,
    parent: Header,
    attributes: NextBlockEnvAttributes,
    params: BaseFeeParams,
    block: BlockEnv,
)
    requires
        is_next_block_env(chain_spec, parent, attributes, params, block),
        spec_after_merge(chain_spec, attributes.timestamp) == SpecId::CANCUN,
    ensures
        block.blob_excess_gas_and_price is Some,
{
}

/// At the London boundary the gas limit grows so that the gas target of the next block is the
/// parent's whole gas limit.
pub proof fn lemma_london_keeps_gas_target(
    chain_spec: ChainSpec,
    parent: Header,
    params: BaseFeeParams,
)
    requires
        is_london_boundary(chain_spec, parent),
        params.elasticity_multiplier > 0,
    ensures
        next_gas_limit(chain_spec, parent, params) / params.elasticity_multiplier as int
            == parent.gas_limit,
        next_base_fee(chain_spec, parent, params) == fees::EIP1559_INITIAL_BASE_FEE,
{
    vstd::arithmetic::div_mod::lemma_div_by_multiple(
        parent.gas_limit as int,
        params.elasticity_multiplier as int,
    );
}

} // verus!
