use std::sync::Arc;

use scalar_node::config::{
    fees_computable, newest_active_spec, revm_spec, revm_spec_by_timestamp_after_merge,
    ConfigureEvmEnv, EthEvmConfig, SYSTEM_CALL_GAS_LIMIT,
};
use scalar_node::env::{
    AccessListItem, AnalysisKind, BlockEnv, CfgEnvWithHandlerCfg, Env, Header,
    NextBlockEnvAttributes, SpecId, TxEnv,
};
use scalar_node::fees::{
    base_fee_computable, next_block_base_fee, next_block_excess_blob_gas, BaseFeeParams,
    BlobExcessGasAndPrice, EIP1559_INITIAL_BASE_FEE, MAX_PRICED_EXCESS_BLOB_GAS,
};
use scalar_node::hardfork::{ChainSpec, EthereumHardfork, ForkCondition, Head};
use scalar_node::primitives::{Address, TxKind, B256, U256};
use scalar_node::seth::ScalarEvmConfig;

const LONDON_PARAMS: BaseFeeParams =
    BaseFeeParams { max_change_denominator: 8, elasticity_multiplier: 2 };

fn u256(value: u128) -> U256 {
    U256::from_u128(value)
}

fn mainnet() -> ChainSpec {
    let mut chain = ChainSpec::new(1);
    let by_block = [
        (EthereumHardfork::Frontier, 0),
        (EthereumHardfork::Homestead, 1_150_000),
        (EthereumHardfork::Dao, 1_920_000),
        (EthereumHardfork::Tangerine, 2_463_000),
        (EthereumHardfork::SpuriousDragon, 2_675_000),
        (EthereumHardfork::Byzantium, 4_370_000),
        (EthereumHardfork::Constantinople, 7_280_000),
        (EthereumHardfork::Petersburg, 7_280_000),
        (EthereumHardfork::Istanbul, 9_069_000),
        (EthereumHardfork::MuirGlacier, 9_200_000),
        (EthereumHardfork::Berlin, 12_244_000),
        (EthereumHardfork::London, 12_965_000),
        (EthereumHardfork::ArrowGlacier, 13_773_000),
        (EthereumHardfork::GrayGlacier, 15_050_000),
    ];
    for (fork, block) in by_block {
        chain = chain.with_fork(fork, ForkCondition::Block(block));
    }
    chain
        .with_fork(
            EthereumHardfork::Paris,
            ForkCondition::TTD {
                fork_block: None,
                total_difficulty: u256(58_750_000_000_000_000_000_000),
            },
        )
        .with_fork(EthereumHardfork::Shanghai, ForkCondition::Timestamp(1681338455))
        .with_fork(EthereumHardfork::Cancun, ForkCondition::Timestamp(1710338135))
}

/// Mainnet, with a fork and those that its activation brings along active from the start.
fn mainnet_with_activated(newest: EthereumHardfork) -> ChainSpec {
    let ladder = [
        EthereumHardfork::Frontier,
        EthereumHardfork::Homestead,
        EthereumHardfork::Tangerine,
        EthereumHardfork::SpuriousDragon,
        EthereumHardfork::Byzantium,
        EthereumHardfork::Petersburg,
        EthereumHardfork::Istanbul,
        EthereumHardfork::Berlin,
        EthereumHardfork::London,
        EthereumHardfork::Paris,
        EthereumHardfork::Shanghai,
        EthereumHardfork::Cancun,
    ];
    let mut chain = mainnet();
    for fork in ladder {
        let condition = match fork {
            EthereumHardfork::Paris => {
                ForkCondition::TTD { fork_block: Some(0), total_difficulty: U256::zero() }
            }
            EthereumHardfork::Shanghai | EthereumHardfork::Cancun => ForkCondition::Timestamp(0),
            _ => ForkCondition::Block(0),
        };
        chain = chain.with_fork(fork, condition);
        if fork == newest {
            break;
        }
    }
    chain
}

fn default_head() -> Head {
    Head {
        number: 0,
        timestamp: 0,
        difficulty: U256::zero(),
        total_difficulty: U256::zero(),
    }
}

fn at_number(number: u64) -> Head {
    Head { number, ..default_head() }
}

fn at_time(timestamp: u64) -> Head {
    Head { timestamp, ..default_head() }
}

/// The rules under the name that the EVM has for them.
fn revm(spec_id: SpecId) -> revm_primitives::SpecId {
    match spec_id {
        SpecId::FRONTIER => revm_primitives::FRONTIER,
        SpecId::HOMESTEAD => revm_primitives::HOMESTEAD,
        SpecId::TANGERINE => revm_primitives::TANGERINE,
        SpecId::SPURIOUS_DRAGON => revm_primitives::SPURIOUS_DRAGON,
        SpecId::BYZANTIUM => revm_primitives::BYZANTIUM,
        SpecId::PETERSBURG => revm_primitives::PETERSBURG,
        SpecId::ISTANBUL => revm_primitives::ISTANBUL,
        SpecId::BERLIN => revm_primitives::BERLIN,
        SpecId::LONDON => revm_primitives::LONDON,
        SpecId::MERGE => revm_primitives::MERGE,
        SpecId::SHANGHAI => revm_primitives::SHANGHAI,
        SpecId::CANCUN => revm_primitives::CANCUN,
        SpecId::PRAGUE => revm_primitives::PRAGUE,
    }
}

fn header() -> Header {
    Header {
        number: 100,
        timestamp: 1_000,
        difficulty: U256::zero(),
        gas_limit: 30_000_000,
        gas_used: 15_000_000,
        base_fee_per_gas: Some(1_000_000_000),
        blob_gas_used: None,
        excess_blob_gas: None,
    }
}

fn attributes(timestamp: u64) -> NextBlockEnvAttributes {
    NextBlockEnvAttributes {
        timestamp,
        suggested_fee_recipient: Address { bytes: [7; 20] },
        prev_randao: B256 { bytes: [9; 32] },
    }
}

#[test]
fn test_revm_spec_by_timestamp_after_merge() {
    assert_eq!(
        revm(revm_spec_by_timestamp_after_merge(
            &mainnet_with_activated(EthereumHardfork::Cancun),
            0
        )),
        revm_primitives::CANCUN
    );
    assert_eq!(
        revm(revm_spec_by_timestamp_after_merge(
            &mainnet_with_activated(EthereumHardfork::Shanghai),
            0
        )),
        revm_primitives::SHANGHAI
    );
    assert_eq!(
        revm(revm_spec_by_timestamp_after_merge(&mainnet(), 0)),
        revm_primitives::MERGE
    );
}

#[test]
fn test_to_revm_spec() {
    assert_eq!(
        revm(revm_spec(
            &mainnet_with_activated(EthereumHardfork::Cancun),
            &default_head()
        )),
        revm_primitives::CANCUN
    );
    assert_eq!(
        revm(revm_spec(
            &mainnet_with_activated(EthereumHardfork::Shanghai),
            &default_head()
        )),
        revm_primitives::SHANGHAI
    );
    assert_eq!(
        revm(revm_spec(
            &mainnet_with_activated(EthereumHardfork::Paris),
            &default_head()
        )),
        revm_primitives::MERGE
    );
    assert_eq!(
        revm(revm_spec(
            &mainnet_with_activated(EthereumHardfork::London),
            &default_head()
        )),
        revm_primitives::LONDON
    );
    assert_eq!(
        revm(revm_spec(
            &mainnet_with_activated(EthereumHardfork::Berlin),
            &default_head()
        )),
        revm_primitives::BERLIN
    );
    assert_eq!(
        revm(revm_spec(
            &mainnet_with_activated(EthereumHardfork::Istanbul),
            &default_head()
        )),
        revm_primitives::ISTANBUL
    );
    assert_eq!(
        revm(revm_spec(
            &mainnet_with_activated(EthereumHardfork::Petersburg),
            &default_head()
        )),
        revm_primitives::PETERSBURG
    );
    assert_eq!(
        revm(revm_spec(
            &mainnet_with_activated(EthereumHardfork::Byzantium),
            &default_head()
        )),
        revm_primitives::BYZANTIUM
    );
    assert_eq!(
        revm(revm_spec(
            &mainnet_with_activated(EthereumHardfork::SpuriousDragon),
            &default_head()
        )),
        revm_primitives::SPURIOUS_DRAGON
    );
    assert_eq!(
        revm(revm_spec(
            &mainnet_with_activated(EthereumHardfork::Tangerine),
            &default_head()
        )),
        revm_primitives::TANGERINE
    );
    assert_eq!(
        revm(revm_spec(
            &mainnet_with_activated(EthereumHardfork::Homestead),
            &default_head()
        )),
        revm_primitives::HOMESTEAD
    );
    assert_eq!(
        revm(revm_spec(
            &mainnet_with_activated(EthereumHardfork::Frontier),
            &default_head()
        )),
        revm_primitives::FRONTIER
    );
}

#[test]
fn test_eth_spec() {
    let chain = mainnet();
    assert_eq!(revm(revm_spec(&chain, &at_time(1710338135))), revm_primitives::CANCUN);
    assert_eq!(revm(revm_spec(&chain, &at_time(1681338455))), revm_primitives::SHANGHAI);

    assert_eq!(
        revm(revm_spec(
            &chain,
            &Head {
                total_difficulty: u256(58_750_000_000_000_000_000_010_u128),
                difficulty: u256(10_u128),
                ..default_head()
            }
        )),
        revm_primitives::MERGE
    );
    // TTD trumps the block number
    assert_eq!(
        revm(revm_spec(
            &chain,
            &Head {
                number: 15537394 - 10,
                total_difficulty: u256(58_750_000_000_000_000_000_010_u128),
                difficulty: u256(10_u128),
                ..default_head()
            }
        )),
        revm_primitives::MERGE
    );
    assert_eq!(revm(revm_spec(&chain, &at_number(15537394 - 10))), revm_primitives::LONDON);
    assert_eq!(revm(revm_spec(&chain, &at_number(12244000 + 10))), revm_primitives::BERLIN);
    assert_eq!(revm(revm_spec(&chain, &at_number(12244000 - 10))), revm_primitives::ISTANBUL);
    assert_eq!(revm(revm_spec(&chain, &at_number(7280000 + 10))), revm_primitives::PETERSBURG);
    assert_eq!(revm(revm_spec(&chain, &at_number(7280000 - 10))), revm_primitives::BYZANTIUM);
    assert_eq!(
        revm(revm_spec(&chain, &at_number(2675000 + 10))),
        revm_primitives::SPURIOUS_DRAGON
    );
    assert_eq!(revm(revm_spec(&chain, &at_number(2675000 - 10))), revm_primitives::TANGERINE);
    assert_eq!(revm(revm_spec(&chain, &at_number(1150000 + 10))), revm_primitives::HOMESTEAD);
    assert_eq!(revm(revm_spec(&chain, &at_number(1150000 - 10))), revm_primitives::FRONTIER);
}

#[test]
fn prague_is_the_newest() {
    let chain = mainnet().with_fork(EthereumHardfork::Prague, ForkCondition::Timestamp(50));
    assert_eq!(revm_spec_by_timestamp_after_merge(&chain, 49), SpecId::MERGE);
    assert_eq!(revm_spec_by_timestamp_after_merge(&chain, 50), SpecId::PRAGUE);
    assert_eq!(revm_spec(&chain, &at_time(50)), SpecId::PRAGUE);
}

#[test]
fn chain_without_forks_has_no_rules() {
    assert_eq!(newest_active_spec(&ChainSpec::new(1), &at_number(u64::MAX)), None);
}

#[test]
fn rules_only_move_on() {
    let chain = mainnet();
    let mut last = SpecId::FRONTIER;
    let order = [
        (0, SpecId::FRONTIER),
        (1_150_000, SpecId::HOMESTEAD),
        (2_463_000, SpecId::TANGERINE),
        (2_675_000, SpecId::SPURIOUS_DRAGON),
        (4_370_000, SpecId::BYZANTIUM),
        (7_280_000, SpecId::PETERSBURG),
        (9_069_000, SpecId::ISTANBUL),
        (12_244_000, SpecId::BERLIN),
        (12_965_000, SpecId::LONDON),
    ];
    for (number, expected) in order {
        if number > 0 {
            assert_eq!(newest_active_spec(&chain, &at_number(number - 1)), Some(last));
        }
        assert_eq!(newest_active_spec(&chain, &at_number(number)), Some(expected));
        last = expected;
    }
}

#[test]
fn time_decides_after_the_merge() {
    let chain = mainnet();
    for timestamp in [0, 1681338454, 1681338455, 1710338134, 1710338135, u64::MAX] {
        let head = Head {
            timestamp,
            total_difficulty: u256(58_750_000_000_000_000_000_000),
            ..default_head()
        };
        assert_eq!(
            revm_spec(&chain, &head),
            revm_spec_by_timestamp_after_merge(&chain, timestamp)
        );
    }
}

#[test]
fn fork_conditions() {
    let ttd =
        ForkCondition::TTD { fork_block: Some(20), total_difficulty: U256::from_u64(100) };
    assert!(!ttd.active_at_block(19));
    assert!(ttd.active_at_block(20));
    // the difficulty of the block itself does not count
    assert!(!ttd.active_at_ttd(u256(105), u256(6)));
    assert!(ttd.active_at_ttd(u256(105), u256(5)));
    // nor does it take more than there is
    let any = ForkCondition::TTD { fork_block: None, total_difficulty: U256::zero() };
    assert!(any.active_at_ttd(u256(1), u256(2)));
    assert!(!any.active_at_block(u64::MAX));
    assert!(!any.active_at_timestamp(u64::MAX));
    assert!(!ForkCondition::Never.active_at_head(&at_number(u64::MAX)));
    assert!(ForkCondition::Block(7).transitions_at_block(7));
    assert!(!ForkCondition::Block(7).transitions_at_block(8));
    assert!(!ForkCondition::Timestamp(7).transitions_at_block(7));
    assert!(ForkCondition::Timestamp(7).active_at_timestamp(7));
    assert!(!ForkCondition::Timestamp(7).active_at_timestamp(6));
}

#[test]
fn later_setting_of_a_fork_counts() {
    let chain = ChainSpec::new(5)
        .with_fork(EthereumHardfork::London, ForkCondition::Block(1))
        .with_fork(EthereumHardfork::London, ForkCondition::Block(2));
    assert_eq!(chain.chain_id(), 5);
    assert_eq!(chain.fork(EthereumHardfork::London), ForkCondition::Block(2));
    assert_eq!(chain.fork(EthereumHardfork::Berlin), ForkCondition::Never);
}

#[test]
fn wide_integers() {
    assert_eq!(U256::from_u64(u64::MAX).limbs, [u64::MAX, 0, 0, 0]);
    assert_eq!(U256::from_u128(1 << 64).limbs, [0, 1, 0, 0]);
    assert_eq!(u256(10).saturating_sub(u256(3)), u256(7));
    assert_eq!(u256(3).saturating_sub(u256(10)), U256::zero());
    assert_eq!(
        u256(1 << 100).wrapping_mul(u256(1 << 100)).limbs,
        [0, 0, 0, 1 << 8]
    );
    let top = U256 { limbs: [0, 0, 0, 1 << 63] };
    assert_eq!(top.wrapping_mul(u256(2)), U256::zero());
    assert!(top.at_least(u256(u128::MAX)));
    assert!(u256(4).at_least(u256(4)));
    assert!(!u256(4).at_least(u256(5)));
}

#[test]
fn base_fee_follows_the_gas_target() {
    // (base fee, gas limit, gas used, next base fee)
    let cases: [(u128, u128, u128, u128); 9] = [
        (1000000000, 10000000, 10000000, 1125000000),
        (1000000000, 10000000, 5000000, 1000000000),
        (1000000000, 10000000, 0, 875000000),
        (1072671875, 10000000, 9000000, 1179939062),
        (1059263476, 10000000, 10001000, 1191697892),
        (1049238967, 14000000, 450000, 926515481),
        (0, 10000000, 6000000, 1),
        (1, 10000000, 5000001, 2),
        (7, 10000000, 0, 7),
    ];
    for (fee, gas_limit, gas_used, next) in cases {
        assert!(base_fee_computable(gas_used, gas_limit, fee, LONDON_PARAMS));
        assert_eq!(
            next_block_base_fee(gas_used, gas_limit, Some(fee), LONDON_PARAMS),
            Some(next)
        );
    }
    assert_eq!(next_block_base_fee(1, 2, None, LONDON_PARAMS), None);
}

#[test]
fn base_fee_out_of_range_is_told() {
    let none = BaseFeeParams { max_change_denominator: 8, elasticity_multiplier: 0 };
    assert!(!base_fee_computable(1, 2, 3, none));
    let flat = BaseFeeParams { max_change_denominator: 0, elasticity_multiplier: 2 };
    assert!(!base_fee_computable(0, 2, 3, flat));
    assert!(base_fee_computable(1, 2, 3, flat));
    assert!(!base_fee_computable(0, 0, 0, none));
    assert!(!base_fee_computable(1, 0, 3, LONDON_PARAMS));
    assert!(!base_fee_computable(0, u128::MAX, 3, LONDON_PARAMS));
    assert!(!base_fee_computable(100, 100, u128::MAX, LONDON_PARAMS));
    assert!(!base_fee_computable(101, 200, u128::MAX, LONDON_PARAMS));
    assert!(base_fee_computable(99, 200, u128::MAX, LONDON_PARAMS));
}

#[test]
fn excess_blob_gas_is_what_exceeds_the_target() {
    assert_eq!(next_block_excess_blob_gas(Some(0), Some(393_216)), Some(0));
    assert_eq!(next_block_excess_blob_gas(Some(1), Some(393_216)), Some(1));
    assert_eq!(next_block_excess_blob_gas(Some(0), Some(0)), Some(0));
    assert_eq!(next_block_excess_blob_gas(Some(500_000), Some(131_072)), Some(237_856));
    assert_eq!(next_block_excess_blob_gas(None, Some(5)), None);
    assert_eq!(next_block_excess_blob_gas(Some(5), None), None);
}

#[test]
fn blob_gas_is_priced() {
    let cases: [(u64, u128); 4] = [(0, 1), (2314057, 1), (2314058, 2), (10 * 1024 * 1024, 23)];
    for (excess_blob_gas, blob_gasprice) in cases {
        assert_eq!(
            BlobExcessGasAndPrice::new(excess_blob_gas),
            BlobExcessGasAndPrice { excess_blob_gas, blob_gasprice }
        );
    }
    let most = BlobExcessGasAndPrice::new(MAX_PRICED_EXCESS_BLOB_GAS);
    assert!(most.blob_gasprice > 1_000_000_000_000_000_000);
}

#[test]
fn system_call_is_free() {
    let config = EthEvmConfig::new(Arc::new(mainnet()));
    let cfg = CfgEnvWithHandlerCfg {
        chain_id: 3,
        perf_analyse_created_bytecodes: AnalysisKind::Raw,
        spec_id: SpecId::BERLIN,
    };
    let block = BlockEnv {
        number: u256(4),
        coinbase: Address { bytes: [5; 20] },
        timestamp: u256(6),
        gas_limit: u256(7),
        basefee: u256(8),
        difficulty: u256(9),
        prevrandao: Some(B256 { bytes: [10; 32] }),
        blob_excess_gas_and_price: None,
    };
    let mut env = Env {
        cfg,
        block,
        tx: TxEnv {
            nonce: Some(1),
            chain_id: Some(3),
            gas_price: u256(11),
            value: u256(12),
            gas_priority_fee: Some(u256(13)),
            access_list: vec![AccessListItem {
                address: Address { bytes: [14; 20] },
                storage_keys: vec![],
            }],
            blob_hashes: vec![B256 { bytes: [15; 32] }],
            max_fee_per_blob_gas: Some(u256(16)),
            authorization_list: Some(vec![]),
            ..TxEnv::default()
        },
    };
    let caller = Address { bytes: [1; 20] };
    let contract = Address { bytes: [2; 20] };
    config.fill_tx_env_system_contract_call(&mut env, caller, contract, vec![3, 4]);
    assert_eq!(env.cfg, cfg);
    assert_eq!(
        env.block,
        BlockEnv { gas_limit: u256(30_000_000), basefee: U256::zero(), ..block }
    );
    assert_eq!(SYSTEM_CALL_GAS_LIMIT, 30_000_000);
    assert_eq!(
        env.tx,
        TxEnv {
            caller,
            transact_to: TxKind::Call(contract),
            gas_limit: 30_000_000,
            data: vec![3, 4],
            ..TxEnv::default()
        }
    );
}

#[test]
fn cfg_env_holds_chain_and_rules() {
    let config = EthEvmConfig::new(Arc::new(mainnet()));
    assert_eq!(config.chain_spec().chain_id(), 1);
    let mut cfg = CfgEnvWithHandlerCfg {
        chain_id: 99,
        perf_analyse_created_bytecodes: AnalysisKind::Raw,
        spec_id: SpecId::PRAGUE,
    };
    let block = Header { number: 12_965_000, timestamp: 0, ..header() };
    config.fill_cfg_env(&mut cfg, &block, U256::zero());
    assert_eq!(
        cfg,
        CfgEnvWithHandlerCfg {
            chain_id: 1,
            perf_analyse_created_bytecodes: AnalysisKind::Analyse,
            spec_id: SpecId::LONDON,
        }
    );
}

#[test]
fn next_block_of_an_ordinary_block() {
    let config = EthEvmConfig::new(Arc::new(mainnet()));
    let parent = Header { gas_used: 30_000_000, ..header() };
    assert!(fees_computable(&parent, LONDON_PARAMS));
    let (cfg, block) =
        config.next_cfg_and_block_env(&parent, attributes(1681338455), LONDON_PARAMS);
    assert_eq!(
        cfg,
        CfgEnvWithHandlerCfg {
            chain_id: 1,
            perf_analyse_created_bytecodes: AnalysisKind::Analyse,
            spec_id: SpecId::SHANGHAI,
        }
    );
    assert_eq!(
        block,
        BlockEnv {
            number: u256(101),
            coinbase: Address { bytes: [7; 20] },
            timestamp: u256(1681338455),
            gas_limit: u256(30_000_000),
            basefee: u256(1_125_000_000),
            difficulty: U256::zero(),
            prevrandao: Some(B256 { bytes: [9; 32] }),
            blob_excess_gas_and_price: None,
        }
    );
}

#[test]
fn next_block_at_the_london_boundary() {
    let config = EthEvmConfig::new(Arc::new(mainnet()));
    let parent = Header { number: 12_964_999, base_fee_per_gas: None, ..header() };
    let (_, block) = config.next_cfg_and_block_env(&parent, attributes(0), LONDON_PARAMS);
    assert_eq!(block.gas_limit, u256(60_000_000));
    assert_eq!(block.basefee, u256(EIP1559_INITIAL_BASE_FEE as u128));
    assert_eq!(EIP1559_INITIAL_BASE_FEE, 1_000_000_000);
    // one block earlier nothing of it happens
    let parent = Header { number: 12_964_998, ..parent };
    let (_, block) = config.next_cfg_and_block_env(&parent, attributes(0), LONDON_PARAMS);
    assert_eq!(block.gas_limit, u256(30_000_000));
    assert_eq!(block.basefee, U256::zero());
}

#[test]
fn first_cancun_block_has_a_blob_price() {
    let config = ScalarEvmConfig::new(Arc::new(mainnet()));
    let (cfg, block) =
        config.next_cfg_and_block_env(&header(), attributes(1710338135), LONDON_PARAMS);
    assert_eq!(cfg.spec_id, SpecId::CANCUN);
    assert_eq!(
        block.blob_excess_gas_and_price,
        Some(BlobExcessGasAndPrice { excess_blob_gas: 0, blob_gasprice: 1 })
    );
    let parent = Header {
        excess_blob_gas: Some(10 * 1024 * 1024),
        blob_gas_used: Some(393_216),
        ..header()
    };
    let (_, block) = config.next_cfg_and_block_env(&parent, attributes(1710338136), LONDON_PARAMS);
    assert_eq!(
        block.blob_excess_gas_and_price,
        Some(BlobExcessGasAndPrice { excess_blob_gas: 10 * 1024 * 1024, blob_gasprice: 23 })
    );
}

#[test]
fn fees_out_of_range_are_told() {
    assert!(fees_computable(&header(), LONDON_PARAMS));
    assert!(!fees_computable(&Header { number: u64::MAX, ..header() }, LONDON_PARAMS));
    let much = Header {
        excess_blob_gas: Some(u128::MAX),
        blob_gas_used: Some(1),
        ..header()
    };
    assert!(!fees_computable(&much, LONDON_PARAMS));
    let edge = Header {
        excess_blob_gas: Some(MAX_PRICED_EXCESS_BLOB_GAS as u128),
        blob_gas_used: Some(393_216),
        ..header()
    };
    assert!(fees_computable(&edge, LONDON_PARAMS));
    let beyond = Header { blob_gas_used: Some(393_217), ..edge };
    assert!(!fees_computable(&beyond, LONDON_PARAMS));
    // only the low 64 bits of the excess are priced
    let wrapped = Header {
        excess_blob_gas: Some(1 << 64),
        blob_gas_used: Some(393_216),
        ..header()
    };
    assert!(fees_computable(&wrapped, LONDON_PARAMS));
    assert!(!fees_computable(
        &Header { gas_limit: 0, gas_used: 1, ..header() },
        LONDON_PARAMS
    ));
    assert!(fees_computable(
        &Header { gas_limit: 0, gas_used: 1, base_fee_per_gas: None, ..header() },
        LONDON_PARAMS
    ));
}

#[test]
fn both_configurations_agree() {
    let eth = EthEvmConfig::new(Arc::new(mainnet()));
    let scalar = ScalarEvmConfig::new(Arc::new(mainnet()));
    let cfg = CfgEnvWithHandlerCfg {
        chain_id: 0,
        perf_analyse_created_bytecodes: AnalysisKind::Raw,
        spec_id: SpecId::FRONTIER,
    };
    let (mut one, mut other) = (cfg, cfg);
    eth.fill_cfg_env(&mut one, &header(), U256::zero());
    scalar.fill_cfg_env(&mut other, &header(), U256::zero());
    assert_eq!(one, other);
    assert_eq!(
        eth.next_cfg_and_block_env(&header(), attributes(7), LONDON_PARAMS),
        scalar.next_cfg_and_block_env(&header(), attributes(7), LONDON_PARAMS)
    );
}
