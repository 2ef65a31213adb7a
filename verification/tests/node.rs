use std::sync::Arc;

use scalar_node::byte_set::{same_bytes, ByteSet};
use scalar_node::cluster::{
    is_transaction_hash, transfer_with_nonce, ClusterTestOpt, PlannedTransaction, SendPlan,
    SendRawTransactionTest,
};
use scalar_node::config::ConfigureEvmEnv;
use scalar_node::env::{BlockEnv, CfgEnvWithHandlerCfg, Env, AnalysisKind, SpecId, TxEnv};
use scalar_node::hardfork::ChainSpec;
use scalar_node::primitives::{Address, TxKind, B256, U256};
use scalar_node::seth::{
    EngineArgs, LaunchPlan, ParallelExecutorBuilder, ScalarEvmConfig, SequentialExecutorBuilder,
};

fn options() -> ClusterTestOpt {
    ClusterTestOpt {
        nodes: 4,
        chain: "dev".to_string(),
        phrase: "a phrase".to_string(),
        receiver_address: "0x01".to_string(),
        transaction_amount: 3,
        narwhal_port: Some("8555".to_string()),
        instance: None,
    }
}

#[test]
fn options_are_read_back() {
    let mut options = options();
    assert_eq!(options.nodes(), 4);
    assert_eq!(options.chain(), "dev");
    assert_eq!(options.phrase(), "a phrase");
    assert_eq!(options.receiver_address(), "0x01");
    assert_eq!(options.transaction_amount(), 3);
    assert_eq!(options.narwhal_port(), &Some("8555".to_string()));
    assert_eq!(options.instance(), &None);
    options.set_instance(2);
    assert_eq!(options.instance(), &Some(2));
    assert_eq!(options.nodes(), 4);
}

#[test]
fn test_case_names_itself() {
    assert_eq!(SendRawTransactionTest.name(), "SendRawTransaction");
    assert_eq!(
        SendRawTransactionTest.description(),
        "Test sending a raw transaction to the cluster."
    );
}

#[test]
fn transactions_are_sent_round_by_round() {
    let mut plan = SendPlan::new(vec![5, 0, 9], 2);
    let mut sent = vec![];
    while let Some(PlannedTransaction { client_index, nonce }) = plan.next_transaction() {
        sent.push((client_index, nonce));
    }
    assert_eq!(sent, vec![(0, 5), (1, 0), (2, 9), (0, 6), (1, 1), (2, 10)]);
    assert_eq!(plan.next_transaction(), None);
}

#[test]
fn empty_plans() {
    assert_eq!(SendPlan::new(vec![], 5).next_transaction(), None);
    assert_eq!(SendPlan::new(vec![1, 2], 0).next_transaction(), None);
}

#[test]
fn last_nonce_can_be_used() {
    let mut plan = SendPlan::new(vec![u64::MAX], 1);
    assert_eq!(
        plan.next_transaction(),
        Some(PlannedTransaction { client_index: 0, nonce: u64::MAX })
    );
    assert_eq!(plan.next_transaction(), None);
}

#[test]
fn transfers_of_the_test() {
    let options = options();
    let transfer = transfer_with_nonce(&options, 17);
    assert_eq!(transfer.receiver_address, "0x01");
    assert_eq!(transfer.value, 100000);
    assert_eq!(transfer.nonce, 17);
    assert!(is_transaction_hash("0xabcd"));
    assert!(is_transaction_hash("0x"));
    assert!(!is_transaction_hash("0"));
    assert!(!is_transaction_hash("abcd"));
    assert!(!is_transaction_hash(""));
}

#[test]
fn engine_arguments_decide_the_launch() {
    let args = EngineArgs::with_defaults(2, 3);
    assert_eq!(
        args,
        EngineArgs { experimental: false, persistence_threshold: 2, memory_block_buffer_target: 3 }
    );
    assert_eq!(args.launch_plan(), LaunchPlan::Ethereum);
    assert_eq!(
        EngineArgs { experimental: true, ..args }.launch_plan(),
        LaunchPlan::Experimental { persistence_threshold: 2, memory_block_buffer_target: 3 }
    );
}

#[test]
fn added_precompile_does_nothing() {
    let address = alloy_primitives::Address::from(ScalarEvmConfig::precompile_address().bytes);
    assert_eq!(address.to_string(), "0x0000000000000000000000000000000000000999");
    let output = ScalarEvmConfig::my_precompile(&vec![1, 2, 3], 100);
    assert_eq!(output.gas_used, 0);
    assert!(output.bytes.is_empty());
}

#[test]
fn builders_use_the_chain_of_the_node() {
    let (config, provider) =
        SequentialExecutorBuilder::default().build_evm(Arc::new(ChainSpec::new(21)));
    assert_eq!(provider.chain_spec.chain_id(), 21);
    let (parallel_config, parallel) =
        ParallelExecutorBuilder::default().build_evm(Arc::new(ChainSpec::new(22)));
    assert_eq!(parallel.chain_spec.chain_id(), 22);
    for config in [config, provider.evm_config, parallel_config, parallel.evm_config] {
        let mut env = blank_env();
        let contract = Address { bytes: [2; 20] };
        config.fill_tx_env_system_contract_call(
            &mut env,
            Address { bytes: [1; 20] },
            contract,
            vec![8],
        );
        assert_eq!(env.tx.transact_to, TxKind::Call(contract));
        assert_eq!(env.tx.data, vec![8]);
        assert_eq!(env.block.gas_limit, U256::from_u64(30_000_000));
    }
}

fn blank_env() -> Env {
    Env {
        cfg: CfgEnvWithHandlerCfg {
            chain_id: 1,
            perf_analyse_created_bytecodes: AnalysisKind::Raw,
            spec_id: SpecId::FRONTIER,
        },
        block: BlockEnv {
            number: U256::zero(),
            coinbase: Address { bytes: [0; 20] },
            timestamp: U256::zero(),
            gas_limit: U256::zero(),
            basefee: U256::from_u64(1),
            difficulty: U256::zero(),
            prevrandao: None,
            blob_excess_gas_and_price: None,
        },
        tx: TxEnv::default(),
    }
}

#[test]
fn byte_sets() {
    let mut set = ByteSet::new();
    assert_eq!(set.len(), 0);
    set.insert(vec![1]);
    set.insert(vec![2, 3]);
    set.insert(vec![1]);
    assert_eq!(set.len(), 2);
    assert!(set.remove(&vec![1]));
    assert!(!set.remove(&vec![1]));
    assert!(!set.remove(&vec![2]));
    assert_eq!(set.len(), 1);
    assert!(set.remove(&vec![2, 3]));
    assert_eq!(set.len(), 0);
    assert!(same_bytes(&vec![], &vec![]));
    assert!(!same_bytes(&vec![1], &vec![1, 2]));
    assert!(!same_bytes(&vec![1, 3], &vec![1, 2]));
}

#[test]
fn hash_gives_its_bytes() {
    let mut hash = B256 { bytes: [0; 32] };
    hash.bytes[31] = 9;
    let mut expected = vec![0; 31];
    expected.push(9);
    assert_eq!(hash.to_vec(), expected);
}
