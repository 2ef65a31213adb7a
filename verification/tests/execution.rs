use std::sync::Arc;

use scalar_node::block_executor::{sum, BalanceIncrements, ParallelEthBlockExecutor};
use scalar_node::block_output::{
    all_results, collect_receipts, collect_requests, BlockRequests, BlockValidationError,
    ExecutionResult, ParallelEthExecuteOutput, Receipt, TransactionInfo,
};
use scalar_node::config::EthEvmConfig;
use scalar_node::context::{
    prepare_internal_storage, InMemoryStorage, ParallelEvmContext, ParallelEvmContextTrait,
};
use scalar_node::env::{AnalysisKind, BlockEnv, Header, SpecId, TxEnv};
use scalar_node::hardfork::{ChainSpec, EthereumHardfork, ForkCondition};
use scalar_node::parallel::{
    after_fetch, after_run, apply_pre_execution, conclude, get_concurrency_level, try_validate,
    AbortReason, BlockExecutionError, ExecuteAction, ParallelEthEvmExecutor, PevmChain, PevmError,
    Task, TxVersion, VmExecutionError, VmExecutionResult, WorkerAction, WORKER_STACK_SIZE,
};
use scalar_node::primitives::{Address, B256, U256};

type Executor = ParallelEthEvmExecutor<(), ExecutionResult<&'static str>, &'static str>;

fn chain() -> Arc<ChainSpec> {
    Arc::new(
        ChainSpec::new(1)
            .with_fork(EthereumHardfork::Frontier, ForkCondition::Block(0))
            .with_fork(EthereumHardfork::Dao, ForkCondition::Block(50))
            .with_fork(EthereumHardfork::SpuriousDragon, ForkCondition::Block(60))
            .with_fork(EthereumHardfork::Prague, ForkCondition::Timestamp(1_000)),
    )
}

fn version(tx_idx: usize) -> TxVersion {
    TxVersion { tx_idx, tx_incarnation: 0 }
}

fn done(gas_used: u64) -> ExecutionResult<&'static str> {
    ExecutionResult { success: gas_used % 2 == 0, gas_used, logs: vec!["log"] }
}

fn executor(block_size: usize) -> Executor {
    let mut executor = Executor::new(chain(), ());
    executor.begin_block(block_size);
    executor
}

fn success(
    gas_used: u64,
) -> Result<VmExecutionResult<ExecutionResult<&'static str>, u8>, VmExecutionError<&'static str>> {
    Ok(VmExecutionResult { execution_result: done(gas_used), flags: 5 })
}

fn failure(
    error: VmExecutionError<&'static str>,
) -> Result<VmExecutionResult<ExecutionResult<&'static str>, u8>, VmExecutionError<&'static str>> {
    Err(error)
}

fn header(number: u64) -> Header {
    Header {
        number,
        timestamp: 0,
        difficulty: U256::zero(),
        gas_limit: 0,
        gas_used: 0,
        base_fee_per_gas: None,
        blob_gas_used: None,
        excess_blob_gas: None,
    }
}

type Requested = (Vec<&'static str>, Result<BlockRequests<u8>, &'static str>);

fn no_requests(_: Vec<&'static str>, _: &Vec<Receipt<&'static str>>) -> Requested {
    panic!("no requests are collected")
}

#[test]
fn success_is_stored() {
    let mut executor = executor(2);
    let action = executor.try_execute(version(1), success(8));
    match action {
        ExecuteAction::FinishExecution { tx_version, flags } => {
            assert_eq!(tx_version, version(1));
            assert_eq!(flags, 5);
        }
        _ => panic!("the attempt succeeded"),
    }
    assert!(!executor.is_aborted());
    assert_eq!(executor.into_results(), None);
}

#[test]
fn results_are_handed_out_once_all_are_there() {
    let mut executor = executor(2);
    executor.try_execute(version(1), success(8));
    executor.try_execute(version(0), success(6));
    executor.try_execute(version(1), success(4));
    assert_eq!(executor.into_results(), Some(vec![done(6), done(4)]));
    assert_eq!(all_results(vec![Some(1), None]), None);
    assert_eq!(all_results(Vec::<Option<u8>>::new()), Some(vec![]));
}

#[test]
fn retry_ends_once_the_block_is_given_up() {
    let mut executor = executor(1);
    assert!(matches!(
        executor.try_execute(version(0), failure(VmExecutionError::Retry)),
        ExecuteAction::Retry
    ));
    assert!(matches!(
        executor.try_execute(version(0), failure(VmExecutionError::FallbackToSequential)),
        ExecuteAction::AbortScheduler { reason: AbortReason::FallbackToSequential }
    ));
    // the reason is recorded once the scheduler was told
    assert!(!executor.is_aborted());
    executor.give_up(AbortReason::FallbackToSequential);
    assert!(executor.is_aborted());
    assert!(matches!(
        executor.try_execute(version(0), failure(VmExecutionError::Retry)),
        ExecuteAction::Stop
    ));
}

#[test]
fn blocked_attempt_adds_a_dependency() {
    let mut executor = executor(9);
    match executor.try_execute(version(7), failure(VmExecutionError::Blocking(3))) {
        ExecuteAction::AddDependency { tx_idx, blocking_tx_idx } => {
            assert_eq!((tx_idx, blocking_tx_idx), (7, 3));
        }
        _ => panic!("the attempt was blocked"),
    }
    assert!(matches!(executor.after_dependency::<u8>(true), ExecuteAction::Stop));
    assert!(matches!(executor.after_dependency::<u8>(false), ExecuteAction::Retry));
    executor.give_up(AbortReason::ExecutionError("broken"));
    assert!(matches!(executor.after_dependency::<u8>(false), ExecuteAction::Stop));
}

#[test]
fn first_reason_to_give_up_stays() {
    let mut executor = executor(1);
    for error in ["first", "second"] {
        let outcome = failure(VmExecutionError::ExecutionError(error));
        match executor.try_execute(version(0), outcome) {
            ExecuteAction::AbortScheduler { reason } => executor.give_up(reason),
            _ => panic!("the attempt failed"),
        }
    }
    executor.give_up(AbortReason::FallbackToSequential);
    executor.try_execute(version(0), success(2));
    let (evm, result) = executor.collect_output(vec!["evm"], &vec![], 100, 0, no_requests);
    assert_eq!(evm, vec!["evm"]);
    assert_eq!(
        result,
        Err(BlockExecutionError::Aborted(AbortReason::ExecutionError("first")))
    );
}

#[test]
fn worker_goes_on_until_done() {
    let task = Task::Execution(version(2));
    assert_eq!(after_fetch(Some(task)), WorkerAction::Run(task));
    assert_eq!(after_fetch(None), WorkerAction::Stop);
    assert_eq!(after_run(Some(task), false), WorkerAction::Run(task));
    assert_eq!(after_run(None, false), WorkerAction::Fetch);
    assert_eq!(after_run(Some(task), true), WorkerAction::Stop);
    assert_eq!(after_run(None, true), WorkerAction::Stop);
}

fn validate(valid: bool, aborted: bool) -> Vec<String> {
    let next = Task::Execution(version(9));
    let (log, task) = try_validate(
        vec![],
        version(4),
        move |mut log: Vec<String>, tx_idx| {
            log.push(format!("read {tx_idx}"));
            (log, valid)
        },
        move |mut log: Vec<String>, tx_version| {
            log.push(format!("abort {}", tx_version.tx_idx));
            (log, aborted)
        },
        |mut log: Vec<String>, tx_idx| {
            log.push(format!("convert {tx_idx}"));
            log
        },
        move |mut log: Vec<String>, tx_version, aborted| {
            log.push(format!("finish {} {aborted}", tx_version.tx_idx));
            (log, Some(next))
        },
    );
    assert_eq!(task, Some(next));
    log
}

#[test]
fn only_aborted_writes_become_estimates() {
    assert_eq!(validate(true, true), ["read 4", "finish 4 false"]);
    assert_eq!(validate(false, false), ["read 4", "abort 4", "finish 4 false"]);
    assert_eq!(validate(false, true), ["read 4", "abort 4", "convert 4", "finish 4 true"]);
}

#[test]
fn number_of_workers() {
    assert_eq!(get_concurrency_level(None, false), 1);
    assert_eq!(get_concurrency_level(Some(4), false), 4);
    assert_eq!(get_concurrency_level(Some(10), false), 8);
    assert_eq!(get_concurrency_level(Some(10), true), 10);
    assert_eq!(get_concurrency_level(Some(64), true), 12);
    assert_eq!(WORKER_STACK_SIZE, 3 * 1024 * 1024);
}

fn infos(limits: &[u64]) -> Vec<TransactionInfo> {
    limits.iter().map(|gas_limit| TransactionInfo { tx_type: 2, gas_limit: *gas_limit }).collect()
}

#[test]
fn receipts_count_the_gas() {
    let (receipts, gas_used) =
        collect_receipts(&infos(&[50, 40]), vec![done(21), done(30)], 100).unwrap();
    assert_eq!(gas_used, 51);
    assert_eq!(
        receipts,
        vec![
            Receipt { tx_type: 2, success: false, cumulative_gas_used: 21, logs: vec!["log"] },
            Receipt { tx_type: 2, success: true, cumulative_gas_used: 51, logs: vec!["log"] },
        ]
    );
}

#[test]
fn gas_does_not_fall_from_receipt_to_receipt() {
    let results = vec![done(5), done(0), done(7)];
    let (receipts, gas_used) = collect_receipts(&infos(&[9, 9, 9]), results, 100).unwrap();
    let gas: Vec<u64> = receipts.iter().map(|receipt| receipt.cumulative_gas_used).collect();
    assert_eq!(gas, vec![5, 5, 12]);
    assert_eq!(gas_used, 12);
    let (receipts, gas_used) = collect_receipts::<u8>(&vec![], vec![], 100).unwrap();
    assert!(receipts.is_empty());
    assert_eq!(gas_used, 0);
}

#[test]
fn output_does_not_depend_on_the_order_of_results() {
    let mut forwards = executor(3);
    let mut backwards = executor(3);
    for index in 0..3 {
        forwards.try_execute(version(index), success(index as u64));
        backwards.try_execute(version(2 - index), success(2 - index as u64));
    }
    let transactions = infos(&[9, 9, 9]);
    let (_, one) = forwards.collect_output(vec![], &transactions, 100, 0, no_requests);
    let (_, other) = backwards.collect_output(vec![], &transactions, 100, 0, no_requests);
    assert_eq!(one.unwrap(), other.unwrap());
}

#[test]
fn transaction_over_the_gas_left_is_refused() {
    assert_eq!(
        collect_receipts(&infos(&[50, 80]), vec![done(21), done(30)], 100),
        Err(BlockValidationError::TransactionGasLimitMoreThanAvailableBlockGas {
            transaction_gas_limit: 80,
            block_available_gas: 79,
        })
    );
    assert!(collect_receipts(&infos(&[50, 79]), vec![done(21), done(30)], 100).is_ok());
}

#[test]
fn requests_come_with_prague() {
    let requests =
        || BlockRequests { deposits: vec![1, 2], withdrawals: vec![3], consolidations: vec![4] };
    assert_eq!(collect_requests(&chain(), 999, requests()), Vec::<u8>::new());
    assert_eq!(collect_requests(&chain(), 1_000, requests()), vec![1, 2, 3, 4]);
}

#[test]
fn gas_is_countable_unless_it_leaves_its_range() {
    let mut block = executor(2);
    let transactions = infos(&[20, 30]);
    // without all the results nothing is counted
    assert!(block.gas_countable(&transactions, 0));
    block.try_execute(version(0), success(20));
    block.try_execute(version(1), success(30));
    assert!(block.gas_countable(&transactions, 50));
    // the second transaction is refused before its gas is counted
    assert!(block.gas_countable(&transactions, 49));
    assert!(!block.gas_countable(&infos(&[20]), 50));
    // the first transaction used more than the block may use, and the second one is looked at
    assert!(!block.gas_countable(&infos(&[5, 0]), 10));
    // the last one may do so
    assert!(block.gas_countable(&infos(&[20, 5]), 30));
    block.give_up(AbortReason::FallbackToSequential);
    assert!(block.gas_countable(&infos(&[20]), 50));
}

#[test]
fn block_output_is_put_together() {
    let mut block = executor(2);
    block.try_execute(version(0), success(20));
    block.try_execute(version(1), success(30));
    let (evm, output) = block.collect_output(
        vec!["evm"],
        &infos(&[20, 30]),
        100,
        1_000,
        |mut evm: Vec<&'static str>, receipts: &Vec<Receipt<&'static str>>| {
            assert_eq!(receipts.len(), 2);
            evm.push("requests");
            let found = BlockRequests {
                deposits: vec![receipts[1].cumulative_gas_used],
                withdrawals: vec![2],
                consolidations: vec![3],
            };
            (evm, Ok::<_, ()>(found))
        },
    );
    let output = output.unwrap();
    assert_eq!(evm, vec!["evm", "requests"]);
    assert_eq!(output.gas_used, 50);
    assert_eq!(output.requests, vec![50, 2, 3]);
    assert_eq!(output.receipts[0].cumulative_gas_used, 20);
    assert_eq!(output.clone(), output);
}

#[test]
fn block_without_requests() {
    let mut block = executor(1);
    block.try_execute(version(0), success(20));
    let (_, output) = block.collect_output(vec![], &infos(&[20]), 20, 999, no_requests);
    let output = output.unwrap();
    assert_eq!(output.requests, Vec::<u8>::new());
    assert_eq!(output.gas_used, 20);
}

#[test]
fn block_errors() {
    let (_, unfinished) =
        executor(1).collect_output(vec![], &infos(&[20]), 20, 0, no_requests);
    assert_eq!(unfinished, Err(BlockExecutionError::Unfinished));

    let mut full = executor(1);
    full.try_execute(version(0), success(20));
    let (_, full) = full.collect_output(vec![], &infos(&[20]), 19, 0, no_requests);
    assert_eq!(
        full,
        Err(BlockExecutionError::Validation(
            BlockValidationError::TransactionGasLimitMoreThanAvailableBlockGas {
                transaction_gas_limit: 20,
                block_available_gas: 19,
            }
        ))
    );

    let mut failing = executor(1);
    failing.try_execute(version(0), success(20));
    let (_, failing) = failing.collect_output(
        vec![],
        &infos(&[20]),
        20,
        1_000,
        |evm: Vec<&'static str>, _: &Vec<Receipt<&'static str>>| -> Requested {
            (evm, Err("call failed"))
        },
    );
    assert_eq!(failing, Err(BlockExecutionError::Requests("call failed")));

    let mut sequential = executor(1);
    sequential.give_up(AbortReason::FallbackToSequential);
    let (_, sequential) = sequential.collect_output(vec![], &infos(&[20]), 20, 0, no_requests);
    assert_eq!(
        sequential,
        Err(BlockExecutionError::Aborted(AbortReason::FallbackToSequential))
    );
}

type Called = (Vec<&'static str>, Result<(), &'static str>);

fn succeed(
    name: &'static str,
) -> impl FnOnce(Vec<&'static str>) -> Called {
    move |mut evm| {
        evm.push(name);
        (evm, Ok(()))
    }
}

fn fail(name: &'static str) -> impl FnOnce(Vec<&'static str>) -> Called {
    move |mut evm| {
        evm.push(name);
        (evm, Err(name))
    }
}

fn never_called(_: Vec<&'static str>) -> Called {
    panic!("the call before it failed")
}

fn run_one(
    mut block: Executor,
    mut evm: Vec<&'static str>,
) -> (Vec<&'static str>, Result<Executor, &'static str>) {
    block.begin_block(1);
    block.try_execute(version(0), success(20));
    evm.push("run");
    (evm, Ok(block))
}

fn never_run(
    _: Executor,
    _: Vec<&'static str>,
) -> (Vec<&'static str>, Result<Executor, &'static str>) {
    panic!("a call before it failed")
}

#[test]
fn system_contracts_are_called_before_the_transactions() {
    let (evm, output) = executor(0).execute_state_transitions(
        vec![],
        succeed("beacon root"),
        succeed("block hashes"),
        run_one,
        &infos(&[20]),
        20,
        0,
        no_requests,
    );
    assert_eq!(evm, vec!["beacon root", "block hashes", "run"]);
    assert_eq!(output.unwrap().gas_used, 20);
}

#[test]
fn failed_system_call_ends_the_block() {
    let (evm, output) = executor(0).execute_state_transitions(
        vec![],
        fail("beacon root"),
        never_called,
        never_run,
        &infos(&[20]),
        20,
        0,
        no_requests,
    );
    assert_eq!(evm, vec!["beacon root"]);
    assert_eq!(output, Err(BlockExecutionError::PreExecution("beacon root")));

    let (evm, output) = executor(0).execute_state_transitions(
        vec![],
        succeed("beacon root"),
        fail("block hashes"),
        never_run,
        &infos(&[20]),
        20,
        0,
        no_requests,
    );
    assert_eq!(evm, vec!["beacon root", "block hashes"]);
    assert_eq!(output, Err(BlockExecutionError::PreExecution("block hashes")));

    let (evm, called) = apply_pre_execution(vec![], fail("beacon root"), never_called);
    assert_eq!((evm, called), (vec!["beacon root"], Err("beacon root")));
}

#[test]
fn workers_that_cannot_start_end_the_block() {
    let (evm, output) = executor(0).execute_state_transitions(
        vec![],
        succeed("beacon root"),
        succeed("block hashes"),
        |_: Executor, evm: Vec<&'static str>| (evm, Err("no threads")),
        &infos(&[20]),
        20,
        0,
        no_requests,
    );
    assert_eq!(evm, vec!["beacon root", "block hashes"]);
    assert_eq!(output, Err(BlockExecutionError::Workers("no threads")));
}

#[test]
fn scheduler_is_told_what_the_attempts_came_to() {
    type Action = ExecuteAction<u8, &'static str>;
    let next = Some(Task::Validation(version(3)));
    let unused = || panic!("the block was not given up");
    let unrecorded = |_: (), _: AbortReason<&'static str>| panic!("the block was not given up");
    let finish: Action = ExecuteAction::FinishExecution { tx_version: version(2), flags: 5 };
    assert_eq!(
        conclude(finish, unused, unrecorded, |tx_version, flags| {
            assert_eq!((tx_version, flags), (version(2), 5));
            next
        }),
        next
    );
    let never = |_: TxVersion, _: u8| -> Option<Task> { panic!("there was no success") };
    let stop: Action = ExecuteAction::Stop;
    assert_eq!(conclude(stop, unused, unrecorded, never), None);
}

#[test]
fn scheduler_is_told_before_the_reason_is_recorded() {
    let mut block = executor(1);
    let outcome = failure(VmExecutionError::ExecutionError("broken"));
    let action = block.try_execute(version(0), outcome);
    assert!(!block.is_aborted());
    let never = |_: TxVersion, _: u8| -> Option<Task> { panic!("there was no success") };
    let record = |told: &'static str, reason| {
        assert_eq!(told, "told");
        block.give_up(reason);
    };
    assert_eq!(conclude(action, || "told", record, never), None);
    let (_, result) = block.collect_output(vec![], &infos(&[20]), 20, 0, no_requests);
    assert_eq!(
        result,
        Err(BlockExecutionError::Aborted(AbortReason::ExecutionError("broken")))
    );
}

#[test]
fn attempts_are_made_until_one_settles() {
    let mut block = executor(2);
    let mut outcomes = vec![
        success(8),
        failure(VmExecutionError::Blocking(0)),
        failure(VmExecutionError::Retry),
    ];
    let mut attempts = 0;
    let task = loop {
        attempts += 1;
        let mut action = block.try_execute(version(1), outcomes.pop().unwrap());
        if let ExecuteAction::AddDependency { .. } = action {
            action = block.after_dependency(false);
        }
        if let ExecuteAction::Retry = action {
            continue;
        }
        break conclude(
            action,
            || panic!("nothing failed"),
            |_: (), _| panic!("nothing failed"),
            |tx_version, _| Some(Task::Validation(tx_version)),
        );
    };
    assert_eq!(attempts, 3);
    assert_eq!(task, Some(Task::Validation(version(1))));
}

type BlockExecutor = ParallelEthBlockExecutor<EthEvmConfig, u8, u8, Vec<&'static str>>;

fn block_executor() -> BlockExecutor {
    BlockExecutor::new(chain(), EthEvmConfig::new(chain()), vec!["state"])
}

#[test]
fn state_is_cleared_from_spurious_dragon_on() {
    let executor = block_executor();
    assert!(!executor.on_new_block(&header(59)));
    assert!(executor.on_new_block(&header(60)));
    assert!(executor.on_new_block(&header(61)));
    assert_eq!(executor.chain_spec().chain_id(), 1);
}

#[test]
fn dao_is_drained_at_one_block() {
    let executor = block_executor();
    let beneficiary = Address { bytes: [9; 20] };
    let miner = Address { bytes: [1; 20] };
    let mut rewards = BalanceIncrements::new();
    rewards.increase(miner, 5);
    assert!(executor.drains_dao(50));
    let changes =
        executor.post_execution(50, rewards, Ok::<_, ()>(vec![10, 20]), beneficiary).unwrap();
    assert_eq!(changes.entries(), &vec![(miner, 5), (beneficiary, 30)]);

    let mut rewards = BalanceIncrements::new();
    rewards.increase(beneficiary, 7);
    let changes =
        executor.post_execution(50, rewards, Ok::<_, ()>(vec![10, 20]), beneficiary).unwrap();
    assert_eq!(changes.entries(), &vec![(beneficiary, 37)]);

    for number in [49, 51] {
        assert!(!executor.drains_dao(number));
        let mut rewards = BalanceIncrements::new();
        rewards.increase(miner, 5);
        let changes = executor
            .post_execution(number, rewards, Ok::<_, ()>(vec![10, 20]), beneficiary)
            .unwrap();
        assert_eq!(changes.entries(), &vec![(miner, 5)]);
    }
}

#[test]
fn failing_balances_fail_the_block() {
    let executor = block_executor();
    let beneficiary = Address { bytes: [9; 20] };
    assert_eq!(
        executor.post_execution(50, BalanceIncrements::new(), Err(()), beneficiary).unwrap_err(),
        BlockValidationError::IncrementBalanceFailed
    );
    assert!(executor.post_execution(51, BalanceIncrements::new(), Err(()), beneficiary).is_ok());
}

type Drained = (Vec<&'static str>, Result<Vec<u128>, ()>);
type Changed = (Vec<&'static str>, Result<(), ()>);

fn drain_two(mut state: Vec<&'static str>) -> Drained {
    state.push("drained");
    (state, Ok(vec![10, 20]))
}

fn never_drained(_: Vec<&'static str>) -> Drained {
    panic!("the DAO is not drained")
}

#[test]
fn balances_of_the_state_change() {
    let beneficiary = Address { bytes: [9; 20] };
    let (mut after, changed) = block_executor().settle(
        50,
        BalanceIncrements::new(),
        beneficiary,
        drain_two,
        |mut state: Vec<&'static str>, changes: BalanceIncrements| -> Changed {
            assert_eq!(changes.entries(), &vec![(beneficiary, 30)]);
            state.push("changed");
            (state, Ok(()))
        },
    );
    assert_eq!(changed, Ok(()));
    assert_eq!(after.state_mut(), &vec!["state", "drained", "changed"]);

    let (mut after, changed) = block_executor().settle(
        51,
        BalanceIncrements::new(),
        beneficiary,
        never_drained,
        |mut state: Vec<&'static str>, changes: BalanceIncrements| -> Changed {
            assert_eq!(changes.entries(), &vec![]);
            state.push("refused");
            (state, Err(()))
        },
    );
    assert_eq!(changed, Err(BlockValidationError::IncrementBalanceFailed));
    assert_eq!(after.state_mut(), &vec!["state", "refused"]);

    let (mut after, changed) = block_executor().settle(
        50,
        BalanceIncrements::new(),
        beneficiary,
        |mut state: Vec<&'static str>| -> Drained {
            state.push("broken");
            (state, Err(()))
        },
        |_: Vec<&'static str>, _: BalanceIncrements| -> Changed {
            panic!("the changes cannot be told")
        },
    );
    assert_eq!(changed, Err(BlockValidationError::IncrementBalanceFailed));
    assert_eq!(after.state_mut(), &vec!["state", "broken"]);
}

#[test]
fn balances_add_up() {
    assert_eq!(sum(&vec![]), 0);
    assert_eq!(sum(&vec![1, 2, u128::MAX - 3]), u128::MAX);
    let account = Address { bytes: [1; 20] };
    let mut increments = BalanceIncrements::new();
    increments.increase(account, 3);
    increments.increase(account, 4);
    assert_eq!(increments.entries(), &vec![(account, 7)]);
    assert!(account.same(&Address { bytes: [1; 20] }));
    let mut other = account;
    other.bytes[19] = 2;
    assert!(!account.same(&other));
}

type Ran = Result<ParallelEthExecuteOutput<u8, u8>, BlockExecutionError<u8, &'static str>>;

fn output() -> ParallelEthExecuteOutput<u8, u8> {
    ParallelEthExecuteOutput {
        receipts: vec![Receipt { tx_type: 0, success: true, cumulative_gas_used: 8, logs: vec![] }],
        requests: vec![4],
        gas_used: 8,
    }
}

fn prepare(mut state: Vec<&'static str>, state_clear_flag: bool) -> Vec<&'static str> {
    state.push(if state_clear_flag { "clears" } else { "keeps" });
    state
}

fn transact(mut executor: BlockExecutor) -> (BlockExecutor, Ran) {
    executor.state_mut().push("transacted");
    (executor, Ok(output()))
}

fn transact_badly(mut executor: BlockExecutor) -> (BlockExecutor, Ran) {
    executor.state_mut().push("transacted");
    (executor, Err(BlockExecutionError::PreExecution("no call")))
}

fn settle(mut executor: BlockExecutor) -> (BlockExecutor, Result<(), BlockValidationError>) {
    executor.state_mut().push("settled");
    (executor, Ok(()))
}

fn settle_badly(mut executor: BlockExecutor) -> (BlockExecutor, Result<(), BlockValidationError>) {
    executor.state_mut().push("not settled");
    (executor, Err(BlockValidationError::IncrementBalanceFailed))
}

fn never_settled(_: BlockExecutor) -> (BlockExecutor, Result<(), BlockValidationError>) {
    panic!("the transactions failed")
}

fn merge(mut state: Vec<&'static str>) -> Vec<&'static str> {
    state.push("merged");
    state
}

#[test]
fn execution_runs_from_preparation_to_balances() {
    let (mut after, ran) =
        block_executor().execute_without_verification(&header(60), prepare, transact, settle);
    assert_eq!(ran, Ok(output()));
    assert_eq!(after.state_mut(), &vec!["state", "clears", "transacted", "settled"]);

    let (mut after, ran) = block_executor().execute_without_verification(
        &header(59),
        prepare,
        transact_badly,
        never_settled,
    );
    assert_eq!(ran, Err(BlockExecutionError::PreExecution("no call")));
    assert_eq!(after.state_mut(), &vec!["state", "keeps", "transacted"]);

    let (_, ran) =
        block_executor().execute_without_verification(&header(60), prepare, transact, settle_badly);
    assert_eq!(
        ran,
        Err(BlockExecutionError::Validation(BlockValidationError::IncrementBalanceFailed))
    );
}

#[test]
fn output_of_a_block_holds_what_is_taken_from_its_state() {
    let take = |state: Vec<&'static str>| state.len();
    let plain = block_executor()
        .execute(&header(60), prepare, transact, settle, merge, take)
        .unwrap();
    assert_eq!(plain.state, 5);
    assert_eq!(plain.gas_used, 8);
    assert_eq!(plain.requests, vec![4]);
    assert_eq!(plain.receipts, output().receipts);

    let seen = std::cell::RefCell::new(vec![]);
    let witness = |state: &Vec<&'static str>| seen.borrow_mut().push(state.clone());
    let witnessed = block_executor()
        .execute_with_state_witness(
            &header(60),
            prepare,
            transact,
            settle,
            merge,
            witness,
            take,
        )
        .unwrap();
    assert_eq!(witnessed, plain);
    assert_eq!(
        seen.into_inner(),
        vec![vec!["state", "clears", "transacted", "settled", "merged"]]
    );
}

#[test]
fn failing_block_shows_no_witness() {
    let never_merged = |_: Vec<&'static str>| -> Vec<&'static str> { panic!("the block failed") };
    let never_shown = |_: &Vec<&'static str>| panic!("the block failed");
    let never_taken = |_: Vec<&'static str>| -> usize { panic!("the block failed") };
    let plain = block_executor().execute(
        &header(60),
        prepare,
        transact_badly,
        never_settled,
        never_merged,
        never_taken,
    );
    let witnessed = block_executor().execute_with_state_witness(
        &header(60),
        prepare,
        transact_badly,
        never_settled,
        never_merged,
        never_shown,
        never_taken,
    );
    assert_eq!(plain, Err(BlockExecutionError::PreExecution("no call")));
    assert_eq!(witnessed, plain);
}

#[test]
fn environment_of_a_block() {
    let block_env = BlockEnv {
        number: U256::from_u64(5),
        coinbase: Address { bytes: [5; 20] },
        timestamp: U256::from_u64(6),
        gas_limit: U256::from_u64(7),
        basefee: U256::from_u64(8),
        difficulty: U256::from_u64(9),
        prevrandao: None,
        blob_excess_gas_and_price: None,
    };
    let env = block_executor().evm_env_for_block(&header(60), U256::zero(), block_env);
    assert_eq!(env.cfg.chain_id, 1);
    assert_eq!(env.cfg.spec_id, SpecId::SPURIOUS_DRAGON);
    assert_eq!(env.cfg.perf_analyse_created_bytecodes, AnalysisKind::Analyse);
    assert_eq!(env.block, block_env);
    assert_eq!(env.tx, TxEnv::default());
    assert_eq!(env.tx.gas_limit, u64::MAX);
}

#[test]
fn executor_of_a_block_is_reached_through_it() {
    let mut executor = block_executor();
    executor.executor_mut().begin_block(1);
    executor
        .executor_mut()
        .try_execute(version(0), Ok::<_, VmExecutionError<u8>>(VmExecutionResult {
            execution_result: 3,
            flags: (),
        }));
    assert!(!executor.executor_mut().is_aborted());
    assert_eq!(executor.executor_mut().chain_spec().chain_id(), 1);
    assert_eq!(executor.executor_mut().evm_config().chain_spec().chain_id(), 1);
}

#[test]
fn shared_storage_knows_the_block() {
    let hash = B256 { bytes: [3; 32] };
    let mut context = ParallelEvmContext::default();
    assert_eq!(context.storage().block_hash(7), None);
    assert_eq!(prepare_internal_storage(&mut context, 7, hash).block_hash(7), Some(hash));
    assert_eq!(context.storage().block_hash(7), Some(hash));
    assert_eq!(context.storage().block_hash(6), None);

    let mut storage = InMemoryStorage::new();
    storage.set_block_hash(1, hash);
    let mut context = ParallelEvmContext::new(storage);
    let other = B256 { bytes: [4; 32] };
    context.set_block_hash(2, other);
    context.set_block_hash(1, other);
    assert_eq!(context.storage().block_hash(1), Some(other));
    assert_eq!(context.storage().block_hash(2), Some(other));
}

#[derive(Clone, Debug, PartialEq)]
struct TestChain;

impl PevmChain for TestChain {
    type BlockSpecError = u8;
    type TransactionParsingError = String;
}

#[test]
fn errors_of_a_chain_are_compared_and_shown() {
    let error: PevmError<TestChain> = PevmError::BlockSpecError(3);
    assert_eq!(error.clone(), error);
    assert_ne!(error, PevmError::MissingTransactionData);
    assert_eq!(format!("{:?}", error), "BlockSpecError(3)");
}

#[test]
fn context_is_cloned_with_its_storage() {
    let hash = B256 { bytes: [3; 32] };
    let mut context = ParallelEvmContext::default();
    context.set_block_hash(7, hash);
    let copy = context.clone();
    context.set_block_hash(7, B256 { bytes: [4; 32] });
    assert_eq!(copy.storage().block_hash(7), Some(hash));
}
