//! Laws of the parallel execution of a block.

use vstd::prelude::*;
use crate::block_output::{
    BlockRequests, BlockValidationError, ExecutionResult, ParallelEthExecuteOutput, Receipt,
    TransactionInfo,
};
use crate::hardfork::{EthereumHardfork, ForkCondition};
use crate::laws::receipts;
use crate::parallel::{
    self, AbortReason, BlockExecutionError, ExecuteAction, ExecutionState, ParallelEthEvmExecutor,
    Task, TxVersion, VmExecutionError, VmExecutionResult, WorkerAction,
};

verus! {

/// An attempt that succeeds stores its result at its transaction and nowhere else, and has the
/// scheduler told of that attempt and its flags.
pub proof fn lemma_success_is_stored<R, X, F>(
    before: ExecutionState<R, X>,
    tx_version: TxVersion,
    success: VmExecutionResult<R, F>,
    after: ExecutionState<R, X>,
    action: ExecuteAction<F, X>,
)
    requires
        before.attempt(tx_version, Ok(success), after, action),
        tx_version.tx_idx < before.results.len(),
    ensures
        after.results.len() == before.results.len(),
        after.results[tx_version.tx_idx as int] == Some(success.execution_result),
        forall|i: int|
            #![trigger after.results[i]]
            0 <= i < before.results.len() && i != tx_version.tx_idx ==> after.results[i]
                == before.results[i],
        after.abort_reason == before.abort_reason,
        action matches ExecuteAction::FinishExecution { tx_version: told, flags } && told
            == tx_version && flags == success.flags,
{
}

/// An attempt that fails changes nothing by itself. A retry is made unless the block was given up.
/// An attempt that waits for another transaction has the scheduler hold it back until that one is
/// done. A failure of the EVM, and one that asks for a sequential execution, has the block given up
/// for that reason.
pub proof fn lemma_failure_leads_on<R, X, F>(
    before: ExecutionState<R, X>,
    tx_version: TxVersion,
    error: VmExecutionError<X>,
    after: ExecutionState<R, X>,
    action: ExecuteAction<F, X>,
)
    requires
        before.attempt(tx_version, Err(error), after, action),
    ensures
        after == before,
        error is Retry && before.abort_reason is None ==> action is Retry,
        error is Retry && before.abort_reason is Some ==> action is Stop,
        error matches VmExecutionError::Blocking(other) ==> (
        action matches ExecuteAction::AddDependency { tx_idx, blocking_tx_idx } && tx_idx
            == tx_version.tx_idx && blocking_tx_idx == other),
        error is FallbackToSequential ==> (action matches ExecuteAction::AbortScheduler { reason }
            && reason is FallbackToSequential),
        error matches VmExecutionError::ExecutionError(failure) ==> (
        action matches ExecuteAction::AbortScheduler { reason } && reason
            == AbortReason::ExecutionError(failure)),
{
}

/// The reason for which a block is given up is recorded where none was recorded yet, and no result
/// is touched.
pub proof fn lemma_first_reason_stays<R, X>(state: ExecutionState<R, X>, reason: AbortReason<X>)
    ensures
        state.abort(reason).results == state.results,
        state.abort_reason is None ==> state.abort(reason).abort_reason == Some(reason),
        state.abort_reason is Some ==> state.abort(reason).abort_reason == state.abort_reason,
{
}

/// A result is stored at its transaction and nowhere else.
pub proof fn lemma_result_is_stored<R, X>(state: ExecutionState<R, X>, tx_idx: int, result: R)
    requires
        0 <= tx_idx < state.results.len(),
    ensures
        state.store(tx_idx, result).results.len() == state.results.len(),
        state.store(tx_idx, result).results[tx_idx] == Some(result),
        forall|i: int|
            #![trigger state.store(tx_idx, result).results[i]]
            0 <= i < state.results.len() && i != tx_idx ==> state.store(tx_idx, result).results[i]
                == state.results[i],
        state.store(tx_idx, result).abort_reason == state.abort_reason,
{
}

/// A transaction that the scheduler did not hold back is attempted again unless the block was given
/// up, and one that it holds back is not.
pub proof fn lemma_attempt_after_dependency<F, X>(aborted: bool, added: bool)
    ensures
        parallel::dependency_leads_to::<F, X>(aborted, added) is Retry <==> !aborted && !added,
        parallel::dependency_leads_to::<F, X>(aborted, added) is Stop <==> aborted || added,
{
}

/// A worker runs every task that it is given, asks for another where there is none, and leaves
/// where the scheduler has none or the block was given up.
pub proof fn lemma_worker_runs_every_task(task: Task, aborted: bool)
    ensures
        parallel::fetch_leads_to(Some(task)) == WorkerAction::Run(task),
        parallel::fetch_leads_to(None) == WorkerAction::Stop,
        parallel::run_leads_to(Some(task), false) == WorkerAction::Run(task),
        parallel::run_leads_to(None, false) == WorkerAction::Fetch,
        parallel::run_leads_to(Some(task), true) == WorkerAction::Stop,
        parallel::run_leads_to(None, true) == WorkerAction::Stop,
{
}

/// The scheduler is told that an execution that has read what it should stands, and of nothing
/// else.
pub proof fn lemma_good_reads_stand<M, R, A, C, N>(
    memory: M,
    tx_version: TxVersion,
    reads: R,
    abort: A,
    convert: C,
    finish: N,
    result: (M, Option<Task>),
    after_reads: M,
) where
    R: FnOnce(M, usize) -> (M, bool),
    A: FnOnce(M, TxVersion) -> (M, bool),
    C: FnOnce(M, usize) -> M,
    N: FnOnce(M, TxVersion, bool) -> (M, Option<Task>),

    requires
        parallel::validates(memory, tx_version, reads, abort, convert, finish, result),
        forall|read: (M, bool)| #[trigger]
            call_ensures(reads, (memory, tx_version.tx_idx), read) ==> read == (after_reads, true),
    ensures
        call_ensures(finish, (after_reads, tx_version, false), result),
{
}

/// The scheduler is told that an execution with bad reads stands where it did not abort it.
pub proof fn lemma_bad_reads_can_stand<M, R, A, C, N>(
    memory: M,
    tx_version: TxVersion,
    reads: R,
    abort: A,
    convert: C,
    finish: N,
    result: (M, Option<Task>),
    after_reads: M,
    after_abort: M,
) where
    R: FnOnce(M, usize) -> (M, bool),
    A: FnOnce(M, TxVersion) -> (M, bool),
    C: FnOnce(M, usize) -> M,
    N: FnOnce(M, TxVersion, bool) -> (M, Option<Task>),

    requires
        parallel::validates(memory, tx_version, reads, abort, convert, finish, result),
        forall|read: (M, bool)| #[trigger]
            call_ensures(reads, (memory, tx_version.tx_idx), read) ==> read == (after_reads, false),
        forall|asked: (M, bool)| #[trigger]
            call_ensures(abort, (after_reads, tx_version), asked) ==> asked == (after_abort, false),
    ensures
        call_ensures(finish, (after_abort, tx_version, false), result),
{
}

/// What an execution with bad reads has written becomes estimates once the scheduler has aborted
/// it, and then the scheduler is told that it was aborted.
pub proof fn lemma_bad_reads_are_aborted<M, R, A, C, N>(
    memory: M,
    tx_version: TxVersion,
    reads: R,
    abort: A,
    convert: C,
    finish: N,
    result: (M, Option<Task>),
    after_reads: M,
    after_abort: M,
    converted: M,
) where
    R: FnOnce(M, usize) -> (M, bool),
    A: FnOnce(M, TxVersion) -> (M, bool),
    C: FnOnce(M, usize) -> M,
    N: FnOnce(M, TxVersion, bool) -> (M, Option<Task>),

    requires
        parallel::validates(memory, tx_version, reads, abort, convert, finish, result),
        forall|read: (M, bool)| #[trigger]
            call_ensures(reads, (memory, tx_version.tx_idx), read) ==> read == (after_reads, false),
        forall|asked: (M, bool)| #[trigger]
            call_ensures(abort, (after_reads, tx_version), asked) ==> asked == (after_abort, true),
        forall|written: M| #[trigger]
            call_ensures(convert, (after_abort, tx_version.tx_idx), written) ==> written
                == converted,
    ensures
        call_ensures(finish, (converted, tx_version, true), result),
{
}

/// Parts that can be called on anything can validate anything.
pub proof fn lemma_total_parts_validate<M, R, A, C, N>(
    memory: M,
    tx_version: TxVersion,
    reads: R,
    abort: A,
    convert: C,
    finish: N,
) where
    R: FnOnce(M, usize) -> (M, bool),
    A: FnOnce(M, TxVersion) -> (M, bool),
    C: FnOnce(M, usize) -> M,
    N: FnOnce(M, TxVersion, bool) -> (M, Option<Task>),

    requires
        forall|m: M, i: usize| #[trigger] call_requires(reads, (m, i)),
        forall|m: M, v: TxVersion| #[trigger] call_requires(abort, (m, v)),
        forall|m: M, i: usize| #[trigger] call_requires(convert, (m, i)),
        forall|m: M, v: TxVersion, b: bool| #[trigger] call_requires(finish, (m, v, b)),
    ensures
        parallel::is_validatable(memory, tx_version, reads, abort, convert, finish),
{
}

/// After a success the next task is the scheduler's answer. Where the block is given up there is
/// none, and the reason is recorded with what telling the scheduler gave. In all other cases there
/// is none.
pub proof fn lemma_conclusion_follows_action<F, X, K, A, D, G>(
    action: ExecuteAction<F, X>,
    abort: A,
    record: D,
    finish: G,
    result: Option<Task>,
    told: K,
) where
    A: FnOnce() -> K,
    D: FnOnce(K, AbortReason<X>),
    G: FnOnce(TxVersion, F) -> Option<Task>,

    requires
        parallel::concludes(action, abort, record, finish, result),
        forall|answer: K| #[trigger] call_ensures(abort, (), answer) ==> answer == told,
    ensures
        action matches ExecuteAction::FinishExecution { tx_version, flags } ==> call_ensures(
            finish,
            (tx_version, flags),
            result,
        ),
        action matches ExecuteAction::AbortScheduler { reason } ==> {
            &&& call_ensures(abort, (), told)
            &&& call_ensures(record, (told, reason), ())
        },
        !(action is FinishExecution) ==> result is None,
{
}

/// The first call of a system contract that fails ends the calls, with its error and the EVM that
/// it has left.
pub proof fn lemma_first_failed_call_counts<V, Y, B, H>(
    evm: V,
    beacon_root: B,
    block_hashes: H,
    result: (V, Result<(), Y>),
    left: V,
    error: Y,
) where B: FnOnce(V) -> (V, Result<(), Y>), H: FnOnce(V) -> (V, Result<(), Y>)
    requires
        parallel::pre_executes(evm, beacon_root, block_hashes, result),
        forall|first: (V, Result<(), Y>)| #[trigger]
            call_ensures(beacon_root, (evm,), first) ==> first == (left, Err::<(), Y>(error)),
    ensures
        result == (left, Err::<(), Y>(error)),
{
}

/// Where the first call succeeds, the second one is made on the EVM that it has left, and decides.
pub proof fn lemma_second_call_follows<V, Y, B, H>(
    evm: V,
    beacon_root: B,
    block_hashes: H,
    result: (V, Result<(), Y>),
    left: V,
) where B: FnOnce(V) -> (V, Result<(), Y>), H: FnOnce(V) -> (V, Result<(), Y>)
    requires
        parallel::pre_executes(evm, beacon_root, block_hashes, result),
        forall|first: (V, Result<(), Y>)| #[trigger]
            call_ensures(beacon_root, (evm,), first) ==> first.0 == left && first.1 is Ok,
    ensures
        call_ensures(block_hashes, (left,), result),
{
}

/// The execution of a block, where its parts answer as given: an error of the first call of a
/// system contract ends it, then one of the second, then one of the workers. Else the output is
/// collected by the executor that the workers have left, with the EVM that they have left.
pub proof fn lemma_block_is_executed_in_order<C, L, X, V, Q, Y, B, H, W, F>(
    executor: ParallelEthEvmExecutor<C, ExecutionResult<L>, X>,
    evm: V,
    beacon_root: B,
    block_hashes: H,
    run: W,
    transactions: Seq<TransactionInfo>,
    block_gas_limit: u128,
    timestamp: u64,
    requests: F,
    result: (V, Result<ParallelEthExecuteOutput<L, Q>, BlockExecutionError<X, Y>>),
    first: (V, Result<(), Y>),
    second: (V, Result<(), Y>),
    ran: (V, Result<ParallelEthEvmExecutor<C, ExecutionResult<L>, X>, Y>),
) where
    B: FnOnce(V) -> (V, Result<(), Y>),
    H: FnOnce(V) -> (V, Result<(), Y>),
    W: FnOnce(
        ParallelEthEvmExecutor<C, ExecutionResult<L>, X>,
        V,
    ) -> (V, Result<ParallelEthEvmExecutor<C, ExecutionResult<L>, X>, Y>),
    F: FnOnce(V, &Vec<Receipt<L>>) -> (V, Result<BlockRequests<Q>, Y>),

    requires
        executor.executes(
            evm,
            beacon_root,
            block_hashes,
            run,
            transactions,
            block_gas_limit,
            timestamp,
            requests,
            result,
        ),
        forall|called: (V, Result<(), Y>)| #[trigger]
            call_ensures(beacon_root, (evm,), called) ==> called == first,
        forall|called: (V, Result<(), Y>)| #[trigger]
            call_ensures(block_hashes, (first.0,), called) ==> called == second,
        forall|called: (V, Result<ParallelEthEvmExecutor<C, ExecutionResult<L>, X>, Y>)| #[trigger]
            call_ensures(run, (executor, second.0), called) ==> called == ran,
    ensures
        first.1 matches Err(error) ==> {
            &&& result.0 == first.0
            &&& result.1 matches Err(BlockExecutionError::PreExecution(given)) && given == error
        },
        first.1 is Ok && second.1 is Err ==> {
            &&& result.0 == second.0
            &&& result.1 matches Err(BlockExecutionError::PreExecution(given)) && given
                == second.1->Err_0
        },
        first.1 is Ok && second.1 is Ok && ran.1 is Err ==> {
            &&& result.0 == ran.0
            &&& result.1 matches Err(BlockExecutionError::Workers(given)) && given
                == ran.1->Err_0
        },
        first.1 is Ok && second.1 is Ok && ran.1 is Ok ==> ran.1->Ok_0.collects(
            ran.0,
            transactions,
            block_gas_limit,
            timestamp,
            requests,
            result,
        ),
{
    let prepared = choose|prepared: (V, Result<(), Y>)|
        {
            &&& #[trigger] parallel::pre_executes(evm, beacon_root, block_hashes, prepared)
            &&& match prepared.1 {
                Err(error) => {
                    &&& result.0 == prepared.0
                    &&& result.1 == Err::<
                        ParallelEthExecuteOutput<L, Q>,
                        BlockExecutionError<X, Y>,
                    >(BlockExecutionError::PreExecution(error))
                },
                Ok(_) => exists|ran: (
                    V,
                    Result<ParallelEthEvmExecutor<C, ExecutionResult<L>, X>, Y>,
                )|
                    {
                        &&& #[trigger] call_ensures(run, (executor, prepared.0), ran)
                        &&& match ran.1 {
                            Err(error) => {
                                &&& result.0 == ran.0
                                &&& result.1 == Err::<
                                    ParallelEthExecuteOutput<L, Q>,
                                    BlockExecutionError<X, Y>,
                                >(BlockExecutionError::Workers(error))
                            },
                            Ok(after) => after.collects(
                                ran.0,
                                transactions,
                                block_gas_limit,
                                timestamp,
                                requests,
                                result,
                            ),
                        }
                    },
            }
        };
    if first.1 is Ok {
        lemma_second_call_follows(evm, beacon_root, block_hashes, prepared, first.0);
        assert(prepared == second);
    }
}

/// A block that was given up has no output, but the reason for which it was given up, and a block
/// in which some transaction has no result has none either. The EVM is as it was.
pub proof fn lemma_unfinished_block_has_no_output<C, L, X, V, Q, Y, F>(
    executor: ParallelEthEvmExecutor<C, ExecutionResult<L>, X>,
    evm: V,
    transactions: Seq<TransactionInfo>,
    block_gas_limit: u128,
    timestamp: u64,
    requests: F,
    result: (V, Result<ParallelEthExecuteOutput<L, Q>, BlockExecutionError<X, Y>>),
) where F: FnOnce(V, &Vec<Receipt<L>>) -> (V, Result<BlockRequests<Q>, Y>)
    requires
        executor.collects(evm, transactions, block_gas_limit, timestamp, requests, result),
    ensures
        executor@.abort_reason matches Some(reason) ==> {
            &&& result.0 == evm
            &&& result.1 matches Err(BlockExecutionError::Aborted(given)) && given == reason
        },
        executor@.abort_reason is None && (exists|i: int|
            0 <= i < executor@.results.len() && (#[trigger] executor@.results[i]) is None) ==> {
            &&& result.0 == evm
            &&& result.1 matches Err(BlockExecutionError::Unfinished)
        },
{
}

/// The output of a finished block: where every transaction may use at most the gas that the block
/// has left before it, each has a receipt with its type, its success, its logs and the gas of the
/// block up to it, and the block has used the gas of all. Where one may use more, the block is
/// refused and the EVM is as it was.
pub proof fn lemma_output_of_finished_block<C, L, X, V, Q, Y, F>(
    executor: ParallelEthEvmExecutor<C, ExecutionResult<L>, X>,
    evm: V,
    transactions: Seq<TransactionInfo>,
    block_gas_limit: u128,
    timestamp: u64,
    requests: F,
    result: (V, Result<ParallelEthExecuteOutput<L, Q>, BlockExecutionError<X, Y>>),
    results: Seq<ExecutionResult<L>>,
    sums: Seq<int>,
) where F: FnOnce(V, &Vec<Receipt<L>>) -> (V, Result<BlockRequests<Q>, Y>)
    requires
        executor.collects(evm, transactions, block_gas_limit, timestamp, requests, result),
        executor@.abort_reason is None,
        results.len() == executor@.results.len(),
        forall|i: int|
            #![trigger results[i]]
            #![trigger executor@.results[i]]
            0 <= i < results.len() ==> executor@.results[i] == Some(results[i]),
        sums.len() == results.len() + 1,
        sums[0] == 0,
        forall|i: int|
            0 <= i < results.len() ==> sums[i + 1] == sums[i] + (#[trigger] results[i]).gas_used,
    ensures
        (forall|i: int|
            #![trigger transactions[i]]
            0 <= i < results.len() ==> transactions[i].gas_limit <= (block_gas_limit - sums[i])
                % 0x1_0000_0000_0000_0000) <==> result.1 is Ok || (
        result.1 matches Err(BlockExecutionError::Requests(_))),
        result.1 matches Ok(output) ==> {
            &&& output.receipts@.len() == results.len()
            &&& forall|i: int|
                #![trigger output.receipts@[i]]
                0 <= i < results.len() ==> {
                    &&& output.receipts@[i].tx_type == transactions[i].tx_type
                    &&& output.receipts@[i].success == results[i].success
                    &&& output.receipts@[i].logs == results[i].logs
                    &&& output.receipts@[i].cumulative_gas_used == sums[i + 1]
                        % 0x1_0000_0000_0000_0000
                }
            &&& output.gas_used == sums.last() % 0x1_0000_0000_0000_0000
        },
        !(result.1 is Ok) && !(result.1 matches Err(BlockExecutionError::Requests(_))) ==> {
            &&& result.0 == evm
            &&& result.1 matches Err(BlockExecutionError::Validation(error)) && error
                != BlockValidationError::IncrementBalanceFailed
        },
{
    let outcomes = executor@.outcomes();
    assert(outcomes =~= results);
    assert(executor@.is_finished());
    receipts::lemma_accepted_transactions_fit(
        transactions,
        results,
        block_gas_limit,
        sums,
        results.len() as int,
    );
    if let Ok(output) = result.1 {
        receipts::lemma_receipt_shows_its_transaction(
            transactions,
            results,
            output.receipts@,
            output.gas_used,
        );
        receipts::lemma_receipts_add_up(
            transactions,
            results,
            output.receipts@,
            output.gas_used,
            sums,
        );
    }
    if let Err(BlockExecutionError::Validation(error)) = result.1 {
        receipts::lemma_refusal_names_first_misfit(
            transactions,
            results,
            block_gas_limit,
            error,
            sums,
        );
    }
}

/// A refused block is refused for its first transaction that may use more gas than the block has
/// left, and the error tells both amounts.
pub proof fn lemma_block_is_refused_for_first_misfit<C, L, X, V, Q, Y, F>(
    executor: ParallelEthEvmExecutor<C, ExecutionResult<L>, X>,
    evm: V,
    transactions: Seq<TransactionInfo>,
    block_gas_limit: u128,
    timestamp: u64,
    requests: F,
    result: (V, Result<ParallelEthExecuteOutput<L, Q>, BlockExecutionError<X, Y>>),
    results: Seq<ExecutionResult<L>>,
    sums: Seq<int>,
    index: int,
) where F: FnOnce(V, &Vec<Receipt<L>>) -> (V, Result<BlockRequests<Q>, Y>)
    requires
        executor.collects(evm, transactions, block_gas_limit, timestamp, requests, result),
        executor@.abort_reason is None,
        results.len() == executor@.results.len(),
        forall|i: int|
            #![trigger results[i]]
            #![trigger executor@.results[i]]
            0 <= i < results.len() ==> executor@.results[i] == Some(results[i]),
        sums.len() == results.len() + 1,
        sums[0] == 0,
        forall|i: int|
            0 <= i < results.len() ==> sums[i + 1] == sums[i] + (#[trigger] results[i]).gas_used,
        0 <= index < results.len(),
        transactions[index].gas_limit > (block_gas_limit - sums[index]) % 0x1_0000_0000_0000_0000,
        forall|i: int|
            #![trigger transactions[i]]
            0 <= i < index ==> transactions[i].gas_limit <= (block_gas_limit - sums[i])
                % 0x1_0000_0000_0000_0000,
    ensures
        result.0 == evm,
        result.1 matches Err(
            BlockExecutionError::Validation(
                BlockValidationError::TransactionGasLimitMoreThanAvailableBlockGas {
                    transaction_gas_limit,
                    block_available_gas,
                },
            ),
        ) && transaction_gas_limit == transactions[index].gas_limit && block_available_gas == (
        block_gas_limit - sums[index]) % 0x1_0000_0000_0000_0000,
{
    lemma_output_of_finished_block(
        executor,
        evm,
        transactions,
        block_gas_limit,
        timestamp,
        requests,
        result,
        results,
        sums,
    );
    assert(executor@.outcomes() =~= results);
    if let Err(BlockExecutionError::Validation(error)) = result.1 {
        receipts::lemma_refusal_names_first_misfit(
            transactions,
            results,
            block_gas_limit,
            error,
            sums,
        );
        let named = choose|named: int|
            #![trigger transactions[named]]
            {
                let left = (block_gas_limit - sums[named]) % 0x1_0000_0000_0000_0000;
                &&& 0 <= named < results.len()
                &&& transactions[named].gas_limit > left
                &&& forall|i: int|
                    #![trigger transactions[i]]
                    0 <= i < named ==> transactions[i].gas_limit <= (block_gas_limit - sums[i])
                        % 0x1_0000_0000_0000_0000
                &&& error matches BlockValidationError::TransactionGasLimitMoreThanAvailableBlockGas {
                    transaction_gas_limit,
                    block_available_gas,
                }
                &&& transaction_gas_limit == transactions[named].gas_limit
                &&& block_available_gas == left
            };
        if named < index {
            assert(transactions[named].gas_limit <= (block_gas_limit - sums[named])
                % 0x1_0000_0000_0000_0000);
        }
        if index < named {
            assert(transactions[index].gas_limit <= (block_gas_limit - sums[index])
                % 0x1_0000_0000_0000_0000);
        }
    }
}

/// The requests of a block are those that come of its receipts, deposits first, then withdrawals,
/// then consolidations, from the time of Prague on. Before it there are none, and none are asked
/// for.
pub proof fn lemma_requests_of_block<C, L, X, V, Q, Y, F>(
    executor: ParallelEthEvmExecutor<C, ExecutionResult<L>, X>,
    evm: V,
    transactions: Seq<TransactionInfo>,
    block_gas_limit: u128,
    timestamp: u64,
    requests: F,
    result: (V, Result<ParallelEthExecuteOutput<L, Q>, BlockExecutionError<X, Y>>),
) where F: FnOnce(V, &Vec<Receipt<L>>) -> (V, Result<BlockRequests<Q>, Y>)
    requires
        executor.collects(evm, transactions, block_gas_limit, timestamp, requests, result),
    ensures
        ({
            let asked = executor.spec_chain().condition(
                EthereumHardfork::Prague,
            ) matches ForkCondition::Timestamp(start) && timestamp >= start;
            &&& !asked ==> {
                &&& result.0 == evm
                &&& !(result.1 matches Err(BlockExecutionError::Requests(_)))
                &&& result.1 matches Ok(output) ==> output.requests@.len() == 0
            }
            &&& asked ==> (result.1 matches Ok(output) ==> exists|found: BlockRequests<Q>|
                {
                    let deposits = found.deposits@;
                    let withdrawals = found.withdrawals@;
                    let consolidations = found.consolidations@;
                    &&& #[trigger] call_ensures(
                        requests,
                        (evm, &output.receipts),
                        (result.0, Ok::<BlockRequests<Q>, Y>(found)),
                    )
                    &&& output.requests@.len() == deposits.len() + withdrawals.len()
                        + consolidations.len()
                    &&& forall|i: int|
                        #![trigger deposits[i]]
                        0 <= i < deposits.len() ==> output.requests@[i] == deposits[i]
                    &&& forall|i: int|
                        #![trigger withdrawals[i]]
                        0 <= i < withdrawals.len() ==> output.requests@[deposits.len() + i]
                            == withdrawals[i]
                    &&& forall|i: int|
                        #![trigger consolidations[i]]
                        0 <= i < consolidations.len() ==> output.requests@[deposits.len()
                            + withdrawals.len() + i] == consolidations[i]
                })
        }),
{
    if let Ok(output) = result.1 {
        if executor.has_requests_at(timestamp) {
            let asked = choose|asked: (V, Result<BlockRequests<Q>, Y>)|
                {
                    &&& #[trigger] call_ensures(requests, (evm, &output.receipts), asked)
                    &&& asked.0 == result.0
                    &&& asked.1 matches Ok(found)
                    &&& output.requests@ == crate::block_output::requests_at(
                        executor.spec_chain(),
                        timestamp,
                        found,
                    )
                };
            let found = asked.1->Ok_0;
            assert(asked == (result.0, Ok::<BlockRequests<Q>, Y>(found)));
            receipts::lemma_requests_come_in_order(executor.spec_chain(), timestamp, found);
        }
    }
}

/// An error of the requests is the one that asking for them on the receipts of the block gave.
pub proof fn lemma_request_error_is_passed_on<C, L, X, V, Q, Y, F>(
    executor: ParallelEthEvmExecutor<C, ExecutionResult<L>, X>,
    evm: V,
    transactions: Seq<TransactionInfo>,
    block_gas_limit: u128,
    timestamp: u64,
    requests: F,
    after: V,
    error: Y,
) where F: FnOnce(V, &Vec<Receipt<L>>) -> (V, Result<BlockRequests<Q>, Y>)
    requires
        executor.collects(
            evm,
            transactions,
            block_gas_limit,
            timestamp,
            requests,
            (
                after,
                Err::<ParallelEthExecuteOutput<L, Q>, BlockExecutionError<X, Y>>(
                    BlockExecutionError::Requests(error),
                ),
            ),
        ),
    ensures
        exists|receipts: Vec<Receipt<L>>|
            {
                &&& #[trigger] call_ensures(
                    requests,
                    (evm, &receipts),
                    (after, Err::<BlockRequests<Q>, Y>(error)),
                )
                &&& receipts@.len() == executor@.results.len()
                &&& forall|i: int|
                    #![trigger receipts@[i]]
                    0 <= i < receipts@.len() ==> {
                        &&& receipts@[i].tx_type == transactions[i].tx_type
                        &&& executor@.results[i] matches Some(outcome) && receipts@[i].success
                            == outcome.success && receipts@[i].logs == outcome.logs
                    }
            },
{
    let (receipts, gas_used) = choose|receipts: Vec<Receipt<L>>, gas_used: u64|
        {
            &&& #[trigger] crate::block_output::are_receipts(
                transactions,
                executor@.outcomes(),
                receipts@,
                gas_used,
            )
            &&& call_ensures(
                requests,
                (evm, &receipts),
                (after, Err::<BlockRequests<Q>, Y>(error)),
            )
        };
    receipts::lemma_receipt_shows_its_transaction(
        transactions,
        executor@.outcomes(),
        receipts@,
        gas_used,
    );
    assert forall|i: int|
        #![trigger receipts@[i]]
        0 <= i < receipts@.len() implies {
        &&& receipts@[i].tx_type == transactions[i].tx_type
        &&& executor@.results[i] matches Some(outcome) && receipts@[i].success == outcome.success
            && receipts@[i].logs == outcome.logs
    } by {
        assert(executor@.results[i] is Some);
    }
}

/// The output of a block that was given up, or in which some transaction has no result, can always
/// be collected.
pub proof fn lemma_unfinished_block_is_collectable<C, L, X, V, Q, Y, F>(
    executor: ParallelEthEvmExecutor<C, ExecutionResult<L>, X>,
    evm: V,
    transactions: Seq<TransactionInfo>,
    block_gas_limit: u128,
    timestamp: u64,
    requests: F,
) where F: FnOnce(V, &Vec<Receipt<L>>) -> (V, Result<BlockRequests<Q>, Y>)
    requires
        executor@.abort_reason is Some || exists|i: int|
            0 <= i < executor@.results.len() && (#[trigger] executor@.results[i]) is None,
    ensures
        executor.is_collectable(evm, transactions, block_gas_limit, timestamp, requests),
{
}

/// So can that of a block whose gas can be counted, where requests can be asked for on any
/// receipts.
pub proof fn lemma_countable_block_is_collectable<C, L, X, V, Q, Y, F>(
    executor: ParallelEthEvmExecutor<C, ExecutionResult<L>, X>,
    evm: V,
    transactions: Seq<TransactionInfo>,
    block_gas_limit: u128,
    timestamp: u64,
    requests: F,
    results: Seq<ExecutionResult<L>>,
) where F: FnOnce(V, &Vec<Receipt<L>>) -> (V, Result<BlockRequests<Q>, Y>)
    requires
        results.len() == executor@.results.len(),
        forall|i: int|
            #![trigger results[i]]
            #![trigger executor@.results[i]]
            0 <= i < results.len() ==> executor@.results[i] == Some(results[i]),
        crate::block_output::gas_is_countable(transactions, results, block_gas_limit),
        forall|receipts: Vec<Receipt<L>>| #[trigger] call_requires(requests, (evm, &receipts)),
    ensures
        executor.is_collectable(evm, transactions, block_gas_limit, timestamp, requests),
{
    assert(executor@.outcomes() =~= results);
}

} // verus!
