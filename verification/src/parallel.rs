//! The parallel execution of a block: what the workers do with the tasks of the scheduler, and the
//! output that the results add up to.

use std::sync::Arc;
use vstd::prelude::*;
use crate::block_output::{
    self, BlockRequests, BlockValidationError, ExecutionResult, ParallelEthExecuteOutput, Receipt,
    TransactionInfo,
};
use crate::hardfork::{ChainSpec, EthereumHardfork};

verus! {

/// A chain whose blocks can be executed in parallel, by the errors that are particular to it.
pub trait PevmChain {
    /// Why the rules of a block cannot be told.
    type BlockSpecError: core::fmt::Debug + Clone + PartialEq;

    /// Why a transaction cannot be read.
    type TransactionParsingError: core::fmt::Debug + Clone + PartialEq;
}

/// Why a block could not be executed in parallel.
#[derive(Clone, Debug, PartialEq)]
pub enum PevmError<C: PevmChain> {
    /// The rules cannot be told from the header of the block.
    BlockSpecError(C::BlockSpecError),
    /// The transactions lack information for their execution.
    MissingTransactionData,
    /// A transaction is invalid.
    InvalidTransaction(C::TransactionParsingError),
    /// The storage failed.
    StorageError(String),
    /// The EVM failed.
    ExecutionError(String),
    /// This does not happen.
    UnreachableError,
}

/// The results of the transactions of a block. `R` is the type of a result.
pub type PevmResult<C, R> = Result<Vec<R>, PevmError<C>>;

/// One attempt to execute a transaction of the block.
#[derive(Clone, Copy, Debug, PartialEq, Eq)]
pub struct TxVersion {
    /// Which transaction of the block it is.
    pub tx_idx: usize,
    /// Which attempt it is.
    pub tx_incarnation: usize,
}

/// What a worker is given to do.
#[derive(Clone, Copy, Debug, PartialEq, Eq)]
pub enum Task {
    /// Execute a transaction.
    Execution(TxVersion),
    /// Validate what an execution has read.
    Validation(TxVersion),
}

/// Why an attempt gave no result. `X` is the error of the EVM.
#[derive(Debug)]
pub enum VmExecutionError<X> {
    /// The attempt is to be made again.
    Retry,
    /// The block cannot be executed in parallel.
    FallbackToSequential,
    /// The attempt waits for another transaction.
    Blocking(usize),
    /// The EVM failed.
    ExecutionError(X),
}

/// What an attempt gave. `R` is the result of a transaction and `F` says what is to be done next.
#[derive(Debug)]
pub struct VmExecutionResult<R, F> {
    pub execution_result: R,
    pub flags: F,
}

/// Why the execution of the block was given up.
#[derive(Debug, PartialEq, Eq)]
pub enum AbortReason<X> {
    /// The block cannot be executed in parallel.
    FallbackToSequential,
    /// The EVM failed.
    ExecutionError(X),
}

/// Why the execution of a block gave no output. `X` is the error of the EVM in a transaction, and
/// `Y` that of the work around the transactions.
#[derive(Debug, PartialEq, Eq)]
pub enum BlockExecutionError<X, Y> {
    /// A call of a system contract before the transactions failed.
    PreExecution(Y),
    /// The workers could not be started.
    Workers(Y),
    /// The block was given up.
    Aborted(AbortReason<X>),
    /// Some transaction has no result.
    Unfinished,
    /// The block is not valid.
    Validation(BlockValidationError),
    /// The requests of the block could not be collected.
    Requests(Y),
}

/// What follows from an attempt to execute a transaction. `F` says what is to be done after a
/// success, and `X` is the error of the EVM.
#[derive(Debug)]
pub enum ExecuteAction<F, X> {
    /// Make the attempt again.
    Retry,
    /// Ask the scheduler to hold the transaction back until another one is done.
    AddDependency { tx_idx: usize, blocking_tx_idx: usize },
    /// Tell the scheduler to give up, and then record why. There is no next task.
    AbortScheduler { reason: AbortReason<X> },
    /// Tell the scheduler that the attempt succeeded. It gives the next task.
    FinishExecution { tx_version: TxVersion, flags: F },
    /// There is no next task.
    Stop,
}

/// What a worker does next.
#[derive(Clone, Copy, Debug, PartialEq, Eq)]
pub enum WorkerAction {
    /// Work on a task.
    Run(Task),
    /// Ask the scheduler for a task.
    Fetch,
    /// Leave.
    Stop,
}

/// What a worker does once the scheduler has been asked for a task.
pub open spec fn fetch_leads_to(task: Option<Task>) -> WorkerAction {
    match task {
        Some(task) => WorkerAction::Run(task),
        None => WorkerAction::Stop,
    }
}

/// What a worker does once it has worked on a task: it leaves where the block was given up, goes on
/// with the task that came of the last one, and else asks for another.
pub open spec fn run_leads_to(next: Option<Task>, aborted: bool) -> WorkerAction {
    if aborted {
        WorkerAction::Stop
    } else {
        match next {
            Some(task) => WorkerAction::Run(task),
            None => WorkerAction::Fetch,
        }
    }
}

/// What a worker does once the scheduler has been asked for a task.
pub fn after_fetch(task: Option<Task>) -> (result: WorkerAction)
    ensures
        result == fetch_leads_to(task),
{
    match task {
        Some(task) => WorkerAction::Run(task),
        None => WorkerAction::Stop,
    }
}

/// What a worker does once it has worked on a task.
pub fn after_run(next: Option<Task>, aborted: bool) -> (result: WorkerAction)
    ensures
        result == run_leads_to(next, aborted),
{
    if aborted {
        return WorkerAction::Stop;
    }
    match next {
        Some(task) => WorkerAction::Run(task),
        None => WorkerAction::Fetch,
    }
}

/// What the validation of an execution gives.
///
/// `reads` says whether the execution has read what it should have read. Where it has not, `abort`
/// asks the scheduler to abort it. Where the scheduler did, `convert` marks what the execution has
/// written as estimates. In the end `finish` tells the scheduler that the validation is done, and
/// whether the execution was aborted. Its answer is the next task. Each of them is handed the
/// memory as the one before it has left it.
pub open spec fn validates<M, R, A, C, N>(
    memory: M,
    tx_version: TxVersion,
    reads: R,
    abort: A,
    convert: C,
    finish: N,
    result: (M, Option<Task>),
) -> bool where
    R: FnOnce(M, usize) -> (M, bool),
    A: FnOnce(M, TxVersion) -> (M, bool),
    C: FnOnce(M, usize) -> M,
    N: FnOnce(M, TxVersion, bool) -> (M, Option<Task>),
 {
    exists|read: (M, bool)|
        {
            &&& #[trigger] call_ensures(reads, (memory, tx_version.tx_idx), read)
            &&& if read.1 {
                call_ensures(finish, (read.0, tx_version, false), result)
            } else {
                exists|asked: (M, bool)|
                    {
                        &&& #[trigger] call_ensures(abort, (read.0, tx_version), asked)
                        &&& if asked.1 {
                            exists|converted: M|
                                {
                                    &&& #[trigger] call_ensures(
                                        convert,
                                        (asked.0, tx_version.tx_idx),
                                        converted,
                                    )
                                    &&& call_ensures(finish, (converted, tx_version, true), result)
                                }
                        } else {
                            call_ensures(finish, (asked.0, tx_version, false), result)
                        }
                    }
            }
        }
}

/// The parts of a validation can be called, each where the ones before it let it be called.
pub open spec fn is_validatable<M, R, A, C, N>(
    memory: M,
    tx_version: TxVersion,
    reads: R,
    abort: A,
    convert: C,
    finish: N,
) -> bool where
    R: FnOnce(M, usize) -> (M, bool),
    A: FnOnce(M, TxVersion) -> (M, bool),
    C: FnOnce(M, usize) -> M,
    N: FnOnce(M, TxVersion, bool) -> (M, Option<Task>),
 {
    &&& call_requires(reads, (memory, tx_version.tx_idx))
    &&& forall|read: (M, bool)| #[trigger]
        call_ensures(reads, (memory, tx_version.tx_idx), read) ==> if read.1 {
            call_requires(finish, (read.0, tx_version, false))
        } else {
            &&& call_requires(abort, (read.0, tx_version))
            &&& forall|asked: (M, bool)| #[trigger]
                call_ensures(abort, (read.0, tx_version), asked) ==> if asked.1 {
                    &&& call_requires(convert, (asked.0, tx_version.tx_idx))
                    &&& forall|converted: M| #[trigger]
                        call_ensures(convert, (asked.0, tx_version.tx_idx), converted)
                            ==> call_requires(finish, (converted, tx_version, true))
                } else {
                    call_requires(finish, (asked.0, tx_version, false))
                }
        }
}

/// Validates what an execution has read, and gives the next task. Only an execution that has read
/// what it should not have read is aborted, and only what an aborted execution has written becomes
/// estimates, before the scheduler is told.
pub fn try_validate<M, R, A, C, N>(
    memory: M,
    tx_version: TxVersion,
    reads: R,
    abort: A,
    convert: C,
    finish: N,
) -> (result: (M, Option<Task>)) where
    R: FnOnce(M, usize) -> (M, bool),
    A: FnOnce(M, TxVersion) -> (M, bool),
    C: FnOnce(M, usize) -> M,
    N: FnOnce(M, TxVersion, bool) -> (M, Option<Task>),

    requires
        is_validatable(memory, tx_version, reads, abort, convert, finish),
    ensures
        validates(memory, tx_version, reads, abort, convert, finish, result),
{
    let read = reads(memory, tx_version.tx_idx);
    assert(call_ensures(reads, (memory, tx_version.tx_idx), read));
    if read.1 {
        return finish(read.0, tx_version, false);
    }
    let asked = abort(read.0, tx_version);
    assert(call_ensures(abort, (read.0, tx_version), asked));
    if !asked.1 {
        return finish(asked.0, tx_version, false);
    }
    let converted = convert(asked.0, tx_version.tx_idx);
    assert(call_ensures(convert, (asked.0, tx_version.tx_idx), converted));
    finish(converted, tx_version, true)
}

/// What follows once the scheduler has answered whether it holds a transaction back: the attempt is
/// made again where it does not, unless the block was given up.
pub open spec fn dependency_leads_to<F, X>(aborted: bool, added: bool) -> ExecuteAction<F, X> {
    if !added && !aborted {
        ExecuteAction::Retry
    } else {
        ExecuteAction::Stop
    }
}

/// What the attempts at a transaction come to: the task that the scheduler gives once it was told
/// of the success, and else none. Where the block is given up, the scheduler is told first, and
/// `record` is handed what that gave, and the reason.
pub open spec fn concludes<F, X, K, A, D, G>(
    action: ExecuteAction<F, X>,
    abort: A,
    record: D,
    finish: G,
    result: Option<Task>,
) -> bool where
    A: FnOnce() -> K,
    D: FnOnce(K, AbortReason<X>),
    G: FnOnce(TxVersion, F) -> Option<Task>,
 {
    match action {
        ExecuteAction::FinishExecution { tx_version, flags } => call_ensures(
            finish,
            (tx_version, flags),
            result,
        ),
        ExecuteAction::AbortScheduler { reason } => {
            &&& result is None
            &&& exists|told: K|
                {
                    &&& #[trigger] call_ensures(abort, (), told)
                    &&& call_ensures(record, (told, reason), ())
                }
        },
        _ => result is None,
    }
}

/// Tells the scheduler what the attempts at a transaction came to, and gives the next task.
///
/// `finish` tells it of a success. `abort` tells it that the block is given up, and `record` then
/// records why. Where neither is the case, nothing is told or recorded.
pub fn conclude<F, X, K, A, D, G>(
    action: ExecuteAction<F, X>,
    abort: A,
    record: D,
    finish: G,
) -> (result: Option<Task>) where
    A: FnOnce() -> K,
    D: FnOnce(K, AbortReason<X>),
    G: FnOnce(TxVersion, F) -> Option<Task>,

    requires
        action matches ExecuteAction::AbortScheduler { reason } ==> {
            &&& call_requires(abort, ())
            &&& forall|told: K| #[trigger]
                call_ensures(abort, (), told) ==> call_requires(record, (told, reason))
        },
        action matches ExecuteAction::FinishExecution { tx_version, flags } ==> call_requires(
            finish,
            (tx_version, flags),
        ),
    ensures
        concludes(action, abort, record, finish, result),
{
    match action {
        ExecuteAction::FinishExecution { tx_version, flags } => finish(tx_version, flags),
        ExecuteAction::AbortScheduler { reason } => {
            let told = abort();
            assert(call_ensures(abort, (), told));
            record(told, reason);
            None
        },
        _ => None,
    }
}

/// The greatest number of workers on an ARM machine.
pub const MAX_WORKERS_ARM: usize = 12;

/// The greatest number of workers on another machine.
pub const MAX_WORKERS: usize = 8;

/// The size of the stack of a worker, in bytes.
pub const WORKER_STACK_SIZE: usize = 3_145_728;

/// How many workers to run: as many as the machine runs in parallel, one where that is not known,
/// and no more than pays off.
pub fn get_concurrency_level(available: Option<usize>, is_arm: bool) -> (result: usize)
    ensures
        ({
            let parallel = match available {
                Some(count) => count,
                None => 1,
            };
            let most = if is_arm {
                MAX_WORKERS_ARM
            } else {
                MAX_WORKERS
            };
            result == if parallel < most {
                parallel
            } else {
                most
            }
        }),
        available is None ==> result == 1,
        available matches Some(count) ==> {
            &&& is_arm && count >= 12 ==> result == 12
            &&& !is_arm && count >= 8 ==> result == 8
            &&& count < 8 || is_arm && count < 12 ==> result == count
        },
{
    let parallel: usize = match available {
        Some(count) => count,
        None => 1,
    };
    let most: usize = if is_arm {
        MAX_WORKERS_ARM
    } else {
        MAX_WORKERS
    };
    if parallel < most {
        parallel
    } else {
        most
    }
}

/// The state of the execution of a block.
pub struct ExecutionState<R, X> {
    /// The result of each transaction, once there is one.
    pub results: Seq<Option<R>>,
    /// Why the block was given up, if it was.
    pub abort_reason: Option<AbortReason<X>>,
}

impl<R, X> ExecutionState<R, X> {
    /// The state once the block has been given up for a reason. The first reason stays.
    pub open spec fn abort(self, reason: AbortReason<X>) -> ExecutionState<R, X> {
        match self.abort_reason {
            Some(_) => self,
            None => ExecutionState { abort_reason: Some(reason), ..self },
        }
    }

    /// The state once a transaction has a result.
    pub open spec fn store(self, tx_idx: int, result: R) -> ExecutionState<R, X> {
        ExecutionState { results: self.results.update(tx_idx, Some(result)), ..self }
    }

    /// What an attempt leads to: the state after it and the action that follows.
    pub open spec fn attempt<F>(
        self,
        tx_version: TxVersion,
        outcome: Result<VmExecutionResult<R, F>, VmExecutionError<X>>,
        after: ExecutionState<R, X>,
        action: ExecuteAction<F, X>,
    ) -> bool {
        match outcome {
            Err(VmExecutionError::Retry) => {
                &&& after == self
                &&& action == if self.abort_reason is None {
                    ExecuteAction::<F, X>::Retry
                } else {
                    ExecuteAction::<F, X>::Stop
                }
            },
            Err(VmExecutionError::FallbackToSequential) => {
                &&& after == self
                &&& action == (ExecuteAction::<F, X>::AbortScheduler {
                    reason: AbortReason::FallbackToSequential,
                })
            },
            Err(VmExecutionError::Blocking(blocking_tx_idx)) => {
                &&& after == self
                &&& action == (ExecuteAction::<F, X>::AddDependency {
                    tx_idx: tx_version.tx_idx,
                    blocking_tx_idx,
                })
            },
            Err(VmExecutionError::ExecutionError(error)) => {
                &&& after == self
                &&& action == (ExecuteAction::<F, X>::AbortScheduler {
                    reason: AbortReason::ExecutionError(error),
                })
            },
            Ok(VmExecutionResult { execution_result, flags }) => {
                &&& after == self.store(tx_version.tx_idx as int, execution_result)
                &&& action == (ExecuteAction::<F, X>::FinishExecution { tx_version, flags })
            },
        }
    }
}

/// Executes the transactions of a block in parallel.
///
/// `C` is the configuration of the EVM, `R` the result of a transaction and `X` the error of the
/// EVM.
#[derive(Debug)]
pub struct ParallelEthEvmExecutor<C, R, X> {
    chain_spec: Arc<ChainSpec>,
    evm_config: C,
    execution_results: Vec<Option<R>>,
    abort_reason: Option<AbortReason<X>>,
}

impl<C, R, X> View for ParallelEthEvmExecutor<C, R, X> {
    type V = ExecutionState<R, X>;

    closed spec fn view(&self) -> ExecutionState<R, X> {
        ExecutionState { results: self.execution_results@, abort_reason: self.abort_reason }
    }
}

impl<C, R, X> ParallelEthEvmExecutor<C, R, X> {
    /// The chain of the block.
    pub closed spec fn spec_chain(self) -> ChainSpec {
        *self.chain_spec
    }

    /// The configuration of the EVM.
    pub closed spec fn spec_evm_config(self) -> C {
        self.evm_config
    }

    /// An executor that has no results and was not given up.
    pub fn new(chain_spec: Arc<ChainSpec>, evm_config: C) -> (result: Self)
        ensures
            result.spec_chain() == *chain_spec,
            result.spec_evm_config() == evm_config,
            result@ == (ExecutionState::<R, X> { results: Seq::empty(), abort_reason: None }),
    {
        ParallelEthEvmExecutor {
            chain_spec,
            evm_config,
            execution_results: Vec::new(),
            abort_reason: None,
        }
    }

    /// The chain of the block.
    pub fn chain_spec(&self) -> (result: &ChainSpec)
        ensures
            *result == self.spec_chain(),
    {
        &self.chain_spec
    }

    /// The configuration of the EVM.
    pub fn evm_config(&self) -> (result: &C)
        ensures
            *result == self.spec_evm_config(),
    {
        &self.evm_config
    }

    /// Whether the block was given up.
    pub fn is_aborted(&self) -> (result: bool)
        ensures
            result == (self@.abort_reason is Some),
    {
        self.abort_reason.is_some()
    }

    /// Makes room for the results of the transactions of a block.
    pub fn begin_block(&mut self, block_size: usize)
        ensures
            final(self)@ == (ExecutionState {
                results: Seq::new(block_size as nat, |i: int| None::<R>),
                ..old(self)@
            }),
            final(self).spec_chain() == old(self).spec_chain(),
            final(self).spec_evm_config() == old(self).spec_evm_config(),
    {
        let mut results: Vec<Option<R>> = Vec::new();
        let mut i: usize = 0;
        while i < block_size
            invariant
                i <= block_size,
                results@ == Seq::new(i as nat, |j: int| None::<R>),
            decreases block_size - i,
        {
            results.push(None);
            i = i + 1;
            assert(results@ =~= Seq::new(i as nat, |j: int| None::<R>));
        }
        self.execution_results = results;
    }

    /// Takes in what came of an attempt to execute a transaction, and says what follows.
    pub fn try_execute<F>(
        &mut self,
        tx_version: TxVersion,
        outcome: Result<VmExecutionResult<R, F>, VmExecutionError<X>>,
    ) -> (action: ExecuteAction<F, X>)
        requires
            outcome is Ok ==> tx_version.tx_idx < old(self)@.results.len(),
        ensures
            old(self)@.attempt(tx_version, outcome, final(self)@, action),
            final(self).spec_chain() == old(self).spec_chain(),
            final(self).spec_evm_config() == old(self).spec_evm_config(),
    {
        match outcome {
            Err(VmExecutionError::Retry) => {
                if self.abort_reason.is_none() {
                    return ExecuteAction::Retry;
                }
                ExecuteAction::Stop
            },
            Err(VmExecutionError::FallbackToSequential) => {
                ExecuteAction::AbortScheduler { reason: AbortReason::FallbackToSequential }
            },
            Err(VmExecutionError::Blocking(blocking_tx_idx)) => {
                ExecuteAction::AddDependency { tx_idx: tx_version.tx_idx, blocking_tx_idx }
            },
            Err(VmExecutionError::ExecutionError(error)) => {
                ExecuteAction::AbortScheduler { reason: AbortReason::ExecutionError(error) }
            },
            Ok(VmExecutionResult { execution_result, flags }) => {
                self.execution_results.set(tx_version.tx_idx, Some(execution_result));
                ExecuteAction::FinishExecution { tx_version, flags }
            },
        }
    }

    /// Records why the block is given up, once the scheduler was told. The first reason stays.
    pub fn give_up(&mut self, reason: AbortReason<X>)
        ensures
            final(self)@ == old(self)@.abort(reason),
            final(self).spec_chain() == old(self).spec_chain(),
            final(self).spec_evm_config() == old(self).spec_evm_config(),
    {
        if self.abort_reason.is_none() {
            self.abort_reason = Some(reason);
        }
    }

    /// The results of all transactions of the block, where each of them has one.
    pub fn into_results(self) -> (result: Option<Vec<R>>)
        ensures
            result is Some <==> (forall|i: int|
                0 <= i < self@.results.len() ==> (#[trigger] self@.results[i]) is Some),
            result matches Some(all) ==> {
                &&& all@.len() == self@.results.len()
                &&& forall|i: int|
                    0 <= i < all@.len() ==> self@.results[i] == Some(#[trigger] all@[i])
            },
    {
        block_output::all_results(self.execution_results)
    }

    /// What follows once the scheduler has answered whether it holds the transaction back. Where it
    /// does not, because the other transaction was done in the meantime, the attempt is made again,
    /// unless the block was given up.
    pub fn after_dependency<F>(&self, added: bool) -> (action: ExecuteAction<F, X>)
        ensures
            action == dependency_leads_to::<F, X>(self@.abort_reason is Some, added),
    {
        if !added && self.abort_reason.is_none() {
            return ExecuteAction::Retry;
        }
        ExecuteAction::Stop
    }
}

impl<L, X> ExecutionState<ExecutionResult<L>, X> {
    /// Each transaction has a result.
    pub open spec fn is_finished(self) -> bool {
        forall|i: int| 0 <= i < self.results.len() ==> (#[trigger] self.results[i]) is Some
    }

    /// The results, where each transaction has one.
    pub open spec fn outcomes(self) -> Seq<ExecutionResult<L>> {
        Seq::new(self.results.len(), |i: int| self.results[i]->0)
    }
}

impl<C, L, X> ParallelEthEvmExecutor<C, ExecutionResult<L>, X> {
    /// Whether the gas of the transactions can be counted, where the block was not given up and
    /// each of them has a result.
    pub fn gas_countable(
        &self,
        transactions: &Vec<TransactionInfo>,
        block_gas_limit: u128,
    ) -> (result: bool)
        ensures
            result == (self@.abort_reason is None && self@.is_finished()
                ==> block_output::gas_is_countable(
                transactions@,
                self@.outcomes(),
                block_gas_limit,
            )),
    {
        if self.abort_reason.is_some() {
            return true;
        }
        let mut i: usize = 0;
        while i < self.execution_results.len()
            invariant
                i <= self.execution_results.len(),
                forall|j: int| 0 <= j < i ==> (#[trigger] self@.results[j]) is Some,
            decreases self.execution_results.len() - i,
        {
            if self.execution_results[i].is_none() {
                assert(self@.results[i as int] is None);
                return true;
            }
            i = i + 1;
        }
        let ghost outcomes = self@.outcomes();
        assert(self@.is_finished());
        if transactions.len() != self.execution_results.len() {
            return false;
        }
        let mut used: u128 = 0;
        let mut index: usize = 0;
        while index < transactions.len()
            invariant
                index <= transactions.len(),
                transactions.len() == self.execution_results.len(),
                self@.abort_reason is None,
                self@.is_finished(),
                outcomes == self@.outcomes(),
                used == block_output::gas_used_by(outcomes, index as int),
                block_output::is_reached(transactions@, outcomes, block_gas_limit, index as int),
                forall|i: int|
                    0 <= i < index ==> #[trigger] block_output::gas_used_by(outcomes, i)
                        <= block_gas_limit,
            decreases transactions.len() - index,
        {
            if used > block_gas_limit {
                assert(block_output::gas_used_by(outcomes, index as int) > block_gas_limit);
                return false;
            }
            let left: u128 = block_gas_limit - used;
            let available: u64 = (left % 0x1_0000_0000_0000_0000) as u64;
            if transactions[index].gas_limit > available {
                proof {
                    assert(!block_output::fits(
                        transactions@,
                        outcomes,
                        block_gas_limit,
                        index as int,
                    ));
                    assert forall|i: int|
                        0 <= i <= outcomes.len() && block_output::is_reached(
                            transactions@,
                            outcomes,
                            block_gas_limit,
                            i,
                        ) implies #[trigger] block_output::gas_used_by(outcomes, i) <= if i
                        < outcomes.len() {
                        block_gas_limit
                    } else {
                        u128::MAX
                    } by {
                        assert(i <= index);
                    }
                }
                return true;
            }
            assert(block_output::fits(transactions@, outcomes, block_gas_limit, index as int));
            assert(block_output::is_reached(
                transactions@,
                outcomes,
                block_gas_limit,
                index + 1,
            ));
            assert(self@.results[index as int] is Some);
            let gas_used: u64 = match &self.execution_results[index] {
                Some(outcome) => outcome.gas_used,
                None => 0,
            };
            assert(gas_used == outcomes[index as int].gas_used);
            assert(block_output::gas_used_by(outcomes, index + 1) == used + gas_used);
            if gas_used as u128 > u128::MAX - used {
                assert(block_output::gas_used_by(outcomes, index + 1) > u128::MAX);
                return false;
            }
            used = used + gas_used as u128;
            index = index + 1;
        }
        true
    }

    /// What the output of a block is, once the workers have left: the receipts of its transactions,
    /// the gas that they used, and the requests that `requests` collects where the chain has any.
    /// The EVM is used for the requests alone.
    pub open spec fn collects<V, Q, Y, F>(
        self,
        evm: V,
        transactions: Seq<TransactionInfo>,
        block_gas_limit: u128,
        timestamp: u64,
        requests: F,
        result: (V, Result<ParallelEthExecuteOutput<L, Q>, BlockExecutionError<X, Y>>),
    ) -> bool where F: FnOnce(V, &Vec<Receipt<L>>) -> (V, Result<BlockRequests<Q>, Y>) {
        match result.1 {
            Ok(output) => {
                &&& self@.abort_reason is None
                &&& self@.is_finished()
                &&& block_output::is_reached(
                    transactions,
                    self@.outcomes(),
                    block_gas_limit,
                    self@.results.len() as int,
                )
                &&& block_output::are_receipts(
                    transactions,
                    self@.outcomes(),
                    output.receipts@,
                    output.gas_used,
                )
                &&& if self.has_requests_at(timestamp) {
                    exists|asked: (V, Result<BlockRequests<Q>, Y>)|
                        {
                            &&& #[trigger] call_ensures(requests, (evm, &output.receipts), asked)
                            &&& asked.0 == result.0
                            &&& asked.1 matches Ok(found)
                            &&& output.requests@ == block_output::requests_at(
                                self.spec_chain(),
                                timestamp,
                                found,
                            )
                        }
                } else {
                    &&& result.0 == evm
                    &&& output.requests@ == Seq::<Q>::empty()
                }
            },
            Err(BlockExecutionError::Aborted(reason)) => {
                &&& self@.abort_reason == Some(reason)
                &&& result.0 == evm
            },
            Err(BlockExecutionError::Unfinished) => {
                &&& self@.abort_reason is None
                &&& !self@.is_finished()
                &&& result.0 == evm
            },
            Err(BlockExecutionError::Validation(error)) => {
                &&& self@.abort_reason is None
                &&& self@.is_finished()
                &&& block_output::is_refused(
                    transactions,
                    self@.outcomes(),
                    block_gas_limit,
                    error,
                )
                &&& result.0 == evm
            },
            Err(BlockExecutionError::Requests(error)) => {
                &&& self@.abort_reason is None
                &&& self@.is_finished()
                &&& block_output::is_reached(
                    transactions,
                    self@.outcomes(),
                    block_gas_limit,
                    self@.results.len() as int,
                )
                &&& self.has_requests_at(timestamp)
                &&& exists|receipts: Vec<Receipt<L>>, gas_used: u64|
                    {
                        &&& #[trigger] block_output::are_receipts(
                            transactions,
                            self@.outcomes(),
                            receipts@,
                            gas_used,
                        )
                        &&& call_ensures(requests, (evm, &receipts), (result.0, Err(error)))
                    }
            },
            Err(BlockExecutionError::PreExecution(_)) | Err(BlockExecutionError::Workers(_)) => {
                false
            },
        }
    }

    /// The blocks of the chain have requests at a time.
    pub open spec fn has_requests_at(self, timestamp: u64) -> bool {
        self.spec_chain().condition(EthereumHardfork::Prague).is_active_at_timestamp(timestamp)
    }

    /// The output can be collected: the gas can be counted, and the receipts, where the chain has
    /// requests at all, can be handed to `requests`.
    pub open spec fn is_collectable<V, Q, Y, F>(
        self,
        evm: V,
        transactions: Seq<TransactionInfo>,
        block_gas_limit: u128,
        timestamp: u64,
        requests: F,
    ) -> bool where F: FnOnce(V, &Vec<Receipt<L>>) -> (V, Result<BlockRequests<Q>, Y>) {
        self@.abort_reason is None && self@.is_finished() ==> {
            &&& block_output::gas_is_countable(transactions, self@.outcomes(), block_gas_limit)
            &&& self.has_requests_at(timestamp) ==> forall|receipts: Vec<Receipt<L>>, gas_used: u64|
                #[trigger]
                block_output::are_receipts(
                    transactions,
                    self@.outcomes(),
                    receipts@,
                    gas_used,
                ) ==> call_requires(requests, (evm, &receipts))
        }
    }

    /// The output of a block, once the workers have left.
    pub fn collect_output<V, Q, Y, F>(
        self,
        evm: V,
        transactions: &Vec<TransactionInfo>,
        block_gas_limit: u128,
        timestamp: u64,
        requests: F,
    ) -> (result: (
        V,
        Result<ParallelEthExecuteOutput<L, Q>, BlockExecutionError<X, Y>>,
    )) where F: FnOnce(V, &Vec<Receipt<L>>) -> (V, Result<BlockRequests<Q>, Y>)
        requires
            self.is_collectable(evm, transactions@, block_gas_limit, timestamp, requests),
        ensures
            self.collects(evm, transactions@, block_gas_limit, timestamp, requests, result),
    {
        if let Some(reason) = self.abort_reason {
            return (evm, Err(BlockExecutionError::Aborted(reason)));
        }
        let outcomes = match block_output::all_results(self.execution_results) {
            Some(outcomes) => outcomes,
            None => return (evm, Err(BlockExecutionError::Unfinished)),
        };
        assert(outcomes@ =~= self@.outcomes());
        let (receipts, gas_used) = match block_output::collect_receipts(
            transactions,
            outcomes,
            block_gas_limit,
        ) {
            Ok(collected) => collected,
            Err(error) => return (evm, Err(BlockExecutionError::Validation(error))),
        };
        if !self.chain_spec.fork(EthereumHardfork::Prague).active_at_timestamp(timestamp) {
            return (
                evm,
                Ok(ParallelEthExecuteOutput { receipts, requests: Vec::new(), gas_used }),
            );
        }
        let asked = requests(evm, &receipts);
        let ghost given = asked;
        let (after, found) = asked;
        match found {
            Ok(found) => {
                let collected = block_output::collect_requests(&self.chain_spec, timestamp, found);
                let output = ParallelEthExecuteOutput { receipts, requests: collected, gas_used };
                assert(output.requests@ == block_output::requests_at(
                    self.spec_chain(),
                    timestamp,
                    found,
                ));
                assert(call_ensures(requests, (evm, &output.receipts), given));
                (after, Ok(output))
            },
            Err(error) => {
                assert(block_output::are_receipts(
                    transactions@,
                    self@.outcomes(),
                    receipts@,
                    gas_used,
                ));
                assert(call_ensures(requests, (evm, &receipts), (after, Err(error))));
                (after, Err(BlockExecutionError::Requests(error)))
            },
        }
    }

    /// What the execution of the transactions of a block gives: the calls of system contracts come
    /// first, `run` has the workers execute the transactions only where both succeeded, and the
    /// output is collected only where the workers could be started.
    pub open spec fn executes<V, Q, Y, B, H, W, F>(
        self,
        evm: V,
        beacon_root: B,
        block_hashes: H,
        run: W,
        transactions: Seq<TransactionInfo>,
        block_gas_limit: u128,
        timestamp: u64,
        requests: F,
        result: (V, Result<ParallelEthExecuteOutput<L, Q>, BlockExecutionError<X, Y>>),
    ) -> bool where
        B: FnOnce(V) -> (V, Result<(), Y>),
        H: FnOnce(V) -> (V, Result<(), Y>),
        W: FnOnce(Self, V) -> (V, Result<Self, Y>),
        F: FnOnce(V, &Vec<Receipt<L>>) -> (V, Result<BlockRequests<Q>, Y>),
     {
        exists|prepared: (V, Result<(), Y>)|
            {
                &&& #[trigger] pre_executes(evm, beacon_root, block_hashes, prepared)
                &&& match prepared.1 {
                    Err(error) => {
                        &&& result.0 == prepared.0
                        &&& result.1 == Err::<
                            ParallelEthExecuteOutput<L, Q>,
                            BlockExecutionError<X, Y>,
                        >(BlockExecutionError::PreExecution(error))
                    },
                    Ok(_) => exists|ran: (V, Result<Self, Y>)|
                        {
                            &&& #[trigger] call_ensures(run, (self, prepared.0), ran)
                            &&& match ran.1 {
                                Err(error) => {
                                    &&& result.0 == ran.0
                                    &&& result.1 == Err::<
                                        ParallelEthExecuteOutput<L, Q>,
                                        BlockExecutionError<X, Y>,
                                    >(BlockExecutionError::Workers(error))
                                },
                                Ok(after) => after.collects(
                                    ran.0,
                                    transactions,
                                    block_gas_limit,
                                    timestamp,
                                    requests,
                                    result,
                                ),
                            }
                        },
                }
            }
    }

    /// Executes the transactions of a block.
    ///
    /// `beacon_root` and `block_hashes` call the system contracts that come before the
    /// transactions, `run` has the workers execute the transactions, and `requests` collects the
    /// requests of the block. Each of them is handed the EVM and gives it back. None is called once
    /// one before it has failed.
    pub fn execute_state_transitions<V, Q, Y, B, H, W, F>(
        self,
        evm: V,
        beacon_root: B,
        block_hashes: H,
        run: W,
        transactions: &Vec<TransactionInfo>,
        block_gas_limit: u128,
        timestamp: u64,
        requests: F,
    ) -> (result: (
        V,
        Result<ParallelEthExecuteOutput<L, Q>, BlockExecutionError<X, Y>>,
    )) where
        B: FnOnce(V) -> (V, Result<(), Y>),
        H: FnOnce(V) -> (V, Result<(), Y>),
        W: FnOnce(Self, V) -> (V, Result<Self, Y>),
        F: FnOnce(V, &Vec<Receipt<L>>) -> (V, Result<BlockRequests<Q>, Y>),

        requires
            call_requires(beacon_root, (evm,)),
            forall|first: (V, Result<(), Y>)|
                #[trigger] call_ensures(beacon_root, (evm,), first) && first.1 is Ok ==> call_requires(
                    block_hashes,
                    (first.0,),
                ),
            forall|prepared: (V, Result<(), Y>)| #[trigger]
                pre_executes(evm, beacon_root, block_hashes, prepared) && prepared.1 is Ok
                    ==> call_requires(run, (self, prepared.0)),
            forall|prepared: (V, Result<(), Y>), ran: (V, Result<Self, Y>)|
                #![trigger pre_executes(evm, beacon_root, block_hashes, prepared), call_ensures(
                    run,
                    (self, prepared.0),
                    ran,
                )]
                pre_executes(evm, beacon_root, block_hashes, prepared) && prepared.1 is Ok
                    && call_ensures(run, (self, prepared.0), ran) ==> (ran.1 matches Ok(after)
                    ==> after.is_collectable(
                    ran.0,
                    transactions@,
                    block_gas_limit,
                    timestamp,
                    requests,
                )),
        ensures
            self.executes(
                evm,
                beacon_root,
                block_hashes,
                run,
                transactions@,
                block_gas_limit,
                timestamp,
                requests,
                result,
            ),
    {
        let prepared = apply_pre_execution(evm, beacon_root, block_hashes);
        let (evm, called) = prepared;
        if let Err(error) = called {
            return (evm, Err(BlockExecutionError::PreExecution(error)));
        }
        let ran = run(self, evm);
        assert(call_ensures(run, (self, prepared.0), ran));
        let (evm, after) = ran;
        match after {
            Err(error) => (evm, Err(BlockExecutionError::Workers(error))),
            Ok(after) => {
                after.collect_output(evm, transactions, block_gas_limit, timestamp, requests)
            },
        }
    }
}

/// What the calls of system contracts before the transactions of a block give: the second one is
/// made only where the first succeeded, and an error is that of the first call that failed.
pub open spec fn pre_executes<V, Y, B, H>(
    evm: V,
    beacon_root: B,
    block_hashes: H,
    result: (V, Result<(), Y>),
) -> bool where B: FnOnce(V) -> (V, Result<(), Y>), H: FnOnce(V) -> (V, Result<(), Y>) {
    exists|first: (V, Result<(), Y>)|
        {
            &&& #[trigger] call_ensures(beacon_root, (evm,), first)
            &&& match first.1 {
                Err(_) => result == first,
                Ok(_) => call_ensures(block_hashes, (first.0,), result),
            }
        }
}

/// Calls the system contracts that come before the transactions of a block: that for the root of
/// the beacon block, and then that for the hashes of blocks, which is called only where the first
/// call succeeded.
pub fn apply_pre_execution<V, Y, B, H>(
    evm: V,
    beacon_root: B,
    block_hashes: H,
) -> (result: (V, Result<(), Y>)) where
    B: FnOnce(V) -> (V, Result<(), Y>),
    H: FnOnce(V) -> (V, Result<(), Y>),

    requires
        call_requires(beacon_root, (evm,)),
        forall|first: (V, Result<(), Y>)|
            #[trigger] call_ensures(beacon_root, (evm,), first) && first.1 is Ok ==> call_requires(
                block_hashes,
                (first.0,),
            ),
    ensures
        pre_executes(evm, beacon_root, block_hashes, result),
{
    let first = beacon_root(evm);
    if first.1.is_err() {
        return first;
    }
    block_hashes(first.0)
}

/// A failed call of a system contract ends the block with its error: nothing is made of the EVM
/// that the call has left.
pub proof fn lemma_failed_pre_execution_ends_block<C, L, X, V, Q, Y, B, H, W, F>(
    executor: ParallelEthEvmExecutor<C, ExecutionResult<L>, X>,
    evm: V,
    beacon_root: B,
    block_hashes: H,
    run: W,
    transactions: Seq<TransactionInfo>,
    block_gas_limit: u128,
    timestamp: u64,
    requests: F,
    result: (V, Result<ParallelEthExecuteOutput<L, Q>, BlockExecutionError<X, Y>>),
    left: V,
    error: Y,
) where
    B: FnOnce(V) -> (V, Result<(), Y>),
    H: FnOnce(V) -> (V, Result<(), Y>),
    W: FnOnce(
        ParallelEthEvmExecutor<C, ExecutionResult<L>, X>,
        V,
    ) -> (V, Result<ParallelEthEvmExecutor<C, ExecutionResult<L>, X>, Y>),
    F: FnOnce(V, &Vec<Receipt<L>>) -> (V, Result<BlockRequests<Q>, Y>),

    requires
        executor.executes(
            evm,
            beacon_root,
            block_hashes,
            run,
            transactions,
            block_gas_limit,
            timestamp,
            requests,
            result,
        ),
        forall|prepared: (V, Result<(), Y>)| #[trigger]
            pre_executes(evm, beacon_root, block_hashes, prepared) ==> prepared == (
                left,
                Err::<(), Y>(error),
            ),
    ensures
        result.0 == left,
        result.1 == Err::<ParallelEthExecuteOutput<L, Q>, BlockExecutionError<X, Y>>(
            BlockExecutionError::PreExecution(error),
        ),
{
}

/// The first reason for which a block was given up is the one that stays, whatever is attempted and
/// recorded afterwards, and nothing is attempted a second time.
pub proof fn lemma_abort_is_final<R, X, F>(
    before: ExecutionState<R, X>,
    tx_version: TxVersion,
    outcome: Result<VmExecutionResult<R, F>, VmExecutionError<X>>,
    after: ExecutionState<R, X>,
    action: ExecuteAction<F, X>,
    reason: AbortReason<X>,
)
    requires
        before.abort_reason is Some,
        before.attempt(tx_version, outcome, after, action),
    ensures
        after.abort_reason == before.abort_reason,
        after.abort(reason) == after,
        !(action is Retry),
{
}

/// A block is given up exactly where the EVM failed or asked for a sequential execution. The
/// attempt itself records no reason: that is done once the scheduler was told, and then there is
/// one.
pub proof fn lemma_scheduler_is_told_first<R, X, F>(
    before: ExecutionState<R, X>,
    tx_version: TxVersion,
    outcome: Result<VmExecutionResult<R, F>, VmExecutionError<X>>,
    after: ExecutionState<R, X>,
    action: ExecuteAction<F, X>,
)
    requires
        before.attempt(tx_version, outcome, after, action),
    ensures
        after.abort_reason == before.abort_reason,
        action is AbortScheduler <==> (outcome matches Err(error) && (
        error is FallbackToSequential || error is ExecutionError)),
        action matches ExecuteAction::AbortScheduler { reason } ==> after.abort(
            reason,
        ).abort_reason is Some,
{
}

/// An attempt writes at most the result of its own transaction, and does so exactly where it
/// succeeds.
pub proof fn lemma_attempt_writes_own_result<R, X, F>(
    before: ExecutionState<R, X>,
    tx_version: TxVersion,
    outcome: Result<VmExecutionResult<R, F>, VmExecutionError<X>>,
    after: ExecutionState<R, X>,
    action: ExecuteAction<F, X>,
)
    requires
        before.attempt(tx_version, outcome, after, action),
        outcome is Ok ==> tx_version.tx_idx < before.results.len(),
    ensures
        after.results.len() == before.results.len(),
        forall|i: int|
            0 <= i < before.results.len() && i != tx_version.tx_idx ==> #[trigger] after.results[i]
                == before.results[i],
        outcome matches Ok(success) ==> after.results[tx_version.tx_idx as int] == Some(
            success.execution_result,
        ),
        outcome is Err ==> after.results == before.results,
{
}

/// A worker leaves only where the scheduler has no task for it or the block was given up: after a
/// task that gives no further one it asks again.
pub proof fn lemma_worker_leaves_only_when_done(
    fetched: Option<Task>,
    next: Option<Task>,
    aborted: bool,
)
    ensures
        fetch_leads_to(fetched) == WorkerAction::Stop <==> fetched is None,
        run_leads_to(next, aborted) == WorkerAction::Stop <==> aborted,
{
}

/// Where an execution has read what it should have read, the validation only tells the scheduler
/// that the execution stands. Where it has not but was not aborted, nothing that it has written
/// becomes estimates either.
pub proof fn lemma_only_aborted_writes_are_converted<M, R, A, C, N>(
    memory: M,
    tx_version: TxVersion,
    reads: R,
    abort: A,
    convert: C,
    finish: N,
    result: (M, Option<Task>),
) where
    R: FnOnce(M, usize) -> (M, bool),
    A: FnOnce(M, TxVersion) -> (M, bool),
    C: FnOnce(M, usize) -> M,
    N: FnOnce(M, TxVersion, bool) -> (M, Option<Task>),

    requires
        validates(memory, tx_version, reads, abort, convert, finish, result),
    ensures
        (forall|read: (M, bool)| #[trigger]
            call_ensures(reads, (memory, tx_version.tx_idx), read) ==> read.1) ==> exists|read: M|
            {
                &&& #[trigger] call_ensures(reads, (memory, tx_version.tx_idx), (read, true))
                &&& call_ensures(finish, (read, tx_version, false), result)
            },
        (forall|read: M, asked: (M, bool)| #[trigger]
            call_ensures(abort, (read, tx_version), asked) ==> !asked.1) ==> exists|left: M|
            #[trigger] call_ensures(finish, (left, tx_version, false), result),
{
    let read = choose|read: (M, bool)|
        {
            &&& #[trigger] call_ensures(reads, (memory, tx_version.tx_idx), read)
            &&& if read.1 {
                call_ensures(finish, (read.0, tx_version, false), result)
            } else {
                exists|asked: (M, bool)|
                    {
                        &&& #[trigger] call_ensures(abort, (read.0, tx_version), asked)
                        &&& if asked.1 {
                            exists|converted: M|
                                {
                                    &&& #[trigger] call_ensures(
                                        convert,
                                        (asked.0, tx_version.tx_idx),
                                        converted,
                                    )
                                    &&& call_ensures(finish, (converted, tx_version, true), result)
                                }
                        } else {
                            call_ensures(finish, (asked.0, tx_version, false), result)
                        }
                    }
            }
        };
    assert(read == (read.0, read.1));
}

/// The results of different transactions can come in any order.
pub proof fn lemma_results_come_in_any_order<R, X>(
    state: ExecutionState<R, X>,
    one: int,
    one_result: R,
    other: int,
    other_result: R,
)
    requires
        0 <= one < state.results.len(),
        0 <= other < state.results.len(),
        one != other,
    ensures
        state.store(one, one_result).store(other, other_result) == state.store(
            other,
            other_result,
        ).store(one, one_result),
{
    assert(state.results.update(one, Some(one_result)).update(other, Some(other_result))
        =~= state.results.update(other, Some(other_result)).update(one, Some(one_result)));
}

/// The requests of the block could not be collected.
pub open spec fn requests_failed<L, Q, X, Y>(
    result: Result<ParallelEthExecuteOutput<L, Q>, BlockExecutionError<X, Y>>,
) -> bool {
    result matches Err(error) && error is Requests
}

/// Two executions gave the same receipts and the same gas, or the same error.
pub open spec fn is_same_output<L, Q, X, Y>(
    one: Result<ParallelEthExecuteOutput<L, Q>, BlockExecutionError<X, Y>>,
    other: Result<ParallelEthExecuteOutput<L, Q>, BlockExecutionError<X, Y>>,
) -> bool {
    match (one, other) {
        (Ok(output), Ok(other_output)) => {
            &&& output.receipts@ == other_output.receipts@
            &&& output.gas_used == other_output.gas_used
        },
        (Err(error), Err(other_error)) => error == other_error,
        _ => false,
    }
}

/// The receipts and the gas of a block, or the error, are those of the results of its transactions
/// alone: two executions with the same results give the same, by however many workers and in
/// whatever order the results came, also where one of them executed the transactions one after the
/// other.
pub proof fn lemma_output_follows_from_results<C, D, L, X, V, Q, Y, F, G>(
    one: ParallelEthEvmExecutor<C, ExecutionResult<L>, X>,
    other: ParallelEthEvmExecutor<D, ExecutionResult<L>, X>,
    evm: V,
    other_evm: V,
    transactions: Seq<TransactionInfo>,
    block_gas_limit: u128,
    timestamp: u64,
    requests: F,
    other_requests: G,
    result: (V, Result<ParallelEthExecuteOutput<L, Q>, BlockExecutionError<X, Y>>),
    other_result: (V, Result<ParallelEthExecuteOutput<L, Q>, BlockExecutionError<X, Y>>),
) where
    F: FnOnce(V, &Vec<Receipt<L>>) -> (V, Result<BlockRequests<Q>, Y>),
    G: FnOnce(V, &Vec<Receipt<L>>) -> (V, Result<BlockRequests<Q>, Y>),

    requires
        one@ == other@,
        one.collects(evm, transactions, block_gas_limit, timestamp, requests, result),
        other.collects(
            other_evm,
            transactions,
            block_gas_limit,
            timestamp,
            other_requests,
            other_result,
        ),
    ensures
        !requests_failed(result.1) && !requests_failed(other_result.1) ==> is_same_output(
            result.1,
            other_result.1,
        ),
{
    if let (Ok(output), Ok(other_output)) = (result.1, other_result.1) {
        block_output::lemma_receipts_are_unique(
            transactions,
            one@.outcomes(),
            output.receipts@,
            output.gas_used,
            other_output.receipts@,
            other_output.gas_used,
        );
    }
    if let (
        Err(BlockExecutionError::Validation(error)),
        Err(BlockExecutionError::Validation(other_error)),
    ) = (result.1, other_result.1) {
        block_output::lemma_refusal_is_unique(
            transactions,
            one@.outcomes(),
            block_gas_limit,
            error,
            other_error,
        );
    }
}

} // verus!
