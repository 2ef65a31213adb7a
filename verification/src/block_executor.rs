//! The execution of a block from end to end: what is prepared before its transactions run, and what
//! changes after they did.

use std::sync::Arc;
use vstd::prelude::*;
use crate::block_output::{BlockValidationError, ParallelEthExecuteOutput, Receipt};
use crate::config::{self, ConfigureEvmEnv};
use crate::env::{AnalysisKind, BlockEnv, CfgEnvWithHandlerCfg, Env, Header, SpecId, TxEnv};
use crate::hardfork::{ChainSpec, EthereumHardfork};
use crate::parallel::{BlockExecutionError, ParallelEthEvmExecutor};
use crate::primitives::{Address, U256};

verus! {

/// By how much the balances of accounts grow, each account once.
///
/// Its view gives the amount of each account that it holds.
#[derive(Debug)]
pub struct BalanceIncrements {
    entries: Vec<(Address, u128)>,
}

/// The amount of each account in a list of entries. A later entry overrides an earlier one.
pub open spec fn amounts(entries: Seq<(Address, u128)>) -> Map<Address, u128>
    decreases entries.len(),
{
    if entries.len() == 0 {
        Map::empty()
    } else {
        amounts(entries.drop_last()).insert(entries.last().0, entries.last().1)
    }
}

/// The amount of an account, zero where it has none.
pub open spec fn amount_of(increments: Map<Address, u128>, account: Address) -> u128 {
    if increments.contains_key(account) {
        increments[account]
    } else {
        0
    }
}

/// The sum of some amounts.
pub open spec fn total(values: Seq<u128>) -> int
    decreases values.len(),
{
    if values.len() == 0 {
        0
    } else {
        total(values.drop_last()) + values.last()
    }
}

/// Accounts of a list without repetition have the amounts of their own entries.
pub proof fn lemma_amounts_by_entry(entries: Seq<(Address, u128)>)
    requires
        distinct_accounts(entries),
    ensures
        forall|i: int|
            0 <= i < entries.len() ==> amounts(entries).contains_key((#[trigger] entries[i]).0)
                && amounts(entries)[entries[i].0] == entries[i].1,
        forall|account: Address| #[trigger]
            amounts(entries).contains_key(account) ==> exists|i: int|
                0 <= i < entries.len() && (#[trigger] entries[i]).0 == account,
    decreases entries.len(),
{
    if entries.len() > 0 {
        let rest = entries.drop_last();
        assert(distinct_accounts(rest)) by {
            assert forall|i: int, j: int| 0 <= i < j < rest.len() implies (#[trigger] rest[i]).0
                != (#[trigger] rest[j]).0 by {
                assert(entries[i].0 != entries[j].0);
            }
        }
        lemma_amounts_by_entry(rest);
        assert forall|i: int| 0 <= i < entries.len() implies amounts(entries).contains_key(
            (#[trigger] entries[i]).0,
        ) && amounts(entries)[entries[i].0] == entries[i].1 by {
            if i < rest.len() {
                assert(rest[i] == entries[i]);
            }
        }
        assert forall|account: Address| #[trigger] amounts(entries).contains_key(
            account,
        ) implies exists|i: int|
            0 <= i < entries.len() && (#[trigger] entries[i]).0 == account by {
            if account == entries.last().0 {
                assert(entries[entries.len() - 1].0 == account);
            } else {
                assert(amounts(rest).contains_key(account));
                let i = choose|i: int| 0 <= i < rest.len() && (#[trigger] rest[i]).0 == account;
                assert(entries[i].0 == account);
            }
        }
    }
}

/// No account occurs twice.
pub open spec fn distinct_accounts(entries: Seq<(Address, u128)>) -> bool {
    forall|i: int, j: int|
        0 <= i < j < entries.len() ==> (#[trigger] entries[i]).0 != (#[trigger] entries[j]).0
}

impl View for BalanceIncrements {
    type V = Map<Address, u128>;

    closed spec fn view(&self) -> Map<Address, u128> {
        amounts(self.entries@)
    }
}

impl BalanceIncrements {
    /// No account occurs twice.
    pub closed spec fn wf(self) -> bool {
        distinct_accounts(self.entries@)
    }

    /// No balance grows.
    pub fn new() -> (result: BalanceIncrements)
        ensures
            result.wf(),
            result@ == Map::<Address, u128>::empty(),
    {
        BalanceIncrements { entries: Vec::new() }
    }

    /// Lets the balance of an account grow by a further amount.
    pub fn increase(&mut self, account: Address, amount: u128)
        requires
            old(self).wf(),
            amount_of(old(self)@, account) + amount <= u128::MAX,
        ensures
            final(self).wf(),
            final(self)@ == old(self)@.insert(
                account,
                (amount_of(old(self)@, account) + amount) as u128,
            ),
    {
        let ghost before = self.entries@;
        proof {
            lemma_amounts_by_entry(before);
        }
        let mut i: usize = 0;
        while i < self.entries.len()
            invariant
                i <= self.entries.len(),
                self.entries@ == before,
                self@ == amounts(before),
                *old(self) == *self,
                distinct_accounts(before),
                amount_of(self@, account) + amount <= u128::MAX,
                forall|j: int|
                    0 <= j < before.len() ==> amounts(before).contains_key(
                        (#[trigger] before[j]).0,
                    ) && amounts(before)[before[j].0] == before[j].1,
                forall|j: int| 0 <= j < i ==> (#[trigger] before[j]).0 != account,
            decreases self.entries.len() - i,
        {
            if self.entries[i].0.same(&account) {
                assert(before[i as int].0 == account);
                let grown: u128 = self.entries[i].1 + amount;
                self.entries.set(i, (account, grown));
                proof {
                    let after = self.entries@;
                    assert(distinct_accounts(after)) by {
                        assert forall|j: int, k: int| 0 <= j < k < after.len() implies (
                        #[trigger] after[j]).0 != (#[trigger] after[k]).0 by {
                            assert(before[j].0 != before[k].0);
                        }
                    }
                    lemma_amounts_by_entry(after);
                    lemma_amounts_by_entry(before);
                    let expected = amounts(before).insert(account, grown);
                    assert forall|other: Address| #[trigger]
                        amounts(after).contains_key(other) == expected.contains_key(other) by {
                        if amounts(after).contains_key(other) {
                            let k = choose|k: int|
                                0 <= k < after.len() && (#[trigger] after[k]).0 == other;
                            assert(before[k].0 == other);
                        }
                        if expected.contains_key(other) {
                            if other == account {
                                assert(after[i as int].0 == other);
                            } else {
                                let k = choose|k: int|
                                    0 <= k < before.len() && (#[trigger] before[k]).0 == other;
                                assert(after[k].0 == other);
                            }
                        }
                    }
                    assert forall|other: Address| #[trigger]
                        amounts(after).contains_key(other) implies amounts(after)[other]
                        == expected[other] by {
                        let k = choose|k: int|
                            0 <= k < after.len() && (#[trigger] after[k]).0 == other;
                        assert(before[k].0 == other);
                    }
                    assert(amounts(after) =~= expected);
                }
                return;
            }
            i = i + 1;
        }
        self.entries.push((account, amount));
        proof {
            let after = self.entries@;
            assert(after.drop_last() =~= before);
            lemma_amounts_by_entry(before);
            assert(!amounts(before).contains_key(account));
            assert(distinct_accounts(after)) by {
                assert forall|j: int, k: int| 0 <= j < k < after.len() implies (
                #[trigger] after[j]).0 != (#[trigger] after[k]).0 by {
                    if k < before.len() {
                        assert(before[j].0 != before[k].0);
                    } else {
                        assert(before[j].0 != account);
                    }
                }
            }
        }
    }

    /// The amounts, one entry for each account.
    pub fn entries(&self) -> (result: &Vec<(Address, u128)>)
        requires
            self.wf(),
        ensures
            distinct_accounts(result@),
            amounts(result@) == self@,
    {
        &self.entries
    }
}

/// The sum of some amounts that fits in 128 bits.
pub fn sum(values: &Vec<u128>) -> (result: u128)
    requires
        total(values@) <= u128::MAX,
    ensures
        result == total(values@),
{
    let mut result: u128 = 0;
    let mut i: usize = 0;
    assert(values@.take(0) =~= Seq::empty());
    while i < values.len()
        invariant
            i <= values.len(),
            result == total(values@.take(i as int)),
            total(values@) <= u128::MAX,
        decreases values.len() - i,
    {
        proof {
            lemma_total_grows(values@, i + 1);
            assert(values@.take(i + 1).drop_last() =~= values@.take(i as int));
        }
        result = result + values[i];
        i = i + 1;
    }
    assert(values@.take(values.len() as int) =~= values@);
    result
}

/// The sum of the first few amounts is not above the sum of all.
proof fn lemma_total_grows(values: Seq<u128>, count: int)
    requires
        0 <= count <= values.len(),
    ensures
        0 <= total(values.take(count)) <= total(values),
    decreases values.len(),
{
    if count == values.len() {
        assert(values.take(count) =~= values);
        if count > 0 {
            lemma_total_grows(values.drop_last(), count - 1);
            assert(values.drop_last().take(count - 1) =~= values.drop_last());
        }
    } else {
        lemma_total_grows(values.drop_last(), count);
        assert(values.drop_last().take(count) =~= values.take(count));
    }
}

/// A sum of amounts is not negative.
pub proof fn lemma_total_is_not_negative(values: Seq<u128>)
    ensures
        total(values) >= 0,
{
    lemma_total_grows(values, values.len() as int);
}

/// What the execution of a block gives, with the state that it leaves. `S` is the type of the
/// state.
#[derive(Debug, PartialEq, Eq)]
pub struct BlockExecutionOutput<S, L, Q> {
    pub state: S,
    pub receipts: Vec<Receipt<L>>,
    pub requests: Vec<Q>,
    pub gas_used: u64,
}

/// Executes a block on a state. `S` is the type of the state.
#[derive(Debug)]
pub struct ParallelEthBlockExecutor<C, R, X, S> {
    executor: ParallelEthEvmExecutor<C, R, X>,
    state: S,
}

impl<C, R, X, S> ParallelEthBlockExecutor<C, R, X, S> {
    /// The executor of the transactions.
    pub closed spec fn spec_executor(self) -> ParallelEthEvmExecutor<C, R, X> {
        self.executor
    }

    /// The state that the block is executed on.
    pub closed spec fn spec_state(self) -> S {
        self.state
    }

    /// The chain of the block.
    pub open spec fn spec_chain(self) -> ChainSpec {
        self.spec_executor().spec_chain()
    }

    /// An executor for a block on a state.
    pub fn new(chain_spec: Arc<ChainSpec>, evm_config: C, state: S) -> (result: Self)
        ensures
            result.spec_chain() == *chain_spec,
            result.spec_executor().spec_evm_config() == evm_config,
            result.spec_executor()@.results == Seq::<Option<R>>::empty(),
            result.spec_executor()@.abort_reason is None,
            result.spec_state() == state,
    {
        ParallelEthBlockExecutor {
            executor: ParallelEthEvmExecutor::new(chain_spec, evm_config),
            state,
        }
    }

    /// The chain of the block.
    pub fn chain_spec(&self) -> (result: &ChainSpec)
        ensures
            *result == self.spec_chain(),
    {
        self.executor.chain_spec()
    }

    /// The state that the block is executed on.
    pub fn state_mut(&mut self) -> (result: &mut S)
        ensures
            *result == old(self).spec_state(),
            final(self).spec_state() == *final(result),
            final(self).spec_executor() == old(self).spec_executor(),
    {
        &mut self.state
    }

    /// The executor of the transactions.
    pub fn executor_mut(&mut self) -> (result: &mut ParallelEthEvmExecutor<C, R, X>)
        ensures
            *result == old(self).spec_executor(),
            final(self).spec_executor() == *final(result),
            final(self).spec_state() == old(self).spec_state(),
    {
        &mut self.executor
    }

    /// Whether the state is to clear empty accounts in the block: it is from Spurious Dragon on.
    pub fn on_new_block(&self, header: &Header) -> (state_clear_flag: bool)
        ensures
            state_clear_flag == self.clears_state_at(header.number),
    {
        self.chain_spec().fork(EthereumHardfork::SpuriousDragon).active_at_block(header.number)
    }

    /// The block is the one at which the DAO is drained.
    pub open spec fn is_dao_block(self, number: u64) -> bool {
        self.spec_chain().condition(EthereumHardfork::Dao).is_transition(number)
    }

    /// Whether the block is the one at which the DAO is drained.
    pub fn drains_dao(&self, number: u64) -> (result: bool)
        ensures
            result == self.is_dao_block(number),
    {
        self.chain_spec().fork(EthereumHardfork::Dao).transitions_at_block(number)
    }

    /// By how much balances grow after the transactions of a block.
    ///
    /// `increments` are the rewards and withdrawals of the block. At the block at which the DAO is
    /// drained, `drained` holds the balances that were taken from its accounts, or why they could
    /// not be, and their sum goes to `beneficiary`. At another block `drained` is not looked at.
    pub fn post_execution<Y>(
        &self,
        number: u64,
        increments: BalanceIncrements,
        drained: Result<Vec<u128>, Y>,
        beneficiary: Address,
    ) -> (result: Result<BalanceIncrements, BlockValidationError>)
        requires
            increments.wf(),
            self.is_dao_block(number) ==> (drained matches Ok(balances) ==> amount_of(
                increments@,
                beneficiary,
            ) + total(balances@) <= u128::MAX),
        ensures
            result matches Ok(changes) ==> changes.wf(),
            if self.is_dao_block(number) {
                match drained {
                    Ok(balances) => result is Ok && result->Ok_0@ == increments@.insert(
                        beneficiary,
                        (amount_of(increments@, beneficiary) + total(balances@)) as u128,
                    ),
                    Err(_) => result == Err::<BalanceIncrements, BlockValidationError>(
                        BlockValidationError::IncrementBalanceFailed,
                    ),
                }
            } else {
                result == Ok::<BalanceIncrements, BlockValidationError>(increments)
            },
    {
        let mut balance_increments = increments;
        if self.drains_dao(number) {
            match drained {
                Ok(balances) => {
                    proof {
                        lemma_total_grows(balances@, 0);
                    }
                    let drained_balance: u128 = sum(&balances);
                    balance_increments.increase(beneficiary, drained_balance);
                },
                Err(_) => {
                    return Err(BlockValidationError::IncrementBalanceFailed);
                },
            }
        }
        Ok(balance_increments)
    }

    /// What the changes of balances after the transactions of a block give.
    ///
    /// `drain` is called only at the block at which the DAO is drained, and `increment` only where
    /// the changes can be told. A failure of either is a failure to change the balances.
    pub open spec fn settles<Z, D, I>(
        self,
        number: u64,
        increments: BalanceIncrements,
        beneficiary: Address,
        drain: D,
        increment: I,
        result: (Self, Result<(), BlockValidationError>),
    ) -> bool where
        D: FnOnce(S) -> (S, Result<Vec<u128>, Z>),
        I: FnOnce(S, BalanceIncrements) -> (S, Result<(), Z>),
     {
        &&& result.0.spec_executor() == self.spec_executor()
        &&& if self.is_dao_block(number) {
            exists|drained: (S, Result<Vec<u128>, Z>)|
                {
                    &&& #[trigger] call_ensures(drain, (self.spec_state(),), drained)
                    &&& match drained.1 {
                        Err(_) => {
                            &&& result.0.spec_state() == drained.0
                            &&& result.1 == Err::<(), BlockValidationError>(
                                BlockValidationError::IncrementBalanceFailed,
                            )
                        },
                        Ok(balances) => exists|changes: BalanceIncrements|
                            {
                                &&& changes.wf()
                                &&& changes@ == increments@.insert(
                                    beneficiary,
                                    (amount_of(increments@, beneficiary) + total(
                                        balances@,
                                    )) as u128,
                                )
                                &&& #[trigger] increments_give(
                                    increment,
                                    drained.0,
                                    changes,
                                    result.0.spec_state(),
                                    result.1,
                                )
                            },
                    }
                }
        } else {
            increments_give(
                increment,
                self.spec_state(),
                increments,
                result.0.spec_state(),
                result.1,
            )
        }
    }

    /// Changes the balances after the transactions of a block.
    ///
    /// `increments` are the rewards and withdrawals of the block. At the block at which the DAO is
    /// drained, `drain` takes the balances of its accounts out of the state, and their sum goes to
    /// `beneficiary`. `increment` adds the changes to the state.
    pub fn settle<Z, D, I>(
        self,
        number: u64,
        increments: BalanceIncrements,
        beneficiary: Address,
        drain: D,
        increment: I,
    ) -> (result: (Self, Result<(), BlockValidationError>)) where
        D: FnOnce(S) -> (S, Result<Vec<u128>, Z>),
        I: FnOnce(S, BalanceIncrements) -> (S, Result<(), Z>),

        requires
            increments.wf(),
            self.is_dao_block(number) ==> call_requires(drain, (self.spec_state(),)),
            forall|drained: (S, Result<Vec<u128>, Z>)|
                self.is_dao_block(number) && #[trigger] call_ensures(
                    drain,
                    (self.spec_state(),),
                    drained,
                ) ==> (drained.1 matches Ok(balances) ==> {
                    &&& amount_of(increments@, beneficiary) + total(balances@) <= u128::MAX
                    &&& forall|changes: BalanceIncrements| #[trigger]
                        changes.wf() ==> call_requires(increment, (drained.0, changes))
                }),
            !self.is_dao_block(number) ==> call_requires(
                increment,
                (self.spec_state(), increments),
            ),
        ensures
            self.settles(number, increments, beneficiary, drain, increment, result),
    {
        if !self.drains_dao(number) {
            let added = increment(self.state, increments);
            let (state, changed) = added;
            let after = ParallelEthBlockExecutor { executor: self.executor, state };
            assert(call_ensures(increment, (self.spec_state(), increments), added));
            return (after, balances_changed(changed));
        }
        let drained = drain(self.state);
        assert(call_ensures(drain, (self.spec_state(),), drained));
        let ghost given = drained;
        let (state, balances) = drained;
        let after = ParallelEthBlockExecutor { executor: self.executor, state };
        match after.post_execution(number, increments, balances, beneficiary) {
            Err(error) => (after, Err(error)),
            Ok(changes) => {
                let added = increment(after.state, changes);
                assert(call_ensures(increment, (given.0, changes), added));
                let (state, changed) = added;
                let after = ParallelEthBlockExecutor { executor: after.executor, state };
                let result = (after, balances_changed(changed));
                assert(increments_give(
                    increment,
                    given.0,
                    changes,
                    result.0.spec_state(),
                    result.1,
                ));
                result
            },
        }
    }

    /// What the execution of a block gives, from its preparation to the changes of balances.
    ///
    /// The state is told first whether it clears empty accounts, then the transactions are
    /// executed. Where that failed, its error is the result, and no balance changes. Else the
    /// balances change, once, and the result is the output of the transactions, or why the balances
    /// could not be changed.
    pub open spec fn runs<L, Q, Y, P, E, A>(
        self,
        header: Header,
        prepare: P,
        transact: E,
        settle: A,
        result: (Self, Result<ParallelEthExecuteOutput<L, Q>, BlockExecutionError<X, Y>>),
    ) -> bool where
        P: FnOnce(S, bool) -> S,
        E: FnOnce(Self) -> (
            Self,
            Result<ParallelEthExecuteOutput<L, Q>, BlockExecutionError<X, Y>>,
        ),
        A: FnOnce(Self) -> (Self, Result<(), BlockValidationError>),
     {
        exists|
            prepared: Self,
            executed: (Self, Result<ParallelEthExecuteOutput<L, Q>, BlockExecutionError<X, Y>>),
        |
            {
                &&& #[trigger] self.is_prepared(header, prepare, prepared)
                &&& #[trigger] call_ensures(transact, (prepared,), executed)
                &&& match executed.1 {
                    Err(_) => result == executed,
                    Ok(output) => exists|settled: (Self, Result<(), BlockValidationError>)|
                        {
                            &&& #[trigger] call_ensures(settle, (executed.0,), settled)
                            &&& result.0 == settled.0
                            &&& result.1 == match settled.1 {
                                Ok(_) => Ok::<
                                    ParallelEthExecuteOutput<L, Q>,
                                    BlockExecutionError<X, Y>,
                                >(output),
                                Err(error) => Err(BlockExecutionError::Validation(error)),
                            }
                        },
                }
            }
    }

    /// The state was told whether it clears empty accounts: it does from Spurious Dragon on.
    pub open spec fn is_prepared<P>(self, header: Header, prepare: P, prepared: Self) -> bool where
        P: FnOnce(S, bool) -> S,
     {
        &&& prepared.spec_executor() == self.spec_executor()
        &&& call_ensures(
            prepare,
            (self.spec_state(), self.clears_state_at(header.number)),
            prepared.spec_state(),
        )
    }

    /// Empty accounts are cleared in a block.
    pub open spec fn clears_state_at(self, number: u64) -> bool {
        self.spec_chain().condition(EthereumHardfork::SpuriousDragon).is_active_at_block(number)
    }

    /// The parts of the execution can be called, each where the ones before it let it be called.
    pub open spec fn is_runnable<L, Q, Y, P, E, A>(
        self,
        header: Header,
        prepare: P,
        transact: E,
        settle: A,
    ) -> bool where
        P: FnOnce(S, bool) -> S,
        E: FnOnce(Self) -> (
            Self,
            Result<ParallelEthExecuteOutput<L, Q>, BlockExecutionError<X, Y>>,
        ),
        A: FnOnce(Self) -> (Self, Result<(), BlockValidationError>),
     {
        &&& call_requires(prepare, (self.spec_state(), self.clears_state_at(header.number)))
        &&& forall|prepared: Self| #[trigger]
            self.is_prepared(header, prepare, prepared) ==> {
                &&& call_requires(transact, (prepared,))
                &&& forall|
                    executed: (
                        Self,
                        Result<ParallelEthExecuteOutput<L, Q>, BlockExecutionError<X, Y>>,
                    ),
                |
                    #[trigger] call_ensures(transact, (prepared,), executed) && executed.1 is Ok
                        ==> call_requires(settle, (executed.0,))
            }
    }

    /// Executes a block and changes the balances: `prepare` tells the state whether it clears empty
    /// accounts, `transact` executes the transactions, and `settle` changes the balances, where the
    /// transactions could be executed.
    pub fn execute_without_verification<L, Q, Y, P, E, A>(
        self,
        header: &Header,
        prepare: P,
        transact: E,
        settle: A,
    ) -> (result: (
        Self,
        Result<ParallelEthExecuteOutput<L, Q>, BlockExecutionError<X, Y>>,
    )) where
        P: FnOnce(S, bool) -> S,
        E: FnOnce(Self) -> (
            Self,
            Result<ParallelEthExecuteOutput<L, Q>, BlockExecutionError<X, Y>>,
        ),
        A: FnOnce(Self) -> (Self, Result<(), BlockValidationError>),

        requires
            self.is_runnable::<L, Q, Y, P, E, A>(*header, prepare, transact, settle),
        ensures
            self.runs(*header, prepare, transact, settle, result),
    {
        let state_clear_flag = self.on_new_block(header);
        let state = prepare(self.state, state_clear_flag);
        let prepared = ParallelEthBlockExecutor { executor: self.executor, state };
        assert(self.is_prepared(*header, prepare, prepared));
        let executed = transact(prepared);
        assert(call_ensures(transact, (prepared,), executed));
        let (after, outcome) = executed;
        match outcome {
            Err(error) => (after, Err(error)),
            Ok(output) => {
                let settled = settle(after);
                assert(call_ensures(settle, (executed.0,), settled));
                let (after, changed) = settled;
                match changed {
                    Ok(_) => (after, Ok(output)),
                    Err(error) => (after, Err(BlockExecutionError::Validation(error))),
                }
            },
        }
    }

    /// What the execution of a block gives in the end: where it succeeded, `merge` merges the
    /// changes of the state, and `take` takes out of it what is given with the output.
    pub open spec fn executes<L, Q, Y, T, P, E, A, M, B>(
        self,
        header: Header,
        prepare: P,
        transact: E,
        settle: A,
        merge: M,
        take: B,
        result: Result<BlockExecutionOutput<T, L, Q>, BlockExecutionError<X, Y>>,
    ) -> bool where
        P: FnOnce(S, bool) -> S,
        E: FnOnce(Self) -> (
            Self,
            Result<ParallelEthExecuteOutput<L, Q>, BlockExecutionError<X, Y>>,
        ),
        A: FnOnce(Self) -> (Self, Result<(), BlockValidationError>),
        M: FnOnce(S) -> S,
        B: FnOnce(S) -> T,
     {
        exists|ran: (Self, Result<ParallelEthExecuteOutput<L, Q>, BlockExecutionError<X, Y>>)|
            {
                &&& #[trigger] self.runs(header, prepare, transact, settle, ran)
                &&& match ran.1 {
                    Err(error) => result == Err::<
                        BlockExecutionOutput<T, L, Q>,
                        BlockExecutionError<X, Y>,
                    >(error),
                    Ok(output) => exists|merged: S, taken: T|
                        {
                            &&& #[trigger] call_ensures(merge, (ran.0.spec_state(),), merged)
                            &&& #[trigger] call_ensures(take, (merged,), taken)
                            &&& result == Ok::<
                                BlockExecutionOutput<T, L, Q>,
                                BlockExecutionError<X, Y>,
                            >(
                                BlockExecutionOutput {
                                    state: taken,
                                    receipts: output.receipts,
                                    requests: output.requests,
                                    gas_used: output.gas_used,
                                },
                            )
                        },
                }
            }
    }

    /// Executes a block: where that succeeds, `merge` merges the changes of the state, and `take`
    /// takes out of it what is given with the output.
    pub fn execute<L, Q, Y, T, P, E, A, M, B>(
        self,
        header: &Header,
        prepare: P,
        transact: E,
        settle: A,
        merge: M,
        take: B,
    ) -> (result: Result<BlockExecutionOutput<T, L, Q>, BlockExecutionError<X, Y>>) where
        P: FnOnce(S, bool) -> S,
        E: FnOnce(Self) -> (
            Self,
            Result<ParallelEthExecuteOutput<L, Q>, BlockExecutionError<X, Y>>,
        ),
        A: FnOnce(Self) -> (Self, Result<(), BlockValidationError>),
        M: FnOnce(S) -> S,
        B: FnOnce(S) -> T,

        requires
            self.is_runnable::<L, Q, Y, P, E, A>(*header, prepare, transact, settle),
            forall|
                ran: (Self, Result<ParallelEthExecuteOutput<L, Q>, BlockExecutionError<X, Y>>),
            |
                #[trigger] self.runs(*header, prepare, transact, settle, ran) && ran.1 is Ok ==> {
                    &&& call_requires(merge, (ran.0.spec_state(),))
                    &&& forall|merged: S| #[trigger]
                        call_ensures(merge, (ran.0.spec_state(),), merged) ==> call_requires(
                            take,
                            (merged,),
                        )
                },
        ensures
            self.executes(*header, prepare, transact, settle, merge, take, result),
    {
        let ran = self.execute_without_verification(header, prepare, transact, settle);
        assert(self.runs(*header, prepare, transact, settle, ran));
        let (after, outcome) = ran;
        match outcome {
            Err(error) => Err(error),
            Ok(output) => {
                let ParallelEthExecuteOutput { receipts, requests, gas_used } = output;
                let merged = merge(after.state);
                assert(call_ensures(merge, (ran.0.spec_state(),), merged));
                let state = take(merged);
                assert(call_ensures(take, (merged,), state));
                Ok(BlockExecutionOutput { state, receipts, requests, gas_used })
            },
        }
    }

    /// What the execution of a block gives where `witness` sees the state: the same, and where it
    /// succeeded, `witness` has seen the state after its changes were merged and before anything
    /// was taken out of it.
    pub open spec fn executes_with_witness<L, Q, Y, T, P, E, A, M, F, B>(
        self,
        header: Header,
        prepare: P,
        transact: E,
        settle: A,
        merge: M,
        witness: F,
        take: B,
        result: Result<BlockExecutionOutput<T, L, Q>, BlockExecutionError<X, Y>>,
    ) -> bool where
        P: FnOnce(S, bool) -> S,
        E: FnOnce(Self) -> (
            Self,
            Result<ParallelEthExecuteOutput<L, Q>, BlockExecutionError<X, Y>>,
        ),
        A: FnOnce(Self) -> (Self, Result<(), BlockValidationError>),
        M: FnOnce(S) -> S,
        F: FnOnce(&S),
        B: FnOnce(S) -> T,
     {
        exists|ran: (Self, Result<ParallelEthExecuteOutput<L, Q>, BlockExecutionError<X, Y>>)|
            {
                &&& #[trigger] self.runs(header, prepare, transact, settle, ran)
                &&& match ran.1 {
                    Err(error) => result == Err::<
                        BlockExecutionOutput<T, L, Q>,
                        BlockExecutionError<X, Y>,
                    >(error),
                    Ok(output) => exists|merged: S, taken: T|
                        {
                            &&& #[trigger] call_ensures(merge, (ran.0.spec_state(),), merged)
                            &&& call_ensures(witness, (&merged,), ())
                            &&& #[trigger] call_ensures(take, (merged,), taken)
                            &&& result == Ok::<
                                BlockExecutionOutput<T, L, Q>,
                                BlockExecutionError<X, Y>,
                            >(
                                BlockExecutionOutput {
                                    state: taken,
                                    receipts: output.receipts,
                                    requests: output.requests,
                                    gas_used: output.gas_used,
                                },
                            )
                        },
                }
            }
    }

    /// Executes a block as `execute` does. Where that succeeds, `witness` sees the state once,
    /// after its changes were merged. Where it fails, `witness` is not called: it need not be
    /// callable but on a state that a success has left.
    pub fn execute_with_state_witness<L, Q, Y, T, P, E, A, M, F, B>(
        self,
        header: &Header,
        prepare: P,
        transact: E,
        settle: A,
        merge: M,
        witness: F,
        take: B,
    ) -> (result: Result<BlockExecutionOutput<T, L, Q>, BlockExecutionError<X, Y>>) where
        P: FnOnce(S, bool) -> S,
        E: FnOnce(Self) -> (
            Self,
            Result<ParallelEthExecuteOutput<L, Q>, BlockExecutionError<X, Y>>,
        ),
        A: FnOnce(Self) -> (Self, Result<(), BlockValidationError>),
        M: FnOnce(S) -> S,
        F: FnOnce(&S),
        B: FnOnce(S) -> T,

        requires
            self.is_runnable::<L, Q, Y, P, E, A>(*header, prepare, transact, settle),
            forall|
                ran: (Self, Result<ParallelEthExecuteOutput<L, Q>, BlockExecutionError<X, Y>>),
            |
                #[trigger] self.runs(*header, prepare, transact, settle, ran) && ran.1 is Ok ==> {
                    &&& call_requires(merge, (ran.0.spec_state(),))
                    &&& forall|merged: S| #[trigger]
                        call_ensures(merge, (ran.0.spec_state(),), merged) ==> {
                            &&& call_requires(witness, (&merged,))
                            &&& call_requires(take, (merged,))
                        }
                },
        ensures
            self.executes_with_witness(
                *header,
                prepare,
                transact,
                settle,
                merge,
                witness,
                take,
                result,
            ),
    {
        let ran = self.execute_without_verification(header, prepare, transact, settle);
        assert(self.runs(*header, prepare, transact, settle, ran));
        let (after, outcome) = ran;
        match outcome {
            Err(error) => Err(error),
            Ok(output) => {
                let ParallelEthExecuteOutput { receipts, requests, gas_used } = output;
                let merged = merge(after.state);
                assert(call_ensures(merge, (ran.0.spec_state(),), merged));
                witness(&merged);
                assert(call_ensures(witness, (&merged,), ()));
                let state = take(merged);
                assert(call_ensures(take, (merged,), state));
                Ok(BlockExecutionOutput { state, receipts, requests, gas_used })
            },
        }
    }
}

/// What adding changes to a state gives: the state after it, and whether the balances were changed.
pub open spec fn increments_give<S, Z, I>(
    increment: I,
    state: S,
    changes: BalanceIncrements,
    after: S,
    result: Result<(), BlockValidationError>,
) -> bool where I: FnOnce(S, BalanceIncrements) -> (S, Result<(), Z>) {
    exists|added: (S, Result<(), Z>)|
        {
            &&& #[trigger] call_ensures(increment, (state, changes), added)
            &&& after == added.0
            &&& result is Ok <==> added.1 is Ok
            &&& result matches Err(error) ==> error
                == BlockValidationError::IncrementBalanceFailed
        }
}

/// What comes of an attempt to change balances.
fn balances_changed<Z>(changed: Result<(), Z>) -> (result: Result<(), BlockValidationError>)
    ensures
        result is Ok <==> changed is Ok,
        result matches Err(error) ==> error == BlockValidationError::IncrementBalanceFailed,
{
    match changed {
        Ok(_) => Ok(()),
        Err(_) => Err(BlockValidationError::IncrementBalanceFailed),
    }
}

impl<C: ConfigureEvmEnv, R, X, S> ParallelEthBlockExecutor<C, R, X, S> {
    /// Configures an EVM for the block of a header. `block_env` describes the block; the
    /// transaction is left blank.
    pub fn evm_env_for_block(
        &self,
        header: &Header,
        total_difficulty: U256,
        block_env: BlockEnv,
    ) -> (result: Env)
        requires
            config::some_fork_is_active(
                self.spec_executor().spec_evm_config().spec_chain(),
                config::head_of(*header, total_difficulty),
            ),
        ensures
            result.cfg.chain_id
                == self.spec_executor().spec_evm_config().spec_chain().spec_chain_id(),
            result.cfg.perf_analyse_created_bytecodes == AnalysisKind::Analyse,
            config::is_spec_at(
                self.spec_executor().spec_evm_config().spec_chain(),
                config::head_of(*header, total_difficulty),
                result.cfg.spec_id,
            ),
            result.block == block_env,
            result.tx.is_blank(),
    {
        let mut cfg = CfgEnvWithHandlerCfg {
            chain_id: 1,
            perf_analyse_created_bytecodes: AnalysisKind::Analyse,
            spec_id: SpecId::PRAGUE,
        };
        self.executor.evm_config().fill_cfg_env(&mut cfg, header, total_difficulty);
        Env { cfg, block: block_env, tx: TxEnv::default() }
    }
}

/// Draining the DAO moves balances and makes none: the beneficiary gains what was taken, and no
/// other balance changes.
pub proof fn lemma_drained_balance_goes_to_beneficiary(
    increments: Map<Address, u128>,
    drained: Seq<u128>,
    beneficiary: Address,
    account: Address,
)
    requires
        amount_of(increments, beneficiary) + total(drained) <= u128::MAX,
    ensures
        ({
            let grown = (amount_of(increments, beneficiary) + total(drained)) as u128;
            amount_of(increments.insert(beneficiary, grown), account) == amount_of(
                increments,
                account,
            ) + if account == beneficiary {
                total(drained)
            } else {
                0
            }
        }),
{
    lemma_total_grows(drained, 0);
}

/// What comes of the execution of a block with a witness, an output or an error, can come without
/// one.
pub proof fn lemma_witness_changes_nothing<C, R, X, S, L, Q, Y, T, P, E, A, M, F, B>(
    executor: ParallelEthBlockExecutor<C, R, X, S>,
    header: Header,
    prepare: P,
    transact: E,
    settle: A,
    merge: M,
    witness: F,
    take: B,
    result: Result<BlockExecutionOutput<T, L, Q>, BlockExecutionError<X, Y>>,
) where
    P: FnOnce(S, bool) -> S,
    E: FnOnce(ParallelEthBlockExecutor<C, R, X, S>) -> (
        ParallelEthBlockExecutor<C, R, X, S>,
        Result<ParallelEthExecuteOutput<L, Q>, BlockExecutionError<X, Y>>,
    ),
    A: FnOnce(ParallelEthBlockExecutor<C, R, X, S>) -> (
        ParallelEthBlockExecutor<C, R, X, S>,
        Result<(), BlockValidationError>,
    ),
    M: FnOnce(S) -> S,
    F: FnOnce(&S),
    B: FnOnce(S) -> T,

    requires
        executor.executes_with_witness(
            header,
            prepare,
            transact,
            settle,
            merge,
            witness,
            take,
            result,
        ),
    ensures
        executor.executes(header, prepare, transact, settle, merge, take, result),
{
}

/// With a witness that returns and without one, the execution of a block gives the same outputs and
/// the same errors: what can come of one can come of the other, whatever the parts of the execution
/// give.
pub proof fn lemma_both_executions_give_the_same<C, R, X, S, L, Q, Y, T, P, E, A, M, F, B>(
    executor: ParallelEthBlockExecutor<C, R, X, S>,
    header: Header,
    prepare: P,
    transact: E,
    settle: A,
    merge: M,
    witness: F,
    take: B,
    result: Result<BlockExecutionOutput<T, L, Q>, BlockExecutionError<X, Y>>,
) where
    P: FnOnce(S, bool) -> S,
    E: FnOnce(ParallelEthBlockExecutor<C, R, X, S>) -> (
        ParallelEthBlockExecutor<C, R, X, S>,
        Result<ParallelEthExecuteOutput<L, Q>, BlockExecutionError<X, Y>>,
    ),
    A: FnOnce(ParallelEthBlockExecutor<C, R, X, S>) -> (
        ParallelEthBlockExecutor<C, R, X, S>,
        Result<(), BlockValidationError>,
    ),
    M: FnOnce(S) -> S,
    F: FnOnce(&S),
    B: FnOnce(S) -> T,

    requires
        forall|state: S| #[trigger] call_ensures(witness, (&state,), ()),
    ensures
        executor.executes(header, prepare, transact, settle, merge, take, result)
            <==> executor.executes_with_witness(
            header,
            prepare,
            transact,
            settle,
            merge,
            witness,
            take,
            result,
        ),
{
}

/// The parts of an execution that give the same whenever they are given the same.
pub open spec fn are_functions<C, R, X, S, L, Q, Y, P, E, A>(
    prepare: P,
    transact: E,
    settle: A,
) -> bool where
    P: FnOnce(S, bool) -> S,
    E: FnOnce(ParallelEthBlockExecutor<C, R, X, S>) -> (
        ParallelEthBlockExecutor<C, R, X, S>,
        Result<ParallelEthExecuteOutput<L, Q>, BlockExecutionError<X, Y>>,
    ),
    A: FnOnce(ParallelEthBlockExecutor<C, R, X, S>) -> (
        ParallelEthBlockExecutor<C, R, X, S>,
        Result<(), BlockValidationError>,
    ),
 {
    &&& forall|state: S, flag: bool, one: S, other: S|
        #![trigger call_ensures(prepare, (state, flag), one), call_ensures(
            prepare,
            (state, flag),
            other,
        )]
        call_ensures(prepare, (state, flag), one) && call_ensures(prepare, (state, flag), other)
            ==> one == other
    &&& forall|
        executor: ParallelEthBlockExecutor<C, R, X, S>,
        one: (
            ParallelEthBlockExecutor<C, R, X, S>,
            Result<ParallelEthExecuteOutput<L, Q>, BlockExecutionError<X, Y>>,
        ),
        other: (
            ParallelEthBlockExecutor<C, R, X, S>,
            Result<ParallelEthExecuteOutput<L, Q>, BlockExecutionError<X, Y>>,
        ),
    |
        #![trigger call_ensures(transact, (executor,), one), call_ensures(
            transact,
            (executor,),
            other,
        )]
        call_ensures(transact, (executor,), one) && call_ensures(transact, (executor,), other)
            ==> one == other
    &&& forall|
        executor: ParallelEthBlockExecutor<C, R, X, S>,
        one: (ParallelEthBlockExecutor<C, R, X, S>, Result<(), BlockValidationError>),
        other: (ParallelEthBlockExecutor<C, R, X, S>, Result<(), BlockValidationError>),
    |
        #![trigger call_ensures(settle, (executor,), one), call_ensures(
            settle,
            (executor,),
            other,
        )]
        call_ensures(settle, (executor,), one) && call_ensures(settle, (executor,), other) ==> one
            == other
}

/// The execution of a block from its preparation to the changes of balances has one result, where
/// its parts have.
proof fn lemma_run_is_unique<C, R, X, S, L, Q, Y, P, E, A>(
    executor: ParallelEthBlockExecutor<C, R, X, S>,
    header: Header,
    prepare: P,
    transact: E,
    settle: A,
    one: (
        ParallelEthBlockExecutor<C, R, X, S>,
        Result<ParallelEthExecuteOutput<L, Q>, BlockExecutionError<X, Y>>,
    ),
    other: (
        ParallelEthBlockExecutor<C, R, X, S>,
        Result<ParallelEthExecuteOutput<L, Q>, BlockExecutionError<X, Y>>,
    ),
) where
    P: FnOnce(S, bool) -> S,
    E: FnOnce(ParallelEthBlockExecutor<C, R, X, S>) -> (
        ParallelEthBlockExecutor<C, R, X, S>,
        Result<ParallelEthExecuteOutput<L, Q>, BlockExecutionError<X, Y>>,
    ),
    A: FnOnce(ParallelEthBlockExecutor<C, R, X, S>) -> (
        ParallelEthBlockExecutor<C, R, X, S>,
        Result<(), BlockValidationError>,
    ),

    requires
        are_functions(prepare, transact, settle),
        executor.runs(header, prepare, transact, settle, one),
        executor.runs(header, prepare, transact, settle, other),
    ensures
        one == other,
{
    assert forall|
        left: ParallelEthBlockExecutor<C, R, X, S>,
        right: ParallelEthBlockExecutor<C, R, X, S>,
    | #[trigger] executor.is_prepared(header, prepare, left) && #[trigger] executor.is_prepared(
        header,
        prepare,
        right,
    ) implies left == right by {
        assert(left.state == right.state);
        assert(left.executor == right.executor);
    }
}

/// With a witness and without one, the execution of a block on the same state gives the same output
/// or the same error, where its parts give the same whenever they are given the same.
pub proof fn lemma_both_executions_agree<C, R, X, S, L, Q, Y, T, P, E, A, M, F, B>(
    executor: ParallelEthBlockExecutor<C, R, X, S>,
    header: Header,
    prepare: P,
    transact: E,
    settle: A,
    merge: M,
    witness: F,
    take: B,
    plain: Result<BlockExecutionOutput<T, L, Q>, BlockExecutionError<X, Y>>,
    witnessed: Result<BlockExecutionOutput<T, L, Q>, BlockExecutionError<X, Y>>,
) where
    P: FnOnce(S, bool) -> S,
    E: FnOnce(ParallelEthBlockExecutor<C, R, X, S>) -> (
        ParallelEthBlockExecutor<C, R, X, S>,
        Result<ParallelEthExecuteOutput<L, Q>, BlockExecutionError<X, Y>>,
    ),
    A: FnOnce(ParallelEthBlockExecutor<C, R, X, S>) -> (
        ParallelEthBlockExecutor<C, R, X, S>,
        Result<(), BlockValidationError>,
    ),
    M: FnOnce(S) -> S,
    F: FnOnce(&S),
    B: FnOnce(S) -> T,

    requires
        are_functions(prepare, transact, settle),
        forall|state: S, one: S, other: S|
            #![trigger call_ensures(merge, (state,), one), call_ensures(merge, (state,), other)]
            call_ensures(merge, (state,), one) && call_ensures(merge, (state,), other) ==> one
                == other,
        forall|state: S, one: T, other: T|
            #![trigger call_ensures(take, (state,), one), call_ensures(take, (state,), other)]
            call_ensures(take, (state,), one) && call_ensures(take, (state,), other) ==> one
                == other,
        executor.executes(header, prepare, transact, settle, merge, take, plain),
        executor.executes_with_witness(
            header,
            prepare,
            transact,
            settle,
            merge,
            witness,
            take,
            witnessed,
        ),
    ensures
        plain == witnessed,
{
    assert forall|
        one: (
            ParallelEthBlockExecutor<C, R, X, S>,
            Result<ParallelEthExecuteOutput<L, Q>, BlockExecutionError<X, Y>>,
        ),
        other: (
            ParallelEthBlockExecutor<C, R, X, S>,
            Result<ParallelEthExecuteOutput<L, Q>, BlockExecutionError<X, Y>>,
        ),
    | #[trigger] executor.runs(header, prepare, transact, settle, one) && #[trigger] executor.runs(
        header,
        prepare,
        transact,
        settle,
        other,
    ) implies one == other by {
        lemma_run_is_unique(executor, header, prepare, transact, settle, one, other);
    }
}

} // verus!
