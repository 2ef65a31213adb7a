//! Laws of the execution of a block from end to end, and of the balances that change after it.

use vstd::prelude::*;
use crate::block_executor::{
    self, BalanceIncrements, BlockExecutionOutput, ParallelEthBlockExecutor,
};
use crate::block_output::{BlockValidationError, ParallelEthExecuteOutput};
use crate::env::Header;
use crate::hardfork::{EthereumHardfork, ForkCondition};
use crate::parallel::BlockExecutionError;
use crate::primitives::Address;

verus! {

/// A sum of amounts is reached by adding one after the other.
pub proof fn lemma_total_adds_up(values: Seq<u128>, sums: Seq<int>)
    requires
        sums.len() == values.len() + 1,
        sums[0] == 0,
        forall|i: int|
            0 <= i < values.len() ==> sums[i + 1] == sums[i] + (#[trigger] values[i]),
    ensures
        block_executor::total(values) == sums.last(),
    decreases values.len(),
{
    if values.len() > 0 {
        let rest = values.drop_last();
        let rest_sums = sums.drop_last();
        assert forall|i: int| 0 <= i < rest.len() implies rest_sums[i + 1] == rest_sums[i] + (
        #[trigger] rest[i]) by {
            assert(rest[i] == values[i]);
        }
        lemma_total_adds_up(rest, rest_sums);
        let last = values.len() - 1;
        assert(sums[last + 1] == sums[last] + values[last]);
    }
}

/// The amount of an account is the one that it has, and zero where it has none.
pub proof fn lemma_amount_of_account(increments: Map<Address, u128>, account: Address)
    ensures
        increments.contains_key(account) ==> block_executor::amount_of(increments, account)
            == increments[account],
        !increments.contains_key(account) ==> block_executor::amount_of(increments, account) == 0,
{
}

/// Entries of different accounts give each account its own amount, and no other account one.
pub proof fn lemma_entries_are_amounts(entries: Seq<(Address, u128)>)
    requires
        forall|i: int, j: int|
            0 <= i < j < entries.len() ==> (#[trigger] entries[i]).0 != (#[trigger] entries[j]).0,
    ensures
        forall|i: int|
            #![trigger entries[i]]
            0 <= i < entries.len() ==> {
                &&& block_executor::amounts(entries).contains_key(entries[i].0)
                &&& block_executor::amounts(entries)[entries[i].0] == entries[i].1
            },
        forall|account: Address| #[trigger]
            block_executor::amounts(entries).contains_key(account) ==> exists|i: int|
                0 <= i < entries.len() && (#[trigger] entries[i]).0 == account,
{
    block_executor::lemma_amounts_by_entry(entries);
}

/// That no account occurs twice says what it says.
pub proof fn lemma_accounts_are_distinct(entries: Seq<(Address, u128)>, one: int, other: int)
    requires
        block_executor::distinct_accounts(entries),
        0 <= one < entries.len(),
        0 <= other < entries.len(),
        entries[one].0 == entries[other].0,
    ensures
        one == other,
{
}

/// Empty accounts are cleared from the block of Spurious Dragon on, where that fork comes by
/// number, and the DAO is drained at the one block of its fork.
pub proof fn lemma_blocks_of_forks<C, R, X, S>(
    executor: ParallelEthBlockExecutor<C, R, X, S>,
    number: u64,
)
    ensures
        executor.spec_chain().condition(
            EthereumHardfork::SpuriousDragon,
        ) matches ForkCondition::Block(start) ==> (executor.clears_state_at(number) <==> number
            >= start),
        executor.spec_chain().condition(EthereumHardfork::SpuriousDragon) matches ForkCondition::TTD {
            fork_block: Some(start),
            ..
        } ==> (executor.clears_state_at(number) <==> number >= start),
        executor.spec_chain().condition(EthereumHardfork::SpuriousDragon) matches ForkCondition::TTD {
            fork_block: None,
            ..
        } ==> !executor.clears_state_at(number),
        executor.spec_chain().condition(EthereumHardfork::SpuriousDragon) is Timestamp
            || executor.spec_chain().condition(EthereumHardfork::SpuriousDragon) is Never
            ==> !executor.clears_state_at(number),
        executor.is_dao_block(number) <==> executor.spec_chain().condition(EthereumHardfork::Dao)
            == ForkCondition::Block(number),
{
}

/// At an ordinary block the balances grow by the rewards and withdrawals alone, on the state as it
/// was, and a failure to change them is told as such.
pub proof fn lemma_ordinary_block_settles<C, R, X, S, Z, D, I>(
    executor: ParallelEthBlockExecutor<C, R, X, S>,
    number: u64,
    increments: BalanceIncrements,
    beneficiary: Address,
    drain: D,
    increment: I,
    result: (ParallelEthBlockExecutor<C, R, X, S>, Result<(), BlockValidationError>),
    added: (S, Result<(), Z>),
) where
    D: FnOnce(S) -> (S, Result<Vec<u128>, Z>),
    I: FnOnce(S, BalanceIncrements) -> (S, Result<(), Z>),

    requires
        executor.settles(number, increments, beneficiary, drain, increment, result),
        executor.spec_chain().condition(EthereumHardfork::Dao) != ForkCondition::Block(number),
        forall|given: (S, Result<(), Z>)| #[trigger]
            call_ensures(increment, (executor.spec_state(), increments), given) ==> given == added,
    ensures
        call_ensures(increment, (executor.spec_state(), increments), added),
        result.0.spec_state() == added.0,
        result.0.spec_executor() == executor.spec_executor(),
        result.1 is Ok <==> added.1 is Ok,
        result.1 matches Err(error) ==> error is IncrementBalanceFailed,
{
}

/// At the block of the DAO the balances are drained first. Where that failed, nothing is added to
/// the state that it has left, and the failure is told as one to change balances.
pub proof fn lemma_failed_drain_ends_settlement<C, R, X, S, Z, D, I>(
    executor: ParallelEthBlockExecutor<C, R, X, S>,
    number: u64,
    increments: BalanceIncrements,
    beneficiary: Address,
    drain: D,
    increment: I,
    result: (ParallelEthBlockExecutor<C, R, X, S>, Result<(), BlockValidationError>),
    left: S,
) where
    D: FnOnce(S) -> (S, Result<Vec<u128>, Z>),
    I: FnOnce(S, BalanceIncrements) -> (S, Result<(), Z>),

    requires
        executor.settles(number, increments, beneficiary, drain, increment, result),
        executor.spec_chain().condition(EthereumHardfork::Dao) == ForkCondition::Block(number),
        forall|drained: (S, Result<Vec<u128>, Z>)| #[trigger]
            call_ensures(drain, (executor.spec_state(),), drained) ==> drained.0 == left
                && drained.1 is Err,
    ensures
        result.0.spec_state() == left,
        result.0.spec_executor() == executor.spec_executor(),
        result.1 matches Err(error) && error is IncrementBalanceFailed,
{
}

/// Where the balances could be drained, the beneficiary gains the sum of what was taken on top of
/// its own amount, every other account has the amount that it had, and the changes are added to the
/// state that the draining has left.
pub proof fn lemma_drained_block_settles<C, R, X, S, Z, D, I>(
    executor: ParallelEthBlockExecutor<C, R, X, S>,
    number: u64,
    increments: BalanceIncrements,
    beneficiary: Address,
    drain: D,
    increment: I,
    result: (ParallelEthBlockExecutor<C, R, X, S>, Result<(), BlockValidationError>),
    left: S,
    balances: Vec<u128>,
    sums: Seq<int>,
) -> (found: (BalanceIncrements, (S, Result<(), Z>))) where
    D: FnOnce(S) -> (S, Result<Vec<u128>, Z>),
    I: FnOnce(S, BalanceIncrements) -> (S, Result<(), Z>),

    requires
        executor.settles(number, increments, beneficiary, drain, increment, result),
        executor.spec_chain().condition(EthereumHardfork::Dao) == ForkCondition::Block(number),
        forall|drained: (S, Result<Vec<u128>, Z>)| #[trigger]
            call_ensures(drain, (executor.spec_state(),), drained) ==> drained == (
                left,
                Ok::<Vec<u128>, Z>(balances),
            ),
        sums.len() == balances@.len() + 1,
        sums[0] == 0,
        forall|i: int|
            0 <= i < balances@.len() ==> sums[i + 1] == sums[i] + (#[trigger] balances@[i]),
        sums.last() <= u128::MAX,
        increments@.contains_key(beneficiary) ==> increments@[beneficiary] + sums.last()
            <= u128::MAX,
    ensures
        call_ensures(increment, (left, found.0), found.1),
        forall|account: Address|
            #![trigger found.0@.contains_key(account)]
            found.0@.contains_key(account) <==> account == beneficiary || increments@.contains_key(
                account,
            ),
        forall|account: Address|
            #![trigger found.0@[account]]
            increments@.contains_key(account) && account != beneficiary ==> found.0@[account]
                == increments@[account],
        increments@.contains_key(beneficiary) ==> found.0@[beneficiary] == increments@[beneficiary]
            + sums.last(),
        !increments@.contains_key(beneficiary) ==> found.0@[beneficiary] == sums.last(),
        found.0.wf(),
        result.0.spec_state() == found.1.0,
        result.0.spec_executor() == executor.spec_executor(),
        result.1 is Ok <==> found.1.1 is Ok,
        result.1 matches Err(error) ==> error is IncrementBalanceFailed,
{
    lemma_total_adds_up(balances@, sums);
    block_executor::lemma_total_is_not_negative(balances@);
    let changes = choose|changes: BalanceIncrements|
        {
            &&& changes.wf()
            &&& changes@ == increments@.insert(
                beneficiary,
                (block_executor::amount_of(increments@, beneficiary) + block_executor::total(
                    balances@,
                )) as u128,
            )
            &&& #[trigger] block_executor::increments_give(
                increment,
                left,
                changes,
                result.0.spec_state(),
                result.1,
            )
        };
    let added = choose|added: (S, Result<(), Z>)|
        {
            &&& #[trigger] call_ensures(increment, (left, changes), added)
            &&& result.0.spec_state() == added.0
            &&& result.1 is Ok <==> added.1 is Ok
            &&& result.1 matches Err(error) ==> error
                == BlockValidationError::IncrementBalanceFailed
        };
    (changes, added)
}

/// The execution of a block tells the state first whether it clears empty accounts. A failure of
/// the transactions is the result, with the executor that they have left and without a change of
/// balances. Else the balances change on what the transactions have left, and the result is the
/// output of the transactions, or the failure to change the balances.
pub proof fn lemma_block_runs_in_order<C, R, X, S, L, Q, Y, P, E, A>(
    executor: ParallelEthBlockExecutor<C, R, X, S>,
    header: Header,
    prepare: P,
    transact: E,
    settle: A,
    result: (
        ParallelEthBlockExecutor<C, R, X, S>,
        Result<ParallelEthExecuteOutput<L, Q>, BlockExecutionError<X, Y>>,
    ),
) -> (found: (
    ParallelEthBlockExecutor<C, R, X, S>,
    (
        ParallelEthBlockExecutor<C, R, X, S>,
        Result<ParallelEthExecuteOutput<L, Q>, BlockExecutionError<X, Y>>,
    ),
    (ParallelEthBlockExecutor<C, R, X, S>, Result<(), BlockValidationError>),
)) where
    P: FnOnce(S, bool) -> S,
    E: FnOnce(ParallelEthBlockExecutor<C, R, X, S>) -> (
        ParallelEthBlockExecutor<C, R, X, S>,
        Result<ParallelEthExecuteOutput<L, Q>, BlockExecutionError<X, Y>>,
    ),
    A: FnOnce(ParallelEthBlockExecutor<C, R, X, S>) -> (
        ParallelEthBlockExecutor<C, R, X, S>,
        Result<(), BlockValidationError>,
    ),

    requires
        executor.runs(header, prepare, transact, settle, result),
    ensures
        call_ensures(
            prepare,
            (
                executor.spec_state(),
                executor.spec_chain().condition(
                    EthereumHardfork::SpuriousDragon,
                ).is_active_at_block(header.number),
            ),
            found.0.spec_state(),
        ),
        found.0.spec_executor() == executor.spec_executor(),
        call_ensures(transact, (found.0,), found.1),
        found.1.1 is Err ==> result == found.1,
        found.1.1 matches Ok(output) ==> {
            &&& call_ensures(settle, (found.1.0,), found.2)
            &&& result.0 == found.2.0
            &&& found.2.1 is Ok ==> (result.1 matches Ok(given) && given == output)
            &&& found.2.1 matches Err(error) ==> (result.1 matches Err(
                BlockExecutionError::Validation(given),
            ) && given == error)
        },
{
    let (prepared, executed) = choose|
        prepared: ParallelEthBlockExecutor<C, R, X, S>,
        executed: (
            ParallelEthBlockExecutor<C, R, X, S>,
            Result<ParallelEthExecuteOutput<L, Q>, BlockExecutionError<X, Y>>,
        ),
    |
        {
            &&& #[trigger] executor.is_prepared(header, prepare, prepared)
            &&& #[trigger] call_ensures(transact, (prepared,), executed)
            &&& match executed.1 {
                Err(_) => result == executed,
                Ok(output) => exists|
                    settled: (
                        ParallelEthBlockExecutor<C, R, X, S>,
                        Result<(), BlockValidationError>,
                    ),
                |
                    {
                        &&& #[trigger] call_ensures(settle, (executed.0,), settled)
                        &&& result.0 == settled.0
                        &&& result.1 == match settled.1 {
                            Ok(_) => Ok::<
                                ParallelEthExecuteOutput<L, Q>,
                                BlockExecutionError<X, Y>,
                            >(output),
                            Err(error) => Err(BlockExecutionError::Validation(error)),
                        }
                    },
            }
        };
    let settled = choose|
        settled: (ParallelEthBlockExecutor<C, R, X, S>, Result<(), BlockValidationError>),
    |
        {
            &&& #[trigger] call_ensures(settle, (executed.0,), settled)
            &&& result.0 == settled.0
            &&& result.1 == match settled.1 {
                Ok(_) => Ok::<ParallelEthExecuteOutput<L, Q>, BlockExecutionError<X, Y>>(
                    executed.1->Ok_0,
                ),
                Err(error) => Err(BlockExecutionError::Validation(error)),
            }
        };
    (prepared, executed, settled)
}

/// What a block gives in the end: the error of its execution, or the receipts, the requests and the
/// gas of its output as they are, with what is taken out of the merged state.
pub proof fn lemma_output_is_given_with_state<C, R, X, S, L, Q, Y, T, P, E, A, M, B>(
    executor: ParallelEthBlockExecutor<C, R, X, S>,
    header: Header,
    prepare: P,
    transact: E,
    settle: A,
    merge: M,
    take: B,
    result: Result<BlockExecutionOutput<T, L, Q>, BlockExecutionError<X, Y>>,
    ran: (
        ParallelEthBlockExecutor<C, R, X, S>,
        Result<ParallelEthExecuteOutput<L, Q>, BlockExecutionError<X, Y>>,
    ),
    merged: S,
) where
    P: FnOnce(S, bool) -> S,
    E: FnOnce(ParallelEthBlockExecutor<C, R, X, S>) -> (
        ParallelEthBlockExecutor<C, R, X, S>,
        Result<ParallelEthExecuteOutput<L, Q>, BlockExecutionError<X, Y>>,
    ),
    A: FnOnce(ParallelEthBlockExecutor<C, R, X, S>) -> (
        ParallelEthBlockExecutor<C, R, X, S>,
        Result<(), BlockValidationError>,
    ),
    M: FnOnce(S) -> S,
    B: FnOnce(S) -> T,

    requires
        executor.executes(header, prepare, transact, settle, merge, take, result),
        forall|
            given: (
                ParallelEthBlockExecutor<C, R, X, S>,
                Result<ParallelEthExecuteOutput<L, Q>, BlockExecutionError<X, Y>>,
            ),
        | #[trigger]
            executor.runs(header, prepare, transact, settle, given) ==> given == ran,
        forall|state: S| #[trigger]
            call_ensures(merge, (ran.0.spec_state(),), state) ==> state == merged,
    ensures
        result is Ok <==> ran.1 is Ok,
        ran.1 matches Err(error) ==> (result matches Err(given) && given == error),
        result matches Ok(output) ==> {
            &&& call_ensures(take, (merged,), output.state)
            &&& output.receipts == ran.1->Ok_0.receipts
            &&& output.requests == ran.1->Ok_0.requests
            &&& output.gas_used == ran.1->Ok_0.gas_used
        },
{
}

/// With a witness the same is given, and where there is an output, the witness has seen the merged
/// state.
pub proof fn lemma_witness_sees_merged_state<C, R, X, S, L, Q, Y, T, P, E, A, M, F, B>(
    executor: ParallelEthBlockExecutor<C, R, X, S>,
    header: Header,
    prepare: P,
    transact: E,
    settle: A,
    merge: M,
    witness: F,
    take: B,
    result: Result<BlockExecutionOutput<T, L, Q>, BlockExecutionError<X, Y>>,
    ran: (
        ParallelEthBlockExecutor<C, R, X, S>,
        Result<ParallelEthExecuteOutput<L, Q>, BlockExecutionError<X, Y>>,
    ),
    merged: S,
) where
    P: FnOnce(S, bool) -> S,
    E: FnOnce(ParallelEthBlockExecutor<C, R, X, S>) -> (
        ParallelEthBlockExecutor<C, R, X, S>,
        Result<ParallelEthExecuteOutput<L, Q>, BlockExecutionError<X, Y>>,
    ),
    A: FnOnce(ParallelEthBlockExecutor<C, R, X, S>) -> (
        ParallelEthBlockExecutor<C, R, X, S>,
        Result<(), BlockValidationError>,
    ),
    M: FnOnce(S) -> S,
    F: FnOnce(&S),
    B: FnOnce(S) -> T,

    requires
        executor.executes_with_witness(
            header,
            prepare,
            transact,
            settle,
            merge,
            witness,
            take,
            result,
        ),
        forall|
            given: (
                ParallelEthBlockExecutor<C, R, X, S>,
                Result<ParallelEthExecuteOutput<L, Q>, BlockExecutionError<X, Y>>,
            ),
        | #[trigger]
            executor.runs(header, prepare, transact, settle, given) ==> given == ran,
        forall|state: S| #[trigger]
            call_ensures(merge, (ran.0.spec_state(),), state) ==> state == merged,
    ensures
        result is Ok <==> ran.1 is Ok,
        ran.1 matches Err(error) ==> (result matches Err(given) && given == error),
        result matches Ok(output) ==> {
            &&& call_ensures(witness, (&merged,), ())
            &&& call_ensures(take, (merged,), output.state)
            &&& output.receipts == ran.1->Ok_0.receipts
            &&& output.requests == ran.1->Ok_0.requests
            &&& output.gas_used == ran.1->Ok_0.gas_used
        },
{
}

/// Parts that can be called on anything can run any block.
pub proof fn lemma_total_parts_run<C, R, X, S, L, Q, Y, P, E, A>(
    executor: ParallelEthBlockExecutor<C, R, X, S>,
    header: Header,
    prepare: P,
    transact: E,
    settle: A,
) where
    P: FnOnce(S, bool) -> S,
    E: FnOnce(ParallelEthBlockExecutor<C, R, X, S>) -> (
        ParallelEthBlockExecutor<C, R, X, S>,
        Result<ParallelEthExecuteOutput<L, Q>, BlockExecutionError<X, Y>>,
    ),
    A: FnOnce(ParallelEthBlockExecutor<C, R, X, S>) -> (
        ParallelEthBlockExecutor<C, R, X, S>,
        Result<(), BlockValidationError>,
    ),

    requires
        forall|state: S, flag: bool| #[trigger] call_requires(prepare, (state, flag)),
        forall|any: ParallelEthBlockExecutor<C, R, X, S>| #[trigger]
            call_requires(transact, (any,)),
        forall|any: ParallelEthBlockExecutor<C, R, X, S>| #[trigger] call_requires(settle, (any,)),
    ensures
        executor.is_runnable::<L, Q, Y, P, E, A>(header, prepare, transact, settle),
{
}

} // verus!
