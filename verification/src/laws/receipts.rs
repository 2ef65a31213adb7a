//! Laws of receipts, of the gas that they show, and of requests.

use vstd::prelude::*;
use crate::block_output::{
    self, BlockRequests, BlockValidationError, ExecutionResult, Receipt, TransactionInfo,
};
use crate::hardfork::{ChainSpec, EthereumHardfork, ForkCondition};

verus! {

/// There is one receipt for each transaction, in the order of the transactions, and each shows the
/// type of its transaction, whether that succeeded, and its logs.
pub proof fn lemma_receipt_shows_its_transaction<L>(
    transactions: Seq<TransactionInfo>,
    results: Seq<ExecutionResult<L>>,
    receipts: Seq<Receipt<L>>,
    gas_used: u64,
)
    requires
        block_output::are_receipts(transactions, results, receipts, gas_used),
    ensures
        receipts.len() == results.len(),
        forall|i: int|
            #![trigger receipts[i]]
            0 <= i < receipts.len() ==> {
                &&& receipts[i].tx_type == transactions[i].tx_type
                &&& receipts[i].success == results[i].success
                &&& receipts[i].logs == results[i].logs
            },
{
}

/// Blocks that differ in the type of a transaction, in its success or in its logs have receipts that
/// differ there.
pub proof fn lemma_receipts_tell_blocks_apart<L>(
    transactions: Seq<TransactionInfo>,
    results: Seq<ExecutionResult<L>>,
    receipts: Seq<Receipt<L>>,
    gas_used: u64,
    other_transactions: Seq<TransactionInfo>,
    other_results: Seq<ExecutionResult<L>>,
    other_receipts: Seq<Receipt<L>>,
    other_gas_used: u64,
    index: int,
)
    requires
        block_output::are_receipts(transactions, results, receipts, gas_used),
        block_output::are_receipts(
            other_transactions,
            other_results,
            other_receipts,
            other_gas_used,
        ),
        0 <= index < results.len(),
        index < other_results.len(),
        transactions[index].tx_type != other_transactions[index].tx_type || results[index].success
            != other_results[index].success || results[index].logs != other_results[index].logs,
    ensures
        receipts[index] != other_receipts[index],
{
    lemma_receipt_shows_its_transaction(transactions, results, receipts, gas_used);
    lemma_receipt_shows_its_transaction(
        other_transactions,
        other_results,
        other_receipts,
        other_gas_used,
    );
    assert(receipts[index].tx_type == transactions[index].tx_type);
    assert(other_receipts[index].tx_type == other_transactions[index].tx_type);
}

/// Sums that start at nothing and grow by the gas of one transaction after the other are the gas
/// that the transactions have used.
proof fn lemma_sums_are_gas<L>(results: Seq<ExecutionResult<L>>, sums: Seq<int>, count: int)
    requires
        sums.len() == results.len() + 1,
        sums[0] == 0,
        forall|i: int|
            0 <= i < results.len() ==> sums[i + 1] == sums[i] + (#[trigger] results[i]).gas_used,
        0 <= count <= results.len(),
    ensures
        sums[count] == block_output::gas_used_by(results, count),
        sums[count] >= 0,
    decreases count,
{
    if count > 0 {
        lemma_sums_are_gas(results, sums, count - 1);
        assert(sums[count - 1 + 1] == sums[count - 1] + results[count - 1].gas_used);
    }
}

/// The receipts add up: each shows, in 64 bits, the gas of all the transactions up to its own, and
/// the block has used the gas of all of them.
pub proof fn lemma_receipts_add_up<L>(
    transactions: Seq<TransactionInfo>,
    results: Seq<ExecutionResult<L>>,
    receipts: Seq<Receipt<L>>,
    gas_used: u64,
    sums: Seq<int>,
)
    requires
        block_output::are_receipts(transactions, results, receipts, gas_used),
        sums.len() == results.len() + 1,
        sums[0] == 0,
        forall|i: int|
            0 <= i < results.len() ==> sums[i + 1] == sums[i] + (#[trigger] results[i]).gas_used,
    ensures
        forall|i: int|
            0 <= i < receipts.len() ==> (#[trigger] receipts[i]).cumulative_gas_used == sums[i + 1]
                % 0x1_0000_0000_0000_0000,
        gas_used == sums.last() % 0x1_0000_0000_0000_0000,
{
    assert forall|i: int| 0 <= i < receipts.len() implies (
    #[trigger] receipts[i]).cumulative_gas_used == sums[i + 1] % 0x1_0000_0000_0000_0000 by {
        lemma_sums_are_gas(results, sums, i + 1);
        assert(block_output::is_receipt_of(transactions, results, i, receipts[i]));
    }
    lemma_sums_are_gas(results, sums, results.len() as int);
}

/// Where the gas of the block fits in 64 bits, the first receipt shows the gas of its transaction,
/// each further one shows as much more as its transaction has used, and the last one shows the gas
/// of the block.
pub proof fn lemma_receipts_differ_by_gas<L>(
    transactions: Seq<TransactionInfo>,
    results: Seq<ExecutionResult<L>>,
    receipts: Seq<Receipt<L>>,
    gas_used: u64,
    sums: Seq<int>,
)
    requires
        block_output::are_receipts(transactions, results, receipts, gas_used),
        sums.len() == results.len() + 1,
        sums[0] == 0,
        forall|i: int|
            0 <= i < results.len() ==> sums[i + 1] == sums[i] + (#[trigger] results[i]).gas_used,
        sums.last() <= u64::MAX,
    ensures
        receipts.len() > 0 ==> {
            &&& receipts[0].cumulative_gas_used == results[0].gas_used
            &&& receipts.last().cumulative_gas_used == gas_used
        },
        receipts.len() == 0 ==> gas_used == 0,
        forall|i: int|
            #![trigger receipts[i]]
            0 < i < receipts.len() ==> receipts[i].cumulative_gas_used == receipts[i
                - 1].cumulative_gas_used + results[i].gas_used,
{
    lemma_receipts_add_up(transactions, results, receipts, gas_used, sums);
    block_output::lemma_gas_sums_grow(results);
    let count = results.len() as int;
    lemma_sums_are_gas(results, sums, count);
    assert forall|i: int| 0 <= i <= count implies 0 <= #[trigger] sums[i] <= u64::MAX by {
        lemma_sums_are_gas(results, sums, i);
        assert(block_output::gas_used_by(results, i) <= block_output::gas_used_by(results, count));
    }
    if receipts.len() > 0 {
        assert(sums[1] == sums[0] + results[0].gas_used);
        assert(receipts[0].cumulative_gas_used == sums[1] % 0x1_0000_0000_0000_0000);
        assert(receipts[count - 1].cumulative_gas_used == sums[count - 1 + 1]
            % 0x1_0000_0000_0000_0000);
    }
    assert forall|i: int|
        #![trigger receipts[i]]
        0 < i < receipts.len() implies receipts[i].cumulative_gas_used == receipts[i
        - 1].cumulative_gas_used + results[i].gas_used by {
        assert(receipts[i].cumulative_gas_used == sums[i + 1] % 0x1_0000_0000_0000_0000);
        assert(receipts[i - 1].cumulative_gas_used == sums[i - 1 + 1] % 0x1_0000_0000_0000_0000);
        assert(sums[i + 1] == sums[i] + results[i].gas_used);
        assert(0 <= sums[i] <= u64::MAX);
        assert(0 <= sums[i + 1] <= u64::MAX);
    }
}

/// All transactions up to one are accepted exactly where none of them may use more gas than the
/// block, in 64 bits, has left before it.
pub proof fn lemma_accepted_transactions_fit<L>(
    transactions: Seq<TransactionInfo>,
    results: Seq<ExecutionResult<L>>,
    block_gas_limit: u128,
    sums: Seq<int>,
    count: int,
)
    requires
        0 <= count <= results.len(),
        sums.len() == results.len() + 1,
        sums[0] == 0,
        forall|i: int|
            0 <= i < results.len() ==> sums[i + 1] == sums[i] + (#[trigger] results[i]).gas_used,
    ensures
        block_output::is_reached(transactions, results, block_gas_limit, count) <==> (forall|i: int|
            #![trigger transactions[i]]
            0 <= i < count ==> transactions[i].gas_limit <= (block_gas_limit - sums[i])
                % 0x1_0000_0000_0000_0000),
{
    assert forall|i: int| 0 <= i < count implies (#[trigger] block_output::fits(
        transactions,
        results,
        block_gas_limit,
        i,
    ) <==> transactions[i].gas_limit <= (block_gas_limit - sums[i]) % 0x1_0000_0000_0000_0000) by {
        lemma_sums_are_gas(results, sums, i);
    }
    if block_output::is_reached(transactions, results, block_gas_limit, count) {
        assert forall|i: int|
            #![trigger transactions[i]]
            0 <= i < count implies transactions[i].gas_limit <= (block_gas_limit - sums[i])
            % 0x1_0000_0000_0000_0000 by {
            assert(block_output::fits(transactions, results, block_gas_limit, i));
        }
    }
}

/// A refused block is refused for its first transaction that may use more gas than the block has
/// left, and the error tells both amounts.
pub proof fn lemma_refusal_names_first_misfit<L>(
    transactions: Seq<TransactionInfo>,
    results: Seq<ExecutionResult<L>>,
    block_gas_limit: u128,
    error: BlockValidationError,
    sums: Seq<int>,
)
    requires
        block_output::is_refused(transactions, results, block_gas_limit, error),
        sums.len() == results.len() + 1,
        sums[0] == 0,
        forall|i: int|
            0 <= i < results.len() ==> sums[i + 1] == sums[i] + (#[trigger] results[i]).gas_used,
    ensures
        exists|index: int|
            #![trigger transactions[index]]
            {
                let left = (block_gas_limit - sums[index]) % 0x1_0000_0000_0000_0000;
                &&& 0 <= index < results.len()
                &&& transactions[index].gas_limit > left
                &&& forall|i: int|
                    #![trigger transactions[i]]
                    0 <= i < index ==> transactions[i].gas_limit <= (block_gas_limit - sums[i])
                        % 0x1_0000_0000_0000_0000
                &&& error matches BlockValidationError::TransactionGasLimitMoreThanAvailableBlockGas {
                    transaction_gas_limit,
                    block_available_gas,
                }
                &&& transaction_gas_limit == transactions[index].gas_limit
                &&& block_available_gas == left
            },
{
    let index = choose|index: int|
        {
            &&& 0 <= index < results.len()
            &&& block_output::is_reached(transactions, results, block_gas_limit, index)
            &&& !#[trigger] block_output::fits(transactions, results, block_gas_limit, index)
            &&& error == (BlockValidationError::TransactionGasLimitMoreThanAvailableBlockGas {
                transaction_gas_limit: transactions[index].gas_limit,
                block_available_gas: block_output::available_gas(results, block_gas_limit, index),
            })
        };
    lemma_sums_are_gas(results, sums, index);
    lemma_accepted_transactions_fit(transactions, results, block_gas_limit, sums, index);
    let witness = transactions[index];
}

/// The gas of a block can be counted exactly where there is one result for each transaction and no
/// transaction that is looked at finds more gas used than the block may use, nor does the gas of
/// all of them leave 128 bits.
pub proof fn lemma_countable_blocks<L>(
    transactions: Seq<TransactionInfo>,
    results: Seq<ExecutionResult<L>>,
    block_gas_limit: u128,
    sums: Seq<int>,
)
    requires
        sums.len() == results.len() + 1,
        sums[0] == 0,
        forall|i: int|
            0 <= i < results.len() ==> sums[i + 1] == sums[i] + (#[trigger] results[i]).gas_used,
    ensures
        block_output::gas_is_countable(transactions, results, block_gas_limit) <==> {
            &&& transactions.len() == results.len()
            &&& forall|count: int|
                #![trigger sums[count]]
                0 <= count <= results.len() && (forall|i: int|
                    #![trigger transactions[i]]
                    0 <= i < count ==> transactions[i].gas_limit <= (block_gas_limit - sums[i])
                        % 0x1_0000_0000_0000_0000) ==> sums[count] <= if count < results.len() {
                    block_gas_limit
                } else {
                    u128::MAX
                }
        },
{
    assert forall|count: int| 0 <= count <= results.len() implies sums[count]
        == #[trigger] block_output::gas_used_by(results, count) by {
        lemma_sums_are_gas(results, sums, count);
    }
    assert forall|count: int|
        #![trigger sums[count]]
        0 <= count <= results.len() implies (block_output::is_reached(
        transactions,
        results,
        block_gas_limit,
        count,
    ) <==> (forall|i: int|
        #![trigger transactions[i]]
        0 <= i < count ==> transactions[i].gas_limit <= (block_gas_limit - sums[i])
            % 0x1_0000_0000_0000_0000)) by {
        lemma_accepted_transactions_fit(transactions, results, block_gas_limit, sums, count);
    }
    if block_output::gas_is_countable(transactions, results, block_gas_limit) {
        assert forall|count: int|
            #![trigger sums[count]]
            0 <= count <= results.len() && (forall|i: int|
                #![trigger transactions[i]]
                0 <= i < count ==> transactions[i].gas_limit <= (block_gas_limit - sums[i])
                    % 0x1_0000_0000_0000_0000) implies sums[count] <= if count < results.len() {
            block_gas_limit
        } else {
            u128::MAX
        } by {
            assert(sums[count] == block_output::gas_used_by(results, count));
        }
    }
    if transactions.len() == results.len() && !block_output::gas_is_countable(
        transactions,
        results,
        block_gas_limit,
    ) {
        let count = choose|count: int|
            0 <= count <= results.len() && block_output::is_reached(
                transactions,
                results,
                block_gas_limit,
                count,
            ) && !(#[trigger] block_output::gas_used_by(results, count) <= if count
                < results.len() {
                block_gas_limit
            } else {
                u128::MAX
            });
        assert(sums[count] == block_output::gas_used_by(results, count));
    }
}

/// A block has requests from the time of Prague on: all deposits, then all withdrawals, then all
/// consolidations. Before it, and on a chain on which Prague does not become active by time, it has
/// none.
pub proof fn lemma_requests_come_in_order<Q>(
    chain_spec: ChainSpec,
    timestamp: u64,
    requests: BlockRequests<Q>,
)
    ensures
        ({
            let all = block_output::requests_at(chain_spec, timestamp, requests);
            let deposits = requests.deposits@;
            let withdrawals = requests.withdrawals@;
            let consolidations = requests.consolidations@;
            if chain_spec.condition(EthereumHardfork::Prague) matches ForkCondition::Timestamp(
                start,
            ) && timestamp >= start {
                &&& all.len() == deposits.len() + withdrawals.len() + consolidations.len()
                &&& forall|i: int|
                    #![trigger deposits[i]]
                    0 <= i < deposits.len() ==> all[i] == deposits[i]
                &&& forall|i: int|
                    #![trigger withdrawals[i]]
                    0 <= i < withdrawals.len() ==> all[deposits.len() + i] == withdrawals[i]
                &&& forall|i: int|
                    #![trigger consolidations[i]]
                    0 <= i < consolidations.len() ==> all[deposits.len() + withdrawals.len() + i]
                        == consolidations[i]
            } else {
                all.len() == 0
            }
        }),
{
}

} // verus!
