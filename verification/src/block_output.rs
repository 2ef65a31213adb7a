//! The output of the execution of a block: its receipts, its requests and the gas that it used.

use vstd::prelude::*;
use crate::hardfork::{ChainSpec, EthereumHardfork};

verus! {

/// A transaction of a block, as far as its receipt depends on it.
#[derive(Clone, Copy, Debug, PartialEq, Eq)]
pub struct TransactionInfo {
    pub tx_type: u8,
    pub gas_limit: u64,
}

/// The result of the execution of a transaction. `L` is the type of a log.
#[derive(Debug, PartialEq, Eq)]
pub struct ExecutionResult<L> {
    pub success: bool,
    pub gas_used: u64,
    pub logs: Vec<L>,
}

/// The receipt of a transaction.
#[derive(Clone, Debug, PartialEq, Eq)]
pub struct Receipt<L> {
    pub tx_type: u8,
    pub success: bool,
    /// The gas that the block had used once the transaction was done.
    pub cumulative_gas_used: u64,
    pub logs: Vec<L>,
}

/// What the execution of a block gives. `Q` is the type of a request.
#[derive(Clone, Debug, PartialEq, Eq)]
pub struct ParallelEthExecuteOutput<L, Q> {
    pub receipts: Vec<Receipt<L>>,
    pub requests: Vec<Q>,
    pub gas_used: u64,
}

/// Why a block is not valid.
#[derive(Clone, Copy, Debug, PartialEq, Eq)]
pub enum BlockValidationError {
    /// A transaction may use more gas than the block has left.
    TransactionGasLimitMoreThanAvailableBlockGas {
        transaction_gas_limit: u64,
        block_available_gas: u64,
    },
    /// The balances could not be changed.
    IncrementBalanceFailed,
}

/// The gas that the first `count` transactions have used.
pub open spec fn gas_used_by<L>(results: Seq<ExecutionResult<L>>, count: int) -> int
    decreases count,
{
    if count <= 0 {
        0
    } else {
        gas_used_by(results, count - 1) + results[count - 1].gas_used
    }
}

/// The low 64 bits of a number.
pub open spec fn low_bits(value: int) -> u64 {
    (value % 0x1_0000_0000_0000_0000) as u64
}

/// The gas that a block has left before a transaction, in 64 bits.
pub open spec fn available_gas<L>(
    results: Seq<ExecutionResult<L>>,
    block_gas_limit: u128,
    index: int,
) -> u64 {
    low_bits(block_gas_limit - gas_used_by(results, index))
}

/// A transaction may not use more gas than the block has left.
pub open spec fn fits<L>(
    transactions: Seq<TransactionInfo>,
    results: Seq<ExecutionResult<L>>,
    block_gas_limit: u128,
    index: int,
) -> bool {
    transactions[index].gas_limit <= available_gas(results, block_gas_limit, index)
}

/// The receipt belongs to a transaction of the block.
pub open spec fn is_receipt_of<L>(
    transactions: Seq<TransactionInfo>,
    results: Seq<ExecutionResult<L>>,
    index: int,
    receipt: Receipt<L>,
) -> bool {
    &&& receipt.tx_type == transactions[index].tx_type
    &&& receipt.success == results[index].success
    &&& receipt.cumulative_gas_used == low_bits(gas_used_by(results, index + 1))
    &&& receipt.logs == results[index].logs
}

/// All the transactions before one fit, so that it is looked at.
pub open spec fn is_reached<L>(
    transactions: Seq<TransactionInfo>,
    results: Seq<ExecutionResult<L>>,
    block_gas_limit: u128,
    index: int,
) -> bool {
    forall|i: int| 0 <= i < index ==> #[trigger] fits(transactions, results, block_gas_limit, i)
}

/// There is a result for each transaction, and the gas can be counted in 128 bits: no transaction
/// that is looked at finds more gas used than the block may use.
pub open spec fn gas_is_countable<L>(
    transactions: Seq<TransactionInfo>,
    results: Seq<ExecutionResult<L>>,
    block_gas_limit: u128,
) -> bool {
    &&& transactions.len() == results.len()
    &&& forall|i: int|
        0 <= i <= results.len() && is_reached(transactions, results, block_gas_limit, i)
            ==> #[trigger] gas_used_by(results, i) <= if i < results.len() {
            block_gas_limit
        } else {
            u128::MAX
        }
}

/// Each transaction used at most the gas that it may use.
pub open spec fn within_limits<L>(
    transactions: Seq<TransactionInfo>,
    results: Seq<ExecutionResult<L>>,
) -> bool {
    &&& transactions.len() == results.len()
    &&& forall|i: int|
        0 <= i < results.len() ==> (#[trigger] results[i]).gas_used <= transactions[i].gas_limit
}

/// The receipts are those of the transactions, one for each of them, and the gas is what the block
/// has used once all of them are done.
pub open spec fn are_receipts<L>(
    transactions: Seq<TransactionInfo>,
    results: Seq<ExecutionResult<L>>,
    receipts: Seq<Receipt<L>>,
    gas_used: u64,
) -> bool {
    &&& receipts.len() == results.len()
    &&& forall|i: int|
        0 <= i < results.len() ==> is_receipt_of(transactions, results, i, #[trigger] receipts[i])
    &&& gas_used == low_bits(gas_used_by(results, results.len() as int))
}

/// The error tells of the first transaction that does not fit.
pub open spec fn is_refused<L>(
    transactions: Seq<TransactionInfo>,
    results: Seq<ExecutionResult<L>>,
    block_gas_limit: u128,
    error: BlockValidationError,
) -> bool {
    exists|index: int|
        {
            &&& 0 <= index < results.len()
            &&& is_reached(transactions, results, block_gas_limit, index)
            &&& !#[trigger] fits(transactions, results, block_gas_limit, index)
            &&& error == (BlockValidationError::TransactionGasLimitMoreThanAvailableBlockGas {
                transaction_gas_limit: transactions[index].gas_limit,
                block_available_gas: available_gas(results, block_gas_limit, index),
            })
        }
}

/// The results of all transactions, where each of them has one.
pub fn all_results<R>(results: Vec<Option<R>>) -> (result: Option<Vec<R>>)
    ensures
        result is Some <==> (forall|i: int|
            0 <= i < results@.len() ==> (#[trigger] results@[i]) is Some),
        result matches Some(all) ==> {
            &&& all@.len() == results@.len()
            &&& forall|i: int| 0 <= i < all@.len() ==> results@[i] == Some(#[trigger] all@[i])
        },
{
    let ghost given = results@;
    let mut all: Vec<R> = Vec::new();
    for item in it: results
        invariant
            it.seq() == given,
            all@.len() == it.index(),
            forall|i: int| 0 <= i < it.index() ==> given[i] == Some(#[trigger] all@[i]),
            forall|i: int| 0 <= i < it.index() ==> (#[trigger] given[i]) is Some,
    {
        assert(item == given[it.index()]);
        match item {
            Some(result) => {
                all.push(result);
            },
            None => {
                return None;
            },
        }
    }
    Some(all)
}

/// The receipts of the transactions of a block, in their order, each with the gas that the block
/// had used by then.
pub fn collect_receipts<L>(
    transactions: &Vec<TransactionInfo>,
    results: Vec<ExecutionResult<L>>,
    block_gas_limit: u128,
) -> (result: Result<(Vec<Receipt<L>>, u64), BlockValidationError>)
    requires
        gas_is_countable(transactions@, results@, block_gas_limit),
    ensures
        match result {
            Ok((receipts, gas_used)) => {
                &&& is_reached(
                    transactions@,
                    results@,
                    block_gas_limit,
                    results@.len() as int,
                )
                &&& are_receipts(transactions@, results@, receipts@, gas_used)
                &&& receipts@.len() == transactions@.len()
                &&& forall|i: int|
                    #![trigger receipts@[i]]
                    0 <= i < receipts@.len() ==> {
                        &&& receipts@[i].tx_type == transactions@[i].tx_type
                        &&& receipts@[i].success == results@[i].success
                        &&& receipts@[i].logs == results@[i].logs
                    }
            },
            Err(error) => is_refused(transactions@, results@, block_gas_limit, error),
        },
{
    let ghost given = results@;
    let mut receipts: Vec<Receipt<L>> = Vec::new();
    let mut cumulative_gas_used: u128 = 0;
    let mut index: usize = 0;
    let count: usize = transactions.len();
    for outcome in it: results
        invariant
            it.seq() == given,
            index == it.index(),
            count == transactions@.len(),
            gas_is_countable(transactions@, given, block_gas_limit),
            cumulative_gas_used == gas_used_by(given, index as int),
            receipts@.len() == index,
            is_reached(transactions@, given, block_gas_limit, index as int),
            forall|i: int|
                0 <= i < index ==> is_receipt_of(
                    transactions@,
                    given,
                    i,
                    #[trigger] receipts@[i],
                ),
    {
        assert(outcome == given[index as int]);
        let left: u128 = block_gas_limit - cumulative_gas_used;
        let block_available_gas: u64 = (left % 0x1_0000_0000_0000_0000) as u64;
        assert(block_available_gas == available_gas(given, block_gas_limit, index as int));
        if transactions[index].gas_limit > block_available_gas {
            assert(!fits(transactions@, given, block_gas_limit, index as int));
            return Err(
                BlockValidationError::TransactionGasLimitMoreThanAvailableBlockGas {
                    transaction_gas_limit: transactions[index].gas_limit,
                    block_available_gas,
                },
            );
        }
        proof {
            assert(fits(transactions@, given, block_gas_limit, index as int));
            assert(is_reached(transactions@, given, block_gas_limit, index + 1));
            assert(gas_used_by(given, index + 1) <= u128::MAX);
        }
        cumulative_gas_used = cumulative_gas_used + outcome.gas_used as u128;
        receipts.push(
            Receipt {
                tx_type: transactions[index].tx_type,
                success: outcome.success,
                cumulative_gas_used: (cumulative_gas_used % 0x1_0000_0000_0000_0000) as u64,
                logs: outcome.logs,
            },
        );
        index = index + 1;
    }
    let gas_used: u64 = (cumulative_gas_used % 0x1_0000_0000_0000_0000) as u64;
    Ok((receipts, gas_used))
}

/// The requests of a block, by where they come from.
#[derive(Debug, PartialEq, Eq)]
pub struct BlockRequests<Q> {
    /// The deposits that the receipts tell of.
    pub deposits: Vec<Q>,
    /// What the contract for withdrawals has collected.
    pub withdrawals: Vec<Q>,
    /// What the contract for consolidations has collected.
    pub consolidations: Vec<Q>,
}

/// The requests of a block: deposits, withdrawals and consolidations, in this order, from Prague
/// on, and none before.
pub open spec fn requests_at<Q>(
    chain_spec: ChainSpec,
    timestamp: u64,
    requests: BlockRequests<Q>,
) -> Seq<Q> {
    if chain_spec.condition(EthereumHardfork::Prague).is_active_at_timestamp(timestamp) {
        requests.deposits@ + requests.withdrawals@ + requests.consolidations@
    } else {
        Seq::empty()
    }
}

/// The requests of a block at a time, in one list.
pub fn collect_requests<Q>(
    chain_spec: &ChainSpec,
    timestamp: u64,
    requests: BlockRequests<Q>,
) -> (result: Vec<Q>)
    ensures
        result@ == requests_at(*chain_spec, timestamp, requests),
{
    if chain_spec.fork(EthereumHardfork::Prague).active_at_timestamp(timestamp) {
        let mut all = requests.deposits;
        let mut withdrawals = requests.withdrawals;
        let mut consolidations = requests.consolidations;
        all.append(&mut withdrawals);
        all.append(&mut consolidations);
        all
    } else {
        Vec::new()
    }
}

/// The receipts tell how much gas the block has used: it only grows from one receipt to the next,
/// and stays within the gas limit of the block.
pub proof fn lemma_gas_grows_within_limit<L>(
    transactions: Seq<TransactionInfo>,
    results: Seq<ExecutionResult<L>>,
    block_gas_limit: u128,
    count: int,
)
    requires
        within_limits(transactions, results),
        0 <= count <= results.len(),
        is_reached(transactions, results, block_gas_limit, count),
    ensures
        0 <= gas_used_by(results, count) <= block_gas_limit,
        count > 0 ==> gas_used_by(results, count - 1) <= gas_used_by(results, count),
    decreases count,
{
    if count > 0 {
        lemma_gas_grows_within_limit(transactions, results, block_gas_limit, count - 1);
        assert(fits(transactions, results, block_gas_limit, count - 1));
    }
}

/// Where each transaction used at most the gas that it may use, the gas of the block can be
/// counted.
pub proof fn lemma_limits_make_gas_countable<L>(
    transactions: Seq<TransactionInfo>,
    results: Seq<ExecutionResult<L>>,
    block_gas_limit: u128,
)
    requires
        within_limits(transactions, results),
    ensures
        gas_is_countable(transactions, results, block_gas_limit),
{
    assert forall|i: int|
        0 <= i <= results.len() && is_reached(
            transactions,
            results,
            block_gas_limit,
            i,
        ) implies #[trigger] gas_used_by(results, i) <= if i < results.len() {
        block_gas_limit
    } else {
        u128::MAX
    } by {
        lemma_gas_grows_within_limit(transactions, results, block_gas_limit, i);
    }
}

/// The gas that transactions have used does not fall as more of them are counted.
proof fn lemma_gas_does_not_fall<L>(results: Seq<ExecutionResult<L>>, fewer: int, more: int)
    requires
        0 <= fewer <= more,
    ensures
        0 <= gas_used_by(results, fewer) <= gas_used_by(results, more),
    decreases more,
{
    if fewer < more {
        lemma_gas_does_not_fall(results, fewer, more - 1);
    } else if more > 0 {
        lemma_gas_does_not_fall(results, fewer - 1, more - 1);
    }
}

/// More transactions have used no less gas.
pub proof fn lemma_gas_sums_grow<L>(results: Seq<ExecutionResult<L>>)
    ensures
        forall|fewer: int, more: int|
            0 <= fewer <= more ==> 0 <= #[trigger] gas_used_by(results, fewer)
                <= #[trigger] gas_used_by(results, more),
{
    assert forall|fewer: int, more: int| 0 <= fewer <= more implies 0 <= #[trigger] gas_used_by(
        results,
        fewer,
    ) <= #[trigger] gas_used_by(results, more) by {
        lemma_gas_does_not_fall(results, fewer, more);
    }
}

/// Where the gas of the block fits in 64 bits, it does not fall from receipt to receipt, and the
/// last receipt shows the gas of the whole block.
pub proof fn lemma_receipts_show_growing_gas<L>(
    transactions: Seq<TransactionInfo>,
    results: Seq<ExecutionResult<L>>,
    receipts: Seq<Receipt<L>>,
    gas_used: u64,
)
    requires
        are_receipts(transactions, results, receipts, gas_used),
        gas_used_by(results, results.len() as int) <= u64::MAX,
    ensures
        forall|i: int, j: int|
            0 <= i <= j < receipts.len() ==> (#[trigger] receipts[i]).cumulative_gas_used <= (
            #[trigger] receipts[j]).cumulative_gas_used,
        receipts.len() > 0 ==> receipts.last().cumulative_gas_used == gas_used,
        receipts.len() == 0 ==> gas_used == 0,
{
    let count = results.len() as int;
    assert forall|i: int, j: int| 0 <= i <= j < receipts.len() implies (
    #[trigger] receipts[i]).cumulative_gas_used <= (
    #[trigger] receipts[j]).cumulative_gas_used by {
        assert(is_receipt_of(transactions, results, i, receipts[i]));
        assert(is_receipt_of(transactions, results, j, receipts[j]));
        lemma_gas_does_not_fall(results, i + 1, j + 1);
        lemma_gas_does_not_fall(results, j + 1, count);
    }
    if receipts.len() > 0 {
        assert(is_receipt_of(transactions, results, count - 1, receipts[count - 1]));
    }
}

/// The transactions and their results have one list of receipts, and one gas.
pub proof fn lemma_receipts_are_unique<L>(
    transactions: Seq<TransactionInfo>,
    results: Seq<ExecutionResult<L>>,
    receipts: Seq<Receipt<L>>,
    gas_used: u64,
    other_receipts: Seq<Receipt<L>>,
    other_gas_used: u64,
)
    requires
        are_receipts(transactions, results, receipts, gas_used),
        are_receipts(transactions, results, other_receipts, other_gas_used),
    ensures
        receipts == other_receipts,
        gas_used == other_gas_used,
{
    assert forall|i: int| 0 <= i < receipts.len() implies receipts[i] == other_receipts[i] by {
        assert(is_receipt_of(transactions, results, i, receipts[i]));
        assert(is_receipt_of(transactions, results, i, other_receipts[i]));
    }
    assert(receipts =~= other_receipts);
}

/// A block is refused for one reason.
pub proof fn lemma_refusal_is_unique<L>(
    transactions: Seq<TransactionInfo>,
    results: Seq<ExecutionResult<L>>,
    block_gas_limit: u128,
    error: BlockValidationError,
    other_error: BlockValidationError,
)
    requires
        is_refused(transactions, results, block_gas_limit, error),
        is_refused(transactions, results, block_gas_limit, other_error),
    ensures
        error == other_error,
{
}

} // verus!
