//! The fees of the next block: its base fee and its blob gas.

use vstd::prelude::*;

verus! {

/// The base fee of the first block with a base fee, in wei.
pub const EIP1559_INITIAL_BASE_FEE: u64 = 1_000_000_000;

/// How much blob gas a block is meant to use. What is used beyond it adds to the excess.
pub const TARGET_BLOB_GAS_PER_BLOCK: u64 = 393_216;

/// The greatest excess blob gas whose price can be computed in 128 bits.
pub const MAX_PRICED_EXCESS_BLOB_GAS: u64 = 192_204_552;

/// How the base fee of a chain changes from block to block.
#[derive(Clone, Copy, Debug, PartialEq, Eq)]
pub struct BaseFeeParams {
    /// The base fee changes by at most one part in this many.
    pub max_change_denominator: u128,
    /// The gas limit is this many times the gas target.
    pub elasticity_multiplier: u128,
}

/// The gas that a block is meant to use.
pub open spec fn gas_target(gas_limit: u128, params: BaseFeeParams) -> int {
    gas_limit as int / params.elasticity_multiplier as int
}

/// By how much the base fee changes after a block that used `gap` more gas than its target, or
/// less.
pub open spec fn base_fee_delta(
    gap: int,
    gas_limit: u128,
    base_fee: u128,
    params: BaseFeeParams,
) -> int {
    (base_fee * gap) / (gas_target(gas_limit, params) * params.max_change_denominator)
}

/// The base fee of the block after one that used `gas_used` of `gas_limit` at `base_fee`: more, by
/// at least one, where it used more than the target, and less where it used less.
pub open spec fn base_fee_after(
    gas_used: u128,
    gas_limit: u128,
    base_fee: u128,
    params: BaseFeeParams,
) -> int {
    let target = gas_target(gas_limit, params);
    if gas_used > target {
        let delta = base_fee_delta(gas_used - target, gas_limit, base_fee, params);
        base_fee + if delta > 1 {
            delta
        } else {
            1
        }
    } else if gas_used < target {
        let delta = base_fee_delta(target - gas_used, gas_limit, base_fee, params);
        if delta < base_fee {
            base_fee - delta
        } else {
            0
        }
    } else {
        base_fee as int
    }
}

/// The base fee after a block can be computed in 128 bits and without dividing by zero.
pub open spec fn base_fee_is_computable(
    gas_used: u128,
    gas_limit: u128,
    base_fee: u128,
    params: BaseFeeParams,
) -> bool {
    let target = gas_target(gas_limit, params);
    let gap = if gas_used > target {
        gas_used - target
    } else {
        target - gas_used
    };
    &&& params.elasticity_multiplier > 0
    &&& gas_used != target ==> {
        &&& 0 < target * params.max_change_denominator <= u128::MAX
        &&& base_fee * gap <= u128::MAX
        &&& base_fee_after(gas_used, gas_limit, base_fee, params) <= u128::MAX
    }
}

/// `alloy_consensus::Header::next_block_base_fee`, on a header with these three fields: nothing
/// where the header has no base fee, and else the base fee that EIP-1559 gives the next block. The
/// function divides by the target and computes in 128 bits, which `requires` provides for.
#[verifier::external_body]
fn header_next_base_fee(
    gas_used: u128,
    gas_limit: u128,
    base_fee: Option<u128>,
    params: BaseFeeParams,
) -> (result: Option<u128>)
    requires
        base_fee matches Some(fee) ==> base_fee_is_computable(gas_used, gas_limit, fee, params),
    ensures
        match base_fee {
            Some(fee) => result is Some && result->0 == base_fee_after(
                gas_used,
                gas_limit,
                fee,
                params,
            ),
            None => result is None,
        },
{
    let header = alloy_consensus::Header {
        gas_used,
        gas_limit,
        base_fee_per_gas: base_fee,
        ..Default::default()
    };
    header.next_block_base_fee(
        alloy_eips::eip1559::BaseFeeParams {
            max_change_denominator: params.max_change_denominator,
            elasticity_multiplier: params.elasticity_multiplier,
        },
    )
}

/// The excess blob gas of the block after one with these two header fields.
pub open spec fn excess_blob_gas_after(excess: Option<u128>, used: Option<u128>) -> Option<u128> {
    match (excess, used) {
        (Some(excess), Some(used)) => Some(
            if excess + used > TARGET_BLOB_GAS_PER_BLOCK {
                (excess + used - TARGET_BLOB_GAS_PER_BLOCK) as u128
            } else {
                0
            },
        ),
        _ => None,
    }
}

/// The sum of the two header fields fits in 128 bits.
pub open spec fn blob_gas_is_addable(excess: Option<u128>, used: Option<u128>) -> bool {
    excess is Some && used is Some ==> excess->0 + used->0 <= u128::MAX
}

/// `alloy_consensus::Header::next_block_excess_blob_gas`, on a header with these two fields:
/// nothing unless the header has both, and else what their sum is above the target, or zero. The
/// function adds the two in 128 bits, which `requires` provides for.
#[verifier::external_body]
fn header_next_excess_blob_gas(excess: Option<u128>, used: Option<u128>) -> (result: Option<u128>)
    requires
        blob_gas_is_addable(excess, used),
    ensures
        result == excess_blob_gas_after(excess, used),
{
    let header = alloy_consensus::Header {
        excess_blob_gas: excess,
        blob_gas_used: used,
        ..Default::default()
    };
    header.next_block_excess_blob_gas()
}

/// The excess blob gas of a block, with the price of blob gas that goes with it.
#[derive(Clone, Copy, Debug, PartialEq, Eq)]
pub struct BlobExcessGasAndPrice {
    pub excess_blob_gas: u64,
    pub blob_gasprice: u128,
}

/// How slowly the price of blob gas changes: it grows by the factor e when the excess grows by this
/// much.
pub const BLOB_GASPRICE_UPDATE_FRACTION: u64 = 3_338_477;

/// A term of the exponential series behind the price of blob gas, scaled by the update fraction
/// and rounded down.
pub open spec fn blob_term(excess_blob_gas: u64, index: nat) -> nat
    decreases index,
{
    if index == 0 {
        BLOB_GASPRICE_UPDATE_FRACTION as nat
    } else {
        blob_term(excess_blob_gas, (index - 1) as nat) * (excess_blob_gas as nat) / (
        BLOB_GASPRICE_UPDATE_FRACTION as nat * index)
    }
}

/// The sum of the first terms of the series.
pub open spec fn blob_terms(excess_blob_gas: u64, count: nat) -> nat
    decreases count,
{
    if count == 0 {
        0
    } else {
        blob_terms(excess_blob_gas, (count - 1) as nat) + blob_term(
            excess_blob_gas,
            (count - 1) as nat,
        )
    }
}

/// The price of blob gas at an excess, as EIP-4844 approximates it: the sum of the terms of the
/// series up to one that is zero, without the scale.
pub open spec fn is_blob_gasprice(excess_blob_gas: u64, price: u128) -> bool {
    exists|count: nat|
        {
            &&& #[trigger] blob_term(excess_blob_gas, count) == 0
            &&& price == blob_terms(excess_blob_gas, count)
                / BLOB_GASPRICE_UPDATE_FRACTION as nat
        }
}

/// `revm_primitives::BlobExcessGasAndPrice::new`: the excess that it is given, and the price at
/// that excess. The series behind the price is computed in 128 bits, which the bound on the excess
/// provides for.
#[verifier::external_body]
fn priced_excess_blob_gas(excess_blob_gas: u64) -> (result: BlobExcessGasAndPrice)
    requires
        excess_blob_gas <= MAX_PRICED_EXCESS_BLOB_GAS,
    ensures
        result.excess_blob_gas == excess_blob_gas,
        is_blob_gasprice(excess_blob_gas, result.blob_gasprice),
{
    let priced = revm_primitives::BlobExcessGasAndPrice::new(excess_blob_gas);
    BlobExcessGasAndPrice {
        excess_blob_gas: priced.excess_blob_gas,
        blob_gasprice: priced.blob_gasprice,
    }
}

/// Whether the base fee after a block can be computed.
pub fn base_fee_computable(
    gas_used: u128,
    gas_limit: u128,
    base_fee: u128,
    params: BaseFeeParams,
) -> (result: bool)
    ensures
        result == base_fee_is_computable(gas_used, gas_limit, base_fee, params),
{
    if params.elasticity_multiplier == 0 {
        return false;
    }
    let target: u128 = gas_limit / params.elasticity_multiplier;
    if gas_used == target {
        return true;
    }
    let gap: u128 = if gas_used > target {
        gas_used - target
    } else {
        target - gas_used
    };
    let scale: u128 = match target.checked_mul(params.max_change_denominator) {
        Some(scale) => scale,
        None => return false,
    };
    if scale == 0 {
        return false;
    }
    let change: u128 = match base_fee.checked_mul(gap) {
        Some(product) => product / scale,
        None => return false,
    };
    if gas_used < target {
        return true;
    }
    let increase: u128 = if change > 1 {
        change
    } else {
        1
    };
    increase <= u128::MAX - base_fee
}

/// The base fee of the block after one with these header fields, if it has a base fee.
pub fn next_block_base_fee(
    gas_used: u128,
    gas_limit: u128,
    base_fee: Option<u128>,
    params: BaseFeeParams,
) -> (result: Option<u128>)
    requires
        base_fee matches Some(fee) ==> base_fee_is_computable(gas_used, gas_limit, fee, params),
    ensures
        match base_fee {
            Some(fee) => result is Some && result->0 == base_fee_after(
                gas_used,
                gas_limit,
                fee,
                params,
            ),
            None => result is None,
        },
{
    header_next_base_fee(gas_used, gas_limit, base_fee, params)
}

/// The excess blob gas of the block after one with these header fields, if it has them.
pub fn next_block_excess_blob_gas(excess: Option<u128>, used: Option<u128>) -> (result: Option<
    u128,
>)
    requires
        blob_gas_is_addable(excess, used),
    ensures
        result == excess_blob_gas_after(excess, used),
{
    header_next_excess_blob_gas(excess, used)
}

impl BlobExcessGasAndPrice {
    /// An excess with the price of blob gas that goes with it.
    pub fn new(excess_blob_gas: u64) -> (result: BlobExcessGasAndPrice)
        requires
            excess_blob_gas <= MAX_PRICED_EXCESS_BLOB_GAS,
        ensures
            result.excess_blob_gas == excess_blob_gas,
            is_blob_gasprice(excess_blob_gas, result.blob_gasprice),
    {
        priced_excess_blob_gas(excess_blob_gas)
    }
}

/// The base fee rises after a block that used more gas than its target, does not rise after one
/// that used less, and stays where the target was met.
pub proof fn lemma_base_fee_follows_target(
    gas_used: u128,
    gas_limit: u128,
    base_fee: u128,
    params: BaseFeeParams,
)
    requires
        base_fee_is_computable(gas_used, gas_limit, base_fee, params),
    ensures
        gas_used > gas_target(gas_limit, params) ==> base_fee_after(
            gas_used,
            gas_limit,
            base_fee,
            params,
        ) > base_fee,
        gas_used < gas_target(gas_limit, params) ==> 0 <= base_fee_after(
            gas_used,
            gas_limit,
            base_fee,
            params,
        ) <= base_fee,
        gas_used == gas_target(gas_limit, params) ==> base_fee_after(
            gas_used,
            gas_limit,
            base_fee,
            params,
        ) == base_fee,
{
    let target = gas_target(gas_limit, params);
    if gas_used < target {
        let change = base_fee * (target - gas_used);
        let scale = target * params.max_change_denominator;
        assert(change >= 0) by (nonlinear_arith)
            requires
                change == base_fee * (target - gas_used),
                target > gas_used,
                base_fee >= 0,
        ;
        vstd::arithmetic::div_mod::lemma_div_pos_is_pos(change, scale);
    }
}

/// Once a term of the series is zero, so are the later ones, and the sum does not change any more.
pub proof fn lemma_series_ends(excess_blob_gas: u64, count: nat, later: nat)
    requires
        blob_term(excess_blob_gas, count) == 0,
        count <= later,
    ensures
        blob_term(excess_blob_gas, later) == 0,
        blob_terms(excess_blob_gas, later) == blob_terms(excess_blob_gas, count),
    decreases later,
{
    if count < later {
        let before = (later - 1) as nat;
        lemma_series_ends(excess_blob_gas, count, before);
        let scale = BLOB_GASPRICE_UPDATE_FRACTION as nat * later;
        assert(0 * (excess_blob_gas as nat) == 0) by (nonlinear_arith);
        assert(scale > 0) by (nonlinear_arith)
            requires
                scale == 3_338_477 * later,
                later > 0,
        ;
        assert(0nat / scale == 0) by (nonlinear_arith)
            requires
                scale > 0,
        ;
    }
}

/// There is one price of blob gas at an excess.
pub proof fn lemma_blob_gasprice_is_unique(excess_blob_gas: u64, one: u128, other: u128)
    requires
        is_blob_gasprice(excess_blob_gas, one),
        is_blob_gasprice(excess_blob_gas, other),
    ensures
        one == other,
{
    let fraction = BLOB_GASPRICE_UPDATE_FRACTION as nat;
    let left = choose|count: nat|
        {
            &&& #[trigger] blob_term(excess_blob_gas, count) == 0
            &&& one == blob_terms(excess_blob_gas, count) / fraction
        };
    let right = choose|count: nat|
        {
            &&& #[trigger] blob_term(excess_blob_gas, count) == 0
            &&& other == blob_terms(excess_blob_gas, count) / fraction
        };
    if left <= right {
        lemma_series_ends(excess_blob_gas, left, right);
    } else {
        lemma_series_ends(excess_blob_gas, right, left);
    }
}

/// The terms of the series, and their sums, grow with the excess.
proof fn lemma_series_grows(excess_blob_gas: u64, greater: u64, count: nat)
    requires
        excess_blob_gas <= greater,
    ensures
        blob_term(excess_blob_gas, count) <= blob_term(greater, count),
        blob_terms(excess_blob_gas, count) <= blob_terms(greater, count),
    decreases count,
{
    if count > 0 {
        let before = (count - 1) as nat;
        lemma_series_grows(excess_blob_gas, greater, before);
        let small = blob_term(excess_blob_gas, before);
        let large = blob_term(greater, before);
        let scale = BLOB_GASPRICE_UPDATE_FRACTION as nat * count;
        assert(small * (excess_blob_gas as nat) <= large * (greater as nat)) by (nonlinear_arith)
            requires
                small <= large,
                excess_blob_gas <= greater,
        ;
        assert(scale > 0) by (nonlinear_arith)
            requires
                scale == 3_338_477 * count,
                count > 0,
        ;
        vstd::arithmetic::div_mod::lemma_div_is_ordered(
            (small * (excess_blob_gas as nat)) as int,
            (large * (greater as nat)) as int,
            scale as int,
        );
    }
}

/// Blob gas has a price of at least one, and a greater excess does not make it cheaper.
pub proof fn lemma_blob_gasprice_grows(
    excess_blob_gas: u64,
    price: u128,
    greater: u64,
    greater_price: u128,
)
    requires
        is_blob_gasprice(excess_blob_gas, price),
        is_blob_gasprice(greater, greater_price),
        excess_blob_gas <= greater,
    ensures
        1 <= price <= greater_price,
{
    let fraction = BLOB_GASPRICE_UPDATE_FRACTION as nat;
    let left = choose|count: nat|
        {
            &&& #[trigger] blob_term(excess_blob_gas, count) == 0
            &&& price == blob_terms(excess_blob_gas, count) / fraction
        };
    let right = choose|count: nat|
        {
            &&& #[trigger] blob_term(greater, count) == 0
            &&& greater_price == blob_terms(greater, count) / fraction
        };
    let both = if left <= right {
        right
    } else {
        left
    };
    lemma_series_ends(excess_blob_gas, left, both);
    lemma_series_ends(greater, right, both);
    lemma_series_grows(excess_blob_gas, greater, both);
    lemma_first_term_counts(excess_blob_gas, left);
    vstd::arithmetic::div_mod::lemma_div_is_ordered(
        blob_terms(excess_blob_gas, both) as int,
        blob_terms(greater, both) as int,
        fraction as int,
    );
}

/// The first term is in every sum that holds a term.
proof fn lemma_first_term_counts(excess_blob_gas: u64, count: nat)
    ensures
        count > 0 ==> blob_terms(excess_blob_gas, count) >= BLOB_GASPRICE_UPDATE_FRACTION,
    decreases count,
{
    if count > 0 {
        lemma_first_term_counts(excess_blob_gas, (count - 1) as nat);
    }
}

} // verus!
