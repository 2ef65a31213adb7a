//! Laws of the block that comes next: its fees, its gas limit and its environment.

use vstd::prelude::*;
use crate::config;
use crate::env::{BlockEnv, Header, NextBlockEnvAttributes};
use crate::fees::{self, BaseFeeParams};
use crate::hardfork::{ChainSpec, EthereumHardfork, ForkCondition};

verus! {

/// After a block that used its target the base fee stays. After one that used more it rises by the
/// part of the base fee that the surplus is of the target, over the denominator, and by one at
/// least. After one that used less it falls by that part.
pub proof fn lemma_base_fee_moves_with_use(
    gas_used: u128,
    gas_limit: u128,
    base_fee: u128,
    params: BaseFeeParams,
    target: int,
    change: int,
)
    requires
        params.elasticity_multiplier > 0,
        params.max_change_denominator > 0,
        target == gas_limit as int / params.elasticity_multiplier as int,
        target > 0,
        gas_used >= target ==> change == (base_fee * (gas_used - target)) / (target
            * params.max_change_denominator),
        gas_used < target ==> change == (base_fee * (target - gas_used)) / (target
            * params.max_change_denominator),
    ensures
        ({
            let next = fees::base_fee_after(gas_used, gas_limit, base_fee, params);
            &&& gas_used == target ==> next == base_fee
            &&& gas_used > target && change >= 1 ==> next == base_fee + change
            &&& gas_used > target && change == 0 ==> next == base_fee + 1
            &&& gas_used < target ==> next == base_fee - change
            &&& gas_used < target && change >= 1 ==> next < base_fee
            &&& 0 <= change
        }),
{
    let scale = target * params.max_change_denominator;
    assert(scale > 0) by (nonlinear_arith)
        requires
            scale == target * params.max_change_denominator,
            target > 0,
            params.max_change_denominator > 0,
    ;
    let gap = if gas_used >= target {
        gas_used - target
    } else {
        target - gas_used
    };
    let product = base_fee * gap;
    assert(product >= 0) by (nonlinear_arith)
        requires
            product == base_fee * gap,
            gap >= 0,
            base_fee >= 0,
    ;
    vstd::arithmetic::div_mod::lemma_div_pos_is_pos(product, scale);
    if gas_used < target {
        // the gap is at most the target, so the change is at most the base fee
        assert(product <= base_fee * scale) by (nonlinear_arith)
            requires
                product == base_fee * gap,
                scale == target * params.max_change_denominator,
                0 <= gap <= target,
                params.max_change_denominator >= 1,
                base_fee >= 0,
        ;
        vstd::arithmetic::div_mod::lemma_div_is_ordered(product, base_fee * scale, scale);
        vstd::arithmetic::div_mod::lemma_div_by_multiple(base_fee as int, scale);
    }
}

/// After a block that used its target the base fee stays, however small the target is.
pub proof fn lemma_base_fee_stays_at_target(
    gas_used: u128,
    gas_limit: u128,
    base_fee: u128,
    params: BaseFeeParams,
)
    requires
        params.elasticity_multiplier > 0,
        gas_used == gas_limit as int / params.elasticity_multiplier as int,
    ensures
        fees::base_fee_after(gas_used, gas_limit, base_fee, params) == base_fee,
{
}

/// A change of the base fee can be computed where nothing on the way leaves 128 bits and nothing is
/// divided by zero, and a base fee that stays always can.
pub proof fn lemma_base_fee_can_be_computed(
    gas_used: u128,
    gas_limit: u128,
    base_fee: u128,
    params: BaseFeeParams,
    target: int,
)
    requires
        params.elasticity_multiplier > 0 ==> target == gas_limit as int
            / params.elasticity_multiplier as int,
    ensures
        params.elasticity_multiplier == 0 ==> !fees::base_fee_is_computable(
            gas_used,
            gas_limit,
            base_fee,
            params,
        ),
        params.elasticity_multiplier > 0 && gas_used == target ==> fees::base_fee_is_computable(
            gas_used,
            gas_limit,
            base_fee,
            params,
        ),
        params.elasticity_multiplier > 0 && gas_used < target ==> (fees::base_fee_is_computable(
            gas_used,
            gas_limit,
            base_fee,
            params,
        ) <==> {
            &&& 0 < target * params.max_change_denominator <= u128::MAX
            &&& base_fee * (target - gas_used) <= u128::MAX
        }),
        params.elasticity_multiplier > 0 && gas_used > target ==> (fees::base_fee_is_computable(
            gas_used,
            gas_limit,
            base_fee,
            params,
        ) <==> {
            let scale = target * params.max_change_denominator;
            &&& 0 < scale <= u128::MAX
            &&& base_fee * (gas_used - target) <= u128::MAX
            &&& base_fee < u128::MAX
            &&& base_fee + (base_fee * (gas_used - target)) / scale <= u128::MAX
        }),
{
    if params.elasticity_multiplier > 0 && gas_used < target {
        let scale = target * params.max_change_denominator;
        let product = base_fee * (target - gas_used);
        assert(product >= 0) by (nonlinear_arith)
            requires
                product == base_fee * (target - gas_used),
                gas_used < target,
                base_fee >= 0,
        ;
        if scale > 0 {
            vstd::arithmetic::div_mod::lemma_div_pos_is_pos(product, scale);
        }
    }
}

/// The excess blob gas that a block leaves is what it and its own excess are above the target of
/// 393216 together, and never below zero. It is known exactly where both are.
pub proof fn lemma_excess_is_above_target(excess: Option<u128>, used: Option<u128>)
    requires
        fees::blob_gas_is_addable(excess, used),
    ensures
        (fees::excess_blob_gas_after(excess, used) is Some) <==> excess is Some && used is Some,
        excess is Some && used is Some ==> {
            let left = fees::excess_blob_gas_after(excess, used)->0;
            &&& excess->0 + used->0 >= 393_216 ==> left + 393_216 == excess->0 + used->0
            &&& excess->0 + used->0 <= 393_216 ==> left == 0
        },
{
}

/// The two fields can be added unless both are there and their sum leaves 128 bits.
pub proof fn lemma_blob_gas_can_be_added(excess: Option<u128>, used: Option<u128>)
    ensures
        !fees::blob_gas_is_addable(excess, used) <==> excess is Some && used is Some && excess->0
            + used->0 > u128::MAX,
{
}

/// The price of blob gas is the sum of a series, over 3338477: the first term is 3338477, each
/// later one is the one before times the excess, over 3338477 and its index, and the series ends
/// at the first term that is zero.
pub proof fn lemma_blob_price_is_a_series(
    excess: u64,
    price: u128,
    terms: Seq<int>,
    sums: Seq<int>,
)
    requires
        fees::is_blob_gasprice(excess, price),
        terms.len() >= 1,
        sums.len() == terms.len(),
        terms[0] == 3_338_477,
        sums[0] == 0,
        forall|k: int|
            #![trigger terms[k]]
            1 <= k < terms.len() ==> terms[k] == (terms[k - 1] * excess) / (3_338_477 * k),
        forall|k: int|
            #![trigger sums[k]]
            1 <= k < sums.len() ==> sums[k] == sums[k - 1] + terms[k - 1],
        terms.last() == 0,
    ensures
        price == sums.last() / 3_338_477,
{
    let last = (terms.len() - 1) as nat;
    lemma_series_is_followed(excess, terms, sums, last);
    let fraction = fees::BLOB_GASPRICE_UPDATE_FRACTION as nat;
    assert(fees::blob_term(excess, last) == 0);
    let other = (fees::blob_terms(excess, last) / fraction) as int;
    let count = choose|count: nat|
        {
            &&& #[trigger] fees::blob_term(excess, count) == 0
            &&& price == fees::blob_terms(excess, count) / fraction
        };
    if count <= last {
        fees::lemma_series_ends(excess, count, last);
    } else {
        fees::lemma_series_ends(excess, last, count);
    }
    assert(price == other);
}

/// The terms and the sums of the series, step by step.
proof fn lemma_series_is_followed(excess: u64, terms: Seq<int>, sums: Seq<int>, index: nat)
    requires
        sums.len() == terms.len(),
        index < terms.len(),
        terms[0] == 3_338_477,
        sums[0] == 0,
        forall|k: int|
            #![trigger terms[k]]
            1 <= k < terms.len() ==> terms[k] == (terms[k - 1] * excess) / (3_338_477 * k),
        forall|k: int|
            #![trigger sums[k]]
            1 <= k < sums.len() ==> sums[k] == sums[k - 1] + terms[k - 1],
    ensures
        terms[index as int] == fees::blob_term(excess, index),
        sums[index as int] == fees::blob_terms(excess, index),
    decreases index,
{
    if index > 0 {
        lemma_series_is_followed(excess, terms, sums, (index - 1) as nat);
    }
}

/// The block after a parent away from the London boundary keeps the parent's gas limit. Its base
/// fee is the one that follows from the parent's, which falls where the parent used less than its
/// target and the change is not zero, and is zero where the parent has none.
pub proof fn lemma_next_block_away_from_london(
    chain_spec: ChainSpec,
    parent: Header,
    attributes: NextBlockEnvAttributes,
    params: BaseFeeParams,
    block: BlockEnv,
    target: int,
    change: int,
)
    requires
        config::is_next_block_env(chain_spec, parent, attributes, params, block),
        parent.number < u64::MAX,
        chain_spec.condition(EthereumHardfork::London) != ForkCondition::Block(
            (parent.number + 1) as u64,
        ),
        params.elasticity_multiplier > 0,
        params.max_change_denominator > 0,
        target == parent.gas_limit as int / params.elasticity_multiplier as int,
        target > 0,
        parent.base_fee_per_gas matches Some(fee) ==> {
            &&& parent.gas_used >= target ==> change == (fee * (parent.gas_used - target)) / (target
                * params.max_change_denominator)
            &&& parent.gas_used < target ==> change == (fee * (target - parent.gas_used)) / (target
                * params.max_change_denominator)
        },
    ensures
        block.gas_limit@ == parent.gas_limit,
        parent.base_fee_per_gas is None ==> block.basefee@ == 0,
        parent.base_fee_per_gas matches Some(fee) ==> {
            &&& parent.gas_used == target ==> block.basefee@ == fee
            &&& parent.gas_used > target && change >= 1 ==> block.basefee@ == fee + change
            &&& parent.gas_used > target && change == 0 ==> block.basefee@ == fee + 1
            &&& parent.gas_used < target ==> block.basefee@ == fee - change
            &&& parent.gas_used < target && change >= 1 ==> block.basefee@ < fee
        },
{
    if let Some(fee) = parent.base_fee_per_gas {
        lemma_base_fee_moves_with_use(
            parent.gas_used,
            parent.gas_limit,
            fee,
            params,
            target,
            change,
        );
    }
}

/// The base fee of the block after a parent away from the London boundary is what EIP-1559 makes of
/// the parent's, for every parent that has one.
pub proof fn lemma_next_base_fee_follows_parent(
    chain_spec: ChainSpec,
    parent: Header,
    attributes: NextBlockEnvAttributes,
    params: BaseFeeParams,
    block: BlockEnv,
)
    requires
        config::is_next_block_env(chain_spec, parent, attributes, params, block),
        parent.number < u64::MAX,
        chain_spec.condition(EthereumHardfork::London) != ForkCondition::Block(
            (parent.number + 1) as u64,
        ),
    ensures
        parent.base_fee_per_gas matches Some(fee) ==> block.basefee@ == fees::base_fee_after(
            parent.gas_used,
            parent.gas_limit,
            fee,
            params,
        ),
        parent.base_fee_per_gas is None ==> block.basefee@ == 0,
        block.gas_limit@ == parent.gas_limit,
{
}

/// The first block of London has a base fee of 1000000000 and the parent's gas limit times the
/// elasticity multiplier, whatever base fee the parent had.
pub proof fn lemma_first_block_of_london(
    chain_spec: ChainSpec,
    parent: Header,
    attributes: NextBlockEnvAttributes,
    params: BaseFeeParams,
    block: BlockEnv,
)
    requires
        config::is_next_block_env(chain_spec, parent, attributes, params, block),
        parent.number < u64::MAX,
        chain_spec.condition(EthereumHardfork::London) == ForkCondition::Block(
            (parent.number + 1) as u64,
        ),
    ensures
        block.basefee@ == 1_000_000_000,
        block.gas_limit@ == parent.gas_limit * params.elasticity_multiplier,
{
}

/// The next block has the number after the parent's, and from the attributes its time, its
/// beneficiary and its randomness. It has no difficulty.
pub proof fn lemma_next_block_is_as_asked(
    chain_spec: ChainSpec,
    parent: Header,
    attributes: NextBlockEnvAttributes,
    params: BaseFeeParams,
    block: BlockEnv,
)
    requires
        config::is_next_block_env(chain_spec, parent, attributes, params, block),
    ensures
        block.number@ == parent.number + 1,
        block.timestamp@ == attributes.timestamp,
        block.coinbase == attributes.suggested_fee_recipient,
        block.prevrandao == Some(attributes.prev_randao),
        block.difficulty@ == 0,
{
}

/// The next block has blob gas where the parent has its excess and its use, or else where Cancun is
/// active at the time of the block and Prague is not. Its excess is what the parent's sum is above
/// 393216, in 64 bits, and zero where the parent has none.
pub proof fn lemma_next_blob_gas(
    chain_spec: ChainSpec,
    parent: Header,
    attributes: NextBlockEnvAttributes,
    params: BaseFeeParams,
    block: BlockEnv,
)
    requires
        config::is_next_block_env(chain_spec, parent, attributes, params, block),
        fees::blob_gas_is_addable(parent.excess_blob_gas, parent.blob_gas_used),
    ensures
        ({
            let known = parent.excess_blob_gas is Some && parent.blob_gas_used is Some;
            let cancun = (chain_spec.condition(
                EthereumHardfork::Cancun,
            ) matches ForkCondition::Timestamp(time) && attributes.timestamp >= time) && !(
            chain_spec.condition(EthereumHardfork::Prague) matches ForkCondition::Timestamp(time)
                && attributes.timestamp >= time);
            &&& (block.blob_excess_gas_and_price is Some) <==> known || cancun
            &&& block.blob_excess_gas_and_price matches Some(priced) ==> {
                let sum = parent.excess_blob_gas->0 + parent.blob_gas_used->0;
                &&& !known ==> priced.excess_blob_gas == 0
                &&& known && sum <= 393_216 ==> priced.excess_blob_gas == 0
                &&& known && 393_216 <= sum ==> priced.excess_blob_gas == (sum - 393_216)
                    % 0x1_0000_0000_0000_0000
                &&& fees::is_blob_gasprice(priced.excess_blob_gas, priced.blob_gasprice)
            }
        }),
{
}

/// The fees of a next block can be computed unless the parent is the last block that has a number,
/// or its blob gas or its base fee leaves the range in which it is computed.
pub proof fn lemma_fees_can_be_computed(parent: Header, params: BaseFeeParams)
    ensures
        config::fees_are_computable(parent, params) <==> {
            &&& parent.number < u64::MAX
            &&& parent.base_fee_per_gas matches Some(fee) ==> fees::base_fee_is_computable(
                parent.gas_used,
                parent.gas_limit,
                fee,
                params,
            )
            &&& parent.excess_blob_gas is Some && parent.blob_gas_used is Some ==> {
                let sum = parent.excess_blob_gas->0 + parent.blob_gas_used->0;
                &&& sum <= u128::MAX
                &&& sum > 393_216 ==> (sum - 393_216) % 0x1_0000_0000_0000_0000 <= 192_204_552
            }
        },
{
}

} // verus!
