//! Laws of 256-bit numbers.

use vstd::prelude::*;
use crate::primitives::{self, U256};

verus! {

/// A number is that of its limbs, the least significant first: a limb counts as often as there are
/// numbers below it.
pub proof fn lemma_limbs_count_by_place(number: U256)
    ensures
        number@ == number.limbs@[0] + 0x1_0000_0000_0000_0000 * (number.limbs@[1]
            + 0x1_0000_0000_0000_0000 * (number.limbs@[2] + 0x1_0000_0000_0000_0000
            * number.limbs@[3])),
{
}

/// Numbers are below the modulus, and the one whose limbs are all as great as they can be is the
/// last below it.
pub proof fn lemma_modulus_follows_greatest_number(number: U256)
    ensures
        number@ < primitives::u256_modulus(),
        (forall|i: int| 0 <= i < 4 ==> #[trigger] number.limbs@[i] == u64::MAX) ==> number@ + 1
            == primitives::u256_modulus(),
{
}

} // verus!
