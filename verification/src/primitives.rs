//! Fixed-width Ethereum values: 256-bit integers, addresses and hashes.

use vstd::prelude::*;

verus! {

/// A 256-bit unsigned integer, held as four 64-bit limbs, the least significant first.
///
/// Its view is the number that the limbs stand for.
#[derive(Clone, Copy, Debug, PartialEq, Eq)]
pub struct U256 {
    pub limbs: [u64; 4],
}

/// The number that a sequence of four little-endian limbs stands for.
pub open spec fn limbs_value(limbs: Seq<u64>) -> nat {
    (limbs[0] + limbs[1] * 0x1_0000_0000_0000_0000int
        + limbs[2] * 0x1_0000_0000_0000_0000_0000_0000_0000_0000int
        + limbs[3] * 0x1_0000_0000_0000_0000_0000_0000_0000_0000_0000_0000_0000_0000int) as nat
}

/// One more than the greatest 256-bit integer.
pub open spec fn u256_modulus() -> nat {
    0x1_0000_0000_0000_0000_0000_0000_0000_0000_0000_0000_0000_0000_0000_0000_0000_0000nat
}

impl View for U256 {
    type V = nat;

    open spec fn view(&self) -> nat {
        limbs_value(self.limbs@)
    }
}

/// `alloy_primitives::U256::from` on a `u128`: the 256-bit integer with the same value.
#[verifier::external_body]
fn u256_of_u128(value: u128) -> (result: U256)
    ensures
        result@ == value,
{
    U256 { limbs: alloy_primitives::U256::from(value).into_limbs() }
}

/// `alloy_primitives::U256::saturating_sub`: the difference, or zero where it would be negative.
#[verifier::external_body]
fn u256_saturating_sub(left: U256, right: U256) -> (result: U256)
    ensures
        result@ == if left@ >= right@ {
            (left@ - right@) as nat
        } else {
            0
        },
{
    let difference = alloy_primitives::U256::from_limbs(left.limbs).saturating_sub(
        alloy_primitives::U256::from_limbs(right.limbs),
    );
    U256 { limbs: difference.into_limbs() }
}

/// `*` on `alloy_primitives::U256`: the product, reduced modulo two to the power 256.
#[verifier::external_body]
fn u256_product(left: U256, right: U256) -> (result: U256)
    ensures
        result@ == (left@ * right@) % u256_modulus(),
{
    let product = alloy_primitives::U256::from_limbs(left.limbs)
        * alloy_primitives::U256::from_limbs(right.limbs);
    U256 { limbs: product.into_limbs() }
}

/// `>=` on `alloy_primitives::U256`: whether the first number is at least the second.
#[verifier::external_body]
fn u256_at_least(left: U256, right: U256) -> (result: bool)
    ensures
        result == (left@ >= right@),
{
    alloy_primitives::U256::from_limbs(left.limbs) >= alloy_primitives::U256::from_limbs(
        right.limbs,
    )
}

impl U256 {
    /// Zero.
    pub fn zero() -> (result: U256)
        ensures
            result@ == 0,
    {
        U256 { limbs: [0u64, 0u64, 0u64, 0u64] }
    }

    /// The 256-bit integer with the value of a `u64`.
    pub fn from_u64(value: u64) -> (result: U256)
        ensures
            result@ == value,
    {
        u256_of_u128(value as u128)
    }

    /// The 256-bit integer with the value of a `u128`.
    pub fn from_u128(value: u128) -> (result: U256)
        ensures
            result@ == value,
    {
        u256_of_u128(value)
    }

    /// The difference of two numbers, or zero where it would be negative.
    pub fn saturating_sub(self, other: U256) -> (result: U256)
        ensures
            result@ == if self@ >= other@ {
                (self@ - other@) as nat
            } else {
                0
            },
    {
        u256_saturating_sub(self, other)
    }

    /// The product of two numbers, reduced modulo two to the power 256.
    pub fn wrapping_mul(self, other: U256) -> (result: U256)
        ensures
            result@ == (self@ * other@) % u256_modulus(),
    {
        u256_product(self, other)
    }

    /// Whether this number is at least the other one.
    pub fn at_least(self, other: U256) -> (result: bool)
        ensures
            result == (self@ >= other@),
    {
        u256_at_least(self, other)
    }
}

/// A 20-byte account address.
#[derive(Clone, Copy, Debug, PartialEq, Eq)]
pub struct Address {
    pub bytes: [u8; 20],
}

impl Address {
    /// Whether two addresses hold the same bytes.
    pub fn same(&self, other: &Address) -> (result: bool)
        ensures
            result == (*self == *other),
    {
        let mut i: usize = 0;
        while i < 20
            invariant
                i <= 20,
                forall|j: int| 0 <= j < i ==> self.bytes@[j] == other.bytes@[j],
            decreases 20 - i,
        {
            if self.bytes[i] != other.bytes[i] {
                assert(self.bytes@[i as int] != other.bytes@[i as int]);
                return false;
            }
            i = i + 1;
        }
        assert(self.bytes =~= other.bytes);
        true
    }
}

/// A 32-byte hash.
#[derive(Clone, Copy, Debug, PartialEq, Eq)]
pub struct B256 {
    pub bytes: [u8; 32],
}

/// The hash of a transaction.
pub type TxHash = B256;

impl B256 {
    /// The bytes of the hash, in order.
    pub fn to_vec(&self) -> (result: Vec<u8>)
        ensures
            result@ == self.bytes@,
    {
        let mut result: Vec<u8> = Vec::new();
        let mut i: usize = 0;
        while i < 32
            invariant
                i <= 32,
                result@ == self.bytes@.take(i as int),
            decreases 32 - i,
        {
            result.push(self.bytes[i]);
            assert(self.bytes@.take(i + 1) =~= self.bytes@.take(i as int).push(
                self.bytes@[i as int],
            ));
            i = i + 1;
        }
        assert(self.bytes@.take(32) =~= self.bytes@);
        result
    }
}

/// What a transaction calls.
#[derive(Clone, Copy, Debug, PartialEq, Eq)]
pub enum TxKind {
    /// The transaction creates a contract.
    Create,
    /// The transaction calls the account at an address.
    Call(Address),
}

} // verus!
