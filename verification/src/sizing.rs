//! The number of hash rounds that suits a bit count and an item count.

use crate::filter::Bloom;
use vstd::prelude::*;

verus! {

/// The natural logarithm of 2 in 64-bit fixed point: `ln 2 * 2^64`, rounded
/// down.
pub const LN2_Q64: u64 = 0xb172_17f7_d1cf_79ab;

/// The smallest number that is at least `a / b`.
pub open spec fn spec_ceil_div(a: nat, b: nat) -> nat
    recommends
        b > 0,
{
    if a % b == 0 {
        a / b
    } else {
        a / b + 1
    }
}

/// The rounded-up quotient is the least multiplier that brings `b` up to
/// `a`.
pub proof fn lemma_ceil_div_is_least(a: nat, b: nat)
    requires
        b > 0,
    ensures
        a <= spec_ceil_div(a, b) * b,
        a > 0 ==> (spec_ceil_div(a, b) - 1) * b < a,
        a == 0 ==> spec_ceil_div(a, b) == 0,
{
    vstd::arithmetic::div_mod::lemma_fundamental_div_mod(a as int, b as int);
    let q = a as int / b as int;
    assert((q + 1) * b == q * b + b) by (nonlinear_arith);
    assert((q - 1) * b == q * b - b) by (nonlinear_arith);
    assert(b * q == q * b) by (nonlinear_arith);
    if a == 0 {
        assert(0int / b as int == 0) by (nonlinear_arith)
            requires
                b > 0,
        ;
    } else if a % b == 0 {
        assert(q > 0) by (nonlinear_arith)
            requires
                a == b * q,
                a > 0,
                b > 0,
        ;
    }
}

/// The number of hash rounds for `bit_count` bits and `items_count` items:
/// `bit_count / items_count * ln 2` rounded up, with `ln 2` taken as
/// `LN2_Q64 / 2^64`, at least 1 and at most `u32::MAX`.
pub open spec fn spec_optimal_k(bit_count: nat, items_count: nat) -> nat
    recommends
        items_count > 0,
{
    let exact = spec_ceil_div(bit_count * LN2_Q64 as nat, items_count * 0x1_0000_0000_0000_0000);
    if exact < 1 {
        1
    } else if exact > u32::MAX {
        u32::MAX as nat
    } else {
        exact
    }
}

/// The number of rounds is never below 1 and fits 32 bits.
pub proof fn lemma_optimal_k_bounds(bit_count: nat, items_count: nat)
    ensures
        1 <= spec_optimal_k(bit_count, items_count) <= u32::MAX,
{
}

/// Between the two bounds the number of rounds `k` is the least with
/// `bit_count / items_count * ln 2 <= k`, with `ln 2` taken as
/// `LN2_Q64 / 2^64`.
pub proof fn lemma_optimal_k_is_least(bit_count: nat, items_count: nat)
    requires
        items_count > 0,
    ensures
        spec_optimal_k(bit_count, items_count) < u32::MAX ==> bit_count * LN2_Q64
            <= spec_optimal_k(bit_count, items_count) * (items_count * 0x1_0000_0000_0000_0000),
        spec_optimal_k(bit_count, items_count) > 1 ==> (spec_optimal_k(bit_count, items_count) - 1)
            * (items_count * 0x1_0000_0000_0000_0000) < bit_count * LN2_Q64,
{
    let scaled_bits = bit_count * LN2_Q64 as nat;
    let scaled_items = items_count * 0x1_0000_0000_0000_0000;
    let exact = spec_ceil_div(scaled_bits, scaled_items);
    let k = spec_optimal_k(bit_count, items_count);
    lemma_ceil_div_is_least(scaled_bits, scaled_items);
    if exact < 1 {
        assert(exact * scaled_items == 0) by (nonlinear_arith)
            requires
                exact == 0,
        ;
        assert(k * scaled_items == scaled_items) by (nonlinear_arith)
            requires
                k == 1,
        ;
    } else if exact > u32::MAX {
        assert((k - 1) * scaled_items <= (exact - 1) * scaled_items) by (nonlinear_arith)
            requires
                k <= exact,
                scaled_items > 0,
        ;
    }
}

/// A number of rounds between the two bounds that is the least with
/// `bit_count / items_count * ln 2 <= k` is the number of rounds of the
/// filter; the bounds themselves need one side only.
pub proof fn lemma_least_is_optimal_k(bit_count: nat, items_count: nat, k: nat)
    requires
        items_count > 0,
        1 <= k <= u32::MAX,
        k < u32::MAX ==> bit_count * LN2_Q64 <= k * (items_count * 0x1_0000_0000_0000_0000),
        k > 1 ==> (k - 1) * (items_count * 0x1_0000_0000_0000_0000) < bit_count * LN2_Q64,
    ensures
        spec_optimal_k(bit_count, items_count) == k,
{
    let scaled_bits = bit_count * LN2_Q64 as nat;
    let scaled_items = items_count * 0x1_0000_0000_0000_0000;
    let exact = spec_ceil_div(scaled_bits, scaled_items);
    lemma_ceil_div_is_least(scaled_bits, scaled_items);
    if exact < k {
        assert(exact * scaled_items <= (k - 1) * scaled_items) by (nonlinear_arith)
            requires
                exact <= k - 1,
                scaled_items > 0,
        ;
    } else if exact > k {
        assert(k * scaled_items <= (exact - 1) * scaled_items) by (nonlinear_arith)
            requires
                k <= exact - 1,
                scaled_items > 0,
        ;
    }
}

impl Bloom {
    /// The number of hash rounds for a filter of `bitmap_bits` bits that is
    /// to hold `items_count` items.
    pub fn optimal_k_num(bitmap_bits: u64, items_count: usize) -> (k_num: u32)
        requires
            items_count > 0,
        ensures
            k_num == spec_optimal_k(bitmap_bits as nat, items_count as nat),
            k_num >= 1,
    {
        let scaled_bits: u128 = (bitmap_bits as u128) * (LN2_Q64 as u128);
        let scaled_items: u128 = (items_count as u128) * 0x1_0000_0000_0000_0000u128;
        let quotient: u128 = scaled_bits / scaled_items;
        let exact: u128 = if scaled_bits % scaled_items == 0 {
            quotient
        } else {
            quotient + 1
        };
        if exact < 1 {
            1
        } else if exact > u32::MAX as u128 {
            u32::MAX
        } else {
            exact as u32
        }
    }
}

} // verus!
