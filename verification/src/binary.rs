//! Bit lengths and binary logarithms: their mathematical meaning, and
//! constant-time routines that read them off the count of leading zeros.

use vstd::arithmetic::div_mod::lemma_basic_div;
use vstd::arithmetic::power2::{lemma2_to64, lemma_pow2_pos, lemma_pow2_strictly_increases, lemma_pow2_unfold, pow2};
use vstd::bits::{lemma_u16_shr_is_div, lemma_u32_shr_is_div};
use vstd::prelude::*;
use vstd::std_specs::bits::{axiom_u16_leading_zeros, axiom_u32_leading_zeros};

verus! {

/// `floor(log2(n))`, by repeated halving: the position of the highest set
/// bit of `n`. It is `0` for `n < 2`, so also for `n == 0`.
pub open spec fn floor_log2(n: nat) -> nat
    decreases n,
{
    if n < 2 {
        0
    } else {
        1 + floor_log2(n / 2)
    }
}

/// The number of bits needed to write `n`: `0` for `0`, else
/// `floor_log2(n) + 1`.
pub open spec fn bit_length(n: nat) -> nat {
    if n == 0 {
        0
    } else {
        floor_log2(n) + 1
    }
}

/// A positive `n` lies between the power of two that `floor_log2(n)` names
/// and the next one.
pub proof fn lemma_floor_log2_bounds(n: nat)
    requires
        n >= 1,
    ensures
        pow2(floor_log2(n)) <= n < pow2(floor_log2(n) + 1),
    decreases n,
{
    lemma2_to64();
    if n >= 2 {
        lemma_floor_log2_bounds(n / 2);
        lemma_pow2_unfold(floor_log2(n));
        lemma_pow2_unfold(floor_log2(n) + 1);
    }
}

/// The enclosing powers of two determine the binary logarithm.
pub proof fn lemma_floor_log2_unique(n: nat, k: nat)
    requires
        pow2(k) <= n < pow2(k + 1),
    ensures
        floor_log2(n) == k,
{
    lemma_pow2_pos(k);
    lemma_floor_log2_bounds(n);
    let e = floor_log2(n);
    if e < k {
        if e + 1 < k {
            lemma_pow2_strictly_increases(e + 1, k);
        }
    } else if e > k {
        if k + 1 < e {
            lemma_pow2_strictly_increases(k + 1, e);
        }
    }
}

/// A positive number below `2^w` has a binary logarithm below `w`.
pub proof fn lemma_floor_log2_fits(n: nat, w: nat)
    requires
        1 <= n < pow2(w),
    ensures
        floor_log2(n) < w,
{
    lemma_floor_log2_bounds(n);
    if floor_log2(n) > w {
        lemma_pow2_strictly_increases(w, floor_log2(n));
    }
}

/// `floor(log2(x))` of a positive 16-bit integer.
pub fn floor_log2_u16(x: u16) -> (k: u32)
    requires
        x >= 1,
    ensures
        k == floor_log2(x as nat),
        k <= 15,
        pow2(k as nat) <= x < pow2(k as nat + 1),
{
    let zeros: u32 = x.leading_zeros();
    proof {
        axiom_u16_leading_zeros(x);
        let low: u16 = (15 - zeros) as u16;
        let high: u16 = (16 - zeros) as u16;
        let top: u16 = x >> low;
        assert(top != 0) by (bit_vector)
            requires
                top & 1u16 != 0u16,
        ;
        lemma_u16_shr_is_div(x, low);
        lemma_pow2_pos(low as nat);
        if x < pow2(low as nat) {
            lemma_basic_div(x as int, pow2(low as nat) as int);
        }
        if high < 16 {
            lemma_u16_shr_is_div(x, high);
            lemma_pow2_pos(high as nat);
            lemma_div_zero_is_small(x as nat, pow2(high as nat));
        } else {
            lemma2_to64();
        }
        lemma_floor_log2_unique(x as nat, low as nat);
    }
    15 - zeros
}

/// The bit length of a 32-bit integer: `0` for `0`, else one more than the
/// position of its highest set bit.
pub fn bit_length_u32(x: u32) -> (b: u32)
    ensures
        b == bit_length(x as nat),
        b <= 32,
        x == 0 <==> b == 0,
        b >= 1 ==> pow2((b - 1) as nat) <= x < pow2(b as nat),
{
    let zeros: u32 = x.leading_zeros();
    proof {
        axiom_u32_leading_zeros(x);
        if x != 0 {
            let low: u32 = (31 - zeros) as u32;
            let high: u32 = (32 - zeros) as u32;
            let top: u32 = x >> low;
            assert(top != 0) by (bit_vector)
                requires
                    top & 1u32 != 0u32,
            ;
            lemma_u32_shr_is_div(x, low);
            lemma_pow2_pos(low as nat);
            if x < pow2(low as nat) {
                lemma_basic_div(x as int, pow2(low as nat) as int);
            }
            if high < 32 {
                lemma_u32_shr_is_div(x, high);
                lemma_pow2_pos(high as nat);
                lemma_div_zero_is_small(x as nat, pow2(high as nat));
            } else {
                lemma2_to64();
            }
            lemma_floor_log2_unique(x as nat, low as nat);
        }
    }
    32 - zeros
}

/// A quotient of zero means that the dividend is below the divisor.
proof fn lemma_div_zero_is_small(x: nat, d: nat)
    requires
        d > 0,
        x / d == 0,
    ensures
        x < d,
{
    assert(x == d * (x / d) + x % d) by (nonlinear_arith)
        requires
            d > 0,
    ;
    assert(x % d < d) by (nonlinear_arith)
        requires
            d > 0,
    ;
}

} // verus!
