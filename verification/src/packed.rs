//! `floor(log10(x))` of a 32-bit integer without a comparison: one table
//! entry per bit length packs the guess and its correction into 64 bits, so
//! that one addition and one shift give the exact result.

use crate::binary::{bit_length, bit_length_u32, floor_log2, lemma_floor_log2_bounds, lemma_floor_log2_fits};
use crate::decimal::{
    decimal_digits, floor_log10, lemma_floor_log10_bounds, lemma_floor_log10_is_digits_minus_one,
    lemma_floor_log10_reaches, lemma_floor_log10_within_doubling, lemma_pow10_positive, pow10,
};
use crate::guided::{guided_log10, lemma_guided_log10_exact};
use crate::tables::{guess_for, lemma_packed_table, PACKED_TABLE};
use vstd::arithmetic::power2::{lemma2_to64, lemma_pow2_pos, lemma_pow2_unfold, pow2};
use vstd::prelude::*;

verus! {

/// What the packed routine computes: the upper half of the sum of `x` and
/// the table entry for its bit length.
pub open spec fn packed_log10(x: u32) -> nat {
    ((x + PACKED_TABLE@[bit_length(x as nat) as int]) / 0x1_0000_0000) as nat
}

/// Adding `x` to the entry for its bit length carries into the upper half
/// exactly when `x` has left the guessed decade: the packed computation is
/// exact on every input, and gives `0` for `0`.
pub proof fn lemma_packed_log10_exact(x: u32)
    ensures
        packed_log10(x) == floor_log10(x as nat),
        x == 0 ==> packed_log10(x) == 0,
{
    let b = bit_length(x as nat);
    if x == 0 {
        lemma_packed_table(0);
    } else {
        let k = floor_log2(x as nat);
        lemma2_to64();
        lemma_floor_log2_fits(x as nat, 32);
        lemma_floor_log2_bounds(x as nat);
        lemma_pow2_pos(k);
        lemma_pow2_unfold(k + 1);
        lemma_packed_table(b as int);
        let guess = guess_for(k);
        lemma_floor_log10_within_doubling(pow2(k), x as nat);
        lemma_floor_log10_reaches(x as nat, guess + 1);
        lemma_pow10_positive(guess + 1);
        lemma_pow2_below_2_32(b);
    }
}

/// The two routines agree wherever both are defined: on every positive
/// 16-bit integer, taken as it is by the one and widened for the other.
pub proof fn lemma_packed_agrees_with_guided(x: u16)
    requires
        x >= 1,
    ensures
        packed_log10(x as u32) == guided_log10(x),
{
    lemma_guided_log10_exact(x);
    lemma_packed_log10_exact(x as u32);
}

/// The floor of the base-10 logarithm of `x`, and `0` for `x == 0`: one
/// less than the number of decimal digits of `x`.
pub fn log10_u32(x: u32) -> (r: u32)
    ensures
        r == floor_log10(x as nat),
        r == decimal_digits(x as nat) - 1,
        x == 0 ==> r == 0,
        x >= 1 ==> pow10(r as nat) <= x < pow10(r as nat + 1),
        r == packed_log10(x),
        r <= 9,
{
    let bits: usize = bit_length_u32(x) as usize;
    let entry: u64 = PACKED_TABLE[bits];
    proof {
        lemma_packed_table(bits as int);
        lemma_packed_log10_exact(x);
        lemma_floor_log10_is_digits_minus_one(x as nat);
        if x >= 1 {
            lemma_floor_log10_bounds(x as nat);
        }
    }
    let sum: u64 = x as u64 + entry;
    assert(sum >> 32 == sum / 0x1_0000_0000) by (bit_vector);
    (sum >> 32) as u32
}

/// No power of two with an exponent up to 32 exceeds `2^32`.
proof fn lemma_pow2_below_2_32(b: nat)
    requires
        b <= 32,
    ensures
        pow2(b) <= 0x1_0000_0000,
{
    lemma2_to64();
    if b < 32 {
        vstd::arithmetic::power2::lemma_pow2_strictly_increases(b, 32);
    }
}

} // verus!
