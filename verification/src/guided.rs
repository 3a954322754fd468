//! `floor(log10(x))` of a 16-bit integer, guided by its binary logarithm: a
//! table turns `floor(log2(x))` into a guess that is exact or one too low,
//! and one comparison against the end of the guessed decade settles which.

use crate::binary::{floor_log2, floor_log2_u16, lemma_floor_log2_bounds, lemma_floor_log2_fits};
use crate::decimal::{
    decimal_digits, floor_log10, lemma_floor_log10_at_decade_edges, lemma_floor_log10_bounds,
    lemma_floor_log10_is_digits_minus_one, lemma_floor_log10_monotonic, lemma_floor_log10_reaches,
    lemma_floor_log10_within_doubling, lemma_pow10_positive, pow10,
};
use crate::tables::{lemma_guess_table, lemma_limit_table, LIMITS, LOG10S_FOR_LOG2S};
use vstd::arithmetic::power2::{lemma2_to64, lemma_pow2_pos, lemma_pow2_unfold, pow2};
use vstd::prelude::*;

verus! {

/// What the guided routine computes from the two tables, step by step.
pub open spec fn guided_log10(x: u16) -> nat {
    let guess = LOG10S_FOR_LOG2S@[floor_log2(x as nat) as int];
    if x > LIMITS@[guess as int] {
        (guess + 1) as nat
    } else {
        guess as nat
    }
}

/// The guess is never too high and never more than one too low, and the
/// comparison with the limit of the guessed decade tells the two cases
/// apart: the guided computation is exact on every positive input.
pub proof fn lemma_guided_log10_exact(x: u16)
    requires
        x >= 1,
    ensures
        guided_log10(x) == floor_log10(x as nat),
{
    let k = floor_log2(x as nat);
    lemma_floor_log2_bounds(x as nat);
    lemma_pow2_pos(k);
    lemma_pow2_unfold(k + 1);
    lemma2_to64();
    lemma_floor_log2_fits(x as nat, 16);
    lemma_guess_table(k as int);
    let guess = LOG10S_FOR_LOG2S@[k as int] as nat;
    lemma_floor_log10_within_doubling(pow2(k), x as nat);
    lemma_limit_table(guess as int);
    lemma_floor_log10_reaches(x as nat, guess + 1);
    lemma_pow10_positive(guess + 1);
}

/// The guided computation never decreases as its argument grows.
pub proof fn lemma_guided_log10_monotonic(x1: u16, x2: u16)
    requires
        1 <= x1 <= x2,
    ensures
        guided_log10(x1) <= guided_log10(x2),
{
    lemma_guided_log10_exact(x1);
    lemma_guided_log10_exact(x2);
    lemma_floor_log10_monotonic(x1 as nat, x2 as nat);
}

/// At the edges of every decade that 16 bits can hold the guided
/// computation is exact: it gives `k` at `10^k`, and `k - 1` just below it.
pub proof fn lemma_guided_log10_at_decade_edges(x: u16, k: nat)
    requires
        x >= 1,
    ensures
        x == pow10(k) ==> guided_log10(x) == k,
        x + 1 == pow10(k) ==> guided_log10(x) == k - 1,
{
    lemma_guided_log10_exact(x);
    lemma_floor_log10_at_decade_edges(k);
    lemma_pow10_positive(k);
}

/// The floor of the base-10 logarithm of `x`: one less than the number of
/// its decimal digits.
///
/// The logarithm of zero has no value, so `x` must be positive.
pub fn log10_floor(x: u16) -> (r: u8)
    requires
        x >= 1,
    ensures
        r == floor_log10(x as nat),
        r == decimal_digits(x as nat) - 1,
        pow10(r as nat) <= x < pow10(r as nat + 1),
        r == guided_log10(x),
        r <= 4,
{
    let log2x: usize = floor_log2_u16(x) as usize;
    proof {
        lemma_guess_table(log2x as int);
    }
    let log10x_guess: u8 = LOG10S_FOR_LOG2S[log2x];
    let limit: u16 = LIMITS[log10x_guess as usize];
    proof {
        lemma_guided_log10_exact(x);
        lemma_floor_log10_is_digits_minus_one(x as nat);
        lemma_floor_log10_bounds(x as nat);
    }
    if x > limit {
        log10x_guess + 1
    } else {
        log10x_guess
    }
}

} // verus!
