//! The constant tables that drive the two routines, what each entry is meant
//! to be, and the proof that every entry is what it is meant to be.

use crate::decimal::{floor_log10, lemma_floor_log10_unique, lemma_pow10_values, pow10};
use vstd::arithmetic::power2::{lemma2_to64, pow2};
use vstd::prelude::*;

verus! {

/// Indexed by `floor(log2(x))`: a first guess at `floor(log10(x))`, namely
/// the logarithm of the smallest number with that binary logarithm. The
/// guess is exact or one too low.
pub const LOG10S_FOR_LOG2S: [u8; 16] = [0, 0, 0, 0, 1, 1, 1, 2, 2, 2, 3, 3, 3, 3, 4, 4];

/// Indexed by a decimal logarithm `d`: the largest 16-bit `x` with
/// `floor(log10(x)) == d`. The last decade is cut short by the type.
pub const LIMITS: [u16; 5] = [9, 99, 999, 9_999, 65_535];

/// Indexed by the bit length of a 32-bit `x`. The upper half of an entry is
/// the guess for that bit length. The lower half is zero where the whole bit
/// length lies in one decade, and else the distance from the next power of
/// ten up to `2^32`, so that adding `x` carries into the upper half exactly
/// when `x` has reached that power of ten.
pub const PACKED_TABLE: [u64; 33] = [
    0x0000_0000_0000,
    0x0000_0000_0000,
    0x0000_0000_0000,
    0x0000_0000_0000,
    0x0000_FFFF_FFF6,
    0x0001_0000_0000,
    0x0001_0000_0000,
    0x0001_FFFF_FF9C,
    0x0002_0000_0000,
    0x0002_0000_0000,
    0x0002_FFFF_FC18,
    0x0003_0000_0000,
    0x0003_0000_0000,
    0x0003_0000_0000,
    0x0003_FFFF_D8F0,
    0x0004_0000_0000,
    0x0004_0000_0000,
    0x0004_FFFE_7960,
    0x0005_0000_0000,
    0x0005_0000_0000,
    0x0005_FFF0_BDC0,
    0x0006_0000_0000,
    0x0006_0000_0000,
    0x0006_0000_0000,
    0x0006_FF67_6980,
    0x0007_0000_0000,
    0x0007_0000_0000,
    0x0007_FA0A_1F00,
    0x0008_0000_0000,
    0x0008_0000_0000,
    0x0008_C465_3600,
    0x0009_0000_0000,
    0x0009_0000_0000,
];

/// What the guess for a binary logarithm `k` has to be: `floor(log10(2^k))`.
pub open spec fn guess_for(k: nat) -> nat {
    floor_log10(pow2(k))
}

/// What the limit of decade `d` has to be in a type whose largest value is
/// `max`: `10^(d+1) - 1`, or `max` where that does not fit.
pub open spec fn limit_for(d: nat, max: nat) -> nat {
    if pow10(d + 1) - 1 <= max {
        (pow10(d + 1) - 1) as nat
    } else {
        max
    }
}

/// What the packed entry for bit length `b` has to be.
pub open spec fn packed_for(b: nat) -> nat {
    if b == 0 {
        0
    } else {
        let guess = guess_for((b - 1) as nat);
        let next_decade = pow10(guess + 1);
        if next_decade < pow2(b) {
            (guess * 0x1_0000_0000 + (0x1_0000_0000 - next_decade)) as nat
        } else {
            guess * 0x1_0000_0000
        }
    }
}

/// `floor(log10(2^k))` for every `k` below 32.
pub proof fn lemma_guess_values()
    ensures
        guess_for(0) == 0,
        guess_for(1) == 0,
        guess_for(2) == 0,
        guess_for(3) == 0,
        guess_for(4) == 1,
        guess_for(5) == 1,
        guess_for(6) == 1,
        guess_for(7) == 2,
        guess_for(8) == 2,
        guess_for(9) == 2,
        guess_for(10) == 3,
        guess_for(11) == 3,
        guess_for(12) == 3,
        guess_for(13) == 3,
        guess_for(14) == 4,
        guess_for(15) == 4,
        guess_for(16) == 4,
        guess_for(17) == 5,
        guess_for(18) == 5,
        guess_for(19) == 5,
        guess_for(20) == 6,
        guess_for(21) == 6,
        guess_for(22) == 6,
        guess_for(23) == 6,
        guess_for(24) == 7,
        guess_for(25) == 7,
        guess_for(26) == 7,
        guess_for(27) == 8,
        guess_for(28) == 8,
        guess_for(29) == 8,
        guess_for(30) == 9,
        guess_for(31) == 9,
{
    lemma2_to64();
    lemma_pow10_values();
    lemma_floor_log10_unique(pow2(0), 0);
    lemma_floor_log10_unique(pow2(1), 0);
    lemma_floor_log10_unique(pow2(2), 0);
    lemma_floor_log10_unique(pow2(3), 0);
    lemma_floor_log10_unique(pow2(4), 1);
    lemma_floor_log10_unique(pow2(5), 1);
    lemma_floor_log10_unique(pow2(6), 1);
    lemma_floor_log10_unique(pow2(7), 2);
    lemma_floor_log10_unique(pow2(8), 2);
    lemma_floor_log10_unique(pow2(9), 2);
    lemma_floor_log10_unique(pow2(10), 3);
    lemma_floor_log10_unique(pow2(11), 3);
    lemma_floor_log10_unique(pow2(12), 3);
    lemma_floor_log10_unique(pow2(13), 3);
    lemma_floor_log10_unique(pow2(14), 4);
    lemma_floor_log10_unique(pow2(15), 4);
    lemma_floor_log10_unique(pow2(16), 4);
    lemma_floor_log10_unique(pow2(17), 5);
    lemma_floor_log10_unique(pow2(18), 5);
    lemma_floor_log10_unique(pow2(19), 5);
    lemma_floor_log10_unique(pow2(20), 6);
    lemma_floor_log10_unique(pow2(21), 6);
    lemma_floor_log10_unique(pow2(22), 6);
    lemma_floor_log10_unique(pow2(23), 6);
    lemma_floor_log10_unique(pow2(24), 7);
    lemma_floor_log10_unique(pow2(25), 7);
    lemma_floor_log10_unique(pow2(26), 7);
    lemma_floor_log10_unique(pow2(27), 8);
    lemma_floor_log10_unique(pow2(28), 8);
    lemma_floor_log10_unique(pow2(29), 8);
    lemma_floor_log10_unique(pow2(30), 9);
    lemma_floor_log10_unique(pow2(31), 9);
}

/// Every entry of the guess table is the logarithm of its power of two, so
/// the table starts at zero and never decreases, and every guess names an
/// entry of the limit table.
pub proof fn lemma_guess_table(k: int)
    requires
        0 <= k < 16,
    ensures
        LOG10S_FOR_LOG2S@[k] == guess_for(k as nat),
        LOG10S_FOR_LOG2S@[0] == 0,
        k >= 1 ==> LOG10S_FOR_LOG2S@[k - 1] <= LOG10S_FOR_LOG2S@[k],
        LOG10S_FOR_LOG2S@[k] < LIMITS@.len(),
{
    lemma_guess_values();
}

/// Every entry of the limit table is the last number of its decade, cut to
/// 16 bits, and the entries increase strictly.
pub proof fn lemma_limit_table(d: int)
    requires
        0 <= d < 5,
    ensures
        LIMITS@[d] == limit_for(d as nat, u16::MAX as nat),
        d >= 1 ==> LIMITS@[d - 1] < LIMITS@[d],
{
    lemma_pow10_values();
}

/// Every entry of the packed table is what its bit length calls for.
pub proof fn lemma_packed_table(b: int)
    requires
        0 <= b <= 32,
    ensures
        PACKED_TABLE@[b] == packed_for(b as nat),
{
    lemma_guess_values();
    lemma_pow10_values();
    lemma2_to64();
}

} // verus!
