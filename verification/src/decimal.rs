//! The mathematical meaning of `floor(log10(n))`, of the number of decimal
//! digits, and of the powers of ten, with the facts the table-driven routines
//! of this crate are proved from.

use vstd::prelude::*;

verus! {

/// `10^k`.
pub open spec fn pow10(k: nat) -> nat
    decreases k,
{
    if k == 0 {
        1
    } else {
        10 * pow10((k - 1) as nat)
    }
}

/// `floor(log10(n))`, by repeated division: how often `n` can be divided by
/// ten before a single digit is left. It is `0` for every `n < 10`, so also
/// for `n == 0`, where the logarithm itself has no value.
pub open spec fn floor_log10(n: nat) -> nat
    decreases n,
{
    if n < 10 {
        0
    } else {
        1 + floor_log10(n / 10)
    }
}

/// The number of digits in the decimal representation of `n` (one for `0`).
pub open spec fn decimal_digits(n: nat) -> nat
    decreases n,
{
    if n < 10 {
        1
    } else {
        1 + decimal_digits(n / 10)
    }
}

/// The first eleven powers of ten, which cover every 32-bit decade.
pub proof fn lemma_pow10_values()
    ensures
        pow10(0) == 1,
        pow10(1) == 10,
        pow10(2) == 100,
        pow10(3) == 1_000,
        pow10(4) == 10_000,
        pow10(5) == 100_000,
        pow10(6) == 1_000_000,
        pow10(7) == 10_000_000,
        pow10(8) == 100_000_000,
        pow10(9) == 1_000_000_000,
        pow10(10) == 10_000_000_000,
{
    reveal_with_fuel(pow10, 11);
}

/// Every power of ten is positive.
pub proof fn lemma_pow10_positive(k: nat)
    ensures
        pow10(k) >= 1,
    decreases k,
{
    if k > 0 {
        lemma_pow10_positive((k - 1) as nat);
    }
}

/// `pow10` grows with its exponent, strictly where the exponents differ.
pub proof fn lemma_pow10_increases(a: nat, b: nat)
    requires
        a <= b,
    ensures
        pow10(a) <= pow10(b),
        a < b ==> pow10(a) < pow10(b),
    decreases b,
{
    lemma_pow10_positive(a);
    if a < b {
        lemma_pow10_increases(a, (b - 1) as nat);
    }
}

/// A positive `n` lies in the decade that `floor_log10(n)` names:
/// `10^d <= n < 10^(d+1)` for `d = floor_log10(n)`.
pub proof fn lemma_floor_log10_bounds(n: nat)
    requires
        n >= 1,
    ensures
        pow10(floor_log10(n)) <= n < pow10(floor_log10(n) + 1),
    decreases n,
{
    reveal_with_fuel(pow10, 2);
    if n >= 10 {
        lemma_floor_log10_bounds(n / 10);
    }
}

/// The decade determines the logarithm: if `10^d <= n < 10^(d+1)` then
/// `floor_log10(n) == d`.
pub proof fn lemma_floor_log10_unique(n: nat, d: nat)
    requires
        pow10(d) <= n < pow10(d + 1),
    ensures
        floor_log10(n) == d,
{
    lemma_pow10_positive(d);
    lemma_floor_log10_bounds(n);
    let e = floor_log10(n);
    if e < d {
        lemma_pow10_increases(e + 1, d);
    } else if e > d {
        lemma_pow10_increases(d + 1, e);
    }
}

/// `floor_log10` never decreases as its argument grows.
pub proof fn lemma_floor_log10_monotonic(a: nat, b: nat)
    requires
        a <= b,
    ensures
        floor_log10(a) <= floor_log10(b),
    decreases a,
{
    if a >= 10 {
        lemma_floor_log10_monotonic(a / 10, b / 10);
    }
}

/// At the two edges of every decade the logarithm is exact: `10^k` has
/// logarithm `k`, and the number just below it, for `k >= 1`, has `k - 1`.
pub proof fn lemma_floor_log10_at_decade_edges(k: nat)
    ensures
        floor_log10(pow10(k)) == k,
        k >= 1 ==> floor_log10((pow10(k) - 1) as nat) == k - 1,
{
    lemma_pow10_increases(k, k + 1);
    lemma_floor_log10_unique(pow10(k), k);
    if k >= 1 {
        lemma_pow10_increases((k - 1) as nat, k);
        lemma_floor_log10_unique((pow10(k) - 1) as nat, (k - 1) as nat);
    }
}

/// `floor_log10(n) >= d` exactly when `n` has reached `10^d`.
pub proof fn lemma_floor_log10_reaches(n: nat, d: nat)
    requires
        n >= 1,
    ensures
        floor_log10(n) >= d <==> n >= pow10(d),
{
    lemma_floor_log10_bounds(n);
    let e = floor_log10(n);
    if e >= d {
        lemma_pow10_increases(d, e);
    } else {
        lemma_pow10_increases(e + 1, d);
    }
}

/// Multiplying a positive number by ten adds one to its logarithm.
pub proof fn lemma_floor_log10_times_ten(m: nat)
    requires
        m >= 1,
    ensures
        floor_log10(10 * m) == floor_log10(m) + 1,
{
    assert((10 * m) / 10 == m);
}

/// Doubling crosses at most one decade: for `m <= x < 2 * m` the logarithm
/// of `x` is that of `m` or one more, never less and never two more.
pub proof fn lemma_floor_log10_within_doubling(m: nat, x: nat)
    requires
        1 <= m <= x < 2 * m,
    ensures
        floor_log10(m) <= floor_log10(x) <= floor_log10(m) + 1,
{
    lemma_floor_log10_monotonic(m, x);
    lemma_floor_log10_monotonic(x, 10 * m);
    lemma_floor_log10_times_ten(m);
}

/// The logarithm is one less than the number of decimal digits.
pub proof fn lemma_floor_log10_is_digits_minus_one(n: nat)
    ensures
        floor_log10(n) == decimal_digits(n) - 1,
    decreases n,
{
    if n >= 10 {
        lemma_floor_log10_is_digits_minus_one(n / 10);
    }
}

} // verus!
