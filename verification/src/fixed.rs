//! Fixed-point units and shared bounds for the metering arithmetic.
//!
//! A log-luminance value, adaptation rate, or time span is an `i64` counting
//! units of `1 / FP_ONE`. The bounds below keep every intermediate product of
//! the metering pipeline inside `i64` and `u64`.

use vstd::prelude::*;

verus! {

/// One whole unit of log-luminance (or of rate, or of seconds) in fixed point.
pub const FP_ONE: i64 = 1024;

/// Largest magnitude admitted for a log-luminance value or correction.
pub const LOG_BOUND: i64 = 0x4000_0000;

/// Largest value admitted for an adaptation rate or an elapsed-time span.
pub const RATE_BOUND: i64 = 0x4000_0000;

/// `x` limited to `[lo, hi]`.
pub open spec fn spec_clamp(x: int, lo: int, hi: int) -> int {
    if x < lo {
        lo
    } else if x > hi {
        hi
    } else {
        x
    }
}

/// Clamps `x` into `[lo, hi]`.
pub fn clamp_fixed(x: i64, lo: i64, hi: i64) -> (r: i64)
    requires
        lo <= hi,
    ensures
        r == spec_clamp(x as int, lo as int, hi as int),
        lo <= r <= hi,
{
    if x < lo {
        lo
    } else if x > hi {
        hi
    } else {
        x
    }
}

/// Division by a positive divisor never exceeds the quotient of a larger
/// dividend: `a <= b ==> a / d <= b / d`.
pub proof fn lemma_div_ordered(a: int, b: int, d: int)
    requires
        0 <= a <= b,
        0 < d,
    ensures
        a / d <= b / d,
{
    vstd::arithmetic::div_mod::lemma_div_is_ordered(a, b, d);
}

/// A quotient of a bounded product stays below the bound:
/// `a <= c * d ==> a / d <= c`.
pub proof fn lemma_div_below_multiple(a: int, c: int, d: int)
    requires
        0 <= a,
        0 <= c,
        0 < d,
        a <= c * d,
    ensures
        a / d <= c,
{
    vstd::arithmetic::div_mod::lemma_div_is_ordered(a, c * d, d);
    vstd::arithmetic::div_mod::lemma_div_by_multiple(c, d);
}

/// Division is superadditive on nonnegative dividends: the quotients of two
/// shares never exceed the quotient of their sum.
pub proof fn lemma_div_superadditive(a: int, b: int, m: int)
    requires
        0 <= a,
        0 <= b,
        0 < m,
    ensures
        a / m + b / m <= (a + b) / m,
{
    vstd::arithmetic::div_mod::lemma_fundamental_div_mod(a, m);
    vstd::arithmetic::div_mod::lemma_fundamental_div_mod(b, m);
    vstd::arithmetic::div_mod::lemma_mod_bound(a, m);
    vstd::arithmetic::div_mod::lemma_mod_bound(b, m);
    vstd::arithmetic::mul::lemma_mul_is_distributive_add(m, a / m, b / m);
    if a % m + b % m < m {
        vstd::arithmetic::div_mod::lemma_fundamental_div_mod_converse(
            a + b,
            m,
            a / m + b / m,
            a % m + b % m,
        );
    } else {
        vstd::arithmetic::mul::lemma_mul_is_distributive_add(m, a / m + b / m, 1);
        vstd::arithmetic::div_mod::lemma_fundamental_div_mod_converse(
            a + b,
            m,
            a / m + b / m + 1,
            a % m + b % m - m,
        );
    }
}

/// A nonnegative dividend gives a nonnegative quotient.
pub proof fn lemma_div_nonneg(a: int, d: int)
    requires
        0 <= a,
        0 < d,
    ensures
        0 <= a / d,
{
    vstd::arithmetic::div_mod::lemma_div_pos_is_pos(a, d);
}

} // verus!
