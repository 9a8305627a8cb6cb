//! Exact integer division helpers shared by the fixed-point arithmetic.
//!
//! All scalar values in this kernel are binary fixed-point numbers: an `i64`
//! counting units of `2^-32`. Products and quotients of such numbers are
//! computed exactly in 128-bit intermediates and rescaled with one of the
//! two rounding rules below.

use vstd::prelude::*;

verus! {

/// Division with truncation toward zero, for a positive divisor.
pub open spec fn trunc_div(n: int, d: int) -> int
    recommends
        d > 0,
{
    if n >= 0 {
        n / d
    } else {
        -((-n) / d)
    }
}

/// Division rounding to the nearest integer, ties away from zero, for a
/// positive divisor.
pub open spec fn round_div(n: int, d: int) -> int
    recommends
        d > 0,
{
    if n >= 0 {
        (2 * n + d) / (2 * d)
    } else {
        -((2 * (-n) + d) / (2 * d))
    }
}

/// `trunc_div` never increases magnitude: `|n / d| <= m / d` when `|n| <= m`.
pub proof fn lemma_trunc_div_bound(n: int, d: int, m: int)
    requires
        d > 0,
        m >= 0,
        -m <= n <= m,
    ensures
        -(m / d) <= trunc_div(n, d) <= m / d,
{
    if n >= 0 {
        vstd::arithmetic::div_mod::lemma_div_is_ordered(n, m, d);
        vstd::arithmetic::div_mod::lemma_div_pos_is_pos(n, d);
    } else {
        vstd::arithmetic::div_mod::lemma_div_is_ordered(-n, m, d);
        vstd::arithmetic::div_mod::lemma_div_pos_is_pos(-n, d);
    }
}

/// Exact truncating division of an `i128` by a positive divisor.
pub fn trunc_div_i128(n: i128, d: i128) -> (r: i128)
    requires
        d > 0,
        n > i128::MIN,
    ensures
        r == trunc_div(n as int, d as int),
{
    if n >= 0 {
        let q: u128 = (n as u128) / (d as u128);
        proof {
            vstd::arithmetic::div_mod::lemma_div_pos_is_pos(n as int, d as int);
            vstd::arithmetic::div_mod::lemma_div_nonincreasing(n as int, d as int);
        }
        q as i128
    } else {
        let a: i128 = -n;
        let q: u128 = (a as u128) / (d as u128);
        proof {
            vstd::arithmetic::div_mod::lemma_div_pos_is_pos(a as int, d as int);
            vstd::arithmetic::div_mod::lemma_div_nonincreasing(a as int, d as int);
        }
        -(q as i128)
    }
}

/// Exact division of an `i128` by a positive divisor, rounding to the nearest
/// integer with ties away from zero.
pub fn round_div_i128(n: i128, d: i128) -> (r: i128)
    requires
        0 < d < 0x4000_0000_0000_0000_0000_0000_0000_0000,
        -0x4000_0000_0000_0000_0000_0000_0000_0000 < n
            < 0x4000_0000_0000_0000_0000_0000_0000_0000,
    ensures
        r == round_div(n as int, d as int),
{
    let a: u128 = if n >= 0 { n as u128 } else { (-n) as u128 };
    let b: u128 = d as u128;
    let q: u128 = (2 * a + b) / (2 * b);
    proof {
        vstd::arithmetic::div_mod::lemma_div_pos_is_pos(2 * a + b, 2 * b as int);
        assert((2 * a + b) as int / (2 * b as int) <= i128::MAX as int) by {
            vstd::arithmetic::div_mod::lemma_div_is_ordered_by_denominator(
                (2 * a + b) as int, 2, 2 * b as int);
            vstd::arithmetic::div_mod::lemma_div_is_ordered(
                (2 * a + b) as int, u128::MAX as int, 2);
            assert(u128::MAX as int / 2 == i128::MAX as int);
        }
    }
    if n >= 0 {
        q as i128
    } else {
        -(q as i128)
    }
}

} // verus!
