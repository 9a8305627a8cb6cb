//! Trigonometry on fixed-point scalars.
//!
//! The transcendental core — arc tangent of a ratio in `[-1, 1]`, sine and
//! cosine — comes from the `cordic` crate, which computes on the same binary
//! fixed-point representation the kernel uses (`i64` units of `2^-32`,
//! `fixed::types::I32F32`). Those results are functions of their arguments
//! alone, so they are named by uninterpreted spec functions. The quadrant
//! logic of the full two-argument arc tangent is the kernel's own and is
//! verified against those names.

use vstd::prelude::*;

use crate::scalar::{fixed_div, mag, Scalar};
use crate::scalar::{FRAC_PI_2_BITS, ONE_BITS, PI_BITS, TWO_PI_BITS};

verus! {

/// The units of the arc tangent of a ratio given in units of `2^-32`.
/// Meaningful for ratios in `[-1, 1]`, where the magnitude of the result is
/// at most one radian.
pub uninterp spec fn atan_unit_of(v: int) -> int;

/// The units of the sine of an angle given in units of `2^-32` radians.
pub uninterp spec fn sin_of(a: int) -> int;

/// The units of the cosine of an angle given in units of `2^-32` radians.
pub uninterp spec fn cos_of(a: int) -> int;

/// Slack above one that the sine and cosine magnitudes may carry: the CORDIC
/// iteration accumulates a bounded truncation error on top of the exact
/// magnitude one.
pub const TRIG_SLACK: i64 = 65536;

/// Relies on cordic::atan over fixed::types::I32F32: the arc tangent of a
/// ratio in `[-1, 1]`, computed by 32 CORDIC vectoring steps. The result
/// depends on the argument alone; its magnitude stays below one radian
/// (the exact value is below `pi / 4`, and the iteration's truncation error
/// is a few units).
#[verifier::external_body]
fn atan_unit(v: Scalar) -> (r: Scalar)
    requires
        -ONE_BITS <= v.bits <= ONE_BITS,
    ensures
        r.bits == atan_unit_of(v.bits as int),
        -ONE_BITS <= r.bits <= ONE_BITS,
{
    Scalar { bits: cordic::atan(fixed::types::I32F32::from_bits(v.bits)).to_bits() }
}

/// Relies on cordic::sin over fixed::types::I32F32: the sine of an angle in
/// radians, total over the whole type. The result depends on the argument
/// alone; its magnitude stays within one plus a small truncation slack.
#[verifier::external_body]
pub(crate) fn sin_fixed(a: Scalar) -> (r: Scalar)
    ensures
        r.bits == sin_of(a.bits as int),
        -(ONE_BITS + TRIG_SLACK) <= r.bits <= ONE_BITS + TRIG_SLACK,
{
    Scalar { bits: cordic::sin(fixed::types::I32F32::from_bits(a.bits)).to_bits() }
}

/// Relies on cordic::cos over fixed::types::I32F32: the cosine of an angle in
/// radians, total over the whole type. The result depends on the argument
/// alone; its magnitude stays within one plus a small truncation slack.
#[verifier::external_body]
pub(crate) fn cos_fixed(a: Scalar) -> (r: Scalar)
    ensures
        r.bits == cos_of(a.bits as int),
        -(ONE_BITS + TRIG_SLACK) <= r.bits <= ONE_BITS + TRIG_SLACK,
{
    Scalar { bits: cordic::cos(fixed::types::I32F32::from_bits(a.bits)).to_bits() }
}

/// The two-argument arc tangent in units of `2^-32` radians, built from
/// `atan_unit_of` by quadrant correction. Axis directions get the exact
/// constants; elsewhere the arc tangent of the smaller-over-larger ratio is
/// corrected into the right quadrant.
pub open spec fn spec_atan2(y: int, x: int) -> int {
    if x == 0 && y == 0 {
        0
    } else if x == 0 {
        if y > 0 {
            FRAC_PI_2_BITS as int
        } else {
            -FRAC_PI_2_BITS as int
        }
    } else if y == 0 {
        if x > 0 {
            0
        } else {
            PI_BITS as int
        }
    } else if mag(y) <= mag(x) {
        let t = atan_unit_of(fixed_div(y, x));
        if x > 0 {
            t
        } else if y > 0 {
            PI_BITS + t
        } else {
            -PI_BITS + t
        }
    } else {
        let t = atan_unit_of(fixed_div(x, y));
        if y > 0 {
            FRAC_PI_2_BITS - t
        } else {
            -FRAC_PI_2_BITS - t
        }
    }
}

/// The two-argument arc tangent of `y / x`, in radians. Axis directions give
/// the exact quadrant constants; the origin gives zero. The result always
/// stays within one radian of `[-pi, pi]`.
pub fn atan2_fixed(y: Scalar, x: Scalar) -> (r: Scalar)
    requires
        y.in_range(),
        x.in_range(),
    ensures
        r.bits == spec_atan2(y.bits as int, x.bits as int),
        -(PI_BITS + ONE_BITS) <= r.bits <= PI_BITS + ONE_BITS,
{
    if x.bits == 0 && y.bits == 0 {
        Scalar { bits: 0 }
    } else if x.bits == 0 {
        if y.bits > 0 {
            Scalar { bits: FRAC_PI_2_BITS }
        } else {
            Scalar { bits: -FRAC_PI_2_BITS }
        }
    } else if y.bits == 0 {
        if x.bits > 0 {
            Scalar { bits: 0 }
        } else {
            Scalar { bits: PI_BITS }
        }
    } else {
        let ay: i64 = if y.bits >= 0 { y.bits } else { -y.bits };
        let ax: i64 = if x.bits >= 0 { x.bits } else { -x.bits };
        if ay <= ax {
            let t = atan_unit(y.div_unit(x));
            if x.bits > 0 {
                t
            } else if y.bits > 0 {
                Scalar { bits: PI_BITS + t.bits }
            } else {
                Scalar { bits: -PI_BITS + t.bits }
            }
        } else {
            let t = atan_unit(x.div_unit(y));
            if y.bits > 0 {
                Scalar { bits: FRAC_PI_2_BITS - t.bits }
            } else {
                Scalar { bits: -FRAC_PI_2_BITS - t.bits }
            }
        }
    }
}

/// Normalize an angle from `[-pi - 1, pi + 1]` into `[0, 2 * pi)` by adding
/// one turn to negative values.
pub fn normalize_angle(a: Scalar) -> (r: Scalar)
    requires
        -(PI_BITS + ONE_BITS) <= a.bits <= PI_BITS + ONE_BITS,
    ensures
        r.bits == if a.bits >= 0 {
            a.bits as int
        } else {
            a.bits + TWO_PI_BITS
        },
        0 <= r.bits < TWO_PI_BITS,
{
    if a.bits >= 0 {
        a
    } else {
        Scalar { bits: a.bits + TWO_PI_BITS }
    }
}

} // verus!
