//! The kernel's scalar type.
//!
//! A `Scalar` is a real value in binary fixed point: an `i64` counting units
//! of `2^-32`. The representation is canonical, so equality is exact
//! structural equality and the total order is the order of the underlying
//! integer. There is no NaN and no negative zero; this is the fixed, explicit
//! rule that lets geometric objects be deduplicated by value.

use vstd::prelude::*;

use crate::num::{trunc_div, trunc_div_i128};

verus! {

/// The fixed-point representation of `1`: `2^32` units of `2^-32`.
pub const ONE_BITS: i64 = 0x1_0000_0000;

/// The fixed-point representation of `pi / 2` (nearest unit).
pub const FRAC_PI_2_BITS: i64 = 6746518852;

/// The fixed-point representation of `pi`, kept as exactly twice
/// `FRAC_PI_2_BITS` so that the quadrant identities hold exactly.
pub const PI_BITS: i64 = 13493037704;

/// The fixed-point representation of `2 * pi`, exactly four times
/// `FRAC_PI_2_BITS`.
pub const TWO_PI_BITS: i64 = 26986075408;

/// Bound on the coordinates the kernel computes with: `2^45` units, that is
/// model coordinates up to `2^13 = 8192`. Keeping coordinates inside this
/// bound lets every intermediate product fit a 128-bit integer exactly.
pub const COORD_LIMIT: i64 = 0x2000_0000_0000;

/// A scalar value: `bits` counts units of `2^-32`.
#[derive(Clone, Copy, PartialEq, Eq, Structural, Hash, Debug)]
pub struct Scalar {
    pub bits: i64,
}

/// The scaled product of two scalars' units: `(a * b) / 2^32`, truncated
/// toward zero.
pub open spec fn fixed_mul(a: int, b: int) -> int {
    trunc_div(a * b, ONE_BITS as int)
}

/// The scaled quotient of two scalars' units: `(a * 2^32) / b`, truncated
/// toward zero.
pub open spec fn fixed_div(a: int, b: int) -> int
    recommends
        b != 0,
{
    if b > 0 {
        trunc_div(a * (ONE_BITS as int), b)
    } else {
        trunc_div(-(a * (ONE_BITS as int)), -b)
    }
}

/// Magnitude of an integer.
pub open spec fn mag(x: int) -> int {
    if x >= 0 {
        x
    } else {
        -x
    }
}

/// Halve both components, truncating toward zero, until both fit the
/// coordinate bound. Used to bring a pair of exact wide products into scalar
/// range while keeping their ratio (and so their direction) nearly exact.
pub open spec fn scale_pair(u: int, v: int) -> (int, int)
    decreases mag(u) + mag(v),
    via scale_pair_decreases
{
    if -COORD_LIMIT <= u <= COORD_LIMIT && -COORD_LIMIT <= v <= COORD_LIMIT {
        (u, v)
    } else {
        scale_pair(trunc_div(u, 2), trunc_div(v, 2))
    }
}

#[via_fn]
proof fn scale_pair_decreases(u: int, v: int) {
    if !(-COORD_LIMIT <= u <= COORD_LIMIT && -COORD_LIMIT <= v <= COORD_LIMIT) {
        lemma_halving_shrinks(u);
        lemma_halving_shrinks(v);
    }
}

/// Truncated halving never grows a magnitude, and strictly shrinks any
/// nonzero one.
pub proof fn lemma_halving_shrinks(x: int)
    ensures
        0 <= mag(trunc_div(x, 2)) <= mag(x),
        mag(x) >= 1 ==> mag(trunc_div(x, 2)) < mag(x),
{
    if x >= 0 {
        vstd::arithmetic::div_mod::lemma_div_pos_is_pos(x, 2);
        vstd::arithmetic::div_mod::lemma_div_nonincreasing(x, 2);
        if x >= 1 {
            vstd::arithmetic::div_mod::lemma_div_is_strictly_smaller(x, 2);
        }
    } else {
        vstd::arithmetic::div_mod::lemma_div_pos_is_pos(-x, 2);
        vstd::arithmetic::div_mod::lemma_div_nonincreasing(-x, 2);
        vstd::arithmetic::div_mod::lemma_div_is_strictly_smaller(-x, 2);
    }
}

/// Bring an exact pair of wide products into scalar range by repeated
/// truncated halving.
pub fn scale_pair_exec(u0: i128, v0: i128) -> (r: (Scalar, Scalar))
    requires
        u0 > i128::MIN,
        v0 > i128::MIN,
    ensures
        (r.0.bits as int, r.1.bits as int) == scale_pair(u0 as int, v0 as int),
        r.0.in_range(),
        r.1.in_range(),
{
    let mut u: i128 = u0;
    let mut v: i128 = v0;
    while u > COORD_LIMIT as i128 || u < -COORD_LIMIT as i128 || v > COORD_LIMIT as i128
        || v < -COORD_LIMIT as i128
        invariant
            u > i128::MIN,
            v > i128::MIN,
            scale_pair(u as int, v as int) == scale_pair(u0 as int, v0 as int),
        decreases mag(u as int) + mag(v as int),
    {
        proof {
            lemma_halving_shrinks(u as int);
            lemma_halving_shrinks(v as int);
        }
        u = trunc_div_i128(u, 2);
        v = trunc_div_i128(v, 2);
    }
    (Scalar { bits: u as i64 }, Scalar { bits: v as i64 })
}

impl Scalar {
    /// The scalar zero.
    pub fn zero() -> (r: Scalar)
        ensures
            r.bits == 0,
    {
        Scalar { bits: 0 }
    }

    /// The scalar one.
    pub fn one() -> (r: Scalar)
        ensures
            r.bits == ONE_BITS,
    {
        Scalar { bits: ONE_BITS }
    }

    /// Build a scalar from its count of `2^-32` units.
    pub fn from_bits(bits: i64) -> (r: Scalar)
        ensures
            r.bits == bits,
    {
        Scalar { bits }
    }

    /// True when the magnitude stays within the kernel's coordinate bound.
    pub open spec fn in_range(self) -> bool {
        -COORD_LIMIT <= self.bits <= COORD_LIMIT
    }

    /// Exact sum.
    pub fn add(self, other: Scalar) -> (r: Scalar)
        requires
            i64::MIN <= self.bits + other.bits <= i64::MAX,
        ensures
            r.bits == self.bits + other.bits,
    {
        Scalar { bits: self.bits + other.bits }
    }

    /// Exact difference.
    pub fn sub(self, other: Scalar) -> (r: Scalar)
        requires
            i64::MIN <= self.bits - other.bits <= i64::MAX,
        ensures
            r.bits == self.bits - other.bits,
    {
        Scalar { bits: self.bits - other.bits }
    }

    /// Exact negation.
    pub fn neg(self) -> (r: Scalar)
        requires
            self.bits != i64::MIN,
        ensures
            r.bits == -self.bits,
    {
        Scalar { bits: -self.bits }
    }

    /// Product, truncated toward zero to the nearest unit. The operands may
    /// be as wide as a difference of two in-range scalars.
    pub fn mul(self, other: Scalar) -> (r: Scalar)
        requires
            -0x4000_0000_0000 <= self.bits <= 0x4000_0000_0000,
            -0x4000_0000_0000 <= other.bits <= 0x4000_0000_0000,
        ensures
            r.bits == fixed_mul(self.bits as int, other.bits as int),
            -0x1000_0000_0000_0000 <= r.bits <= 0x1000_0000_0000_0000,
    {
        proof {
            let lim_sq = 0x4000_0000_0000int * 0x4000_0000_0000int;
            assert(-lim_sq <= (self.bits as int) * (other.bits as int) <= lim_sq)
                by (nonlinear_arith)
                requires
                    -0x4000_0000_0000 <= self.bits <= 0x4000_0000_0000,
                    -0x4000_0000_0000 <= other.bits <= 0x4000_0000_0000,
                    lim_sq == 0x4000_0000_0000int * 0x4000_0000_0000int,
            ;
            assert(lim_sq == 4951760157141521099596496896int);
        }
        let p: i128 = (self.bits as i128) * (other.bits as i128);
        let q: i128 = trunc_div_i128(p, ONE_BITS as i128);
        proof {
            let lim_sq = 0x4000_0000_0000int * 0x4000_0000_0000int;
            crate::num::lemma_trunc_div_bound(p as int, ONE_BITS as int, lim_sq);
            assert(lim_sq == 4951760157141521099596496896int);
            assert(4951760157141521099596496896int / (ONE_BITS as int)
                == 0x1000_0000_0000_0000int);
        }
        Scalar { bits: q as i64 }
    }

    /// Quotient of a scalar by one of at least its magnitude, truncated
    /// toward zero; the result always lies in `[-1, 1]`.
    pub fn div_unit(self, other: Scalar) -> (r: Scalar)
        requires
            other.bits != 0,
            self.in_range(),
            other.in_range(),
            mag(self.bits as int) <= mag(other.bits as int),
        ensures
            r.bits == fixed_div(self.bits as int, other.bits as int),
            -ONE_BITS <= r.bits <= ONE_BITS,
    {
        proof {
            assert(-0x2000_0000_0000_0000_0000 <= (self.bits as int) * (ONE_BITS as int)
                <= 0x2000_0000_0000_0000_0000) by (nonlinear_arith)
                requires
                    -COORD_LIMIT <= self.bits <= COORD_LIMIT,
                    ONE_BITS == 0x1_0000_0000,
                    COORD_LIMIT == 0x2000_0000_0000,
            ;
        }
        let n: i128 = (self.bits as i128) * (ONE_BITS as i128);
        let q: i128 = if other.bits > 0 {
            trunc_div_i128(n, other.bits as i128)
        } else {
            trunc_div_i128(-n, -(other.bits as i128))
        };
        proof {
            let a = self.bits as int;
            let b = other.bits as int;
            let d = mag(b);
            let m = d * (ONE_BITS as int);
            assert(mag(a * (ONE_BITS as int)) <= m);
            if b > 0 {
                crate::num::lemma_trunc_div_bound(a * (ONE_BITS as int), d, m);
            } else {
                crate::num::lemma_trunc_div_bound(-(a * (ONE_BITS as int)), d, m);
            }
            vstd::arithmetic::div_mod::lemma_div_by_multiple(ONE_BITS as int, d);
            assert(m / d == ONE_BITS as int) by {
                assert(m == (ONE_BITS as int) * d);
            }
        }
        Scalar { bits: q as i64 }
    }

    /// Exact comparison: true when `self` is strictly below `other`.
    pub fn lt(self, other: Scalar) -> (r: bool)
        ensures
            r == (self.bits < other.bits),
    {
        self.bits < other.bits
    }

    /// Exact comparison: true when `self` is at most `other`.
    pub fn le(self, other: Scalar) -> (r: bool)
        ensures
            r == (self.bits <= other.bits),
    {
        self.bits <= other.bits
    }

    /// The smaller of two scalars.
    pub fn min(self, other: Scalar) -> (r: Scalar)
        ensures
            r.bits == if self.bits <= other.bits { self.bits } else { other.bits },
    {
        if self.bits <= other.bits {
            self
        } else {
            other
        }
    }

    /// The larger of two scalars.
    pub fn max(self, other: Scalar) -> (r: Scalar)
        ensures
            r.bits == if self.bits >= other.bits { self.bits } else { other.bits },
    {
        if self.bits >= other.bits {
            self
        } else {
            other
        }
    }
}

} // verus!
