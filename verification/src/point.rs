//! Points and vectors in one, two and three dimensions.
//!
//! Coordinates are `Scalar`s, so equality of points and vectors is exact
//! structural equality — the property the deduplicating store relies on.
//! Subtracting two points yields a vector; adding a vector to a point yields
//! a point.

use vstd::prelude::*;

use crate::scalar::Scalar;

verus! {

/// Bound on the coordinates of a difference of two in-range points.
pub const DIFF_LIMIT: i64 = 0x4000_0000_0000;

/// A one-dimensional point: a curve-local coordinate.
#[derive(Clone, Copy, PartialEq, Eq, Structural, Hash, Debug)]
pub struct Point1 {
    pub t: Scalar,
}

/// A one-dimensional vector: a curve-local offset.
#[derive(Clone, Copy, PartialEq, Eq, Structural, Hash, Debug)]
pub struct Vector1 {
    pub t: Scalar,
}

/// A two-dimensional point: a surface-local coordinate pair.
#[derive(Clone, Copy, PartialEq, Eq, Structural, Hash, Debug)]
pub struct Point2 {
    pub u: Scalar,
    pub v: Scalar,
}

/// A two-dimensional vector: a surface-local offset.
#[derive(Clone, Copy, PartialEq, Eq, Structural, Hash, Debug)]
pub struct Vector2 {
    pub u: Scalar,
    pub v: Scalar,
}

/// A three-dimensional point in model space.
#[derive(Clone, Copy, PartialEq, Eq, Structural, Hash, Debug)]
pub struct Point3 {
    pub x: Scalar,
    pub y: Scalar,
    pub z: Scalar,
}

/// A three-dimensional vector in model space.
#[derive(Clone, Copy, PartialEq, Eq, Structural, Hash, Debug)]
pub struct Vector3 {
    pub x: Scalar,
    pub y: Scalar,
    pub z: Scalar,
}

/// The exact dot product of two vectors' units, at the doubled `2^-64` scale.
pub open spec fn spec_dot3(a: Vector3, b: Vector3) -> int {
    a.x.bits * b.x.bits + a.y.bits * b.y.bits + a.z.bits * b.z.bits
}

impl Point2 {
    pub open spec fn in_range(self) -> bool {
        self.u.in_range() && self.v.in_range()
    }

    pub fn new(u: Scalar, v: Scalar) -> (r: Point2)
        ensures
            r == (Point2 { u, v }),
    {
        Point2 { u, v }
    }
}

impl Point3 {
    pub open spec fn in_range(self) -> bool {
        self.x.in_range() && self.y.in_range() && self.z.in_range()
    }

    /// The model-space origin.
    pub fn origin() -> (r: Point3)
        ensures
            r.x.bits == 0 && r.y.bits == 0 && r.z.bits == 0,
    {
        Point3 { x: Scalar { bits: 0 }, y: Scalar { bits: 0 }, z: Scalar { bits: 0 } }
    }

    pub fn new(x: Scalar, y: Scalar, z: Scalar) -> (r: Point3)
        ensures
            r == (Point3 { x, y, z }),
    {
        Point3 { x, y, z }
    }

    /// Exact difference of two points: the vector from `other` to `self`.
    pub fn sub(&self, other: &Point3) -> (r: Vector3)
        requires
            self.in_range(),
            other.in_range(),
        ensures
            r.x.bits == self.x.bits - other.x.bits,
            r.y.bits == self.y.bits - other.y.bits,
            r.z.bits == self.z.bits - other.z.bits,
            r.in_wide_range(),
    {
        Vector3 {
            x: Scalar { bits: self.x.bits - other.x.bits },
            y: Scalar { bits: self.y.bits - other.y.bits },
            z: Scalar { bits: self.z.bits - other.z.bits },
        }
    }

    /// Exact translation of a point by a vector.
    pub fn add(&self, v: &Vector3) -> (r: Point3)
        requires
            i64::MIN <= self.x.bits + v.x.bits <= i64::MAX,
            i64::MIN <= self.y.bits + v.y.bits <= i64::MAX,
            i64::MIN <= self.z.bits + v.z.bits <= i64::MAX,
        ensures
            r.x.bits == self.x.bits + v.x.bits,
            r.y.bits == self.y.bits + v.y.bits,
            r.z.bits == self.z.bits + v.z.bits,
    {
        Point3 {
            x: Scalar { bits: self.x.bits + v.x.bits },
            y: Scalar { bits: self.y.bits + v.y.bits },
            z: Scalar { bits: self.z.bits + v.z.bits },
        }
    }
}

impl Vector2 {
    pub open spec fn in_range(self) -> bool {
        self.u.in_range() && self.v.in_range()
    }
}

impl Vector3 {
    pub open spec fn in_range(self) -> bool {
        self.x.in_range() && self.y.in_range() && self.z.in_range()
    }

    /// True when every coordinate stays within twice the coordinate bound,
    /// as a difference of two in-range points does.
    pub open spec fn in_wide_range(self) -> bool {
        &&& -DIFF_LIMIT <= self.x.bits <= DIFF_LIMIT
        &&& -DIFF_LIMIT <= self.y.bits <= DIFF_LIMIT
        &&& -DIFF_LIMIT <= self.z.bits <= DIFF_LIMIT
    }

    pub fn new(x: Scalar, y: Scalar, z: Scalar) -> (r: Vector3)
        ensures
            r == (Vector3 { x, y, z }),
    {
        Vector3 { x, y, z }
    }

    /// Exact negation.
    pub fn neg(&self) -> (r: Vector3)
        requires
            self.x.bits != i64::MIN,
            self.y.bits != i64::MIN,
            self.z.bits != i64::MIN,
        ensures
            r.x.bits == -self.x.bits,
            r.y.bits == -self.y.bits,
            r.z.bits == -self.z.bits,
    {
        Vector3 {
            x: Scalar { bits: -self.x.bits },
            y: Scalar { bits: -self.y.bits },
            z: Scalar { bits: -self.z.bits },
        }
    }

    /// Exact sum of two vectors.
    pub fn add(&self, other: &Vector3) -> (r: Vector3)
        requires
            i64::MIN <= self.x.bits + other.x.bits <= i64::MAX,
            i64::MIN <= self.y.bits + other.y.bits <= i64::MAX,
            i64::MIN <= self.z.bits + other.z.bits <= i64::MAX,
        ensures
            r.x.bits == self.x.bits + other.x.bits,
            r.y.bits == self.y.bits + other.y.bits,
            r.z.bits == self.z.bits + other.z.bits,
    {
        Vector3 {
            x: Scalar { bits: self.x.bits + other.x.bits },
            y: Scalar { bits: self.y.bits + other.y.bits },
            z: Scalar { bits: self.z.bits + other.z.bits },
        }
    }

    /// Scale by a scalar factor, each coordinate truncated toward zero.
    pub fn mul_scalar(&self, s: Scalar) -> (r: Vector3)
        requires
            self.in_wide_range(),
            -DIFF_LIMIT <= s.bits <= DIFF_LIMIT,
        ensures
            r.x.bits == crate::scalar::fixed_mul(self.x.bits as int, s.bits as int),
            r.y.bits == crate::scalar::fixed_mul(self.y.bits as int, s.bits as int),
            r.z.bits == crate::scalar::fixed_mul(self.z.bits as int, s.bits as int),
            -0x1000_0000_0000_0000 <= r.x.bits <= 0x1000_0000_0000_0000,
            -0x1000_0000_0000_0000 <= r.y.bits <= 0x1000_0000_0000_0000,
            -0x1000_0000_0000_0000 <= r.z.bits <= 0x1000_0000_0000_0000,
    {
        Vector3 { x: self.x.mul(s), y: self.y.mul(s), z: self.z.mul(s) }
    }

    /// The surface-local projection of a vector: its first two coordinates.
    pub fn to_uv(&self) -> (r: Vector2)
        ensures
            r.u == self.x,
            r.v == self.y,
    {
        Vector2 { u: self.x, v: self.y }
    }
}

/// Exact dot product of two difference vectors, computed in 128 bits.
pub fn dot3_raw(a: &Vector3, b: &Vector3) -> (r: i128)
    requires
        a.in_wide_range(),
        b.in_wide_range(),
    ensures
        r == spec_dot3(*a, *b),
        -3 * (DIFF_LIMIT as int) * (DIFF_LIMIT as int) <= r
            <= 3 * (DIFF_LIMIT as int) * (DIFF_LIMIT as int),
{
    proof {
        let lim_sq = (DIFF_LIMIT as int) * (DIFF_LIMIT as int);
        assert(-lim_sq <= (a.x.bits as int) * (b.x.bits as int) <= lim_sq
            && -lim_sq <= (a.y.bits as int) * (b.y.bits as int) <= lim_sq
            && -lim_sq <= (a.z.bits as int) * (b.z.bits as int) <= lim_sq)
            by (nonlinear_arith)
            requires
                -DIFF_LIMIT <= a.x.bits <= DIFF_LIMIT,
                -DIFF_LIMIT <= a.y.bits <= DIFF_LIMIT,
                -DIFF_LIMIT <= a.z.bits <= DIFF_LIMIT,
                -DIFF_LIMIT <= b.x.bits <= DIFF_LIMIT,
                -DIFF_LIMIT <= b.y.bits <= DIFF_LIMIT,
                -DIFF_LIMIT <= b.z.bits <= DIFF_LIMIT,
                lim_sq == (DIFF_LIMIT as int) * (DIFF_LIMIT as int),
        ;
    }
    (a.x.bits as i128) * (b.x.bits as i128) + (a.y.bits as i128) * (b.y.bits as i128)
        + (a.z.bits as i128) * (b.z.bits as i128)
}

} // verus!
