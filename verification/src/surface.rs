//! Surfaces: parametrizations of a plane embedded in model space.
//!
//! A surface is an origin point and two orthogonal basis vectors of at least
//! unit length. It maps between three-dimensional model space and the
//! two-dimensional surface-local coordinates that faces are triangulated in.
//! `point_model_to_surface` and `point_surface_to_model` are mutual inverses
//! up to the fixed-point rounding of the projection (exactly inverse for a
//! unit axis-aligned basis).

use vstd::prelude::*;

use crate::num::trunc_div;
use crate::point::{dot3_raw, spec_dot3, Point2, Point3, Vector2, Vector3, DIFF_LIMIT};
use crate::scalar::{fixed_mul, Scalar, ONE_BITS};

verus! {

/// The squared length of a unit basis vector, at the doubled `2^-64` scale.
pub const UNIT_SQ: i128 = 0x1_0000_0000_0000_0000;

/// A plane in model space, parametrized by two orthogonal basis vectors.
#[derive(Clone, Copy, PartialEq, Eq, Structural, Hash, Debug)]
pub struct Surface {
    /// The model-space point at surface coordinates `(0, 0)`.
    pub origin: Point3,
    /// The direction of the first surface coordinate.
    pub u: Vector3,
    /// The direction of the second surface coordinate, perpendicular to `u`.
    pub v: Vector3,
}

/// The surface-local coordinate of a model point along one basis vector:
/// the dot product of the point's offset with the basis vector, divided by
/// the basis vector's squared length.
pub open spec fn spec_project(d: (int, int, int), w: Vector3, w_sq: int) -> int {
    trunc_div(
        (d.0 * w.x.bits + d.1 * w.y.bits + d.2 * w.z.bits) * (ONE_BITS as int),
        w_sq,
    )
}

/// The offset of a model point from a surface origin, exactly.
pub open spec fn spec_offset(p: Point3, o: Point3) -> (int, int, int) {
    (p.x.bits - o.x.bits, p.y.bits - o.y.bits, p.z.bits - o.z.bits)
}

/// One model-space component of the embedding of surface coordinates:
/// `origin + u * pu + v * pv`, per coordinate.
pub open spec fn spec_embed(o: int, uc: int, vc: int, pu: int, pv: int) -> int {
    o + fixed_mul(uc, pu) + fixed_mul(vc, pv)
}

impl Surface {
    /// A well-formed surface: basis vectors within the coordinate bound,
    /// orthogonal, each at least of unit length.
    pub open spec fn wf(self) -> bool {
        &&& self.origin.in_range()
        &&& self.u.in_range()
        &&& self.v.in_range()
        &&& spec_dot3(self.u, self.v) == 0
        &&& spec_dot3(self.u, self.u) >= UNIT_SQ
        &&& spec_dot3(self.v, self.v) >= UNIT_SQ
    }

    /// The plane spanned by the first two model axes: origin at the model
    /// origin, unit basis along `x` and `y`.
    pub fn xy_plane() -> (r: Surface)
        ensures
            r.wf(),
            r.origin == (Point3 { x: Scalar { bits: 0 }, y: Scalar { bits: 0 }, z: Scalar { bits: 0 } }),
            r.u == (Vector3 { x: Scalar { bits: ONE_BITS }, y: Scalar { bits: 0 }, z: Scalar { bits: 0 } }),
            r.v == (Vector3 { x: Scalar { bits: 0 }, y: Scalar { bits: ONE_BITS }, z: Scalar { bits: 0 } }),
    {
        Surface {
            origin: Point3 { x: Scalar { bits: 0 }, y: Scalar { bits: 0 }, z: Scalar { bits: 0 } },
            u: Vector3 { x: Scalar { bits: ONE_BITS }, y: Scalar { bits: 0 }, z: Scalar { bits: 0 } },
            v: Vector3 { x: Scalar { bits: 0 }, y: Scalar { bits: ONE_BITS }, z: Scalar { bits: 0 } },
        }
    }

    /// Project a model-space point into surface-local coordinates.
    pub fn point_model_to_surface(&self, p: &Point3) -> (r: Point2)
        requires
            self.wf(),
            p.in_range(),
        ensures
            r.u.bits == spec_project(
                spec_offset(*p, self.origin), self.u, spec_dot3(self.u, self.u)),
            r.v.bits == spec_project(
                spec_offset(*p, self.origin), self.v, spec_dot3(self.v, self.v)),
            -0x4000_0000_0000_0000 <= r.u.bits <= 0x4000_0000_0000_0000,
            -0x4000_0000_0000_0000 <= r.v.bits <= 0x4000_0000_0000_0000,
    {
        let d = p.sub(&self.origin);
        let nu: i128 = dot3_raw(&d, &self.u);
        let nv: i128 = dot3_raw(&d, &self.v);
        let du: i128 = dot3_raw(&self.u, &self.u);
        let dv: i128 = dot3_raw(&self.v, &self.v);
        proof {
            lemma_projection_fits(nu as int, du as int);
            lemma_projection_fits(nv as int, dv as int);
        }
        let qu: i128 = crate::num::trunc_div_i128(nu * (ONE_BITS as i128), du);
        let qv: i128 = crate::num::trunc_div_i128(nv * (ONE_BITS as i128), dv);
        Point2 { u: Scalar { bits: qu as i64 }, v: Scalar { bits: qv as i64 } }
    }

    /// Embed surface-local coordinates back into model space.
    pub fn point_surface_to_model(&self, p: &Point2) -> (r: Point3)
        requires
            self.wf(),
            p.in_range(),
        ensures
            r.x.bits == spec_embed(
                self.origin.x.bits as int, self.u.x.bits as int, self.v.x.bits as int,
                p.u.bits as int, p.v.bits as int),
            r.y.bits == spec_embed(
                self.origin.y.bits as int, self.u.y.bits as int, self.v.y.bits as int,
                p.u.bits as int, p.v.bits as int),
            r.z.bits == spec_embed(
                self.origin.z.bits as int, self.u.z.bits as int, self.v.z.bits as int,
                p.u.bits as int, p.v.bits as int),
    {
        let w = self.vector_surface_to_model(&Vector2 { u: p.u, v: p.v });
        self.origin.add(&w)
    }

    /// Embed a surface-local offset vector into model space. This maps a
    /// vector, not a point: the surface origin does not enter.
    pub fn vector_surface_to_model(&self, w: &Vector2) -> (r: Vector3)
        requires
            self.wf(),
            -DIFF_LIMIT <= w.u.bits <= DIFF_LIMIT,
            -DIFF_LIMIT <= w.v.bits <= DIFF_LIMIT,
        ensures
            r.x.bits == fixed_mul(self.u.x.bits as int, w.u.bits as int)
                + fixed_mul(self.v.x.bits as int, w.v.bits as int),
            r.y.bits == fixed_mul(self.u.y.bits as int, w.u.bits as int)
                + fixed_mul(self.v.y.bits as int, w.v.bits as int),
            r.z.bits == fixed_mul(self.u.z.bits as int, w.u.bits as int)
                + fixed_mul(self.v.z.bits as int, w.v.bits as int),
            -0x2000_0000_0000_0000 <= r.x.bits <= 0x2000_0000_0000_0000,
            -0x2000_0000_0000_0000 <= r.y.bits <= 0x2000_0000_0000_0000,
            -0x2000_0000_0000_0000 <= r.z.bits <= 0x2000_0000_0000_0000,
    {
        let a = self.u.mul_scalar(w.u);
        let b = self.v.mul_scalar(w.v);
        a.add(&b)
    }
}

/// A projection numerator bounded by the widest dot product, divided by a
/// denominator of at least a unit square, fits comfortably in an `i64`.
proof fn lemma_projection_fits(n: int, d: int)
    requires
        -3 * (DIFF_LIMIT as int) * (DIFF_LIMIT as int) <= n
            <= 3 * (DIFF_LIMIT as int) * (DIFF_LIMIT as int),
        d >= UNIT_SQ as int,
    ensures
        -0x4000_0000_0000_0000 <= trunc_div(n * (ONE_BITS as int), d) <= 0x4000_0000_0000_0000,
        n * (ONE_BITS as int) > i128::MIN,
        -0x4000_0000_0000_0000_0000_0000_0000_0000 < n * (ONE_BITS as int)
            < 0x4000_0000_0000_0000_0000_0000_0000_0000,
{
    let m = 3 * (DIFF_LIMIT as int) * (DIFF_LIMIT as int) * (ONE_BITS as int);
    assert(-m <= n * (ONE_BITS as int) <= m) by (nonlinear_arith)
        requires
            -3 * (DIFF_LIMIT as int) * (DIFF_LIMIT as int) <= n
                <= 3 * (DIFF_LIMIT as int) * (DIFF_LIMIT as int),
            m == 3 * (DIFF_LIMIT as int) * (DIFF_LIMIT as int) * (ONE_BITS as int),
    ;
    crate::num::lemma_trunc_div_bound(n * (ONE_BITS as int), d, m);
    assert(m / d <= m / (UNIT_SQ as int)) by {
        vstd::arithmetic::div_mod::lemma_div_is_ordered_by_denominator(m, UNIT_SQ as int, d);
    }
    assert(m / (UNIT_SQ as int) <= 0x4000_0000_0000_0000);
    vstd::arithmetic::div_mod::lemma_div_pos_is_pos(m, d);
}

} // verus!
