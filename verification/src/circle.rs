//! Circles in model space.
//!
//! A circle is a center point and two spanning vectors `a` and `b` from the
//! center. `a` points at the circle's starting point and its length is the
//! radius; `b` must be perpendicular to `a` and of the same length, and fixes
//! the circle's plane and direction. The circle maps between model space and
//! a one-dimensional angular coordinate in `[0, 2 * pi)`.

use vstd::prelude::*;

use crate::point::{dot3_raw, spec_dot3, Point1, Point3, Vector1, Vector3};
use crate::scalar::{fixed_mul, scale_pair, scale_pair_exec, Scalar};
use crate::scalar::{COORD_LIMIT, ONE_BITS, TWO_PI_BITS};
use crate::trig::{atan2_fixed, cos_fixed, normalize_angle, sin_fixed, spec_atan2};
use crate::trig::{cos_of, sin_of, TRIG_SLACK};

verus! {

/// A circle in three-dimensional model space.
#[derive(Clone, Copy, PartialEq, Eq, Structural, Hash, Debug)]
pub struct Circle {
    /// The center point of the circle.
    pub center: Point3,
    /// A vector from the center to the starting point of the circle; its
    /// length is the radius.
    pub a: Vector3,
    /// A second vector from the center, perpendicular to `a` and of equal
    /// length, defining the circle's plane.
    pub b: Vector3,
}

/// The dot product of the difference `p - c` with the vector `w`, exactly,
/// at the doubled `2^-64` scale.
pub open spec fn spec_dot_diff(p: Point3, c: Point3, w: Vector3) -> int {
    (p.x.bits - c.x.bits) * w.x.bits + (p.y.bits - c.y.bits) * w.y.bits + (p.z.bits
        - c.z.bits) * w.z.bits
}

/// The angular coordinate the circle assigns to a point: the arc tangent of
/// the point's projection onto the `(a, b)` basis, normalized into
/// `[0, 2 * pi)`. The two exact projections are scaled into range together,
/// which keeps their ratio.
pub open spec fn spec_circle_coords(c: Circle, p: Point3) -> int {
    let pair = scale_pair(spec_dot_diff(p, c.center, c.a), spec_dot_diff(p, c.center, c.b));
    let ang = spec_atan2(pair.1, pair.0);
    if ang >= 0 {
        ang
    } else {
        ang + TWO_PI_BITS
    }
}

/// The components of the model-space vector at angular coordinate `t`:
/// `a * cos(t) + b * sin(t)`.
pub open spec fn spec_circle_vector(c: Circle, t: int) -> (int, int, int) {
    (
        fixed_mul(c.a.x.bits as int, cos_of(t)) + fixed_mul(c.b.x.bits as int, sin_of(t)),
        fixed_mul(c.a.y.bits as int, cos_of(t)) + fixed_mul(c.b.y.bits as int, sin_of(t)),
        fixed_mul(c.a.z.bits as int, cos_of(t)) + fixed_mul(c.b.z.bits as int, sin_of(t)),
    )
}

impl Circle {
    /// All three fields within the kernel's coordinate bound.
    pub open spec fn in_range(self) -> bool {
        self.center.in_range() && self.a.in_range() && self.b.in_range()
    }

    /// A well-formed circle: spanning vectors of equal nonzero length and
    /// perpendicular to each other, all within the coordinate bound.
    pub open spec fn wf(self) -> bool {
        &&& self.in_range()
        &&& spec_dot3(self.a, self.a) == spec_dot3(self.b, self.b)
        &&& spec_dot3(self.a, self.b) == 0
        &&& spec_dot3(self.a, self.a) > 0
    }

    /// The same circle traversed the other way: `b` is negated.
    pub fn reverse(self) -> (r: Circle)
        requires
            self.in_range(),
        ensures
            r.center == self.center,
            r.a == self.a,
            r.b.x.bits == -self.b.x.bits,
            r.b.y.bits == -self.b.y.bits,
            r.b.z.bits == -self.b.z.bits,
            r.in_range(),
            self.wf() ==> r.wf(),
    {
        let r = Circle { center: self.center, a: self.a, b: self.b.neg() };
        proof {
            if self.wf() {
                assert(spec_dot3(r.b, r.b) == spec_dot3(self.b, self.b)
                    && spec_dot3(r.a, r.b) == -spec_dot3(self.a, self.b)) by (nonlinear_arith)
                    requires
                        r.a == self.a,
                        r.b.x.bits == -self.b.x.bits,
                        r.b.y.bits == -self.b.y.bits,
                        r.b.z.bits == -self.b.z.bits,
                ;
            }
        }
        r
    }

    /// The angular coordinate of a point, in `[0, 2 * pi)`.
    ///
    /// The point is first projected onto the `(a, b)` basis, so a point off
    /// the circle — intentionally or not — still yields the coordinate of its
    /// projection rather than an error; callers are responsible for passing
    /// points they know to be on the curve.
    pub fn point_to_circle_coords(&self, point: Point3) -> (r: Point1)
        requires
            self.in_range(),
            point.in_range(),
        ensures
            r.t.bits == spec_circle_coords(*self, point),
            0 <= r.t.bits < TWO_PI_BITS,
    {
        let d = point.sub(&self.center);
        let du: i128 = dot3_raw(&d, &self.a);
        let dv: i128 = dot3_raw(&d, &self.b);
        let (su, sv) = scale_pair_exec(du, dv);
        let ang = atan2_fixed(sv, su);
        let coord = normalize_angle(ang);
        Point1 { t: coord }
    }

    /// The model-space point at an angular coordinate:
    /// `center + a * cos(t) + b * sin(t)`.
    pub fn point_from_circle_coords(&self, point: Point1) -> (r: Point3)
        requires
            self.in_range(),
        ensures
            ({
                let w = spec_circle_vector(*self, point.t.bits as int);
                r.x.bits == self.center.x.bits + w.0 && r.y.bits == self.center.y.bits + w.1
                    && r.z.bits == self.center.z.bits + w.2
            }),
    {
        let w = self.vector_from_circle_coords(Vector1 { t: point.t });
        self.center.add(&w)
    }

    /// The model-space vector at an angular coordinate:
    /// `a * cos(t) + b * sin(t)`.
    pub fn vector_from_circle_coords(&self, vector: Vector1) -> (r: Vector3)
        requires
            self.in_range(),
        ensures
            ({
                let w = spec_circle_vector(*self, vector.t.bits as int);
                r.x.bits == w.0 && r.y.bits == w.1 && r.z.bits == w.2
            }),
            -0x2000_0000_0000_0000 <= r.x.bits <= 0x2000_0000_0000_0000,
            -0x2000_0000_0000_0000 <= r.y.bits <= 0x2000_0000_0000_0000,
            -0x2000_0000_0000_0000 <= r.z.bits <= 0x2000_0000_0000_0000,
    {
        let sin = sin_fixed(vector.t);
        let cos = cos_fixed(vector.t);
        proof {
            assert(ONE_BITS + TRIG_SLACK <= COORD_LIMIT);
        }
        let ac = self.a.mul_scalar(cos);
        let bs = self.b.mul_scalar(sin);
        ac.add(&bs)
    }
}

} // verus!
