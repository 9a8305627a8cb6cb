//! Lines, and the curve union over circles and lines.
//!
//! A curve is always embedded in three-dimensional model space and owns no
//! topology. Curves carry the geometric containment predicate that edge
//! validation uses: a point lies on a curve when it satisfies the curve's
//! defining equation within a small fixed tolerance (and exactly-constructed
//! points satisfy it exactly).

use vstd::prelude::*;

use crate::circle::Circle;
use crate::point::{Point3, Vector3};
use crate::scalar::mag;

verus! {

/// Tolerance for the geometric containment predicates, at the doubled
/// `2^-64` scale of products of units: `2^48` such units, about `1.5e-5`
/// in squared model units. Points constructed exactly on a curve satisfy
/// the predicates with zero residue.
pub const GEOM_EPS: i128 = 0x1_0000_0000_0000;

/// An infinite line in model space: an origin point and a direction vector.
#[derive(Clone, Copy, PartialEq, Eq, Structural, Hash, Debug)]
pub struct Line {
    /// A point on the line.
    pub origin: Point3,
    /// The line's direction; its length is the unit of the line's
    /// one-dimensional coordinate.
    pub direction: Vector3,
}

/// A point lies on a line when the cross product of its offset from the
/// line's origin with the line's direction vanishes within tolerance.
pub open spec fn spec_on_line(l: Line, p: Point3) -> bool {
    let d = (
        p.x.bits - l.origin.x.bits,
        p.y.bits - l.origin.y.bits,
        p.z.bits - l.origin.z.bits,
    );
    let w = l.direction;
    let cx = d.1 * w.z.bits - d.2 * w.y.bits;
    let cy = d.2 * w.x.bits - d.0 * w.z.bits;
    let cz = d.0 * w.y.bits - d.1 * w.x.bits;
    mag(cx) <= GEOM_EPS && mag(cy) <= GEOM_EPS && mag(cz) <= GEOM_EPS
}

/// A point lies on a circle when its squared distance from the center equals
/// the squared radius within tolerance.
pub open spec fn spec_on_circle(c: Circle, p: Point3) -> bool {
    let d = (
        p.x.bits - c.center.x.bits,
        p.y.bits - c.center.y.bits,
        p.z.bits - c.center.z.bits,
    );
    let dist_sq = d.0 * d.0 + d.1 * d.1 + d.2 * d.2;
    let r_sq = crate::point::spec_dot3(c.a, c.a);
    mag(dist_sq - r_sq) <= GEOM_EPS
}

impl Line {
    pub open spec fn in_range(self) -> bool {
        self.origin.in_range() && self.direction.in_wide_range()
    }

    /// The line through two points: the first is the origin, the difference
    /// is the direction. The two defining points always lie on the line
    /// exactly.
    pub fn from_points(points: [Point3; 2]) -> (r: Line)
        requires
            points[0].in_range(),
            points[1].in_range(),
        ensures
            r.origin == points[0],
            r.direction.x.bits == points[1].x.bits - points[0].x.bits,
            r.direction.y.bits == points[1].y.bits - points[0].y.bits,
            r.direction.z.bits == points[1].z.bits - points[0].z.bits,
    {
        let p0 = points[0];
        let p1 = points[1];
        Line { origin: p0, direction: p1.sub(&p0) }
    }

    /// Whether a point lies on the line, within tolerance.
    pub fn contains_point(&self, p: &Point3) -> (r: bool)
        requires
            self.origin.in_range(),
            self.direction.in_wide_range(),
            p.in_range(),
        ensures
            r == spec_on_line(*self, *p),
    {
        let dx: i64 = p.x.bits - self.origin.x.bits;
        let dy: i64 = p.y.bits - self.origin.y.bits;
        let dz: i64 = p.z.bits - self.origin.z.bits;
        let wx: i64 = self.direction.x.bits;
        let wy: i64 = self.direction.y.bits;
        let wz: i64 = self.direction.z.bits;
        proof {
            lemma_wide_products(dx as int, dy as int, dz as int, wx as int, wy as int, wz as int);
        }
        let cx: i128 = (dy as i128) * (wz as i128) - (dz as i128) * (wy as i128);
        let cy: i128 = (dz as i128) * (wx as i128) - (dx as i128) * (wz as i128);
        let cz: i128 = (dx as i128) * (wy as i128) - (dy as i128) * (wx as i128);
        let ex: i128 = if cx >= 0 { cx } else { -cx };
        let ey: i128 = if cy >= 0 { cy } else { -cy };
        let ez: i128 = if cz >= 0 { cz } else { -cz };
        ex <= GEOM_EPS && ey <= GEOM_EPS && ez <= GEOM_EPS
    }
}

/// Products of two coordinates bounded by the wide coordinate range stay
/// well inside 126 bits.
proof fn lemma_wide_products(dx: int, dy: int, dz: int, wx: int, wy: int, wz: int)
    requires
        mag(dx) <= crate::point::DIFF_LIMIT,
        mag(dy) <= crate::point::DIFF_LIMIT,
        mag(dz) <= crate::point::DIFF_LIMIT,
        mag(wx) <= crate::point::DIFF_LIMIT,
        mag(wy) <= crate::point::DIFF_LIMIT,
        mag(wz) <= crate::point::DIFF_LIMIT,
    ensures
        mag(dx * wx) <= 0x10_0000_0000_0000_0000_0000_0000,
        mag(dx * wy) <= 0x10_0000_0000_0000_0000_0000_0000,
        mag(dx * wz) <= 0x10_0000_0000_0000_0000_0000_0000,
        mag(dy * wx) <= 0x10_0000_0000_0000_0000_0000_0000,
        mag(dy * wy) <= 0x10_0000_0000_0000_0000_0000_0000,
        mag(dy * wz) <= 0x10_0000_0000_0000_0000_0000_0000,
        mag(dz * wx) <= 0x10_0000_0000_0000_0000_0000_0000,
        mag(dz * wy) <= 0x10_0000_0000_0000_0000_0000_0000,
        mag(dz * wz) <= 0x10_0000_0000_0000_0000_0000_0000,
{
    assert forall|a: int, b: int|
        mag(a) <= crate::point::DIFF_LIMIT && mag(b) <= crate::point::DIFF_LIMIT implies mag(
        #[trigger] (a * b)) <= 0x10_0000_0000_0000_0000_0000_0000 by {
        assert(mag(a * b) <= 0x10_0000_0000_0000_0000_0000_0000) by (nonlinear_arith)
            requires
                mag(a) <= 0x4000_0000_0000,
                mag(b) <= 0x4000_0000_0000,
        ;
    }
}

/// A curve: a circle or a line, embedded in model space.
#[derive(Clone, Copy, PartialEq, Eq, Structural, Hash, Debug)]
pub enum Curve {
    Circle(Circle),
    Line(Line),
}

/// Whether a point lies on a curve, within tolerance.
pub open spec fn spec_on_curve(c: Curve, p: Point3) -> bool {
    match c {
        Curve::Circle(circle) => spec_on_circle(circle, p),
        Curve::Line(line) => spec_on_line(line, p),
    }
}

impl Curve {
    pub open spec fn in_range(self) -> bool {
        match self {
            Curve::Circle(circle) => circle.in_range(),
            Curve::Line(line) => line.in_range(),
        }
    }

    /// Whether a point lies on the curve, within tolerance.
    pub fn contains_point(&self, p: &Point3) -> (r: bool)
        requires
            self.in_range(),
            p.in_range(),
        ensures
            r == spec_on_curve(*self, *p),
    {
        match self {
            Curve::Circle(circle) => {
                let dx: i64 = p.x.bits - circle.center.x.bits;
                let dy: i64 = p.y.bits - circle.center.y.bits;
                let dz: i64 = p.z.bits - circle.center.z.bits;
                proof {
                    lemma_wide_products(
                        dx as int, dy as int, dz as int, dx as int, dy as int, dz as int);
                    lemma_wide_products(
                        circle.a.x.bits as int, circle.a.y.bits as int, circle.a.z.bits as int,
                        circle.a.x.bits as int, circle.a.y.bits as int, circle.a.z.bits as int);
                }
                let dist_sq: i128 = (dx as i128) * (dx as i128) + (dy as i128) * (dy as i128)
                    + (dz as i128) * (dz as i128);
                let r_sq: i128 = (circle.a.x.bits as i128) * (circle.a.x.bits as i128) + (
                circle.a.y.bits as i128) * (circle.a.y.bits as i128) + (circle.a.z.bits as i128)
                    * (circle.a.z.bits as i128);
                let diff: i128 = dist_sq - r_sq;
                let e: i128 = if diff >= 0 { diff } else { -diff };
                e <= GEOM_EPS
            }
            Curve::Line(line) => line.contains_point(p),
        }
    }
}

} // verus!
