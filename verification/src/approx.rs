//! Cycle approximations: boundary loops as closed polylines.
//!
//! A cycle approximation is an ordered, closed sequence of points in model
//! space standing in for one topological boundary loop of a face. Its
//! segments connect consecutive points and wrap around from the last point
//! back to the first. Approximations are transient: built per face during
//! triangulation and not retained in the store.

use vstd::prelude::*;

use crate::circle::{spec_circle_vector, Circle};
use crate::num::{trunc_div, trunc_div_i128};
use crate::point::{Point1, Point3};
use crate::scalar::{fixed_mul, Scalar, ONE_BITS, PI_BITS, TWO_PI_BITS};
use crate::trig::{cos_fixed, cos_of};

verus! {

/// The sagitta of one chord of an `n`-gon inscribed in a circle of the
/// given radius, in units: `radius * (1 - cos(pi / n))` — the maximum
/// deviation of the chord from the arc it approximates.
pub open spec fn spec_chord_sag(radius: int, n: int) -> int {
    fixed_mul(radius, (ONE_BITS as int) - cos_of(trunc_div(PI_BITS as int, n)))
}

/// The number of samples at which a circle of the given radius deviates
/// from its approximation by no more than the tolerance: the first power of
/// two (from four up) whose chord sagitta is within tolerance, capped at
/// `65536`. The returned count's sagitta meets the tolerance unless the cap
/// was hit, and the count is minimal among the powers of two tried.
pub fn circle_approx_count(radius: Scalar, tolerance: Scalar) -> (n: usize)
    requires
        0 < radius.bits,
        radius.in_range(),
        0 < tolerance.bits,
    ensures
        4 <= n <= 65536,
        n < 65536 ==> spec_chord_sag(radius.bits as int, n as int) <= tolerance.bits,
        n > 4 ==> spec_chord_sag(radius.bits as int, n as int / 2) > tolerance.bits,
{
    let mut n: usize = 4;
    loop
        invariant_except_break
            n == 4 || n == 8 || n == 16 || n == 32 || n == 64 || n == 128 || n == 256 || n == 512
                || n == 1024 || n == 2048 || n == 4096 || n == 8192 || n == 16384 || n == 32768,
            0 < radius.bits,
            radius.in_range(),
            n > 4 ==> spec_chord_sag(radius.bits as int, n as int / 2) > tolerance.bits,
        ensures
            4 <= n <= 65536,
            n < 65536 ==> spec_chord_sag(radius.bits as int, n as int) <= tolerance.bits,
            n > 4 ==> spec_chord_sag(radius.bits as int, n as int / 2) > tolerance.bits,
        decreases 65536 - n,
    {
        let theta: i128 = trunc_div_i128(PI_BITS as i128, n as i128);
        proof {
            vstd::arithmetic::div_mod::lemma_div_pos_is_pos(PI_BITS as int, n as int);
            vstd::arithmetic::div_mod::lemma_div_nonincreasing(PI_BITS as int, n as int);
        }
        let c = cos_fixed(Scalar { bits: theta as i64 });
        let sag = radius.mul(Scalar { bits: ONE_BITS - c.bits });
        if sag.bits <= tolerance.bits {
            break ;
        }
        if n == 32768 {
            n = 65536;
            break ;
        }
        n = n * 2;
    }
    n
}

/// A closed polyline approximating one boundary cycle of a face.
pub struct CycleApprox {
    /// The sample points, in cycle order; the cycle closes from the last
    /// point back to the first.
    pub points: Vec<Point3>,
}

/// The pair of cycle points a segment connects: point `i` and its cyclic
/// successor.
pub open spec fn spec_cycle_pair(points: Seq<Point3>, i: int) -> (Point3, Point3) {
    (points[i], points[(i + 1) % (points.len() as int)])
}

impl CycleApprox {
    /// Every sample point within the kernel's coordinate bound.
    pub open spec fn in_range(self) -> bool {
        forall|i: int| 0 <= i < self.points@.len() ==> (#[trigger] self.points@[i]).in_range()
    }

    /// A cycle approximation over the given points.
    pub fn new(points: Vec<Point3>) -> (r: CycleApprox)
        ensures
            r.points@ == points@,
    {
        CycleApprox { points }
    }

    /// The closed polyline's segments: each point paired with its cyclic
    /// successor. A degenerate cycle of fewer than two points has no
    /// segments.
    pub fn segments(&self) -> (r: Vec<(Point3, Point3)>)
        ensures
            self.points@.len() < 2 ==> r@.len() == 0,
            self.points@.len() >= 2 ==> r@.len() == self.points@.len() && forall|i: int|
                0 <= i < r@.len() ==> r@[i] == spec_cycle_pair(self.points@, i),
    {
        let n = self.points.len();
        let mut r: Vec<(Point3, Point3)> = Vec::new();
        if n < 2 {
            return r;
        }
        let mut i: usize = 0;
        while i < n
            invariant
                2 <= n == self.points@.len(),
                i <= n,
                r@.len() == i,
                forall|k: int| 0 <= k < i ==> r@[k] == spec_cycle_pair(self.points@, k),
            decreases n - i,
        {
            let j: usize = if i + 1 == n {
                0
            } else {
                i + 1
            };
            proof {
                if i + 1 == n {
                    assert((i + 1) % (n as int) == 0) by {
                        vstd::arithmetic::div_mod::lemma_mod_self_0(n as int);
                    }
                } else {
                    assert((i + 1) % (n as int) == i + 1) by {
                        vstd::arithmetic::div_mod::lemma_small_mod((i + 1) as nat, n as nat);
                    }
                }
            }
            r.push((self.points[i], self.points[j]));
            i += 1;
        }
        r
    }

    /// Approximate a full circle by `n` evenly spaced samples: sample `k`
    /// sits at angular coordinate `2 * pi * k / n` (truncated to the
    /// fixed-point grid), mapped through the circle's parametrization.
    pub fn from_circle(circle: &Circle, n: usize) -> (r: CycleApprox)
        requires
            circle.in_range(),
            3 <= n <= 65536,
        ensures
            r.points@.len() == n,
            forall|k: int|
                0 <= k < n ==> ({
                    let t = trunc_div(TWO_PI_BITS * k, n as int);
                    let w = spec_circle_vector(*circle, t);
                    (#[trigger] r.points@[k]).x.bits == circle.center.x.bits + w.0
                        && r.points@[k].y.bits == circle.center.y.bits + w.1
                        && r.points@[k].z.bits == circle.center.z.bits + w.2
                }),
    {
        let mut points: Vec<Point3> = Vec::new();
        let mut k: usize = 0;
        while k < n
            invariant
                circle.in_range(),
                3 <= n <= 65536,
                k <= n,
                points@.len() == k,
                forall|j: int|
                    0 <= j < k ==> ({
                        let t = trunc_div(TWO_PI_BITS * j, n as int);
                        let w = spec_circle_vector(*circle, t);
                        (#[trigger] points@[j]).x.bits == circle.center.x.bits + w.0
                            && points@[j].y.bits == circle.center.y.bits + w.1
                            && points@[j].z.bits == circle.center.z.bits + w.2
                    }),
            decreases n - k,
        {
            let num: i128 = (TWO_PI_BITS as i128) * (k as i128);
            let t_bits: i128 = trunc_div_i128(num, n as i128);
            proof {
                assert(0 <= num as int <= (TWO_PI_BITS as int) * 65536) by (nonlinear_arith)
                    requires
                        0 <= k <= 65536,
                        num as int == (TWO_PI_BITS as int) * (k as int),
                        TWO_PI_BITS == 26986075408,
                ;
                crate::num::lemma_trunc_div_bound(
                    num as int, n as int, (TWO_PI_BITS as int) * 65536);
                vstd::arithmetic::div_mod::lemma_div_pos_is_pos(num as int, n as int);
                assert(trunc_div(num as int, n as int) <= num as int) by {
                    vstd::arithmetic::div_mod::lemma_div_nonincreasing(num as int, n as int);
                }
            }
            let angle = Point1 { t: Scalar { bits: t_bits as i64 } };
            let p = circle.point_from_circle_coords(angle);
            points.push(p);
            k += 1;
        }
        CycleApprox { points }
    }
}

} // verus!
