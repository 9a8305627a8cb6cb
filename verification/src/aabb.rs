//! Axis-aligned bounding boxes in model space.
//!
//! The bounding volume a finished shape reports: the componentwise minimum
//! and maximum of a set of points. For an empty set the minimum and maximum
//! are equal (the origin), as the interface demands of an empty shape.

use vstd::prelude::*;

use crate::point::Point3;
use crate::scalar::Scalar;

verus! {

/// An axis-aligned box: the componentwise minimum and maximum corners.
#[derive(Clone, Copy, PartialEq, Eq, Structural, Hash, Debug)]
pub struct Aabb {
    pub min: Point3,
    pub max: Point3,
}

impl Aabb {
    /// Whether a point lies inside the box, inclusive of its faces.
    pub open spec fn spec_contains(self, p: Point3) -> bool {
        &&& self.min.x.bits <= p.x.bits <= self.max.x.bits
        &&& self.min.y.bits <= p.y.bits <= self.max.y.bits
        &&& self.min.z.bits <= p.z.bits <= self.max.z.bits
    }

    /// The bounding box of a set of points: the componentwise extremes.
    /// For no points at all, minimum and maximum are both the origin, so
    /// they are equal as required of an empty shape.
    pub fn from_points(points: &Vec<Point3>) -> (r: Aabb)
        ensures
            points@.len() == 0 ==> r.min == r.max,
            forall|i: int| 0 <= i < points@.len() ==> r.spec_contains(#[trigger] points@[i]),
            points@.len() > 0 ==> exists|i: int|
                0 <= i < points@.len() && (#[trigger] points@[i]).x == r.min.x,
            points@.len() > 0 ==> exists|i: int|
                0 <= i < points@.len() && (#[trigger] points@[i]).x == r.max.x,
            points@.len() > 0 ==> exists|i: int|
                0 <= i < points@.len() && (#[trigger] points@[i]).y == r.min.y,
            points@.len() > 0 ==> exists|i: int|
                0 <= i < points@.len() && (#[trigger] points@[i]).y == r.max.y,
            points@.len() > 0 ==> exists|i: int|
                0 <= i < points@.len() && (#[trigger] points@[i]).z == r.min.z,
            points@.len() > 0 ==> exists|i: int|
                0 <= i < points@.len() && (#[trigger] points@[i]).z == r.max.z,
    {
        if points.len() == 0 {
            let o = Point3 {
                x: Scalar { bits: 0 },
                y: Scalar { bits: 0 },
                z: Scalar { bits: 0 },
            };
            return Aabb { min: o, max: o };
        }
        let first = points[0];
        let mut min = first;
        let mut max = first;
        let n = points.len();
        let mut i: usize = 1;
        while i < n
            invariant
                n == points@.len(),
                1 <= i <= n,
                forall|k: int|
                    0 <= k < i ==> (Aabb { min, max }).spec_contains(#[trigger] points@[k]),
                exists|k: int| 0 <= k < i && (#[trigger] points@[k]).x == min.x,
                exists|k: int| 0 <= k < i && (#[trigger] points@[k]).x == max.x,
                exists|k: int| 0 <= k < i && (#[trigger] points@[k]).y == min.y,
                exists|k: int| 0 <= k < i && (#[trigger] points@[k]).y == max.y,
                exists|k: int| 0 <= k < i && (#[trigger] points@[k]).z == min.z,
                exists|k: int| 0 <= k < i && (#[trigger] points@[k]).z == max.z,
            decreases n - i,
        {
            let p = points[i];
            let ghost old_min = min;
            let ghost old_max = max;
            if p.x.bits < min.x.bits {
                min.x = p.x;
            }
            if p.y.bits < min.y.bits {
                min.y = p.y;
            }
            if p.z.bits < min.z.bits {
                min.z = p.z;
            }
            if p.x.bits > max.x.bits {
                max.x = p.x;
            }
            if p.y.bits > max.y.bits {
                max.y = p.y;
            }
            if p.z.bits > max.z.bits {
                max.z = p.z;
            }
            proof {
                if min.x == old_min.x {
                    let k = choose|k: int| 0 <= k < i && (#[trigger] points@[k]).x == old_min.x;
                    assert(points@[k].x == min.x);
                } else {
                    assert(points@[i as int].x == min.x);
                }
                if max.x == old_max.x {
                    let k = choose|k: int| 0 <= k < i && (#[trigger] points@[k]).x == old_max.x;
                    assert(points@[k].x == max.x);
                } else {
                    assert(points@[i as int].x == max.x);
                }
                if min.y == old_min.y {
                    let k = choose|k: int| 0 <= k < i && (#[trigger] points@[k]).y == old_min.y;
                    assert(points@[k].y == min.y);
                } else {
                    assert(points@[i as int].y == min.y);
                }
                if max.y == old_max.y {
                    let k = choose|k: int| 0 <= k < i && (#[trigger] points@[k]).y == old_max.y;
                    assert(points@[k].y == max.y);
                } else {
                    assert(points@[i as int].y == max.y);
                }
                if min.z == old_min.z {
                    let k = choose|k: int| 0 <= k < i && (#[trigger] points@[k]).z == old_min.z;
                    assert(points@[k].z == min.z);
                } else {
                    assert(points@[i as int].z == min.z);
                }
                if max.z == old_max.z {
                    let k = choose|k: int| 0 <= k < i && (#[trigger] points@[k]).z == old_max.z;
                    assert(points@[k].z == max.z);
                } else {
                    assert(points@[i as int].z == max.z);
                }
            }
            i += 1;
        }
        Aabb { min, max }
    }
}

} // verus!
