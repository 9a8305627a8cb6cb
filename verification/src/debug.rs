//! Diagnostic records of the triangulation's ray casts.
//!
//! The containment test records, for every triangle edge it examines, the
//! ray it cast (re-embedded into model space) and the deduplicated hit
//! parameters it found. The collector is passed by reference through the
//! triangulation — explicit state, not a global — and never affects
//! behavior; it exists for external visualization.

use vstd::prelude::*;

use crate::point::{Point3, Vector3};

verus! {

/// One ray-cast check of a triangle edge: the cast ray in model space, and
/// the distinct hit parameters, rounded to millionths, in discovery order.
pub struct TriangleEdgeCheck {
    /// The model-space origin of the cast ray.
    pub origin: Point3,
    /// The model-space direction of the cast ray.
    pub direction: Vector3,
    /// The distinct ray parameters at which the ray crossed boundary
    /// segments, in millionths.
    pub hits: Vec<i128>,
}

/// The collector of per-edge ray-cast checks.
pub struct DebugInfo {
    /// One record per examined triangle edge, in examination order.
    pub triangle_edge_checks: Vec<TriangleEdgeCheck>,
}

impl DebugInfo {
    /// An empty collector.
    pub fn new() -> (r: DebugInfo)
        ensures
            r.triangle_edge_checks@.len() == 0,
    {
        DebugInfo { triangle_edge_checks: Vec::new() }
    }
}

} // verus!
