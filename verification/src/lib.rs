//! A boundary-representation geometry kernel.
//!
//! The kernel keeps a deduplicating store of shared geometric and topological
//! objects (points, curves, surfaces, vertices, edges) with validation on
//! insert, and a triangulation filter that turns approximated face boundaries
//! into a triangle mesh by a ray-casting containment test.
//!
//! All numbers are binary fixed point: an `i64` counting units of `2^-32`.
//! This gives every scalar a canonical representation, an exact total order
//! and exact equality (there is no NaN and only one zero), which is what the
//! deduplicating store needs from its keys.

mod aabb;
mod approx;
mod builder;
mod circle;
mod curve;
mod debug;
mod num;
mod point;
mod polygon;
mod scalar;
mod store;
mod surface;
mod triangulate;
mod trig;

pub use aabb::Aabb;
pub use approx::{circle_approx_count, spec_chord_sag, spec_cycle_pair, CycleApprox};
pub use builder::{
    lemma_from_point_idempotent, spec_circle_curve, spec_curve_handle, spec_edge_handle,
    spec_line_through, spec_point_handle, spec_vertex_handle, EdgeBuilder, VertexBuilder,
};
pub use circle::{spec_circle_coords, spec_circle_vector, spec_dot_diff, Circle};
pub use curve::{spec_on_circle, spec_on_curve, spec_on_line, Curve, Line, GEOM_EPS};
pub use debug::{DebugInfo, TriangleEdgeCheck};
pub use num::{round_div, trunc_div};
pub use point::{dot3_raw, spec_dot3, Point1, Point2, Point3, Vector1, Vector2, Vector3, DIFF_LIMIT};
pub use polygon::{
    lemma_contains_triangle_relabel, lemma_edge_ok_symmetric, lemma_spec_hits_finite,
    lemma_spec_hits_members, seg_matches, spec_contains_segment,
    spec_contains_triangle, spec_cycle_segs, spec_edge_ok, spec_hit, spec_hits, spec_mid,
    spec_polygon_segs, spec_proj_ok, spec_project_point, Polygon, Seg2, Triangle2, Triangle3,
    HIT_SCALE,
};
pub use scalar::Scalar;
pub use scalar::{COORD_LIMIT, FRAC_PI_2_BITS, ONE_BITS, PI_BITS, TWO_PI_BITS};
pub use store::{
    dedup, lemma_dangling_vertex_rejected, lemma_dedup_index_unique, lemma_insert_idempotent,
    lemma_seq_find, lemma_wf_dedup, seq_find, spec_insert, spec_validate_edge, CurveHandle, Edge,
    EdgeHandle, GeometricError, MissingRef, PointHandle, Shape, SurfaceHandle, ValidationError,
    ValidationResult, Vertex, VertexHandle, VertexPair,
};
pub use surface::{spec_embed, spec_offset, spec_project, Surface, UNIT_SQ};
pub use triangulate::{
    lemma_unit_basis_round_trip, spec_embed_point, spec_embed_triangle, spec_filter_triangles,
    triangulate_face,
};
pub use trig::{atan2_fixed, normalize_angle, spec_atan2};
pub use trig::{atan_unit_of, cos_of, sin_of};
