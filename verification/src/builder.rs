//! Builders for topological objects.
//!
//! A builder sequences the store insertions a higher-level concept needs —
//! it never bypasses the store's deduplication or validation. Building the
//! same geometry twice therefore converges to the same handles.

use vstd::prelude::*;

use crate::circle::Circle;
use crate::curve::{Curve, Line};
use crate::point::{Point3, Vector3};
use crate::scalar::Scalar;
use crate::store::{
    dedup, lemma_insert_idempotent, lemma_seq_find, seq_find, spec_insert, spec_validate_edge,
    CurveHandle, Edge, EdgeHandle, MissingRef, PointHandle, Shape, ValidationError,
    ValidationResult, Vertex, VertexHandle, VertexPair,
};

verus! {

/// The handle a deduplicating point insertion returns.
pub open spec fn spec_point_handle(ps: Seq<Point3>, p: Point3) -> PointHandle {
    PointHandle { index: seq_find(ps, p) as usize }
}

/// The handle a deduplicating curve insertion returns.
pub open spec fn spec_curve_handle(cs: Seq<Curve>, c: Curve) -> CurveHandle {
    CurveHandle { index: seq_find(cs, c) as usize }
}

/// The handle a deduplicating vertex insertion returns.
pub open spec fn spec_vertex_handle(vs: Seq<Vertex>, v: Vertex) -> VertexHandle {
    VertexHandle { index: seq_find(vs, v) as usize }
}

/// The handle a deduplicating edge insertion returns.
pub open spec fn spec_edge_handle(es: Seq<Edge>, e: Edge) -> EdgeHandle {
    EdgeHandle { index: seq_find(es, e) as usize }
}

/// The curve `EdgeBuilder::circle` inserts: a circle of the given radius
/// centered at the origin, spanned by the first two model axes.
pub open spec fn spec_circle_curve(radius: Scalar) -> Curve {
    Curve::Circle(
        Circle {
            center: Point3 {
                x: Scalar { bits: 0 },
                y: Scalar { bits: 0 },
                z: Scalar { bits: 0 },
            },
            a: Vector3 { x: radius, y: Scalar { bits: 0 }, z: Scalar { bits: 0 } },
            b: Vector3 { x: Scalar { bits: 0 }, y: radius, z: Scalar { bits: 0 } },
        },
    )
}

/// API for building a vertex against a store.
pub struct VertexBuilder;

impl VertexBuilder {
    /// Construct a new vertex builder.
    pub fn new() -> (r: VertexBuilder)
        ensures
            r == VertexBuilder,
    {
        VertexBuilder
    }

    /// Build a vertex from a point: insert (or reuse) the point, then insert
    /// (or reuse) the vertex wrapping its handle. Never fails — a point
    /// carries no references, and the vertex's reference is the handle just
    /// obtained.
    pub fn from_point(self, shape: &mut Shape, point: Point3) -> (r: ValidationResult<
        VertexHandle,
    >)
        requires
            old(shape).wf(),
            point.in_range(),
        ensures
            final(shape).wf(),
            final(shape).points_seq() == spec_insert(old(shape).points_seq(), point),
            ({
                let v = Vertex { point: spec_point_handle(old(shape).points_seq(), point) };
                final(shape).vertices_seq() == spec_insert(old(shape).vertices_seq(), v) && r
                    == Ok::<VertexHandle, ValidationError>(
                    spec_vertex_handle(old(shape).vertices_seq(), v),
                )
            }),
            final(shape).curves_seq() == old(shape).curves_seq(),
            final(shape).surfaces_seq() == old(shape).surfaces_seq(),
            final(shape).edges_seq() == old(shape).edges_seq(),
    {
        proof {
            crate::store::lemma_wf_dedup(*old(shape));
            lemma_insert_idempotent(old(shape).points_seq(), point);
            lemma_seq_find(old(shape).points_seq(), point);
        }
        let ph = match shape.get_handle_or_insert_point(point) {
            Ok(h) => h,
            Err(e) => {
                return Err(e);
            },
        };
        let vh = match shape.get_handle_or_insert_vertex(Vertex { point: ph }) {
            Ok(h) => h,
            Err(e) => {
                return Err(e);
            },
        };
        Ok(vh)
    }
}

/// API for building an edge against a store.
pub struct EdgeBuilder;

impl EdgeBuilder {
    /// Construct a new edge builder.
    pub fn new() -> (r: EdgeBuilder)
        ensures
            r == EdgeBuilder,
    {
        EdgeBuilder
    }

    /// Build a full circle from a radius: insert (or reuse) a circle curve
    /// centered at the origin in the default plane, then insert (or reuse)
    /// an edge over it with no bounding vertices. Never fails — the curve
    /// carries no references, and an edge without vertices has nothing to
    /// validate geometrically.
    pub fn circle(self, shape: &mut Shape, radius: Scalar) -> (r: ValidationResult<EdgeHandle>)
        requires
            old(shape).wf(),
            radius.in_range(),
        ensures
            final(shape).wf(),
            ({
                let c = spec_circle_curve(radius);
                let e = Edge {
                    curve: spec_curve_handle(old(shape).curves_seq(), c),
                    vertices: Option::<VertexPair>::None,
                };
                final(shape).curves_seq() == spec_insert(old(shape).curves_seq(), c) && final(shape).edges_seq() == spec_insert(old(shape).edges_seq(), e) && r == Ok::<
                    EdgeHandle,
                    ValidationError,
                >(spec_edge_handle(old(shape).edges_seq(), e))
            }),
            final(shape).points_seq() == old(shape).points_seq(),
            final(shape).surfaces_seq() == old(shape).surfaces_seq(),
            final(shape).vertices_seq() == old(shape).vertices_seq(),
    {
        let zero = Scalar { bits: 0 };
        let curve = Curve::Circle(
            Circle {
                center: Point3 { x: zero, y: zero, z: zero },
                a: Vector3 { x: radius, y: zero, z: zero },
                b: Vector3 { x: zero, y: radius, z: zero },
            },
        );
        proof {
            crate::store::lemma_wf_dedup(*old(shape));
            lemma_insert_idempotent(old(shape).curves_seq(), curve);
        }
        let ch = match shape.get_handle_or_insert_curve(curve) {
            Ok(h) => h,
            Err(e) => {
                return Err(e);
            },
        };
        let edge = Edge { curve: ch, vertices: None };
        proof {
            lemma_seq_find(old(shape).curves_seq(), curve);
            assert(spec_validate_edge(*shape, edge) is None);
        }
        let eh = match shape.get_handle_or_insert_edge(edge) {
            Ok(h) => h,
            Err(e) => {
                return Err(e);
            },
        };
        Ok(eh)
    }

    /// Build a line segment between two existing vertices: derive the line
    /// through their points, insert (or reuse) it as a curve, then insert
    /// (or reuse) an edge over it bounded by the two vertices. Fails with a
    /// `MissingReference` error exactly when one of the vertex handles does
    /// not resolve in the store; the two defining points always satisfy the
    /// edge's geometric validation.
    pub fn line_segment_from_vertices(self, shape: &mut Shape, vertices: [VertexHandle; 2]) -> (r:
        ValidationResult<EdgeHandle>)
        requires
            old(shape).wf(),
        ensures
            final(shape).wf(),
            vertices[0].index >= old(shape).vertices_seq().len() ==> *final(shape) == *old(shape)
                && r == Err::<EdgeHandle, ValidationError>(
                ValidationError::MissingReference(MissingRef::Vertex(vertices[0])),
            ),
            vertices[0].index < old(shape).vertices_seq().len() && vertices[1].index >= old(shape).vertices_seq().len() ==> *final(shape) == *old(shape) && r == Err::<
                EdgeHandle,
                ValidationError,
            >(ValidationError::MissingReference(MissingRef::Vertex(vertices[1]))),
            vertices[0].index < old(shape).vertices_seq().len() && vertices[1].index < old(shape).vertices_seq().len() ==> ({
                let p0 = old(shape).points_seq()[old(shape).vertices_seq()[vertices[0].index as int].point.index as int];
                let p1 = old(shape).points_seq()[old(shape).vertices_seq()[vertices[1].index as int].point.index as int];
                let c = Curve::Line(spec_line_through(p0, p1));
                let e = Edge {
                    curve: spec_curve_handle(old(shape).curves_seq(), c),
                    vertices: Some(VertexPair { start: vertices[0], end: vertices[1] }),
                };
                final(shape).curves_seq() == spec_insert(old(shape).curves_seq(), c) && final(shape).edges_seq() == spec_insert(old(shape).edges_seq(), e) && r == Ok::<
                    EdgeHandle,
                    ValidationError,
                >(spec_edge_handle(old(shape).edges_seq(), e))
            }),
            final(shape).points_seq() == old(shape).points_seq(),
            final(shape).surfaces_seq() == old(shape).surfaces_seq(),
            final(shape).vertices_seq() == old(shape).vertices_seq(),
    {
        let v0 = vertices[0];
        let v1 = vertices[1];
        if v0.index >= shape.vertices_len() {
            return Err(ValidationError::MissingReference(MissingRef::Vertex(v0)));
        }
        if v1.index >= shape.vertices_len() {
            return Err(ValidationError::MissingReference(MissingRef::Vertex(v1)));
        }
        // Reading the sizes pins them below `usize::MAX`, which the handle
        // index casts in the postcondition depend on.
        let _n_curves: usize = shape.curves_len();
        let _n_edges: usize = shape.edges_len();
        let p0 = shape.vertex_point(v0);
        let p1 = shape.vertex_point(v1);
        let pts = [p0, p1];
        proof {
            broadcast use vstd::array::group_array_axioms;

            assert(pts[0] == p0);
            assert(pts[1] == p1);
        }
        let line = Line::from_points(pts);
        let curve = Curve::Line(line);
        proof {
            crate::store::lemma_wf_dedup(*old(shape));
            lemma_insert_idempotent(old(shape).curves_seq(), curve);
        }
        let ch = match shape.get_handle_or_insert_curve(curve) {
            Ok(h) => h,
            Err(e) => {
                return Err(e);
            },
        };
        let edge = Edge { curve: ch, vertices: Some(VertexPair { start: v0, end: v1 }) };
        proof {
            lemma_seq_find(old(shape).curves_seq(), curve);
            assert(crate::curve::spec_on_line(line, p0)) by {
                assert(forall|c: int| #[trigger] (0 * c) == 0) by (nonlinear_arith);
            }
            assert(crate::curve::spec_on_line(line, p1)) by {
                let dx = p1.x.bits - p0.x.bits;
                let dy = p1.y.bits - p0.y.bits;
                let dz = p1.z.bits - p0.z.bits;
                assert(dy * dz - dz * dy == 0 && dz * dx - dx * dz == 0 && dx * dy - dy * dx == 0)
                    by (nonlinear_arith);
            }
            assert(shape.curves_seq()[edge.curve.index as int] == curve);
            assert(spec_validate_edge(*shape, edge) is None);
        }
        let eh = match shape.get_handle_or_insert_edge(edge) {
            Ok(h) => h,
            Err(e) => {
                return Err(e);
            },
        };
        Ok(eh)
    }
}

/// The line `line_segment_from_vertices` derives from two points.
pub open spec fn spec_line_through(p0: Point3, p1: Point3) -> Line {
    Line {
        origin: p0,
        direction: Vector3 {
            x: Scalar { bits: (p1.x.bits - p0.x.bits) as i64 },
            y: Scalar { bits: (p1.y.bits - p0.y.bits) as i64 },
            z: Scalar { bits: (p1.z.bits - p0.z.bits) as i64 },
        },
    }
}

/// Builders deduplicate: two calls with value-equal inputs return the
/// identical handle, and the second call leaves the store unchanged. Stated
/// over the store's sequences for the vertex builder — the first call
/// inserts point and vertex, the second finds both and changes nothing.
pub proof fn lemma_from_point_idempotent(ps: Seq<Point3>, vs: Seq<Vertex>, p: Point3)
    requires
        dedup(ps),
        dedup(vs),
    ensures
        ({
            let ps1 = spec_insert(ps, p);
            let v1 = Vertex { point: spec_point_handle(ps, p) };
            let vs1 = spec_insert(vs, v1);
            let v2 = Vertex { point: spec_point_handle(ps1, p) };
            v2 == v1 && spec_insert(ps1, p) == ps1 && spec_insert(vs1, v2) == vs1
                && spec_vertex_handle(vs1, v2) == spec_vertex_handle(vs, v1) && spec_point_handle(
                ps1,
                p,
            ) == spec_point_handle(ps, p)
        }),
{
    lemma_insert_idempotent(ps, p);
    lemma_insert_idempotent(vs, Vertex { point: spec_point_handle(ps, p) });
}

} // verus!
