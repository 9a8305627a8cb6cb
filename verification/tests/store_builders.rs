//! The deduplicating store and the builders on top of it: idempotent
//! handles, referential integrity, and geometric validation.

use fj_kernel::{
    Curve, CurveHandle, Edge, EdgeBuilder, GeometricError, Line, MissingRef, Point3, PointHandle,
    Scalar, Shape, Surface, ValidationError, Vector3, Vertex, VertexBuilder, VertexHandle,
    VertexPair, ONE_BITS,
};

fn s(units: i64) -> Scalar {
    Scalar {
        bits: units * ONE_BITS,
    }
}

fn p3(x: i64, y: i64, z: i64) -> Point3 {
    Point3 {
        x: s(x),
        y: s(y),
        z: s(z),
    }
}

fn v3(x: i64, y: i64, z: i64) -> Vector3 {
    Vector3 {
        x: s(x),
        y: s(y),
        z: s(z),
    }
}

#[test]
fn building_same_vertex_twice_gives_identical_handle() {
    let mut shape = Shape::new();
    let h1 = VertexBuilder::new()
        .from_point(&mut shape, p3(1, 2, 3))
        .unwrap();
    let h2 = VertexBuilder::new()
        .from_point(&mut shape, p3(1, 2, 3))
        .unwrap();
    assert_eq!(h1, h2);
    // One point and one vertex were stored, not two.
    assert_eq!(shape.points_len(), 1);
    assert_eq!(shape.vertices_len(), 1);

    // A different point gets a different handle.
    let h3 = VertexBuilder::new()
        .from_point(&mut shape, p3(3, 2, 1))
        .unwrap();
    assert_ne!(h1, h3);
    assert_eq!(shape.points_len(), 2);
    assert_eq!(shape.vertices_len(), 2);
}

#[test]
fn same_geometry_converges_to_shared_points() {
    // Two edges both built from the point (0, 0, 0) share one stored point
    // and one stored vertex.
    let mut shape = Shape::new();
    let a = VertexBuilder::new()
        .from_point(&mut shape, p3(0, 0, 0))
        .unwrap();
    let b = VertexBuilder::new()
        .from_point(&mut shape, p3(1, 0, 0))
        .unwrap();
    let c = VertexBuilder::new()
        .from_point(&mut shape, p3(0, 1, 0))
        .unwrap();
    let e1 = EdgeBuilder::new()
        .line_segment_from_vertices(&mut shape, [a, b])
        .unwrap();
    let e2 = EdgeBuilder::new()
        .line_segment_from_vertices(&mut shape, [a, c])
        .unwrap();
    assert_ne!(e1, e2);
    assert_eq!(shape.points_len(), 3);
    assert_eq!(shape.vertices_len(), 3);
    assert_eq!(shape.edges_len(), 2);

    // Rebuilding an existing edge reuses everything.
    let e1_again = EdgeBuilder::new()
        .line_segment_from_vertices(&mut shape, [a, b])
        .unwrap();
    assert_eq!(e1, e1_again);
    assert_eq!(shape.edges_len(), 2);
}

#[test]
fn edge_with_dangling_vertex_fails_structurally() {
    let mut shape = Shape::new();
    let edge_handle = EdgeBuilder::new().circle(&mut shape, s(1)).unwrap();
    let edge = shape.edge_at(edge_handle);

    // An edge referencing a vertex handle that is not in the store must be
    // rejected with an error naming the missing reference.
    let dangling = VertexHandle { index: 42 };
    let bad = Edge {
        curve: edge.curve,
        vertices: Some(VertexPair {
            start: dangling,
            end: dangling,
        }),
    };
    let result = shape.get_handle_or_insert_edge(bad);
    assert_eq!(
        result,
        Err(ValidationError::MissingReference(MissingRef::Vertex(
            dangling
        )))
    );
    // A failed insert leaves the store unchanged.
    assert_eq!(shape.edges_len(), 1);
}

#[test]
fn edge_with_vertex_off_curve_fails_geometrically() {
    let mut shape = Shape::new();
    let v0 = VertexBuilder::new()
        .from_point(&mut shape, p3(0, 0, 0))
        .unwrap();
    let v1 = VertexBuilder::new()
        .from_point(&mut shape, p3(1, 0, 0))
        .unwrap();
    let off = VertexBuilder::new()
        .from_point(&mut shape, p3(5, 5, 5))
        .unwrap();

    // A line through (0,0,0) and (1,0,0).
    let line = Curve::Line(Line {
        origin: p3(0, 0, 0),
        direction: v3(1, 0, 0),
    });
    let curve = shape.get_handle_or_insert_curve(line).unwrap();

    // Both vertices on the curve: accepted.
    let good = Edge {
        curve,
        vertices: Some(VertexPair { start: v0, end: v1 }),
    };
    assert!(shape.get_handle_or_insert_edge(good).is_ok());

    // A vertex far off the curve: rejected, naming the offending vertex.
    let bad = Edge {
        curve,
        vertices: Some(VertexPair { start: v0, end: off }),
    };
    assert_eq!(
        shape.get_handle_or_insert_edge(bad),
        Err(ValidationError::Geometric(GeometricError::VertexOffCurve(
            off
        )))
    );
}

#[test]
fn vertex_with_dangling_point_fails_structurally() {
    let mut shape = Shape::new();
    let dangling = PointHandle { index: 7 };
    assert_eq!(
        shape.get_handle_or_insert_vertex(Vertex { point: dangling }),
        Err(ValidationError::MissingReference(MissingRef::Point(
            dangling
        )))
    );
    assert_eq!(shape.vertices_len(), 0);
}

#[test]
fn edge_with_dangling_curve_fails_structurally() {
    let mut shape = Shape::new();
    let dangling = CurveHandle { index: 3 };
    let bad = Edge {
        curve: dangling,
        vertices: None,
    };
    assert_eq!(
        shape.get_handle_or_insert_edge(bad),
        Err(ValidationError::MissingReference(MissingRef::Curve(
            dangling
        )))
    );
    assert_eq!(shape.edges_len(), 0);
}

#[test]
fn circle_edge_has_no_vertices() {
    let mut shape = Shape::new();
    let eh = EdgeBuilder::new().circle(&mut shape, s(2)).unwrap();
    let edge = shape.edge_at(eh);
    assert_eq!(edge.vertices, None);
    let curve = shape.curve_at(edge.curve);
    match curve {
        Curve::Circle(c) => {
            assert_eq!(c.center, p3(0, 0, 0));
            assert_eq!(c.a, v3(2, 0, 0));
            assert_eq!(c.b, v3(0, 2, 0));
        }
        Curve::Line(_) => panic!("expected a circle curve"),
    }

    // The same radius again: the same edge.
    let eh2 = EdgeBuilder::new().circle(&mut shape, s(2)).unwrap();
    assert_eq!(eh, eh2);
    assert_eq!(shape.curves_len(), 1);
    assert_eq!(shape.edges_len(), 1);
}

#[test]
fn surface_insert_validates_basis() {
    let mut shape = Shape::new();
    let good = Surface {
        origin: p3(0, 0, 0),
        u: v3(1, 0, 0),
        v: v3(0, 1, 0),
    };
    assert!(shape.get_handle_or_insert_surface(good).is_ok());

    // A degenerate basis (parallel vectors) is refused.
    let bad = Surface {
        origin: p3(0, 0, 0),
        u: v3(1, 0, 0),
        v: v3(1, 0, 0),
    };
    assert_eq!(
        shape.get_handle_or_insert_surface(bad),
        Err(ValidationError::Geometric(GeometricError::InvalidBasis))
    );
    assert_eq!(shape.surfaces_len(), 1);
}

#[test]
fn insert_point_dedups_and_resolves() {
    let mut shape = Shape::new();
    let h1 = shape.insert_point(p3(7, 8, 9)).unwrap();
    let h2 = shape.insert_point(p3(7, 8, 9)).unwrap();
    assert_eq!(h1, h2);
    assert_eq!(shape.point_at(h1), p3(7, 8, 9));

    let v = shape
        .get_handle_or_insert_vertex(Vertex { point: h1 })
        .unwrap();
    assert_eq!(shape.vertex_at(v).point, h1);
    assert_eq!(shape.vertex_point(v), p3(7, 8, 9));
}
