//! The face triangulator: boundary polygons, the ray-casting containment
//! test, and the candidate filter.

use fj_kernel::{
    Aabb, CycleApprox, DebugInfo, Point2, Point3, Polygon, Scalar, Surface, Triangle2,
    ONE_BITS,
};

fn s(units: i64) -> Scalar {
    Scalar {
        bits: units * ONE_BITS,
    }
}

fn p2(u: i64, v: i64) -> Point2 {
    Point2 { u: s(u), v: s(v) }
}

fn p3(x: i64, y: i64, z: i64) -> Point3 {
    Point3 {
        x: s(x),
        y: s(y),
        z: s(z),
    }
}

fn tri(a: Point2, b: Point2, c: Point2) -> Triangle2 {
    Triangle2 { a, b, c }
}

/// A square face `[0, 4] x [0, 4]` in the xy plane.
fn square_cycle() -> CycleApprox {
    CycleApprox::new(vec![p3(0, 0, 0), p3(4, 0, 0), p3(4, 4, 0), p3(0, 4, 0)])
}

/// A centered square hole `[1, 3] x [1, 3]`.
fn hole_cycle() -> CycleApprox {
    CycleApprox::new(vec![p3(1, 1, 0), p3(3, 1, 0), p3(3, 3, 0), p3(1, 3, 0)])
}

/// Candidate triangles covering the full outer square: eight in the
/// annulus between hole and outer boundary, two filling the hole.
fn candidates_covering_square() -> Vec<Triangle2> {
    vec![
        // Bottom of the annulus.
        tri(p2(0, 0), p2(4, 0), p2(3, 1)),
        tri(p2(0, 0), p2(3, 1), p2(1, 1)),
        // Right.
        tri(p2(4, 0), p2(4, 4), p2(3, 3)),
        tri(p2(4, 0), p2(3, 3), p2(3, 1)),
        // Top.
        tri(p2(4, 4), p2(0, 4), p2(1, 3)),
        tri(p2(4, 4), p2(1, 3), p2(3, 3)),
        // Left.
        tri(p2(0, 4), p2(0, 0), p2(1, 1)),
        tri(p2(0, 4), p2(1, 1), p2(1, 3)),
        // The hole.
        tri(p2(1, 1), p2(3, 1), p2(3, 3)),
        tri(p2(1, 1), p2(3, 3), p2(1, 3)),
    ]
}

fn double_area_units(t: &Triangle2) -> i64 {
    let ax = t.a.u.bits / ONE_BITS;
    let ay = t.a.v.bits / ONE_BITS;
    let bx = t.b.u.bits / ONE_BITS;
    let by = t.b.v.bits / ONE_BITS;
    let cx = t.c.u.bits / ONE_BITS;
    let cy = t.c.v.bits / ONE_BITS;
    ((bx - ax) * (cy - ay) - (by - ay) * (cx - ax)).abs()
}

#[test]
fn square_with_hole_filters_to_annulus() {
    let polygon = Polygon::new(
        &square_cycle(),
        &vec![hole_cycle()],
        Surface::xy_plane(),
    );
    let outside = p2(5, 2);
    let mut debug = DebugInfo::new();

    let candidates = candidates_covering_square();
    let mut accepted: Vec<Triangle2> = Vec::new();
    for (i, c) in candidates.iter().enumerate() {
        let keep = polygon.contains_triangle(c, outside, &mut debug);
        // The last two candidates lie inside the hole and must be
        // rejected; the eight annulus triangles must be accepted.
        assert_eq!(keep, i < 8, "candidate {} classified wrongly", i);
        if keep {
            accepted.push(*c);
        }
    }

    // The accepted area is the outer area minus the hole area: 16 - 4.
    let total: i64 = accepted.iter().map(double_area_units).sum();
    assert_eq!(total, 2 * (16 - 4));
}

#[test]
fn no_holes_keeps_inside_and_rejects_outside() {
    let polygon = Polygon::new(&square_cycle(), &vec![], Surface::xy_plane());
    let outside = p2(5, 2);
    let mut debug = DebugInfo::new();

    // Strictly inside the exterior: accepted, even without touching the
    // boundary.
    let inside = tri(p2(1, 1), p2(2, 1), p2(1, 2));
    assert!(polygon.contains_triangle(&inside, outside, &mut debug));

    // Covering triangles whose edges lie on the boundary: accepted.
    let big1 = tri(p2(0, 0), p2(4, 0), p2(4, 4));
    let big2 = tri(p2(0, 0), p2(4, 4), p2(0, 4));
    assert!(polygon.contains_triangle(&big1, outside, &mut debug));
    assert!(polygon.contains_triangle(&big2, outside, &mut debug));

    // Strictly outside: rejected.
    let out = tri(p2(5, 5), p2(6, 5), p2(5, 6));
    assert!(!polygon.contains_triangle(&out, outside, &mut debug));
}

#[test]
fn containment_ignores_vertex_order_and_outside_choice() {
    let polygon = Polygon::new(
        &square_cycle(),
        &vec![hole_cycle()],
        Surface::xy_plane(),
    );
    let mut debug = DebugInfo::new();

    let base = tri(p2(0, 0), p2(4, 0), p2(3, 1));
    let in_hole = tri(p2(1, 1), p2(3, 1), p2(3, 3));
    // Every relabeling of the three vertices.
    let relabelings = |t: Triangle2| {
        vec![
            tri(t.a, t.b, t.c),
            tri(t.b, t.c, t.a),
            tri(t.c, t.a, t.b),
            tri(t.a, t.c, t.b),
            tri(t.c, t.b, t.a),
            tri(t.b, t.a, t.c),
        ]
    };
    // Several genuinely-outside points around the face.
    let outsides = vec![p2(5, 2), p2(-1, -1), p2(2, 7), p2(-2, 5)];

    for outside in &outsides {
        for t in relabelings(base) {
            assert!(polygon.contains_triangle(&t, *outside, &mut debug));
        }
        for t in relabelings(in_hole) {
            assert!(!polygon.contains_triangle(&t, *outside, &mut debug));
        }
    }
}

#[test]
fn contains_segment_is_orientation_blind() {
    let polygon = Polygon::new(&square_cycle(), &vec![], Surface::xy_plane());
    assert!(polygon.contains_segment(&p2(0, 0), &p2(4, 0)));
    assert!(polygon.contains_segment(&p2(4, 0), &p2(0, 0)));
    assert!(!polygon.contains_segment(&p2(0, 0), &p2(4, 4)));
}

#[test]
fn triangulate_face_embeds_accepted_triangles() {
    let polygon = Polygon::new(
        &square_cycle(),
        &vec![hole_cycle()],
        Surface::xy_plane(),
    );
    let outside = p2(5, 2);
    let mut debug = DebugInfo::new();
    let candidates = candidates_covering_square();

    let mesh = fj_kernel::triangulate_face(&polygon, &candidates, outside, &mut debug);
    assert_eq!(mesh.len(), 8);
    // The face lies in the xy plane of model space: every emitted vertex
    // has z == 0 and coordinates matching the surface-local ones.
    let first = mesh[0];
    assert_eq!(first.a, p3(0, 0, 0));
    assert_eq!(first.b, p3(4, 0, 0));
    assert_eq!(first.c, p3(3, 1, 0));
    // The ray casts were recorded for diagnosis.
    assert!(debug.triangle_edge_checks.len() > 0);
}

#[test]
fn debug_info_records_one_check_per_cast_edge() {
    let polygon = Polygon::new(&square_cycle(), &vec![], Surface::xy_plane());
    let outside = p2(5, 2);
    let mut debug = DebugInfo::new();
    // All three edges lie on the boundary: no casts at all.
    let big = tri(p2(0, 0), p2(4, 0), p2(4, 4));
    assert!(polygon.contains_triangle(&big, outside, &mut debug));
    // One edge (the hypotenuse from (4,4) to (0,0)) is not a boundary
    // segment, so exactly one check was recorded for it.
    assert_eq!(debug.triangle_edge_checks.len(), 1);
    assert_eq!(debug.triangle_edge_checks[0].hits.len(), 1);
}

#[test]
fn bounding_box_of_points() {
    let points = vec![p3(1, 2, 3), p3(-4, 0, 7), p3(2, -5, 1)];
    let aabb = Aabb::from_points(&points);
    assert_eq!(aabb.min, p3(-4, -5, 1));
    assert_eq!(aabb.max, p3(2, 2, 7));

    // An empty shape's bounding volume has equal corners.
    let empty = Aabb::from_points(&vec![]);
    assert_eq!(empty.min, empty.max);
}

#[test]
fn surface_round_trip_on_unit_plane() {
    let surface = Surface::xy_plane();
    let p = p2(3, -2);
    let embedded = surface.point_surface_to_model(&p);
    assert_eq!(embedded, p3(3, -2, 0));
    let back = surface.point_model_to_surface(&embedded);
    assert_eq!(back, p);
}
