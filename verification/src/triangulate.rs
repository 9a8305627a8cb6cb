//! The face triangulator's filter stage.
//!
//! Candidate triangles — produced by any general-purpose two-dimensional
//! triangulator over the face's sampled boundary points — are filtered by
//! the polygon's containment test; the survivors are re-embedded into model
//! space and emitted as the face's mesh contribution. Triangulation never
//! fails: a degenerate face simply yields fewer (or zero) triangles.

use vstd::prelude::*;

use crate::debug::DebugInfo;
use crate::point::{Point2, Point3, Vector3};
use crate::polygon::{spec_contains_triangle, spec_project_point, Polygon, Triangle2, Triangle3};
use crate::scalar::{Scalar, ONE_BITS};
use crate::surface::{spec_embed, Surface};

verus! {

/// The model-space image of a surface-local point, as
/// `point_surface_to_model` computes it.
pub open spec fn spec_embed_point(s: Surface, p: Point2) -> Point3 {
    Point3 {
        x: Scalar {
            bits: spec_embed(
                s.origin.x.bits as int,
                s.u.x.bits as int,
                s.v.x.bits as int,
                p.u.bits as int,
                p.v.bits as int,
            ) as i64,
        },
        y: Scalar {
            bits: spec_embed(
                s.origin.y.bits as int,
                s.u.y.bits as int,
                s.v.y.bits as int,
                p.u.bits as int,
                p.v.bits as int,
            ) as i64,
        },
        z: Scalar {
            bits: spec_embed(
                s.origin.z.bits as int,
                s.u.z.bits as int,
                s.v.z.bits as int,
                p.u.bits as int,
                p.v.bits as int,
            ) as i64,
        },
    }
}

/// The model-space image of a candidate triangle.
pub open spec fn spec_embed_triangle(s: Surface, t: Triangle2) -> Triangle3 {
    Triangle3 {
        a: spec_embed_point(s, t.a),
        b: spec_embed_point(s, t.b),
        c: spec_embed_point(s, t.c),
    }
}

/// Embedding surface-local coordinates into model space and projecting
/// them back is the identity for a surface with the unit basis along the
/// first two model axes: on such a surface, `point_surface_to_model` and
/// `point_model_to_surface` are exact mutual inverses. (On a general
/// orthogonal basis they are inverse up to one truncation of the
/// projection.)
pub proof fn lemma_unit_basis_round_trip(s: Surface, p: Point2)
    requires
        s.origin.in_range(),
        s.u == (Vector3 {
            x: Scalar { bits: ONE_BITS },
            y: Scalar { bits: 0 },
            z: Scalar { bits: 0 },
        }),
        s.v == (Vector3 {
            x: Scalar { bits: 0 },
            y: Scalar { bits: ONE_BITS },
            z: Scalar { bits: 0 },
        }),
        p.in_range(),
    ensures
        spec_project_point(s, spec_embed_point(s, p)) == p,
{
    let pu = p.u.bits as int;
    let pv = p.v.bits as int;
    let one = ONE_BITS as int;
    lemma_unit_fixed_mul(pu);
    lemma_unit_fixed_mul(pv);
    assert(crate::scalar::fixed_mul(0, pu) == 0 && crate::scalar::fixed_mul(0, pv) == 0) by {
        assert(0int / one == 0);
    }
    let e = spec_embed_point(s, p);
    assert(e.x.bits == s.origin.x.bits + pu);
    assert(e.y.bits == s.origin.y.bits + pv);
    assert(e.z.bits == s.origin.z.bits);
    assert(spec_project_point(s, e).u.bits == p.u.bits) by {
        assert((pu * one) * one == (one * one) * pu) by (nonlinear_arith);
        lemma_square_vanish(pu);
    }
    assert(spec_project_point(s, e).v.bits == p.v.bits) by {
        assert((pv * one) * one == (one * one) * pv) by (nonlinear_arith);
        lemma_square_vanish(pv);
    }
}

/// Scaling by the fixed-point one is the identity: `(x * 2^32) / 2^32 == x`
/// under truncation, for either sign.
proof fn lemma_unit_fixed_mul(x: int)
    ensures
        crate::scalar::fixed_mul(ONE_BITS as int, x) == x,
{
    let one = ONE_BITS as int;
    if x >= 0 {
        vstd::arithmetic::div_mod::lemma_div_multiples_vanish(x, one);
        assert(one * x >= 0) by (nonlinear_arith)
            requires
                x >= 0,
                one > 0,
        ;
    } else {
        vstd::arithmetic::div_mod::lemma_div_multiples_vanish(-x, one);
        assert(one * x < 0 && -(one * x) == one * (-x)) by (nonlinear_arith)
            requires
                x < 0,
                one > 0,
        ;
    }
}

/// Dividing a multiple of the squared unit by the squared unit restores the
/// factor, for either sign.
proof fn lemma_square_vanish(x: int)
    ensures
        crate::num::trunc_div((ONE_BITS as int) * (ONE_BITS as int) * x, (ONE_BITS as int) * (
        ONE_BITS as int)) == x,
{
    let sq = (ONE_BITS as int) * (ONE_BITS as int);
    assert(sq > 0) by (nonlinear_arith)
        requires
            sq == (ONE_BITS as int) * (ONE_BITS as int),
            ONE_BITS == 0x1_0000_0000,
    ;
    if x >= 0 {
        vstd::arithmetic::div_mod::lemma_div_multiples_vanish(x, sq);
        assert(sq * x >= 0) by (nonlinear_arith)
            requires
                x >= 0,
                sq > 0,
        ;
    } else {
        vstd::arithmetic::div_mod::lemma_div_multiples_vanish(-x, sq);
        assert(sq * x < 0 && -(sq * x) == sq * (-x)) by (nonlinear_arith)
            requires
                x < 0,
                sq > 0,
        ;
    }
}

/// The candidates that pass the containment test, in input order.
pub open spec fn spec_filter_triangles(
    segs: Seq<crate::polygon::Seg2>,
    cands: Seq<Triangle2>,
    outside: Point2,
) -> Seq<Triangle2>
    decreases cands.len(),
{
    if cands.len() == 0 {
        Seq::<Triangle2>::empty()
    } else {
        let rest = spec_filter_triangles(segs, cands.drop_last(), outside);
        if spec_contains_triangle(segs, cands.last(), outside) {
            rest.push(cands.last())
        } else {
            rest
        }
    }
}

/// Triangulate one face: test every candidate triangle against the
/// polygon's containment predicate, keep the ones that belong to the face,
/// and re-embed them into model space. Total and deterministic — a
/// pathological face yields fewer or zero triangles, never an error.
pub fn triangulate_face(
    polygon: &Polygon,
    candidates: &Vec<Triangle2>,
    outside: Point2,
    debug_info: &mut DebugInfo,
) -> (r: Vec<Triangle3>)
    requires
        polygon.wf(),
        outside.in_range(),
        forall|i: int|
            0 <= i < candidates@.len() ==> (#[trigger] candidates@[i]).a.in_range()
                && candidates@[i].b.in_range() && candidates@[i].c.in_range(),
    ensures
        ({
            let kept = spec_filter_triangles(polygon.segments@, candidates@, outside);
            r@.len() == kept.len() && forall|i: int|
                0 <= i < r@.len() ==> r@[i] == spec_embed_triangle(polygon.surface, kept[i])
        }),
        old(debug_info).triangle_edge_checks@.len() <= final(debug_info).triangle_edge_checks@.len(),
        forall|i: int|
            0 <= i < old(debug_info).triangle_edge_checks@.len() ==> #[trigger] final(debug_info).triangle_edge_checks@[i] == old(debug_info).triangle_edge_checks@[i],
{
    let mut r: Vec<Triangle3> = Vec::new();
    let n = candidates.len();
    let mut i: usize = 0;
    while i < n
        invariant
            polygon.wf(),
            outside.in_range(),
            forall|k: int|
                0 <= k < candidates@.len() ==> (#[trigger] candidates@[k]).a.in_range()
                    && candidates@[k].b.in_range() && candidates@[k].c.in_range(),
            n == candidates@.len(),
            i <= n,
            ({
                let kept = spec_filter_triangles(
                    polygon.segments@,
                    candidates@.take(i as int),
                    outside,
                );
                r@.len() == kept.len() && forall|k: int|
                    0 <= k < r@.len() ==> r@[k] == spec_embed_triangle(polygon.surface, kept[k])
            }),
            old(debug_info).triangle_edge_checks@.len() <= debug_info.triangle_edge_checks@.len(),
            forall|k: int|
                0 <= k < old(debug_info).triangle_edge_checks@.len()
                    ==> #[trigger] debug_info.triangle_edge_checks@[k] == old(debug_info).triangle_edge_checks@[k],
        decreases n - i,
    {
        proof {
            assert(candidates@.take(i as int + 1).drop_last() =~= candidates@.take(i as int));
            assert(candidates@.take(i as int + 1).last() == candidates@[i as int]);
        }
        let t = candidates[i];
        if polygon.contains_triangle(&t, outside, debug_info) {
            let a = polygon.surface.point_surface_to_model(&t.a);
            let b = polygon.surface.point_surface_to_model(&t.b);
            let c = polygon.surface.point_surface_to_model(&t.c);
            let t3 = Triangle3 { a, b, c };
            proof {
                assert(t3 == spec_embed_triangle(polygon.surface, candidates@[i as int]));
            }
            r.push(t3);
        }
        i += 1;
    }
    proof {
        assert(candidates@.take(n as int) =~= candidates@);
    }
    r
}

} // verus!
