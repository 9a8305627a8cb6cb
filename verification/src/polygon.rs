//! The face polygon and its ray-casting containment test.
//!
//! A polygon holds a face's boundary — exterior cycle and interior holes —
//! as a bag of segments in surface-local two-dimensional coordinates, plus
//! the surface needed to re-embed rays into model space for diagnostics.
//! `contains_triangle` is the filter predicate of the triangulator: a
//! candidate triangle belongs to the face exactly when each of its edges
//! either coincides with a boundary segment or has its midpoint inside the
//! boundary by the ray-casting parity rule.

use vstd::prelude::*;

use crate::approx::CycleApprox;
use crate::debug::{DebugInfo, TriangleEdgeCheck};
use crate::num::{round_div, round_div_i128, trunc_div, trunc_div_i128};
use crate::point::{spec_dot3, Point2, Point3, Vector2};
use crate::scalar::{Scalar, COORD_LIMIT};
use crate::surface::{spec_offset, spec_project, Surface};

verus! {

/// The surface-local image of a model point, as `point_model_to_surface`
/// computes it.
pub open spec fn spec_project_point(s: Surface, p: Point3) -> Point2 {
    Point2 {
        u: Scalar {
            bits: spec_project(spec_offset(p, s.origin), s.u, spec_dot3(s.u, s.u)) as i64,
        },
        v: Scalar {
            bits: spec_project(spec_offset(p, s.origin), s.v, spec_dot3(s.v, s.v)) as i64,
        },
    }
}

/// A model point whose surface-local image stays within the coordinate
/// bound — the condition under which the containment test's arithmetic is
/// exact.
pub open spec fn spec_proj_ok(s: Surface, p: Point3) -> bool {
    &&& p.in_range()
    &&& -COORD_LIMIT <= spec_project(spec_offset(p, s.origin), s.u, spec_dot3(s.u, s.u))
        <= COORD_LIMIT
    &&& -COORD_LIMIT <= spec_project(spec_offset(p, s.origin), s.v, spec_dot3(s.v, s.v))
        <= COORD_LIMIT
}

/// The projected segments of one closed cycle: each point paired with its
/// cyclic successor, both mapped into surface-local coordinates.
pub open spec fn spec_cycle_segs(s: Surface, points: Seq<Point3>) -> Seq<Seg2> {
    if points.len() < 2 {
        Seq::<Seg2>::empty()
    } else {
        Seq::new(
            points.len(),
            |i: int|
                Seg2 {
                    a: spec_project_point(s, points[i]),
                    b: spec_project_point(s, points[(i + 1) % (points.len() as int)]),
                },
        )
    }
}

/// All boundary segments of a face: the exterior cycle's, then each
/// interior hole's, in order.
pub open spec fn spec_polygon_segs(s: Surface, ext: Seq<Point3>, ints: Seq<CycleApprox>) -> Seq<
    Seg2,
>
    decreases ints.len(),
{
    if ints.len() == 0 {
        spec_cycle_segs(s, ext)
    } else {
        spec_polygon_segs(s, ext, ints.drop_last()) + spec_cycle_segs(s, ints.last().points@)
    }
}

/// The scale of the rounding applied to ray parameters before
/// deduplication: one millionth, six decimal digits.
pub const HIT_SCALE: i128 = 1000000;

/// A boundary segment in surface-local coordinates.
#[derive(Clone, Copy, PartialEq, Eq, Structural, Hash, Debug)]
pub struct Seg2 {
    pub a: Point2,
    pub b: Point2,
}

/// A candidate triangle in surface-local coordinates.
#[derive(Clone, Copy, PartialEq, Eq, Structural, Hash, Debug)]
pub struct Triangle2 {
    pub a: Point2,
    pub b: Point2,
    pub c: Point2,
}

/// An output triangle in model-space coordinates.
#[derive(Clone, Copy, PartialEq, Eq, Structural, Hash, Debug)]
pub struct Triangle3 {
    pub a: Point3,
    pub b: Point3,
    pub c: Point3,
}

/// Whether a stored segment equals the pair `(p, q)` in either orientation.
pub open spec fn seg_matches(s: Seg2, p: Point2, q: Point2) -> bool {
    (s.a == p && s.b == q) || (s.a == q && s.b == p)
}

/// Whether the boundary holds the segment `(p, q)`, in either orientation.
pub open spec fn spec_contains_segment(segs: Seq<Seg2>, p: Point2, q: Point2) -> bool {
    exists|i: int| 0 <= i < segs.len() && seg_matches(segs[i], p, q)
}

/// The ray parameter, rounded to millionths, at which the ray from `(mx,
/// my)` in direction `(dx, dy)` crosses the segment `s` — or `None` when it
/// does not, including every parallel (and collinear) configuration. The
/// crossing solves `m + t * d == a + w * (b - a)` with `t >= 0` and
/// `0 <= w <= 1`, by exact integer cross products.
pub open spec fn spec_hit(mx: int, my: int, dx: int, dy: int, s: Seg2) -> Option<int> {
    let ex = s.b.u.bits - s.a.u.bits;
    let ey = s.b.v.bits - s.a.v.bits;
    let fx = s.a.u.bits - mx;
    let fy = s.a.v.bits - my;
    let denom = dx * ey - dy * ex;
    let t_num = fx * ey - fy * ex;
    let w_num = fx * dy - fy * dx;
    if denom == 0 {
        Option::<int>::None
    } else if denom > 0 {
        if t_num >= 0 && 0 <= w_num <= denom {
            Some(round_div(t_num * HIT_SCALE, denom))
        } else {
            Option::<int>::None
        }
    } else {
        if t_num <= 0 && denom <= w_num <= 0 {
            Some(round_div(-(t_num * HIT_SCALE), -denom))
        } else {
            Option::<int>::None
        }
    }
}

/// The set of distinct rounded parameters at which the ray crosses any
/// boundary segment. Rounding before deduplication collapses the
/// near-duplicate crossings that arise when the ray passes through a vertex
/// shared by two adjacent segments.
pub open spec fn spec_hits(segs: Seq<Seg2>, mx: int, my: int, dx: int, dy: int) -> Set<int>
    decreases segs.len(),
{
    if segs.len() == 0 {
        Set::<int>::empty()
    } else {
        let rest = spec_hits(segs.drop_last(), mx, my, dx, dy);
        match spec_hit(mx, my, dx, dy, segs.last()) {
            Some(k) => rest.insert(k),
            Option::None => rest,
        }
    }
}

/// The crossing set is finite — it grows one element at a time.
pub proof fn lemma_spec_hits_finite(segs: Seq<Seg2>, mx: int, my: int, dx: int, dy: int)
    ensures
        spec_hits(segs, mx, my, dx, dy).finite(),
    decreases segs.len(),
{
    if segs.len() != 0 {
        lemma_spec_hits_finite(segs.drop_last(), mx, my, dx, dy);
    }
}

/// What the crossing set holds: exactly the parameters at which some
/// boundary segment is crossed. The set — and with it the parity that
/// decides containment — depends only on which segments the boundary
/// holds, not on their order.
pub proof fn lemma_spec_hits_members(segs: Seq<Seg2>, mx: int, my: int, dx: int, dy: int)
    ensures
        forall|x: int|
            spec_hits(segs, mx, my, dx, dy).contains(x) <==> exists|i: int|
                0 <= i < segs.len() && #[trigger] spec_hit(mx, my, dx, dy, segs[i]) == Some(x),
    decreases segs.len(),
{
    if segs.len() != 0 {
        let rest = segs.drop_last();
        lemma_spec_hits_members(rest, mx, my, dx, dy);
        assert forall|x: int|
            spec_hits(segs, mx, my, dx, dy).contains(x) implies exists|i: int|
                0 <= i < segs.len() && #[trigger] spec_hit(mx, my, dx, dy, segs[i]) == Some(
                x,
            ) by {
            if spec_hits(rest, mx, my, dx, dy).contains(x) {
                let i = choose|i: int|
                    0 <= i < rest.len() && #[trigger] spec_hit(mx, my, dx, dy, rest[i]) == Some(
                    x,
                );
                assert(rest[i] == segs[i]);
                assert(spec_hit(mx, my, dx, dy, segs[i]) == Some(x));
            } else {
                assert(segs[segs.len() - 1] == segs.last());
                assert(spec_hit(mx, my, dx, dy, segs[segs.len() - 1]) == Some(x));
            }
        }
        assert forall|x: int|
            (exists|i: int|
                0 <= i < segs.len() && #[trigger] spec_hit(mx, my, dx, dy, segs[i]) == Some(
                x,
            )) implies spec_hits(segs, mx, my, dx, dy).contains(x) by {
            let i = choose|i: int|
                0 <= i < segs.len() && #[trigger] spec_hit(mx, my, dx, dy, segs[i]) == Some(x);
            if i < segs.len() - 1 {
                assert(rest[i] == segs[i]);
                assert(spec_hit(mx, my, dx, dy, rest[i]) == Some(x));
                assert(spec_hits(rest, mx, my, dx, dy).contains(x));
            } else {
                assert(segs[i] == segs.last());
            }
        }
    }
}

/// The truncated midpoint coordinate of two in-range coordinates.
pub open spec fn spec_mid(a: int, b: int) -> int {
    trunc_div(a + b, 2)
}

/// Whether a triangle edge passes the containment test: it coincides with a
/// boundary segment, or the ray from its midpoint toward the outside point
/// crosses the boundary an odd number of times (after rounding and
/// deduplication of the crossing parameters).
pub open spec fn spec_edge_ok(segs: Seq<Seg2>, p: Point2, q: Point2, outside: Point2) -> bool {
    spec_contains_segment(segs, p, q) || ({
        let mx = spec_mid(p.u.bits as int, q.u.bits as int);
        let my = spec_mid(p.v.bits as int, q.v.bits as int);
        let dx = outside.u.bits - mx;
        let dy = outside.v.bits - my;
        spec_hits(segs, mx, my, dx, dy).len() % 2 == 1
    })
}

/// Whether a candidate triangle belongs to the face: each of its three
/// edges passes the containment test.
pub open spec fn spec_contains_triangle(
    segs: Seq<Seg2>,
    t: Triangle2,
    outside: Point2,
) -> bool {
    spec_edge_ok(segs, t.a, t.b, outside) && spec_edge_ok(segs, t.b, t.c, outside)
        && spec_edge_ok(segs, t.c, t.a, outside)
}

/// The edge test does not depend on the orientation of the edge: the
/// matched segments are the same, and the midpoint — and with it the cast
/// ray — is symmetric in the two endpoints.
pub proof fn lemma_edge_ok_symmetric(segs: Seq<Seg2>, p: Point2, q: Point2, outside: Point2)
    ensures
        spec_edge_ok(segs, p, q, outside) == spec_edge_ok(segs, q, p, outside),
{
    assert(spec_contains_segment(segs, p, q) == spec_contains_segment(segs, q, p)) by {
        if spec_contains_segment(segs, p, q) {
            let i = choose|i: int| 0 <= i < segs.len() && seg_matches(segs[i], p, q);
            assert(seg_matches(segs[i], q, p));
        }
        if spec_contains_segment(segs, q, p) {
            let i = choose|i: int| 0 <= i < segs.len() && seg_matches(segs[i], q, p);
            assert(seg_matches(segs[i], p, q));
        }
    }
}

/// Containment of a triangle is invariant under relabeling its three
/// vertices: any rotation or reversal of `(a, b, c)` gives the same answer,
/// because the same three undirected edges are tested.
pub proof fn lemma_contains_triangle_relabel(segs: Seq<Seg2>, t: Triangle2, outside: Point2)
    ensures
        spec_contains_triangle(segs, Triangle2 { a: t.b, b: t.c, c: t.a }, outside)
            == spec_contains_triangle(segs, t, outside),
        spec_contains_triangle(segs, Triangle2 { a: t.c, b: t.a, c: t.b }, outside)
            == spec_contains_triangle(segs, t, outside),
        spec_contains_triangle(segs, Triangle2 { a: t.a, b: t.c, c: t.b }, outside)
            == spec_contains_triangle(segs, t, outside),
        spec_contains_triangle(segs, Triangle2 { a: t.c, b: t.b, c: t.a }, outside)
            == spec_contains_triangle(segs, t, outside),
        spec_contains_triangle(segs, Triangle2 { a: t.b, b: t.a, c: t.c }, outside)
            == spec_contains_triangle(segs, t, outside),
{
    lemma_edge_ok_symmetric(segs, t.a, t.b, outside);
    lemma_edge_ok_symmetric(segs, t.b, t.c, outside);
    lemma_edge_ok_symmetric(segs, t.c, t.a, outside);
}

/// Products of two coordinates within the difference range stay within the
/// square of that range.
proof fn lemma_bounded_products()
    ensures
        forall|a: int, b: int|
            -0x4000_0000_0000 <= a <= 0x4000_0000_0000 && -0x4000_0000_0000 <= b
                <= 0x4000_0000_0000 ==> -4951760157141521099596496896 <= #[trigger] (a * b)
                <= 4951760157141521099596496896,
{
    assert forall|a: int, b: int|
        -0x4000_0000_0000 <= a <= 0x4000_0000_0000 && -0x4000_0000_0000 <= b
            <= 0x4000_0000_0000 implies -4951760157141521099596496896 <= #[trigger] (a * b)
        <= 4951760157141521099596496896 by {
        assert(-4951760157141521099596496896 <= a * b <= 4951760157141521099596496896)
            by (nonlinear_arith)
            requires
                -0x4000_0000_0000 <= a <= 0x4000_0000_0000,
                -0x4000_0000_0000 <= b <= 0x4000_0000_0000,
        ;
    }
}

/// The rounded parameter at which the ray crosses one segment, by exact
/// 128-bit arithmetic; `None` when it misses or is parallel.
fn hit_param(mx: i64, my: i64, dx: i64, dy: i64, s: &Seg2) -> (r: Option<i128>)
    requires
        -COORD_LIMIT <= mx <= COORD_LIMIT,
        -COORD_LIMIT <= my <= COORD_LIMIT,
        -2 * COORD_LIMIT <= dx <= 2 * COORD_LIMIT,
        -2 * COORD_LIMIT <= dy <= 2 * COORD_LIMIT,
        s.a.in_range(),
        s.b.in_range(),
    ensures
        (match r {
            Some(k) => spec_hit(mx as int, my as int, dx as int, dy as int, *s) == Some(k as int),
            Option::None => spec_hit(mx as int, my as int, dx as int, dy as int, *s) is None,
        }),
{
    let ex: i64 = s.b.u.bits - s.a.u.bits;
    let ey: i64 = s.b.v.bits - s.a.v.bits;
    let fx: i64 = s.a.u.bits - mx;
    let fy: i64 = s.a.v.bits - my;
    proof {
        lemma_bounded_products();
    }
    let denom: i128 = (dx as i128) * (ey as i128) - (dy as i128) * (ex as i128);
    let t_num: i128 = (fx as i128) * (ey as i128) - (fy as i128) * (ex as i128);
    let w_num: i128 = (fx as i128) * (dy as i128) - (fy as i128) * (dx as i128);
    if denom == 0 {
        None
    } else if denom > 0 {
        if t_num >= 0 && 0 <= w_num && w_num <= denom {
            Some(round_div_i128(t_num * HIT_SCALE, denom))
        } else {
            None
        }
    } else {
        if t_num <= 0 && denom <= w_num && w_num <= 0 {
            Some(round_div_i128(-(t_num * HIT_SCALE), -denom))
        } else {
            None
        }
    }
}

/// Whether a vector of parameters already holds `k`.
fn holds_param(v: &Vec<i128>, k: i128) -> (r: bool)
    ensures
        r == exists|j: int| 0 <= j < v@.len() && v@[j] == k,
{
    let n = v.len();
    let mut i: usize = 0;
    while i < n
        invariant
            n == v@.len(),
            i <= n,
            forall|j: int| 0 <= j < i ==> v@[j] != k,
        decreases n - i,
    {
        if v[i] == k {
            assert(v@[i as int] == k);
            return true;
        }
        i += 1;
    }
    false
}

/// A face's boundary in surface-local coordinates, ready for containment
/// testing.
pub struct Polygon {
    /// The surface whose local coordinates the segments live in.
    pub surface: Surface,
    /// The boundary segments: the exterior cycle and every interior hole.
    pub segments: Vec<Seg2>,
}

/// Append the projected segments of one cycle.
fn project_cycle(surface: &Surface, cycle: &CycleApprox, segs: &mut Vec<Seg2>)
    requires
        surface.wf(),
        forall|i: int|
            0 <= i < cycle.points@.len() ==> spec_proj_ok(*surface, #[trigger] cycle.points@[i]),
    ensures
        final(segs)@ == old(segs)@ + spec_cycle_segs(*surface, cycle.points@),
        forall|i: int|
            old(segs)@.len() <= i < final(segs)@.len() ==> (#[trigger] final(segs)@[i]).a.in_range()
                && final(segs)@[i].b.in_range(),
{
    let n = cycle.points.len();
    if n < 2 {
        proof {
            assert(segs@ =~= segs@ + spec_cycle_segs(*surface, cycle.points@));
        }
        return ;
    }
    let mut i: usize = 0;
    while i < n
        invariant
            surface.wf(),
            forall|k: int|
                0 <= k < cycle.points@.len() ==> spec_proj_ok(
                    *surface,
                    #[trigger] cycle.points@[k],
                ),
            2 <= n == cycle.points@.len(),
            i <= n,
            segs@.len() == old(segs)@.len() + i,
            forall|k: int| 0 <= k < old(segs)@.len() ==> #[trigger] segs@[k] == old(segs)@[k],
            forall|k: int|
                0 <= k < i ==> #[trigger] segs@[old(segs)@.len() + k] == spec_cycle_segs(
                    *surface,
                    cycle.points@,
                )[k],
            forall|k: int|
                old(segs)@.len() <= k < segs@.len() ==> (#[trigger] segs@[k]).a.in_range()
                    && segs@[k].b.in_range(),
        decreases n - i,
    {
        let j: usize = if i + 1 == n {
            0
        } else {
            i + 1
        };
        proof {
            if i + 1 == n {
                vstd::arithmetic::div_mod::lemma_mod_self_0(n as int);
            } else {
                vstd::arithmetic::div_mod::lemma_small_mod((i + 1) as nat, n as nat);
            }
        }
        let pa = surface.point_model_to_surface(&cycle.points[i]);
        let pb = surface.point_model_to_surface(&cycle.points[j]);
        proof {
            assert(pa == spec_project_point(*surface, cycle.points@[i as int]));
            assert(pb == spec_project_point(*surface, cycle.points@[j as int]));
        }
        segs.push(Seg2 { a: pa, b: pb });
        i += 1;
    }
    proof {
        let full = old(segs)@ + spec_cycle_segs(*surface, cycle.points@);
        assert forall|idx: int| 0 <= idx < segs@.len() implies segs@[idx] == full[idx] by {
            if idx >= old(segs)@.len() {
                let k = idx - old(segs)@.len();
                assert(segs@[old(segs)@.len() + k] == spec_cycle_segs(*surface, cycle.points@)[k]);
            }
        }
        assert(segs@ =~= full);
    }
}

impl Polygon {
    /// Build the boundary polygon of a face from its approximated exterior
    /// cycle and interior holes, projecting every segment endpoint into the
    /// surface's local coordinates.
    pub fn new(exterior: &CycleApprox, interiors: &Vec<CycleApprox>, surface: Surface) -> (r:
        Polygon)
        requires
            surface.wf(),
            forall|i: int|
                0 <= i < exterior.points@.len() ==> spec_proj_ok(
                    surface,
                    #[trigger] exterior.points@[i],
                ),
            forall|c: int, i: int|
                0 <= c < interiors@.len() && 0 <= i < interiors@[c].points@.len()
                    ==> spec_proj_ok(surface, #[trigger] interiors@[c].points@[i]),
        ensures
            r.surface == surface,
            r.segments@ == spec_polygon_segs(surface, exterior.points@, interiors@),
            r.wf(),
    {
        let mut segs: Vec<Seg2> = Vec::new();
        project_cycle(&surface, exterior, &mut segs);
        proof {
            assert(segs@ =~= spec_polygon_segs(surface, exterior.points@, interiors@.take(0)));
        }
        let m = interiors.len();
        let mut c: usize = 0;
        while c < m
            invariant
                surface.wf(),
                forall|c2: int, i: int|
                    0 <= c2 < interiors@.len() && 0 <= i < interiors@[c2].points@.len()
                        ==> spec_proj_ok(surface, #[trigger] interiors@[c2].points@[i]),
                m == interiors@.len(),
                c <= m,
                segs@ == spec_polygon_segs(surface, exterior.points@, interiors@.take(c as int)),
                forall|k: int|
                    0 <= k < segs@.len() ==> (#[trigger] segs@[k]).a.in_range()
                        && segs@[k].b.in_range(),
            decreases m - c,
        {
            let cyc = &interiors[c];
            proof {
                assert(forall|i: int|
                    0 <= i < cyc.points@.len() ==> spec_proj_ok(
                        surface,
                        #[trigger] cyc.points@[i],
                    ));
            }
            project_cycle(&surface, cyc, &mut segs);
            proof {
                assert(interiors@.take(c as int + 1).drop_last() =~= interiors@.take(c as int));
                assert(interiors@.take(c as int + 1).last() == interiors@[c as int]);
            }
            c += 1;
        }
        proof {
            assert(interiors@.take(m as int) =~= interiors@);
        }
        Polygon { surface, segments: segs }
    }

    /// A usable polygon: a well-formed surface, every segment endpoint
    /// within the coordinate bound.
    pub open spec fn wf(self) -> bool {
        &&& self.surface.wf()
        &&& forall|i: int|
            0 <= i < self.segments@.len() ==> (#[trigger] self.segments@[i]).a.in_range()
                && self.segments@[i].b.in_range()
    }

    /// Whether the boundary holds the segment `(p, q)`, in either
    /// orientation. Such an edge is known to bound the face and needs no ray
    /// cast.
    pub fn contains_segment(&self, p: &Point2, q: &Point2) -> (r: bool)
        ensures
            r == spec_contains_segment(self.segments@, *p, *q),
    {
        let n = self.segments.len();
        let mut i: usize = 0;
        while i < n
            invariant
                n == self.segments@.len(),
                i <= n,
                forall|k: int| 0 <= k < i ==> !seg_matches(self.segments@[k], *p, *q),
            decreases n - i,
        {
            let s = self.segments[i];
            if (s.a == *p && s.b == *q) || (s.a == *q && s.b == *p) {
                assert(seg_matches(self.segments@[i as int], *p, *q));
                return true;
            }
            i += 1;
        }
        false
    }

    /// The distinct rounded parameters at which the ray from `(mx, my)` in
    /// direction `(dx, dy)` crosses the boundary, in discovery order.
    fn collect_hits(&self, mx: i64, my: i64, dx: i64, dy: i64) -> (r: Vec<i128>)
        requires
            self.wf(),
            -COORD_LIMIT <= mx <= COORD_LIMIT,
            -COORD_LIMIT <= my <= COORD_LIMIT,
            -2 * COORD_LIMIT <= dx <= 2 * COORD_LIMIT,
            -2 * COORD_LIMIT <= dy <= 2 * COORD_LIMIT,
        ensures
            r@.len() == spec_hits(self.segments@, mx as int, my as int, dx as int, dy as int).len(),
            forall|x: int|
                spec_hits(self.segments@, mx as int, my as int, dx as int, dy as int).contains(x)
                    <==> exists|j: int| 0 <= j < r@.len() && #[trigger] r@[j] as int == x,
    {
        let mut hits: Vec<i128> = Vec::new();
        let n = self.segments.len();
        let mut i: usize = 0;
        while i < n
            invariant
                self.wf(),
                -COORD_LIMIT <= mx <= COORD_LIMIT,
                -COORD_LIMIT <= my <= COORD_LIMIT,
                -2 * COORD_LIMIT <= dx <= 2 * COORD_LIMIT,
                -2 * COORD_LIMIT <= dy <= 2 * COORD_LIMIT,
                n == self.segments@.len(),
                i <= n,
                hits@.len() == spec_hits(
                    self.segments@.take(i as int), mx as int, my as int, dx as int, dy as int,
                ).len(),
                forall|x: int|
                    spec_hits(
                        self.segments@.take(i as int), mx as int, my as int, dx as int, dy as int,
                    ).contains(x) <==> exists|j: int|
                        0 <= j < hits@.len() && #[trigger] hits@[j] as int == x,
                forall|p2: int, q2: int| 0 <= p2 < q2 < hits@.len() ==> hits@[p2] != hits@[q2],
            decreases n - i,
        {
            let ghost prefix = self.segments@.take(i as int);
            let ghost prev = spec_hits(prefix, mx as int, my as int, dx as int, dy as int);
            proof {
                assert(self.segments@.take(i as int + 1).drop_last() =~= prefix);
                assert(self.segments@.take(i as int + 1).last() == self.segments@[i as int]);
                lemma_spec_hits_finite(prefix, mx as int, my as int, dx as int, dy as int);
            }
            let s = self.segments[i];
            match hit_param(mx, my, dx, dy, &s) {
                None => {},
                Some(k) => {
                    let ghost oldh = hits@;
                    if !holds_param(&hits, k) {
                        proof {
                            assert(!prev.contains(k as int)) by {
                                if prev.contains(k as int) {
                                    let j = choose|j: int|
                                        0 <= j < oldh.len() && #[trigger] oldh[j] as int
                                            == k as int;
                                    assert(oldh[j] == k);
                                }
                            }
                            vstd::set::axiom_set_insert_len(prev, k as int);
                        }
                        hits.push(k);
                        proof {
                            assert forall|x: int|
                                prev.insert(k as int).contains(x) <==> (exists|j: int|
                                    0 <= j < hits@.len() && #[trigger] hits@[j] as int == x) by {
                                if prev.insert(k as int).contains(x) {
                                    if x == k as int {
                                        assert(hits@[oldh.len() as int] as int == x);
                                    } else {
                                        let j = choose|j: int|
                                            0 <= j < oldh.len() && #[trigger] oldh[j] as int == x;
                                        assert(hits@[j] as int == x);
                                    }
                                }
                                if exists|j: int|
                                    0 <= j < hits@.len() && #[trigger] hits@[j] as int == x {
                                    let j = choose|j: int|
                                        0 <= j < hits@.len() && #[trigger] hits@[j] as int == x;
                                    if j < oldh.len() {
                                        assert(oldh[j] as int == x);
                                        assert(prev.contains(x));
                                    } else {
                                        assert(hits@[j] == k);
                                    }
                                }
                            }
                            assert forall|p2: int, q2: int|
                                0 <= p2 < q2 < hits@.len() implies hits@[p2] != hits@[q2] by {
                                if q2 < oldh.len() {
                                    assert(oldh[p2] != oldh[q2]);
                                } else {
                                    assert(hits@[q2] == k);
                                    assert(oldh[p2] != k);
                                }
                            }
                        }
                    } else {
                        proof {
                            let j = choose|j: int| 0 <= j < oldh.len() && oldh[j] == k;
                            assert(oldh[j] as int == k as int);
                            assert(prev.contains(k as int));
                            assert(prev.insert(k as int) =~= prev);
                        }
                    }
                },
            }
            i += 1;
        }
        proof {
            assert(self.segments@.take(n as int) =~= self.segments@);
        }
        hits
    }

    /// Whether a triangle edge lies within the face: on the boundary, or
    /// with its midpoint inside by ray-casting parity. Records one ray-cast
    /// check when a cast was needed.
    fn check_edge(&self, p: &Point2, q: &Point2, outside: Point2, debug_info: &mut DebugInfo) -> (r:
        bool)
        requires
            self.wf(),
            p.in_range(),
            q.in_range(),
            outside.in_range(),
        ensures
            r == spec_edge_ok(self.segments@, *p, *q, outside),
            final(debug_info).triangle_edge_checks@.len() == old(debug_info).triangle_edge_checks@.len() + (if spec_contains_segment(self.segments@, *p, *q) {
                0int
            } else {
                1int
            }),
            forall|i: int|
                0 <= i < old(debug_info).triangle_edge_checks@.len() ==> #[trigger] final(debug_info).triangle_edge_checks@[i] == old(debug_info).triangle_edge_checks@[i],
    {
        if self.contains_segment(p, q) {
            return true;
        }
        let su: i128 = (p.u.bits as i128) + (q.u.bits as i128);
        let sv: i128 = (p.v.bits as i128) + (q.v.bits as i128);
        proof {
            crate::num::lemma_trunc_div_bound(su as int, 2, 2 * COORD_LIMIT);
            crate::num::lemma_trunc_div_bound(sv as int, 2, 2 * COORD_LIMIT);
        }
        let mx: i64 = trunc_div_i128(su, 2) as i64;
        let my: i64 = trunc_div_i128(sv, 2) as i64;
        let dx: i64 = outside.u.bits - mx;
        let dy: i64 = outside.v.bits - my;
        let hits = self.collect_hits(mx, my, dx, dy);
        let odd: bool = hits.len() % 2 == 1;
        let mid = Point2 { u: Scalar { bits: mx }, v: Scalar { bits: my } };
        let origin = self.surface.point_surface_to_model(&mid);
        let direction = self.surface.vector_surface_to_model(
            &Vector2 { u: Scalar { bits: dx }, v: Scalar { bits: dy } },
        );
        debug_info.triangle_edge_checks.push(TriangleEdgeCheck { origin, direction, hits });
        odd
    }

    /// Whether a candidate triangle belongs to the face: every edge either
    /// coincides with a boundary segment or has an odd-parity midpoint.
    /// Rejects on the first failing edge; records one ray-cast check per
    /// edge examined that was not boundary-coincident.
    pub fn contains_triangle(&self, triangle: &Triangle2, outside: Point2, debug_info: &mut DebugInfo) -> (r: bool)
        requires
            self.wf(),
            triangle.a.in_range(),
            triangle.b.in_range(),
            triangle.c.in_range(),
            outside.in_range(),
        ensures
            r == spec_contains_triangle(self.segments@, *triangle, outside),
            old(debug_info).triangle_edge_checks@.len() <= final(debug_info).triangle_edge_checks@.len() <= old(debug_info).triangle_edge_checks@.len() + 3,
            forall|i: int|
                0 <= i < old(debug_info).triangle_edge_checks@.len() ==> #[trigger] final(debug_info).triangle_edge_checks@[i] == old(debug_info).triangle_edge_checks@[i],
    {
        if !self.check_edge(&triangle.a, &triangle.b, outside, debug_info) {
            return false;
        }
        if !self.check_edge(&triangle.b, &triangle.c, outside, debug_info) {
            return false;
        }
        if !self.check_edge(&triangle.c, &triangle.a, outside, debug_info) {
            return false;
        }
        true
    }
}

} // verus!
