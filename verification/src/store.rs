//! The shape store: a deduplicating, validating object graph.
//!
//! The store owns one collection per entity kind — points, curves, surfaces,
//! vertices, edges — addressed by stable handles. Its invariant: no two
//! distinct handles reference value-equal objects (global dedup), and every
//! handle a stored object references resolves inside the store (referential
//! integrity). Insertion validates first, then either returns the handle of
//! an already-present equal object or appends a fresh one; a failed insert
//! leaves the store unchanged.

use vstd::prelude::*;

use crate::curve::{spec_on_curve, Curve};
use crate::point::Point3;
use crate::surface::Surface;

verus! {

/// A stable reference to a point in the store.
#[derive(Clone, Copy, PartialEq, Eq, Structural, Hash, Debug)]
pub struct PointHandle {
    pub index: usize,
}

/// A stable reference to a curve in the store.
#[derive(Clone, Copy, PartialEq, Eq, Structural, Hash, Debug)]
pub struct CurveHandle {
    pub index: usize,
}

/// A stable reference to a surface in the store.
#[derive(Clone, Copy, PartialEq, Eq, Structural, Hash, Debug)]
pub struct SurfaceHandle {
    pub index: usize,
}

/// A stable reference to a vertex in the store.
#[derive(Clone, Copy, PartialEq, Eq, Structural, Hash, Debug)]
pub struct VertexHandle {
    pub index: usize,
}

/// A stable reference to an edge in the store.
#[derive(Clone, Copy, PartialEq, Eq, Structural, Hash, Debug)]
pub struct EdgeHandle {
    pub index: usize,
}

/// A vertex: a handle to the point it sits at. Two vertices are equal
/// exactly when their referenced points are equal, because the store never
/// hands out two handles for one point value.
#[derive(Clone, Copy, PartialEq, Eq, Structural, Hash, Debug)]
pub struct Vertex {
    pub point: PointHandle,
}

/// The two bounding vertices of an edge, in order.
#[derive(Clone, Copy, PartialEq, Eq, Structural, Hash, Debug)]
pub struct VertexPair {
    pub start: VertexHandle,
    pub end: VertexHandle,
}

/// An edge: a handle to its curve, and optionally its two bounding vertices.
/// The vertices are absent for a closed curve used whole, such as a full
/// circle.
#[derive(Clone, Copy, PartialEq, Eq, Structural, Hash, Debug)]
pub struct Edge {
    pub curve: CurveHandle,
    pub vertices: Option<VertexPair>,
}

/// The handle an inserted object referenced that does not resolve in the
/// store.
#[derive(Clone, Copy, PartialEq, Eq, Structural, Debug)]
pub enum MissingRef {
    Point(PointHandle),
    Curve(CurveHandle),
    Vertex(VertexHandle),
}

/// The geometric consistency predicate an inserted object failed.
#[derive(Clone, Copy, PartialEq, Eq, Structural, Debug)]
pub enum GeometricError {
    /// The named vertex's point does not lie on the edge's curve.
    VertexOffCurve(VertexHandle),
    /// A surface's basis vectors are not orthogonal or are shorter than one
    /// unit.
    InvalidBasis,
}

/// Why an insertion was refused. A refused insertion leaves the store
/// unchanged.
#[derive(Clone, Copy, PartialEq, Eq, Structural, Debug)]
pub enum ValidationError {
    /// The inserted object references a handle not present in the store.
    MissingReference(MissingRef),
    /// The inserted object fails a type-specific geometric predicate.
    Geometric(GeometricError),
}

/// The result of building or inserting topological objects.
pub type ValidationResult<H> = Result<H, ValidationError>;

/// The index of the first occurrence of `x` in `s`, or `s.len()` when `x`
/// does not occur.
pub open spec fn seq_find<A>(s: Seq<A>, x: A) -> int
    decreases s.len(),
{
    if s.len() == 0 {
        0
    } else if s[0] == x {
        0
    } else {
        1 + seq_find(s.drop_first(), x)
    }
}

/// What `seq_find` returns: the first index of `x` when present, the length
/// when absent.
pub proof fn lemma_seq_find<A>(s: Seq<A>, x: A)
    ensures
        0 <= seq_find(s, x) <= s.len(),
        s.contains(x) ==> seq_find(s, x) < s.len() && s[seq_find(s, x)] == x,
        !s.contains(x) ==> seq_find(s, x) == s.len(),
        forall|k: int| 0 <= k < seq_find(s, x) ==> s[k] != x,
    decreases s.len(),
{
    if s.len() == 0 {
        assert(!s.contains(x));
    } else if s[0] == x {
        assert(s.contains(x));
    } else {
        let t = s.drop_first();
        lemma_seq_find(t, x);
        assert(forall|k: int| 0 <= k < t.len() ==> t[k] == s[k + 1]);
        if s.contains(x) {
            let w = choose|w: int| 0 <= w < s.len() && s[w] == x;
            assert(t[w - 1] == x);
            assert(t.contains(x));
        }
        if t.contains(x) {
            let w = choose|w: int| 0 <= w < t.len() && t[w] == x;
            assert(s[w + 1] == x);
            assert(s.contains(x));
        }
        assert forall|k: int| 0 <= k < seq_find(s, x) implies s[k] != x by {
            if k >= 1 {
                assert(t[k - 1] == s[k]);
            }
        }
    }
}

/// No two entries of `s` are equal.
pub open spec fn dedup<A>(s: Seq<A>) -> bool {
    forall|i: int, j: int| 0 <= i < j < s.len() ==> s[i] != s[j]
}

/// What a deduplicating insertion leaves behind: the sequence itself when it
/// already contains the value, else the sequence with the value appended.
pub open spec fn spec_insert<A>(s: Seq<A>, x: A) -> Seq<A> {
    if s.contains(x) {
        s
    } else {
        s.push(x)
    }
}

/// Deduplicating insertion is idempotent: it keeps the no-duplicates
/// invariant, a second insertion of the same value changes nothing, and the
/// handle index `seq_find` names is the same before and after.
pub proof fn lemma_insert_idempotent<A>(s: Seq<A>, x: A)
    requires
        dedup(s),
    ensures
        dedup(spec_insert(s, x)),
        spec_insert(s, x).contains(x),
        seq_find(spec_insert(s, x), x) == seq_find(s, x),
        spec_insert(spec_insert(s, x), x) == spec_insert(s, x),
        spec_insert(s, x)[seq_find(s, x)] == x,
{
    lemma_seq_find(s, x);
    if s.contains(x) {
        lemma_seq_find(spec_insert(s, x), x);
    } else {
        let t = s.push(x);
        assert(t[s.len() as int] == x);
        assert(t.contains(x));
        assert forall|i: int, j: int| 0 <= i < j < t.len() implies t[i] != t[j] by {
            if j < s.len() {
                assert(t[i] == s[i] && t[j] == s[j]);
            } else {
                assert(t[i] == s[i]);
                if s[i] == x {
                    assert(s.contains(x));
                }
            }
        }
        lemma_dedup_index_unique(t, x, s.len() as int);
    }
}

/// In a deduplicated sequence, an index holding `x` is the one `seq_find`
/// names.
pub proof fn lemma_dedup_index_unique<A>(s: Seq<A>, x: A, i: int)
    requires
        dedup(s),
        0 <= i < s.len(),
        s[i] == x,
    ensures
        seq_find(s, x) == i,
{
    assert(s.contains(x));
    lemma_seq_find(s, x);
    let f = seq_find(s, x);
    if f < i {
        assert(s[f] == x && s[i] == x);
    }
}

/// The shape store.
pub struct Shape {
    points: Vec<Point3>,
    curves: Vec<Curve>,
    surfaces: Vec<Surface>,
    vertices: Vec<Vertex>,
    edges: Vec<Edge>,
}

/// The check an edge insertion performs, in order: the curve handle must
/// resolve, then each vertex handle must resolve, then each vertex's point
/// must lie on the curve within tolerance. `None` means the edge is
/// admissible.
pub open spec fn spec_validate_edge(s: Shape, e: Edge) -> Option<ValidationError> {
    if e.curve.index >= s.curves_seq().len() {
        Some(ValidationError::MissingReference(MissingRef::Curve(e.curve)))
    } else {
        match e.vertices {
            Option::None => Option::<ValidationError>::None,
            Option::Some(pair) => {
                if pair.start.index >= s.vertices_seq().len() {
                    Some(ValidationError::MissingReference(MissingRef::Vertex(pair.start)))
                } else if pair.end.index >= s.vertices_seq().len() {
                    Some(ValidationError::MissingReference(MissingRef::Vertex(pair.end)))
                } else {
                    let c = s.curves_seq()[e.curve.index as int];
                    let p0 = s.points_seq()[s.vertices_seq()[pair.start.index as int].point.index as int];
                    let p1 = s.points_seq()[s.vertices_seq()[pair.end.index as int].point.index as int];
                    if !spec_on_curve(c, p0) {
                        Some(ValidationError::Geometric(GeometricError::VertexOffCurve(pair.start)))
                    } else if !spec_on_curve(c, p1) {
                        Some(ValidationError::Geometric(GeometricError::VertexOffCurve(pair.end)))
                    } else {
                        Option::<ValidationError>::None
                    }
                }
            }
        }
    }
}

impl Shape {
    /// The stored point values, in insertion order.
    pub closed spec fn points_seq(self) -> Seq<Point3> {
        self.points@
    }

    /// The stored curve values, in insertion order.
    pub closed spec fn curves_seq(self) -> Seq<Curve> {
        self.curves@
    }

    /// The stored surface values, in insertion order.
    pub closed spec fn surfaces_seq(self) -> Seq<Surface> {
        self.surfaces@
    }

    /// The stored vertex values, in insertion order.
    pub closed spec fn vertices_seq(self) -> Seq<Vertex> {
        self.vertices@
    }

    /// The stored edge values, in insertion order.
    pub closed spec fn edges_seq(self) -> Seq<Edge> {
        self.edges@
    }

    /// The store's invariant: each collection deduplicated, every stored
    /// coordinate within the kernel's range, every cross-reference resolving,
    /// and every stored edge geometrically consistent.
    pub closed spec fn wf(self) -> bool {
        &&& dedup(self.points@)
        &&& (forall|i: int| 0 <= i < self.points@.len() ==> self.points@[i].in_range())
        &&& dedup(self.curves@)
        &&& (forall|i: int| 0 <= i < self.curves@.len() ==> self.curves@[i].in_range())
        &&& dedup(self.surfaces@)
        &&& (forall|i: int| 0 <= i < self.surfaces@.len() ==> self.surfaces@[i].wf())
        &&& dedup(self.vertices@)
        &&& (forall|i: int|
            0 <= i < self.vertices@.len() ==> self.vertices@[i].point.index < self.points@.len())
        &&& dedup(self.edges@)
        &&& (forall|i: int|
            0 <= i < self.edges@.len() ==> spec_validate_edge(self, self.edges@[i]) is None)
    }

    /// An empty store.
    pub fn new() -> (r: Shape)
        ensures
            r.wf(),
            r.points_seq().len() == 0,
            r.curves_seq().len() == 0,
            r.surfaces_seq().len() == 0,
            r.vertices_seq().len() == 0,
            r.edges_seq().len() == 0,
    {
        Shape {
            points: Vec::new(),
            curves: Vec::new(),
            surfaces: Vec::new(),
            vertices: Vec::new(),
            edges: Vec::new(),
        }
    }

    /// The point a handle references.
    pub fn point_at(&self, h: PointHandle) -> (r: Point3)
        requires
            h.index < self.points_seq().len(),
        ensures
            r == self.points_seq()[h.index as int],
    {
        self.points[h.index]
    }

    /// The curve a handle references.
    pub fn curve_at(&self, h: CurveHandle) -> (r: Curve)
        requires
            h.index < self.curves_seq().len(),
        ensures
            r == self.curves_seq()[h.index as int],
    {
        self.curves[h.index]
    }

    /// The surface a handle references.
    pub fn surface_at(&self, h: SurfaceHandle) -> (r: Surface)
        requires
            h.index < self.surfaces_seq().len(),
        ensures
            r == self.surfaces_seq()[h.index as int],
    {
        self.surfaces[h.index]
    }

    /// The vertex a handle references.
    pub fn vertex_at(&self, h: VertexHandle) -> (r: Vertex)
        requires
            h.index < self.vertices_seq().len(),
        ensures
            r == self.vertices_seq()[h.index as int],
    {
        self.vertices[h.index]
    }

    /// The point a vertex sits at: the vertex's point handle resolved. The
    /// store's invariant guarantees the reference resolves and the point is
    /// in range.
    pub fn vertex_point(&self, h: VertexHandle) -> (r: Point3)
        requires
            self.wf(),
            h.index < self.vertices_seq().len(),
        ensures
            r == self.points_seq()[self.vertices_seq()[h.index as int].point.index as int],
            r.in_range(),
    {
        let v = self.vertices[h.index];
        self.points[v.point.index]
    }

    /// The edge a handle references.
    pub fn edge_at(&self, h: EdgeHandle) -> (r: Edge)
        requires
            h.index < self.edges_seq().len(),
        ensures
            r == self.edges_seq()[h.index as int],
    {
        self.edges[h.index]
    }

    /// How many points the store holds.
    pub fn points_len(&self) -> (r: usize)
        ensures
            r == self.points_seq().len(),
    {
        self.points.len()
    }

    /// How many curves the store holds.
    pub fn curves_len(&self) -> (r: usize)
        ensures
            r == self.curves_seq().len(),
    {
        self.curves.len()
    }

    /// How many surfaces the store holds.
    pub fn surfaces_len(&self) -> (r: usize)
        ensures
            r == self.surfaces_seq().len(),
    {
        self.surfaces.len()
    }

    /// How many vertices the store holds.
    pub fn vertices_len(&self) -> (r: usize)
        ensures
            r == self.vertices_seq().len(),
    {
        self.vertices.len()
    }

    /// How many edges the store holds.
    pub fn edges_len(&self) -> (r: usize)
        ensures
            r == self.edges_seq().len(),
    {
        self.edges.len()
    }

    fn find_point(&self, p: &Point3) -> (r: usize)
        ensures
            r as int == seq_find(self.points@, *p),
    {
        let mut i: usize = 0;
        while i < self.points.len()
            invariant
                i <= self.points@.len(),
                forall|k: int| 0 <= k < i ==> self.points@[k] != *p,
            decreases self.points@.len() - i,
        {
            if self.points[i] == *p {
                proof {
                    lemma_seq_find(self.points@, *p);
                }
                return i;
            }
            i += 1;
        }
        proof {
            lemma_seq_find(self.points@, *p);
            if self.points@.contains(*p) {
                let w = choose|w: int| 0 <= w < self.points@.len() && self.points@[w] == *p;
                assert(self.points@[w] != *p);
            }
        }
        i
    }

    fn find_curve(&self, c: &Curve) -> (r: usize)
        ensures
            r as int == seq_find(self.curves@, *c),
    {
        let mut i: usize = 0;
        while i < self.curves.len()
            invariant
                i <= self.curves@.len(),
                forall|k: int| 0 <= k < i ==> self.curves@[k] != *c,
            decreases self.curves@.len() - i,
        {
            if self.curves[i] == *c {
                proof {
                    lemma_seq_find(self.curves@, *c);
                }
                return i;
            }
            i += 1;
        }
        proof {
            lemma_seq_find(self.curves@, *c);
            if self.curves@.contains(*c) {
                let w = choose|w: int| 0 <= w < self.curves@.len() && self.curves@[w] == *c;
                assert(self.curves@[w] != *c);
            }
        }
        i
    }

    fn find_surface(&self, s: &Surface) -> (r: usize)
        ensures
            r as int == seq_find(self.surfaces@, *s),
    {
        let mut i: usize = 0;
        while i < self.surfaces.len()
            invariant
                i <= self.surfaces@.len(),
                forall|k: int| 0 <= k < i ==> self.surfaces@[k] != *s,
            decreases self.surfaces@.len() - i,
        {
            if self.surfaces[i] == *s {
                proof {
                    lemma_seq_find(self.surfaces@, *s);
                }
                return i;
            }
            i += 1;
        }
        proof {
            lemma_seq_find(self.surfaces@, *s);
            if self.surfaces@.contains(*s) {
                let w = choose|w: int| 0 <= w < self.surfaces@.len() && self.surfaces@[w] == *s;
                assert(self.surfaces@[w] != *s);
            }
        }
        i
    }

    fn find_vertex(&self, v: &Vertex) -> (r: usize)
        ensures
            r as int == seq_find(self.vertices@, *v),
    {
        let mut i: usize = 0;
        while i < self.vertices.len()
            invariant
                i <= self.vertices@.len(),
                forall|k: int| 0 <= k < i ==> self.vertices@[k] != *v,
            decreases self.vertices@.len() - i,
        {
            if self.vertices[i] == *v {
                proof {
                    lemma_seq_find(self.vertices@, *v);
                }
                return i;
            }
            i += 1;
        }
        proof {
            lemma_seq_find(self.vertices@, *v);
            if self.vertices@.contains(*v) {
                let w = choose|w: int| 0 <= w < self.vertices@.len() && self.vertices@[w] == *v;
                assert(self.vertices@[w] != *v);
            }
        }
        i
    }

    fn find_edge(&self, e: &Edge) -> (r: usize)
        ensures
            r as int == seq_find(self.edges@, *e),
    {
        let mut i: usize = 0;
        while i < self.edges.len()
            invariant
                i <= self.edges@.len(),
                forall|k: int| 0 <= k < i ==> self.edges@[k] != *e,
            decreases self.edges@.len() - i,
        {
            if self.edges[i] == *e {
                proof {
                    lemma_seq_find(self.edges@, *e);
                }
                return i;
            }
            i += 1;
        }
        proof {
            lemma_seq_find(self.edges@, *e);
            if self.edges@.contains(*e) {
                let w = choose|w: int| 0 <= w < self.edges@.len() && self.edges@[w] == *e;
                assert(self.edges@[w] != *e);
            }
        }
        i
    }

    /// Insert a point, or return the handle of an equal point already
    /// stored. Points carry no references and always satisfy their
    /// (vacuous) geometric predicate, so this never fails.
    pub fn get_handle_or_insert_point(&mut self, point: Point3) -> (r: ValidationResult<
        PointHandle,
    >)
        requires
            old(self).wf(),
            point.in_range(),
        ensures
            final(self).wf(),
            final(self).points_seq() == spec_insert(old(self).points_seq(), point),
            final(self).curves_seq() == old(self).curves_seq(),
            final(self).surfaces_seq() == old(self).surfaces_seq(),
            final(self).vertices_seq() == old(self).vertices_seq(),
            final(self).edges_seq() == old(self).edges_seq(),
            (r == Ok::<PointHandle, ValidationError>(
                PointHandle { index: seq_find(old(self).points_seq(), point) as usize },
            )),
    {
        let i = self.find_point(&point);
        proof {
            lemma_seq_find(self.points@, point);
        }
        if i < self.points.len() {
            Ok(PointHandle { index: i })
        } else {
            self.points.push(point);
            proof {
                lemma_push_keeps_edges_valid(*old(self), *self);
            }
            Ok(PointHandle { index: i })
        }
    }

    /// Insert a point. Insertion is idempotent for value-equal objects — the
    /// store never stores duplicates — so this behaves exactly as
    /// `get_handle_or_insert_point`.
    pub fn insert_point(&mut self, point: Point3) -> (r: ValidationResult<PointHandle>)
        requires
            old(self).wf(),
            point.in_range(),
        ensures
            final(self).wf(),
            final(self).points_seq() == spec_insert(old(self).points_seq(), point),
            final(self).curves_seq() == old(self).curves_seq(),
            final(self).surfaces_seq() == old(self).surfaces_seq(),
            final(self).vertices_seq() == old(self).vertices_seq(),
            final(self).edges_seq() == old(self).edges_seq(),
            (r == Ok::<PointHandle, ValidationError>(
                PointHandle { index: seq_find(old(self).points_seq(), point) as usize },
            )),
    {
        self.get_handle_or_insert_point(point)
    }

    /// Insert a curve, or return the handle of an equal curve already
    /// stored. Curves carry no references; this never fails.
    pub fn get_handle_or_insert_curve(&mut self, curve: Curve) -> (r: ValidationResult<
        CurveHandle,
    >)
        requires
            old(self).wf(),
            curve.in_range(),
        ensures
            final(self).wf(),
            final(self).curves_seq() == spec_insert(old(self).curves_seq(), curve),
            final(self).points_seq() == old(self).points_seq(),
            final(self).surfaces_seq() == old(self).surfaces_seq(),
            final(self).vertices_seq() == old(self).vertices_seq(),
            final(self).edges_seq() == old(self).edges_seq(),
            (r == Ok::<CurveHandle, ValidationError>(
                CurveHandle { index: seq_find(old(self).curves_seq(), curve) as usize },
            )),
    {
        let i = self.find_curve(&curve);
        proof {
            lemma_seq_find(self.curves@, curve);
        }
        if i < self.curves.len() {
            Ok(CurveHandle { index: i })
        } else {
            self.curves.push(curve);
            proof {
                lemma_push_keeps_edges_valid(*old(self), *self);
            }
            Ok(CurveHandle { index: i })
        }
    }

    /// Insert a curve; identical to `get_handle_or_insert_curve`, as the
    /// store deduplicates on every insertion.
    pub fn insert_curve(&mut self, curve: Curve) -> (r: ValidationResult<CurveHandle>)
        requires
            old(self).wf(),
            curve.in_range(),
        ensures
            final(self).wf(),
            final(self).curves_seq() == spec_insert(old(self).curves_seq(), curve),
            final(self).points_seq() == old(self).points_seq(),
            final(self).surfaces_seq() == old(self).surfaces_seq(),
            final(self).vertices_seq() == old(self).vertices_seq(),
            final(self).edges_seq() == old(self).edges_seq(),
            (r == Ok::<CurveHandle, ValidationError>(
                CurveHandle { index: seq_find(old(self).curves_seq(), curve) as usize },
            )),
    {
        self.get_handle_or_insert_curve(curve)
    }

    /// Insert a surface, or return the handle of an equal surface already
    /// stored. Fails with a `Geometric` error exactly when the basis is not
    /// orthogonal or a basis vector is shorter than one unit.
    pub fn get_handle_or_insert_surface(&mut self, surface: Surface) -> (r: ValidationResult<
        SurfaceHandle,
    >)
        requires
            old(self).wf(),
            surface.origin.in_range(),
            surface.u.in_range(),
            surface.v.in_range(),
        ensures
            final(self).wf(),
            surface.wf() ==> final(self).surfaces_seq() == spec_insert(old(self).surfaces_seq(), surface) && (r == Ok::<SurfaceHandle, ValidationError>(
                SurfaceHandle { index: seq_find(old(self).surfaces_seq(), surface) as usize },
            )),
            !surface.wf() ==> *final(self) == *old(self) && (r == Err::<
                SurfaceHandle,
                ValidationError,
            >(ValidationError::Geometric(GeometricError::InvalidBasis))),
            final(self).points_seq() == old(self).points_seq(),
            final(self).curves_seq() == old(self).curves_seq(),
            final(self).vertices_seq() == old(self).vertices_seq(),
            final(self).edges_seq() == old(self).edges_seq(),
    {
        let duv: i128 = crate::point::dot3_raw(&surface.u, &surface.v);
        let duu: i128 = crate::point::dot3_raw(&surface.u, &surface.u);
        let dvv: i128 = crate::point::dot3_raw(&surface.v, &surface.v);
        if duv != 0 || duu < crate::surface::UNIT_SQ || dvv < crate::surface::UNIT_SQ {
            return Err(ValidationError::Geometric(GeometricError::InvalidBasis));
        }
        let i = self.find_surface(&surface);
        proof {
            lemma_seq_find(self.surfaces@, surface);
        }
        if i < self.surfaces.len() {
            Ok(SurfaceHandle { index: i })
        } else {
            self.surfaces.push(surface);
            proof {
                lemma_push_keeps_edges_valid(*old(self), *self);
            }
            Ok(SurfaceHandle { index: i })
        }
    }

    /// Insert a surface; identical to `get_handle_or_insert_surface`, as
    /// the store deduplicates on every insertion.
    pub fn insert_surface(&mut self, surface: Surface) -> (r: ValidationResult<SurfaceHandle>)
        requires
            old(self).wf(),
            surface.origin.in_range(),
            surface.u.in_range(),
            surface.v.in_range(),
        ensures
            final(self).wf(),
            surface.wf() ==> final(self).surfaces_seq() == spec_insert(old(self).surfaces_seq(), surface) && (r == Ok::<SurfaceHandle, ValidationError>(
                SurfaceHandle { index: seq_find(old(self).surfaces_seq(), surface) as usize },
            )),
            !surface.wf() ==> *final(self) == *old(self) && (r == Err::<
                SurfaceHandle,
                ValidationError,
            >(ValidationError::Geometric(GeometricError::InvalidBasis))),
            final(self).points_seq() == old(self).points_seq(),
            final(self).curves_seq() == old(self).curves_seq(),
            final(self).vertices_seq() == old(self).vertices_seq(),
            final(self).edges_seq() == old(self).edges_seq(),
    {
        self.get_handle_or_insert_surface(surface)
    }

    /// Insert a vertex, or return the handle of an equal vertex already
    /// stored. Fails with a `MissingReference` error exactly when the
    /// vertex's point handle does not resolve in this store.
    pub fn get_handle_or_insert_vertex(&mut self, vertex: Vertex) -> (r: ValidationResult<
        VertexHandle,
    >)
        requires
            old(self).wf(),
        ensures
            final(self).wf(),
            vertex.point.index < old(self).points_seq().len() ==> final(self).vertices_seq() == spec_insert(old(self).vertices_seq(), vertex) && (r == Ok::<VertexHandle, ValidationError>(
                VertexHandle { index: seq_find(old(self).vertices_seq(), vertex) as usize },
            )),
            vertex.point.index >= old(self).points_seq().len() ==> *final(self) == *old(self) && (r
                == Err::<VertexHandle, ValidationError>(
                ValidationError::MissingReference(MissingRef::Point(vertex.point)),
            )),
            final(self).points_seq() == old(self).points_seq(),
            final(self).curves_seq() == old(self).curves_seq(),
            final(self).surfaces_seq() == old(self).surfaces_seq(),
            final(self).edges_seq() == old(self).edges_seq(),
    {
        if vertex.point.index >= self.points.len() {
            return Err(ValidationError::MissingReference(MissingRef::Point(vertex.point)));
        }
        let i = self.find_vertex(&vertex);
        proof {
            lemma_seq_find(self.vertices@, vertex);
        }
        if i < self.vertices.len() {
            Ok(VertexHandle { index: i })
        } else {
            self.vertices.push(vertex);
            proof {
                lemma_push_keeps_edges_valid(*old(self), *self);
            }
            Ok(VertexHandle { index: i })
        }
    }

    /// Insert a vertex; identical to `get_handle_or_insert_vertex`, as the
    /// store deduplicates on every insertion.
    pub fn insert_vertex(&mut self, vertex: Vertex) -> (r: ValidationResult<VertexHandle>)
        requires
            old(self).wf(),
        ensures
            final(self).wf(),
            vertex.point.index < old(self).points_seq().len() ==> final(self).vertices_seq() == spec_insert(old(self).vertices_seq(), vertex) && (r == Ok::<VertexHandle, ValidationError>(
                VertexHandle { index: seq_find(old(self).vertices_seq(), vertex) as usize },
            )),
            vertex.point.index >= old(self).points_seq().len() ==> *final(self) == *old(self) && (r
                == Err::<VertexHandle, ValidationError>(
                ValidationError::MissingReference(MissingRef::Point(vertex.point)),
            )),
            final(self).points_seq() == old(self).points_seq(),
            final(self).curves_seq() == old(self).curves_seq(),
            final(self).surfaces_seq() == old(self).surfaces_seq(),
            final(self).edges_seq() == old(self).edges_seq(),
    {
        self.get_handle_or_insert_vertex(vertex)
    }

    /// Insert an edge, or return the handle of an equal edge already stored.
    /// Fails with the error `spec_validate_edge` names: a `MissingReference`
    /// for a curve or vertex handle that does not resolve, a `Geometric`
    /// error for a vertex whose point is off the curve.
    pub fn get_handle_or_insert_edge(&mut self, edge: Edge) -> (r: ValidationResult<EdgeHandle>)
        requires
            old(self).wf(),
        ensures
            final(self).wf(),
            (match spec_validate_edge(*old(self), edge) {
                Option::Some(err) => *final(self) == *old(self) && r == Err::<
                    EdgeHandle,
                    ValidationError,
                >(err),
                Option::None => final(self).edges_seq() == spec_insert(old(self).edges_seq(), edge) && (r == Ok::<EdgeHandle, ValidationError>(
                    EdgeHandle { index: seq_find(old(self).edges_seq(), edge) as usize },
                )),
            }),
            final(self).points_seq() == old(self).points_seq(),
            final(self).curves_seq() == old(self).curves_seq(),
            final(self).surfaces_seq() == old(self).surfaces_seq(),
            final(self).vertices_seq() == old(self).vertices_seq(),
    {
        if edge.curve.index >= self.curves.len() {
            return Err(ValidationError::MissingReference(MissingRef::Curve(edge.curve)));
        }
        match edge.vertices {
            Option::None => {},
            Option::Some(pair) => {
                if pair.start.index >= self.vertices.len() {
                    return Err(ValidationError::MissingReference(MissingRef::Vertex(pair.start)));
                }
                if pair.end.index >= self.vertices.len() {
                    return Err(ValidationError::MissingReference(MissingRef::Vertex(pair.end)));
                }
                let c = self.curves[edge.curve.index];
                let v0 = self.vertices[pair.start.index];
                let v1 = self.vertices[pair.end.index];
                let p0 = self.points[v0.point.index];
                let p1 = self.points[v1.point.index];
                if !c.contains_point(&p0) {
                    return Err(ValidationError::Geometric(GeometricError::VertexOffCurve(
                        pair.start,
                    )));
                }
                if !c.contains_point(&p1) {
                    return Err(ValidationError::Geometric(GeometricError::VertexOffCurve(
                        pair.end,
                    )));
                }
            },
        }
        let i = self.find_edge(&edge);
        proof {
            lemma_seq_find(self.edges@, edge);
        }
        if i < self.edges.len() {
            Ok(EdgeHandle { index: i })
        } else {
            self.edges.push(edge);
            proof {
                lemma_push_keeps_edges_valid(*old(self), *self);
                assert(spec_validate_edge(*self, edge) is None);
            }
            Ok(EdgeHandle { index: i })
        }
    }

    /// Insert an edge; identical to `get_handle_or_insert_edge`, as the
    /// store deduplicates on every insertion.
    pub fn insert_edge(&mut self, edge: Edge) -> (r: ValidationResult<EdgeHandle>)
        requires
            old(self).wf(),
        ensures
            final(self).wf(),
            (match spec_validate_edge(*old(self), edge) {
                Option::Some(err) => *final(self) == *old(self) && r == Err::<
                    EdgeHandle,
                    ValidationError,
                >(err),
                Option::None => final(self).edges_seq() == spec_insert(old(self).edges_seq(), edge) && (r == Ok::<EdgeHandle, ValidationError>(
                    EdgeHandle { index: seq_find(old(self).edges_seq(), edge) as usize },
                )),
            }),
            final(self).points_seq() == old(self).points_seq(),
            final(self).curves_seq() == old(self).curves_seq(),
            final(self).surfaces_seq() == old(self).surfaces_seq(),
            final(self).vertices_seq() == old(self).vertices_seq(),
    {
        self.get_handle_or_insert_edge(edge)
    }
}

/// The store's invariant includes global deduplication: no collection holds
/// two value-equal entries.
pub proof fn lemma_wf_dedup(s: Shape)
    requires
        s.wf(),
    ensures
        dedup(s.points_seq()),
        dedup(s.curves_seq()),
        dedup(s.surfaces_seq()),
        dedup(s.vertices_seq()),
        dedup(s.edges_seq()),
{
}

/// Inserting an edge whose vertices reference a vertex handle not present in
/// the store fails with a `MissingReference` error naming that handle — the
/// referential-integrity half of validation, stated for the edge check that
/// `get_handle_or_insert_edge` promises to perform.
pub proof fn lemma_dangling_vertex_rejected(s: Shape, e: Edge, pair: VertexPair)
    requires
        e.vertices == Some(pair),
        e.curve.index < s.curves_seq().len(),
        pair.start.index >= s.vertices_seq().len() || pair.end.index >= s.vertices_seq().len(),
    ensures
        spec_validate_edge(s, e) == Some(
            ValidationError::MissingReference(
                MissingRef::Vertex(
                    if pair.start.index >= s.vertices_seq().len() {
                        pair.start
                    } else {
                        pair.end
                    },
                ),
            ),
        ),
{
}

/// Growing the collections while keeping their prefixes preserves the
/// validity of every edge that was stored before: an edge check reads only
/// entries at indices that already resolved.
proof fn lemma_push_keeps_edges_valid(before: Shape, after: Shape)
    requires
        before.wf(),
        after.points@.len() >= before.points@.len(),
        forall|i: int| 0 <= i < before.points@.len() ==> after.points@[i] == before.points@[i],
        after.curves@.len() >= before.curves@.len(),
        forall|i: int| 0 <= i < before.curves@.len() ==> after.curves@[i] == before.curves@[i],
        after.vertices@.len() >= before.vertices@.len(),
        forall|i: int|
            0 <= i < before.vertices@.len() ==> after.vertices@[i] == before.vertices@[i],
        after.edges@.len() >= before.edges@.len(),
        forall|i: int| 0 <= i < before.edges@.len() ==> after.edges@[i] == before.edges@[i],
    ensures
        forall|i: int|
            0 <= i < before.edges@.len() ==> spec_validate_edge(after, after.edges@[i]) is None,
{
    assert forall|i: int| 0 <= i < before.edges@.len() implies spec_validate_edge(
        after,
        after.edges@[i],
    ) is None by {
        let e = after.edges@[i];
        assert(e == before.edges@[i]);
        assert(spec_validate_edge(before, e) is None);
        assert(e.curve.index < before.curves@.len());
        assert(after.curves@[e.curve.index as int] == before.curves@[e.curve.index as int]);
        match e.vertices {
            Option::None => {},
            Option::Some(pair) => {
                assert(pair.start.index < before.vertices@.len());
                assert(pair.end.index < before.vertices@.len());
                let v0 = before.vertices@[pair.start.index as int];
                let v1 = before.vertices@[pair.end.index as int];
                assert(after.vertices@[pair.start.index as int] == v0);
                assert(after.vertices@[pair.end.index as int] == v1);
                assert(v0.point.index < before.points@.len());
                assert(v1.point.index < before.points@.len());
                assert(after.points@[v0.point.index as int] == before.points@[v0.point.index as int]);
                assert(after.points@[v1.point.index as int] == before.points@[v1.point.index as int]);
            },
        }
    }
}

} // verus!
