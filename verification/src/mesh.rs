use crate::half_edge::{HalfEdge, HalfEdgeFace, HalfEdgeVertex};
use crate::pairing::{directed_key, linked, pairs_consistent, reversed};
use vstd::prelude::*;

verus! {

/// A triangle mesh in half-edge form. The three arenas own every vertex,
/// face and half-edge; the references between them are arena positions.
#[derive(Debug)]
pub struct HalfEdgeMesh<T> {
    pub edges: Vec<HalfEdge>,
    pub faces: Vec<HalfEdgeFace>,
    pub vertices: Vec<HalfEdgeVertex<T>>,
}

impl<T> HalfEdgeMesh<T> {
    /// The half-edge that follows `e` around its face.
    pub open spec fn next_of(&self, e: int) -> int {
        self.edges@[e].next.unwrap() as int
    }

    /// The vertex at which half-edge `e` starts.
    pub open spec fn origin_of(&self, e: int) -> int {
        self.edges@[e].vert as int
    }

    /// The vertex at which half-edge `e` ends: the origin of its successor.
    pub open spec fn destination_of(&self, e: int) -> int {
        self.origin_of(self.next_of(e))
    }

    /// Half-edge `e` starts at a vertex of the mesh and lies on a cycle of
    /// exactly three half-edges that border one face of the mesh.
    pub open spec fn on_triangle(&self, e: int) -> bool {
        &&& self.edges@[e].vert < self.vertices@.len()
        &&& self.next_of(e) != e
        &&& self.next_of(self.next_of(self.next_of(e))) == e
        &&& match self.edges@[e].face {
            Some(f) => f < self.faces@.len() && self.edges@[self.next_of(e)].face == Some(f),
            None => false,
        }
    }

    /// Face `f` is known by one of the half-edges that border it.
    pub open spec fn face_anchored(&self, f: int) -> bool {
        match self.faces@[f].edge {
            Some(e) => e < self.edges@.len() && self.edges@[e as int].face == Some(f as usize),
            None => false,
        }
    }

    /// Vertex `v` refers to a half-edge that leaves it, or to none where no
    /// half-edge leaves it.
    pub open spec fn vertex_anchored(&self, v: int) -> bool {
        match self.vertices@[v].edge {
            Some(e) => e < self.edges@.len() && self.edges@[e as int].vert == v,
            None => forall|e: int|
                0 <= e < self.edges@.len() ==> (#[trigger] self.edges@[e]).vert != v,
        }
    }

    /// No two half-edges run from the same origin to the same destination.
    pub open spec fn edge_manifold(&self) -> bool {
        forall|a: int, b: int|
            0 <= a < b < self.edges@.len() ==> #[trigger] directed_key(self.edges@, a)
                != #[trigger] directed_key(self.edges@, b)
    }

    /// Where half-edge `e` has no pair, no half-edge runs the other way.
    pub open spec fn boundary_at(&self, e: int) -> bool {
        self.edges@[e].pair is None ==> forall|p: int|
            0 <= p < self.edges@.len() ==> #[trigger] directed_key(self.edges@, p) != reversed(
                directed_key(self.edges@, e),
            )
    }

    /// A half-edge without a pair is a boundary edge: no half-edge runs
    /// the other way.
    pub open spec fn boundary_unmatched(&self) -> bool {
        forall|e: int| 0 <= e < self.edges@.len() ==> #[trigger] self.boundary_at(e)
    }

    /// The invariant of a built mesh: three half-edges for each face, every
    /// half-edge linked into the triangle of its face, pair links mutual
    /// and between opposite directions, present exactly where an opposite
    /// half-edge exists, and no directed edge twice.
    pub open spec fn wf(&self) -> bool {
        &&& self.edges@.len() == 3 * self.faces@.len()
        &&& linked(self.edges@)
        &&& pairs_consistent(self.edges@)
        &&& forall|e: int| 0 <= e < self.edges@.len() ==> #[trigger] self.on_triangle(e)
        &&& forall|f: int| 0 <= f < self.faces@.len() ==> #[trigger] self.face_anchored(f)
        &&& forall|v: int| 0 <= v < self.vertices@.len() ==> #[trigger] self.vertex_anchored(v)
        &&& self.edge_manifold()
        &&& self.boundary_unmatched()
    }
}

impl<T> HalfEdgeMesh<T> {
    /// How many vertices the mesh has.
    pub fn vertex_count(&self) -> (n: usize)
        ensures
            n == self.vertices@.len(),
    {
        self.vertices.len()
    }

    /// How many faces the mesh has.
    pub fn face_count(&self) -> (n: usize)
        ensures
            n == self.faces@.len(),
    {
        self.faces.len()
    }

    /// How many half-edges the mesh has.
    pub fn half_edge_count(&self) -> (n: usize)
        ensures
            n == self.edges@.len(),
    {
        self.edges.len()
    }

    /// The vertex at position `v` of the vertex arena.
    pub fn vertex(&self, v: usize) -> (r: Option<&HalfEdgeVertex<T>>)
        ensures
            r == (if v < self.vertices@.len() {
                Some(&self.vertices@[v as int])
            } else {
                None
            }),
    {
        if v < self.vertices.len() {
            Some(&self.vertices[v])
        } else {
            None
        }
    }

    /// The face at position `f` of the face arena.
    pub fn face(&self, f: usize) -> (r: Option<&HalfEdgeFace>)
        ensures
            r == (if f < self.faces@.len() {
                Some(&self.faces@[f as int])
            } else {
                None
            }),
    {
        if f < self.faces.len() {
            Some(&self.faces[f])
        } else {
            None
        }
    }

    /// The half-edge at position `e` of the edge arena.
    pub fn half_edge(&self, e: usize) -> (r: Option<&HalfEdge>)
        ensures
            r == (if e < self.edges@.len() {
                Some(&self.edges@[e as int])
            } else {
                None
            }),
    {
        if e < self.edges.len() {
            Some(&self.edges[e])
        } else {
            None
        }
    }
}

} // verus!
