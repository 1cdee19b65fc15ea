use crate::vector::Vector3;
use vstd::prelude::*;

verus! {

/// A directed edge of one triangle. Its cross references are positions in
/// the arenas of the mesh that owns it.
#[derive(Clone, Copy, Debug, PartialEq, Eq, Structural)]
pub struct HalfEdge {
    /// Vertex at the start of the half-edge.
    pub vert: usize,
    /// Oppositely oriented half-edge across the same geometric edge.
    pub pair: Option<usize>,
    /// Face that the half-edge borders.
    pub face: Option<usize>,
    /// Next half-edge around the face.
    pub next: Option<usize>,
}

/// A position and a normal, with one of the half-edges that leave the vertex.
#[derive(Clone, Copy, Debug)]
pub struct HalfEdgeVertex<T> {
    pub position: Vector3<T>,
    pub normal: Vector3<T>,
    /// One of the half-edges emanating from the vertex.
    pub edge: Option<usize>,
}

/// A face, known by one of the half-edges on its boundary.
#[derive(Clone, Copy, Debug, PartialEq, Eq, Structural)]
pub struct HalfEdgeFace {
    /// One of the half-edges bordering the face.
    pub edge: Option<usize>,
}

/// The vertex arena after vertex `v` was offered half-edge `e` as its
/// outgoing edge: the first offer is kept, later ones change nothing.
pub open spec fn adopt<T>(vs: Seq<HalfEdgeVertex<T>>, v: int, e: usize) -> Seq<HalfEdgeVertex<T>> {
    if vs[v].edge is None {
        vs.update(v, HalfEdgeVertex { position: vs[v].position, normal: vs[v].normal, edge: Some(e) })
    } else {
        vs
    }
}

impl HalfEdge {
    /// Creates the still unlinked half-edge that leaves vertex `from` and
    /// will be stored at position `id` of the edge arena. The origin vertex
    /// takes it as its outgoing edge unless it already has one.
    pub fn new<T>(from: usize, id: usize, vertices: &mut Vec<HalfEdgeVertex<T>>) -> (h: HalfEdge)
        requires
            from < old(vertices).len(),
        ensures
            h == (HalfEdge { vert: from, pair: None, face: None, next: None }),
            final(vertices)@ == adopt(old(vertices)@, from as int, id),
    {
        if vertices[from].edge.is_none() {
            vertices[from].edge = Some(id);
        }
        HalfEdge { vert: from, pair: None, face: None, next: None }
    }

    /// Sets the successor around the face and the face itself, leaving
    /// origin and pair as they were.
    pub fn connect_next_edge_for_face(&mut self, next: usize, face: usize) -> (linked: &mut Self)
        ensures
            *linked == (HalfEdge {
                vert: old(self).vert,
                pair: old(self).pair,
                face: Some(face),
                next: Some(next),
            }),
            *final(self) == *final(linked),
    {
        self.next = Some(next);
        self.face = Some(face);
        self
    }

    /// The vertex at which the half-edge starts.
    pub fn vert(&self) -> (v: usize)
        ensures
            v == self.vert,
    {
        self.vert
    }

    /// The next half-edge around the face; absent while the edge is unlinked.
    pub fn next(&self) -> (n: Option<usize>)
        ensures
            n == self.next,
    {
        self.next
    }

    /// The face that the half-edge borders; absent while the edge is unlinked.
    pub fn face(&self) -> (f: Option<usize>)
        ensures
            f == self.face,
    {
        self.face
    }

    /// The opposite half-edge; absent on a boundary edge.
    pub fn pair(&self) -> (p: Option<usize>)
        ensures
            p == self.pair,
    {
        self.pair
    }

    /// The origin vertex itself, for writing, out of the arena that holds
    /// it. What is written there is what the arena holds afterwards.
    pub fn vert_mut<'a, T>(&self, vertices: &'a mut Vec<HalfEdgeVertex<T>>) -> (v: &'a mut HalfEdgeVertex<
        T,
    >)
        requires
            self.vert < old(vertices).len(),
        ensures
            *v == old(vertices)@[self.vert as int],
            final(vertices)@ == old(vertices)@.update(self.vert as int, *final(v)),
    {
        &mut vertices[self.vert]
    }

    /// The next half-edge itself, for writing, out of the arena that holds
    /// it; absent while this half-edge is unlinked.
    pub fn next_mut<'a>(&self, edges: &'a mut Vec<HalfEdge>) -> (n: Option<&'a mut HalfEdge>)
        requires
            match self.next {
                Some(s) => s < old(edges).len(),
                None => true,
            },
        ensures
            match n {
                Some(h) => self.next is Some && *h == old(edges)@[self.next.unwrap() as int]
                    && final(edges)@ == old(edges)@.update(self.next.unwrap() as int, *final(h)),
                None => self.next is None && final(edges)@ == old(edges)@,
            },
    {
        match self.next {
            Some(s) => Some(&mut edges[s]),
            None => None,
        }
    }
}

impl<T> HalfEdgeVertex<T> {
    /// A vertex that no half-edge leaves yet.
    pub fn new(position: Vector3<T>, normal: Vector3<T>) -> (v: HalfEdgeVertex<T>)
        ensures
            v == (HalfEdgeVertex { position, normal, edge: None }),
    {
        HalfEdgeVertex { position, normal, edge: None }
    }

    /// The representative outgoing half-edge; absent on an isolated vertex.
    pub fn edge(&self) -> (e: Option<usize>)
        ensures
            e == self.edge,
    {
        self.edge
    }

    /// The outgoing half-edge itself, for writing, out of the arena that
    /// holds it; absent on an isolated vertex.
    pub fn edge_mut<'a>(&self, edges: &'a mut Vec<HalfEdge>) -> (h: Option<&'a mut HalfEdge>)
        requires
            match self.edge {
                Some(e) => e < old(edges).len(),
                None => true,
            },
        ensures
            match h {
                Some(out) => self.edge is Some && *out == old(edges)@[self.edge.unwrap() as int]
                    && final(edges)@ == old(edges)@.update(self.edge.unwrap() as int, *final(out)),
                None => self.edge is None && final(edges)@ == old(edges)@,
            },
    {
        match self.edge {
            Some(e) => Some(&mut edges[e]),
            None => None,
        }
    }

    /// Where the vertex lies.
    pub fn position(&self) -> (p: &Vector3<T>)
        ensures
            *p == self.position,
    {
        &self.position
    }

    /// The normal stored with the vertex.
    pub fn normal(&self) -> (n: &Vector3<T>)
        ensures
            *n == self.normal,
    {
        &self.normal
    }
}

impl HalfEdgeFace {
    /// The half-edge by which the face is known.
    pub fn edge(&self) -> (e: Option<usize>)
        ensures
            e == self.edge,
    {
        self.edge
    }
}

} // verus!
