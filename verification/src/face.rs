use crate::error::MeshError;
use crate::half_edge::{adopt, HalfEdge, HalfEdgeFace, HalfEdgeVertex};
use crate::pairing::{DirectedKey, EdgePairFinder};
use vstd::prelude::*;

verus! {

/// None of the three directed edges of the triangle `v1 v2 v3` is in the
/// index, and the three are not one and the same edge.
pub open spec fn tri_keys_free(
    index: Map<DirectedKey, usize>,
    v1: usize,
    v2: usize,
    v3: usize,
) -> bool {
    &&& !index.contains_key((v1, v2))
    &&& !index.contains_key((v2, v3))
    &&& !index.contains_key((v3, v1))
    &&& !(v1 == v2 && v2 == v3)
}

/// A half-edge of a finished face: linked, and not yet paired.
pub open spec fn face_edge(vert: usize, face: usize, next: int) -> HalfEdge {
    HalfEdge { vert, pair: None, face: Some(face), next: Some(next as usize) }
}

impl HalfEdgeFace {
    /// Adds the triangle `v1 v2 v3` as face number `face`: three half-edges
    /// `v1 -> v2`, `v2 -> v3`, `v3 -> v1` are appended to the edge arena,
    /// linked into a cycle and recorded in the index, and each origin
    /// vertex that has no outgoing edge yet takes its own. The face is
    /// known by the first of the three.
    ///
    /// Where one of the three directed edges exists already the triangle is
    /// refused, and arenas and index stay as they were.
    pub fn new_tri<T>(
        v1: usize,
        v2: usize,
        v3: usize,
        face: usize,
        vertices: &mut Vec<HalfEdgeVertex<T>>,
        edges: &mut Vec<HalfEdge>,
        edge_pairs: &mut EdgePairFinder,
    ) -> (r: Result<HalfEdgeFace, MeshError>)
        requires
            v1 < old(vertices).len(),
            v2 < old(vertices).len(),
            v3 < old(vertices).len(),
        ensures
            match r {
                Ok(f) => {
                    let n = old(edges)@.len() as int;
                    &&& tri_keys_free(old(edge_pairs)@, v1, v2, v3)
                    &&& n + 3 <= usize::MAX
                    &&& f == (HalfEdgeFace { edge: Some(n as usize) })
                    &&& final(edges)@ == old(edges)@.push(face_edge(v1, face, n + 1)).push(
                        face_edge(v2, face, n + 2),
                    ).push(face_edge(v3, face, n))
                    &&& final(vertices)@ == adopt(
                        adopt(adopt(old(vertices)@, v1 as int, n as usize), v2 as int, (n + 1) as usize),
                        v3 as int,
                        (n + 2) as usize,
                    )
                    &&& final(edge_pairs)@ == old(edge_pairs)@.insert((v1, v2), n as usize).insert(
                        (v2, v3),
                        (n + 1) as usize,
                    ).insert((v3, v1), (n + 2) as usize)
                },
                Err(e) => {
                    &&& e == MeshError::NonManifold
                    &&& !tri_keys_free(old(edge_pairs)@, v1, v2, v3)
                    &&& final(edges)@ == old(edges)@
                    &&& final(vertices)@ == old(vertices)@
                    &&& final(edge_pairs)@ == old(edge_pairs)@
                },
            },
    {
        if (v1 == v2 && v2 == v3) || edge_pairs.contains((v1, v2)) || edge_pairs.contains((v2, v3))
            || edge_pairs.contains((v3, v1)) {
            return Err(MeshError::NonManifold);
        }
        let e12 = edges.len();
        edges.push(HalfEdge::new(v1, e12, vertices));
        let e23 = edges.len();
        edges.push(HalfEdge::new(v2, e23, vertices));
        let e31 = edges.len();
        edges.push(HalfEdge::new(v3, e31, vertices));

        // The three keys were found free above, so none of them is refused.
        match edge_pairs.insert((v1, v2), e12) {
            Ok(_) => {},
            Err(_) => unreached(),
        }
        match edge_pairs.insert((v2, v3), e23) {
            Ok(_) => {},
            Err(_) => unreached(),
        }
        match edge_pairs.insert((v3, v1), e31) {
            Ok(_) => {},
            Err(_) => unreached(),
        }

        edges[e12].connect_next_edge_for_face(e23, face);
        edges[e23].connect_next_edge_for_face(e31, face);
        edges[e31].connect_next_edge_for_face(e12, face);
        assert(edges.len() == e12 + 3);
        assert(edges@ =~= old(edges)@.push(face_edge(v1, face, e12 + 1)).push(
            face_edge(v2, face, e12 + 2),
        ).push(face_edge(v3, face, e12 as int)));
        Ok(HalfEdgeFace { edge: Some(e12) })
    }
}

} // verus!
