use crate::error::MeshError;
use crate::half_edge::HalfEdge;
use std::collections::HashMap;
use vstd::prelude::*;

verus! {

/// An ordered pair of vertices: the origin and the destination of a
/// half-edge.
pub type DirectedKey = (usize, usize);

/// The same geometric edge walked the other way.
pub open spec fn reversed(k: DirectedKey) -> DirectedKey {
    (k.1, k.0)
}

/// Every half-edge has a successor, and the successor is in the arena.
pub open spec fn linked(edges: Seq<HalfEdge>) -> bool {
    forall|e: int|
        0 <= e < edges.len() ==> match (#[trigger] edges[e]).next {
            Some(n) => n < edges.len(),
            None => false,
        }
}

/// Origin and destination of half-edge `e`; the destination is the origin
/// of its successor.
pub open spec fn directed_key(edges: Seq<HalfEdge>, e: int) -> DirectedKey {
    (edges[e].vert, edges[edges[e].next.unwrap() as int].vert)
}

/// The index holds exactly the directed keys of the arena, each mapped to
/// the position of the half-edge that has it. Two half-edges can then not
/// share a key.
pub open spec fn index_matches(index: Map<DirectedKey, usize>, edges: Seq<HalfEdge>) -> bool {
    &&& forall|e: int|
        0 <= e < edges.len() ==> index.contains_key(#[trigger] directed_key(edges, e))
            && index[directed_key(edges, e)] == e
    &&& forall|k: DirectedKey| #[trigger]
        index.contains_key(k) ==> index[k] < edges.len() && directed_key(edges, index[k] as int)
            == k
}

/// The pair link of half-edge `e`, where present, is mutual and joins two
/// half-edges of opposite direction.
pub open spec fn pair_mutual(edges: Seq<HalfEdge>, e: int) -> bool {
    match edges[e].pair {
        Some(p) => p < edges.len() && edges[p as int].pair == Some(e as usize) && directed_key(
            edges,
            p as int,
        ) == reversed(directed_key(edges, e)),
        None => true,
    }
}

/// Every pair link that is present is mutual and joins two half-edges of
/// opposite direction.
pub open spec fn pairs_consistent(edges: Seq<HalfEdge>) -> bool {
    forall|e: int| 0 <= e < edges.len() ==> #[trigger] pair_mutual(edges, e)
}

/// Half-edge `e` of `after` has the origin, successor and face it had in
/// `before`.
pub open spec fn same_links(before: Seq<HalfEdge>, after: Seq<HalfEdge>) -> bool {
    &&& after.len() == before.len()
    &&& forall|e: int|
        0 <= e < before.len() ==> (#[trigger] after[e]).vert == before[e].vert && after[e].next
            == before[e].next && after[e].face == before[e].face
}

/// Half-edge `e` is paired with the half-edge that the index holds for the
/// reversed key, mutually, and is unpaired where the index holds none.
pub open spec fn paired_by_index(index: Map<DirectedKey, usize>, edges: Seq<HalfEdge>, e: int) -> bool {
    let back = reversed(directed_key(edges, e));
    match edges[e].pair {
        Some(p) => index.contains_key(back) && index[back] == p && p < edges.len()
            && edges[p as int].pair == Some(e as usize),
        None => !index.contains_key(back),
    }
}

/// The number by which a directed key is stored: the origin in the upper
/// half of a 128-bit word, the destination in the lower.
spec fn key_code(k: DirectedKey) -> u128 {
    (k.0 * 0x1_0000_0000_0000_0000 + k.1) as u128
}

/// Different keys have different codes.
proof fn lemma_key_code_injective(a: DirectedKey, b: DirectedKey)
    requires
        key_code(a) == key_code(b),
    ensures
        a == b,
{
}

/// Maps the directed key of each half-edge created so far to that
/// half-edge, to find opposite half-edges once all faces exist.
#[derive(Debug)]
pub struct EdgePairFinder(HashMap<u128, usize>);

impl View for EdgePairFinder {
    type V = Map<DirectedKey, usize>;

    closed spec fn view(&self) -> Map<DirectedKey, usize> {
        Map::new(
            |k: DirectedKey| self.0@.contains_key(key_code(k)),
            |k: DirectedKey| self.0@[key_code(k)],
        )
    }
}

fn encode(k: DirectedKey) -> (code: u128)
    ensures
        code == key_code(k),
{
    (k.0 as u128) * 0x1_0000_0000_0000_0000u128 + (k.1 as u128)
}

impl EdgePairFinder {
    /// An index that holds no key.
    pub fn new() -> (finder: Self)
        ensures
            finder@ == Map::<DirectedKey, usize>::empty(),
    {
        let finder = EdgePairFinder(HashMap::new());
        assert(finder@ =~= Map::<DirectedKey, usize>::empty());
        finder
    }

    /// Whether a half-edge with key `k` was recorded.
    pub fn contains(&self, k: DirectedKey) -> (found: bool)
        ensures
            found == self@.contains_key(k),
    {
        let code = encode(k);
        self.0.contains_key(&code)
    }

    /// The half-edge recorded under key `k`.
    pub fn get(&self, k: DirectedKey) -> (found: Option<usize>)
        ensures
            found == (if self@.contains_key(k) {
                Some(self@[k])
            } else {
                None
            }),
    {
        let code = encode(k);
        match self.0.get(&code) {
            Some(e) => Some(*e),
            None => None,
        }
    }

    /// Records half-edge `v` under key `k`. A key that is already present
    /// is refused and the index stays as it was: two half-edges with one
    /// origin and one destination make the geometry non-manifold.
    pub fn insert(&mut self, k: DirectedKey, v: usize) -> (r: Result<(), MeshError>)
        ensures
            match r {
                Ok(_) => !old(self)@.contains_key(k) && final(self)@ == old(self)@.insert(k, v),
                Err(e) => e == MeshError::NonManifold && old(self)@.contains_key(k) && final(self)@
                    == old(self)@,
            },
    {
        let code = encode(k);
        if self.0.contains_key(&code) {
            return Err(MeshError::NonManifold);
        }
        let _ = self.0.insert(code, v);
        proof {
            assert forall|j: DirectedKey| j != k implies key_code(j) != key_code(k) by {
                if key_code(j) == key_code(k) {
                    lemma_key_code_injective(j, k);
                }
            }
            assert(self@ =~= old(self)@.insert(k, v));
        }
        Ok(())
    }

    /// Resolves the pair links: every half-edge that lacks a pair and whose
    /// reversed key is in the index is joined with the half-edge recorded
    /// there, in both directions. A half-edge whose reversed key is absent
    /// stays a boundary edge.
    pub fn find_edge_pairs(&self, edges: &mut Vec<HalfEdge>)
        requires
            linked(old(edges)@),
            index_matches(self@, old(edges)@),
            pairs_consistent(old(edges)@),
        ensures
            same_links(old(edges)@, final(edges)@),
            forall|e: int|
                0 <= e < final(edges)@.len() ==> #[trigger] paired_by_index(
                    self@,
                    final(edges)@,
                    e,
                ),
    {
        let n = edges.len();
        let mut i: usize = 0;
        while i < n
            invariant
                i <= n,
                n == edges@.len(),
                same_links(old(edges)@, edges@),
                linked(edges@),
                index_matches(self@, edges@),
                pairs_consistent(edges@),
                forall|e: int| 0 <= e < i ==> #[trigger] paired_by_index(self@, edges@, e),
            decreases n - i,
        {
            let ghost before = edges@;
            if edges[i].pair.is_none() {
                let succ = match edges[i].next {
                    Some(s) => s,
                    None => unreached(),
                };
                let back = (edges[succ].vert, edges[i].vert);
                assert(back == reversed(directed_key(before, i as int)));
                match self.get(back) {
                    Some(p) => {
                        assert(directed_key(before, p as int) == back);
                        edges[i].pair = Some(p);
                        edges[p].pair = Some(i);
                    },
                    None => {},
                }
            }
            proof {
                let after = edges@;
                assert forall|e: int| 0 <= e < n implies directed_key(after, e) == directed_key(
                    before,
                    e,
                ) by {
                    assert(after[e].vert == before[e].vert);
                    assert(after[e].next == before[e].next);
                }
                assert(index_matches(self@, after));
                assert(pair_mutual(before, i as int));
                assert forall|e: int| 0 <= e < n implies #[trigger] pair_mutual(after, e) by {
                    assert(pair_mutual(before, e));
                    if let Some(p) = after[i as int].pair {
                        assert(pair_mutual(before, p as int));
                    }
                    if let Some(q) = before[e].pair {
                        assert(pair_mutual(before, q as int));
                    }
                }
                assert forall|e: int| 0 <= e < i + 1 implies #[trigger] paired_by_index(
                    self@,
                    after,
                    e,
                ) by {
                    assert(pair_mutual(after, e));
                    if e < i {
                        assert(paired_by_index(self@, before, e));
                    }
                }
            }
            i += 1;
        }
    }
}

} // verus!
