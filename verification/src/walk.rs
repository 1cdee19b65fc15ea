use crate::half_edge::{HalfEdge, HalfEdgeFace, HalfEdgeVertex};
use crate::mesh::HalfEdgeMesh;
use crate::pairing::pair_mutual;
use vstd::prelude::*;

verus! {

/// How a walk around a vertex ended.
#[derive(Clone, Copy, Debug, PartialEq, Eq, Structural)]
pub enum WalkEnd {
    /// The walk came back to the half-edge it started from.
    Closed,
    /// The walk reached a half-edge without a pair: the vertex lies on the
    /// boundary of the mesh.
    Boundary,
}

/// Entry `i` of `visited` is where `step` leads from the entry before it,
/// and is not the start.
pub open spec fn moves_on(
    step: spec_fn(usize) -> Option<usize>,
    start: usize,
    visited: Seq<usize>,
    i: int,
) -> bool {
    step(visited[i - 1]) == Some(visited[i]) && visited[i] != start
}

/// `visited` is the walk that starts at `start` and moves by `step`: it
/// holds `start` first, then each half-edge that `step` leads to, and ends
/// before the first step that would lead back to `start` (`closed`) or at
/// the first half-edge from which `step` leads nowhere (not `closed`).
pub open spec fn walk_from(
    step: spec_fn(usize) -> Option<usize>,
    start: usize,
    visited: Seq<usize>,
    closed: bool,
) -> bool {
    &&& visited.len() > 0
    &&& visited[0] == start
    &&& forall|i: int| 1 <= i < visited.len() ==> #[trigger] moves_on(step, start, visited, i)
    &&& if closed {
        step(visited.last()) == Some(start)
    } else {
        step(visited.last()) is None
    }
}

/// A walk is determined by where it starts and how it moves: two walks
/// over the same unchanged mesh visit the same half-edges in the same
/// order and end the same way.
pub proof fn lemma_walk_deterministic(
    step: spec_fn(usize) -> Option<usize>,
    start: usize,
    first: Seq<usize>,
    first_closed: bool,
    second: Seq<usize>,
    second_closed: bool,
)
    requires
        walk_from(step, start, first, first_closed),
        walk_from(step, start, second, second_closed),
    ensures
        first == second,
        first_closed == second_closed,
{
    lemma_walks_agree(step, start, first, first_closed, second, second_closed, first.len() as int);
    lemma_walks_agree(step, start, first, first_closed, second, second_closed, second.len() as int);
    if first.len() < second.len() {
        let k = first.len() as int;
        assert(first[k - 1] == second[k - 1]);
        assert(moves_on(step, start, second, k));
    } else if second.len() < first.len() {
        let k = second.len() as int;
        assert(first[k - 1] == second[k - 1]);
        assert(moves_on(step, start, first, k));
    } else {
        assert(first =~= second);
    }
}

/// Two walks from one start by one step agree as far as both go.
proof fn lemma_walks_agree(
    step: spec_fn(usize) -> Option<usize>,
    start: usize,
    first: Seq<usize>,
    first_closed: bool,
    second: Seq<usize>,
    second_closed: bool,
    upto: int,
)
    requires
        walk_from(step, start, first, first_closed),
        walk_from(step, start, second, second_closed),
        0 <= upto,
    ensures
        forall|i: int| 0 <= i < upto && i < first.len() && i < second.len() ==> first[i] == second[i],
    decreases upto,
{
    if upto > 0 {
        lemma_walks_agree(step, start, first, first_closed, second, second_closed, upto - 1);
        let i = upto - 1;
        if 1 <= i && i < first.len() && i < second.len() {
            assert(first[i - 1] == second[i - 1]);
            assert(moves_on(step, start, first, i));
            assert(moves_on(step, start, second, i));
        }
    }
}

/// A sequence of different numbers below `n` has at most `n` entries.
proof fn lemma_distinct_below(s: Seq<usize>, n: nat)
    requires
        s.no_duplicates(),
        forall|i: int| 0 <= i < s.len() ==> s[i] < n,
    ensures
        s.len() <= n,
    decreases n,
{
    if n == 0 {
        if s.len() > 0 {
            assert(s[0] < n);
        }
    } else if exists|i: int| 0 <= i < s.len() && s[i] == n - 1 {
        let i = choose|i: int| 0 <= i < s.len() && s[i] == n - 1;
        let rest = s.remove(i);
        assert forall|j: int| 0 <= j < rest.len() implies rest[j] < n - 1 by {
            if j < i {
                assert(rest[j] == s[j]);
            } else {
                assert(rest[j] == s[j + 1]);
            }
        }
        assert forall|j: int, k: int| 0 <= j < rest.len() && 0 <= k < rest.len() && j != k implies rest[j]
            != rest[k] by {
            let sj = if j < i { j } else { j + 1 };
            let sk = if k < i { k } else { k + 1 };
            assert(rest[j] == s[sj]);
            assert(rest[k] == s[sk]);
        }
        lemma_distinct_below(rest, (n - 1) as nat);
    } else {
        lemma_distinct_below(s, (n - 1) as nat);
    }
}

impl<T> HalfEdgeMesh<T> {
    /// The move of the walk around a face: to the next half-edge.
    pub open spec fn face_step(&self) -> spec_fn(usize) -> Option<usize> {
        |e: usize| self.edges@[e as int].next
    }

    /// The move of the walk around a vertex: across to the pair, then on to
    /// its successor, which leaves the same vertex. It leads nowhere from a
    /// half-edge without a pair.
    pub open spec fn vertex_step(&self) -> spec_fn(usize) -> Option<usize> {
        |e: usize|
            match self.edges@[e as int].pair {
                Some(p) => self.edges@[p as int].next,
                None => None,
            }
    }

    /// The three half-edges around a face, from `e` on.
    pub open spec fn face_cycle(&self, e: usize) -> Seq<usize> {
        seq![e, self.next_of(e as int) as usize, self.next_of(self.next_of(e as int)) as usize]
    }

    /// Around every face of a mesh that satisfies the invariant, the walk
    /// from the face's half-edge visits exactly three different half-edges,
    /// all bordering that face, and the third step leads back to the start.
    pub proof fn lemma_face_walk_closed(&self, f: int)
        requires
            self.wf(),
            0 <= f < self.faces@.len(),
        ensures
            self.faces@[f].edge is Some,
            ({
                let start = self.faces@[f].edge.unwrap();
                let cycle = self.face_cycle(start);
                &&& walk_from(self.face_step(), start, cycle, true)
                &&& cycle.len() == 3
                &&& cycle.no_duplicates()
                &&& self.next_of(cycle[2] as int) == start
                &&& forall|i: int|
                    0 <= i < 3 ==> cycle[i] < self.edges@.len() && self.edges@[cycle[i] as int].face
                        == Some(f as usize)
            }),
    {
        assert(self.face_anchored(f));
        let start = self.faces@[f].edge.unwrap();
        self.lemma_cycle_is_walk(start);
        let cycle = self.face_cycle(start);
        assert(self.on_triangle(cycle[0] as int));
        assert(self.on_triangle(cycle[1] as int));
    }

    /// In a mesh that satisfies the invariant the three half-edges from
    /// `start` on are different, and are the walk around the face.
    pub proof fn lemma_cycle_is_walk(&self, start: usize)
        requires
            self.wf(),
            start < self.edges@.len(),
        ensures
            walk_from(self.face_step(), start, self.face_cycle(start), true),
            self.face_cycle(start).no_duplicates(),
            forall|i: int| 0 <= i < 3 ==> self.face_cycle(start)[i] < self.edges@.len(),
    {
        let cycle = self.face_cycle(start);
        let a = start as int;
        let b = self.next_of(a);
        let c = self.next_of(b);
        assert(self.edges.len() == self.edges@.len());
        assert(self.on_triangle(a));
        assert(self.edges@[a].next is Some && 0 <= b < self.edges@.len());
        assert(self.on_triangle(b));
        assert(self.edges@[b].next is Some && 0 <= c < self.edges@.len());
        assert(self.on_triangle(c));
        assert(self.edges@[c].next is Some);
        assert(cycle[0] == a && cycle[1] == b && cycle[2] == c);
        assert(a != b && b != c && c != a);
        assert forall|i: int| 1 <= i < cycle.len() implies #[trigger] moves_on(
            self.face_step(),
            start,
            cycle,
            i,
        ) by {
            if i == 1 {
                assert(cycle[i - 1] == start);
            } else {
                assert(cycle[i - 1] == b);
            }
        }
        assert((self.face_step())(cycle.last()) == Some(start));
    }

    /// Across every pair link of a mesh that satisfies the invariant lies a
    /// half-edge whose own pair leads back, and which runs the other way:
    /// it starts where the first one ends, and ends where it starts.
    pub proof fn lemma_pair_symmetric(&self, e: int)
        requires
            self.wf(),
            0 <= e < self.edges@.len(),
            self.edges@[e].pair is Some,
        ensures
            ({
                let p = self.edges@[e].pair.unwrap() as int;
                &&& 0 <= p < self.edges@.len()
                &&& self.edges@[p].pair == Some(e as usize)
                &&& self.origin_of(p) == self.destination_of(e)
                &&& self.destination_of(p) == self.origin_of(e)
            }),
    {
        assert(self.edges.len() == self.edges@.len());
        assert(pair_mutual(self.edges@, e));
    }

    /// In a mesh that satisfies the invariant the move around a vertex
    /// never leads to one half-edge from two different ones.
    proof fn lemma_vertex_step_injective(&self, a: usize, b: usize)
        requires
            self.wf(),
            a < self.edges@.len(),
            b < self.edges@.len(),
            (self.vertex_step())(a) is Some,
            (self.vertex_step())(a) == (self.vertex_step())(b),
        ensures
            a == b,
    {
        let pa = self.edges@[a as int].pair.unwrap() as int;
        let pb = self.edges@[b as int].pair.unwrap() as int;
        assert(self.edges@[a as int].pair is Some);
        assert(self.edges@[b as int].pair is Some);
        assert(pair_mutual(self.edges@, a as int));
        assert(pair_mutual(self.edges@, b as int));
        assert(0 <= pa < self.edges@.len() && 0 <= pb < self.edges@.len());
        assert(self.on_triangle(pa));
        assert(self.on_triangle(pb));
        assert(self.edges@[pa].next is Some && self.edges@[pb].next is Some);
        assert(self.next_of(pa) == self.next_of(pb));
        assert(pa == pb);
        assert(self.edges@[pa].pair == Some(a));
        assert(self.edges@[pb].pair == Some(b));
    }
}

impl HalfEdgeFace {
    /// Walks around the face: starts at the face's half-edge, moves on by
    /// `next`, and stops when the next move would lead back to the start.
    /// `visitor` is called on each half-edge in turn; the positions of the
    /// half-edges are returned in the order of the visit. A face without a
    /// half-edge is not walked.
    pub fn visit_around_edge<T, F: Fn(&HalfEdge)>(
        &self,
        mesh: &HalfEdgeMesh<T>,
        visitor: F,
    ) -> (visited: Vec<usize>)
        requires
            mesh.wf(),
            match self.edge {
                Some(e) => e < mesh.edges@.len(),
                None => true,
            },
            forall|e: int| 0 <= e < mesh.edges@.len() ==> visitor.requires((&mesh.edges@[e],)),
        ensures
            match self.edge {
                Some(e) => visited@ == mesh.face_cycle(e) && walk_from(
                    mesh.face_step(),
                    e,
                    visited@,
                    true,
                ),
                None => visited@.len() == 0,
            },
            forall|i: int|
                0 <= i < visited@.len() ==> visited@[i] < mesh.edges@.len() && visitor.ensures(
                    (&mesh.edges@[visited@[i] as int],),
                    (),
                ),
    {
        let mut visited: Vec<usize> = Vec::new();
        let start = match self.edge {
            Some(e) => e,
            None => {
                return visited;
            },
        };
        proof {
            mesh.lemma_cycle_is_walk(start);
        }
        let ghost cycle = mesh.face_cycle(start);
        visitor(&mesh.edges[start]);
        visited.push(start);
        let mut cur = start;
        loop
            invariant
                self.edge == Some(start),
                start < mesh.edges@.len(),
                cycle == mesh.face_cycle(start),
                walk_from(mesh.face_step(), start, cycle, true),
                cycle.no_duplicates(),
                forall|i: int| 0 <= i < 3 ==> cycle[i] < mesh.edges@.len(),
                1 <= visited@.len() <= 3,
                visited@ == cycle.subrange(0, visited@.len() as int),
                cur == visited@.last(),
                forall|e: int| 0 <= e < mesh.edges@.len() ==> visitor.requires((&mesh.edges@[e],)),
                forall|i: int|
                    0 <= i < visited@.len() ==> visited@[i] < mesh.edges@.len()
                        && visitor.ensures((&mesh.edges@[visited@[i] as int],), ()),
            decreases 3 - visited@.len(),
        {
            let ghost at = visited@.len() as int;
            assert(cur == cycle[at - 1]);
            let succ = match mesh.edges[cur].next {
                Some(s) => s,
                None => {
                    assert(false) by {
                        if at < 3 {
                            assert(moves_on(mesh.face_step(), start, cycle, at));
                        }
                    }
                    unreached()
                },
            };
            if succ == start {
                proof {
                    if at < 3 {
                        assert(moves_on(mesh.face_step(), start, cycle, at));
                    }
                    assert(visited@ =~= cycle);
                }
                return visited;
            }
            proof {
                if at < 3 {
                    assert(moves_on(mesh.face_step(), start, cycle, at));
                }
            }
            visitor(&mesh.edges[succ]);
            visited.push(succ);
            cur = succ;
            assert(visited@ =~= cycle.subrange(0, at + 1));
        }
    }
}

impl<T> HalfEdgeVertex<T> {
    /// Walks around the vertex: starts at the vertex's outgoing half-edge,
    /// moves across the pair and on to its successor, and stops when the
    /// next move would lead back to the start, or at a half-edge without a
    /// pair. `visitor` is called on each half-edge in turn; the positions
    /// of the half-edges are returned in the order of the visit, with the
    /// way the walk ended. An isolated vertex is not walked.
    pub fn visit_around_edge_mut<F: Fn(&HalfEdge)>(
        &self,
        mesh: &HalfEdgeMesh<T>,
        visitor: F,
    ) -> (walk: (Vec<usize>, WalkEnd))
        requires
            mesh.wf(),
            match self.edge {
                Some(e) => e < mesh.edges@.len(),
                None => true,
            },
            forall|e: int| 0 <= e < mesh.edges@.len() ==> visitor.requires((&mesh.edges@[e],)),
        ensures
            match self.edge {
                Some(e) => walk_from(mesh.vertex_step(), e, walk.0@, walk.1 == WalkEnd::Closed),
                None => walk.0@.len() == 0 && walk.1 == WalkEnd::Closed,
            },
            walk.0@.no_duplicates(),
            forall|i: int|
                0 <= i < walk.0@.len() ==> walk.0@[i] < mesh.edges@.len() && visitor.ensures(
                    (&mesh.edges@[walk.0@[i] as int],),
                    (),
                ),
            forall|i: int|
                0 <= i < walk.0@.len() ==> mesh.edges@[(#[trigger] walk.0@[i]) as int].vert
                    == mesh.edges@[walk.0@[0] as int].vert,
    {
        let mut visited: Vec<usize> = Vec::new();
        let start = match self.edge {
            Some(e) => e,
            None => {
                return (visited, WalkEnd::Closed);
            },
        };
        visitor(&mesh.edges[start]);
        visited.push(start);
        let mut cur = start;
        proof {
            lemma_distinct_below(visited@, mesh.edges@.len());
        }
        loop
            invariant
                self.edge == Some(start),
                mesh.wf(),
                start < mesh.edges@.len(),
                visited@.len() > 0,
                visited@.len() <= mesh.edges@.len(),
                visited@[0] == start,
                cur == visited@.last(),
                visited@.no_duplicates(),
                forall|i: int|
                    1 <= i < visited@.len() ==> #[trigger] moves_on(
                        mesh.vertex_step(),
                        start,
                        visited@,
                        i,
                    ),
                forall|e: int| 0 <= e < mesh.edges@.len() ==> visitor.requires((&mesh.edges@[e],)),
                forall|i: int|
                    0 <= i < visited@.len() ==> visited@[i] < mesh.edges@.len()
                        && visitor.ensures((&mesh.edges@[visited@[i] as int],), ()),
                forall|i: int|
                    0 <= i < visited@.len() ==> mesh.edges@[(#[trigger] visited@[i]) as int].vert
                        == mesh.edges@[start as int].vert,
            decreases mesh.edges@.len() - visited@.len(),
        {
            let ghost seen = visited@;
            let across = match mesh.edges[cur].pair {
                Some(p) => p,
                None => {
                    return (visited, WalkEnd::Boundary);
                },
            };
            assert(pair_mutual(mesh.edges@, cur as int));
            assert(mesh.on_triangle(across as int));
            let succ = match mesh.edges[across].next {
                Some(s) => s,
                None => unreached(),
            };
            assert((mesh.vertex_step())(cur) == Some(succ));
            assert(mesh.edges@[succ as int].vert == mesh.edges@[cur as int].vert);
            if succ == start {
                return (visited, WalkEnd::Closed);
            }
            visitor(&mesh.edges[succ]);
            visited.push(succ);
            proof {
                assert forall|i: int, j: int|
                    0 <= i < visited@.len() && 0 <= j < visited@.len() && i != j implies visited@[i]
                    != visited@[j] by {
                    let last = seen.len() as int;
                    if i < last && j < last {
                        assert(seen[i] != seen[j]);
                    } else {
                        let k = if i < last { i } else { j };
                        assert(visited@[k] == seen[k]);
                        if seen[k] == succ {
                            assert(k >= 1);
                            assert(moves_on(mesh.vertex_step(), start, seen, k));
                            mesh.lemma_vertex_step_injective(cur, seen[k - 1]);
                            assert(seen[last - 1] == seen[k - 1]);
                        }
                    }
                }
                assert forall|i: int| 1 <= i < visited@.len() implies #[trigger] moves_on(
                    mesh.vertex_step(),
                    start,
                    visited@,
                    i,
                ) by {
                    if i < seen.len() {
                        assert(moves_on(mesh.vertex_step(), start, seen, i));
                    }
                }
                lemma_distinct_below(visited@, mesh.edges@.len());
            }
            cur = succ;
        }
    }
}

} // verus!
