use crate::error::MeshError;
use crate::face::{face_edge, tri_keys_free};
use crate::half_edge::{adopt, HalfEdge, HalfEdgeFace, HalfEdgeVertex};
use crate::mesh::HalfEdgeMesh;
use crate::pairing::{
    directed_key, index_matches, linked, pair_mutual, paired_by_index, pairs_consistent, reversed,
    same_links, DirectedKey, EdgePairFinder,
};
use crate::triangles::{
    check_input_shape, corner_key, corner_next, directed_edges_unique, input_shape_ok,
    lemma_corner_cycle,
};
use crate::vector::Vector3;
use vstd::prelude::*;

verus! {

/// `edge` is the first of the corners below `upto` that names vertex `v`,
/// and is absent where none of them does.
pub open spec fn first_outgoing(indices: Seq<u32>, upto: int, v: int, edge: Option<usize>) -> bool {
    match edge {
        Some(e) => e < upto && indices[e as int] == v && forall|d: int|
            0 <= d < e ==> (#[trigger] indices[d]) != v,
        None => forall|d: int| 0 <= d < upto ==> (#[trigger] indices[d]) != v,
    }
}

/// `pair` is the corner that starts the reverse of the directed edge of
/// corner `e`, and is absent where no corner does.
pub open spec fn opposite_corner(indices: Seq<u32>, e: int, pair: Option<usize>) -> bool {
    match pair {
        Some(p) => p < indices.len() && corner_key(indices, p as int) == reversed(
            corner_key(indices, e),
        ),
        None => forall|p: int|
            0 <= p < indices.len() ==> #[trigger] corner_key(indices, p) != reversed(
                corner_key(indices, e),
            ),
    }
}

/// What `from_geometry` makes of vertex `v`.
pub open spec fn vertex_built<T>(
    vertex: HalfEdgeVertex<T>,
    positions: Seq<T>,
    indices: Seq<u32>,
    normal: Vector3<T>,
    v: int,
) -> bool {
    &&& vertex.position == (Vector3 {
        x: positions[3 * v],
        y: positions[3 * v + 1],
        z: positions[3 * v + 2],
    })
    &&& vertex.normal == normal
    &&& first_outgoing(indices, indices.len() as int, v, vertex.edge)
}

/// What `from_geometry` makes of corner `e`.
pub open spec fn edge_built(edge: HalfEdge, indices: Seq<u32>, e: int) -> bool {
    &&& edge.vert == indices[e]
    &&& edge.next == Some(corner_next(e) as usize)
    &&& edge.face == Some((e / 3) as usize)
    &&& opposite_corner(indices, e, edge.pair)
}

impl<T> HalfEdgeMesh<T> {
    /// The mesh is the half-edge form of the triangle list: vertex `v` sits
    /// at the `v`-th position triple, carries `normal` and refers to the
    /// first corner that names it; corner `e` is half-edge `e`, of face
    /// `e / 3`, followed by the next corner of its triangle and paired with
    /// the corner of the reverse edge; face `f` is known by half-edge `3f`.
    pub open spec fn built_from(
        &self,
        positions: Seq<T>,
        indices: Seq<u32>,
        normal: Vector3<T>,
    ) -> bool {
        &&& self.vertices@.len() == positions.len() / 3
        &&& forall|v: int|
            0 <= v < self.vertices@.len() ==> vertex_built(
                #[trigger] self.vertices@[v],
                positions,
                indices,
                normal,
                v,
            )
        &&& self.edges@.len() == indices.len()
        &&& forall|e: int|
            0 <= e < self.edges@.len() ==> edge_built(#[trigger] self.edges@[e], indices, e)
        &&& self.faces@.len() == indices.len() / 3
        &&& forall|f: int|
            0 <= f < self.faces@.len() ==> (#[trigger] self.faces@[f]).edge == Some(
                (3 * f) as usize,
            )
    }
}

impl<T: Copy> HalfEdgeMesh<T> {
    /// Builds the mesh of an indexed triangle list. `positions` holds the
    /// coordinates of the vertices, three for each; `indices` holds the
    /// corners of the triangles, three for each; every vertex gets
    /// `normal`.
    ///
    /// Lists that are no whole number of triples, or an index without a
    /// vertex, are refused as `InputShape`. Well-shaped input in which two
    /// corners start the same directed edge is refused as `NonManifold`.
    /// All other input gives the mesh that `built_from` describes.
    pub fn from_geometry(positions: &Vec<T>, indices: &Vec<u32>, normal: Vector3<T>) -> (r: Result<
        Self,
        MeshError,
    >)
        ensures
            match r {
                Ok(mesh) => {
                    &&& input_shape_ok(positions@.len(), indices@)
                    &&& directed_edges_unique(indices@)
                    &&& mesh.built_from(positions@, indices@, normal)
                    &&& mesh.wf()
                    &&& mesh.faces@.len() == indices@.len() / 3
                    &&& mesh.edges@.len() == 3 * (indices@.len() / 3)
                },
                Err(MeshError::InputShape) => !input_shape_ok(positions@.len(), indices@),
                Err(MeshError::NonManifold) => input_shape_ok(positions@.len(), indices@)
                    && !directed_edges_unique(indices@),
            },
    {
        if !check_input_shape(positions.len(), indices) {
            return Err(MeshError::InputShape);
        }
        let mut vertices = vertices_from_positions(positions, normal);
        let mut faces: Vec<HalfEdgeFace> = Vec::new();
        let mut edges: Vec<HalfEdge> = Vec::new();
        let mut edge_pairs = EdgePairFinder::new();

        let triangles = indices.len() / 3;
        let mut f: usize = 0;
        while f < triangles
            invariant
                f <= triangles,
                triangles == indices@.len() / 3,
                input_shape_ok(positions@.len(), indices@),
                corners_linked(edges@, indices@, 3 * f),
                vertices_linked(vertices@, positions@, indices@, normal, 3 * f),
                index_matches(edge_pairs@, edges@),
                faces@.len() == f,
                forall|k: int|
                    0 <= k < f ==> (#[trigger] faces@[k]).edge == Some((3 * k) as usize),
            decreases triangles - f,
        {
            assert(3 * f + 2 < indices.len());
            let v1 = indices[3 * f] as usize;
            let v2 = indices[3 * f + 1] as usize;
            let v3 = indices[3 * f + 2] as usize;
            let ghost old_edges = edges@;
            let ghost old_vertices = vertices@;
            let ghost old_index = edge_pairs@;
            proof {
                lemma_corner_keys(old_edges, indices@, 3 * f);
            }
            match HalfEdgeFace::new_tri(
                v1,
                v2,
                v3,
                faces.len(),
                &mut vertices,
                &mut edges,
                &mut edge_pairs,
            ) {
                Ok(face) => {
                    faces.push(face);
                    proof {
                        lemma_triangle_linked(old_edges, edges@, indices@, 3 * f);
                        lemma_triangle_indexed(old_index, edge_pairs@, old_edges, edges@, indices@, 3 * f);
                        lemma_triangle_adopted(
                            old_vertices,
                            vertices@,
                            positions@,
                            indices@,
                            normal,
                            3 * f,
                        );
                    }
                },
                Err(e) => {
                    proof {
                        lemma_taken_key_repeats(old_index, old_edges, indices@, 3 * f);
                    }
                    return Err(e);
                },
            }
            f += 1;
        }
        proof {
            lemma_index_shows_unique(edge_pairs@, edges@, indices@);
            lemma_corner_keys(edges@, indices@, indices@.len() as int);
        }
        let ghost unpaired = edges@;
        edge_pairs.find_edge_pairs(&mut edges);
        let mesh = HalfEdgeMesh { edges, faces, vertices };
        proof {
            lemma_pairs_are_opposite(edge_pairs@, unpaired, mesh.edges@, indices@);
            mesh.lemma_built_is_wf(positions@, indices@, normal);
        }
        Ok(mesh)
    }
}

impl<T> HalfEdgeMesh<T> {
    /// A mesh that is the half-edge form of a well-shaped triangle list
    /// without repeated directed edges satisfies the mesh invariant.
    pub proof fn lemma_built_is_wf(
        &self,
        positions: Seq<T>,
        indices: Seq<u32>,
        normal: Vector3<T>,
    )
        requires
            input_shape_ok(positions.len(), indices),
            directed_edges_unique(indices),
            self.built_from(positions, indices, normal),
        ensures
            self.wf(),
    {
        let edges = self.edges@;
        assert(self.edges.len() == edges.len());
        lemma_built_keys(edges, indices);
        lemma_built_pairs(edges, indices);
        assert forall|e: int| 0 <= e < edges.len() implies #[trigger] self.on_triangle(e) by {
            lemma_corner_cycle(e, edges.len() as int);
            let a = corner_next(e);
            assert(edge_built(edges[e], indices, e));
            assert(edge_built(edges[a], indices, a));
            assert(edge_built(edges[corner_next(a)], indices, corner_next(a)));
        }
        assert forall|f: int| 0 <= f < self.faces@.len() implies #[trigger] self.face_anchored(
            f,
        ) by {
            assert(self.faces@[f].edge == Some((3 * f) as usize));
            assert(edge_built(edges[3 * f], indices, 3 * f));
        }
        assert forall|v: int| 0 <= v < self.vertices@.len() implies #[trigger] self.vertex_anchored(
            v,
        ) by {
            assert(vertex_built(self.vertices@[v], positions, indices, normal, v));
            match self.vertices@[v].edge {
                Some(e) => {
                    assert(edge_built(edges[e as int], indices, e as int));
                },
                None => {
                    assert forall|e: int| 0 <= e < edges.len() implies (#[trigger] edges[e]).vert
                        != v by {
                        assert(edge_built(edges[e], indices, e));
                        assert(indices[e] != v);
                    }
                },
            }
        }
        assert(self.edge_manifold()) by {
            assert forall|a: int, b: int| 0 <= a < b < edges.len() implies #[trigger] directed_key(
                edges,
                a,
            ) != #[trigger] directed_key(edges, b) by {
                assert(corner_key(indices, a) != corner_key(indices, b));
            }
        }
        assert forall|e: int| 0 <= e < edges.len() implies #[trigger] self.boundary_at(e) by {
            assert(edge_built(edges[e], indices, e));
            assert(directed_key(edges, e) == corner_key(indices, e));
            if edges[e].pair is None {
                assert forall|p: int| 0 <= p < edges.len() implies #[trigger] directed_key(edges, p)
                    != reversed(directed_key(edges, e)) by {
                    assert(corner_key(indices, p) != reversed(corner_key(indices, e)));
                }
            }
        }
    }
}

/// Every half-edge of the arena is what `from_geometry` makes of its
/// corner.
spec fn edges_built(edges: Seq<HalfEdge>, indices: Seq<u32>) -> bool {
    &&& edges.len() == indices.len()
    &&& edges.len() <= usize::MAX
    &&& indices.len() % 3 == 0
    &&& forall|e: int| 0 <= e < edges.len() ==> edge_built(#[trigger] edges[e], indices, e)
}

/// In a built arena every half-edge has its successor in the arena, and
/// its directed key is the directed edge of its corner.
proof fn lemma_built_keys(edges: Seq<HalfEdge>, indices: Seq<u32>)
    requires
        edges_built(edges, indices),
    ensures
        linked(edges),
        forall|e: int|
            0 <= e < edges.len() ==> #[trigger] directed_key(edges, e) == corner_key(indices, e),
{
    assert forall|e: int| 0 <= e < edges.len() implies #[trigger] directed_key(edges, e)
        == corner_key(indices, e) && edges[e].next == Some(corner_next(e) as usize) && 0
        <= corner_next(e) < edges.len() by {
        lemma_corner_cycle(e, edges.len() as int);
        let c = corner_next(e);
        assert(edge_built(edges[e], indices, e));
        assert(edge_built(edges[c], indices, c));
    }
    assert forall|e: int| 0 <= e < edges.len() implies match (#[trigger] edges[e]).next {
        Some(s) => s < edges.len(),
        None => false,
    } by {
        assert(directed_key(edges, e) == corner_key(indices, e));
    }
}

/// In a built arena without repeated directed edges the pair links are
/// mutual.
proof fn lemma_built_pairs(edges: Seq<HalfEdge>, indices: Seq<u32>)
    requires
        edges_built(edges, indices),
        directed_edges_unique(indices),
    ensures
        pairs_consistent(edges),
{
    lemma_built_keys(edges, indices);
    assert forall|e: int| 0 <= e < edges.len() implies #[trigger] pair_mutual(edges, e) by {
        assert(edge_built(edges[e], indices, e));
        assert(directed_key(edges, e) == corner_key(indices, e));
        match edges[e].pair {
            Some(p) => {
                let p = p as int;
                assert(edge_built(edges[p], indices, p));
                assert(directed_key(edges, p) == corner_key(indices, p));
                match edges[p].pair {
                    Some(q) => {
                        let q = q as int;
                        assert(corner_key(indices, q) == corner_key(indices, e));
                        if q < e {
                            assert(corner_key(indices, q) != corner_key(indices, e));
                        } else if e < q {
                            assert(corner_key(indices, e) != corner_key(indices, q));
                        }
                    },
                    None => {
                        assert(corner_key(indices, e) != reversed(corner_key(indices, p)));
                    },
                }
            },
            None => {},
        }
    }
}

/// One vertex per position triple, each with the given normal and without
/// an outgoing edge.
pub fn vertices_from_positions<T: Copy>(positions: &Vec<T>, normal: Vector3<T>) -> (vertices: Vec<
    HalfEdgeVertex<T>,
>)
    ensures
        vertices@.len() == positions@.len() / 3,
        forall|v: int|
            0 <= v < vertices@.len() ==> #[trigger] vertices@[v] == (HalfEdgeVertex {
                position: Vector3 {
                    x: positions@[3 * v],
                    y: positions@[3 * v + 1],
                    z: positions@[3 * v + 2],
                },
                normal,
                edge: None,
            }),
{
    let count = positions.len() / 3;
    let mut vertices: Vec<HalfEdgeVertex<T>> = Vec::new();
    let mut v: usize = 0;
    while v < count
        invariant
            v <= count,
            count == positions@.len() / 3,
            vertices@.len() == v,
            forall|u: int|
                0 <= u < v ==> #[trigger] vertices@[u] == (HalfEdgeVertex {
                    position: Vector3 {
                        x: positions@[3 * u],
                        y: positions@[3 * u + 1],
                        z: positions@[3 * u + 2],
                    },
                    normal,
                    edge: None,
                }),
        decreases count - v,
    {
        assert(3 * v + 2 < positions.len());
        let vert = HalfEdgeVertex::new(
            Vector3::new(positions[3 * v], positions[3 * v + 1], positions[3 * v + 2]),
            normal,
        );
        vertices.push(vert);
        v += 1;
    }
    vertices
}

/// The first `upto` corners are in the edge arena, linked and unpaired.
spec fn corners_linked(edges: Seq<HalfEdge>, indices: Seq<u32>, upto: int) -> bool {
    &&& edges.len() == upto
    &&& forall|e: int|
        0 <= e < upto ==> #[trigger] edges[e] == face_edge(
            indices[e] as usize,
            (e / 3) as usize,
            corner_next(e),
        )
}

/// Each vertex has its position triple and the normal, and refers to the
/// first of the corners below `upto` that names it.
spec fn vertices_linked<T>(
    vertices: Seq<HalfEdgeVertex<T>>,
    positions: Seq<T>,
    indices: Seq<u32>,
    normal: Vector3<T>,
    upto: int,
) -> bool {
    &&& vertices.len() == positions.len() / 3
    &&& forall|v: int|
        0 <= v < vertices.len() ==> {
            &&& (#[trigger] vertices[v]).position == (Vector3 {
                x: positions[3 * v],
                y: positions[3 * v + 1],
                z: positions[3 * v + 2],
            })
            &&& vertices[v].normal == normal
            &&& first_outgoing(indices, upto, v, vertices[v].edge)
        }
}

/// In an arena of linked corners the directed key of a half-edge is the
/// directed edge of its corner.
proof fn lemma_corner_keys(edges: Seq<HalfEdge>, indices: Seq<u32>, upto: int)
    requires
        corners_linked(edges, indices, upto),
        0 <= upto <= indices.len(),
        upto <= usize::MAX,
        upto % 3 == 0,
    ensures
        linked(edges),
        pairs_consistent(edges),
        forall|e: int|
            0 <= e < upto ==> #[trigger] directed_key(edges, e) == corner_key(indices, e),
{
    assert forall|e: int| 0 <= e < upto implies #[trigger] directed_key(edges, e) == corner_key(
        indices,
        e,
    ) && 0 <= corner_next(e) < upto by {
        let n = corner_next(e);
        assert(0 <= n < upto);
        assert(edges[e].next == Some(n as usize));
        assert(edges[n].vert == indices[n] as usize);
    }
    assert forall|e: int| 0 <= e < edges.len() implies match (#[trigger] edges[e]).next {
        Some(n) => n < edges.len(),
        None => false,
    } by {
        assert(0 <= corner_next(e) < upto);
    }
}

/// An index that matches an arena of linked corners shows that no two of
/// those corners start the same directed edge.
proof fn lemma_index_shows_unique(
    index: Map<DirectedKey, usize>,
    edges: Seq<HalfEdge>,
    indices: Seq<u32>,
)
    requires
        corners_linked(edges, indices, indices.len() as int),
        indices.len() % 3 == 0,
        indices.len() <= usize::MAX,
        index_matches(index, edges),
    ensures
        directed_edges_unique(indices),
{
    lemma_corner_keys(edges, indices, indices.len() as int);
    assert forall|a: int, b: int| 0 <= a < b < indices.len() implies #[trigger] corner_key(
        indices,
        a,
    ) != #[trigger] corner_key(indices, b) by {
        assert(directed_key(edges, a) == corner_key(indices, a));
        assert(directed_key(edges, b) == corner_key(indices, b));
        assert(index[directed_key(edges, a)] == a);
        assert(index[directed_key(edges, b)] == b);
    }
}

/// Appending the three half-edges of the triangle at corner `at` keeps the
/// arena an arena of linked corners.
proof fn lemma_triangle_linked(
    before: Seq<HalfEdge>,
    after: Seq<HalfEdge>,
    indices: Seq<u32>,
    at: int,
)
    requires
        corners_linked(before, indices, at),
        at % 3 == 0,
        0 <= at,
        at + 3 <= indices.len(),
        at + 3 <= usize::MAX,
        after == before.push(face_edge(indices[at] as usize, (at / 3) as usize, at + 1)).push(
            face_edge(indices[at + 1] as usize, (at / 3) as usize, at + 2),
        ).push(face_edge(indices[at + 2] as usize, (at / 3) as usize, at)),
    ensures
        corners_linked(after, indices, at + 3),
{
    assert forall|e: int| 0 <= e < at + 3 implies #[trigger] after[e] == face_edge(
        indices[e] as usize,
        (e / 3) as usize,
        corner_next(e),
    ) by {
        if e < at {
            assert(after[e] == before[e]);
        }
    }
}

/// Recording the three directed edges of the triangle at corner `at` keeps
/// the index matching the arena.
proof fn lemma_triangle_indexed(
    index: Map<DirectedKey, usize>,
    grown: Map<DirectedKey, usize>,
    before: Seq<HalfEdge>,
    after: Seq<HalfEdge>,
    indices: Seq<u32>,
    at: int,
)
    requires
        corners_linked(before, indices, at),
        corners_linked(after, indices, at + 3),
        at % 3 == 0,
        0 <= at,
        at + 3 <= indices.len(),
        at + 3 <= usize::MAX,
        index_matches(index, before),
        tri_keys_free(index, indices[at] as usize, indices[at + 1] as usize, indices[at + 2] as usize),
        grown == index.insert((indices[at] as usize, indices[at + 1] as usize), at as usize).insert(
            (indices[at + 1] as usize, indices[at + 2] as usize),
            (at + 1) as usize,
        ).insert((indices[at + 2] as usize, indices[at] as usize), (at + 2) as usize),
    ensures
        index_matches(grown, after),
{
    lemma_corner_keys(before, indices, at);
    lemma_corner_keys(after, indices, at + 3);
    assert(corner_next(at) == at + 1);
    assert(corner_next(at + 1) == at + 2);
    assert(corner_next(at + 2) == at);
    assert forall|e: int| 0 <= e < after.len() implies grown.contains_key(
        #[trigger] directed_key(after, e),
    ) && grown[directed_key(after, e)] == e by {
        assert(directed_key(after, e) == corner_key(indices, e));
        if e < at {
            assert(directed_key(before, e) == corner_key(indices, e));
            assert(index.contains_key(directed_key(before, e)));
        }
    }
    assert forall|k: DirectedKey| #[trigger] grown.contains_key(k) implies grown[k] < after.len()
        && directed_key(after, grown[k] as int) == k by {
        if index.contains_key(k) {
            let e = index[k] as int;
            assert(directed_key(before, e) == k);
            assert(directed_key(after, e) == corner_key(indices, e));
        } else {
            assert(directed_key(after, at) == corner_key(indices, at));
            assert(directed_key(after, at + 1) == corner_key(indices, at + 1));
            assert(directed_key(after, at + 2) == corner_key(indices, at + 2));
        }
    }
}

/// Offering the three new half-edges to their origins keeps every vertex
/// referring to the first corner that names it.
proof fn lemma_triangle_adopted<T>(
    before: Seq<HalfEdgeVertex<T>>,
    after: Seq<HalfEdgeVertex<T>>,
    positions: Seq<T>,
    indices: Seq<u32>,
    normal: Vector3<T>,
    at: int,
)
    requires
        vertices_linked(before, positions, indices, normal, at),
        0 <= at,
        at + 3 <= indices.len(),
        at + 3 <= usize::MAX,
        indices[at] < before.len(),
        indices[at + 1] < before.len(),
        indices[at + 2] < before.len(),
        after == adopt(
            adopt(adopt(before, indices[at] as int, at as usize), indices[at + 1] as int, (at + 1) as usize),
            indices[at + 2] as int,
            (at + 2) as usize,
        ),
    ensures
        vertices_linked(after, positions, indices, normal, at + 3),
{
    let one = adopt(before, indices[at] as int, at as usize);
    let two = adopt(one, indices[at + 1] as int, (at + 1) as usize);
    assert forall|v: int| 0 <= v < after.len() implies {
        &&& (#[trigger] after[v]).position == (Vector3 {
            x: positions[3 * v],
            y: positions[3 * v + 1],
            z: positions[3 * v + 2],
        })
        &&& after[v].normal == normal
        &&& first_outgoing(indices, at + 3, v, after[v].edge)
    } by {
        assert(first_outgoing(indices, at, v, before[v].edge));
        assert(first_outgoing(indices, at + 1, v, one[v].edge));
        assert(first_outgoing(indices, at + 2, v, two[v].edge));
    }
}

/// Where a directed edge of the triangle at corner `at` is taken already,
/// two corners of the index list start the same directed edge.
proof fn lemma_taken_key_repeats(
    index: Map<DirectedKey, usize>,
    edges: Seq<HalfEdge>,
    indices: Seq<u32>,
    at: int,
)
    requires
        corners_linked(edges, indices, at),
        at % 3 == 0,
        0 <= at,
        at + 3 <= indices.len(),
        at + 3 <= usize::MAX,
        index_matches(index, edges),
        !tri_keys_free(index, indices[at] as usize, indices[at + 1] as usize, indices[at + 2] as usize),
    ensures
        !directed_edges_unique(indices),
{
    lemma_corner_keys(edges, indices, at);
    assert(corner_next(at) == at + 1);
    assert(corner_next(at + 1) == at + 2);
    assert(corner_next(at + 2) == at);
    let k0 = corner_key(indices, at);
    let k1 = corner_key(indices, at + 1);
    let k2 = corner_key(indices, at + 2);
    if index.contains_key(k0) {
        let a = index[k0] as int;
        assert(directed_key(edges, a) == corner_key(indices, a));
        assert(corner_key(indices, a) == corner_key(indices, at));
    } else if index.contains_key(k1) {
        let a = index[k1] as int;
        assert(directed_key(edges, a) == corner_key(indices, a));
        assert(corner_key(indices, a) == corner_key(indices, at + 1));
    } else if index.contains_key(k2) {
        let a = index[k2] as int;
        assert(directed_key(edges, a) == corner_key(indices, a));
        assert(corner_key(indices, a) == corner_key(indices, at + 2));
    } else {
        assert(corner_key(indices, at) == corner_key(indices, at + 1));
    }
}

/// Pairs resolved through an index that matches the arena join each corner
/// with the corner of the reverse edge.
proof fn lemma_pairs_are_opposite(
    index: Map<DirectedKey, usize>,
    unpaired: Seq<HalfEdge>,
    paired: Seq<HalfEdge>,
    indices: Seq<u32>,
)
    requires
        corners_linked(unpaired, indices, indices.len() as int),
        indices.len() % 3 == 0,
        indices.len() <= usize::MAX,
        index_matches(index, unpaired),
        same_links(unpaired, paired),
        forall|e: int| 0 <= e < paired.len() ==> #[trigger] paired_by_index(index, paired, e),
    ensures
        forall|e: int| 0 <= e < paired.len() ==> edge_built(#[trigger] paired[e], indices, e),
{
    lemma_corner_keys(unpaired, indices, indices.len() as int);
    assert forall|e: int| 0 <= e < paired.len() implies #[trigger] directed_key(paired, e)
        == corner_key(indices, e) by {
        let n = corner_next(e);
        assert(0 <= n < paired.len());
        assert(paired[e].next == unpaired[e].next);
        assert(paired[n].vert == unpaired[n].vert);
        assert(directed_key(unpaired, e) == corner_key(indices, e));
    }
    assert forall|e: int| 0 <= e < paired.len() implies edge_built(
        #[trigger] paired[e],
        indices,
        e,
    ) by {
        assert(paired_by_index(index, paired, e));
        assert(paired[e].vert == unpaired[e].vert);
        assert(directed_key(paired, e) == corner_key(indices, e));
        let back = reversed(corner_key(indices, e));
        match paired[e].pair {
            Some(p) => {
                assert(directed_key(unpaired, p as int) == back);
                assert(directed_key(unpaired, p as int) == corner_key(indices, p as int));
            },
            None => {
                assert forall|p: int| 0 <= p < indices.len() implies #[trigger] corner_key(
                    indices,
                    p,
                ) != back by {
                    assert(directed_key(unpaired, p) == corner_key(indices, p));
                    assert(index.contains_key(directed_key(unpaired, p)));
                }
            },
        }
    }
}

} // verus!
