use crate::pairing::DirectedKey;
use vstd::prelude::*;

verus! {

/// The corner that follows corner `e` inside its triangle: corners
/// `3f, 3f + 1, 3f + 2` are followed by `3f + 1, 3f + 2, 3f`.
pub open spec fn corner_next(e: int) -> int {
    3 * (e / 3) + (e + 1) % 3
}

/// The directed edge that starts at corner `e` of the index list.
pub open spec fn corner_key(indices: Seq<u32>, e: int) -> DirectedKey {
    (indices[e] as usize, indices[corner_next(e)] as usize)
}

/// Both lists are whole numbers of triples, and every index names one of
/// the `coords / 3` vertices.
pub open spec fn input_shape_ok(coords: nat, indices: Seq<u32>) -> bool {
    &&& coords % 3 == 0
    &&& indices.len() % 3 == 0
    &&& forall|i: int| 0 <= i < indices.len() ==> (#[trigger] indices[i]) < coords / 3
}

/// No two corners start the same directed edge.
pub open spec fn directed_edges_unique(indices: Seq<u32>) -> bool {
    forall|a: int, b: int|
        0 <= a < b < indices.len() ==> #[trigger] corner_key(indices, a) != #[trigger] corner_key(
            indices,
            b,
        )
}

/// The corners of one triangle follow each other in a cycle of three.
pub proof fn lemma_corner_cycle(e: int, n: int)
    requires
        0 <= e < n,
        n % 3 == 0,
    ensures
        0 <= corner_next(e) < n,
        corner_next(e) != e,
        corner_next(e) / 3 == e / 3,
        corner_next(corner_next(corner_next(e))) == e,
{
    let f = e / 3;
    if e % 3 == 0 {
        assert(corner_next(e) == 3 * f + 1);
        assert(corner_next(3 * f + 1) == 3 * f + 2);
        assert(corner_next(3 * f + 2) == 3 * f);
    } else if e % 3 == 1 {
        assert(corner_next(e) == 3 * f + 2);
        assert(corner_next(3 * f + 2) == 3 * f);
        assert(corner_next(3 * f) == 3 * f + 1);
    } else {
        assert(corner_next(e) == 3 * f);
        assert(corner_next(3 * f) == 3 * f + 1);
        assert(corner_next(3 * f + 1) == 3 * f + 2);
    }
}

/// Tells whether both lists are whole numbers of triples and every index
/// names an existing vertex.
pub fn check_input_shape(coords: usize, indices: &Vec<u32>) -> (ok: bool)
    ensures
        ok == input_shape_ok(coords as nat, indices@),
{
    if coords % 3 != 0 || indices.len() % 3 != 0 {
        return false;
    }
    let count = coords / 3;
    let mut i: usize = 0;
    while i < indices.len()
        invariant
            i <= indices@.len(),
            count == coords / 3,
            forall|j: int| 0 <= j < i ==> (#[trigger] indices@[j]) < count,
        decreases indices@.len() - i,
    {
        if indices[i] as usize >= count {
            return false;
        }
        i += 1;
    }
    true
}

} // verus!
