use vstd::prelude::*;

verus! {

/// Why a mesh could not be built.
#[derive(Clone, Copy, Debug, PartialEq, Eq, Structural)]
pub enum MeshError {
    /// The coordinate or index list is not a whole number of triples, or an
    /// index names a vertex that does not exist.
    InputShape,
    /// Two half-edges run from the same origin to the same destination.
    NonManifold,
}

impl MeshError {
    /// A short description of the failure.
    pub fn message(&self) -> (s: &'static str)
        ensures
            s@ == (match *self {
                MeshError::InputShape => "malformed position or index list"@,
                MeshError::NonManifold => "non-manifold geometry"@,
            }),
    {
        match self {
            MeshError::InputShape => "malformed position or index list",
            MeshError::NonManifold => "non-manifold geometry",
        }
    }
}

} // verus!
