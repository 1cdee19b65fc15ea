//! A half-edge mesh built from an indexed triangle list.
//!
//! Vertices, faces and half-edges live in three arenas owned by the mesh;
//! every cross reference between them is a position in one of those arenas.

pub mod construct;
pub mod error;
pub mod face;
pub mod half_edge;
pub mod mesh;
pub mod pairing;
pub mod triangles;
pub mod vector;
pub mod walk;

pub use error::MeshError;
pub use half_edge::{HalfEdge, HalfEdgeFace, HalfEdgeVertex};
pub use mesh::HalfEdgeMesh;
pub use pairing::EdgePairFinder;
pub use vector::Vector3;
pub use walk::WalkEnd;
