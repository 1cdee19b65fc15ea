use half_edge_mesh::{HalfEdge, HalfEdgeMesh, MeshError, Vector3};

fn unit_normal() -> Vector3<f32> {
    Vector3::new(1.0, 0.0, 0.0)
}

fn flat_positions(count: usize) -> Vec<f32> {
    let mut out = Vec::new();
    for v in 0..count {
        out.push(v as f32);
        out.push(v as f32 + 0.25);
        out.push(v as f32 + 0.5);
    }
    out
}

fn tetrahedron() -> HalfEdgeMesh<f32> {
    let indices: Vec<u32> = vec![0, 1, 2, 0, 3, 1, 1, 3, 2, 2, 3, 0];
    match HalfEdgeMesh::from_geometry(&flat_positions(4), &indices, unit_normal()) {
        Ok(mesh) => mesh,
        Err(e) => panic!("tetrahedron refused: {}", e.message()),
    }
}

#[test]
fn single_triangle_has_three_boundary_half_edges() {
    let positions: Vec<f32> = vec![0.0, 0.0, 0.0, 1.0, 0.0, 0.0, 0.0, 1.0, 0.0];
    let indices: Vec<u32> = vec![0, 1, 2];
    let mesh = HalfEdgeMesh::from_geometry(&positions, &indices, unit_normal()).unwrap();
    assert_eq!(mesh.half_edge_count(), 3);
    assert_eq!(mesh.face_count(), 1);
    assert_eq!(mesh.vertex_count(), 3);
    assert_eq!(mesh.edges.iter().filter(|h| h.pair().is_some()).count(), 0);
    let walked = mesh.faces[0].visit_around_edge(&mesh, |_h: &HalfEdge| {});
    assert_eq!(walked, vec![0, 1, 2]);
}

#[test]
fn single_triangle_is_linked_as_a_cycle() {
    let indices: Vec<u32> = vec![0, 1, 2];
    let mesh = HalfEdgeMesh::from_geometry(&flat_positions(3), &indices, unit_normal()).unwrap();
    let expected = [
        HalfEdge { vert: 0, pair: None, face: Some(0), next: Some(1) },
        HalfEdge { vert: 1, pair: None, face: Some(0), next: Some(2) },
        HalfEdge { vert: 2, pair: None, face: Some(0), next: Some(0) },
    ];
    assert_eq!(mesh.edges, expected);
    assert_eq!(mesh.faces[0].edge(), Some(0));
    assert_eq!(mesh.vertices[0].edge(), Some(0));
    assert_eq!(mesh.vertices[1].edge(), Some(1));
    assert_eq!(mesh.vertices[2].edge(), Some(2));
}

#[test]
fn two_triangles_pair_their_shared_edge_only() {
    let indices: Vec<u32> = vec![0, 1, 2, 1, 0, 3];
    let mesh = HalfEdgeMesh::from_geometry(&flat_positions(4), &indices, unit_normal()).unwrap();
    assert_eq!(mesh.half_edge_count(), 6);
    assert_eq!(mesh.edges[0].pair(), Some(3));
    assert_eq!(mesh.edges[3].pair(), Some(0));
    for e in [1usize, 2, 4, 5] {
        assert_eq!(mesh.edges[e].pair(), None);
    }
    assert_eq!(mesh.edges[0].vert(), 0);
    assert_eq!(mesh.edges[3].vert(), 1);
}

#[test]
fn repeated_directed_edge_is_non_manifold() {
    let indices: Vec<u32> = vec![0, 1, 2, 0, 1, 3];
    let r = HalfEdgeMesh::from_geometry(&flat_positions(4), &indices, unit_normal());
    assert!(matches!(r, Err(MeshError::NonManifold)));
}

#[test]
fn same_triangle_twice_is_non_manifold() {
    let indices: Vec<u32> = vec![0, 1, 2, 0, 1, 2];
    let r = HalfEdgeMesh::from_geometry(&flat_positions(3), &indices, unit_normal());
    assert!(matches!(r, Err(MeshError::NonManifold)));
}

#[test]
fn triangle_of_one_vertex_is_non_manifold() {
    let indices: Vec<u32> = vec![1, 1, 1];
    let r = HalfEdgeMesh::from_geometry(&flat_positions(2), &indices, unit_normal());
    assert!(matches!(r, Err(MeshError::NonManifold)));
}

#[test]
fn repeated_edge_late_in_the_list_is_found() {
    let indices: Vec<u32> = vec![0, 1, 2, 0, 3, 1, 1, 3, 2, 2, 3, 0, 4, 3, 2];
    let r = HalfEdgeMesh::from_geometry(&flat_positions(5), &indices, unit_normal());
    assert!(matches!(r, Err(MeshError::NonManifold)));
}

#[test]
fn positions_that_are_no_triples_are_refused() {
    let positions: Vec<f32> = vec![0.0, 0.0, 0.0, 1.0];
    let indices: Vec<u32> = vec![];
    let r = HalfEdgeMesh::from_geometry(&positions, &indices, unit_normal());
    assert!(matches!(r, Err(MeshError::InputShape)));
}

#[test]
fn indices_that_are_no_triples_are_refused() {
    let indices: Vec<u32> = vec![0, 1, 2, 0];
    let r = HalfEdgeMesh::from_geometry(&flat_positions(3), &indices, unit_normal());
    assert!(matches!(r, Err(MeshError::InputShape)));
}

#[test]
fn index_without_a_vertex_is_refused() {
    let indices: Vec<u32> = vec![0, 1, 3];
    let r = HalfEdgeMesh::from_geometry(&flat_positions(3), &indices, unit_normal());
    assert!(matches!(r, Err(MeshError::InputShape)));
}

#[test]
fn shape_is_checked_before_manifoldness() {
    let indices: Vec<u32> = vec![0, 1, 2, 0, 1, 2, 7, 0, 1];
    let r = HalfEdgeMesh::from_geometry(&flat_positions(3), &indices, unit_normal());
    assert!(matches!(r, Err(MeshError::InputShape)));
}

#[test]
fn empty_input_gives_an_empty_mesh() {
    let positions: Vec<f32> = vec![];
    let indices: Vec<u32> = vec![];
    let mesh = HalfEdgeMesh::from_geometry(&positions, &indices, unit_normal()).unwrap();
    assert_eq!(mesh.vertex_count(), 0);
    assert_eq!(mesh.face_count(), 0);
    assert_eq!(mesh.half_edge_count(), 0);
}

#[test]
fn vertices_carry_their_position_and_the_normal() {
    let positions: Vec<f32> = vec![0.5, 1.5, 2.5, 3.5, 4.5, 5.5, 6.5, 7.5, 8.5];
    let indices: Vec<u32> = vec![0, 1, 2];
    let mesh =
        HalfEdgeMesh::from_geometry(&positions, &indices, Vector3::new(1.0, 0.0, 0.0)).unwrap();
    let v = mesh.vertex(1).unwrap();
    assert_eq!(v.position().x, 3.5);
    assert_eq!(v.position().y, 4.5);
    assert_eq!(v.position().z, 5.5);
    assert_eq!(v.normal().x, 1.0);
    assert_eq!(v.normal().y, 0.0);
    assert_eq!(v.normal().z, 0.0);
    assert!(mesh.vertex(3).is_none());
}

#[test]
fn vertex_keeps_the_first_half_edge_that_leaves_it() {
    let mesh = tetrahedron();
    assert_eq!(mesh.vertices[0].edge(), Some(0));
    assert_eq!(mesh.vertices[1].edge(), Some(1));
    assert_eq!(mesh.vertices[2].edge(), Some(2));
    assert_eq!(mesh.vertices[3].edge(), Some(4));
}

#[test]
fn unused_vertex_has_no_half_edge() {
    let indices: Vec<u32> = vec![0, 1, 3];
    let mesh = HalfEdgeMesh::from_geometry(&flat_positions(4), &indices, unit_normal()).unwrap();
    assert_eq!(mesh.vertices[2].edge(), None);
    assert_eq!(mesh.vertices[3].edge(), Some(2));
}

#[test]
fn counts_follow_the_triangle_count() {
    let mesh = tetrahedron();
    assert_eq!(mesh.face_count(), 4);
    assert_eq!(mesh.half_edge_count(), 12);
    assert_eq!(mesh.vertex_count(), 4);
    assert_eq!(mesh.edges.len(), 3 * mesh.faces.len());
}

#[test]
fn tetrahedron_pairs_every_half_edge() {
    let mesh = tetrahedron();
    let expected: [usize; 12] = [5, 8, 11, 10, 6, 0, 4, 9, 1, 7, 3, 2];
    for e in 0..12 {
        assert_eq!(mesh.edges[e].pair(), Some(expected[e]));
    }
}

#[test]
fn pairs_are_mutual_and_opposite() {
    let mesh = tetrahedron();
    for e in 0..mesh.half_edge_count() {
        let h = mesh.half_edge(e).unwrap();
        let p = h.pair().unwrap();
        let back = mesh.half_edge(p).unwrap();
        assert_eq!(back.pair(), Some(e));
        let destination = mesh.half_edge(h.next().unwrap()).unwrap().vert();
        assert_eq!(back.vert(), destination);
        let back_destination = mesh.half_edge(back.next().unwrap()).unwrap().vert();
        assert_eq!(back_destination, h.vert());
    }
}

#[test]
fn every_half_edge_names_its_face() {
    let mesh = tetrahedron();
    for e in 0..12 {
        assert_eq!(mesh.edges[e].face(), Some(e / 3));
    }
    for f in 0..4 {
        assert_eq!(mesh.face(f).unwrap().edge(), Some(3 * f));
    }
    assert!(mesh.face(4).is_none());
    assert!(mesh.half_edge(12).is_none());
}

#[test]
fn degenerate_triangle_pairs_inside_itself() {
    let indices: Vec<u32> = vec![0, 0, 1];
    let mesh = HalfEdgeMesh::from_geometry(&flat_positions(2), &indices, unit_normal()).unwrap();
    assert_eq!(mesh.edges[0].pair(), Some(0));
    assert_eq!(mesh.edges[1].pair(), Some(2));
    assert_eq!(mesh.edges[2].pair(), Some(1));
}

#[test]
fn error_messages_differ() {
    assert_eq!(MeshError::NonManifold.message(), "non-manifold geometry");
    assert_eq!(MeshError::InputShape.message(), "malformed position or index list");
}
