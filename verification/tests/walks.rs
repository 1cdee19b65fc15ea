use half_edge_mesh::{HalfEdge, HalfEdgeFace, HalfEdgeMesh, HalfEdgeVertex, Vector3, WalkEnd};
use std::cell::RefCell;

fn positions_for(count: usize) -> Vec<f32> {
    let mut out = Vec::new();
    for v in 0..count {
        out.push(v as f32);
        out.push(0.0);
        out.push(1.0);
    }
    out
}

fn mesh_of(vertices: usize, indices: Vec<u32>) -> HalfEdgeMesh<f32> {
    HalfEdgeMesh::from_geometry(&positions_for(vertices), &indices, Vector3::new(1.0, 0.0, 0.0))
        .unwrap()
}

fn closed_tetrahedron() -> HalfEdgeMesh<f32> {
    mesh_of(4, vec![0, 1, 2, 0, 3, 1, 1, 3, 2, 2, 3, 0])
}

#[test]
fn face_walk_visits_three_half_edges_and_closes() {
    let mesh = closed_tetrahedron();
    for f in 0..mesh.face_count() {
        let walked = mesh.faces[f].visit_around_edge(&mesh, |_h: &HalfEdge| {});
        assert_eq!(walked, vec![3 * f, 3 * f + 1, 3 * f + 2]);
        let last = mesh.edges[walked[2]];
        assert_eq!(last.next(), Some(walked[0]));
        for e in walked {
            assert_eq!(mesh.edges[e].face(), Some(f));
        }
    }
}

#[test]
fn face_walk_calls_the_visitor_in_order() {
    let mesh = closed_tetrahedron();
    let origins: RefCell<Vec<usize>> = RefCell::new(Vec::new());
    let walked = mesh.faces[1].visit_around_edge(&mesh, |h: &HalfEdge| {
        origins.borrow_mut().push(h.vert());
    });
    assert_eq!(walked, vec![3, 4, 5]);
    assert_eq!(origins.into_inner(), vec![0, 3, 1]);
}

#[test]
fn face_walk_twice_gives_the_same_sequence() {
    let mesh = closed_tetrahedron();
    let first = mesh.faces[2].visit_around_edge(&mesh, |_h: &HalfEdge| {});
    let second = mesh.faces[2].visit_around_edge(&mesh, |_h: &HalfEdge| {});
    assert_eq!(first, second);
}

#[test]
fn face_without_half_edge_is_not_walked() {
    let mesh = closed_tetrahedron();
    let face = HalfEdgeFace { edge: None };
    let count = RefCell::new(0);
    let walked = face.visit_around_edge(&mesh, |_h: &HalfEdge| {
        *count.borrow_mut() += 1;
    });
    assert!(walked.is_empty());
    assert_eq!(count.into_inner(), 0);
}

#[test]
fn vertex_walk_closes_inside_a_closed_mesh() {
    let mesh = closed_tetrahedron();
    let (walked, end) = mesh.vertices[0].visit_around_edge_mut(&mesh, |_h: &HalfEdge| {});
    assert_eq!(walked, vec![0, 3, 11]);
    assert_eq!(end, WalkEnd::Closed);
    let (walked, end) = mesh.vertices[3].visit_around_edge_mut(&mesh, |_h: &HalfEdge| {});
    assert_eq!(walked, vec![4, 7, 10]);
    assert_eq!(end, WalkEnd::Closed);
}

#[test]
fn vertex_walk_visits_only_half_edges_that_leave_the_vertex() {
    let mesh = closed_tetrahedron();
    for v in 0..mesh.vertex_count() {
        let origins: RefCell<Vec<usize>> = RefCell::new(Vec::new());
        let (walked, end) = mesh.vertices[v].visit_around_edge_mut(&mesh, |h: &HalfEdge| {
            origins.borrow_mut().push(h.vert());
        });
        assert_eq!(end, WalkEnd::Closed);
        assert_eq!(walked.len(), 3);
        assert_eq!(origins.into_inner(), vec![v, v, v]);
    }
}

#[test]
fn vertex_walk_stops_at_the_boundary_of_a_single_triangle() {
    let mesh = mesh_of(3, vec![0, 1, 2]);
    for v in 0..3 {
        let (walked, end) = mesh.vertices[v].visit_around_edge_mut(&mesh, |_h: &HalfEdge| {});
        assert_eq!(walked, vec![v]);
        assert_eq!(end, WalkEnd::Boundary);
    }
}

#[test]
fn vertex_walk_crosses_the_shared_edge_then_stops() {
    let mesh = mesh_of(4, vec![0, 1, 2, 1, 0, 3]);
    let (walked, end) = mesh.vertices[0].visit_around_edge_mut(&mesh, |_h: &HalfEdge| {});
    assert_eq!(walked, vec![0, 4]);
    assert_eq!(end, WalkEnd::Boundary);
    let (walked, end) = mesh.vertices[1].visit_around_edge_mut(&mesh, |_h: &HalfEdge| {});
    assert_eq!(walked, vec![1]);
    assert_eq!(end, WalkEnd::Boundary);
}

#[test]
fn vertex_walk_twice_gives_the_same_sequence() {
    let mesh = mesh_of(4, vec![0, 1, 2, 1, 0, 3]);
    let first = mesh.vertices[0].visit_around_edge_mut(&mesh, |_h: &HalfEdge| {});
    let second = mesh.vertices[0].visit_around_edge_mut(&mesh, |_h: &HalfEdge| {});
    assert_eq!(first, second);
    let closed = closed_tetrahedron();
    let first = closed.vertices[2].visit_around_edge_mut(&closed, |_h: &HalfEdge| {});
    let second = closed.vertices[2].visit_around_edge_mut(&closed, |_h: &HalfEdge| {});
    assert_eq!(first, second);
}

#[test]
fn isolated_vertex_is_not_walked() {
    let mesh = mesh_of(4, vec![0, 1, 2]);
    assert_eq!(mesh.vertices[3].edge(), None);
    let (walked, end) = mesh.vertices[3].visit_around_edge_mut(&mesh, |_h: &HalfEdge| {});
    assert!(walked.is_empty());
    assert_eq!(end, WalkEnd::Closed);
    let lone = HalfEdgeVertex::new(Vector3::new(0.0f32, 0.0, 0.0), Vector3::new(1.0, 0.0, 0.0));
    let (walked, _) = lone.visit_around_edge_mut(&mesh, |_h: &HalfEdge| {});
    assert!(walked.is_empty());
}

#[test]
fn vertex_walk_around_a_degenerate_triangle() {
    let mesh = mesh_of(2, vec![0, 0, 1]);
    let (walked, end) = mesh.vertices[0].visit_around_edge_mut(&mesh, |_h: &HalfEdge| {});
    assert_eq!(walked, vec![0, 1]);
    assert_eq!(end, WalkEnd::Closed);
}
