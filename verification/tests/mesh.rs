use term_games::mesh::builder::origins_in_range;
use term_games::mesh::{Face, HalfEdge, HalfEdgeMesh, HalfEdgeVertex, MeshError, TriangleFace};
use term_games::shapes::{cube_corner_table, cube_edge_table, cube_face_table, Cube, SceneObject};

fn cube_mesh() -> HalfEdgeMesh<(u8, u8, u8)> {
    let cube = Cube::new([0.0f32, 0.0, 0.0], [1.0f32, 1.0, 1.0], [0.0f32, 0.0, 0.0, 1.0]);
    cube.get_half_edge_mesh().expect("the cube is manifold")
}

fn rotations(face: &[usize]) -> Vec<Vec<usize>> {
    (0..face.len())
        .map(|shift| {
            let mut turned = face[shift..].to_vec();
            turned.extend_from_slice(&face[..shift]);
            turned
        })
        .collect()
}

fn edge(from: usize, to: usize, twin: usize, next: usize, prev: usize) -> HalfEdge {
    HalfEdge {
        from_vertex_index: from,
        to_vertex_index: to,
        twin_edge_index: twin,
        next_index: next,
        prev_index: prev,
    }
}

/// Two triangles glued back to back: a closed surface with two faces.
fn pillow_tables() -> (Vec<(usize, usize)>, Vec<Vec<usize>>) {
    (
        vec![(0, 1), (1, 2), (2, 0), (1, 0), (0, 2), (2, 1)],
        vec![vec![0, 1, 2], vec![3, 4, 5]],
    )
}

#[test]
fn cube_has_eight_vertices_and_twenty_four_half_edges() {
    let mesh = cube_mesh();
    assert_eq!(mesh.vertices.len(), 8);
    assert_eq!(mesh.half_edges.len(), 24);
    assert_eq!(mesh.vertices[0].position, (0, 0, 0));
    assert_eq!(mesh.vertices[3].position, (1, 1, 1));
    assert_eq!(mesh.vertices[7].position, (0, 1, 0));
}

#[test]
fn cube_tables_have_the_documented_shape() {
    assert_eq!(cube_corner_table().len(), 8);
    let edges = cube_edge_table();
    assert_eq!(edges.len(), 24);
    assert_eq!(edges[0], (0, 1));
    assert_eq!(edges[19], (6, 5));
    assert_eq!(edges[23], (7, 2));
    let groups = cube_face_table();
    assert_eq!(groups.len(), 6);
    assert_eq!(groups[0], vec![0, 1, 2, 3]);
    assert_eq!(groups[5], vec![20, 21, 22, 23]);
}

#[test]
fn cube_faces_are_the_six_known_quadrilaterals() {
    let mesh = cube_mesh();
    let faces = mesh.get_faces().expect("every loop of the cube closes");
    assert_eq!(faces.len(), 6);
    for face in &faces {
        assert_eq!(face.vertices.len(), 4);
    }
    let known: [[usize; 4]; 6] = [
        [0, 1, 2, 7],
        [5, 0, 7, 4],
        [0, 5, 6, 1],
        [1, 6, 3, 2],
        [5, 4, 3, 6],
        [2, 3, 4, 7],
    ];
    for expected in known.iter() {
        let turns = rotations(expected);
        let hits = faces.iter().filter(|face| turns.contains(&face.vertices)).count();
        assert_eq!(hits, 1, "face {:?} must occur once", expected);
    }
}

#[test]
fn cube_faces_come_in_order_of_their_lowest_half_edge() {
    let mesh = cube_mesh();
    let faces = mesh.get_faces().unwrap();
    let loops: Vec<Vec<usize>> = faces.into_iter().map(|face| face.vertices).collect();
    assert_eq!(
        loops,
        vec![
            vec![1, 2, 7, 0],
            vec![0, 7, 4, 5],
            vec![5, 6, 1, 0],
            vec![6, 3, 2, 1],
            vec![4, 3, 6, 5],
            vec![3, 4, 7, 2],
        ]
    );
}

#[test]
fn cube_face_entries_add_up_to_the_half_edge_count() {
    let mesh = cube_mesh();
    let faces = mesh.get_faces().unwrap();
    let total: usize = faces.iter().map(|face| face.vertices.len()).sum();
    assert_eq!(total, mesh.half_edges.len());
}

#[test]
fn cube_triangles_are_twelve_with_distinct_corners() {
    let mesh = cube_mesh();
    let triangles = mesh.get_triangles().expect("the cube is well formed");
    assert_eq!(triangles.len(), 12);
    for triangle in &triangles {
        let [a, b, c] = triangle.vertices;
        assert!(a != b && b != c && a != c);
        assert!(a <= 7 && b <= 7 && c <= 7);
    }
    assert_eq!(triangles[0], TriangleFace { vertices: [1, 2, 7] });
    assert_eq!(triangles[1], TriangleFace { vertices: [1, 7, 0] });
    assert_eq!(triangles[11], TriangleFace { vertices: [3, 7, 2] });
}

#[test]
fn cube_twins_are_symmetric() {
    let mesh = cube_mesh();
    for (index, half_edge) in mesh.half_edges.iter().enumerate() {
        let twin = &mesh.half_edges[half_edge.twin_edge_index];
        assert_eq!(twin.twin_edge_index, index);
        assert_eq!(twin.from_vertex_index, half_edge.to_vertex_index);
        assert_eq!(twin.to_vertex_index, half_edge.from_vertex_index);
    }
    assert_eq!(mesh.half_edges[0].twin_edge_index, 11);
    assert_eq!(mesh.half_edges[9].twin_edge_index, 19);
}

#[test]
fn cube_next_and_prev_undo_each_other() {
    let mesh = cube_mesh();
    for (index, half_edge) in mesh.half_edges.iter().enumerate() {
        assert_eq!(mesh.half_edges[half_edge.prev_index].next_index, index);
        assert_eq!(mesh.half_edges[half_edge.next_index].prev_index, index);
    }
    assert_eq!(mesh.half_edges[3].next_index, 0);
    assert_eq!(mesh.half_edges[4].prev_index, 7);
    assert_eq!(mesh.half_edges[5].next_index, 6);
}

#[test]
fn cube_vertices_list_their_outgoing_half_edges() {
    let mesh = cube_mesh();
    assert_eq!(mesh.vertices[0].incident_half_edge_indices, vec![0, 5, 8]);
    assert_eq!(mesh.vertices[6].incident_half_edge_indices, vec![10, 13, 19]);
    for (v, vertex) in mesh.vertices.iter().enumerate() {
        assert_eq!(vertex.incident_half_edge_indices.len(), 3);
        for &e in &vertex.incident_half_edge_indices {
            assert_eq!(mesh.half_edges[e].from_vertex_index, v);
        }
    }
}

#[test]
fn build_keeps_positions_of_any_type() {
    let (edges, groups) = pillow_tables();
    let positions = vec![[0.0f32, 0.0, 0.0], [1.0, 0.0, 0.0], [0.0, 1.0, 0.5]];
    let mesh = HalfEdgeMesh::build(positions, &edges, &groups).unwrap();
    assert_eq!(mesh.vertices[2].position, [0.0, 1.0, 0.5]);
    assert_eq!(mesh.vertices[1].incident_half_edge_indices, vec![1, 3]);
    assert_eq!(mesh.half_edges[2], edge(2, 0, 4, 0, 1));
    assert_eq!(mesh.half_edges[3], edge(1, 0, 0, 4, 5));
    let faces = mesh.get_faces().unwrap();
    assert_eq!(
        faces,
        vec![Face { vertices: vec![1, 2, 0] }, Face { vertices: vec![0, 2, 1] }]
    );
}

#[test]
fn build_rejects_an_edge_without_reverse() {
    let edges = vec![(0, 1), (1, 2), (2, 0), (1, 0), (0, 2)];
    let groups = vec![vec![0, 1, 2], vec![3, 4]];
    let built = HalfEdgeMesh::build(vec![(), (), ()], &edges, &groups);
    assert_eq!(built.err(), Some(MeshError::MeshMalformed));
}

#[test]
fn build_rejects_an_edge_with_two_reverses() {
    let edges = vec![(0, 1), (1, 0), (1, 0)];
    let groups = vec![vec![0], vec![1], vec![2]];
    let built = HalfEdgeMesh::build(vec![(), ()], &edges, &groups);
    assert_eq!(built.err(), Some(MeshError::MeshMalformed));
}

#[test]
fn build_rejects_a_lone_self_loop() {
    let edges = vec![(0, 0)];
    let groups = vec![vec![0]];
    let built = HalfEdgeMesh::build(vec![()], &edges, &groups);
    assert_eq!(built.err(), Some(MeshError::MeshMalformed));
}

#[test]
fn build_rejects_groups_that_miss_an_edge() {
    let (edges, _) = pillow_tables();
    let groups = vec![vec![0, 1, 2], vec![3, 4]];
    let built = HalfEdgeMesh::build(vec![(), (), ()], &edges, &groups);
    assert_eq!(built.err(), Some(MeshError::TopologyCycle));
}

#[test]
fn build_rejects_groups_that_repeat_an_edge() {
    let (edges, _) = pillow_tables();
    let groups = vec![vec![0, 1, 2], vec![3, 4, 5, 0]];
    let built = HalfEdgeMesh::build(vec![(), (), ()], &edges, &groups);
    assert_eq!(built.err(), Some(MeshError::TopologyCycle));
}

#[test]
fn build_rejects_groups_that_name_a_missing_edge() {
    let (edges, _) = pillow_tables();
    let groups = vec![vec![0, 1, 2], vec![3, 4, 5, 6]];
    let built = HalfEdgeMesh::build(vec![(), (), ()], &edges, &groups);
    assert_eq!(built.err(), Some(MeshError::TopologyCycle));
}

#[test]
fn build_reports_a_missing_reverse_before_bad_groups() {
    let edges = vec![(0, 1), (1, 2)];
    let groups = vec![vec![0, 0]];
    let built = HalfEdgeMesh::build(vec![(), (), ()], &edges, &groups);
    assert_eq!(built.err(), Some(MeshError::MeshMalformed));
}

#[test]
fn build_of_nothing_is_an_empty_mesh() {
    let mesh = HalfEdgeMesh::<()>::build(vec![], &vec![], &vec![]).unwrap();
    assert!(mesh.vertices.is_empty());
    assert!(mesh.half_edges.is_empty());
    assert_eq!(mesh.get_faces().unwrap(), vec![]);
    assert_eq!(mesh.get_triangles().unwrap(), vec![]);
}

#[test]
fn get_faces_reports_a_loop_that_does_not_close() {
    // 0 -> 1 -> 2 -> 1: the walk from 0 never comes back
    let mesh = HalfEdgeMesh {
        vertices: vec![HalfEdgeVertex { position: (), incident_half_edge_indices: vec![] }],
        half_edges: vec![edge(0, 0, 0, 1, 0), edge(0, 0, 1, 2, 0), edge(0, 0, 2, 1, 1)],
    };
    assert!(mesh.has_links_in_range());
    assert_eq!(mesh.get_faces().err(), Some(MeshError::TopologyCycle));
    assert_eq!(mesh.get_triangles().err(), Some(MeshError::TopologyCycle));
}

#[test]
fn get_faces_closes_a_face_only_at_its_own_start() {
    // two loops, listed out of order: 0 -> 2 -> 0 and 1 -> 3 -> 1
    let mesh = HalfEdgeMesh {
        vertices: vec![HalfEdgeVertex { position: (), incident_half_edge_indices: vec![] }],
        half_edges: vec![
            edge(0, 10, 0, 2, 2),
            edge(0, 11, 0, 3, 3),
            edge(0, 12, 0, 0, 0),
            edge(0, 13, 0, 1, 1),
        ],
    };
    let faces = mesh.get_faces().unwrap();
    assert_eq!(
        faces,
        vec![Face { vertices: vec![10, 12] }, Face { vertices: vec![11, 13] }]
    );
}

#[test]
fn has_links_in_range_finds_a_dangling_link() {
    let mesh = HalfEdgeMesh {
        vertices: vec![HalfEdgeVertex { position: (), incident_half_edge_indices: vec![] }],
        half_edges: vec![edge(0, 0, 0, 1, 0)],
    };
    assert!(!mesh.has_links_in_range());
}

#[test]
fn triangulate_fans_out_from_the_first_vertex() {
    let face = Face { vertices: vec![4, 9, 2, 7, 5] };
    let triangles = face.triangulate();
    assert_eq!(
        triangles,
        vec![
            TriangleFace { vertices: [4, 9, 2] },
            TriangleFace { vertices: [4, 2, 7] },
            TriangleFace { vertices: [4, 7, 5] },
        ]
    );
}

#[test]
fn triangulate_covers_the_face_and_adds_no_vertex() {
    let face = Face { vertices: vec![3, 1, 4, 15, 9, 2, 6] };
    let triangles = face.triangulate();
    assert_eq!(triangles.len(), face.vertices.len() - 2);
    for v in &face.vertices {
        assert!(triangles.iter().any(|t| t.vertices.contains(v)));
    }
    for triangle in &triangles {
        for corner in triangle.vertices.iter() {
            assert!(face.vertices.contains(corner));
        }
    }
}

#[test]
fn triangulate_of_a_triangle_is_that_triangle() {
    let face = Face { vertices: vec![2, 0, 1] };
    assert_eq!(face.triangulate(), vec![TriangleFace { vertices: [2, 0, 1] }]);
}

#[test]
fn triangulate_of_a_degenerate_face_is_empty() {
    assert_eq!(Face { vertices: vec![] }.triangulate(), vec![]);
    assert_eq!(Face { vertices: vec![5] }.triangulate(), vec![]);
    assert_eq!(Face { vertices: vec![5, 6] }.triangulate(), vec![]);
}

#[test]
fn get_triangles_from_face_checks_the_vertex_range() {
    let mesh = cube_mesh();
    let inside = mesh.get_triangles_from_face(Face { vertices: vec![0, 1, 2, 7] });
    assert_eq!(
        inside,
        Ok(vec![TriangleFace { vertices: [0, 1, 2] }, TriangleFace { vertices: [0, 2, 7] }])
    );
    let outside = mesh.get_triangles_from_face(Face { vertices: vec![0, 1, 8] });
    assert_eq!(outside, Err(MeshError::InvalidFace));
}

#[test]
fn get_triangles_from_face_of_a_degenerate_face_is_empty_not_an_error() {
    let mesh = cube_mesh();
    assert_eq!(mesh.get_triangles_from_face(Face { vertices: vec![] }), Ok(vec![]));
    assert_eq!(mesh.get_triangles_from_face(Face { vertices: vec![99] }), Ok(vec![]));
    assert_eq!(mesh.get_triangles_from_face(Face { vertices: vec![99, 100] }), Ok(vec![]));
}

#[test]
fn get_triangles_reports_a_face_that_names_a_missing_vertex() {
    let mesh = HalfEdgeMesh {
        vertices: vec![
            HalfEdgeVertex { position: (), incident_half_edge_indices: vec![] },
            HalfEdgeVertex { position: (), incident_half_edge_indices: vec![] },
        ],
        half_edges: vec![edge(0, 1, 0, 1, 2), edge(1, 5, 0, 2, 0), edge(5, 0, 0, 0, 1)],
    };
    assert_eq!(mesh.get_faces().unwrap(), vec![Face { vertices: vec![1, 5, 0] }]);
    assert_eq!(mesh.get_triangles().err(), Some(MeshError::InvalidFace));
}

#[test]
fn origins_in_range_finds_an_edge_that_leaves_no_vertex() {
    let (edges, _) = pillow_tables();
    assert!(origins_in_range(&edges, 3));
    assert!(!origins_in_range(&edges, 2));
    assert!(origins_in_range(&vec![], 0));
    // only the origin counts
    assert!(origins_in_range(&vec![(0, 9)], 1));
}

#[test]
fn build_rejects_an_edge_to_a_missing_vertex() {
    // the reverse of such an edge would leave no vertex, so it has none
    let edges = vec![(0, 1), (1, 0), (0, 9)];
    let groups = vec![vec![0, 1, 2]];
    assert!(origins_in_range(&edges, 2));
    let built = HalfEdgeMesh::build(vec![(), ()], &edges, &groups);
    assert_eq!(built.err(), Some(MeshError::MeshMalformed));
}
