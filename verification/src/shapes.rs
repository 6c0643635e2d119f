//! Solids with a fixed topology, given as tables for the mesh builder.

use vstd::prelude::*;
use crate::mesh::{HalfEdge, HalfEdgeMesh, MeshError};
use crate::mesh::triangulate::{fan, fan_triangle, fans};
use crate::mesh::topology::{
    face_loops, is_leader, leaders, lemma_loop_len, loop_vertices, next_of, walk,
};
use crate::mesh::builder::{
    describes, groups_view, has_one_twin, is_grouping, is_listed, is_manifold, is_reverse_of,
    is_slot, is_twin,
};

verus! {

/// Something that can be drawn: it has a half-edge mesh.
pub trait SceneObject {
    /// How the positions of the mesh's vertices are given.
    type Position;

    /// The mesh of the object. A mesh that is given is well formed.
    fn get_half_edge_mesh(&self) -> (mesh: Result<HalfEdgeMesh<Self::Position>, MeshError>)
        ensures
            mesh matches Ok(built) ==> built.wf(),
    ;
}

/// A cube placed in a scene. Its mesh is that of the unit cube, whatever the
/// placement.
#[derive(Debug, Clone, PartialEq)]
pub struct Cube<V, Q> {
    pub position: V,
    pub size: V,
    pub orientation: Q,
}

/// Corner `i` of the unit cube, as lattice coordinates.
pub open spec fn cube_corner(i: int) -> (u8, u8, u8) {
    if i == 0 {
        (0, 0, 0)
    } else if i == 1 {
        (1, 0, 0)
    } else if i == 2 {
        (1, 1, 0)
    } else if i == 3 {
        (1, 1, 1)
    } else if i == 4 {
        (0, 1, 1)
    } else if i == 5 {
        (0, 0, 1)
    } else if i == 6 {
        (1, 0, 1)
    } else {
        (0, 1, 0)
    }
}

/// Directed edge `i` of the cube, as origin and destination corner. The edges
/// `4 * f .. 4 * f + 4` run round face `f`.
pub open spec fn cube_edge(i: int) -> (usize, usize) {
    if i == 0 {
        (0, 1)
    } else if i == 1 {
        (1, 2)
    } else if i == 2 {
        (2, 7)
    } else if i == 3 {
        (7, 0)
    } else if i == 4 {
        (5, 0)
    } else if i == 5 {
        (0, 7)
    } else if i == 6 {
        (7, 4)
    } else if i == 7 {
        (4, 5)
    } else if i == 8 {
        (0, 5)
    } else if i == 9 {
        (5, 6)
    } else if i == 10 {
        (6, 1)
    } else if i == 11 {
        (1, 0)
    } else if i == 12 {
        (1, 6)
    } else if i == 13 {
        (6, 3)
    } else if i == 14 {
        (3, 2)
    } else if i == 15 {
        (2, 1)
    } else if i == 16 {
        (5, 4)
    } else if i == 17 {
        (4, 3)
    } else if i == 18 {
        (3, 6)
    } else if i == 19 {
        (6, 5)
    } else if i == 20 {
        (2, 3)
    } else if i == 21 {
        (3, 4)
    } else if i == 22 {
        (4, 7)
    } else {
        (7, 2)
    }
}

/// The edge that runs opposite to edge `i` of the cube.
pub open spec fn cube_twin(i: int) -> int {
    if i == 0 {
        11
    } else if i == 1 {
        15
    } else if i == 2 {
        23
    } else if i == 3 {
        5
    } else if i == 4 {
        8
    } else if i == 5 {
        3
    } else if i == 6 {
        22
    } else if i == 7 {
        16
    } else if i == 8 {
        4
    } else if i == 9 {
        19
    } else if i == 10 {
        12
    } else if i == 11 {
        0
    } else if i == 12 {
        10
    } else if i == 13 {
        18
    } else if i == 14 {
        20
    } else if i == 15 {
        1
    } else if i == 16 {
        7
    } else if i == 17 {
        21
    } else if i == 18 {
        13
    } else if i == 19 {
        9
    } else if i == 20 {
        14
    } else if i == 21 {
        17
    } else if i == 22 {
        6
    } else {
        2
    }
}

/// The eight corners of the unit cube.
pub open spec fn cube_corners() -> Seq<(u8, u8, u8)> {
    Seq::new(8, |i: int| cube_corner(i))
}

/// The twenty-four directed edges of the cube.
pub open spec fn cube_edges() -> Seq<(usize, usize)> {
    Seq::new(24, |i: int| cube_edge(i))
}

/// The six faces of the cube, each as its four edges in boundary order.
pub open spec fn cube_face_groups() -> Seq<Seq<usize>> {
    Seq::new(6, |g: int| Seq::new(4, |p: int| (4 * g + p) as usize))
}

/// Every edge of the cube has exactly one reverse, the one that `cube_twin`
/// names.
pub proof fn lemma_cube_is_manifold()
    ensures
        is_manifold(cube_edges()),
        forall|i: int| 0 <= i < 24 ==> is_twin(cube_edges(), i, #[trigger] cube_twin(i)),
{
    let edges = cube_edges();
    assert forall|i: int| 0 <= i < 24 implies is_twin(edges, i, #[trigger] cube_twin(i)) by {
        assert(is_reverse_of(edges, i, cube_twin(i)));
        assert forall|k: int| 0 <= k < 24 && #[trigger] is_reverse_of(edges, i, k) implies k
            == cube_twin(i) by {
            assert(edges[k] == cube_edge(k));
        }
    }
    assert forall|i: int| 0 <= i < 24 implies #[trigger] has_one_twin(edges, i) by {
        assert(is_twin(edges, i, cube_twin(i)));
    }
}

/// The face groups of the cube list each of its edges once.
pub proof fn lemma_cube_is_grouped()
    ensures
        is_grouping(cube_face_groups(), 24),
{
    let groups = cube_face_groups();
    assert forall|e: int| 0 <= e < 24 implies #[trigger] is_listed(groups, e) by {
        let g = e / 4;
        let p = e % 4;
        assert(is_slot(groups, g, p) && groups[g][p] == e);
    }
}

/// The faces of the cube as loops of corners: for each face the destinations
/// of its four edges.
pub open spec fn cube_faces() -> Seq<Seq<usize>> {
    Seq::new(6, |f: int| Seq::new(4, |j: int| cube_edge(4 * f + j).1))
}

/// In a table that the cube's edges and faces describe, `next` leads round
/// the four edges of each face.
proof fn lemma_cube_next(hs: Seq<HalfEdge>)
    requires
        describes(hs, cube_edges(), cube_face_groups()),
    ensures
        forall|e: int|
            0 <= e < 24 ==> #[trigger] next_of(hs, e) == if e % 4 == 3 {
                e - 3
            } else {
                e + 1
            },
{
    let groups = cube_face_groups();
    assert forall|e: int| 0 <= e < 24 implies #[trigger] next_of(hs, e) == if e % 4 == 3 {
        e - 3
    } else {
        e + 1
    } by {
        let g = e / 4;
        let p = e % 4;
        assert(is_slot(groups, g, p) && groups[g][p] == e);
    }
}

/// A walk on the cube stays among the four edges of the face that it began
/// in.
proof fn lemma_cube_walk_stays(hs: Seq<HalfEdge>, e: int, k: nat)
    requires
        describes(hs, cube_edges(), cube_face_groups()),
        0 <= e < 24,
    ensures
        4 * (e / 4) <= walk(hs, e, k) < 4 * (e / 4) + 4,
    decreases k,
{
    if k > 0 {
        lemma_cube_walk_stays(hs, e, (k - 1) as nat);
        lemma_cube_next(hs);
        let before = walk(hs, e, (k - 1) as nat);
        assert(walk(hs, e, k) == next_of(hs, before));
    }
}

/// The leaders among the first `n` edges of the cube are the first edges of
/// its faces.
proof fn lemma_cube_leaders(hs: Seq<HalfEdge>, n: nat)
    requires
        forall|e: int| 0 <= e < 24 ==> (#[trigger] is_leader(hs, e) <==> e % 4 == 0),
        n <= 24,
    ensures
        leaders(hs, n) == Seq::new(((n + 3) / 4) as nat, |f: int| 4 * f),
    decreases n,
{
    if n > 0 {
        lemma_cube_leaders(hs, (n - 1) as nat);
        assert(is_leader(hs, n - 1) <==> (n - 1) % 4 == 0);
        assert(leaders(hs, n) =~= Seq::new(((n + 3) / 4) as nat, |f: int| 4 * f));
    } else {
        assert(leaders(hs, n) =~= Seq::new(((n + 3) / 4) as nat, |f: int| 4 * f));
    }
}

/// The faces of a table that the cube's edges and faces describe are the six
/// faces of the cube, each a loop of four corners.
pub proof fn lemma_cube_face_loops(hs: Seq<HalfEdge>)
    requires
        describes(hs, cube_edges(), cube_face_groups()),
    ensures
        face_loops(hs) == cube_faces(),
{
    lemma_cube_next(hs);
    assert forall|e: int| 0 <= e < 24 implies (#[trigger] is_leader(hs, e) <==> e % 4 == 0) by {
        let first = 4 * (e / 4);
        assert(walk(hs, e, 1) == next_of(hs, walk(hs, e, 0)));
        assert(walk(hs, e, 2) == next_of(hs, walk(hs, e, 1)));
        assert(walk(hs, e, 3) == next_of(hs, walk(hs, e, 2)));
        assert(walk(hs, e, 4) == next_of(hs, walk(hs, e, 3)));
        if e % 4 == 0 {
            assert(1 <= 4 <= hs.len() && walk(hs, e, 4) == e);
            assert forall|k: nat| #[trigger] walk(hs, e, k) >= e by {
                lemma_cube_walk_stays(hs, e, k);
            }
        } else if e % 4 == 1 {
            assert(walk(hs, e, 3) == first);
        } else if e % 4 == 2 {
            assert(walk(hs, e, 2) == first);
        } else {
            assert(walk(hs, e, 1) == first);
        }
    }
    lemma_cube_leaders(hs, 24);
    let starts = leaders(hs, 24);
    assert(starts.len() == 6);
    assert forall|f: int| 0 <= f < 6 implies loop_vertices(hs, #[trigger] starts[f])
        == cube_faces()[f] by {
        let e = 4 * f;
        assert(starts[f] == e);
        assert(walk(hs, e, 1) == next_of(hs, walk(hs, e, 0)));
        assert(walk(hs, e, 2) == next_of(hs, walk(hs, e, 1)));
        assert(walk(hs, e, 3) == next_of(hs, walk(hs, e, 2)));
        assert(walk(hs, e, 4) == next_of(hs, walk(hs, e, 3)));
        lemma_loop_len(hs, e, 4);
        assert(hs[e].to_vertex_index == cube_edges()[e].1);
        assert(hs[e + 1].to_vertex_index == cube_edges()[e + 1].1);
        assert(hs[e + 2].to_vertex_index == cube_edges()[e + 2].1);
        assert(hs[e + 3].to_vertex_index == cube_edges()[e + 3].1);
        assert(loop_vertices(hs, e) =~= cube_faces()[f]);
    }
    assert(face_loops(hs) =~= cube_faces());
}

/// The fans of faces of four vertices each: two triangles per face, in the
/// order of the faces.
pub proof fn lemma_fans_of_quads(faces: Seq<Seq<usize>>)
    requires
        forall|k: int| 0 <= k < faces.len() ==> (#[trigger] faces[k]).len() == 4,
    ensures
        fans(faces).len() == 2 * faces.len(),
        forall|k: int|
            0 <= k < faces.len() ==> {
                &&& fans(faces)[2 * k] == fan_triangle(#[trigger] faces[k], 0)
                &&& fans(faces)[2 * k + 1] == fan_triangle(faces[k], 1)
            },
    decreases faces.len(),
{
    if faces.len() > 0 {
        let fewer = faces.drop_last();
        lemma_fans_of_quads(fewer);
        let last = faces.last();
        assert(fan(last).len() == 2);
        assert(fan(last)[0] == fan_triangle(last, 0));
        assert(fan(last)[1] == fan_triangle(last, 1));
        assert forall|k: int| 0 <= k < faces.len() implies {
            &&& fans(faces)[2 * k] == fan_triangle(#[trigger] faces[k], 0)
            &&& fans(faces)[2 * k + 1] == fan_triangle(faces[k], 1)
        } by {
            if k < fewer.len() {
                assert(fewer[k] == faces[k]);
            }
        }
    }
}

/// The faces of the cube fan out into twelve triangles. The three corners of
/// each are corners of the cube and differ from each other.
pub proof fn lemma_cube_triangles()
    ensures
        fans(cube_faces()).len() == 12,
        forall|t: int|
            0 <= t < 12 ==> {
                let triangle = #[trigger] fans(cube_faces())[t];
                &&& triangle.len() == 3
                &&& triangle[0] <= 7 && triangle[1] <= 7 && triangle[2] <= 7
                &&& triangle[0] != triangle[1]
                &&& triangle[1] != triangle[2]
                &&& triangle[0] != triangle[2]
            },
{
    let faces = cube_faces();
    lemma_fans_of_quads(faces);
    assert forall|t: int| 0 <= t < 12 implies {
        let triangle = #[trigger] fans(faces)[t];
        &&& triangle.len() == 3
        &&& triangle[0] <= 7 && triangle[1] <= 7 && triangle[2] <= 7
        &&& triangle[0] != triangle[1]
        &&& triangle[1] != triangle[2]
        &&& triangle[0] != triangle[2]
    } by {
        let k = t / 2;
        let face = faces[k];
        assert(face[0] == cube_edge(4 * k).1);
        assert(face[1] == cube_edge(4 * k + 1).1);
        assert(face[2] == cube_edge(4 * k + 2).1);
        assert(face[3] == cube_edge(4 * k + 3).1);
        if t % 2 == 0 {
            assert(fans(faces)[2 * k] == fan_triangle(face, 0));
        } else {
            assert(fans(faces)[2 * k + 1] == fan_triangle(face, 1));
        }
    }
}

/// The corners of the unit cube.
pub fn cube_corner_table() -> (corners: Vec<(u8, u8, u8)>)
    ensures
        corners@ == cube_corners(),
{
    let mut corners: Vec<(u8, u8, u8)> = Vec::new();
    corners.push((0, 0, 0));
    corners.push((1, 0, 0));
    corners.push((1, 1, 0));
    corners.push((1, 1, 1));
    corners.push((0, 1, 1));
    corners.push((0, 0, 1));
    corners.push((1, 0, 1));
    corners.push((0, 1, 0));
    assert(corners@ =~= cube_corners());
    corners
}

/// The directed edges of the cube.
pub fn cube_edge_table() -> (edges: Vec<(usize, usize)>)
    ensures
        edges@ == cube_edges(),
{
    let mut edges: Vec<(usize, usize)> = Vec::new();
    edges.push((0, 1));
    edges.push((1, 2));
    edges.push((2, 7));
    edges.push((7, 0));
    edges.push((5, 0));
    edges.push((0, 7));
    edges.push((7, 4));
    edges.push((4, 5));
    edges.push((0, 5));
    edges.push((5, 6));
    edges.push((6, 1));
    edges.push((1, 0));
    edges.push((1, 6));
    edges.push((6, 3));
    edges.push((3, 2));
    edges.push((2, 1));
    edges.push((5, 4));
    edges.push((4, 3));
    edges.push((3, 6));
    edges.push((6, 5));
    edges.push((2, 3));
    edges.push((3, 4));
    edges.push((4, 7));
    edges.push((7, 2));
    assert(edges@ =~= cube_edges());
    edges
}

/// The faces of the cube, each as the indices of its edges.
pub fn cube_face_table() -> (groups: Vec<Vec<usize>>)
    ensures
        groups_view(&groups) == cube_face_groups(),
{
    let mut groups: Vec<Vec<usize>> = Vec::new();
    let mut g: usize = 0;
    while g < 6
        invariant
            g <= 6,
            groups@.len() == g,
            forall|k: int| 0 <= k < g ==> (#[trigger] groups@[k])@ == cube_face_groups()[k],
        decreases 6 - g,
    {
        let mut group: Vec<usize> = Vec::new();
        let mut p: usize = 0;
        while p < 4
            invariant
                g < 6,
                p <= 4,
                group@.len() == p,
                forall|k: int| 0 <= k < p ==> #[trigger] group@[k] == 4 * g + k,
            decreases 4 - p,
        {
            group.push(4 * g + p);
            p += 1;
        }
        assert(group@ =~= cube_face_groups()[g as int]);
        groups.push(group);
        g += 1;
    }
    assert(groups_view(&groups) =~= cube_face_groups());
    groups
}

impl<V, Q> Cube<V, Q> {
    /// A cube at `position`, of extent `size`, turned by `orientation`.
    pub fn new(position: V, size: V, orientation: Q) -> (cube: Self)
        ensures
            cube.position == position,
            cube.size == size,
            cube.orientation == orientation,
    {
        Cube { position, size, orientation }
    }
}

impl<V, Q> SceneObject for Cube<V, Q> {
    type Position = (u8, u8, u8);

    /// The mesh of the unit cube: eight corners, twenty-four half-edges, six
    /// faces of four half-edges each. It is always built.
    fn get_half_edge_mesh(&self) -> (mesh: Result<HalfEdgeMesh<(u8, u8, u8)>, MeshError>)
        ensures
            mesh is Ok,
            mesh matches Ok(built) ==> {
                &&& built.wf()
                &&& describes(built.half_edges@, cube_edges(), cube_face_groups())
                &&& face_loops(built.half_edges@) == cube_faces()
                &&& built.vertices@.len() == 8
                &&& forall|v: int|
                    0 <= v < 8 ==> (#[trigger] built.vertices@[v]).position == cube_corner(v)
            },
    {
        let corners = cube_corner_table();
        let edges = cube_edge_table();
        let groups = cube_face_table();
        proof {
            lemma_cube_is_manifold();
            lemma_cube_is_grouped();
            assert forall|e: int| 0 <= e < edges@.len() implies (#[trigger] edges@[e]).0
                < corners@.len() by {
                assert(edges@[e] == cube_edge(e));
            }
        }
        let mesh = HalfEdgeMesh::build(corners, &edges, &groups);
        proof {
            lemma_cube_face_loops(mesh->Ok_0.half_edges@);
        }
        mesh
    }
}

} // verus!
