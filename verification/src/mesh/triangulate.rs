//! Fan triangulation of a polygon.

use vstd::prelude::*;
use crate::mesh::{
    Face, HalfEdge, HalfEdgeMesh, MeshError, TriangleFace, faces_view, triangles_view,
};
use crate::mesh::topology::{
    all_loops_close, face_loops, indices_in_range, leaders, lemma_walk_in_range, links_in_range,
    loop_vertices, walk,
};

verus! {

/// The `i`-th triangle of the fan anchored at the first vertex of `face`.
pub open spec fn fan_triangle(face: Seq<usize>, i: int) -> Seq<usize> {
    seq![face[0], face[i + 1], face[i + 2]]
}

/// The fan triangulation of `face`: for vertices `v0, v1, .., v(n-1)` the
/// triangles `(v0, vi, v(i+1))` for `i` from 1 to `n - 2`, in that order, and
/// nothing when the face has fewer than three vertices.
pub open spec fn fan(face: Seq<usize>) -> Seq<Seq<usize>> {
    if face.len() < 3 {
        Seq::empty()
    } else {
        Seq::new((face.len() - 2) as nat, |i: int| fan_triangle(face, i))
    }
}

impl Face {
    /// Splits the face into the triangles of its fan. The result is meaningful
    /// for convex planar faces; a face with fewer than three vertices gives no
    /// triangle.
    pub fn triangulate(&self) -> (triangles: Vec<TriangleFace>)
        ensures
            triangles_view(triangles@) == fan(self@),
            self@.len() < 3 ==> triangles@.len() == 0,
            self@.len() >= 3 ==> triangles@.len() == self@.len() - 2,
    {
        let mut triangles: Vec<TriangleFace> = Vec::new();
        let n = self.vertices.len();
        if n < 3 {
            assert(triangles_view(triangles@) =~= fan(self@));
            return triangles;
        }
        let anchor = self.vertices[0];
        let mut i: usize = 0;
        while i < n - 2
            invariant
                n == self.vertices@.len(),
                n >= 3,
                i <= n - 2,
                anchor == self.vertices@[0],
                triangles@.len() == i,
                forall|t: int| 0 <= t < i ==> (#[trigger] triangles@[t])@ == fan_triangle(self@, t),
            decreases n - i,
        {
            let triangle = TriangleFace {
                vertices: [anchor, self.vertices[i + 1], self.vertices[i + 2]],
            };
            assert(triangle@ =~= fan_triangle(self@, i as int));
            triangles.push(triangle);
            i += 1;
        }
        assert(triangles_view(triangles@) =~= fan(self@));
        triangles
    }
}

/// The face has three vertices or more and names a vertex that a table of
/// `vertex_count` vertices does not have.
pub open spec fn is_invalid_face(face: Seq<usize>, vertex_count: nat) -> bool {
    face.len() >= 3 && exists|i: int| 0 <= i < face.len() && #[trigger] face[i] >= vertex_count
}

/// Some face of the list is invalid.
pub open spec fn has_invalid_face(faces: Seq<Seq<usize>>, vertex_count: nat) -> bool {
    exists|k: int| 0 <= k < faces.len() && is_invalid_face(#[trigger] faces[k], vertex_count)
}

/// The fans of the faces, one after the other.
pub open spec fn fans(faces: Seq<Seq<usize>>) -> Seq<Seq<usize>>
    decreases faces.len(),
{
    if faces.len() == 0 {
        Seq::empty()
    } else {
        fans(faces.drop_last()) + fan(faces.last())
    }
}

/// The loops of a table whose indices are in range name existing vertices
/// only.
pub proof fn lemma_loops_name_vertices(hs: Seq<HalfEdge>, vertex_count: nat)
    requires
        indices_in_range(hs, vertex_count),
    ensures
        !has_invalid_face(face_loops(hs), vertex_count),
{
    let starts = leaders(hs, hs.len());
    lemma_leaders_in_range(hs, hs.len());
    assert forall|k: int| 0 <= k < face_loops(hs).len() implies !is_invalid_face(
        #[trigger] face_loops(hs)[k],
        vertex_count,
    ) by {
        let face = face_loops(hs)[k];
        assert(face == loop_vertices(hs, starts[k]));
        assert forall|i: int| 0 <= i < face.len() implies #[trigger] face[i] < vertex_count by {
            lemma_walk_in_range(hs, starts[k], i as nat);
            assert(hs[walk(hs, starts[k], i as nat)].to_vertex_index
                < vertex_count);
        }
    }
}

/// The leaders among `0 .. n` are half-edges below `n`.
pub proof fn lemma_leaders_in_range(hs: Seq<HalfEdge>, n: nat)
    ensures
        forall|k: int| 0 <= k < leaders(hs, n).len() ==> 0 <= #[trigger] leaders(hs, n)[k] < n,
    decreases n,
{
    if n > 0 {
        let fewer = leaders(hs, (n - 1) as nat);
        lemma_leaders_in_range(hs, (n - 1) as nat);
        assert forall|k: int| 0 <= k < leaders(hs, n).len() implies 0 <= #[trigger] leaders(
            hs,
            n,
        )[k] < n by {
            if k < fewer.len() {
                assert(leaders(hs, n)[k] == fewer[k]);
            }
        }
    }
}

impl<P> HalfEdgeMesh<P> {
    /// The fan of the face, or `InvalidFace` where a face of three vertices or
    /// more names a vertex that the mesh does not have.
    fn triangles_of(&self, face: &Face) -> (triangles: Result<Vec<TriangleFace>, MeshError>)
        ensures
            triangles is Err <==> is_invalid_face(face@, self.vertices@.len()),
            triangles matches Err(error) ==> error == MeshError::InvalidFace,
            triangles matches Ok(found) ==> triangles_view(found@) == fan(face@),
    {
        let n = face.vertices.len();
        if n >= 3 {
            let vertex_count = self.vertices.len();
            let mut i: usize = 0;
            while i < n
                invariant
                    n == face@.len(),
                    n >= 3,
                    i <= n,
                    vertex_count == self.vertices@.len(),
                    forall|k: int| 0 <= k < i ==> #[trigger] face@[k] < vertex_count,
                decreases n - i,
            {
                if face.vertices[i] >= vertex_count {
                    assert(face@[i as int] >= vertex_count);
                    return Err(MeshError::InvalidFace);
                }
                i += 1;
            }
        }
        Ok(face.triangulate())
    }

    /// Triangulates one face of the mesh by a fan anchored at its first
    /// vertex. A face with fewer than three vertices gives no triangle, and is
    /// no error. A face of three vertices or more that names a vertex outside
    /// the vertex table is an `InvalidFace` error.
    pub fn get_triangles_from_face(&self, face: Face) -> (triangles: Result<
        Vec<TriangleFace>,
        MeshError,
    >)
        ensures
            triangles is Err <==> is_invalid_face(face@, self.vertices@.len()),
            triangles matches Err(error) ==> error == MeshError::InvalidFace,
            triangles matches Ok(found) ==> triangles_view(found@) == fan(face@),
            face@.len() < 3 ==> triangles is Ok && triangles->Ok_0@.len() == 0,
            triangles matches Ok(found) ==> face@.len() >= 3 ==> found@.len() == face@.len() - 2,
    {
        let triangles = self.triangles_of(&face);
        proof {
            if triangles is Ok {
                assert(triangles_view(triangles->Ok_0@).len() == triangles->Ok_0@.len());
            }
        }
        triangles
    }

    /// The triangles of all faces of the mesh: the fans of the faces that
    /// `get_faces` gives, in the order of the faces.
    ///
    /// A loop that does not close is a `TopologyCycle` error; otherwise a face
    /// that names a missing vertex is an `InvalidFace` error. A well-formed
    /// mesh has neither.
    pub fn get_triangles(&self) -> (triangles: Result<Vec<TriangleFace>, MeshError>)
        requires
            links_in_range(self.half_edges@),
        ensures
            triangles == Err::<Vec<TriangleFace>, MeshError>(MeshError::TopologyCycle)
                <==> !all_loops_close(self.half_edges@),
            triangles == Err::<Vec<TriangleFace>, MeshError>(MeshError::InvalidFace)
                <==> all_loops_close(self.half_edges@) && has_invalid_face(
                face_loops(self.half_edges@),
                self.vertices@.len(),
            ),
            triangles matches Ok(found) ==> triangles_view(found@) == fans(
                face_loops(self.half_edges@),
            ),
            self.wf() ==> triangles is Ok,
    {
        proof {
            if self.wf() {
                lemma_loops_name_vertices(self.half_edges@, self.vertices@.len());
            }
        }
        let faces = match self.get_faces() {
            Ok(faces) => faces,
            Err(_) => {
                return Err(MeshError::TopologyCycle);
            },
        };
        let ghost loops = faces_view(faces@);
        let mut triangles: Vec<TriangleFace> = Vec::new();
        let mut k: usize = 0;
        assert(loops.take(0) =~= Seq::<Seq<usize>>::empty());
        assert(triangles_view(triangles@) =~= fans(loops.take(0)));
        while k < faces.len()
            invariant
                k <= faces@.len(),
                loops == faces_view(faces@),
                loops == face_loops(self.half_edges@),
                all_loops_close(self.half_edges@),
                self.wf() ==> !has_invalid_face(loops, self.vertices@.len()),
                triangles_view(triangles@) == fans(loops.take(k as int)),
                forall|j: int|
                    0 <= j < k ==> !is_invalid_face(#[trigger] loops[j], self.vertices@.len()),
            decreases faces@.len() - k,
        {
            let ghost found = triangles@;
            match self.triangles_of(&faces[k]) {
                Ok(mut fan_of_face) => {
                    let ghost added = fan_of_face@;
                    triangles.append(&mut fan_of_face);
                    proof {
                        assert(loops.take(k + 1).drop_last() =~= loops.take(k as int));
                        assert(loops.take(k + 1).last() == loops[k as int]);
                        assert(triangles_view(triangles@) =~= triangles_view(found)
                            + triangles_view(added));
                    }
                },
                Err(_) => {
                    proof {
                        assert(is_invalid_face(loops[k as int], self.vertices@.len()));
                    }
                    return Err(MeshError::InvalidFace);
                },
            }
            k += 1;
        }
        proof {
            assert(loops.take(k as int) =~= loops);
        }
        Ok(triangles)
    }
}

/// Whether `v` is a corner of some triangle of the fan of `face`.
pub open spec fn fan_mentions(face: Seq<usize>, v: usize) -> bool {
    exists|t: int, k: int|
        0 <= t < fan(face).len() && 0 <= k < 3 && #[trigger] fan(face)[t][k] == v
}

/// A fan over `n >= 3` vertices has `n - 2` triangles of three corners each.
/// Each vertex of the face is a corner of at least one of them, and no corner
/// is anything but a vertex of the face.
pub proof fn lemma_fan_covers_face(face: Seq<usize>)
    requires
        face.len() >= 3,
    ensures
        fan(face).len() == face.len() - 2,
        forall|t: int| 0 <= t < fan(face).len() ==> (#[trigger] fan(face)[t]).len() == 3,
        forall|v: usize| face.contains(v) <==> fan_mentions(face, v),
{
    let n = face.len() as int;
    assert forall|v: usize| face.contains(v) implies fan_mentions(face, v) by {
        let i = choose|i: int| 0 <= i < face.len() && face[i] == v;
        if i == 0 {
            assert(fan(face)[0][0] == v);
        } else if i == n - 1 {
            assert(fan(face)[n - 3][2] == v);
        } else {
            assert(fan(face)[i - 1][1] == v);
        }
    }
    assert forall|v: usize| fan_mentions(face, v) implies face.contains(v) by {
        let (t, k) = choose|t: int, k: int|
            0 <= t < fan(face).len() && 0 <= k < 3 && #[trigger] fan(face)[t][k] == v;
        if k == 0 {
            assert(face[0] == v);
        } else if k == 1 {
            assert(face[t + 1] == v);
        } else {
            assert(face[t + 2] == v);
        }
    }
}

/// A face with fewer than three vertices has an empty fan.
pub proof fn lemma_fan_of_degenerate_face(face: Seq<usize>)
    requires
        face.len() < 3,
    ensures
        fan(face) == Seq::<Seq<usize>>::empty(),
{
}

} // verus!
