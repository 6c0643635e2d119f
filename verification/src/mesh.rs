//! Half-edge meshes addressed by integer indices.
//!
//! A mesh is a table of vertices and a table of directed half-edges. Every
//! half-edge names its origin and destination vertex, its oppositely directed
//! twin, and its successor and predecessor along the boundary of its face.

use vstd::prelude::*;

pub mod builder;
pub mod faces;
pub mod topology;
pub mod triangulate;

verus! {

/// One directed edge of a mesh.
#[derive(Debug, Clone, Copy, PartialEq, Eq)]
pub struct HalfEdge {
    pub from_vertex_index: usize,
    pub to_vertex_index: usize,
    pub twin_edge_index: usize,
    pub next_index: usize,
    pub prev_index: usize,
}

/// One vertex of a mesh: a position of the caller's choosing and the indices of
/// the half-edges that leave it.
#[derive(Debug, Clone, PartialEq)]
pub struct HalfEdgeVertex<P> {
    pub position: P,
    pub incident_half_edge_indices: Vec<usize>,
}

/// The vertex table and the half-edge table of a mesh.
#[derive(Debug, Clone, PartialEq)]
pub struct HalfEdgeMesh<P> {
    pub vertices: Vec<HalfEdgeVertex<P>>,
    pub half_edges: Vec<HalfEdge>,
}

/// The boundary of one polygon, as the vertex indices met along it.
#[derive(Debug, Clone, PartialEq, Eq)]
pub struct Face {
    pub vertices: Vec<usize>,
}

/// Three vertex indices.
#[derive(Debug, Clone, Copy, PartialEq, Eq)]
pub struct TriangleFace {
    pub vertices: [usize; 3],
}

/// Why a mesh could not be built or read.
#[derive(Debug, Clone, Copy, PartialEq, Eq)]
pub enum MeshError {
    /// Some half-edge has no reverse counterpart, or more than one.
    MeshMalformed,
    /// Following `next` from some half-edge does not lead back to it within
    /// as many steps as the mesh has half-edges.
    TopologyCycle,
    /// A face names a vertex that the mesh does not have.
    InvalidFace,
}

impl View for Face {
    type V = Seq<usize>;

    open spec fn view(&self) -> Seq<usize> {
        self.vertices@
    }
}

impl View for TriangleFace {
    type V = Seq<usize>;

    open spec fn view(&self) -> Seq<usize> {
        self.vertices@
    }
}

impl<P> HalfEdgeMesh<P> {
    /// The structural invariants of a mesh: the half-edge table is well
    /// formed over the vertex table, and each vertex lists the half-edges that
    /// leave it, in ascending order.
    pub open spec fn wf(&self) -> bool {
        &&& topology::well_formed(self.half_edges@, self.vertices@.len())
        &&& forall|v: int|
            0 <= v < self.vertices@.len() ==> (#[trigger] self.vertices@[v]).incident_half_edge_indices@
                == topology::outgoing(self.half_edges@, v, self.half_edges@.len())
    }
}

/// In a well-formed mesh the twin of the twin of a half-edge is that
/// half-edge, and the two run between the same vertices in opposite
/// directions.
pub proof fn lemma_twin_symmetry<P>(mesh: HalfEdgeMesh<P>, e: int)
    requires
        mesh.wf(),
        0 <= e < mesh.half_edges@.len(),
    ensures
        0 <= topology::twin_of(mesh.half_edges@, e) < mesh.half_edges@.len(),
        topology::twin_of(mesh.half_edges@, topology::twin_of(mesh.half_edges@, e)) == e,
        mesh.half_edges@[e].from_vertex_index == mesh.half_edges@[topology::twin_of(
            mesh.half_edges@,
            e,
        )].to_vertex_index,
        mesh.half_edges@[e].to_vertex_index == mesh.half_edges@[topology::twin_of(
            mesh.half_edges@,
            e,
        )].from_vertex_index,
{
}

/// In a well-formed mesh `next` and `prev` undo each other.
pub proof fn lemma_next_prev_inverse<P>(mesh: HalfEdgeMesh<P>, e: int)
    requires
        mesh.wf(),
        0 <= e < mesh.half_edges@.len(),
    ensures
        topology::next_of(mesh.half_edges@, topology::prev_of(mesh.half_edges@, e)) == e,
        topology::prev_of(mesh.half_edges@, topology::next_of(mesh.half_edges@, e)) == e,
{
}

/// The vertex loops of a list of faces.
pub open spec fn faces_view(faces: Seq<Face>) -> Seq<Seq<usize>> {
    Seq::new(faces.len(), |i: int| faces[i]@)
}

/// The vertex triples of a list of triangles.
pub open spec fn triangles_view(triangles: Seq<TriangleFace>) -> Seq<Seq<usize>> {
    Seq::new(triangles.len(), |i: int| triangles[i]@)
}

} // verus!
