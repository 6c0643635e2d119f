//! Building a mesh from vertex positions, directed edges and face groups.

use vstd::prelude::*;
use vstd::set_lib::{lemma_int_range, lemma_len_subset, set_int_range};
use crate::mesh::{HalfEdge, HalfEdgeMesh, HalfEdgeVertex, MeshError};
use crate::mesh::topology::{
    closes, indices_in_range, lemma_closed_loops_are_disjoint, lemma_walk_add,
    next_of, next_prev_inverse, outgoing, prev_of, twin_is_involution, twin_of, twin_reverses,
    walk, well_formed,
};

verus! {

/// Edge `j` is another edge than `i` and runs between the same two vertices in
/// the opposite direction.
pub open spec fn is_reverse_of(edges: Seq<(usize, usize)>, i: int, j: int) -> bool {
    &&& i != j
    &&& edges[j].0 == edges[i].1
    &&& edges[j].1 == edges[i].0
}

/// Edge `j` is the one and only reverse of edge `i`.
pub open spec fn is_twin(edges: Seq<(usize, usize)>, i: int, j: int) -> bool {
    &&& 0 <= j < edges.len()
    &&& is_reverse_of(edges, i, j)
    &&& forall|k: int| 0 <= k < edges.len() && #[trigger] is_reverse_of(edges, i, k) ==> k == j
}

/// Edge `i` has no reverse at all.
pub open spec fn lacks_twin(edges: Seq<(usize, usize)>, i: int) -> bool {
    forall|j: int| 0 <= j < edges.len() ==> !#[trigger] is_reverse_of(edges, i, j)
}

/// Edge `i` has exactly one reverse.
pub open spec fn has_one_twin(edges: Seq<(usize, usize)>, i: int) -> bool {
    exists|j: int| #[trigger] is_twin(edges, i, j)
}

/// Every edge has exactly one reverse.
pub open spec fn is_manifold(edges: Seq<(usize, usize)>) -> bool {
    forall|i: int| 0 <= i < edges.len() ==> #[trigger] has_one_twin(edges, i)
}

/// The face groups as plain sequences.
pub open spec fn groups_view(groups: &Vec<Vec<usize>>) -> Seq<Seq<usize>> {
    Seq::new(groups@.len(), |g: int| groups@[g]@)
}

/// Position `p` of group `g` exists.
pub open spec fn is_slot(groups: Seq<Seq<usize>>, g: int, p: int) -> bool {
    0 <= g < groups.len() && 0 <= p < groups[g].len()
}

/// The groups list each of the edges `0 .. n` once, and nothing else.
pub open spec fn is_grouping(groups: Seq<Seq<usize>>, n: nat) -> bool {
    &&& forall|g: int, p: int| is_slot(groups, g, p) ==> (#[trigger] groups[g][p]) < n
    &&& forall|ga: int, pa: int, gb: int, pb: int|
        is_slot(groups, ga, pa) && is_slot(groups, gb, pb) && #[trigger] groups[ga][pa]
            == #[trigger] groups[gb][pb] ==> ga == gb && pa == pb
    &&& forall|e: int| 0 <= e < n ==> #[trigger] is_listed(groups, e)
}

/// Some position of some group holds edge `e`.
pub open spec fn is_listed(groups: Seq<Seq<usize>>, e: int) -> bool {
    exists|g: int, p: int| is_slot(groups, g, p) && #[trigger] groups[g][p] == e
}

/// The entry after position `p` of a group, cyclically.
pub open spec fn successor_in(group: Seq<usize>, p: int) -> usize {
    if p + 1 == group.len() {
        group[0]
    } else {
        group[p + 1]
    }
}

/// The entry before position `p` of a group, cyclically.
pub open spec fn predecessor_in(group: Seq<usize>, p: int) -> usize {
    if p == 0 {
        group[group.len() - 1]
    } else {
        group[p - 1]
    }
}

/// The half-edge table `hs` is what the edges and groups describe: endpoints
/// from the edge list, the twin of each edge its one reverse, and `next` and
/// `prev` the cyclic neighbours within the edge's group.
pub open spec fn describes(
    hs: Seq<HalfEdge>,
    edges: Seq<(usize, usize)>,
    groups: Seq<Seq<usize>>,
) -> bool {
    &&& hs.len() == edges.len()
    &&& forall|e: int|
        0 <= e < hs.len() ==> {
            &&& (#[trigger] hs[e]).from_vertex_index == edges[e].0
            &&& hs[e].to_vertex_index == edges[e].1
            &&& is_twin(edges, e, hs[e].twin_edge_index as int)
        }
    &&& forall|g: int, p: int|
        is_slot(groups, g, p) ==> {
            &&& hs[(#[trigger] groups[g][p]) as int].next_index == successor_in(groups[g], p)
            &&& hs[groups[g][p] as int].prev_index == predecessor_in(groups[g], p)
        }
}

/// Within a group, `k` steps of `next` lead `k` positions on.
proof fn lemma_walk_along_group(
    hs: Seq<HalfEdge>,
    groups: Seq<Seq<usize>>,
    g: int,
    p: int,
    k: nat,
)
    requires
        forall|g: int, p: int|
            is_slot(groups, g, p) ==> hs[(#[trigger] groups[g][p]) as int].next_index
                == successor_in(groups[g], p),
        is_slot(groups, g, p),
        p + k < groups[g].len(),
    ensures
        walk(hs, groups[g][p] as int, k) == groups[g][p + k],
    decreases k,
{
    if k > 0 {
        lemma_walk_along_group(hs, groups, g, p, (k - 1) as nat);
        assert(is_slot(groups, g, p + k - 1));
        assert(hs[groups[g][p + k - 1] as int].next_index == successor_in(groups[g], p + k - 1));
    }
}

/// A group of a grouping of `n` edges has at most `n` entries.
proof fn lemma_group_len(groups: Seq<Seq<usize>>, n: nat, g: int)
    requires
        is_grouping(groups, n),
        0 <= g < groups.len(),
    ensures
        groups[g].len() <= n,
{
    let entries = Seq::new(groups[g].len(), |p: int| groups[g][p] as int);
    assert forall|pa: int, pb: int|
        0 <= pa < entries.len() && 0 <= pb < entries.len() && pa != pb implies entries[pa]
        != entries[pb] by {
        assert(is_slot(groups, g, pa) && is_slot(groups, g, pb));
    }
    assert(entries.no_duplicates());
    entries.unique_seq_to_set();
    lemma_int_range(0, n as int);
    assert forall|x: int| entries.to_set().contains(x) implies set_int_range(0, n as int).contains(
        x,
    ) by {
        let p = choose|p: int| 0 <= p < entries.len() && entries[p] == x;
        assert(is_slot(groups, g, p));
    }
    lemma_len_subset(entries.to_set(), set_int_range(0, n as int));
}

/// A table that a manifold edge list and a grouping describe is well formed,
/// as long as every edge leaves an existing vertex.
pub proof fn lemma_described_is_well_formed(
    hs: Seq<HalfEdge>,
    edges: Seq<(usize, usize)>,
    groups: Seq<Seq<usize>>,
    vertex_count: nat,
)
    requires
        describes(hs, edges, groups),
        is_grouping(groups, edges.len()),
        forall|e: int| 0 <= e < edges.len() ==> (#[trigger] edges[e]).0 < vertex_count,
    ensures
        well_formed(hs, vertex_count),
{
    let n = hs.len();
    assert forall|e: int| 0 <= e < n implies {
        &&& (#[trigger] hs[e]).from_vertex_index < vertex_count
        &&& hs[e].to_vertex_index < vertex_count
        &&& hs[e].twin_edge_index < n
        &&& hs[e].next_index < n
        &&& hs[e].prev_index < n
        &&& twin_of(hs, twin_of(hs, e)) == e
        &&& next_of(hs, prev_of(hs, e)) == e
        &&& prev_of(hs, next_of(hs, e)) == e
        &&& closes(hs, e)
    } by {
        let t = hs[e].twin_edge_index as int;
        assert(is_twin(edges, e, t));
        assert(edges[t].0 < vertex_count);
        assert(is_twin(edges, t, hs[t].twin_edge_index as int));
        assert(is_reverse_of(edges, t, e));
        assert(is_listed(groups, e));
        let (g, p) = choose|g: int, p: int| is_slot(groups, g, p) && #[trigger] groups[g][p] == e;
        let group = groups[g];
        let len = group.len() as int;
        let before = if p == 0 {
            len - 1
        } else {
            p - 1
        };
        let after = if p + 1 == len {
            0
        } else {
            p + 1
        };
        assert(is_slot(groups, g, before) && is_slot(groups, g, after));
        assert(hs[e].next_index == group[after]);
        assert(hs[e].prev_index == group[before]);
        assert(groups[g][before] < n && groups[g][after] < n);
        assert(hs[groups[g][before] as int].next_index == successor_in(group, before));
        assert(hs[groups[g][after] as int].prev_index == predecessor_in(group, after));
        // once round the group
        lemma_group_len(groups, n, g);
        let to_end = (len - 1 - p) as nat;
        lemma_walk_along_group(hs, groups, g, p, to_end);
        assert(is_slot(groups, g, len - 1) && is_slot(groups, g, 0));
        assert(hs[groups[g][len - 1] as int].next_index == successor_in(group, len - 1));
        assert(walk(hs, e, to_end + 1) == group[0]);
        lemma_walk_along_group(hs, groups, g, 0, p as nat);
        lemma_walk_add(hs, e, to_end + 1, p as nat);
        assert(walk(hs, e, len as nat) == e);
    }
    assert(indices_in_range(hs, vertex_count));
    assert(twin_is_involution(hs));
    assert(twin_reverses(hs)) by {
        assert forall|e: int| 0 <= e < n implies {
            &&& hs[e].from_vertex_index == hs[#[trigger] twin_of(hs, e)].to_vertex_index
            &&& hs[e].to_vertex_index == hs[twin_of(hs, e)].from_vertex_index
        } by {
            assert(is_twin(edges, e, hs[e].twin_edge_index as int));
            assert(hs[e].twin_edge_index < n);
        }
    }
    assert(next_prev_inverse(hs));
    assert forall|e: int| 0 <= e < n implies #[trigger] closes(hs, e) by {
        assert(hs[e].next_index < n);
    }
    lemma_closed_loops_are_disjoint(hs);
}

/// Looks for the one reverse of edge `i`.
fn find_twin(edges: &Vec<(usize, usize)>, i: usize) -> (twin: Option<usize>)
    requires
        i < edges@.len(),
    ensures
        twin matches Some(j) ==> is_twin(edges@, i as int, j as int),
        twin is None ==> !has_one_twin(edges@, i as int),
{
    let n = edges.len();
    let (from, to) = edges[i];
    let mut found: Option<usize> = None;
    let mut j: usize = 0;
    while j < n
        invariant
            n == edges@.len(),
            i < n,
            j <= n,
            from == edges@[i as int].0,
            to == edges@[i as int].1,
            found matches Some(first) ==> first < j && is_reverse_of(edges@, i as int, first as int)
                && forall|k: int|
                0 <= k < j && #[trigger] is_reverse_of(edges@, i as int, k) ==> k == first,
            found is None ==> forall|k: int| 0 <= k < j ==> !#[trigger] is_reverse_of(
                edges@,
                i as int,
                k,
            ),
        decreases n - j,
    {
        let (other_from, other_to) = edges[j];
        if j != i && other_from == to && other_to == from {
            match found {
                Some(first) => {
                    proof {
                        assert forall|t: int| !#[trigger] is_twin(edges@, i as int, t) by {
                            assert(is_reverse_of(edges@, i as int, first as int));
                            assert(is_reverse_of(edges@, i as int, j as int));
                        }
                    }
                    return None;
                },
                None => {
                    found = Some(j);
                },
            }
        }
        j += 1;
    }
    proof {
        if found is None {
            assert forall|t: int| !#[trigger] is_twin(edges@, i as int, t) by {
                if 0 <= t < n {
                    assert(!is_reverse_of(edges@, i as int, t));
                }
            }
        }
    }
    found
}

/// Pairs every edge with its one reverse, or finds that some edge has none or
/// several.
fn pair_twins(edges: &Vec<(usize, usize)>) -> (twins: Option<Vec<usize>>)
    ensures
        twins is Some <==> is_manifold(edges@),
        twins matches Some(t) ==> t@.len() == edges@.len() && forall|i: int|
            0 <= i < edges@.len() ==> is_twin(edges@, i, #[trigger] t@[i] as int),
{
    let n = edges.len();
    let mut twins: Vec<usize> = Vec::new();
    let mut i: usize = 0;
    while i < n
        invariant
            n == edges@.len(),
            i <= n,
            twins@.len() == i,
            forall|k: int| 0 <= k < i ==> is_twin(edges@, k, #[trigger] twins@[k] as int),
        decreases n - i,
    {
        match find_twin(edges, i) {
            Some(j) => {
                twins.push(j);
            },
            None => {
                return None;
            },
        }
        i += 1;
    }
    proof {
        assert forall|k: int| 0 <= k < n implies #[trigger] has_one_twin(edges@, k) by {
            assert(is_twin(edges@, k, twins@[k] as int));
        }
    }
    Some(twins)
}

/// Slot `(ga, pa)` comes before slot `(gb, pb)` in reading order.
spec fn slot_before(ga: int, pa: int, gb: int, pb: int) -> bool {
    ga < gb || (ga == gb && pa < pb)
}

/// What holds of the links while the slots before `(g, p)` have been read.
spec fn linked_before(
    groups: Seq<Seq<usize>>,
    seen: Seq<bool>,
    next: Seq<usize>,
    prev: Seq<usize>,
    place: Seq<(int, int)>,
    g: int,
    p: int,
) -> bool {
    &&& seen.len() == next.len() == prev.len() == place.len()
    &&& forall|e: int|
        0 <= e < seen.len() && #[trigger] seen[e] ==> {
            &&& is_slot(groups, place[e].0, place[e].1)
            &&& slot_before(place[e].0, place[e].1, g, p)
            &&& groups[place[e].0][place[e].1] == e
            &&& next[e] == successor_in(groups[place[e].0], place[e].1)
            &&& prev[e] == predecessor_in(groups[place[e].0], place[e].1)
        }
    &&& forall|ga: int, pa: int|
        is_slot(groups, ga, pa) && slot_before(ga, pa, g, p) ==> {
            &&& (#[trigger] groups[ga][pa]) < seen.len()
            &&& seen[groups[ga][pa] as int]
            &&& place[groups[ga][pa] as int] == (ga, pa)
        }
}

/// Reads `next` and `prev` of each of `n` edges off the face groups, or finds
/// that the groups do not list each edge once.
fn link_groups(groups: &Vec<Vec<usize>>, n: usize) -> (links: Option<(Vec<usize>, Vec<usize>)>)
    ensures
        links is Some <==> is_grouping(groups_view(groups), n as nat),
        links matches Some((next, prev)) ==> {
            &&& next@.len() == n
            &&& prev@.len() == n
            &&& forall|g: int, p: int|
                is_slot(groups_view(groups), g, p) ==> {
                    &&& next@[(#[trigger] groups_view(groups)[g][p]) as int] == successor_in(
                        groups_view(groups)[g],
                        p,
                    )
                    &&& prev@[groups_view(groups)[g][p] as int] == predecessor_in(
                        groups_view(groups)[g],
                        p,
                    )
                }
        },
{
    let ghost gv = groups_view(groups);
    let mut next: Vec<usize> = vec![0; n];
    let mut prev: Vec<usize> = vec![0; n];
    let mut seen: Vec<bool> = vec![false; n];
    let ghost mut place: Seq<(int, int)> = Seq::new(n as nat, |e: int| (0int, 0int));
    let mut g: usize = 0;
    while g < groups.len()
        invariant
            gv == groups_view(groups),
            g <= groups@.len(),
            seen@.len() == n,
            linked_before(gv, seen@, next@, prev@, place, g as int, 0),
        decreases groups@.len() - g,
    {
        let group = &groups[g];
        let len = group.len();
        assert(gv[g as int] == group@);
        let mut p: usize = 0;
        while p < len
            invariant
                gv == groups_view(groups),
                g < groups@.len(),
                group@ == gv[g as int],
                len == group@.len(),
                p <= len,
                seen@.len() == n,
                linked_before(gv, seen@, next@, prev@, place, g as int, p as int),
            decreases len - p,
        {
            let e = group[p];
            if e >= n {
                proof {
                    assert(is_slot(gv, g as int, p as int));
                    assert(!(gv[g as int][p as int] < n));
                }
                return None;
            }
            if seen[e] {
                proof {
                    assert(is_slot(gv, g as int, p as int));
                    assert(is_slot(gv, place[e as int].0, place[e as int].1));
                    assert(gv[place[e as int].0][place[e as int].1] == gv[g as int][p as int]);
                }
                return None;
            }
            let after = if p + 1 == len {
                group[0]
            } else {
                group[p + 1]
            };
            let before = if p == 0 {
                group[len - 1]
            } else {
                group[p - 1]
            };
            let ghost old_seen = seen@;
            let ghost old_place = place;
            seen[e] = true;
            next[e] = after;
            prev[e] = before;
            proof {
                place = place.update(e as int, (g as int, p as int));
                assert forall|ga: int, pa: int|
                    is_slot(gv, ga, pa) && slot_before(ga, pa, g as int, p + 1) implies {
                    &&& (#[trigger] gv[ga][pa]) < seen@.len()
                    &&& seen@[gv[ga][pa] as int]
                    &&& place[gv[ga][pa] as int] == (ga, pa)
                } by {
                    if slot_before(ga, pa, g as int, p as int) {
                        assert(old_seen[gv[ga][pa] as int]);
                    }
                }
                assert forall|x: int| 0 <= x < seen@.len() && #[trigger] seen@[x] implies {
                    &&& is_slot(gv, place[x].0, place[x].1)
                    &&& slot_before(place[x].0, place[x].1, g as int, p + 1)
                    &&& gv[place[x].0][place[x].1] == x
                    &&& next@[x] == successor_in(gv[place[x].0], place[x].1)
                    &&& prev@[x] == predecessor_in(gv[place[x].0], place[x].1)
                } by {
                    if x != e {
                        assert(old_seen[x]);
                    }
                }
            }
            p += 1;
        }
        proof {
            assert forall|ga: int, pa: int|
                is_slot(gv, ga, pa) && slot_before(ga, pa, g + 1, 0) implies slot_before(
                ga,
                pa,
                g as int,
                len as int,
            ) by {}
            assert forall|ga: int, pa: int| slot_before(ga, pa, g as int, len as int)
                implies slot_before(ga, pa, g + 1, 0) by {}
        }
        g += 1;
    }
    proof {
        let last = groups@.len() as int;
        assert forall|ga: int, pa: int| is_slot(gv, ga, pa) implies slot_before(ga, pa, last, 0) by {}
        assert forall|ga: int, pa: int, gb: int, pb: int|
            is_slot(gv, ga, pa) && is_slot(gv, gb, pb) && #[trigger] gv[ga][pa]
                == #[trigger] gv[gb][pb] implies ga == gb && pa == pb by {
            assert(place[gv[ga][pa] as int] == (ga, pa));
            assert(place[gv[gb][pb] as int] == (gb, pb));
        }
        assert forall|ga: int, pa: int| is_slot(gv, ga, pa) implies {
            &&& (#[trigger] gv[ga][pa]) < n
            &&& next@[gv[ga][pa] as int] == successor_in(gv[ga], pa)
            &&& prev@[gv[ga][pa] as int] == predecessor_in(gv[ga], pa)
        } by {
            assert(seen@[gv[ga][pa] as int]);
            assert(place[gv[ga][pa] as int] == (ga, pa));
        }
        assert forall|x: int| 0 <= x < n implies (seen@[x] <==> #[trigger] is_listed(gv, x)) by {
            if seen@[x] {
                assert(is_slot(gv, place[x].0, place[x].1) && gv[place[x].0][place[x].1] == x);
            }
            if is_listed(gv, x) {
                let (ga, pa) = choose|ga: int, pa: int|
                    is_slot(gv, ga, pa) && #[trigger] gv[ga][pa] == x;
                assert(seen@[gv[ga][pa] as int]);
            }
        }
    }
    let mut e: usize = 0;
    while e < n
        invariant
            e <= n,
            seen@.len() == n,
            gv == groups_view(groups),
            forall|x: int| 0 <= x < n ==> (seen@[x] <==> #[trigger] is_listed(gv, x)),
            forall|x: int| 0 <= x < e ==> #[trigger] is_listed(gv, x),
        decreases n - e,
    {
        if !seen[e] {
            assert(!is_listed(gv, e as int));
            return None;
        }
        e += 1;
    }
    Some((next, prev))
}

/// Lists the half-edges that leave vertex `v`, in ascending order.
fn outgoing_half_edges(half_edges: &Vec<HalfEdge>, v: usize) -> (list: Vec<usize>)
    ensures
        list@ == outgoing(half_edges@, v as int, half_edges@.len()),
{
    let n = half_edges.len();
    let mut list: Vec<usize> = Vec::new();
    let mut e: usize = 0;
    while e < n
        invariant
            n == half_edges@.len(),
            e <= n,
            list@ == outgoing(half_edges@, v as int, e as nat),
        decreases n - e,
    {
        if half_edges[e].from_vertex_index == v {
            list.push(e);
        }
        e += 1;
    }
    list
}

/// Whether every edge leaves one of `vertex_count` vertices.
pub fn origins_in_range(edges: &Vec<(usize, usize)>, vertex_count: usize) -> (ok: bool)
    ensures
        ok == forall|e: int| 0 <= e < edges@.len() ==> (#[trigger] edges@[e]).0 < vertex_count,
{
    let mut e: usize = 0;
    while e < edges.len()
        invariant
            e <= edges@.len(),
            forall|x: int| 0 <= x < e ==> (#[trigger] edges@[x]).0 < vertex_count,
        decreases edges@.len() - e,
    {
        if edges[e].0 >= vertex_count {
            return false;
        }
        e += 1;
    }
    true
}

impl<P> HalfEdgeMesh<P> {
    /// Builds the mesh of the given vertex positions, directed edges
    /// `(origin, destination)` and face groups, each group listing the edges of
    /// one face in boundary order.
    ///
    /// Every edge must leave one of the given vertices. The mesh has one
    /// vertex per position and one half-edge per edge, under the same indices.
    /// The twin of a half-edge is the one other edge that runs the opposite
    /// way; where some edge has no such edge, or several, the result is
    /// `MeshMalformed`. `next` and `prev` are the cyclic neighbours within the
    /// edge's group; where the groups do not list each edge exactly once, the
    /// result is `TopologyCycle`. A mesh that is built is well formed.
    pub fn build(
        positions: Vec<P>,
        edges: &Vec<(usize, usize)>,
        face_groups: &Vec<Vec<usize>>,
    ) -> (built: Result<HalfEdgeMesh<P>, MeshError>)
        requires
            forall|e: int| 0 <= e < edges@.len() ==> (#[trigger] edges@[e]).0 < positions@.len(),
        ensures
            built is Ok <==> is_manifold(edges@) && is_grouping(
                groups_view(face_groups),
                edges@.len(),
            ),
            built == Err::<HalfEdgeMesh<P>, MeshError>(MeshError::MeshMalformed) <==> !is_manifold(
                edges@,
            ),
            built == Err::<HalfEdgeMesh<P>, MeshError>(MeshError::TopologyCycle) <==> is_manifold(
                edges@,
            ) && !is_grouping(groups_view(face_groups), edges@.len()),
            (exists|i: int| 0 <= i < edges@.len() && lacks_twin(edges@, i)) ==> built == Err::<
                HalfEdgeMesh<P>,
                MeshError,
            >(MeshError::MeshMalformed),
            built matches Ok(mesh) ==> {
                &&& mesh.wf()
                &&& describes(mesh.half_edges@, edges@, groups_view(face_groups))
                &&& mesh.vertices@.len() == positions@.len()
                &&& forall|v: int|
                    0 <= v < positions@.len() ==> (#[trigger] mesh.vertices@[v]).position
                        == positions@[v]
            },
    {
        let n = edges.len();
        let ghost gv = groups_view(face_groups);
        proof {
            if exists|i: int| 0 <= i < edges@.len() && lacks_twin(edges@, i) {
                let i = choose|i: int| 0 <= i < edges@.len() && lacks_twin(edges@, i);
                assert forall|j: int| !#[trigger] is_twin(edges@, i, j) by {
                    if 0 <= j < n {
                        assert(!is_reverse_of(edges@, i, j));
                    }
                }
                assert(!has_one_twin(edges@, i));
                assert(!is_manifold(edges@));
            }
        }
        let twins = match pair_twins(edges) {
            Some(twins) => twins,
            None => {
                return Err(MeshError::MeshMalformed);
            },
        };
        let (next, prev) = match link_groups(face_groups, n) {
            Some(links) => links,
            None => {
                return Err(MeshError::TopologyCycle);
            },
        };
        let mut half_edges: Vec<HalfEdge> = Vec::new();
        let mut e: usize = 0;
        while e < n
            invariant
                n == edges@.len(),
                e <= n,
                twins@.len() == n,
                next@.len() == n,
                prev@.len() == n,
                half_edges@.len() == e,
                forall|x: int|
                    0 <= x < e ==> {
                        &&& (#[trigger] half_edges@[x]).from_vertex_index == edges@[x].0
                        &&& half_edges@[x].to_vertex_index == edges@[x].1
                        &&& half_edges@[x].twin_edge_index == twins@[x]
                        &&& half_edges@[x].next_index == next@[x]
                        &&& half_edges@[x].prev_index == prev@[x]
                    },
            decreases n - e,
        {
            let (from, to) = edges[e];
            half_edges.push(
                HalfEdge {
                    from_vertex_index: from,
                    to_vertex_index: to,
                    twin_edge_index: twins[e],
                    next_index: next[e],
                    prev_index: prev[e],
                },
            );
            e += 1;
        }
        proof {
            assert forall|g: int, p: int| is_slot(gv, g, p) implies {
                &&& half_edges@[(#[trigger] gv[g][p]) as int].next_index == successor_in(gv[g], p)
                &&& half_edges@[gv[g][p] as int].prev_index == predecessor_in(gv[g], p)
            } by {
                assert(gv[g][p] < n);
            }
            assert(describes(half_edges@, edges@, gv));
            lemma_described_is_well_formed(half_edges@, edges@, gv, positions@.len());
        }
        // move the positions into the vertex table, last first and back again
        let ghost given = positions@;
        let mut positions = positions;
        let mut reversed: Vec<HalfEdgeVertex<P>> = Vec::new();
        while positions.len() > 0
            invariant
                positions@.len() + reversed@.len() == given.len(),
                positions@ == given.subrange(0, positions@.len() as int),
                forall|k: int|
                    0 <= k < reversed@.len() ==> {
                        &&& (#[trigger] reversed@[k]).position == given[given.len() - 1 - k]
                        &&& reversed@[k].incident_half_edge_indices@ == outgoing(
                            half_edges@,
                            given.len() - 1 - k,
                            half_edges@.len(),
                        )
                    },
            decreases positions@.len(),
        {
            let v = positions.len() - 1;
            let position = positions.pop().unwrap();
            let incident = outgoing_half_edges(&half_edges, v);
            reversed.push(HalfEdgeVertex { position, incident_half_edge_indices: incident });
        }
        let mut vertices: Vec<HalfEdgeVertex<P>> = Vec::new();
        while reversed.len() > 0
            invariant
                vertices@.len() + reversed@.len() == given.len(),
                forall|k: int|
                    0 <= k < reversed@.len() ==> {
                        &&& (#[trigger] reversed@[k]).position == given[given.len() - 1 - k]
                        &&& reversed@[k].incident_half_edge_indices@ == outgoing(
                            half_edges@,
                            given.len() - 1 - k,
                            half_edges@.len(),
                        )
                    },
                forall|v: int|
                    0 <= v < vertices@.len() ==> {
                        &&& (#[trigger] vertices@[v]).position == given[v]
                        &&& vertices@[v].incident_half_edge_indices@ == outgoing(
                            half_edges@,
                            v,
                            half_edges@.len(),
                        )
                    },
            decreases reversed@.len(),
        {
            let vertex = reversed.pop().unwrap();
            vertices.push(vertex);
        }
        Ok(HalfEdgeMesh { vertices, half_edges })
    }
}

} // verus!
