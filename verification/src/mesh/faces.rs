//! Recovering the faces of a mesh by walking its half-edges.

use vstd::prelude::*;
use vstd::set_lib::*;
use crate::mesh::{Face, HalfEdge, HalfEdgeMesh, MeshError, faces_view};
use crate::mesh::topology::{
    all_loops_close, closes, face_loops, is_leader, leaders, lemma_closed_set_holds_walk,
    lemma_loop_len, lemma_on_walk_step, lemma_walk_add, lemma_walk_distinct, lemma_walk_in_range,
    lemma_walk_multiple, lemma_walk_periodic, links_in_range, loop_vertices, loops_from, next_of,
    on_walk, reaches_below, returns_first_at, total_len, walk,
};

verus! {

/// The half-edges that a marking holds.
spec fn marked(visited: Seq<bool>) -> Set<int> {
    Set::new(|e: int| 0 <= e < visited.len() && visited[e])
}

/// The half-edges met within the first `n` positions of the walk from `e`.
spec fn walk_set(hs: Seq<HalfEdge>, e: int, n: nat) -> Set<int>
    decreases n,
{
    if n == 0 {
        Set::empty()
    } else {
        walk_set(hs, e, (n - 1) as nat).insert(walk(hs, e, (n - 1) as nat))
    }
}

proof fn lemma_walk_set_members(hs: Seq<HalfEdge>, e: int, n: nat)
    ensures
        forall|x: int|
            #![trigger walk_set(hs, e, n).contains(x)]
            #![trigger on_walk(hs, e, n, x)]
            walk_set(hs, e, n).contains(x) <==> on_walk(hs, e, n, x),
        walk_set(hs, e, n).finite(),
    decreases n,
{
    if n == 0 {
    } else {
        let m = (n - 1) as nat;
        lemma_walk_set_members(hs, e, m);
        assert forall|x: int|
            #![trigger walk_set(hs, e, n).contains(x)]
            #![trigger on_walk(hs, e, n, x)]
            walk_set(hs, e, n).contains(x) <==> on_walk(hs, e, n, x) by {
            lemma_on_walk_step(hs, e, m, x);
            assert(walk_set(hs, e, m).contains(x) <==> on_walk(hs, e, m, x));
        }
    }
}

proof fn lemma_walk_set_len(hs: Seq<HalfEdge>, e: int, period: nat, n: nat)
    requires
        returns_first_at(hs, e, period),
        n <= period,
    ensures
        walk_set(hs, e, n).finite(),
        walk_set(hs, e, n).len() == n,
    decreases n,
{
    if n > 0 {
        let m = (n - 1) as nat;
        lemma_walk_set_len(hs, e, period, m);
        lemma_walk_set_members(hs, e, m);
        if walk_set(hs, e, m).contains(walk(hs, e, m)) {
            let i = choose|i: nat| i < m && #[trigger] walk(hs, e, i) == walk(hs, e, m);
            lemma_walk_distinct(hs, e, period, i, m);
        }
    }
}

/// What holds of the marking while the sweep stands at half-edge `start`: all
/// half-edges below `start` are marked, and each marked half-edge lies on a
/// closed loop that is marked as a whole and holds a half-edge below `start`.
spec fn sweep_inv(hs: Seq<HalfEdge>, visited: Seq<bool>, start: int) -> bool {
    &&& visited.len() == hs.len()
    &&& forall|e: int| 0 <= e < start && e < hs.len() ==> visited[e]
    &&& forall|e: int| 0 <= e < hs.len() && visited[e] ==> visited[next_of(hs, e)]
    &&& forall|e: int| 0 <= e < hs.len() && visited[e] ==> closes(hs, e)
    &&& forall|e: int| 0 <= e < hs.len() && visited[e] ==> reaches_below(hs, e, start)
}

proof fn lemma_total_len_push(loops: Seq<Seq<usize>>, l: Seq<usize>)
    ensures
        total_len(loops.push(l)) == total_len(loops) + l.len(),
{
    assert(loops.push(l).drop_last() =~= loops);
}

/// The state of the sweep after the loop through an unmarked `start` has been
/// traced and marked.
proof fn lemma_sweep_traced(
    hs: Seq<HalfEdge>,
    before: Seq<bool>,
    after: Seq<bool>,
    start: int,
    period: nat,
)
    requires
        links_in_range(hs),
        0 <= start < hs.len(),
        sweep_inv(hs, before, start),
        !before[start],
        after.len() == hs.len(),
        returns_first_at(hs, start, period),
        period <= hs.len(),
        forall|e: int|
            0 <= e < hs.len() ==> (#[trigger] after[e] <==> before[e] || on_walk(
                hs,
                start,
                period,
                e,
            )),
        marked(before).finite(),
    ensures
        sweep_inv(hs, after, start + 1),
        is_leader(hs, start),
        marked(after).finite(),
        marked(after).len() == marked(before).len() + period,
{
    assert(walk(hs, start, 0) == start);
    assert(on_walk(hs, start, period, start));
    assert forall|e: int| 0 <= e < hs.len() && after[e] implies after[next_of(hs, e)] by {
        if before[e] {
            assert(before[next_of(hs, e)]);
        } else {
            let i = choose|i: nat| i < period && #[trigger] walk(hs, start, i) == e;
            assert(walk(hs, start, i + 1) == next_of(hs, e));
            lemma_walk_in_range(hs, start, i + 1);
            if i + 1 < period {
                assert(on_walk(hs, start, period, next_of(hs, e)));
            } else {
                assert(next_of(hs, e) == start);
            }
        }
    }
    assert forall|e: int| 0 <= e < hs.len() && after[e] implies closes(hs, e) by {
        if !before[e] {
            let i = choose|i: nat| i < period && #[trigger] walk(hs, start, i) == e;
            lemma_walk_periodic(hs, start, period, i);
            assert(1 <= period <= hs.len() && walk(hs, e, period) == e);
        }
    }
    assert forall|e: int| 0 <= e < hs.len() && after[e] implies reaches_below(
        hs,
        e,
        start + 1,
    ) by {
        if before[e] {
            let k = choose|k: nat| #[trigger] walk(hs, e, k) < start;
            assert(walk(hs, e, k) < start + 1);
        } else {
            let i = choose|i: nat| i < period && #[trigger] walk(hs, start, i) == e;
            let rest = (period - i) as nat;
            lemma_walk_add(hs, start, i, rest);
            assert(walk(hs, e, rest) < start + 1);
        }
    }
    assert forall|e: int| 0 <= e < start + 1 && e < hs.len() implies after[e] by {
        if e < start {
            assert(before[e]);
        }
    }
    // no half-edge of the loop was marked before
    assert forall|k: nat| !before[#[trigger] walk(hs, start, k)] by {
        let x = walk(hs, start, k);
        lemma_walk_in_range(hs, start, k);
        if before[x] {
            lemma_walk_multiple(hs, start, period, k);
            assert(k * period >= k) by (nonlinear_arith)
                requires
                    period >= 1,
            ;
            let rest = (k * period - k) as nat;
            lemma_walk_add(hs, start, k, rest);
            lemma_closed_set_holds_walk(hs, before, x, rest);
        }
    }
    assert forall|k: nat| #[trigger] walk(hs, start, k) >= start by {
        lemma_walk_in_range(hs, start, k);
        assert(!before[walk(hs, start, k)]);
    }
    assert(1 <= period <= hs.len() && walk(hs, start, period) == start);
    // the marking has grown by the loop
    lemma_walk_set_members(hs, start, period);
    lemma_walk_set_len(hs, start, period, period);
    let added = walk_set(hs, start, period);
    assert forall|x: int| added.contains(x) implies !marked(before).contains(x) by {
        let i = choose|i: nat| i < period && #[trigger] walk(hs, start, i) == x;
        assert(!before[walk(hs, start, i)]);
    }
    assert(marked(before).disjoint(added));
    assert forall|x: int| added.contains(x) implies 0 <= x < hs.len() by {
        let i = choose|i: nat| i < period && #[trigger] walk(hs, start, i) == x;
        lemma_walk_in_range(hs, start, i);
    }
    assert(marked(after) =~= marked(before) + added);
    lemma_set_disjoint_lens(marked(before), added);
}

/// The state of the sweep after it has passed a half-edge that was marked.
proof fn lemma_sweep_skipped(hs: Seq<HalfEdge>, visited: Seq<bool>, start: int)
    requires
        0 <= start < hs.len(),
        sweep_inv(hs, visited, start),
        visited[start],
    ensures
        sweep_inv(hs, visited, start + 1),
        !is_leader(hs, start),
{
    assert forall|e: int| 0 <= e < hs.len() && visited[e] implies reaches_below(
        hs,
        e,
        start + 1,
    ) by {
        let k = choose|k: nat| #[trigger] walk(hs, e, k) < start;
        assert(walk(hs, e, k) < start + 1);
    }
    let k = choose|k: nat| #[trigger] walk(hs, start, k) < start;
    assert(!(walk(hs, start, k) >= start));
}

/// Follows `next` from `start`, recording the destination of each half-edge
/// met and marking it, until the walk is back at `start`. Gives up, with
/// `None`, when it is not back after as many steps as there are half-edges.
fn trace_loop(hs: &Vec<HalfEdge>, start: usize, visited: &mut Vec<bool>) -> (traced: Option<
    Vec<usize>,
>)
    requires
        links_in_range(hs@),
        start < hs@.len(),
        old(visited)@.len() == hs@.len(),
    ensures
        final(visited)@.len() == hs@.len(),
        traced is Some <==> closes(hs@, start as int),
        traced matches Some(verts) ==> {
            &&& verts@.len() <= hs@.len()
            &&& returns_first_at(hs@, start as int, verts@.len())
            &&& verts@ == loop_vertices(hs@, start as int)
            &&& forall|e: int|
                0 <= e < hs@.len() ==> (#[trigger] final(visited)@[e] <==> old(visited)@[e]
                    || on_walk(hs@, start as int, verts@.len(), e))
        },
{
    let n = hs.len();
    let ghost before = visited@;
    let mut verts: Vec<usize> = Vec::new();
    let mut cur = start;
    let mut steps: usize = 0;
    let mut closed = false;
    assert forall|e: int| 0 <= e < n implies (#[trigger] visited@[e] <==> before[e] || on_walk(
        hs@,
        start as int,
        0,
        e,
    )) by {}
    while steps < n && !closed
        invariant
            n == hs@.len(),
            links_in_range(hs@),
            start < n,
            visited@.len() == n,
            steps <= n,
            cur < n,
            verts@.len() == steps,
            !closed ==> cur == walk(hs@, start as int, steps as nat),
            closed ==> steps >= 1 && walk(hs@, start as int, steps as nat) == start,
            forall|j: nat| 0 < j < steps ==> #[trigger] walk(hs@, start as int, j) != start,
            !closed && steps > 0 ==> walk(hs@, start as int, steps as nat) != start,
            forall|i: int|
                0 <= i < steps ==> verts@[i] == hs@[walk(
                    hs@,
                    start as int,
                    i as nat,
                )].to_vertex_index,
            forall|e: int|
                0 <= e < n ==> (#[trigger] visited@[e] <==> before[e] || on_walk(
                    hs@,
                    start as int,
                    steps as nat,
                    e,
                )),
        decreases n - steps,
    {
        let ghost marking = visited@;
        let edge = hs[cur];
        verts.push(edge.to_vertex_index);
        visited[cur] = true;
        proof {
            assert forall|e: int| 0 <= e < n implies (#[trigger] visited@[e] <==> before[e]
                || on_walk(hs@, start as int, (steps + 1) as nat, e)) by {
                lemma_on_walk_step(hs@, start as int, steps as nat, e);
                assert(marking[e] <==> before[e] || on_walk(hs@, start as int, steps as nat, e));
            }
            assert(walk(hs@, start as int, (steps + 1) as nat) == edge.next_index);
        }
        cur = edge.next_index;
        steps += 1;
        if cur == start {
            closed = true;
        }
    }
    if closed {
        proof {
            lemma_loop_len(hs@, start as int, steps as nat);
            assert(verts@ =~= loop_vertices(hs@, start as int));
        }
        Some(verts)
    } else {
        proof {
            assert forall|j: nat| 1 <= j <= n implies #[trigger] walk(hs@, start as int, j)
                != start by {}
        }
        None
    }
}

impl<P> HalfEdgeMesh<P> {
    /// Whether every `next` link of the mesh points at one of its half-edges.
    pub fn has_links_in_range(&self) -> (ok: bool)
        ensures
            ok == links_in_range(self.half_edges@),
    {
        let n = self.half_edges.len();
        let mut e: usize = 0;
        while e < n
            invariant
                n == self.half_edges@.len(),
                e <= n,
                forall|x: int| 0 <= x < e ==> (#[trigger] self.half_edges@[x]).next_index < n,
            decreases n - e,
        {
            if self.half_edges[e].next_index >= n {
                return false;
            }
            e += 1;
        }
        true
    }

    /// Recovers the faces of the mesh.
    ///
    /// The lowest half-edge that no face holds yet starts the next face; the
    /// face is the loop that `next` forms through it, and lists the destination
    /// vertex of each half-edge of the loop, beginning with that of the start.
    /// A loop that is not closed within as many steps as the mesh has
    /// half-edges is a `TopologyCycle` error. The faces together have one
    /// entry for each half-edge.
    pub fn get_faces(&self) -> (faces: Result<Vec<Face>, MeshError>)
        requires
            links_in_range(self.half_edges@),
        ensures
            faces is Ok <==> all_loops_close(self.half_edges@),
            faces matches Err(error) ==> error == MeshError::TopologyCycle,
            faces matches Ok(found) ==> {
                &&& faces_view(found@) == face_loops(self.half_edges@)
                &&& total_len(faces_view(found@)) == self.half_edges@.len()
            },
            self.wf() ==> faces is Ok,
    {
        let n = self.half_edges.len();
        let ghost hs = self.half_edges@;
        let mut faces: Vec<Face> = Vec::new();
        let mut visited: Vec<bool> = vec![false; n];
        let mut start: usize = 0;
        proof {
            assert(marked(visited@) =~= Set::<int>::empty());
            assert(faces_view(faces@) =~= loops_from(hs, leaders(hs, 0)));
        }
        while start < n
            invariant
                n == hs.len(),
                hs == self.half_edges@,
                links_in_range(hs),
                start <= n,
                sweep_inv(hs, visited@, start as int),
                faces_view(faces@) == loops_from(hs, leaders(hs, start as nat)),
                marked(visited@).finite(),
                marked(visited@).len() == total_len(faces_view(faces@)),
            decreases n - start,
        {
            if !visited[start] {
                let ghost before = visited@;
                let ghost found = faces@;
                match trace_loop(&self.half_edges, start, &mut visited) {
                    None => {
                        return Err(MeshError::TopologyCycle);
                    },
                    Some(verts) => {
                        let face = Face { vertices: verts };
                        faces.push(face);
                        proof {
                            lemma_sweep_traced(
                                hs,
                                before,
                                visited@,
                                start as int,
                                face@.len(),
                            );
                            lemma_total_len_push(faces_view(found), face@);
                            assert(faces_view(faces@) =~= faces_view(found).push(face@));
                            assert(loops_from(hs, leaders(hs, start as nat).push(start as int))
                                =~= loops_from(hs, leaders(hs, start as nat)).push(face@));
                        }
                    },
                }
            } else {
                proof {
                    lemma_sweep_skipped(hs, visited@, start as int);
                }
            }
            start += 1;
        }
        proof {
            assert(marked(visited@) =~= set_int_range(0, n as int));
            lemma_int_range(0, n as int);
        }
        Ok(faces)
    }
}

} // verus!
