//! The `next` relation of a half-edge table and the loops it forms.
//!
//! Everything here is stated over the plain sequence of half-edge records.

use vstd::prelude::*;
use crate::mesh::HalfEdge;

verus! {

/// The successor of half-edge `e` along its face.
pub open spec fn next_of(hs: Seq<HalfEdge>, e: int) -> int {
    hs[e].next_index as int
}

/// The predecessor of half-edge `e` along its face.
pub open spec fn prev_of(hs: Seq<HalfEdge>, e: int) -> int {
    hs[e].prev_index as int
}

/// The oppositely directed partner of half-edge `e`.
pub open spec fn twin_of(hs: Seq<HalfEdge>, e: int) -> int {
    hs[e].twin_edge_index as int
}

/// Every `next` link points at a half-edge of the table.
pub open spec fn links_in_range(hs: Seq<HalfEdge>) -> bool {
    forall|e: int| 0 <= e < hs.len() ==> (#[trigger] hs[e]).next_index < hs.len()
}

/// The half-edge reached from `e` by following `next` `n` times.
pub open spec fn walk(hs: Seq<HalfEdge>, e: int, n: nat) -> int
    decreases n,
{
    if n == 0 {
        e
    } else {
        next_of(hs, walk(hs, e, (n - 1) as nat))
    }
}

/// Following `next` from `e` leads back to `e` within as many steps as the
/// table has half-edges.
pub open spec fn closes(hs: Seq<HalfEdge>, e: int) -> bool {
    exists|n: nat| 1 <= n <= hs.len() && #[trigger] walk(hs, e, n) == e
}

/// Every half-edge lies on a closed loop.
pub open spec fn all_loops_close(hs: Seq<HalfEdge>) -> bool {
    forall|e: int| 0 <= e < hs.len() ==> #[trigger] closes(hs, e)
}

/// The walk from `e` is back at `e` after `n >= 1` steps and not before.
pub open spec fn returns_first_at(hs: Seq<HalfEdge>, e: int, n: nat) -> bool {
    &&& n >= 1
    &&& walk(hs, e, n) == e
    &&& forall|j: nat| 0 < j < n ==> #[trigger] walk(hs, e, j) != e
}

/// The number of half-edges on the loop through `e`.
pub open spec fn loop_len(hs: Seq<HalfEdge>, e: int) -> nat {
    choose|n: nat| returns_first_at(hs, e, n)
}

/// The destination vertices met on the loop through `e`, starting with the
/// destination of `e` itself.
pub open spec fn loop_vertices(hs: Seq<HalfEdge>, e: int) -> Seq<usize> {
    Seq::new(loop_len(hs, e), |j: int| hs[walk(hs, e, j as nat)].to_vertex_index)
}

/// Half-edge `x` is met within the first `n` positions of the walk from `e`.
pub open spec fn on_walk(hs: Seq<HalfEdge>, e: int, n: nat, x: int) -> bool {
    exists|i: nat| i < n && #[trigger] walk(hs, e, i) == x
}

/// The walk from `e` meets some half-edge of index below `bound`.
pub open spec fn reaches_below(hs: Seq<HalfEdge>, e: int, bound: int) -> bool {
    exists|k: nat| #[trigger] walk(hs, e, k) < bound
}

/// `e` lies on a closed loop and no half-edge of that loop has a lower index.
pub open spec fn is_leader(hs: Seq<HalfEdge>, e: int) -> bool {
    &&& closes(hs, e)
    &&& forall|k: nat| #[trigger] walk(hs, e, k) >= e
}

/// The leaders among the half-edges `0 .. n`, in ascending order.
pub open spec fn leaders(hs: Seq<HalfEdge>, n: nat) -> Seq<int>
    decreases n,
{
    if n == 0 {
        Seq::empty()
    } else if is_leader(hs, n - 1) {
        leaders(hs, (n - 1) as nat).push(n - 1)
    } else {
        leaders(hs, (n - 1) as nat)
    }
}

/// The vertex loops that start at the given half-edges.
pub open spec fn loops_from(hs: Seq<HalfEdge>, starts: Seq<int>) -> Seq<Seq<usize>> {
    Seq::new(starts.len(), |k: int| loop_vertices(hs, starts[k]))
}

/// The faces of the table: one vertex loop per leader, by ascending leader.
pub open spec fn face_loops(hs: Seq<HalfEdge>) -> Seq<Seq<usize>> {
    loops_from(hs, leaders(hs, hs.len()))
}

/// The number of entries of all loops together.
pub open spec fn total_len(loops: Seq<Seq<usize>>) -> nat
    decreases loops.len(),
{
    if loops.len() == 0 {
        0
    } else {
        total_len(loops.drop_last()) + loops.last().len()
    }
}

/// Every index that a half-edge holds points into the vertex table or the
/// half-edge table.
pub open spec fn indices_in_range(hs: Seq<HalfEdge>, vertex_count: nat) -> bool {
    forall|e: int|
        0 <= e < hs.len() ==> {
            &&& (#[trigger] hs[e]).from_vertex_index < vertex_count
            &&& hs[e].to_vertex_index < vertex_count
            &&& hs[e].twin_edge_index < hs.len()
            &&& hs[e].next_index < hs.len()
            &&& hs[e].prev_index < hs.len()
        }
}

/// The twin of the twin of a half-edge is that half-edge.
pub open spec fn twin_is_involution(hs: Seq<HalfEdge>) -> bool {
    forall|e: int| 0 <= e < hs.len() ==> twin_of(hs, #[trigger] twin_of(hs, e)) == e
}

/// A half-edge and its twin join the same two vertices in opposite directions.
pub open spec fn twin_reverses(hs: Seq<HalfEdge>) -> bool {
    forall|e: int|
        0 <= e < hs.len() ==> {
            &&& hs[e].from_vertex_index == hs[#[trigger] twin_of(hs, e)].to_vertex_index
            &&& hs[e].to_vertex_index == hs[twin_of(hs, e)].from_vertex_index
        }
}

/// `next` and `prev` undo each other.
pub open spec fn next_prev_inverse(hs: Seq<HalfEdge>) -> bool {
    &&& forall|e: int| 0 <= e < hs.len() ==> next_of(hs, #[trigger] prev_of(hs, e)) == e
    &&& forall|e: int| 0 <= e < hs.len() ==> prev_of(hs, #[trigger] next_of(hs, e)) == e
}

/// The walk from `a` meets `b`.
pub open spec fn same_loop(hs: Seq<HalfEdge>, a: int, b: int) -> bool {
    exists|k: nat| #[trigger] walk(hs, a, k) == b
}

/// No half-edge lies on two loops: loops that share a half-edge are the same.
pub open spec fn loops_are_disjoint(hs: Seq<HalfEdge>) -> bool {
    forall|a: int, b: int, x: int|
        0 <= a < hs.len() && 0 <= b < hs.len() && #[trigger] same_loop(hs, a, x)
            && #[trigger] same_loop(hs, b, x) ==> same_loop(hs, a, b)
}

/// The half-edges among `0 .. n` that leave vertex `v`, in ascending order.
pub open spec fn outgoing(hs: Seq<HalfEdge>, v: int, n: nat) -> Seq<usize>
    decreases n,
{
    if n == 0 {
        Seq::empty()
    } else if hs[n - 1].from_vertex_index == v {
        outgoing(hs, v, (n - 1) as nat).push((n - 1) as usize)
    } else {
        outgoing(hs, v, (n - 1) as nat)
    }
}

/// The invariants of a half-edge table over `vertex_count` vertices: indices
/// in range, twin symmetry, `next`/`prev` consistency, closure of every loop,
/// and each half-edge on one loop only.
pub open spec fn well_formed(hs: Seq<HalfEdge>, vertex_count: nat) -> bool {
    &&& indices_in_range(hs, vertex_count)
    &&& twin_is_involution(hs)
    &&& twin_reverses(hs)
    &&& next_prev_inverse(hs)
    &&& all_loops_close(hs)
    &&& loops_are_disjoint(hs)
}

/// A walk never leaves the table.
pub proof fn lemma_walk_in_range(hs: Seq<HalfEdge>, e: int, n: nat)
    requires
        links_in_range(hs),
        0 <= e < hs.len(),
    ensures
        0 <= walk(hs, e, n) < hs.len(),
    decreases n,
{
    if n > 0 {
        lemma_walk_in_range(hs, e, (n - 1) as nat);
    }
}

/// Walking `a` steps and then `b` steps is walking `a + b` steps.
pub proof fn lemma_walk_add(hs: Seq<HalfEdge>, e: int, a: nat, b: nat)
    ensures
        walk(hs, walk(hs, e, a), b) == walk(hs, e, a + b),
    decreases b,
{
    if b > 0 {
        lemma_walk_add(hs, e, a, (b - 1) as nat);
        assert((a + b - 1) as nat == a + (b - 1) as nat);
    }
}

/// A walk that is back at its start after `p` steps is back there after any
/// multiple of `p` steps.
pub proof fn lemma_walk_multiple(hs: Seq<HalfEdge>, e: int, p: nat, q: nat)
    requires
        walk(hs, e, p) == e,
    ensures
        walk(hs, e, q * p) == e,
    decreases q,
{
    if q == 0 {
        assert(q * p == 0) by (nonlinear_arith)
            requires
                q == 0,
        ;
    } else {
        let r = (q - 1) as nat;
        lemma_walk_multiple(hs, e, p, r);
        lemma_walk_add(hs, e, r * p, p);
        assert(r * p + p == q * p) by (nonlinear_arith)
            requires
                r + 1 == q,
        ;
    }
}

/// Every half-edge on a loop of period `n` has period `n` itself.
pub proof fn lemma_walk_periodic(hs: Seq<HalfEdge>, e: int, n: nat, i: nat)
    requires
        walk(hs, e, n) == e,
    ensures
        walk(hs, walk(hs, e, i), n) == walk(hs, e, i),
{
    lemma_walk_add(hs, e, i, n);
    lemma_walk_add(hs, e, n, i);
}

/// The first return of a walk to its start is unique.
pub proof fn lemma_first_return_unique(hs: Seq<HalfEdge>, e: int, n1: nat, n2: nat)
    requires
        returns_first_at(hs, e, n1),
        returns_first_at(hs, e, n2),
    ensures
        n1 == n2,
{
}

/// A first return fixes the length of the loop.
pub proof fn lemma_loop_len(hs: Seq<HalfEdge>, e: int, n: nat)
    requires
        returns_first_at(hs, e, n),
    ensures
        loop_len(hs, e) == n,
{
    lemma_first_return_unique(hs, e, n, loop_len(hs, e));
}

/// Before its first return a walk meets no half-edge twice.
pub proof fn lemma_walk_distinct(hs: Seq<HalfEdge>, e: int, n: nat, a: nat, b: nat)
    requires
        returns_first_at(hs, e, n),
        a < b < n,
    ensures
        walk(hs, e, a) != walk(hs, e, b),
{
    if walk(hs, e, a) == walk(hs, e, b) {
        let rest = (n - b) as nat;
        lemma_walk_add(hs, e, a, rest);
        lemma_walk_add(hs, e, b, rest);
        assert(walk(hs, e, a + rest) == e);
        assert(0 < a + rest < n);
    }
}

/// One more step of a walk meets one more half-edge.
pub proof fn lemma_on_walk_step(hs: Seq<HalfEdge>, e: int, n: nat, x: int)
    ensures
        on_walk(hs, e, n + 1, x) <==> on_walk(hs, e, n, x) || walk(hs, e, n) == x,
{
    if on_walk(hs, e, n + 1, x) {
        let i = choose|i: nat| i < n + 1 && #[trigger] walk(hs, e, i) == x;
        if i < n {
            assert(on_walk(hs, e, n, x));
        }
    }
    if on_walk(hs, e, n, x) {
        let i = choose|i: nat| i < n && #[trigger] walk(hs, e, i) == x;
        assert(i < n + 1 && walk(hs, e, i) == x);
    }
    if walk(hs, e, n) == x {
        assert(n < n + 1 && walk(hs, e, n) == x);
    }
}

/// A set of half-edges that holds the successor of each of its members holds
/// everything that a walk from a member meets.
pub proof fn lemma_closed_set_holds_walk(hs: Seq<HalfEdge>, member: Seq<bool>, e: int, m: nat)
    requires
        links_in_range(hs),
        member.len() == hs.len(),
        forall|x: int| 0 <= x < hs.len() && member[x] ==> member[next_of(hs, x)],
        0 <= e < hs.len(),
        member[e],
    ensures
        0 <= walk(hs, e, m) < hs.len(),
        member[walk(hs, e, m)],
    decreases m,
{
    lemma_walk_in_range(hs, e, m);
    if m > 0 {
        lemma_closed_set_holds_walk(hs, member, e, (m - 1) as nat);
    }
}

/// Two closed loops that share a half-edge are one loop: where walks from `a`
/// and from `b` meet and `b` lies on a closed loop, the walk from `a` meets `b`.
pub proof fn lemma_loops_disjoint(hs: Seq<HalfEdge>, a: int, b: int, i: nat, j: nat)
    requires
        closes(hs, b),
        walk(hs, a, i) == walk(hs, b, j),
    ensures
        same_loop(hs, a, b),
{
    let p = choose|n: nat| 1 <= n <= hs.len() && #[trigger] walk(hs, b, n) == b;
    lemma_walk_multiple(hs, b, p, j);
    assert(j * p >= j) by (nonlinear_arith)
        requires
            p >= 1,
    ;
    let rest = (j * p - j) as nat;
    lemma_walk_add(hs, b, j, rest);
    lemma_walk_add(hs, a, i, rest);
    assert(walk(hs, a, i + rest) == b);
}

/// Where every loop closes, no half-edge lies on two loops.
pub proof fn lemma_closed_loops_are_disjoint(hs: Seq<HalfEdge>)
    requires
        all_loops_close(hs),
    ensures
        loops_are_disjoint(hs),
{
    assert forall|a: int, b: int, x: int|
        0 <= a < hs.len() && 0 <= b < hs.len() && #[trigger] same_loop(hs, a, x)
            && #[trigger] same_loop(hs, b, x) implies same_loop(hs, a, b) by {
        let i = choose|k: nat| #[trigger] walk(hs, a, k) == x;
        let j = choose|k: nat| #[trigger] walk(hs, b, k) == x;
        lemma_loops_disjoint(hs, a, b, i, j);
    }
}

} // verus!
