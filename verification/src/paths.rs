use vstd::prelude::*;

use crate::connection::Connection;
use crate::graph::{has_edge, is_path, reaches};

verus! {

/// No node can reach itself through one or more edges.
pub open spec fn acyclic(edges: Seq<(usize, usize, Connection)>) -> bool {
    forall|a: int, b: int| has_edge(edges, a, b) ==> !reaches(edges, b, a)
}

/// Every node reaches itself.
pub proof fn lemma_reaches_refl(edges: Seq<(usize, usize, Connection)>, a: int)
    ensures
        reaches(edges, a, a),
{
    let p = seq![a];
    assert(is_path(edges, p));
}

/// A walk to `b` followed by an edge from `b` to `c` is a walk to `c`.
pub proof fn lemma_reaches_step(edges: Seq<(usize, usize, Connection)>, a: int, b: int, c: int)
    requires
        reaches(edges, a, b),
        has_edge(edges, b, c),
    ensures
        reaches(edges, a, c),
{
    let p = choose|p: Seq<int>| #[trigger] is_path(edges, p) && p[0] == a && p.last() == b;
    let q = p.push(c);
    assert forall|i: int| 0 <= i < q.len() - 1 implies #[trigger] has_edge(edges, q[i], q[i + 1]) by {
        if i < p.len() - 1 {
            assert(q[i] == p[i] && q[i + 1] == p[i + 1]);
        }
    }
    assert(is_path(edges, q));
}

/// Walks compose.
pub proof fn lemma_reaches_trans(edges: Seq<(usize, usize, Connection)>, a: int, b: int, c: int)
    requires
        reaches(edges, a, b),
        reaches(edges, b, c),
    ensures
        reaches(edges, a, c),
{
    let p = choose|p: Seq<int>| #[trigger] is_path(edges, p) && p[0] == a && p.last() == b;
    let q = choose|q: Seq<int>| #[trigger] is_path(edges, q) && q[0] == b && q.last() == c;
    let r = p + q.skip(1);
    assert forall|i: int| 0 <= i < r.len() - 1 implies #[trigger] has_edge(edges, r[i], r[i + 1]) by {
        if i < p.len() - 1 {
            assert(r[i] == p[i] && r[i + 1] == p[i + 1]);
        } else if i == p.len() - 1 {
            assert(r[i] == q[0] && r[i + 1] == q[1]);
        } else {
            let k = i - p.len() + 1;
            assert(r[i] == q[k] && r[i + 1] == q[k + 1]);
        }
    }
    if q.len() == 1 {
        assert(r =~= p);
    }
    assert(is_path(edges, r));
}

/// The edges of a graph after one more edge is appended.
pub open spec fn with_edge(
    edges: Seq<(usize, usize, Connection)>,
    p: usize,
    c: usize,
    w: Connection,
) -> Seq<(usize, usize, Connection)> {
    edges.push((p, c, w))
}

/// An edge of the extended graph is an old edge or the new one.
pub proof fn lemma_has_edge_with_edge(
    edges: Seq<(usize, usize, Connection)>,
    p: usize,
    c: usize,
    w: Connection,
    a: int,
    b: int,
)
    ensures
        has_edge(with_edge(edges, p, c, w), a, b) <==> (has_edge(edges, a, b) || (a == p && b
            == c)),
{
    let e2 = with_edge(edges, p, c, w);
    if has_edge(edges, a, b) {
        let e = choose|e: int| 0 <= e < edges.len() && #[trigger] edges[e].0 == a && edges[e].1 == b;
        assert(e2[e] == edges[e]);
    }
    if a == p && b == c {
        assert(e2[edges.len() as int].0 == a);
    }
    if has_edge(e2, a, b) {
        let e = choose|e: int| 0 <= e < e2.len() && #[trigger] e2[e].0 == a && e2[e].1 == b;
        if e < edges.len() {
            assert(edges[e] == e2[e]);
        }
    }
}

/// A walk of the extended graph either keeps to the old edges or takes the
/// new edge at some step, having kept to old edges before it.
proof fn lemma_path_split(
    edges: Seq<(usize, usize, Connection)>,
    p: usize,
    c: usize,
    w: Connection,
    q: Seq<int>,
)
    requires
        is_path(with_edge(edges, p, c, w), q),
    ensures
        is_path(edges, q) || exists|i: int|
            0 <= i < q.len() - 1 && #[trigger] is_path(edges, q.take(i + 1)) && q[i] == p && q[i
                + 1] == c && is_path(with_edge(edges, p, c, w), q.skip(i + 1)),
    decreases q.len(),
{
    let e2 = with_edge(edges, p, c, w);
    if q.len() == 1 {
        assert(is_path(edges, q));
    } else {
        let q0 = q.drop_last();
        assert forall|i: int| 0 <= i < q0.len() - 1 implies #[trigger] has_edge(e2, q0[i], q0[i + 1]) by {
            assert(q0[i] == q[i] && q0[i + 1] == q[i + 1]);
            assert(has_edge(e2, q[i], q[i + 1]));
        }
        assert(is_path(e2, q0));
        lemma_path_split(edges, p, c, w, q0);
        let k = q.len() - 2;
        assert(has_edge(e2, q[k], q[k + 1]));
        lemma_has_edge_with_edge(edges, p, c, w, q[k], q[k + 1]);
        if is_path(edges, q0) {
            if has_edge(edges, q[k], q[k + 1]) {
                assert forall|i: int| 0 <= i < q.len() - 1 implies #[trigger] has_edge(edges, q[i], q[i + 1]) by {
                    if i < k {
                        assert(q0[i] == q[i] && q0[i + 1] == q[i + 1]);
                        assert(has_edge(edges, q0[i], q0[i + 1]));
                    }
                }
                assert(is_path(edges, q));
            } else {
                assert(q.take(k + 1) =~= q0);
                let s = q.skip(k + 1);
                assert(s.len() == 1);
                assert(is_path(e2, s));
                assert(is_path(edges, q.take(k + 1)));
            }
        } else {
            let i = choose|i: int|
                0 <= i < q0.len() - 1 && #[trigger] is_path(edges, q0.take(i + 1)) && q0[i] == p
                    && q0[i + 1] == c && is_path(e2, q0.skip(i + 1));
            assert(q.take(i + 1) =~= q0.take(i + 1));
            let s0 = q0.skip(i + 1);
            let s = q.skip(i + 1);
            assert forall|j: int| 0 <= j < s.len() - 1 implies #[trigger] has_edge(e2, s[j], s[j + 1]) by {
                assert(s[j] == q[i + 1 + j] && s[j + 1] == q[i + 2 + j]);
                assert(has_edge(e2, q[i + 1 + j], q[i + 1 + j + 1]));
            }
            assert(is_path(e2, s));
            assert(is_path(edges, q.take(i + 1)));
        }
    }
}

/// When `c` cannot reach `p`, a walk that starts at `c` in the graph with
/// the new edge from `p` to `c` keeps to the old edges.
proof fn lemma_walk_from_child_is_old(
    edges: Seq<(usize, usize, Connection)>,
    p: usize,
    c: usize,
    w: Connection,
    q: Seq<int>,
)
    requires
        !reaches(edges, c as int, p as int),
        is_path(with_edge(edges, p, c, w), q),
        q[0] == c,
    ensures
        is_path(edges, q),
{
    lemma_path_split(edges, p, c, w, q);
    if !is_path(edges, q) {
        let i = choose|i: int|
            0 <= i < q.len() - 1 && #[trigger] is_path(edges, q.take(i + 1)) && q[i] == p && q[i
                + 1] == c && is_path(with_edge(edges, p, c, w), q.skip(i + 1));
        let t = q.take(i + 1);
        assert(t[0] == c && t.last() == p);
        assert(reaches(edges, c as int, p as int));
    }
}

/// When `c` cannot reach `p`, what is reachable after adding the edge from
/// `p` to `c` was reachable before, directly or through that edge.
pub proof fn lemma_reaches_with_edge(
    edges: Seq<(usize, usize, Connection)>,
    p: usize,
    c: usize,
    w: Connection,
    x: int,
    y: int,
)
    requires
        !reaches(edges, c as int, p as int),
        reaches(with_edge(edges, p, c, w), x, y),
    ensures
        reaches(edges, x, y) || (reaches(edges, x, p as int) && reaches(edges, c as int, y)),
{
    let e2 = with_edge(edges, p, c, w);
    let q = choose|q: Seq<int>| #[trigger] is_path(e2, q) && q[0] == x && q.last() == y;
    lemma_path_split(edges, p, c, w, q);
    if is_path(edges, q) {
    } else {
        let i = choose|i: int|
            0 <= i < q.len() - 1 && #[trigger] is_path(edges, q.take(i + 1)) && q[i] == p && q[i
                + 1] == c && is_path(e2, q.skip(i + 1));
        let t = q.take(i + 1);
        assert(t[0] == x && t.last() == p);
        let s = q.skip(i + 1);
        lemma_walk_from_child_is_old(edges, p, c, w, s);
        assert(s[0] == c && s.last() == y);
    }
}

/// Adding an edge from `p` to a different `c` that cannot reach `p` keeps a
/// graph free of cycles.
pub proof fn lemma_acyclic_with_edge(
    edges: Seq<(usize, usize, Connection)>,
    p: usize,
    c: usize,
    w: Connection,
)
    requires
        acyclic(edges),
        p != c,
        !reaches(edges, c as int, p as int),
    ensures
        acyclic(with_edge(edges, p, c, w)),
{
    let e2 = with_edge(edges, p, c, w);
    assert forall|a: int, b: int| has_edge(e2, a, b) implies !reaches(e2, b, a) by {
        lemma_has_edge_with_edge(edges, p, c, w, a, b);
        if reaches(e2, b, a) {
            lemma_reaches_with_edge(edges, p, c, w, b, a);
            if has_edge(edges, a, b) {
                if reaches(edges, b, a) {
                } else {
                    // c reaches a, a steps to b, b reaches p
                    lemma_reaches_step(edges, c as int, a, b);
                    lemma_reaches_trans(edges, c as int, b, p as int);
                }
            } else {
                // the new edge itself: c reaches p
                if reaches(edges, b, a) {
                } else {
                    lemma_reaches_trans(edges, c as int, a, p as int);
                }
            }
        }
    }
}

/// In a graph without cycles, each node `x` of a finite set of nodes is
/// reached from a node of the set that no edge from inside the set enters.
pub proof fn lemma_source_in_set(edges: Seq<(usize, usize, Connection)>, q: Set<int>, x: int)
    requires
        acyclic(edges),
        q.finite(),
        q.contains(x),
    ensures
        exists|w: int|
            #![trigger q.contains(w)]
            q.contains(w) && reaches(edges, w, x) && forall|u: int|
                q.contains(u) ==> !has_edge(edges, u, w),
    decreases q.len(),
{
    lemma_reaches_refl(edges, x);
    if forall|u: int| q.contains(u) ==> !has_edge(edges, u, x) {
        assert(q.contains(x) && reaches(edges, x, x));
    } else {
        let u = choose|u: int| q.contains(u) && has_edge(edges, u, x);
        if u == x {
            assert(!reaches(edges, x, x));
        }
        let q2 = q.remove(x);
        assert(q2.len() < q.len()) by {
            vstd::set::axiom_set_remove_len(q, x);
        }
        vstd::set::axiom_set_remove_finite(q, x);
        lemma_source_in_set(edges, q2, u);
        let w = choose|w: int|
            #![trigger q2.contains(w)]
            q2.contains(w) && reaches(edges, w, u) && forall|v: int| q2.contains(v) ==> !has_edge(edges, v, w);
        lemma_reaches_step(edges, w, u, x);
        assert forall|v: int| q.contains(v) implies !has_edge(edges, v, w) by {
            if v == x && has_edge(edges, x, w) {
                assert(!reaches(edges, w, x));
            }
            if v != x {
                assert(q2.contains(v));
            }
        }
        assert(q.contains(w));
    }
}

} // verus!
