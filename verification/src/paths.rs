//! Walks, reachability and cycles in a directed multigraph given by its
//! edges.

use vstd::prelude::*;
use vstd::multiset::Multiset;

verus! {

/// A directed edge, from the first node to the second.
pub type Edge = (usize, usize);

/// Whether an edge joins the node at place `i` of `w` to the next.
pub open spec fn joined(edges: Multiset<Edge>, w: Seq<usize>, i: int) -> bool {
    edges.count((w[i], w[i + 1])) > 0
}

/// Whether `w` is a walk: a non-empty row of nodes, each joined to the next
/// by an edge.
pub open spec fn is_walk(edges: Multiset<Edge>, w: Seq<usize>) -> bool {
    &&& w.len() >= 1
    &&& forall|i: int| 0 <= i < w.len() - 1 ==> #[trigger] joined(edges, w, i)
}

/// Whether a walk leads from `a` to `b`. Every node reaches itself.
pub open spec fn reaches(edges: Multiset<Edge>, a: usize, b: usize) -> bool {
    exists|w: Seq<usize>| is_walk(edges, w) && w.first() == a && w.last() == b
}

/// Whether some walk of at least one edge returns to where it began.
pub open spec fn cyclic(edges: Multiset<Edge>) -> bool {
    exists|w: Seq<usize>| is_walk(edges, w) && w.len() >= 2 && w.first() == w.last()
}

/// Whether every edge of `sub` is an edge of `sup`.
pub open spec fn within(sub: Multiset<Edge>, sup: Multiset<Edge>) -> bool {
    forall|e: Edge| sub.count(e) > 0 ==> sup.count(e) > 0
}

/// A walk stays a walk when edges are added.
pub proof fn lemma_walk_within(sub: Multiset<Edge>, sup: Multiset<Edge>, w: Seq<usize>)
    requires
        within(sub, sup),
        is_walk(sub, w),
    ensures
        is_walk(sup, w),
{
    assert forall|i: int| 0 <= i < w.len() - 1 implies #[trigger] joined(sup, w, i) by {
        assert(joined(sub, w, i));
    }
}

/// Taking edges away cannot make a cycle.
pub proof fn lemma_cyclic_within(sub: Multiset<Edge>, sup: Multiset<Edge>)
    requires
        within(sub, sup),
        cyclic(sub),
    ensures
        cyclic(sup),
{
    let w = choose|w: Seq<usize>| is_walk(sub, w) && w.len() >= 2 && w.first() == w.last();
    lemma_walk_within(sub, sup, w);
}

/// A walk can be followed by one more edge.
pub proof fn lemma_walk_push(edges: Multiset<Edge>, w: Seq<usize>, y: usize)
    requires
        is_walk(edges, w),
        edges.count((w.last(), y)) > 0,
    ensures
        is_walk(edges, w.push(y)),
{
    let v = w.push(y);
    assert forall|i: int| 0 <= i < v.len() - 1 implies #[trigger] joined(edges, v, i) by {
        if i < w.len() - 1 {
            assert(joined(edges, w, i));
        }
    }
}

/// Two walks that meet end to start make one walk.
pub proof fn lemma_walk_join(edges: Multiset<Edge>, u: Seq<usize>, v: Seq<usize>)
    requires
        is_walk(edges, u),
        is_walk(edges, v),
        u.last() == v.first(),
    ensures
        is_walk(edges, u + v.drop_first()),
        (u + v.drop_first()).first() == u.first(),
        (u + v.drop_first()).last() == v.last(),
{
    let j = u + v.drop_first();
    assert forall|i: int| 0 <= i < j.len() - 1 implies #[trigger] joined(edges, j, i) by {
        if i < u.len() - 1 {
            assert(joined(edges, u, i));
        } else {
            let k = i - (u.len() - 1);
            assert(joined(edges, v, k));
            assert(j[i] == v[k]);
            assert(j[i + 1] == v[k + 1]);
        }
    }
}

/// Reaching is transitive.
pub proof fn lemma_reaches_trans(edges: Multiset<Edge>, a: usize, b: usize, c: usize)
    requires
        reaches(edges, a, b),
        reaches(edges, b, c),
    ensures
        reaches(edges, a, c),
{
    let u = choose|w: Seq<usize>| is_walk(edges, w) && w.first() == a && w.last() == b;
    let v = choose|w: Seq<usize>| is_walk(edges, w) && w.first() == b && w.last() == c;
    lemma_walk_join(edges, u, v);
}

/// Every node reaches itself.
pub proof fn lemma_reaches_self(edges: Multiset<Edge>, a: usize)
    ensures
        reaches(edges, a, a),
{
    let w = seq![a];
    assert(is_walk(edges, w));
    assert(w.first() == a && w.last() == a);
}

/// An edge whose end already leads back to its start closes a cycle.
pub proof fn lemma_back_path_closes(edges: Multiset<Edge>, a: usize, b: usize)
    requires
        reaches(edges, b, a),
    ensures
        cyclic(edges.insert((a, b))),
{
    let bigger = edges.insert((a, b));
    let w = choose|w: Seq<usize>| is_walk(edges, w) && w.first() == b && w.last() == a;
    assert(within(edges, bigger));
    lemma_walk_within(edges, bigger, w);
    lemma_walk_push(bigger, w, b);
    let v = w.push(b);
    assert(v.first() == w.first());
    assert(v.last() == b);
}

/// A walk that may use the new edge `(a, b)` either does without it, or
/// passes from its start to `a` and from `b` to its end on old edges.
proof fn lemma_split_at_new_edge(edges: Multiset<Edge>, a: usize, b: usize, w: Seq<usize>)
    requires
        is_walk(edges.insert((a, b)), w),
    ensures
        is_walk(edges, w) || (reaches(edges, w.first(), a) && reaches(edges, b, w.last())),
    decreases w.len(),
{
    let bigger = edges.insert((a, b));
    if w.len() == 1 {
        assert(is_walk(edges, w));
    } else {
        let w0 = w.drop_last();
        let z = w0.last();
        let y = w.last();
        assert forall|i: int| 0 <= i < w0.len() - 1 implies #[trigger] joined(bigger, w0, i) by {
            assert(joined(bigger, w, i));
        }
        assert(is_walk(bigger, w0));
        lemma_split_at_new_edge(edges, a, b, w0);
        assert(w0.first() == w.first());
        assert(z == w[w.len() - 2]);
        assert(joined(bigger, w, w.len() - 2));
        assert(bigger.count((z, y)) > 0);
        assert(w0.push(y) =~= w);
        if edges.count((z, y)) > 0 {
            if is_walk(edges, w0) {
                lemma_walk_push(edges, w0, y);
            } else {
                let t = choose|t: Seq<usize>| is_walk(edges, t) && t.first() == b && t.last() == z;
                lemma_walk_push(edges, t, y);
                assert(t.push(y).first() == b);
                assert(t.push(y).last() == y);
            }
        } else {
            assert((z, y) == (a, b));
            lemma_reaches_self(edges, b);
            if is_walk(edges, w0) {
                assert(w0.last() == a);
            }
        }
    }
}

/// A new edge closes a cycle only if its end already led back to its
/// start.
pub proof fn lemma_cycle_needs_back_path(edges: Multiset<Edge>, a: usize, b: usize)
    requires
        !cyclic(edges),
        cyclic(edges.insert((a, b))),
    ensures
        reaches(edges, b, a),
{
    let bigger = edges.insert((a, b));
    let w = choose|w: Seq<usize>| is_walk(bigger, w) && w.len() >= 2 && w.first() == w.last();
    lemma_split_at_new_edge(edges, a, b, w);
    if !is_walk(edges, w) {
        lemma_reaches_trans(edges, b, w.first(), a);
    }
}

/// Adding the edge `(a, b)` to a graph without cycles closes a cycle
/// exactly when `b` already reaches `a`.
pub proof fn lemma_cycle_iff_back_path(edges: Multiset<Edge>, a: usize, b: usize)
    requires
        !cyclic(edges),
    ensures
        cyclic(edges.insert((a, b))) <==> reaches(edges, b, a),
{
    if cyclic(edges.insert((a, b))) {
        lemma_cycle_needs_back_path(edges, a, b);
    }
    if reaches(edges, b, a) {
        lemma_back_path_closes(edges, a, b);
    }
}

/// A graph without edges has no cycle.
pub proof fn lemma_empty_acyclic()
    ensures
        !cyclic(Multiset::<Edge>::empty()),
{
    if cyclic(Multiset::<Edge>::empty()) {
        let w = choose|w: Seq<usize>|
            is_walk(Multiset::<Edge>::empty(), w) && w.len() >= 2 && w.first() == w.last();
        assert(joined(Multiset::<Edge>::empty(), w, 0));
    }
}

/// A node that no edge leaves reaches only itself.
pub proof fn lemma_sink_reaches_self(edges: Multiset<Edge>, a: usize, b: usize)
    requires
        forall|x: usize| edges.count((a, x)) == 0,
        reaches(edges, a, b),
    ensures
        a == b,
{
    let w = choose|w: Seq<usize>| is_walk(edges, w) && w.first() == a && w.last() == b;
    if w.len() >= 2 {
        assert(joined(edges, w, 0));
    }
}

} // verus!
