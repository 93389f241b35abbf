//! Walks, cycles and topological orders of a directed graph whose nodes are
//! numbered from zero and whose edges are pairs of node numbers.

use vstd::prelude::*;
use vstd::set_lib::{lemma_int_range, lemma_subset_equality, set_int_range};

verus! {

/// Every edge joins two nodes below `n`.
pub open spec fn edges_within(n: nat, edges: Seq<(int, int)>) -> bool {
    forall|k: int| 0 <= k < edges.len() ==> 0 <= (#[trigger] edges[k]).0 < n && 0 <= edges[k].1 < n
}

/// `p` is a non-empty sequence of nodes, each joined to the next by an edge.
pub open spec fn is_walk(edges: Seq<(int, int)>, p: Seq<int>) -> bool {
    &&& p.len() >= 1
    &&& forall|k: int| 0 <= k < p.len() - 1 ==> edges.contains((#[trigger] p[k], p[k + 1]))
}

/// Some walk of at least one edge leads from `v` back to `v`.
pub open spec fn on_cycle(edges: Seq<(int, int)>, v: int) -> bool {
    exists|p: Seq<int>|
        #[trigger] is_walk(edges, p) && p.len() >= 2 && p.first() == v && p.last() == v
}

/// Some node lies on a cycle.
pub open spec fn has_cycle(edges: Seq<(int, int)>) -> bool {
    exists|v: int| #[trigger] on_cycle(edges, v)
}

/// `order` lists each of the nodes `0 .. n` once, every edge joins two of
/// them, and the source of every edge stands before its target.
pub open spec fn is_topological_order(n: nat, edges: Seq<(int, int)>, order: Seq<int>) -> bool {
    &&& edges_within(n, edges)
    &&& order.len() == n
    &&& forall|a: int| 0 <= a < order.len() ==> 0 <= #[trigger] order[a] < n
    &&& order.no_duplicates()
    &&& forall|a: int, b: int|
        0 <= a < order.len() && 0 <= b < order.len() && edges.contains(
            (#[trigger] order[a], #[trigger] order[b]),
        ) ==> a < b
}

/// A list of `n` distinct nodes below `n` holds every node below `n`.
pub proof fn lemma_order_covers(n: nat, order: Seq<int>, v: int)
    requires
        order.len() == n,
        forall|a: int| 0 <= a < order.len() ==> 0 <= #[trigger] order[a] < n,
        order.no_duplicates(),
        0 <= v < n,
    ensures
        order.contains(v),
{
    let listed = order.to_set();
    let all = set_int_range(0, n as int);
    order.unique_seq_to_set();
    lemma_int_range(0, n as int);
    assert(listed.subset_of(all)) by {
        assert forall|x: int| listed.contains(x) implies all.contains(x) by {
            let a = choose|a: int| 0 <= a < order.len() && order[a] == x;
            assert(0 <= order[a] < n);
        }
    }
    vstd::set_lib::lemma_len_subset(listed, all);
    lemma_subset_equality(listed, all);
    assert(all.contains(v));
    assert(listed.contains(v));
}

/// Along a walk of at least one edge, the place in a topological order
/// strictly grows.
pub proof fn lemma_walk_ascends(n: nat, edges: Seq<(int, int)>, order: Seq<int>, p: Seq<int>)
    requires
        is_topological_order(n, edges, order),
        is_walk(edges, p),
        p.len() >= 2,
    ensures
        order.contains(p.first()),
        order.contains(p.last()),
        order.index_of(p.first()) < order.index_of(p.last()),
    decreases p.len(),
{
    let a = p[p.len() - 2];
    let b = p.last();
    assert(edges.contains((p[p.len() - 2], p[p.len() - 2 + 1])));
    let k = choose|k: int| 0 <= k < edges.len() && edges[k] == (a, b);
    assert(0 <= edges[k].0 < n && 0 <= edges[k].1 < n);
    lemma_order_covers(n, order, a);
    lemma_order_covers(n, order, b);
    let ia = order.index_of(a);
    let ib = order.index_of(b);
    assert(edges.contains((order[ia], order[ib])));
    assert(ia < ib);
    if p.len() > 2 {
        let q = p.drop_last();
        assert(is_walk(edges, q)) by {
            assert forall|j: int| 0 <= j < q.len() - 1 implies edges.contains(
                (#[trigger] q[j], q[j + 1]),
            ) by {
                assert(edges.contains((p[j], p[j + 1])));
            }
        }
        lemma_walk_ascends(n, edges, order, q);
        assert(q.first() == p.first());
        assert(q.last() == a);
    }
}

/// A graph that has a topological order has no cycle.
pub proof fn lemma_topological_order_excludes_cycles(
    n: nat,
    edges: Seq<(int, int)>,
    order: Seq<int>,
)
    requires
        is_topological_order(n, edges, order),
    ensures
        !has_cycle(edges),
{
    if has_cycle(edges) {
        let v = choose|v: int| #[trigger] on_cycle(edges, v);
        let p = choose|p: Seq<int>| #[trigger]
            is_walk(edges, p) && p.len() >= 2 && p.first() == v && p.last() == v;
        lemma_walk_ascends(n, edges, order, p);
    }
}

} // verus!
