//! Directed graph of resources, ordered so that dependencies come first.

use vstd::prelude::*;
use vstd::hash_map::StringHashMap;
use vstd::string::StringExecFns;
use petgraph::graph::Graph;
use petgraph::graph::NodeIndex;
use crate::error::EngineError;
use crate::order::{
    edges_within, has_cycle, is_topological_order, lemma_topological_order_excludes_cycles,
    on_cycle,
};
use crate::resource::{
    lemma_resources_view, resources_view, root_view, Resource, ResourceState, ResourceView,
};

verus! {

/// `petgraph::graph::Graph`, of which only the trusted functions below know
/// the inside.
#[verifier::external_type_specification]
#[verifier::external_body]
#[verifier::reject_recursive_types(N)]
#[verifier::reject_recursive_types(E)]
#[verifier::reject_recursive_types(Ty)]
#[verifier::reject_recursive_types(Ix)]
pub struct ExGraph<N, E, Ty, Ix>(petgraph::graph::Graph<N, E, Ty, Ix>);

/// `petgraph::Directed`, the marker of graphs with directed edges.
#[verifier::external_type_specification]
#[verifier::external_body]
pub struct ExDirected(petgraph::Directed);

/// The one kind of edge: the target depends on the source.
#[derive(Debug, Copy, Clone)]
pub enum Relation {
    Depends,
}

/// The node weights of a graph, in the order of the node indices.
pub uninterp spec fn graph_weights(g: Graph<Resource, Relation>) -> Seq<Resource>;

/// The edges of a graph as pairs of node indices (source, target), in the
/// order of the edge indices.
pub uninterp spec fn graph_edges(g: Graph<Resource, Relation>) -> Seq<(int, int)>;

/// What `petgraph::algo::toposort` makes of a graph: all node indices in an
/// order, or the index of a node on a cycle.
pub uninterp spec fn toposort_outcome(g: Graph<Resource, Relation>) -> Result<Seq<int>, int>;

/// The description of a graph in the DOT language that `petgraph::dot::Dot`
/// prints, edges labelled by their index.
pub uninterp spec fn dot_text(g: Graph<Resource, Relation>) -> Seq<char>;

/// Calls `Graph::new`, which makes a directed graph without nodes or edges.
#[verifier::external_body]
fn graph_new() -> (g: Graph<Resource, Relation>)
    ensures
        graph_weights(g).len() == 0,
        graph_edges(g).len() == 0,
{
    Graph::new()
}

/// Calls `Graph::node_count`, the number of nodes.
#[verifier::external_body]
fn graph_node_count(g: &Graph<Resource, Relation>) -> (n: usize)
    ensures
        n == graph_weights(*g).len(),
{
    g.node_count()
}

/// Calls `Graph::edge_count`, the number of edges.
#[verifier::external_body]
fn graph_edge_count(g: &Graph<Resource, Relation>) -> (n: usize)
    ensures
        n == graph_edges(*g).len(),
{
    g.edge_count()
}

/// Calls `Graph::add_node`, which appends a node with the given weight and
/// returns its index. Edges and the other nodes stay as they are. The call
/// panics when the graph holds `u32::MAX` nodes already.
#[verifier::external_body]
fn graph_add_node(g: &mut Graph<Resource, Relation>, weight: Resource) -> (i: usize)
    requires
        graph_weights(*old(g)).len() < u32::MAX,
    ensures
        graph_weights(*final(g)) == graph_weights(*old(g)).push(weight),
        graph_edges(*final(g)) == graph_edges(*old(g)),
        i == graph_weights(*old(g)).len(),
{
    g.add_node(weight).index()
}

/// Calls `Graph::add_edge`, which appends an edge from node `a` to node `b`,
/// with the weight `Relation::Depends`. Nodes and the other edges stay as
/// they are. The call panics when one of the nodes is missing or the graph
/// holds `u32::MAX` edges already.
#[verifier::external_body]
fn graph_add_edge(g: &mut Graph<Resource, Relation>, a: usize, b: usize)
    requires
        a < graph_weights(*old(g)).len(),
        b < graph_weights(*old(g)).len(),
        graph_edges(*old(g)).len() < u32::MAX,
    ensures
        graph_weights(*final(g)) == graph_weights(*old(g)),
        graph_edges(*final(g)) == graph_edges(*old(g)).push((a as int, b as int)),
{
    g.add_edge(NodeIndex::new(a), NodeIndex::new(b), Relation::Depends);
}

/// Calls `Graph::node_weight`, which lends the weight of node `i`, or gives
/// `None` when the graph has no such node. A node index holds 32 bits, so
/// `i` must fit into them.
#[verifier::external_body]
fn graph_weight(g: &Graph<Resource, Relation>, i: usize) -> (w: Option<&Resource>)
    requires
        i <= u32::MAX,
    ensures
        match w {
            Some(r) => i < graph_weights(*g).len() && *r == graph_weights(*g)[i as int],
            None => i >= graph_weights(*g).len(),
        },
{
    g.node_weight(NodeIndex::new(i))
}

/// Calls `Graph::index_mut`, the `IndexMut` of a graph by node index, which
/// lends the weight of node `i` for writing. Whatever is written becomes
/// the weight of that node; nothing else in the graph changes. The call
/// panics when the graph has no such node.
#[verifier::external_body]
fn graph_weight_mut(g: &mut Graph<Resource, Relation>, i: usize) -> (w: &mut Resource)
    requires
        i < graph_weights(*old(g)).len(),
    ensures
        *w == graph_weights(*old(g))[i as int],
        graph_weights(*final(g)) == graph_weights(*old(g)).update(i as int, *final(w)),
        graph_edges(*final(g)) == graph_edges(*old(g)),
{
    &mut g[NodeIndex::new(i)]
}

/// Calls `petgraph::algo::toposort`. On a graph without cycles it gives all
/// node indices in an order in which every node stands before its
/// successors, which are nodes of the graph; otherwise it gives the index
/// of a node that lies on a cycle, where an edge from a node to itself
/// counts as a cycle. The outcome depends on the graph alone.
#[verifier::external_body]
fn graph_toposort(g: &Graph<Resource, Relation>) -> (r: Result<Vec<usize>, usize>)
    ensures
        match r {
            Ok(order) => toposort_outcome(*g) == Ok::<Seq<int>, int>(indices(order@))
                && is_topological_order(graph_weights(*g).len(), graph_edges(*g), indices(order@)),
            Err(v) => toposort_outcome(*g) == Err::<Seq<int>, int>(v as int) && v < graph_weights(
                *g,
            ).len() && on_cycle(graph_edges(*g), v as int),
        },
{
    match petgraph::algo::toposort(g, None) {
        Ok(order) => Ok(order.into_iter().map(|i| i.index()).collect()),
        Err(cycle) => Err(cycle.node_id().index()),
    }
}

/// Calls `Graph::is_directed`, which is true of every graph with directed
/// edges.
#[verifier::external_body]
fn graph_is_directed(g: &Graph<Resource, Relation>) -> (r: bool)
    ensures
        r,
{
    g.is_directed()
}

/// Calls `Graph::capacity` and takes the first part, the number of nodes that
/// the graph has room for, which is never below the number it holds.
#[verifier::external_body]
fn graph_node_capacity(g: &Graph<Resource, Relation>) -> (n: usize)
    ensures
        n >= graph_weights(*g).len(),
{
    g.capacity().0
}

/// Formats the graph with `petgraph::dot::Dot`, edges labelled by their
/// index. The text depends on the graph alone.
#[verifier::external_body]
fn graph_dot(g: &Graph<Resource, Relation>) -> (r: String)
    ensures
        r@ == dot_text(*g),
{
    format!("{:?}", petgraph::dot::Dot::with_config(g, &[petgraph::dot::Config::EdgeIndexLabel]))
}

/// A list of node indices as mathematical integers.
pub open spec fn indices(order: Seq<usize>) -> Seq<int> {
    order.map_values(|i: usize| i as int)
}

/// The mathematical content of a `Dag`: node 0 is the placeholder root, the
/// others are the resources that were added.
pub struct DagView {
    pub nodes: Seq<ResourceView>,
    pub edges: Seq<(int, int)>,
}

/// Whether a resource with this id was added.
pub open spec fn knows(nodes: Seq<ResourceView>, id: Seq<char>) -> bool {
    exists|i: int| 1 <= i < nodes.len() && #[trigger] nodes[i].id == id
}

/// The node of the resource with this id.
pub open spec fn index_of(nodes: Seq<ResourceView>, id: Seq<char>) -> int {
    choose|i: int| 1 <= i < nodes.len() && #[trigger] nodes[i].id == id
}

/// What holds of every graph that `Dag::new` and `Dag::add_node_to_dag`
/// build: the root is there, no id occurs twice, and edges join resources.
pub open spec fn well_formed(d: DagView) -> bool {
    &&& d.nodes.len() >= 1
    &&& d.nodes[0] == root_view()
    &&& forall|i: int, j: int|
        1 <= i < d.nodes.len() && 1 <= j < d.nodes.len() && #[trigger] d.nodes[i].id
            == #[trigger] d.nodes[j].id ==> i == j
    &&& edges_within(d.nodes.len(), d.edges)
    &&& forall|k: int|
        0 <= k < d.edges.len() ==> (#[trigger] d.edges[k]).0 >= 1 && d.edges[k].1 >= 1
}

/// The graph after a resource is merged in: a new id adds a node; a known id
/// keeps its node and takes over the state.
pub open spec fn merge(d: DagView, r: ResourceView) -> DagView {
    if knows(d.nodes, r.id) {
        let i = index_of(d.nodes, r.id);
        DagView {
            nodes: d.nodes.update(i, ResourceView { state: r.state, ..d.nodes[i] }),
            edges: d.edges,
        }
    } else {
        DagView { nodes: d.nodes.push(r), edges: d.edges }
    }
}

/// The graph after a dependency of node `root` is merged in and joined to it.
pub open spec fn link(d: DagView, dep: ResourceView, root: int) -> DagView {
    let m = merge(d, dep);
    DagView { nodes: m.nodes, edges: m.edges.push((index_of(m.nodes, dep.id), root)) }
}

/// The graph after each of the dependencies is linked to node `root`, in
/// their order.
pub open spec fn link_all(d: DagView, deps: Seq<ResourceView>, root: int) -> DagView
    decreases deps.len(),
{
    if deps.len() == 0 {
        d
    } else {
        link(link_all(d, deps.drop_last(), root), deps.last(), root)
    }
}

/// The graph after a resource is inserted with its declared dependencies.
pub open spec fn insert(d: DagView, r: ResourceView) -> DagView {
    let m = merge(d, ResourceView { dependencies: None, ..r });
    let root = index_of(m.nodes, r.id);
    match r.dependencies {
        Some(deps) => link_all(m, deps, root),
        None => m,
    }
}

/// The number of dependencies that a resource declares.
pub open spec fn dependency_count(r: ResourceView) -> nat {
    match r.dependencies {
        Some(deps) => deps.len(),
        None => 0,
    }
}

/// The resources at the nodes of `order`, in that order, without those of
/// the placeholder kind.
pub open spec fn actionable(nodes: Seq<ResourceView>, order: Seq<int>) -> Seq<ResourceView>
    decreases order.len(),
{
    if order.len() == 0 {
        Seq::empty()
    } else {
        let rest = actionable(nodes, order.drop_last());
        let node = nodes[order.last()];
        if node.type_.is_default() {
            rest
        } else {
            rest.push(node)
        }
    }
}

/// The text of the error that reports a cycle through the resource `id`.
pub open spec fn cycle_message(id: Seq<char>) -> Seq<char> {
    "Error graph has cycle at node: "@ + id
}

/// Merging keeps a graph well formed, and the merged id is known afterwards.
pub proof fn lemma_merge(d: DagView, r: ResourceView)
    requires
        well_formed(d),
    ensures
        well_formed(merge(d, r)),
        knows(merge(d, r).nodes, r.id),
        merge(d, r).nodes[index_of(merge(d, r).nodes, r.id)].id == r.id,
        1 <= index_of(merge(d, r).nodes, r.id) < merge(d, r).nodes.len(),
        merge(d, r).nodes.len() <= d.nodes.len() + 1,
        merge(d, r).nodes.len() >= d.nodes.len(),
        merge(d, r).edges == d.edges,
        forall|i: int|
            0 <= i < d.nodes.len() ==> #[trigger] merge(d, r).nodes[i].id == d.nodes[i].id,
{
    let m = merge(d, r);
    if knows(d.nodes, r.id) {
        let i = index_of(d.nodes, r.id);
        assert(m.nodes[i].id == r.id);
    } else {
        let i = d.nodes.len() as int;
        assert(m.nodes[i].id == r.id);
        assert forall|a: int, b: int|
            1 <= a < m.nodes.len() && 1 <= b < m.nodes.len() && #[trigger] m.nodes[a].id
                == #[trigger] m.nodes[b].id implies a == b by {
            if a < d.nodes.len() && b < d.nodes.len() {
                assert(d.nodes[a].id == d.nodes[b].id);
            } else if a < d.nodes.len() {
                assert(d.nodes[a].id == r.id);
            } else if b < d.nodes.len() {
                assert(d.nodes[b].id == r.id);
            }
        }
    }
}

/// None of the resources has this id.
pub open spec fn names_none(resources: Seq<ResourceView>, id: Seq<char>) -> bool {
    forall|k: int| 0 <= k < resources.len() ==> (#[trigger] resources[k]).id != id
}

/// The resource does not name itself among its dependencies.
pub open spec fn no_self_dependency(r: ResourceView) -> bool {
    r.dependencies matches Some(deps) ==> names_none(deps, r.id)
}

/// The state of the resource with this id.
pub open spec fn state_of(nodes: Seq<ResourceView>, id: Seq<char>) -> Option<ResourceState> {
    nodes[index_of(nodes, id)].state
}

/// Linking dependencies keeps a graph well formed, keeps every node at its
/// place, and changes no node whose id is none of theirs.
pub proof fn lemma_link_all(d: DagView, deps: Seq<ResourceView>, root: int)
    requires
        well_formed(d),
        1 <= root < d.nodes.len(),
    ensures
        well_formed(link_all(d, deps, root)),
        link_all(d, deps, root).nodes.len() >= d.nodes.len(),
        link_all(d, deps, root).nodes.len() <= d.nodes.len() + deps.len(),
        link_all(d, deps, root).edges.len() == d.edges.len() + deps.len(),
        forall|i: int|
            0 <= i < d.nodes.len() ==> #[trigger] link_all(d, deps, root).nodes[i].id
                == d.nodes[i].id,
        forall|i: int|
            0 <= i < d.nodes.len() && names_none(deps, d.nodes[i].id) ==> #[trigger] link_all(
                d,
                deps,
                root,
            ).nodes[i] == d.nodes[i],
        forall|k: int|
            0 <= k < d.edges.len() ==> #[trigger] link_all(d, deps, root).edges[k] == d.edges[k],
        forall|k: int|
            0 <= k < deps.len() ==> knows(link_all(d, deps, root).nodes, (#[trigger] deps[k]).id)
                && link_all(d, deps, root).edges[d.edges.len() + k] == (
                index_of(link_all(d, deps, root).nodes, deps[k].id),
                root,
            ),
    decreases deps.len(),
{
    if deps.len() > 0 {
        let rest = deps.drop_last();
        let dep = deps.last();
        let before = link_all(d, rest, root);
        lemma_link_all(d, rest, root);
        lemma_merge(before, dep);
        let m = merge(before, dep);
        let after = link(before, dep, root);
        assert(after.edges.last() == (index_of(m.nodes, dep.id), root));
        assert forall|k: int| 0 <= k < deps.len() implies knows(
            after.nodes,
            (#[trigger] deps[k]).id,
        ) && after.edges[d.edges.len() + k] == (index_of(after.nodes, deps[k].id), root) by {
            if k < rest.len() {
                assert(rest[k] == deps[k]);
                let j = index_of(before.nodes, rest[k].id);
                assert(after.nodes[j].id == before.nodes[j].id);
                assert(index_of(after.nodes, deps[k].id) == j);
                assert(after.edges[d.edges.len() + k] == before.edges[d.edges.len() + k]);
            }
        }
        assert forall|i: int|
            0 <= i < d.nodes.len() && names_none(
                deps,
                d.nodes[i].id,
            ) implies #[trigger] after.nodes[i] == d.nodes[i] by {
            assert forall|k: int| 0 <= k < rest.len() implies (#[trigger] rest[k]).id
                != d.nodes[i].id by {
                assert(deps[k].id != d.nodes[i].id);
            }
            assert(names_none(rest, d.nodes[i].id));
            assert(before.nodes[i] == d.nodes[i]);
            assert(deps[deps.len() - 1].id != d.nodes[i].id);
            if knows(before.nodes, dep.id) {
                let j = index_of(before.nodes, dep.id);
                assert(j != i);
            }
        }
    }
}

/// Linking a front part of the dependencies gives no more nodes than
/// linking all of them.
pub proof fn lemma_link_all_grows(d: DagView, deps: Seq<ResourceView>, root: int, n: int)
    requires
        well_formed(d),
        1 <= root < d.nodes.len(),
        0 <= n <= deps.len(),
    ensures
        link_all(d, deps.take(n), root).nodes.len() <= link_all(d, deps, root).nodes.len(),
    decreases deps.len() - n,
{
    if n < deps.len() {
        let front = link_all(d, deps.take(n), root);
        lemma_link_all(d, deps.take(n), root);
        lemma_merge(front, deps[n]);
        assert(deps.take(n + 1).drop_last() =~= deps.take(n));
        assert(deps.take(n + 1).last() == deps[n]);
        lemma_link_all_grows(d, deps, root, n + 1);
    } else {
        assert(deps.take(n) =~= deps);
    }
}

/// Inserting a resource keeps a graph well formed: afterwards its id is
/// known and belongs to one node only.
pub proof fn lemma_insert(d: DagView, r: ResourceView)
    requires
        well_formed(d),
    ensures
        well_formed(insert(d, r)),
        knows(insert(d, r).nodes, r.id),
        insert(d, r).nodes[index_of(insert(d, r).nodes, r.id)].id == r.id,
        insert(d, r).nodes.len() >= d.nodes.len(),
        insert(d, r).nodes.len() <= d.nodes.len() + 1 + dependency_count(r),
        forall|i: int|
            0 <= i < d.nodes.len() ==> #[trigger] insert(d, r).nodes[i].id == d.nodes[i].id,
        insert(d, r).edges.len() == d.edges.len() + dependency_count(r),
        forall|k: int| 0 <= k < d.edges.len() ==> #[trigger] insert(d, r).edges[k] == d.edges[k],
{
    let bare = ResourceView { dependencies: None, ..r };
    let m = merge(d, bare);
    lemma_merge(d, bare);
    let root = index_of(m.nodes, r.id);
    match r.dependencies {
        Some(deps) => {
            lemma_link_all(m, deps, root);
            let after = link_all(m, deps, root);
            assert(after.nodes[root].id == r.id);
        },
        None => {},
    }
}

/// After a resource is inserted, the node of its id holds the state that
/// the resource brought, provided the resource does not name itself among
/// its dependencies. This holds for a new id and for a known one.
pub proof fn lemma_insert_keeps_latest_state(d: DagView, r: ResourceView)
    requires
        well_formed(d),
        no_self_dependency(r),
    ensures
        state_of(insert(d, r).nodes, r.id) == r.state,
{
    let bare = ResourceView { dependencies: None, ..r };
    let m = merge(d, bare);
    lemma_merge(d, bare);
    lemma_insert(d, r);
    let root = index_of(m.nodes, r.id);
    assert(m.nodes[root].state == r.state);
    let after = insert(d, r);
    match r.dependencies {
        Some(deps) => {
            lemma_link_all(m, deps, root);
            assert(after.nodes[root] == m.nodes[root]);
        },
        None => {},
    }
    assert(after.nodes[root].id == r.id);
}

/// Inserting a resource under an id that the graph knows keeps the node of
/// that id at its place and adds no node for it: the graph grows by new
/// dependencies only, and not at all where the resource declares none.
pub proof fn lemma_insert_known(d: DagView, r: ResourceView)
    requires
        well_formed(d),
        knows(d.nodes, r.id),
    ensures
        index_of(insert(d, r).nodes, r.id) == index_of(d.nodes, r.id),
        insert(d, r).nodes.len() <= d.nodes.len() + dependency_count(r),
        dependency_count(r) == 0 ==> insert(d, r).nodes.len() == d.nodes.len(),
        r.dependencies is None ==> insert(d, r) == (DagView {
            nodes: d.nodes.update(
                index_of(d.nodes, r.id),
                ResourceView { state: r.state, ..d.nodes[index_of(d.nodes, r.id)] },
            ),
            edges: d.edges,
        }),
{
    let bare = ResourceView { dependencies: None, ..r };
    let m = merge(d, bare);
    lemma_merge(d, bare);
    lemma_insert(d, r);
    let at = index_of(d.nodes, r.id);
    let root = index_of(m.nodes, r.id);
    assert(m.nodes[at].id == r.id);
    assert(root == at);
    let after = insert(d, r);
    match r.dependencies {
        Some(deps) => {
            lemma_link_all(m, deps, root);
        },
        None => {},
    }
    assert(after.nodes[at].id == r.id);
}

/// Inserting a resource without dependencies a second time changes nothing.
pub proof fn lemma_insert_same_again(d: DagView, r: ResourceView)
    requires
        well_formed(d),
        r.dependencies is None,
    ensures
        insert(insert(d, r), r) == insert(d, r),
{
    let once = insert(d, r);
    lemma_insert(d, r);
    lemma_insert_keeps_latest_state(d, r);
    lemma_insert_known(once, r);
    let at = index_of(once.nodes, r.id);
    let twice = insert(once, r);
    assert(twice.nodes =~= once.nodes);
    assert(twice.edges =~= once.edges);
}

/// Every dependency that a resource declares becomes an edge from the
/// dependency to the resource.
pub proof fn lemma_insert_links(d: DagView, r: ResourceView, k: int)
    requires
        well_formed(d),
        0 <= k < dependency_count(r),
    ensures
        ({
            let after = insert(d, r);
            let dep = r.dependencies->Some_0[k];
            &&& knows(after.nodes, dep.id)
            &&& knows(after.nodes, r.id)
            &&& after.edges.contains((index_of(after.nodes, dep.id), index_of(after.nodes, r.id)))
        }),
{
    let bare = ResourceView { dependencies: None, ..r };
    let m = merge(d, bare);
    lemma_merge(d, bare);
    lemma_insert(d, r);
    let root = index_of(m.nodes, r.id);
    let deps = r.dependencies->Some_0;
    lemma_link_all(m, deps, root);
    let after = insert(d, r);
    assert(after.nodes[root].id == r.id);
    assert(index_of(after.nodes, r.id) == root);
    assert(after.edges[m.edges.len() + k] == (index_of(after.nodes, deps[k].id), root));
}

/// Inserting a resource under an id that the graph knows adds no node for
/// it and leaves the node with the state that came last, provided the
/// resource does not name itself among its dependencies.
pub proof fn lemma_insert_again(d: DagView, first: ResourceView, second: ResourceView)
    requires
        well_formed(d),
        first.id == second.id,
        no_self_dependency(second),
    ensures
        ({
            let once = insert(d, first);
            let twice = insert(once, second);
            &&& well_formed(twice)
            &&& knows(twice.nodes, second.id)
            &&& index_of(twice.nodes, second.id) == index_of(once.nodes, first.id)
            &&& state_of(twice.nodes, second.id) == second.state
            &&& forall|i: int, j: int|
                1 <= i < twice.nodes.len() && 1 <= j < twice.nodes.len()
                    && #[trigger] twice.nodes[i].id == second.id
                    && #[trigger] twice.nodes[j].id == second.id ==> i == j
            &&& dependency_count(second) == 0 ==> twice.nodes.len() == once.nodes.len()
        }),
{
    let once = insert(d, first);
    lemma_insert(d, first);
    let at = index_of(once.nodes, first.id);
    let bare = ResourceView { dependencies: None, ..second };
    let m = merge(once, bare);
    lemma_merge(once, bare);
    assert(knows(once.nodes, bare.id));
    assert(index_of(once.nodes, bare.id) == at);
    assert(m.nodes[at].state == second.state);
    let root = index_of(m.nodes, second.id);
    assert(m.nodes[at].id == second.id);
    assert(root == at);
    let twice = insert(once, second);
    lemma_insert(once, second);
    match second.dependencies {
        Some(deps) => {
            lemma_link_all(m, deps, root);
            assert(twice.nodes[at] == m.nodes[at]);
        },
        None => {},
    }
    assert(twice.nodes[at].id == second.id);
}

/// The number of resources that `actionable` keeps of the first `a` nodes
/// of `order`: the place at which the next one of them lands.
pub open spec fn place(nodes: Seq<ResourceView>, order: Seq<int>, a: int) -> int {
    actionable(nodes, order.take(a)).len() as int
}

/// `actionable` keeps no resource of the placeholder kind, and keeps
/// nothing but resources at nodes of `order`.
pub proof fn lemma_actionable_excludes_default(nodes: Seq<ResourceView>, order: Seq<int>)
    ensures
        actionable(nodes, order).len() <= order.len(),
        forall|k: int|
            0 <= k < actionable(nodes, order).len() ==> !(#[trigger] actionable(
                nodes,
                order,
            )[k]).type_.is_default(),
    decreases order.len(),
{
    if order.len() > 0 {
        lemma_actionable_excludes_default(nodes, order.drop_last());
    }
}

/// The places grow with the position in `order`.
pub proof fn lemma_place_grows(nodes: Seq<ResourceView>, order: Seq<int>, a: int, b: int)
    requires
        0 <= a <= b <= order.len(),
    ensures
        place(nodes, order, a) <= place(nodes, order, b),
        a < b && !nodes[order[a]].type_.is_default() ==> place(nodes, order, a) < place(
            nodes,
            order,
            b,
        ),
    decreases b - a,
{
    if a < b {
        assert(order.take(b).drop_last() =~= order.take(b - 1));
        assert(order.take(b).last() == order[b - 1]);
        lemma_place_grows(nodes, order, a, b - 1);
    }
}

/// A resource that is not of the placeholder kind lands at its place.
pub proof fn lemma_place_holds(nodes: Seq<ResourceView>, order: Seq<int>, a: int)
    requires
        0 <= a < order.len(),
        !nodes[order[a]].type_.is_default(),
    ensures
        0 <= place(nodes, order, a) < actionable(nodes, order).len(),
        actionable(nodes, order)[place(nodes, order, a)] == nodes[order[a]],
    decreases order.len(),
{
    let front = order.drop_last();
    if a == order.len() - 1 {
        assert(order.take(a) =~= front);
    } else {
        lemma_place_holds(nodes, front, a);
        assert(front.take(a) =~= order.take(a));
    }
}

/// In the output of a topological order, the source of every edge between
/// two resources that are not of the placeholder kind stands before the
/// target.
pub proof fn lemma_dependencies_come_first(d: DagView, order: Seq<int>, k: int)
    requires
        well_formed(d),
        is_topological_order(d.nodes.len(), d.edges, order),
        0 <= k < d.edges.len(),
        !d.nodes[d.edges[k].0].type_.is_default(),
        !d.nodes[d.edges[k].1].type_.is_default(),
    ensures
        exists|a: int, b: int|
            0 <= a < b < actionable(d.nodes, order).len()
                && #[trigger] actionable(d.nodes, order)[a] == d.nodes[d.edges[k].0]
                && #[trigger] actionable(d.nodes, order)[b] == d.nodes[d.edges[k].1],
{
    let u = d.edges[k].0;
    let v = d.edges[k].1;
    crate::order::lemma_order_covers(d.nodes.len(), order, u);
    crate::order::lemma_order_covers(d.nodes.len(), order, v);
    let pu = order.index_of(u);
    let pv = order.index_of(v);
    assert(d.edges.contains((order[pu], order[pv])));
    assert(pu < pv);
    lemma_place_holds(d.nodes, order, pu);
    lemma_place_holds(d.nodes, order, pv);
    lemma_place_grows(d.nodes, order, pu, pv);
    let a = place(d.nodes, order, pu);
    let b = place(d.nodes, order, pv);
    assert(0 <= a < b < actionable(d.nodes, order).len() && actionable(d.nodes, order)[a]
        == d.nodes[d.edges[k].0] && actionable(d.nodes, order)[b] == d.nodes[d.edges[k].1]);
}

/// A graph of resources with a lookup from resource id to node.
pub struct Dag {
    pub graph: Graph<Resource, Relation>,
    id_map: StringHashMap<usize>,
}

impl View for Dag {
    type V = DagView;

    closed spec fn view(&self) -> DagView {
        DagView { nodes: resources_view(graph_weights(self.graph)), edges: graph_edges(self.graph) }
    }
}

impl Dag {
    /// The graph is well formed, its node and edge indices fit into 32 bits,
    /// and the lookup knows exactly its resources.
    pub closed spec fn wf(&self) -> bool {
        let w = graph_weights(self.graph);
        &&& well_formed(self@)
        &&& w.len() <= u32::MAX
        &&& graph_edges(self.graph).len() <= u32::MAX
        &&& forall|i: int|
            1 <= i < w.len() ==> self.id_map@.contains_key(#[trigger] w[i].id@)
                && self.id_map@[w[i].id@] == i
        &&& forall|k: Seq<char>| #[trigger]
            self.id_map@.contains_key(k) ==> 1 <= self.id_map@[k] < w.len()
                && w[self.id_map@[k] as int].id@ == k
    }

    /// A well-formed `Dag` has a well-formed content.
    pub proof fn lemma_wf(&self)
        requires
            self.wf(),
        ensures
            well_formed(self@),
    {
    }

    /// Whether the graph with the resource inserted can still be held: its
    /// nodes and edges are counted in 32 bits.
    pub open spec fn fits(&self, r: Resource) -> bool {
        &&& insert(self@, r@).nodes.len() <= u32::MAX
        &&& insert(self@, r@).edges.len() <= u32::MAX
    }

    /// A graph with room for the resource and for each of its dependencies
    /// can hold them, whichever of them it knows already.
    pub proof fn lemma_room_fits(&self, r: Resource)
        requires
            self.wf(),
            self.has_room(r),
        ensures
            self.fits(r),
    {
        lemma_insert(self@, r@);
    }

    /// A resource without dependencies, under an id that the graph knows,
    /// always fits.
    pub proof fn lemma_known_fits(&self, r: Resource)
        requires
            self.wf(),
            knows(self@.nodes, r@.id),
            r@.dependencies is None,
        ensures
            self.fits(r),
    {
        lemma_insert_known(self@, r@);
        lemma_resources_view(graph_weights(self.graph));
    }

    /// Whether there is room for the resource and for each of its
    /// dependencies, counted as if the graph knew none of them.
    pub open spec fn has_room(&self, r: Resource) -> bool {
        &&& self@.nodes.len() + 1 + dependency_count(r@) <= u32::MAX
        &&& self@.edges.len() + dependency_count(r@) <= u32::MAX
    }

    /// Whether there is room for the resource and for each of its
    /// dependencies; where there is, the resource can be added.
    pub fn can_add(&self, r: &Resource) -> (room: bool)
        requires
            self.wf(),
        ensures
            room == self.has_room(*r),
            room ==> self.fits(*r),
    {
        proof {
            if self.has_room(*r) {
                self.lemma_room_fits(*r);
            }
        }
        let extra = match &r.dependencies {
            Some(d) => d.len(),
            None => 0,
        };
        proof {
            lemma_resources_view(graph_weights(self.graph));
            if r.dependencies is Some {
                lemma_resources_view(r.dependencies->Some_0@);
            }
        }
        let nodes = graph_node_count(&self.graph);
        let edges = graph_edge_count(&self.graph);
        let limit: usize = 0xffff_ffff;
        nodes < limit && extra <= limit - nodes - 1 && edges <= limit && extra <= limit - edges
    }

    /// Creates a graph that holds the placeholder root and nothing else.
    pub fn new() -> (dag: Dag)
        ensures
            dag.wf(),
            dag@.nodes == seq![root_view()],
            dag@.edges == Seq::<(int, int)>::empty(),
    {
        let mut graph = graph_new();
        let id_map: StringHashMap<usize> = StringHashMap::new();
        let root = Resource::default();
        let ghost root_copy = root;
        graph_add_node(&mut graph, root);
        let dag = Dag { graph, id_map };
        proof {
            assert(graph_weights(dag.graph) =~= seq![root_copy]);
            lemma_resources_view(graph_weights(dag.graph));
            assert(dag@.nodes =~= seq![root_view()]);
            assert(dag@.edges =~= Seq::<(int, int)>::empty());
        }
        dag
    }

    /// Merges one resource into the nodes: a new id gets a node of its own,
    /// a known id keeps its node, which takes over the state of `r`.
    fn merge_node(&mut self, r: Resource) -> (i: usize)
        requires
            old(self).wf(),
            merge(old(self)@, r@).nodes.len() <= u32::MAX,
        ensures
            final(self).wf(),
            final(self)@ == merge(old(self)@, r@),
            i == index_of(final(self)@.nodes, r@.id),
            1 <= i < final(self)@.nodes.len(),
    {
        let ghost before = self@;
        let ghost weights = graph_weights(self.graph);
        let found: Option<usize> = match self.id_map.get(r.id.as_str()) {
            Some(i) => Some(*i),
            None => None,
        };
        proof {
            lemma_resources_view(weights);
            lemma_merge(before, r@);
        }
        match found {
            Some(i) => {
                assert(before.nodes[i as int].id == r@.id);
                assert(index_of(before.nodes, r@.id) == i);
                let w = graph_weight_mut(&mut self.graph, i);
                w.state = r.state;
                proof {
                    let after = graph_weights(self.graph);
                    lemma_resources_view(after);
                    assert(self@.nodes =~= merge(before, r@).nodes);
                    assert(self@.nodes[i as int].id == r@.id);
                    assert forall|j: int| 1 <= j < after.len() implies self.id_map@.contains_key(
                        #[trigger] after[j].id@,
                    ) && self.id_map@[after[j].id@] == j by {
                        assert(after[j].id@ == weights[j].id@);
                    }
                    assert forall|k: Seq<char>| #[trigger]
                        self.id_map@.contains_key(k) implies 1 <= self.id_map@[k] < after.len()
                        && after[self.id_map@[k] as int].id@ == k by {
                        let at = self.id_map@[k] as int;
                        assert(after[at].id@ == weights[at].id@);
                    }
                }
                i
            },
            None => {
                assert(!knows(before.nodes, r@.id)) by {
                    if knows(before.nodes, r@.id) {
                        let j = index_of(before.nodes, r@.id);
                        assert(weights[j].id@ == r@.id);
                    }
                }
                let id = r.id.clone();
                let i = graph_add_node(&mut self.graph, r);
                self.id_map.insert(id, i);
                proof {
                    let after = graph_weights(self.graph);
                    lemma_resources_view(after);
                    assert(self@.nodes =~= merge(before, r@).nodes);
                    assert(self@.nodes[i as int].id == r@.id);
                    assert forall|j: int| 1 <= j < after.len() implies self.id_map@.contains_key(
                        #[trigger] after[j].id@,
                    ) && self.id_map@[after[j].id@] == j by {
                        if j < weights.len() {
                            assert(after[j].id@ == weights[j].id@);
                            assert(before.nodes[j].id == weights[j].id@);
                        }
                    }
                }
                i
            },
        }
    }

    /// The description of the graph in the DOT language.
    pub closed spec fn dot(&self) -> Seq<char> {
        dot_text(self.graph)
    }

    /// The graph in the DOT language, when it has room for more than one
    /// node; a graph that holds a resource always has.
    pub fn get_dot(&self) -> (r: Option<String>)
        requires
            self.wf(),
        ensures
            match r {
                Some(text) => text@ == self.dot(),
                None => self@.nodes.len() <= 1,
            },
    {
        proof {
            lemma_resources_view(graph_weights(self.graph));
        }
        if graph_node_capacity(&self.graph) > 1 {
            Some(graph_dot(&self.graph))
        } else {
            None
        }
    }

    /// The number of nodes, the placeholder root included.
    pub fn node_count(&self) -> (n: usize)
        ensures
            n == self@.nodes.len(),
    {
        proof {
            lemma_resources_view(graph_weights(self.graph));
        }
        graph_node_count(&self.graph)
    }

    /// The number of edges.
    pub fn edge_count(&self) -> (n: usize)
        ensures
            n == self@.edges.len(),
    {
        graph_edge_count(&self.graph)
    }

    /// Adds a resource with its declared dependencies. The resource and each
    /// dependency are merged into the nodes by id, and from each dependency
    /// an edge leads to the resource, so that the dependency is ordered
    /// first.
    pub fn add_node_to_dag(&mut self, r: Resource)
        requires
            old(self).wf(),
            old(self).fits(r),
        ensures
            final(self).wf(),
            final(self)@ == insert(old(self)@, r@),
            knows(final(self)@.nodes, r@.id),
            forall|i: int, j: int|
                1 <= i < final(self)@.nodes.len() && 1 <= j < final(self)@.nodes.len()
                    && #[trigger] final(self)@.nodes[i].id == r@.id
                    && #[trigger] final(self)@.nodes[j].id == r@.id ==> i == j,
            knows(old(self)@.nodes, r@.id) ==> index_of(final(self)@.nodes, r@.id) == index_of(
                old(self)@.nodes,
                r@.id,
            ),
            knows(old(self)@.nodes, r@.id) && dependency_count(r@) == 0 ==> final(self)@.nodes.len()
                == old(self)@.nodes.len(),
            no_self_dependency(r@) ==> state_of(final(self)@.nodes, r@.id) == r@.state,
    {
        let mut r = r;
        let ghost before = self@;
        let ghost full = r@;
        proof {
            self.lemma_wf();
            lemma_insert(before, full);
            if knows(before.nodes, full.id) {
                lemma_insert_known(before, full);
            }
            if no_self_dependency(full) {
                lemma_insert_keeps_latest_state(before, full);
            }
        }
        let resource_dependencies = r.dependencies.take();
        assert(r@ == ResourceView { dependencies: None, ..full });
        proof {
            lemma_merge(before, r@);
            if full.dependencies is Some {
                lemma_link_all(
                    merge(before, r@),
                    full.dependencies->Some_0,
                    index_of(merge(before, r@).nodes, r@.id),
                );
            }
        }
        let root = self.merge_node(r);
        if let Some(dependencies) = resource_dependencies {
            let ghost start = self@;
            let ghost deps = resources_view(dependencies@);
            proof {
                lemma_resources_view(dependencies@);
                assert(full.dependencies == Some(deps));
                self.lemma_wf();
                lemma_link_all(start, deps, root as int);
            }
            let ghost given = dependencies@;
            for dep in it: dependencies
                invariant
                    self.wf(),
                    it.seq() == given,
                    deps == resources_view(given),
                    deps.len() == given.len(),
                    self@ == link_all(start, deps.take(it.index() as int), root as int),
                    well_formed(start),
                    1 <= root < start.nodes.len(),
                    1 <= root < self@.nodes.len(),
                    link_all(start, deps, root as int).nodes.len() <= u32::MAX,
                    start.edges.len() + deps.len() <= u32::MAX,
            {
                let ghost current = self@;
                let ghost i = it.index() as int;
                proof {
                    lemma_resources_view(given);
                    lemma_merge(current, dep@);
                    assert(deps.take(i + 1).drop_last() =~= deps.take(i));
                    assert(deps.take(i + 1).last() == dep@);
                    lemma_link_all(start, deps.take(i), root as int);
                    lemma_link_all_grows(start, deps, root as int, i + 1);
                }
                let dep_index = self.merge_node(dep);
                let ghost weights = graph_weights(self.graph);
                proof {
                    lemma_resources_view(weights);
                }
                graph_add_edge(&mut self.graph, dep_index, root);
                proof {
                    assert(self@ == link(current, dep@, root as int));
                }
            }
            assert(deps.take(given.len() as int) =~= deps);
        }
    }

    /// What sorting the graph gives: an order of all nodes, or a node on a
    /// cycle. It depends on the graph alone.
    pub closed spec fn sorted(&self) -> Result<Seq<int>, int> {
        toposort_outcome(self.graph)
    }

    /// The resources at the given nodes, in that order, without those of
    /// the placeholder kind.
    pub fn resources_at(&self, order: &Vec<usize>) -> (out: Vec<Resource>)
        requires
            self.wf(),
            forall|k: int| 0 <= k < order@.len() ==> (#[trigger] order@[k]) < self@.nodes.len(),
        ensures
            resources_view(out@) == actionable(self@.nodes, indices(order@)),
            forall|k: int| 0 <= k < out@.len() ==> !(#[trigger] out@[k]).type_.is_default(),
    {
        let ghost weights = graph_weights(self.graph);
        let ghost ord = indices(order@);
        proof {
            lemma_resources_view(weights);
        }
        let mut resources: Vec<Resource> = Vec::new();
        let mut k: usize = 0;
        while k < order.len()
            invariant
                k <= order.len(),
                ord == indices(order@),
                weights == graph_weights(self.graph),
                self@.nodes == resources_view(weights),
                self@.nodes.len() == weights.len(),
                weights.len() <= u32::MAX,
                forall|j: int| 0 <= j < order@.len() ==> (#[trigger] order@[j]) < weights.len(),
                resources_view(resources@) == actionable(self@.nodes, ord.take(k as int)),
            decreases order.len() - k,
        {
            let ghost done = resources@;
            proof {
                lemma_resources_view(weights);
                assert(ord.take(k as int + 1).drop_last() =~= ord.take(k as int));
                assert(ord.take(k as int + 1).last() == ord[k as int]);
                assert(order@[k as int] < weights.len());
            }
            if let Some(resource) = graph_weight(&self.graph, order[k]) {
                if !resource.type_.is_default() {
                    resources.push(resource.clone());
                    proof {
                        assert(resources@.drop_last() =~= done);
                    }
                }
            }
            k += 1;
        }
        proof {
            assert(ord.take(k as int) =~= ord);
            lemma_actionable_excludes_default(self@.nodes, ord);
            lemma_resources_view(resources@);
            assert forall|j: int| 0 <= j < resources@.len() implies !(
            #[trigger] resources@[j]).type_.is_default() by {
                assert(resources@[j]@ == actionable(self@.nodes, ord)[j]);
            }
        }
        resources
    }

    /// The error that reports a cycle through the resource at node `v`.
    pub fn cycle_error(&self, v: usize) -> (e: EngineError)
        requires
            self.wf(),
            v < self@.nodes.len(),
        ensures
            e matches EngineError::Dag(msg) && msg@ == cycle_message(self@.nodes[v as int].id),
    {
        proof {
            lemma_resources_view(graph_weights(self.graph));
        }
        let mut msg = "Error graph has cycle at node: ".to_owned();
        if let Some(resource) = graph_weight(&self.graph, v) {
            msg.append(resource.id.as_str());
        }
        EngineError::Dag(msg)
    }

    /// Orders the resources so that every dependency stands before the
    /// resources that depend on it, and leaves out those of the placeholder
    /// kind. Fails exactly when the graph has a cycle, and then names a
    /// resource on it.
    pub fn order_by_dependencies(&self) -> (r: Result<Vec<Resource>, EngineError>)
        requires
            self.wf(),
        ensures
            r.is_ok() <==> !has_cycle(self@.edges),
            match r {
                Ok(out) => self.sorted() matches Ok(order) && is_topological_order(
                    self@.nodes.len(),
                    self@.edges,
                    order,
                ) && resources_view(out@) == actionable(self@.nodes, order),
                Err(EngineError::Dag(msg)) => self.sorted() matches Err(v) && 1 <= v
                    < self@.nodes.len() && on_cycle(self@.edges, v) && msg@ == cycle_message(
                    self@.nodes[v].id,
                ),
                Err(_) => false,
            },
            r matches Ok(out) ==> forall|k: int|
                0 <= k < out@.len() ==> !(#[trigger] out@[k]).type_.is_default(),
    {
        proof {
            lemma_resources_view(graph_weights(self.graph));
        }
        match graph_toposort(&self.graph) {
            Ok(order) => {
                proof {
                    lemma_topological_order_excludes_cycles(
                        self@.nodes.len(),
                        self@.edges,
                        indices(order@),
                    );
                    assert forall|k: int| 0 <= k < order@.len() implies (#[trigger] order@[k])
                        < self@.nodes.len() by {
                        assert(0 <= indices(order@)[k] < self@.nodes.len());
                    }
                }
                Ok(self.resources_at(&order))
            },
            Err(v) => {
                proof {
                    let p = choose|p: Seq<int>| #[trigger]
                        crate::order::is_walk(self@.edges, p) && p.len() >= 2 && p.first() == v
                            && p.last() == v;
                    assert(self@.edges.contains((p[0int], p[0int + 1])));
                }
                Err(self.cycle_error(v))
            },
        }
    }
}

/// Whether the graph is a directed graph without cycles.
pub fn is_dag(g: &Graph<Resource, Relation>) -> (r: bool)
    ensures
        r == !has_cycle(graph_edges(*g)),
{
    if !graph_is_directed(g) {
        return false;
    }
    match graph_toposort(g) {
        Ok(order) => {
            proof {
                lemma_topological_order_excludes_cycles(
                    graph_weights(*g).len(),
                    graph_edges(*g),
                    indices(order@),
                );
            }
            true
        },
        Err(_) => false,
    }
}

} // verus!
