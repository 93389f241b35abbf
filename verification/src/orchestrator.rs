//! The run: resources go into one graph, come out in dependency order, and
//! each gets the step that its decision asks for.

use vstd::prelude::*;
use crate::config::{Config, ResourceConfig};
use crate::error::EngineError;
use crate::graph::{
    actionable, cycle_message, dependency_count, insert, lemma_insert, well_formed, Dag, DagView,
};
use crate::order::{has_cycle, is_topological_order, on_cycle};
use crate::resource::{
    lemma_resources_view, resources_view, root_view, EnforcementState, Resource, ResourceView,
};

verus! {

/// A change that an adapter can make to a resource.
#[derive(Debug, Copy, Clone, PartialEq, Eq, Structural)]
pub enum Action {
    Stop,
    Delete,
}

/// What to do about a provider-side delete protection before a deletion.
#[derive(Debug, Copy, Clone, PartialEq, Eq, Structural)]
pub enum Protection {
    /// Leave it as it is.
    Keep,
    /// The resource is known to be protected: clear the protection first.
    Clear,
    /// It is not known whether the resource is protected: look, and clear
    /// the protection if it is.
    Check,
}

/// One step of the run: the change to make to the resource at `index` of
/// the ordered list. Only a step with `execute` set may reach the provider;
/// the others are reported and nothing more.
#[derive(Debug, Copy, Clone, PartialEq, Eq, Structural)]
pub struct PlannedAction {
    pub index: usize,
    pub action: Action,
    pub protection: Protection,
    pub execute: bool,
}

/// The change that an enforcement state asks for, if any.
pub open spec fn action_of(state: EnforcementState) -> Option<Action> {
    match state {
        EnforcementState::Stop => Some(Action::Stop),
        EnforcementState::Delete => Some(Action::Delete),
        EnforcementState::DeleteDependent => Some(Action::Delete),
        _ => None,
    }
}

/// Whether the rules of the type ask to clear delete protections.
pub open spec fn clears_protection(rules: Option<ResourceConfig>) -> bool {
    rules matches Some(c) && c.termination_protection matches Some(t) && t.ignore
}

/// What to do about the delete protection of a resource before the given
/// change.
pub open spec fn protection_of(
    r: ResourceView,
    action: Action,
    rules: Option<ResourceConfig>,
) -> Protection {
    if action == Action::Delete && clears_protection(rules) {
        match r.termination_protection {
            Some(true) => Protection::Clear,
            Some(false) => Protection::Keep,
            None => Protection::Check,
        }
    } else {
        Protection::Keep
    }
}

/// The steps for a list of resources, in the order of the list: one for
/// each resource whose state asks for a change. In a dry run no step is to
/// be executed.
pub open spec fn planned(
    resources: Seq<ResourceView>,
    config: Config,
    dry_run: bool,
) -> Seq<PlannedAction>
    decreases resources.len(),
{
    if resources.len() == 0 {
        Seq::empty()
    } else {
        let rest = planned(resources.drop_last(), config, dry_run);
        let r = resources.last();
        match action_of(r.enforcement_state) {
            Some(action) => rest.push(
                PlannedAction {
                    index: (resources.len() - 1) as usize,
                    action,
                    protection: protection_of(r, action, config.section(r.type_)),
                    execute: !dry_run,
                },
            ),
            None => rest,
        }
    }
}

/// The graph that holds the placeholder root and nothing else.
pub open spec fn empty_graph() -> DagView {
    DagView { nodes: seq![root_view()], edges: Seq::empty() }
}

/// The graph after each of the resources is inserted, in their order.
pub open spec fn insert_all(d: DagView, resources: Seq<ResourceView>) -> DagView
    decreases resources.len(),
{
    if resources.len() == 0 {
        d
    } else {
        insert(insert_all(d, resources.drop_last()), resources.last())
    }
}

/// Whether each of the resources, with its dependencies, fits into the
/// graph at the time it is inserted.
pub open spec fn all_fit(d: DagView, resources: Seq<ResourceView>) -> bool
    decreases resources.len(),
{
    if resources.len() == 0 {
        true
    } else {
        let before = insert_all(d, resources.drop_last());
        &&& all_fit(d, resources.drop_last())
        &&& before.nodes.len() + 1 + dependency_count(resources.last()) <= u32::MAX
        &&& before.edges.len() + dependency_count(resources.last()) <= u32::MAX
    }
}

/// Inserting resources keeps a graph well formed.
pub proof fn lemma_insert_all(d: DagView, resources: Seq<ResourceView>)
    requires
        well_formed(d),
    ensures
        well_formed(insert_all(d, resources)),
    decreases resources.len(),
{
    if resources.len() > 0 {
        lemma_insert_all(d, resources.drop_last());
        lemma_insert(insert_all(d, resources.drop_last()), resources.last());
    }
}

/// The change that an enforcement state asks for, if any.
pub fn action_for(state: EnforcementState) -> (r: Option<Action>)
    ensures
        r == action_of(state),
{
    match state {
        EnforcementState::Stop => Some(Action::Stop),
        EnforcementState::Delete => Some(Action::Delete),
        EnforcementState::DeleteDependent => Some(Action::Delete),
        _ => None,
    }
}

/// What to do about the delete protection of a resource before the given
/// change.
pub fn protection_for(resource: &Resource, action: Action, config: &Config) -> (r: Protection)
    ensures
        r == protection_of(resource@, action, config.section(resource.type_)),
{
    let clears = match config.get(resource.type_) {
        Some(rules) => match &rules.termination_protection {
            Some(t) => t.ignore,
            None => false,
        },
        None => false,
    };
    if action == Action::Delete && clears {
        match resource.termination_protection {
            Some(true) => Protection::Clear,
            Some(false) => Protection::Keep,
            None => Protection::Check,
        }
    } else {
        Protection::Keep
    }
}

/// Puts all resources into one graph, each with its dependencies. Fails
/// when the graph cannot hold them all.
pub fn build_graph(resources: Vec<Resource>) -> (r: Result<Dag, EngineError>)
    ensures
        match r {
            Ok(dag) => dag.wf() && all_fit(empty_graph(), resources_view(resources@)) && dag@
                == insert_all(empty_graph(), resources_view(resources@)),
            Err(EngineError::GraphFull) => !all_fit(empty_graph(), resources_view(resources@)),
            Err(_) => false,
        },
{
    let mut dag = Dag::new();
    let ghost given = resources@;
    let ghost all = resources_view(given);
    proof {
        lemma_resources_view(given);
        assert(dag@ == empty_graph());
    }
    for r in it: resources
        invariant
            it.seq() == given,
            all == resources_view(given),
            all.len() == given.len(),
            dag.wf(),
            all_fit(empty_graph(), all.take(it.index() as int)),
            dag@ == insert_all(empty_graph(), all.take(it.index() as int)),
    {
        let ghost i = it.index() as int;
        proof {
            lemma_resources_view(given);
            assert(all.take(i + 1).drop_last() =~= all.take(i));
            assert(all.take(i + 1).last() == r@);
        }
        if !dag.can_add(&r) {
            proof {
                lemma_not_all_fit(empty_graph(), all, i + 1);
            }
            return Err(EngineError::GraphFull);
        }
        proof {
            dag.lemma_room_fits(r);
        }
        dag.add_node_to_dag(r);
    }
    assert(all.take(given.len() as int) =~= all);
    Ok(dag)
}

/// Where a front part of the resources does not fit, the whole does not.
pub proof fn lemma_not_all_fit(d: DagView, resources: Seq<ResourceView>, n: int)
    requires
        0 <= n <= resources.len(),
        !all_fit(d, resources.take(n)),
    ensures
        !all_fit(d, resources),
    decreases resources.len() - n,
{
    if n < resources.len() {
        assert(resources.take(n + 1).drop_last() =~= resources.take(n));
        lemma_not_all_fit(d, resources, n + 1);
    } else {
        assert(resources.take(n) =~= resources);
    }
}

/// The steps for an ordered list of resources: one for each resource whose
/// state asks for a change, in the order of the list. In a dry run no step
/// is to be executed.
pub fn plan(ordered: &Vec<Resource>, config: &Config, dry_run: bool) -> (steps: Vec<PlannedAction>)
    ensures
        steps@ == planned(resources_view(ordered@), *config, dry_run),
        dry_run ==> forall|k: int| 0 <= k < steps@.len() ==> !(#[trigger] steps@[k]).execute,
{
    let ghost all = resources_view(ordered@);
    proof {
        lemma_resources_view(ordered@);
    }
    let mut steps: Vec<PlannedAction> = Vec::new();
    let mut i: usize = 0;
    while i < ordered.len()
        invariant
            i <= ordered.len(),
            all == resources_view(ordered@),
            all.len() == ordered@.len(),
            steps@ == planned(all.take(i as int), *config, dry_run),
            dry_run ==> forall|k: int| 0 <= k < steps@.len() ==> !(#[trigger] steps@[k]).execute,
        decreases ordered.len() - i,
    {
        proof {
            lemma_resources_view(ordered@);
            assert(all.take(i as int + 1).drop_last() =~= all.take(i as int));
            assert(all.take(i as int + 1).last() == ordered@[i as int]@);
        }
        match action_for(ordered[i].enforcement_state) {
            Some(action) => {
                let protection = protection_for(&ordered[i], action, config);
                steps.push(PlannedAction { index: i, action, protection, execute: !dry_run });
            },
            None => {},
        }
        i += 1;
    }
    assert(all.take(i as int) =~= all);
    steps
}

/// The whole run up to the provider calls: the resources go into one
/// graph, are ordered so that dependencies come first, and get their steps.
/// Fails when the graph cannot hold the resources or has a cycle.
pub fn enforcement_plan(resources: Vec<Resource>, config: &Config, dry_run: bool) -> (r: Result<
    (Vec<Resource>, Vec<PlannedAction>),
    EngineError,
>)
    ensures
        ({
            let graph = insert_all(empty_graph(), resources_view(resources@));
            let fit = all_fit(empty_graph(), resources_view(resources@));
            match r {
                Ok((ordered, steps)) => {
                    &&& fit
                    &&& !has_cycle(graph.edges)
                    &&& exists|order: Seq<int>|
                        is_topological_order(graph.nodes.len(), graph.edges, order)
                            && resources_view(ordered@) == #[trigger] actionable(graph.nodes, order)
                    &&& steps@ == planned(resources_view(ordered@), *config, dry_run)
                    &&& dry_run ==> forall|k: int|
                        0 <= k < steps@.len() ==> !(#[trigger] steps@[k]).execute
                },
                Err(EngineError::GraphFull) => !fit,
                Err(EngineError::Dag(msg)) => {
                    &&& fit
                    &&& has_cycle(graph.edges)
                    &&& exists|v: int|
                        1 <= v < graph.nodes.len() && #[trigger] on_cycle(graph.edges, v) && msg@
                            == cycle_message(graph.nodes[v].id)
                },
                Err(_) => false,
            }
        }),
{
    let dag = match build_graph(resources) {
        Ok(dag) => dag,
        Err(e) => {
            return Err(e);
        },
    };
    match dag.order_by_dependencies() {
        Ok(ordered) => {
            let steps = plan(&ordered, config, dry_run);
            proof {
                let order = dag.sorted()->Ok_0;
                assert(is_topological_order(dag@.nodes.len(), dag@.edges, order) && resources_view(
                    ordered@,
                ) == actionable(dag@.nodes, order));
            }
            Ok((ordered, steps))
        },
        Err(e) => {
            proof {
                let v = dag.sorted()->Err_0;
                assert(1 <= v < dag@.nodes.len() && on_cycle(dag@.edges, v));
            }
            Err(e)
        },
    }
}

/// The steps keep the order of the list: each step is about a resource
/// further down the list than the step before it.
pub proof fn lemma_plan_keeps_order(resources: Seq<ResourceView>, config: Config, dry_run: bool)
    requires
        resources.len() <= usize::MAX,
    ensures
        forall|k: int|
            0 <= k < planned(resources, config, dry_run).len() ==> (#[trigger] planned(
                resources,
                config,
                dry_run,
            )[k]).index < resources.len(),
        forall|a: int, b: int|
            0 <= a < b < planned(resources, config, dry_run).len() ==> (#[trigger] planned(
                resources,
                config,
                dry_run,
            )[a]).index < (#[trigger] planned(resources, config, dry_run)[b]).index,
        forall|k: int|
            0 <= k < planned(resources, config, dry_run).len() ==> action_of(
                resources[(#[trigger] planned(
                    resources,
                    config,
                    dry_run,
                )[k]).index as int].enforcement_state,
            ) == Some(planned(resources, config, dry_run)[k].action),
    decreases resources.len(),
{
    if resources.len() > 0 {
        lemma_plan_keeps_order(resources.drop_last(), config, dry_run);
    }
}

} // verus!
