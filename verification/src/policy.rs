//! The enforcement decision: which action the rules ask for on a resource.
//!
//! The rules are tried in a fixed order and the first one that is configured
//! and fails decides: the ignore list, the state of the resource, the
//! required tags, the allowed types, and last the idle check, whose answer
//! comes from outside the engine.

use vstd::prelude::*;
use crate::client::Client;
use crate::config::{RequiredTag, ResourceConfig};
use crate::pattern::{is_match, regex_language};
use crate::resource::{
    opt_tags_view, tags_view, texts_view, EnforcementReason, EnforcementState, NTag, Resource,
    ResourceState, ResourceView, TagView,
};
use crate::text::str_eq;

verus! {

/// The action decided for a resource, and the rule that asked for it.
#[derive(Debug, Copy, Clone, PartialEq, Eq, Structural)]
pub struct Decision {
    pub state: EnforcementState,
    pub reason: Option<EnforcementReason>,
}

/// Where the evaluation of a resource stands before the idle check.
#[derive(Debug, Copy, Clone, PartialEq, Eq, Structural)]
pub enum PolicyStep {
    /// The decision is made; the idle oracle need not be asked.
    Decided(Decision),
    /// Only the idle rule is left: ask the oracle, then `conclude`.
    AskIdleOracle,
}

impl RequiredTag {
    /// Whether one tag meets the requirement: it has the required key and,
    /// where a compiled pattern is there, a value that the pattern matches.
    pub open spec fn admits(&self, tag: TagView) -> bool {
        &&& tag.key == Some(self.name@)
        &&& match self.regex {
            Some(re) => tag.value matches Some(v) && regex_language(re).contains(v),
            None => true,
        }
    }

    /// Whether some tag of the list meets the requirement.
    pub open spec fn met_by(&self, tags: Seq<TagView>) -> bool {
        exists|i: int| 0 <= i < tags.len() && self.admits(#[trigger] tags[i])
    }

    /// Whether the tag meets the requirement.
    pub fn is_admitted(&self, tag: &NTag) -> (r: bool)
        ensures
            r == self.admits(tag@),
    {
        let key_fits = match &tag.key {
            Some(key) => str_eq(key.as_str(), self.name.as_str()),
            None => false,
        };
        if !key_fits {
            return false;
        }
        match &self.regex {
            Some(re) => match &tag.value {
                Some(value) => is_match(re, value.as_str()),
                None => false,
            },
            None => true,
        }
    }

    /// Whether some tag of the list meets the requirement.
    pub fn is_met_by(&self, tags: &Vec<NTag>) -> (r: bool)
        ensures
            r == self.met_by(tags_view(tags@)),
    {
        let mut i: usize = 0;
        while i < tags.len()
            invariant
                i <= tags.len(),
                forall|k: int| 0 <= k < i ==> !self.admits(#[trigger] tags_view(tags@)[k]),
            decreases tags.len() - i,
        {
            if self.is_admitted(&tags[i]) {
                assert(self.admits(tags_view(tags@)[i as int]));
                return true;
            }
            i += 1;
        }
        false
    }
}

/// The tags of a resource; one without a tag list has none.
pub open spec fn tags_or_none(tags: Option<Seq<TagView>>) -> Seq<TagView> {
    match tags {
        Some(t) => t,
        None => Seq::empty(),
    }
}

/// The types of a resource; one without a type list has none.
pub open spec fn types_or_none(types: Option<Seq<Seq<char>>>) -> Seq<Seq<char>> {
    match types {
        Some(t) => t,
        None => Seq::empty(),
    }
}

/// Whether the tags meet every requirement.
pub open spec fn tags_comply(tags: Option<Seq<TagView>>, required: Seq<RequiredTag>) -> bool {
    forall|k: int| 0 <= k < required.len() ==> (#[trigger] required[k]).met_by(tags_or_none(tags))
}

/// Whether every type of the resource is in the allow-list.
pub open spec fn types_comply(types: Option<Seq<Seq<char>>>, allowed: Seq<Seq<char>>) -> bool {
    forall|k: int|
        0 <= k < types_or_none(types).len() ==> allowed.contains(#[trigger] types_or_none(types)[k])
}

/// The resource is on the ignore list of its type.
pub open spec fn ignored(r: ResourceView, c: ResourceConfig) -> bool {
    c.whitelist matches Some(w) && texts_view(w@).contains(r.id)
}

/// The resource is in the state in which its kind is up, so that the rules
/// apply to it.
pub open spec fn is_up(r: ResourceView) -> bool {
    r.state matches Some(s) && r.type_.up_state() == Some(s)
}

/// Required tags are configured for the type.
pub open spec fn tag_rule_configured(c: ResourceConfig) -> bool {
    c.required_tags matches Some(req) && req@.len() > 0
}

/// An allow-list of types is configured for the type.
pub open spec fn type_rule_configured(c: ResourceConfig) -> bool {
    c.allowed_types matches Some(a) && a@.len() > 0
}

/// Required tags are configured and the resource does not meet them.
pub open spec fn tag_rule_fails(r: ResourceView, c: ResourceConfig) -> bool {
    c.required_tags matches Some(req) && req@.len() > 0 && !tags_comply(r.tags, req@)
}

/// An allow-list is configured and the resource has a type outside it.
pub open spec fn type_rule_fails(r: ResourceView, c: ResourceConfig) -> bool {
    c.allowed_types matches Some(a) && a@.len() > 0 && !types_comply(
        r.resource_type,
        texts_view(a@),
    )
}

/// Idle rules are configured for the type.
pub open spec fn idle_rule_configured(c: ResourceConfig) -> bool {
    c.metric_filters matches Some(m) && m@.len() > 0
}

/// Idle rules are configured and the oracle says the resource is not
/// active.
pub open spec fn idle_rule_fails(c: ResourceConfig, active: bool) -> bool {
    idle_rule_configured(c) && !active
}

/// The decision when a rule fails: the action that the target state asks
/// for, with the rule as its reason.
pub open spec fn violation(c: ResourceConfig, reason: EnforcementReason) -> Decision {
    Decision { state: EnforcementState::of_target_state(c.target_state), reason: Some(reason) }
}

/// The decision when nothing asks for an action.
pub open spec fn pass(state: EnforcementState) -> Decision {
    Decision { state, reason: None }
}

/// The decision that the idle rule alone gives.
pub open spec fn idle_outcome(c: ResourceConfig, active: bool) -> Decision {
    if idle_rule_fails(c, active) {
        violation(c, EnforcementReason::Idle)
    } else {
        pass(EnforcementState::Skip)
    }
}

/// The decision for a resource under the rules of its type, given the
/// answer of the idle oracle.
pub open spec fn decide(r: ResourceView, c: ResourceConfig, active: bool) -> Decision {
    if ignored(r, c) {
        pass(EnforcementState::SkipConfig)
    } else if !is_up(r) {
        pass(EnforcementState::SkipStopped)
    } else if tag_rule_fails(r, c) {
        violation(c, EnforcementReason::TagRule)
    } else if type_rule_fails(r, c) {
        violation(c, EnforcementReason::AllowedTypeRule)
    } else {
        idle_outcome(c, active)
    }
}

/// Where the evaluation stands before the idle check: the idle oracle is to
/// be asked exactly for a resource that is not ignored, is up, passes the
/// tag rule and the type rule, and has idle rules configured for its kind.
/// Every other resource has its decision.
pub open spec fn first_step(r: ResourceView, c: ResourceConfig) -> PolicyStep {
    if ignored(r, c) {
        PolicyStep::Decided(pass(EnforcementState::SkipConfig))
    } else if !is_up(r) {
        PolicyStep::Decided(pass(EnforcementState::SkipStopped))
    } else if tag_rule_fails(r, c) {
        PolicyStep::Decided(violation(c, EnforcementReason::TagRule))
    } else if type_rule_fails(r, c) {
        PolicyStep::Decided(violation(c, EnforcementReason::AllowedTypeRule))
    } else if idle_rule_configured(c) {
        PolicyStep::AskIdleOracle
    } else {
        PolicyStep::Decided(pass(EnforcementState::Skip))
    }
}

/// The decision after an adapter's own check is folded in: where no rule
/// has asked for an action and the check says the resource does not
/// comply, the target state is enforced.
pub open spec fn with_additional(
    d: Decision,
    c: ResourceConfig,
    verdict: Option<bool>,
) -> Decision {
    if d.state == EnforcementState::Skip && !c.disable_additional_rules && verdict == Some(false) {
        violation(c, EnforcementReason::AdditionalRules)
    } else {
        d
    }
}

/// Whether the list holds the text.
pub fn contains_text(list: &Vec<String>, text: &str) -> (r: bool)
    ensures
        r == texts_view(list@).contains(text@),
{
    let mut i: usize = 0;
    while i < list.len()
        invariant
            i <= list.len(),
            forall|k: int| 0 <= k < i ==> #[trigger] texts_view(list@)[k] != text@,
        decreases list.len() - i,
    {
        if str_eq(list[i].as_str(), text) {
            assert(texts_view(list@)[i as int] == text@);
            return true;
        }
        i += 1;
    }
    false
}

/// Whether the tags meet every requirement.
pub fn compare_tags(tags: &Option<Vec<NTag>>, required_tags: &Vec<RequiredTag>) -> (r: bool)
    ensures
        r == tags_comply(opt_tags_view(*tags), required_tags@),
{
    let none: Vec<NTag> = Vec::new();
    let list = match tags {
        Some(t) => t,
        None => &none,
    };
    let ghost given = tags_or_none(opt_tags_view(*tags));
    assert(tags_view(none@) =~= Seq::<TagView>::empty());
    assert(tags_view(list@) == given);
    let mut k: usize = 0;
    while k < required_tags.len()
        invariant
            k <= required_tags.len(),
            tags_view(list@) == given,
            given == tags_or_none(opt_tags_view(*tags)),
            forall|j: int| 0 <= j < k ==> (#[trigger] required_tags@[j]).met_by(given),
        decreases required_tags.len() - k,
    {
        if !required_tags[k].is_met_by(list) {
            assert(!required_tags@[k as int].met_by(given));
            return false;
        }
        k += 1;
    }
    true
}

/// Whether the resource is on the ignore list of its type.
pub fn is_ignored(resource: &Resource, config: &ResourceConfig) -> (r: bool)
    ensures
        r == ignored(resource@, *config),
{
    match &config.whitelist {
        Some(list) => contains_text(list, resource.id.as_str()),
        None => false,
    }
}

/// Whether the resource is in the state in which its kind is up.
pub fn is_resource_up(resource: &Resource) -> (r: bool)
    ensures
        r == is_up(resource@),
{
    match (resource.state, resource.type_.up_state()) {
        (Some(state), Some(up)) => state == up,
        _ => false,
    }
}

/// Whether required tags are configured and the resource does not meet
/// them.
pub fn resource_tags_does_not_match(resource: &Resource, config: &ResourceConfig) -> (r: bool)
    ensures
        r == tag_rule_fails(resource@, *config),
{
    match &config.required_tags {
        Some(required) => required.len() > 0 && !compare_tags(&resource.tags, required),
        None => false,
    }
}

/// Whether an allow-list is configured and the resource has a type outside
/// it.
pub fn resource_types_does_not_match(resource: &Resource, config: &ResourceConfig) -> (r: bool)
    ensures
        r == type_rule_fails(resource@, *config),
{
    let allowed = match &config.allowed_types {
        Some(a) => a,
        None => {
            return false;
        },
    };
    if allowed.len() == 0 {
        return false;
    }
    let types = match &resource.resource_type {
        Some(t) => t,
        None => {
            return false;
        },
    };
    let mut k: usize = 0;
    while k < types.len()
        invariant
            k <= types.len(),
            resource@.resource_type == Some(texts_view(types@)),
            config.allowed_types == Some(*allowed),
            allowed@.len() > 0,
            forall|j: int|
                0 <= j < k ==> texts_view(allowed@).contains(#[trigger] texts_view(types@)[j]),
        decreases types.len() - k,
    {
        if !contains_text(allowed, types[k].as_str()) {
            assert(!texts_view(allowed@).contains(
                types_or_none(resource@.resource_type)[k as int],
            ));
            return true;
        }
        k += 1;
    }
    false
}

/// Whether required tags are configured for the type, so that the tags of
/// a resource matter.
pub fn has_required_tags(config: &ResourceConfig) -> (r: bool)
    ensures
        r == tag_rule_configured(*config),
{
    match &config.required_tags {
        Some(required) => required.len() > 0,
        None => false,
    }
}

/// Whether an allow-list of types is configured for the type, so that the
/// types of a resource matter.
pub fn has_allowed_types(config: &ResourceConfig) -> (r: bool)
    ensures
        r == type_rule_configured(*config),
{
    match &config.allowed_types {
        Some(allowed) => allowed.len() > 0,
        None => false,
    }
}

/// Whether idle rules are configured for the type.
pub fn has_idle_rules(config: &ResourceConfig) -> (r: bool)
    ensures
        r == idle_rule_configured(*config),
{
    match &config.metric_filters {
        Some(filters) => filters.len() > 0,
        None => false,
    }
}

/// Whether idle rules are configured and the oracle says the resource is
/// not active.
pub fn is_resource_idle(config: &ResourceConfig, active: bool) -> (r: bool)
    ensures
        r == idle_rule_fails(*config, active),
{
    has_idle_rules(config) && !active
}

/// Evaluates every rule that needs no outside answer. Either that settles
/// the decision, whatever the idle oracle would say, or the idle rule is
/// the only one left and the oracle has to be asked.
pub fn start(resource: &Resource, config: &ResourceConfig) -> (step: PolicyStep)
    ensures
        step == first_step(resource@, *config),
        match step {
            PolicyStep::Decided(d) => forall|active: bool|
                #[trigger] decide(resource@, *config, active) == d,
            PolicyStep::AskIdleOracle => idle_rule_configured(*config) && forall|active: bool|
                #[trigger] decide(resource@, *config, active) == idle_outcome(*config, active),
        },
{
    if is_ignored(resource, config) {
        PolicyStep::Decided(Decision { state: EnforcementState::SkipConfig, reason: None })
    } else if !is_resource_up(resource) {
        PolicyStep::Decided(Decision { state: EnforcementState::SkipStopped, reason: None })
    } else if resource_tags_does_not_match(resource, config) {
        PolicyStep::Decided(
            Decision {
                state: EnforcementState::from_target_state(&config.target_state),
                reason: Some(EnforcementReason::TagRule),
            },
        )
    } else if resource_types_does_not_match(resource, config) {
        PolicyStep::Decided(
            Decision {
                state: EnforcementState::from_target_state(&config.target_state),
                reason: Some(EnforcementReason::AllowedTypeRule),
            },
        )
    } else if has_idle_rules(config) {
        PolicyStep::AskIdleOracle
    } else {
        PolicyStep::Decided(Decision { state: EnforcementState::Skip, reason: None })
    }
}

/// The decision that the answer of the idle oracle gives, once `start` has
/// asked for it.
pub fn conclude(config: &ResourceConfig, active: bool) -> (d: Decision)
    ensures
        d == idle_outcome(*config, active),
{
    if is_resource_idle(config, active) {
        Decision {
            state: EnforcementState::from_target_state(&config.target_state),
            reason: Some(EnforcementReason::Idle),
        }
    } else {
        Decision { state: EnforcementState::Skip, reason: None }
    }
}

/// The decision for a resource under the rules of its type, given the
/// answer of the idle oracle.
pub fn evaluate(resource: &Resource, config: &ResourceConfig, active: bool) -> (d: Decision)
    ensures
        d == decide(resource@, *config, active),
{
    match start(resource, config) {
        PolicyStep::Decided(d) => {
            assert(decide(resource@, *config, active) == d);
            d
        },
        PolicyStep::AskIdleOracle => {
            assert(decide(resource@, *config, active) == idle_outcome(*config, active));
            conclude(config, active)
        },
    }
}

/// Folds the verdict of an adapter's own check into a decision.
pub fn additional_rules(
    d: Decision,
    config: &ResourceConfig,
    verdict: Option<bool>,
) -> (r: Decision)
    ensures
        r == with_additional(d, *config, verdict),
{
    let fails = match verdict {
        Some(complies) => !complies,
        None => false,
    };
    if d.state == EnforcementState::Skip && !config.disable_additional_rules && fails {
        Decision {
            state: EnforcementState::from_target_state(&config.target_state),
            reason: Some(EnforcementReason::AdditionalRules),
        }
    } else {
        d
    }
}

/// Records a decision on the resource.
pub fn enforce(resource: &mut Resource, d: Decision)
    ensures
        final(resource)@ == (ResourceView {
            enforcement_state: d.state,
            enforcement_reason: d.reason,
            ..old(resource)@
        }),
{
    resource.enforcement_state = d.state;
    resource.enforcement_reason = d.reason;
}

/// The decision depends on the content of the resource, the configuration
/// and the answer of the idle oracle, and on nothing else.
pub proof fn lemma_decision_is_determined(
    first: Resource,
    second: Resource,
    config: ResourceConfig,
    active: bool,
)
    requires
        first@ == second@,
    ensures
        decide(first@, config, active) == decide(second@, config, active),
{
}

/// A resource that fails the tag rule is reported for its tags, whatever
/// the other rules and the idle oracle say.
pub proof fn lemma_tag_rule_comes_first(r: ResourceView, c: ResourceConfig, active: bool)
    requires
        !ignored(r, c),
        is_up(r),
        tag_rule_fails(r, c),
    ensures
        decide(r, c, active) == violation(c, EnforcementReason::TagRule),
        decide(r, c, active).reason == Some(EnforcementReason::TagRule),
{
}

/// A database instance, a database cluster and a warehouse cluster are up
/// in the state `Available` and in no other.
pub proof fn lemma_databases_are_up_when_available(r: ResourceView)
    requires
        r.type_ == Client::RdsInstance || r.type_ == Client::RdsCluster || r.type_
            == Client::RsCluster,
    ensures
        is_up(r) <==> r.state == Some(ResourceState::Available),
{
}

/// A database instance, a database cluster or a warehouse cluster in any
/// state but `Available` is skipped as not running, whatever the rules say,
/// and the idle oracle is not asked about it.
pub proof fn lemma_database_not_available_is_skipped(
    r: ResourceView,
    c: ResourceConfig,
    active: bool,
)
    requires
        r.type_ == Client::RdsInstance || r.type_ == Client::RdsCluster || r.type_
            == Client::RsCluster,
        r.state != Some(ResourceState::Available),
        !ignored(r, c),
    ensures
        decide(r, c, active) == pass(EnforcementState::SkipStopped),
        first_step(r, c) == PolicyStep::Decided(pass(EnforcementState::SkipStopped)),
{
}

/// The idle oracle is asked only where its answer decides: for every other
/// resource the first step holds the decision, whatever the answer would
/// be.
pub proof fn lemma_first_step(r: ResourceView, c: ResourceConfig, active: bool)
    ensures
        match first_step(r, c) {
            PolicyStep::Decided(d) => decide(r, c, active) == d,
            PolicyStep::AskIdleOracle => decide(r, c, active) == idle_outcome(c, active),
        },
{
}

/// A resource that is ignored or not up is left alone, whatever the rules
/// say.
pub proof fn lemma_short_circuit(r: ResourceView, c: ResourceConfig, active: bool)
    ensures
        ignored(r, c) ==> decide(r, c, active) == pass(EnforcementState::SkipConfig),
        !ignored(r, c) && !is_up(r) ==> decide(r, c, active) == pass(EnforcementState::SkipStopped),
        decide(r, c, active).state.is_action() <==> decide(r, c, active).reason is Some,
{
}

} // verus!
