//! The vocabulary shared by the policy engine and the dependency graph.

use vstd::prelude::*;
use crate::client::Client;
use crate::config::TargetState;
use crate::style::{action_style, colored_bold, colored_foreground, colored_text, skip_style};
use crate::text::{debug_form, debug_text, lowercase, opt_text, str_eq, to_lowercase};
use vstd::string::StringExecFns;
use colored::ColoredString;
use std::str::FromStr;

verus! {

/// The lifecycle state that a provider reports for a resource.
#[derive(Debug, Copy, Clone, PartialEq, Eq, Structural)]
pub enum ResourceState {
    Available,
    Deleted,
    Failed,
    Pending,
    Rebooting,
    Running,
    ShuttingDown,
    Starting,
    Stopped,
    Stopping,
    Unknown,
}

/// The action decided for a resource.
#[derive(Debug, Copy, Clone, PartialEq, Eq, Structural)]
pub enum EnforcementState {
    Stop,
    Delete,
    DeleteDependent,
    Skip,
    SkipConfig,
    SkipStopped,
    SkipUnknownState,
}

/// Why an action was decided; diagnostic only.
#[derive(Debug, Copy, Clone, PartialEq, Eq, Structural)]
pub enum EnforcementReason {
    Idle,
    Runtime,
    TagRule,
    AllowedTypeRule,
    NameRule,
    AdditionalRules,
    Dependent,
}

impl ResourceState {
    /// The state that a provider's status word stands for, the word given
    /// in lower case. Words that the table does not hold stand for
    /// `Unknown`.
    pub open spec fn of_lowercase(v: Seq<char>) -> ResourceState {
        if v == "available"@ {
            ResourceState::Available
        } else if v == "pending"@ {
            ResourceState::Pending
        } else if v == "rebooting"@ {
            ResourceState::Rebooting
        } else if v == "running"@ || v == "in-use"@ || v == "associated"@ || v == "completed"@ || v
            == "active"@ || v == "waiting"@ || v == "ready"@ || v == "inservice"@ {
            ResourceState::Running
        } else if v == "shutting-down"@ {
            ResourceState::ShuttingDown
        } else if v == "starting"@ || v == "provisioning"@ {
            ResourceState::Starting
        } else if v == "stopped"@ {
            ResourceState::Stopped
        } else if v == "stopping"@ || v == "deprovisioning"@ {
            ResourceState::Stopping
        } else if v == "terminated"@ || v == "deleting"@ || v == "inactive"@ || v
            == "terminated_with_errors"@ {
            ResourceState::Deleted
        } else {
            ResourceState::Unknown
        }
    }

    /// Looks a lower-case status word up in the table.
    pub fn from_lowercase(v: &str) -> (r: ResourceState)
        ensures
            r == Self::of_lowercase(v@),
    {
        if str_eq(v, "available") {
            ResourceState::Available
        } else if str_eq(v, "pending") {
            ResourceState::Pending
        } else if str_eq(v, "rebooting") {
            ResourceState::Rebooting
        } else if str_eq(v, "running") || str_eq(v, "in-use") || str_eq(v, "associated") || str_eq(
            v,
            "completed",
        ) || str_eq(v, "active") || str_eq(v, "waiting") || str_eq(v, "ready") || str_eq(
            v,
            "inservice",
        ) {
            ResourceState::Running
        } else if str_eq(v, "shutting-down") {
            ResourceState::ShuttingDown
        } else if str_eq(v, "starting") || str_eq(v, "provisioning") {
            ResourceState::Starting
        } else if str_eq(v, "stopped") {
            ResourceState::Stopped
        } else if str_eq(v, "stopping") || str_eq(v, "deprovisioning") {
            ResourceState::Stopping
        } else if str_eq(v, "terminated") || str_eq(v, "deleting") || str_eq(v, "inactive")
            || str_eq(v, "terminated_with_errors") {
            ResourceState::Deleted
        } else {
            ResourceState::Unknown
        }
    }

    /// The state that a provider's status word stands for, whatever the case
    /// of its letters.
    pub fn parse(s: &str) -> (r: ResourceState)
        ensures
            r == Self::of_lowercase(lowercase(s@)),
    {
        let v = to_lowercase(s);
        Self::from_lowercase(v.as_str())
    }
}

impl FromStr for ResourceState {
    type Err = ();

    fn from_str(s: &str) -> (r: Result<ResourceState, ()>)
        ensures
            r == Ok::<ResourceState, ()>(ResourceState::of_lowercase(lowercase(s@))),
    {
        Ok(ResourceState::parse(s))
    }
}

impl EnforcementState {
    /// The words that describe the action.
    pub open spec fn label(&self) -> Seq<char> {
        match *self {
            EnforcementState::Stop => "would be stopped"@,
            EnforcementState::Delete => "would be removed"@,
            EnforcementState::DeleteDependent => "would be removed (dependent)"@,
            EnforcementState::Skip => "skipped because of rules"@,
            EnforcementState::SkipConfig => "skipped because of config"@,
            EnforcementState::SkipStopped => "skipped as resource is not running"@,
            EnforcementState::SkipUnknownState => "skipped as resource state is unknown"@,
        }
    }

    /// Whether the state asks for a change to the resource.
    pub open spec fn spec_is_action(&self) -> bool {
        *self == EnforcementState::Stop || *self == EnforcementState::Delete || *self
            == EnforcementState::DeleteDependent
    }

    #[verifier::when_used_as_spec(spec_is_action)]
    pub fn is_action(&self) -> (r: bool)
        ensures
            r == self.spec_is_action(),
    {
        match *self {
            EnforcementState::Stop => true,
            EnforcementState::Delete => true,
            EnforcementState::DeleteDependent => true,
            _ => false,
        }
    }

    /// The words that describe the action, as plain text.
    pub fn plain_name(&self) -> (r: &'static str)
        ensures
            r@ == self.label(),
    {
        match *self {
            EnforcementState::Stop => "would be stopped",
            EnforcementState::Delete => "would be removed",
            EnforcementState::DeleteDependent => "would be removed (dependent)",
            EnforcementState::Skip => "skipped because of rules",
            EnforcementState::SkipConfig => "skipped because of config",
            EnforcementState::SkipStopped => "skipped as resource is not running",
            EnforcementState::SkipUnknownState => "skipped as resource state is unknown",
        }
    }

    /// The words that describe the action, in bold: blue for an action,
    /// yellow for a resource that is left alone.
    pub fn name(&self) -> (r: ColoredString)
        ensures
            colored_text(r) == self.label(),
            colored_bold(r),
            colored_foreground(r) == if self.is_action() {
                Some("34"@)
            } else {
                Some("33"@)
            },
    {
        if self.is_action() {
            action_style(self.plain_name())
        } else {
            skip_style(self.plain_name())
        }
    }

    /// The action that brings a resource to the target state.
    pub open spec fn of_target_state(target_state: TargetState) -> EnforcementState {
        if target_state == TargetState::Deleted {
            EnforcementState::Delete
        } else {
            EnforcementState::Stop
        }
    }

    pub fn from_target_state(target_state: &TargetState) -> (r: EnforcementState)
        ensures
            r == Self::of_target_state(*target_state),
    {
        if *target_state == TargetState::Deleted {
            EnforcementState::Delete
        } else {
            EnforcementState::Stop
        }
    }
}

impl EnforcementReason {
    /// The word that stands for the reason.
    pub open spec fn spec_name(&self) -> Seq<char> {
        match *self {
            EnforcementReason::Idle => "idle"@,
            EnforcementReason::Runtime => "runtime"@,
            EnforcementReason::TagRule => "tag-not-compliant"@,
            EnforcementReason::AllowedTypeRule => "type-not-compliant"@,
            EnforcementReason::NameRule => "name-not-compliant"@,
            EnforcementReason::AdditionalRules => "additional-rules"@,
            EnforcementReason::Dependent => "dependent"@,
        }
    }

    pub fn name(&self) -> (r: &'static str)
        ensures
            r@ == self.spec_name(),
    {
        match *self {
            EnforcementReason::Idle => "idle",
            EnforcementReason::Runtime => "runtime",
            EnforcementReason::TagRule => "tag-not-compliant",
            EnforcementReason::AllowedTypeRule => "type-not-compliant",
            EnforcementReason::NameRule => "name-not-compliant",
            EnforcementReason::AdditionalRules => "additional-rules",
            EnforcementReason::Dependent => "dependent",
        }
    }
}

/// A tag attached to a resource.
#[derive(Debug)]
pub struct NTag {
    pub key: Option<String>,
    pub value: Option<String>,
}

/// The mathematical content of an `NTag`.
pub struct TagView {
    pub key: Option<Seq<char>>,
    pub value: Option<Seq<char>>,
}

/// One cloud object, as the engine sees it.
#[derive(Debug)]
pub struct Resource {
    /// Identifier of the resource; the key under which the graph knows it.
    pub id: String,
    /// Provider-wide name of the resource.
    pub arn: Option<String>,
    /// The kind of resource, which tells the adapter that produced it.
    pub type_: Client,
    /// Name of the region in which the resource exists.
    pub region: String,
    /// Tags associated with the resource, in the order they were reported.
    pub tags: Option<Vec<NTag>>,
    /// Whether the resource is running, stopped, deleted and so on.
    pub state: Option<ResourceState>,
    /// The time at which the resource was created.
    pub start_time: Option<String>,
    /// The action to enforce on the resource.
    pub enforcement_state: EnforcementState,
    /// The reason for the enforcement.
    pub enforcement_reason: Option<EnforcementReason>,
    /// The size or class of the resource, or of each of its members.
    pub resource_type: Option<Vec<String>>,
    /// Resources that must be handled before this one.
    pub dependencies: Option<Vec<Resource>>,
    /// Whether the provider protects the resource against deletion.
    pub termination_protection: Option<bool>,
}

/// The mathematical content of a `Resource`.
pub struct ResourceView {
    pub id: Seq<char>,
    pub arn: Option<Seq<char>>,
    pub type_: Client,
    pub region: Seq<char>,
    pub tags: Option<Seq<TagView>>,
    pub state: Option<ResourceState>,
    pub start_time: Option<Seq<char>>,
    pub enforcement_state: EnforcementState,
    pub enforcement_reason: Option<EnforcementReason>,
    pub resource_type: Option<Seq<Seq<char>>>,
    pub dependencies: Option<Seq<ResourceView>>,
    pub termination_protection: Option<bool>,
}

impl View for NTag {
    type V = TagView;

    open spec fn view(&self) -> TagView {
        TagView { key: opt_text(self.key), value: opt_text(self.value) }
    }
}

/// The contents of a list of tags.
pub open spec fn tags_view(s: Seq<NTag>) -> Seq<TagView> {
    s.map_values(|t: NTag| t@)
}

/// The contents of a list of strings.
pub open spec fn texts_view(s: Seq<String>) -> Seq<Seq<char>> {
    s.map_values(|t: String| t@)
}

/// The contents of an optional list of tags.
pub open spec fn opt_tags_view(tags: Option<Vec<NTag>>) -> Option<Seq<TagView>> {
    match tags {
        Some(t) => Some(tags_view(t@)),
        None => None,
    }
}

/// The contents of an optional list of strings.
pub open spec fn opt_texts_view(texts: Option<Vec<String>>) -> Option<Seq<Seq<char>>> {
    match texts {
        Some(t) => Some(texts_view(t@)),
        None => None,
    }
}

/// The content of a resource, dependencies included.
pub open spec fn resource_view(r: Resource) -> ResourceView
    decreases r, 0int,
{
    ResourceView {
        id: r.id@,
        arn: opt_text(r.arn),
        type_: r.type_,
        region: r.region@,
        tags: opt_tags_view(r.tags),
        state: r.state,
        start_time: opt_text(r.start_time),
        enforcement_state: r.enforcement_state,
        enforcement_reason: r.enforcement_reason,
        resource_type: opt_texts_view(r.resource_type),
        dependencies: match r.dependencies {
            Some(d) => Some(resources_view(d@)),
            None => None,
        },
        termination_protection: r.termination_protection,
    }
}

/// The contents of a list of resources, element by element.
pub open spec fn resources_view(s: Seq<Resource>) -> Seq<ResourceView>
    decreases s, s.len(),
{
    if s.len() == 0 {
        Seq::empty()
    } else {
        resources_view(s.drop_last()).push(resource_view(s.last()))
    }
}

impl View for Resource {
    type V = ResourceView;

    open spec fn view(&self) -> ResourceView {
        resource_view(*self)
    }
}

/// `resources_view` keeps the length and maps each element to its content.
pub proof fn lemma_resources_view(s: Seq<Resource>)
    ensures
        resources_view(s).len() == s.len(),
        forall|i: int| 0 <= i < s.len() ==> #[trigger] resources_view(s)[i] == s[i]@,
    decreases s.len(),
{
    if s.len() > 0 {
        lemma_resources_view(s.drop_last());
    }
}

/// Two lists of resources with the same contents, element by element, have
/// the same content as lists.
pub proof fn lemma_resources_view_pointwise(a: Seq<Resource>, b: Seq<Resource>)
    requires
        a.len() == b.len(),
        forall|i: int| 0 <= i < a.len() ==> #[trigger] a[i]@ == b[i]@,
    ensures
        resources_view(a) == resources_view(b),
{
    lemma_resources_view(a);
    lemma_resources_view(b);
    assert(resources_view(a) =~= resources_view(b));
}

/// Copies an optional string.
pub fn clone_opt_text(s: &Option<String>) -> (r: Option<String>)
    ensures
        opt_text(r) == opt_text(*s),
{
    match s {
        Some(t) => Some(t.clone()),
        None => None,
    }
}

/// Copies a list of strings.
pub fn clone_texts(v: &Vec<String>) -> (r: Vec<String>)
    ensures
        texts_view(r@) == texts_view(v@),
{
    let mut out: Vec<String> = Vec::new();
    let mut i: usize = 0;
    while i < v.len()
        invariant
            i <= v.len(),
            out@.len() == i,
            forall|k: int| 0 <= k < i ==> #[trigger] out@[k]@ == v@[k]@,
        decreases v.len() - i,
    {
        out.push(v[i].clone());
        i += 1;
    }
    assert(texts_view(out@) =~= texts_view(v@));
    out
}

impl Clone for NTag {
    fn clone(&self) -> (r: NTag)
        ensures
            r@ == self@,
    {
        NTag { key: clone_opt_text(&self.key), value: clone_opt_text(&self.value) }
    }
}

/// Copies a list of tags.
pub fn clone_tags(v: &Vec<NTag>) -> (r: Vec<NTag>)
    ensures
        tags_view(r@) == tags_view(v@),
{
    let mut out: Vec<NTag> = Vec::new();
    let mut i: usize = 0;
    while i < v.len()
        invariant
            i <= v.len(),
            out@.len() == i,
            forall|k: int| 0 <= k < i ==> #[trigger] out@[k]@ == v@[k]@,
        decreases v.len() - i,
    {
        out.push(v[i].clone());
        i += 1;
    }
    assert(tags_view(out@) =~= tags_view(v@));
    out
}

/// The text that shows a tag: key and value with an arrow between them.
pub open spec fn tag_text(t: TagView) -> Seq<char> {
    match (t.key, t.value) {
        (Some(k), Some(v)) => k + " -> "@ + v,
        _ => debug_form(t.key) + " -> "@ + debug_form(t.value),
    }
}

/// The text that shows a list of tags: each in square brackets.
pub open spec fn tags_text(tags: Seq<TagView>) -> Seq<char>
    decreases tags.len(),
{
    if tags.len() == 0 {
        Seq::empty()
    } else {
        tags_text(tags.drop_last()) + "["@ + tag_text(tags.last()) + "]"@
    }
}

/// The part of a resource's text that shows its tags; empty without tags.
pub open spec fn tags_part(tags: Option<Seq<TagView>>) -> Seq<char> {
    match tags {
        Some(t) => if t.len() > 0 {
            " - {"@ + tags_text(t) + "}"@
        } else {
            Seq::empty()
        },
        None => Seq::empty(),
    }
}

/// The part of a resource's text that shows the reason; empty without one.
pub open spec fn reason_part(reason: Option<EnforcementReason>) -> Seq<char> {
    match reason {
        Some(r) => " ("@ + r.spec_name() + ")"@,
        None => Seq::empty(),
    }
}

/// The line that shows a resource: region, kind, id, tags, the action and
/// its reason.
pub open spec fn resource_text(r: ResourceView) -> Seq<char> {
    "["@ + r.region + "] - "@ + r.type_.spec_name() + " - "@ + r.id + tags_part(r.tags) + " - "@
        + r.enforcement_state.label() + reason_part(r.enforcement_reason)
}

impl NTag {
    /// The text that shows the tag.
    pub fn to_text(&self) -> (r: String)
        ensures
            r@ == tag_text(self@),
    {
        match (&self.key, &self.value) {
            (Some(k), Some(v)) => {
                let mut out = k.clone();
                out.append(" -> ");
                out.append(v.as_str());
                out
            },
            _ => {
                let mut out = debug_text(&self.key);
                out.append(" -> ");
                let value = debug_text(&self.value);
                out.append(value.as_str());
                out
            },
        }
    }
}

impl Resource {
    /// The line that shows the resource.
    pub fn to_text(&self) -> (r: String)
        ensures
            r@ == resource_text(self@),
    {
        let mut out = "[".to_owned();
        out.append(self.region.as_str());
        out.append("] - ");
        out.append(self.type_.name());
        out.append(" - ");
        out.append(self.id.as_str());
        let ghost head = out@;
        match &self.tags {
            Some(tags) => {
                if tags.len() > 0 {
                    out.append(" - {");
                    let mut i: usize = 0;
                    while i < tags.len()
                        invariant
                            i <= tags.len(),
                            out@ == head + " - {"@ + tags_text(tags_view(tags@).take(i as int)),
                        decreases tags.len() - i,
                    {
                        proof {
                            assert(tags_view(tags@).take(i as int + 1).drop_last() =~= tags_view(
                                tags@,
                            ).take(i as int));
                            assert(tags_view(tags@).take(i as int + 1).last() == tags@[i as int]@);
                        }
                        let ghost before = out@;
                        out.append("[");
                        let one = tags[i].to_text();
                        out.append(one.as_str());
                        out.append("]");
                        assert(out@ =~= before + ("["@ + tag_text(tags@[i as int]@) + "]"@));
                        assert(out@ =~= head + " - {"@ + tags_text(
                            tags_view(tags@).take(i as int + 1),
                        ));
                        i += 1;
                    }
                    assert(tags_view(tags@).take(i as int) =~= tags_view(tags@));
                    out.append("}");
                }
            },
            None => {},
        }
        assert(out@ =~= head + tags_part(self@.tags));
        out.append(" - ");
        out.append(self.enforcement_state.plain_name());
        let ghost body = out@;
        match &self.enforcement_reason {
            Some(reason) => {
                out.append(" (");
                out.append(reason.name());
                out.append(")");
            },
            None => {},
        }
        assert(out@ =~= body + reason_part(self@.enforcement_reason));
        assert(out@ =~= resource_text(self@));
        out
    }
}

/// The content of the placeholder resource that stands for no cloud object.
pub open spec fn root_view() -> ResourceView {
    ResourceView {
        id: "root"@,
        arn: None,
        type_: Client::DefaultClient,
        region: Seq::empty(),
        tags: None,
        state: None,
        start_time: None,
        enforcement_state: EnforcementState::Skip,
        enforcement_reason: None,
        resource_type: None,
        dependencies: None,
        termination_protection: None,
    }
}

impl Default for Resource {
    /// The placeholder resource.
    fn default() -> (r: Resource)
        ensures
            r@ == root_view(),
    {
        Resource {
            id: "root".to_owned(),
            arn: None,
            type_: Client::DefaultClient,
            region: String::new(),
            tags: None,
            state: None,
            start_time: None,
            enforcement_state: EnforcementState::Skip,
            enforcement_reason: None,
            resource_type: None,
            dependencies: None,
            termination_protection: None,
        }
    }
}

impl Clone for Resource {
    fn clone(&self) -> (r: Resource)
        ensures
            r@ == self@,
        decreases self,
    {
        let dependencies = match &self.dependencies {
            Some(d) => {
                let mut out: Vec<Resource> = Vec::new();
                let mut i: usize = 0;
                while i < d.len()
                    invariant
                        i <= d.len(),
                        self.dependencies == Some(*d),
                        out@.len() == i,
                        forall|k: int| 0 <= k < i ==> #[trigger] out@[k]@ == d@[k]@,
                    decreases d.len() - i,
                {
                    proof {
                        assert(decreases_to!(*self => self.dependencies));
                        assert(decreases_to!(self.dependencies => self.dependencies->Some_0));
                        assert(decreases_to!(*d => d[i as int]));
                    }
                    out.push(d[i].clone());
                    i += 1;
                }
                proof {
                    lemma_resources_view_pointwise(out@, d@);
                }
                Some(out)
            },
            None => None,
        };
        Resource {
            id: self.id.clone(),
            arn: clone_opt_text(&self.arn),
            type_: self.type_,
            region: self.region.clone(),
            tags: match &self.tags {
                Some(t) => Some(clone_tags(t)),
                None => None,
            },
            state: self.state,
            start_time: clone_opt_text(&self.start_time),
            enforcement_state: self.enforcement_state,
            enforcement_reason: self.enforcement_reason,
            resource_type: match &self.resource_type {
                Some(t) => Some(clone_texts(t)),
                None => None,
            },
            dependencies,
            termination_protection: self.termination_protection,
        }
    }
}

} // verus!
