//! Per-resource-type rule configuration and the run-level arguments.

use vstd::prelude::*;
use regex::Regex;
use std::time::Duration;
use crate::client::Client;
use crate::pattern::{compile_regex, compiled_from, pattern_language, regex_language};

verus! {

/// `Duration` is `Copy`: its `clone` gives back the same span of time.
pub assume_specification[ <std::time::Duration as Clone>::clone ](d: &Duration) -> (r: Duration)
    ensures
        r == *d,
;

/// Run-level arguments.
#[derive(Debug, Clone)]
pub struct Args {
    pub config: String,
    pub profile: Option<String>,
    pub regions: Vec<String>,
    pub targets: Option<Vec<Client>>,
    pub exclude: Option<Vec<Client>>,
    pub dry_run: bool,
    pub force: bool,
    pub verbose: u64,
    pub version: String,
}

/// Whether the list holds the kind.
pub fn contains_kind(list: &Vec<Client>, kind: Client) -> (r: bool)
    ensures
        r == list@.contains(kind),
{
    let mut i: usize = 0;
    while i < list.len()
        invariant
            i <= list.len(),
            forall|k: int| 0 <= k < i ==> list@[k] != kind,
        decreases list.len() - i,
    {
        if list[i] == kind {
            return true;
        }
        i += 1;
    }
    false
}

impl Args {
    /// Whether the run covers a kind of resource: the targets decide where
    /// they are given, else everything is covered but what is excluded.
    pub open spec fn selects(&self, kind: Client) -> bool {
        match (self.targets, self.exclude) {
            (Some(targets), _) => targets@.contains(kind),
            (None, Some(exclude)) => !exclude@.contains(kind),
            (None, None) => true,
        }
    }

    /// Whether the run covers a kind of resource.
    pub fn wants(&self, kind: Client) -> (r: bool)
        ensures
            r == self.selects(kind),
    {
        match &self.targets {
            Some(targets) => contains_kind(targets, kind),
            None => match &self.exclude {
                Some(exclude) => !contains_kind(exclude, kind),
                None => true,
            },
        }
    }

    /// Whether the user has to confirm the run: it would change resources
    /// and was not forced.
    pub fn needs_confirmation(&self) -> (r: bool)
        ensures
            r == (!self.dry_run && !self.force),
    {
        !self.dry_run && !self.force
    }
}

/// What a non-compliant resource is brought to.
#[derive(Debug, Copy, Clone, PartialEq, Eq, Structural)]
pub enum TargetState {
    Stopped,
    Deleted,
}

impl Default for TargetState {
    fn default() -> (r: TargetState)
        ensures
            r == TargetState::Deleted,
    {
        TargetState::Deleted
    }
}

/// A tag that every resource must carry, with an optional pattern for its
/// value. `regex` is the compiled pattern, once the configuration has been
/// prepared.
#[derive(Debug, Clone)]
pub struct RequiredTag {
    pub name: String,
    pub pattern: Option<String>,
    pub regex: Option<Regex>,
}

/// How a metric is compared with its threshold.
#[derive(Debug, Copy, Clone, PartialEq, Eq, Structural)]
pub enum FilterOp {
    Lt,
    Gt,
    Le,
    Ge,
}

impl Default for FilterOp {
    fn default() -> (r: FilterOp)
        ensures
            r == FilterOp::Lt,
    {
        FilterOp::Lt
    }
}

/// How the data points of a metric are aggregated.
#[derive(Debug, Copy, Clone, PartialEq, Eq, Structural)]
pub enum MetricStatistic {
    SampleCount,
    Average,
    Sum,
    Minimum,
    Maximum,
}

impl Default for MetricStatistic {
    fn default() -> (r: MetricStatistic)
        ensures
            r == MetricStatistic::Average,
    {
        MetricStatistic::Average
    }
}

impl MetricStatistic {
    /// The name of the statistic as the metrics service spells it.
    pub open spec fn spec_name(&self) -> Seq<char> {
        match *self {
            MetricStatistic::SampleCount => "SampleCount"@,
            MetricStatistic::Average => "Average"@,
            MetricStatistic::Sum => "Sum"@,
            MetricStatistic::Minimum => "Minimum"@,
            MetricStatistic::Maximum => "Maximum"@,
        }
    }

    pub fn name(&self) -> (r: &'static str)
        ensures
            r@ == self.spec_name(),
    {
        match *self {
            MetricStatistic::SampleCount => "SampleCount",
            MetricStatistic::Average => "Average",
            MetricStatistic::Sum => "Sum",
            MetricStatistic::Minimum => "Minimum",
            MetricStatistic::Maximum => "Maximum",
        }
    }
}

/// One dimension that narrows a metric down.
#[derive(Debug, Clone)]
pub struct MetricDimension {
    pub name: String,
    pub value: String,
}

/// One idle rule: a metric, how it is aggregated over which time, and the
/// threshold it is compared with. The threshold is kept as the bit pattern
/// of a 32-bit IEEE 754 number; the engine never interprets it.
#[derive(Debug, Clone)]
pub struct MetricFilter {
    pub name: String,
    pub statistic: MetricStatistic,
    pub duration: Duration,
    pub period: Duration,
    pub op: FilterOp,
    pub dimensions: Option<Vec<MetricDimension>>,
    pub value_bits: u32,
}

/// Whether the engine clears a provider-side delete protection before it
/// deletes.
#[derive(Debug, Clone)]
pub struct TerminationProtection {
    pub ignore: bool,
}

/// Treatment of resources that have been stopped for long.
#[derive(Debug, Clone)]
pub struct ManageStopped {
    pub older_than: Duration,
    pub dt_extract_regex: Option<Regex>,
}

/// A pattern that resource names must start with.
#[derive(Debug, Clone)]
pub struct NamingPrefix {
    pub pattern: String,
    pub regex: Option<Regex>,
}

/// The rules for one type of resource.
#[derive(Debug, Clone)]
pub struct ResourceConfig {
    pub target_state: TargetState,
    pub required_tags: Option<Vec<RequiredTag>>,
    pub allowed_types: Option<Vec<String>>,
    pub whitelist: Option<Vec<String>>,
    pub metric_filters: Option<Vec<MetricFilter>>,
    pub termination_protection: Option<TerminationProtection>,
    pub manage_stopped: Option<ManageStopped>,
    pub max_run_time: Option<Duration>,
    pub disable_additional_rules: bool,
    pub naming_prefix: Option<NamingPrefix>,
}

impl Default for ResourceConfig {
    /// No rule is configured; non-compliant resources would be deleted, and
    /// delete protection is cleared first.
    fn default() -> (r: ResourceConfig)
        ensures
            r.target_state == TargetState::Deleted,
            r.required_tags is None,
            r.allowed_types is None,
            r.whitelist is None,
            r.metric_filters is None,
            r.termination_protection matches Some(t) && t.ignore,
            r.manage_stopped is None,
            r.max_run_time is None,
            !r.disable_additional_rules,
            r.naming_prefix is None,
    {
        ResourceConfig {
            target_state: TargetState::Deleted,
            required_tags: None,
            allowed_types: None,
            whitelist: None,
            metric_filters: None,
            termination_protection: Some(TerminationProtection { ignore: true }),
            manage_stopped: None,
            max_run_time: None,
            disable_additional_rules: false,
            naming_prefix: None,
        }
    }
}

impl RequiredTag {
    /// `self` is `source` with its pattern compiled: same name and pattern,
    /// and for `regex` what compiling the pattern gives. Without a pattern
    /// nothing changes.
    pub open spec fn prepared_from(&self, source: RequiredTag) -> bool {
        &&& self.name == source.name
        &&& self.pattern == source.pattern
        &&& match source.pattern {
            Some(p) => compiled_from(self.regex, p@),
            None => self.regex == source.regex,
        }
    }

    /// Compiles the pattern, if there is one.
    pub fn prepare(&mut self)
        ensures
            final(self).prepared_from(*old(self)),
    {
        if let Some(pattern) = &self.pattern {
            let regex = compile_regex(pattern.as_str());
            self.regex = regex;
        }
    }
}

impl NamingPrefix {
    /// `self` is `source` with its pattern compiled.
    pub open spec fn prepared_from(&self, source: NamingPrefix) -> bool {
        &&& self.pattern == source.pattern
        &&& compiled_from(self.regex, source.pattern@)
    }

    /// Compiles the pattern.
    pub fn prepare(&mut self)
        ensures
            final(self).prepared_from(*old(self)),
    {
        let regex = compile_regex(self.pattern.as_str());
        self.regex = regex;
    }
}

/// Each tag of `tags` is the tag of `source` at its place, with its pattern
/// compiled.
pub open spec fn tags_prepared_from(tags: Seq<RequiredTag>, source: Seq<RequiredTag>) -> bool {
    &&& tags.len() == source.len()
    &&& forall|k: int| 0 <= k < tags.len() ==> (#[trigger] tags[k]).prepared_from(source[k])
}

/// Compiles the pattern of every tag.
pub fn prepare_tags(tags: &mut Vec<RequiredTag>)
    ensures
        tags_prepared_from(final(tags)@, old(tags)@),
{
    let mut i: usize = 0;
    while i < tags.len()
        invariant
            i <= tags.len(),
            tags@.len() == old(tags)@.len(),
            forall|k: int| 0 <= k < i ==> (#[trigger] tags@[k]).prepared_from(old(tags)@[k]),
            forall|k: int| i <= k < tags@.len() ==> tags@[k] == old(tags)@[k],
        decreases tags.len() - i,
    {
        tags[i].prepare();
        i += 1;
    }
}

impl ResourceConfig {
    /// `self` is `source` with every pattern compiled, and otherwise the
    /// same.
    pub open spec fn prepared_from(&self, source: ResourceConfig) -> bool {
        &&& self.target_state == source.target_state
        &&& self.allowed_types == source.allowed_types
        &&& self.whitelist == source.whitelist
        &&& self.metric_filters == source.metric_filters
        &&& self.termination_protection == source.termination_protection
        &&& self.manage_stopped == source.manage_stopped
        &&& self.max_run_time == source.max_run_time
        &&& self.disable_additional_rules == source.disable_additional_rules
        &&& match (self.required_tags, source.required_tags) {
            (Some(tags), Some(given)) => tags_prepared_from(tags@, given@),
            (None, None) => true,
            _ => false,
        }
        &&& match (self.naming_prefix, source.naming_prefix) {
            (Some(prefix), Some(given)) => prefix.prepared_from(given),
            (None, None) => true,
            _ => false,
        }
    }

    /// Compiles the patterns of the required tags and of the naming prefix.
    pub fn prepare(&mut self)
        ensures
            final(self).prepared_from(*old(self)),
    {
        match &mut self.required_tags {
            Some(tags) => {
                prepare_tags(tags);
            },
            None => {},
        }
        match &mut self.naming_prefix {
            Some(prefix) => {
                prefix.prepare();
            },
            None => {},
        }
    }
}

/// The configuration as it is written down: one section for each kind of
/// resource.
#[derive(Debug, Clone)]
pub struct ParsedConfig {
    pub ec2_instance: ResourceConfig,
    pub ec2_sg: ResourceConfig,
    pub ec2_eni: ResourceConfig,
    pub ec2_address: ResourceConfig,
    pub ebs_volume: ResourceConfig,
    pub ebs_snapshot: ResourceConfig,
    pub elb_alb: ResourceConfig,
    pub elb_nlb: ResourceConfig,
    pub rds_instance: ResourceConfig,
    pub rds_cluster: ResourceConfig,
    pub s3_bucket: ResourceConfig,
    pub emr_cluster: ResourceConfig,
    pub rs_cluster: ResourceConfig,
    pub glue_endpoint: ResourceConfig,
    pub sagemaker_notebook: ResourceConfig,
    pub es_domain: ResourceConfig,
    pub asg: ResourceConfig,
    pub ecs_cluster: ResourceConfig,
    pub eks_cluster: ResourceConfig,
    pub ec2_vpc: ResourceConfig,
    pub ec2_igw: ResourceConfig,
    pub ec2_nat_gw: ResourceConfig,
    pub ec2_network_acl: ResourceConfig,
    pub ec2_peering_connection: ResourceConfig,
    pub ec2_rt: ResourceConfig,
    pub ec2_subnet: ResourceConfig,
    pub ec2_vpc_endpoint: ResourceConfig,
    pub ec2_vpn_gw: ResourceConfig,
}

impl ParsedConfig {
    /// The section of a kind of resource; the placeholder kind has none.
    pub open spec fn section(&self, client: Client) -> Option<ResourceConfig> {
        match client {
            Client::Asg => Some(self.asg),
            Client::Ec2Instance => Some(self.ec2_instance),
            Client::Ec2Sg => Some(self.ec2_sg),
            Client::Ec2Eni => Some(self.ec2_eni),
            Client::Ec2Address => Some(self.ec2_address),
            Client::EbsVolume => Some(self.ebs_volume),
            Client::EbsSnapshot => Some(self.ebs_snapshot),
            Client::Ec2Vpc => Some(self.ec2_vpc),
            Client::Ec2Igw => Some(self.ec2_igw),
            Client::Ec2Subnet => Some(self.ec2_subnet),
            Client::Ec2RouteTable => Some(self.ec2_rt),
            Client::Ec2NetworkACL => Some(self.ec2_network_acl),
            Client::Ec2NatGW => Some(self.ec2_nat_gw),
            Client::Ec2VpnGW => Some(self.ec2_vpn_gw),
            Client::Ec2VpcEndpoint => Some(self.ec2_vpc_endpoint),
            Client::Ec2PeeringConnection => Some(self.ec2_peering_connection),
            Client::RdsInstance => Some(self.rds_instance),
            Client::RdsCluster => Some(self.rds_cluster),
            Client::EcsCluster => Some(self.ecs_cluster),
            Client::EksCluster => Some(self.eks_cluster),
            Client::ElbAlb => Some(self.elb_alb),
            Client::ElbNlb => Some(self.elb_nlb),
            Client::EmrCluster => Some(self.emr_cluster),
            Client::EsDomain => Some(self.es_domain),
            Client::GlueEndpoint => Some(self.glue_endpoint),
            Client::RsCluster => Some(self.rs_cluster),
            Client::SagemakerNotebook => Some(self.sagemaker_notebook),
            Client::S3Bucket => Some(self.s3_bucket),
            Client::DefaultClient => None,
        }
    }

    /// The section of a kind of resource.
    pub fn get(&self, client: Client) -> (r: Option<&ResourceConfig>)
        ensures
            match r {
                Some(c) => self.section(client) == Some(*c),
                None => self.section(client) is None,
            },
    {
        match client {
            Client::Asg => Some(&self.asg),
            Client::Ec2Instance => Some(&self.ec2_instance),
            Client::Ec2Sg => Some(&self.ec2_sg),
            Client::Ec2Eni => Some(&self.ec2_eni),
            Client::Ec2Address => Some(&self.ec2_address),
            Client::EbsVolume => Some(&self.ebs_volume),
            Client::EbsSnapshot => Some(&self.ebs_snapshot),
            Client::Ec2Vpc => Some(&self.ec2_vpc),
            Client::Ec2Igw => Some(&self.ec2_igw),
            Client::Ec2Subnet => Some(&self.ec2_subnet),
            Client::Ec2RouteTable => Some(&self.ec2_rt),
            Client::Ec2NetworkACL => Some(&self.ec2_network_acl),
            Client::Ec2NatGW => Some(&self.ec2_nat_gw),
            Client::Ec2VpnGW => Some(&self.ec2_vpn_gw),
            Client::Ec2VpcEndpoint => Some(&self.ec2_vpc_endpoint),
            Client::Ec2PeeringConnection => Some(&self.ec2_peering_connection),
            Client::RdsInstance => Some(&self.rds_instance),
            Client::RdsCluster => Some(&self.rds_cluster),
            Client::EcsCluster => Some(&self.ecs_cluster),
            Client::EksCluster => Some(&self.eks_cluster),
            Client::ElbAlb => Some(&self.elb_alb),
            Client::ElbNlb => Some(&self.elb_nlb),
            Client::EmrCluster => Some(&self.emr_cluster),
            Client::EsDomain => Some(&self.es_domain),
            Client::GlueEndpoint => Some(&self.glue_endpoint),
            Client::RsCluster => Some(&self.rs_cluster),
            Client::SagemakerNotebook => Some(&self.sagemaker_notebook),
            Client::S3Bucket => Some(&self.s3_bucket),
            Client::DefaultClient => None,
        }
    }
}

/// The configuration of a run, ready for use: every pattern is compiled.
#[derive(Debug, Clone)]
pub struct Config {
    pub sections: ParsedConfig,
}

impl Config {
    /// The rules for a kind of resource; the placeholder kind has none.
    pub open spec fn section(&self, client: Client) -> Option<ResourceConfig> {
        self.sections.section(client)
    }

    /// The rules for a kind of resource.
    pub fn get(&self, client: Client) -> (r: Option<&ResourceConfig>)
        ensures
            match r {
                Some(c) => self.section(client) == Some(*c),
                None => self.section(client) is None,
            },
    {
        self.sections.get(client)
    }
}

/// Makes the configuration of a run out of its written form: every section
/// is kept under its kind of resource, with its patterns compiled.
pub fn parse_config(parsed: ParsedConfig) -> (config: Config)
    ensures
        forall|client: Client|
            match (#[trigger] config.section(client), parsed.section(client)) {
                (Some(section), Some(given)) => section.prepared_from(given),
                (None, None) => true,
                _ => false,
            },
{
    let mut sections = parsed;
    sections.ec2_instance.prepare();
    sections.ec2_sg.prepare();
    sections.ec2_eni.prepare();
    sections.ec2_address.prepare();
    sections.ebs_volume.prepare();
    sections.ebs_snapshot.prepare();
    sections.elb_alb.prepare();
    sections.elb_nlb.prepare();
    sections.rds_instance.prepare();
    sections.rds_cluster.prepare();
    sections.s3_bucket.prepare();
    sections.emr_cluster.prepare();
    sections.rs_cluster.prepare();
    sections.glue_endpoint.prepare();
    sections.sagemaker_notebook.prepare();
    sections.es_domain.prepare();
    sections.asg.prepare();
    sections.ecs_cluster.prepare();
    sections.eks_cluster.prepare();
    sections.ec2_vpc.prepare();
    sections.ec2_igw.prepare();
    sections.ec2_nat_gw.prepare();
    sections.ec2_network_acl.prepare();
    sections.ec2_peering_connection.prepare();
    sections.ec2_rt.prepare();
    sections.ec2_subnet.prepare();
    sections.ec2_vpc_endpoint.prepare();
    sections.ec2_vpn_gw.prepare();
    Config { sections }
}

/// The section that stands in for one that was not written down.
pub fn default_resource_config() -> (r: ResourceConfig)
    ensures
        r.target_state == TargetState::Deleted,
        r.required_tags is None,
        r.allowed_types is None,
        r.whitelist is None,
        r.metric_filters is None,
        r.termination_protection matches Some(t) && t.ignore,
        r.manage_stopped is None,
        r.max_run_time is None,
        !r.disable_additional_rules,
        r.naming_prefix is None,
{
    ResourceConfig::default()
}

/// A required tag whose pattern was compiled asks of a tag exactly this: the
/// required key, and a value in which the pattern finds a match. A pattern
/// that does not compile lets every value pass.
pub proof fn lemma_prepared_tag(tag: RequiredTag, given: RequiredTag, pattern: Seq<char>)
    requires
        tag.prepared_from(given),
        given.pattern matches Some(p) && p@ == pattern,
    ensures
        tag.regex is Some <==> pattern_language(pattern) is Some,
        tag.regex matches Some(re) ==> pattern_language(pattern) == Some(regex_language(re)),
{
}

} // verus!
