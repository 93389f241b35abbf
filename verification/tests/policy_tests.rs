use nuker::client::Client;
use nuker::config::{
    FilterOp, MetricFilter, MetricStatistic, RequiredTag, ResourceConfig, TargetState,
};
use nuker::policy::{
    additional_rules, compare_tags, conclude, contains_text, enforce, evaluate, has_allowed_types,
    has_idle_rules, has_required_tags, is_ignored, is_resource_idle, is_resource_up,
    resource_tags_does_not_match, resource_types_does_not_match, start, Decision, PolicyStep,
};
use nuker::resource::{EnforcementReason, EnforcementState, NTag, Resource, ResourceState};
use std::time::Duration;

fn db(id: &str, state: ResourceState) -> Resource {
    Resource {
        id: id.to_string(),
        arn: None,
        type_: Client::RdsInstance,
        region: "us-east-1".to_string(),
        tags: None,
        state: Some(state),
        start_time: None,
        enforcement_state: EnforcementState::Skip,
        enforcement_reason: None,
        resource_type: None,
        dependencies: None,
        termination_protection: None,
    }
}

fn tag(key: &str, value: &str) -> NTag {
    NTag { key: Some(key.to_string()), value: Some(value.to_string()) }
}

fn required(name: &str, pattern: Option<&str>) -> RequiredTag {
    let mut t = RequiredTag {
        name: name.to_string(),
        pattern: pattern.map(|p| p.to_string()),
        regex: None,
    };
    t.prepare();
    t
}

fn idle_filter() -> MetricFilter {
    MetricFilter {
        name: "CPUUtilization".to_string(),
        statistic: MetricStatistic::Average,
        duration: Duration::from_secs(86400),
        period: Duration::from_secs(3600),
        op: FilterOp::Lt,
        dimensions: None,
        value_bits: 0x41200000,
    }
}

fn decision(state: EnforcementState, reason: Option<EnforcementReason>) -> Decision {
    Decision { state, reason }
}

#[test]
fn stopped_resource_is_skipped() {
    let r = db("db-1", ResourceState::Stopped);
    let c = ResourceConfig::default();
    assert_eq!(evaluate(&r, &c, true), decision(EnforcementState::SkipStopped, None));
    assert_eq!(evaluate(&r, &c, false), decision(EnforcementState::SkipStopped, None));
}

#[test]
fn missing_required_tag_is_deleted() {
    let r = db("db-2", ResourceState::Available);
    let mut c = ResourceConfig::default();
    c.target_state = TargetState::Deleted;
    c.required_tags = Some(vec![required("env", None)]);
    assert_eq!(
        evaluate(&r, &c, true),
        decision(EnforcementState::Delete, Some(EnforcementReason::TagRule))
    );
}

#[test]
fn tag_rule_is_reported_before_the_idle_rule() {
    let r = db("db-3", ResourceState::Available);
    let mut c = ResourceConfig::default();
    c.required_tags = Some(vec![required("env", None)]);
    c.metric_filters = Some(vec![idle_filter()]);
    assert!(resource_tags_does_not_match(&r, &c));
    assert!(is_resource_idle(&c, false));
    assert_eq!(
        evaluate(&r, &c, false),
        decision(EnforcementState::Delete, Some(EnforcementReason::TagRule))
    );
}

#[test]
fn tag_rule_is_reported_before_the_type_rule() {
    let mut r = db("db-3", ResourceState::Available);
    r.resource_type = Some(vec!["db.r5.24xlarge".to_string()]);
    let mut c = ResourceConfig::default();
    c.target_state = TargetState::Stopped;
    c.required_tags = Some(vec![required("env", None)]);
    c.allowed_types = Some(vec!["db.t3.small".to_string()]);
    assert_eq!(
        evaluate(&r, &c, true),
        decision(EnforcementState::Stop, Some(EnforcementReason::TagRule))
    );
}

#[test]
fn type_rule_is_reported_before_the_idle_rule() {
    let mut r = db("db-4", ResourceState::Available);
    r.tags = Some(vec![tag("env", "prod")]);
    r.resource_type = Some(vec!["db.t3.small".to_string(), "db.r5.large".to_string()]);
    let mut c = ResourceConfig::default();
    c.required_tags = Some(vec![required("env", None)]);
    c.allowed_types = Some(vec!["db.t3.small".to_string(), "db.t3.medium".to_string()]);
    c.metric_filters = Some(vec![idle_filter()]);
    assert_eq!(
        evaluate(&r, &c, false),
        decision(EnforcementState::Delete, Some(EnforcementReason::AllowedTypeRule))
    );
}

#[test]
fn idle_rule_fires_only_when_the_oracle_says_not_active() {
    let r = db("db-5", ResourceState::Available);
    let mut c = ResourceConfig::default();
    c.target_state = TargetState::Stopped;
    c.metric_filters = Some(vec![idle_filter()]);
    assert_eq!(
        evaluate(&r, &c, false),
        decision(EnforcementState::Stop, Some(EnforcementReason::Idle))
    );
    assert_eq!(evaluate(&r, &c, true), decision(EnforcementState::Skip, None));
}

#[test]
fn nothing_configured_means_skip() {
    let r = db("db-6", ResourceState::Available);
    let c = ResourceConfig::default();
    assert_eq!(evaluate(&r, &c, false), decision(EnforcementState::Skip, None));
    assert_eq!(evaluate(&r, &c, true), decision(EnforcementState::Skip, None));
}

#[test]
fn empty_rule_lists_are_disabled() {
    let mut r = db("db-7", ResourceState::Available);
    r.resource_type = Some(vec!["db.r5.large".to_string()]);
    let mut c = ResourceConfig::default();
    c.required_tags = Some(vec![]);
    c.allowed_types = Some(vec![]);
    c.metric_filters = Some(vec![]);
    c.whitelist = Some(vec![]);
    assert!(!has_idle_rules(&c));
    assert_eq!(evaluate(&r, &c, false), decision(EnforcementState::Skip, None));
}

#[test]
fn ignore_list_comes_before_everything() {
    let r = db("db-8", ResourceState::Stopped);
    let mut c = ResourceConfig::default();
    c.whitelist = Some(vec!["db-0".to_string(), "db-8".to_string()]);
    c.required_tags = Some(vec![required("env", None)]);
    assert!(is_ignored(&r, &c));
    assert_eq!(evaluate(&r, &c, false), decision(EnforcementState::SkipConfig, None));
    let other = db("db-9", ResourceState::Stopped);
    assert!(!is_ignored(&other, &c));
    assert_eq!(evaluate(&other, &c, false), decision(EnforcementState::SkipStopped, None));
}

#[test]
fn resource_without_state_is_skipped_as_stopped() {
    let mut r = db("db-10", ResourceState::Available);
    r.state = None;
    let mut c = ResourceConfig::default();
    c.required_tags = Some(vec![required("env", None)]);
    assert_eq!(evaluate(&r, &c, false), decision(EnforcementState::SkipStopped, None));
    r.state = Some(ResourceState::Unknown);
    assert_eq!(evaluate(&r, &c, false), decision(EnforcementState::SkipStopped, None));
}

#[test]
fn required_tag_with_pattern_checks_the_value() {
    let rule = vec![required("env", Some("^(prod|dev)$"))];
    assert!(rule[0].regex.is_some());
    assert!(compare_tags(&Some(vec![tag("team", "x"), tag("env", "prod")]), &rule));
    assert!(!compare_tags(&Some(vec![tag("env", "production")]), &rule));
    assert!(!compare_tags(&Some(vec![tag("Env", "prod")]), &rule));
    assert!(!compare_tags(&Some(vec![]), &rule));
    assert!(!compare_tags(&None, &rule));
    assert!(!compare_tags(
        &Some(vec![NTag { key: Some("env".to_string()), value: None }]),
        &rule
    ));
}

#[test]
fn pattern_matches_anywhere_in_the_value() {
    let rule = vec![required("owner", Some("@example"))];
    assert!(compare_tags(&Some(vec![tag("owner", "me@example.com")]), &rule));
    assert!(!compare_tags(&Some(vec![tag("owner", "me")]), &rule));
}

#[test]
fn malformed_pattern_lets_any_value_pass() {
    let rule = vec![required("env", Some("(unclosed"))];
    assert!(rule[0].regex.is_none());
    assert!(compare_tags(&Some(vec![tag("env", "anything")]), &rule));
    assert!(compare_tags(
        &Some(vec![NTag { key: Some("env".to_string()), value: None }]),
        &rule
    ));
    assert!(!compare_tags(&Some(vec![tag("other", "anything")]), &rule));
}

#[test]
fn every_required_tag_must_be_met() {
    let rules = vec![required("env", None), required("team", Some("^[a-z]+$"))];
    assert!(compare_tags(&Some(vec![tag("team", "core"), tag("env", "x")]), &rules));
    assert!(!compare_tags(&Some(vec![tag("env", "x")]), &rules));
    assert!(!compare_tags(&Some(vec![tag("team", "Core"), tag("env", "x")]), &rules));
    assert!(compare_tags(&None, &vec![]));
}

#[test]
fn one_of_several_tags_with_the_key_is_enough() {
    let rules = vec![required("env", Some("^prod$"))];
    assert!(compare_tags(&Some(vec![tag("env", "dev"), tag("env", "prod")]), &rules));
    assert!(compare_tags(&Some(vec![tag("env", "prod"), tag("env", "dev")]), &rules));
}

#[test]
fn types_must_all_be_allowed() {
    let mut c = ResourceConfig::default();
    c.allowed_types = Some(vec!["a".to_string(), "b".to_string()]);
    let mut r = db("x", ResourceState::Available);
    assert!(!resource_types_does_not_match(&r, &c));
    r.resource_type = Some(vec![]);
    assert!(!resource_types_does_not_match(&r, &c));
    r.resource_type = Some(vec!["b".to_string(), "a".to_string(), "b".to_string()]);
    assert!(!resource_types_does_not_match(&r, &c));
    r.resource_type = Some(vec!["a".to_string(), "c".to_string()]);
    assert!(resource_types_does_not_match(&r, &c));
    c.allowed_types = None;
    assert!(!resource_types_does_not_match(&r, &c));
}

#[test]
fn contains_text_compares_whole_strings() {
    let list = vec!["alpha".to_string(), "beta".to_string()];
    assert!(contains_text(&list, "beta"));
    assert!(!contains_text(&list, "bet"));
    assert!(!contains_text(&list, "Beta"));
    assert!(!contains_text(&vec![], ""));
}

#[test]
fn start_decides_without_the_oracle_where_it_can() {
    let stopped = db("s", ResourceState::Stopped);
    let mut c = ResourceConfig::default();
    c.metric_filters = Some(vec![idle_filter()]);
    assert_eq!(
        start(&stopped, &c),
        PolicyStep::Decided(decision(EnforcementState::SkipStopped, None))
    );
    let up = db("u", ResourceState::Available);
    assert_eq!(start(&up, &c), PolicyStep::AskIdleOracle);
    assert_eq!(
        conclude(&c, false),
        decision(EnforcementState::Delete, Some(EnforcementReason::Idle))
    );
    assert_eq!(conclude(&c, true), decision(EnforcementState::Skip, None));
    c.metric_filters = None;
    assert_eq!(start(&up, &c), PolicyStep::Decided(decision(EnforcementState::Skip, None)));
}

#[test]
fn evaluating_twice_gives_the_same_decision() {
    let mut r = db("db-11", ResourceState::Available);
    r.tags = Some(vec![tag("env", "qa")]);
    let mut c = ResourceConfig::default();
    c.required_tags = Some(vec![required("env", Some("^prod$"))]);
    let first = evaluate(&r, &c, true);
    let second = evaluate(&r.clone(), &c.clone(), true);
    assert_eq!(first, second);
    assert_eq!(first, decision(EnforcementState::Delete, Some(EnforcementReason::TagRule)));
}

#[test]
fn additional_rules_apply_only_after_a_plain_skip() {
    let mut c = ResourceConfig::default();
    c.target_state = TargetState::Stopped;
    let skip = decision(EnforcementState::Skip, None);
    let fired = decision(EnforcementState::Stop, Some(EnforcementReason::AdditionalRules));
    assert_eq!(additional_rules(skip, &c, Some(false)), fired);
    assert_eq!(additional_rules(skip, &c, Some(true)), skip);
    assert_eq!(additional_rules(skip, &c, None), skip);
    let stopped = decision(EnforcementState::SkipStopped, None);
    assert_eq!(additional_rules(stopped, &c, Some(false)), stopped);
    let ignored = decision(EnforcementState::SkipConfig, None);
    assert_eq!(additional_rules(ignored, &c, Some(false)), ignored);
    let tagged = decision(EnforcementState::Delete, Some(EnforcementReason::TagRule));
    assert_eq!(additional_rules(tagged, &c, Some(false)), tagged);
    c.disable_additional_rules = true;
    assert_eq!(additional_rules(skip, &c, Some(false)), skip);
}

#[test]
fn enforce_records_the_decision() {
    let mut r = db("db-12", ResourceState::Available);
    r.arn = Some("arn".to_string());
    enforce(&mut r, decision(EnforcementState::Stop, Some(EnforcementReason::Idle)));
    assert_eq!(r.enforcement_state, EnforcementState::Stop);
    assert_eq!(r.enforcement_reason, Some(EnforcementReason::Idle));
    assert_eq!(r.id, "db-12");
    assert_eq!(r.arn, Some("arn".to_string()));
    assert_eq!(r.state, Some(ResourceState::Available));
}

#[test]
fn rules_count_as_configured_only_when_they_list_something() {
    let mut c = ResourceConfig::default();
    assert!(!has_required_tags(&c));
    assert!(!has_allowed_types(&c));
    assert!(!has_idle_rules(&c));
    c.required_tags = Some(vec![]);
    c.allowed_types = Some(vec![]);
    c.metric_filters = Some(vec![]);
    assert!(!has_required_tags(&c));
    assert!(!has_allowed_types(&c));
    assert!(!has_idle_rules(&c));
    c.required_tags = Some(vec![required("env", None)]);
    c.allowed_types = Some(vec!["db.t3.small".to_string()]);
    c.metric_filters = Some(vec![idle_filter()]);
    assert!(has_required_tags(&c));
    assert!(has_allowed_types(&c));
    assert!(has_idle_rules(&c));
}

#[test]
fn stopped_resource_that_fails_every_rule_is_still_skipped() {
    let r = db("db-13", ResourceState::Stopped);
    let mut c = ResourceConfig::default();
    c.required_tags = Some(vec![required("env", None)]);
    c.metric_filters = Some(vec![idle_filter()]);
    assert!(resource_tags_does_not_match(&r, &c));
    assert_eq!(evaluate(&r, &c, false), decision(EnforcementState::SkipStopped, None));
}

#[test]
fn cloned_configuration_keeps_its_rules() {
    let mut c = ResourceConfig::default();
    c.metric_filters = Some(vec![idle_filter()]);
    c.max_run_time = Some(Duration::from_millis(1500));
    c.required_tags = Some(vec![required("env", Some("^p"))]);
    let copy = c.clone();
    let filter = &copy.metric_filters.as_ref().unwrap()[0];
    assert_eq!(filter.duration, Duration::from_secs(86400));
    assert_eq!(filter.period, Duration::from_secs(3600));
    assert_eq!(filter.value_bits, 0x41200000);
    assert_eq!(filter.name, "CPUUtilization");
    assert_eq!(copy.max_run_time, Some(Duration::from_millis(1500)));
    assert_eq!(copy.required_tags.as_ref().unwrap()[0].regex.as_ref().unwrap().as_str(), "^p");
}

#[test]
fn database_is_up_only_when_available() {
    let states = [
        ResourceState::Deleted,
        ResourceState::Failed,
        ResourceState::Pending,
        ResourceState::Rebooting,
        ResourceState::Running,
        ResourceState::ShuttingDown,
        ResourceState::Starting,
        ResourceState::Stopped,
        ResourceState::Stopping,
        ResourceState::Unknown,
    ];
    for kind in [Client::RdsInstance, Client::RdsCluster, Client::RsCluster].iter() {
        let mut r = db("db", ResourceState::Available);
        r.type_ = *kind;
        assert!(is_resource_up(&r));
        for state in states.iter() {
            r.state = Some(*state);
            assert!(!is_resource_up(&r));
        }
        r.state = None;
        assert!(!is_resource_up(&r));
    }
}

#[test]
fn running_database_is_skipped_and_the_oracle_is_not_asked() {
    let mut c = ResourceConfig::default();
    c.required_tags = Some(vec![required("env", None)]);
    c.metric_filters = Some(vec![idle_filter()]);
    let mut cluster = db("cluster-1", ResourceState::Running);
    cluster.type_ = Client::RdsCluster;
    let skipped = decision(EnforcementState::SkipStopped, None);
    assert_eq!(evaluate(&cluster, &c, false), skipped);
    assert_eq!(start(&cluster, &c), PolicyStep::Decided(skipped));
    cluster.tags = Some(vec![tag("env", "prod")]);
    assert_eq!(start(&cluster, &c), PolicyStep::Decided(skipped));
    assert_eq!(evaluate(&cluster, &c, false), skipped);
    cluster.state = Some(ResourceState::Available);
    assert_eq!(start(&cluster, &c), PolicyStep::AskIdleOracle);
}

#[test]
fn oracle_is_not_asked_where_another_rule_decides() {
    let mut c = ResourceConfig::default();
    c.required_tags = Some(vec![required("env", None)]);
    c.allowed_types = Some(vec!["db.t3.small".to_string()]);
    c.metric_filters = Some(vec![idle_filter()]);
    c.whitelist = Some(vec!["kept".to_string()]);
    let kept = db("kept", ResourceState::Available);
    assert_eq!(
        start(&kept, &c),
        PolicyStep::Decided(decision(EnforcementState::SkipConfig, None))
    );
    let untagged = db("untagged", ResourceState::Available);
    assert_eq!(
        start(&untagged, &c),
        PolicyStep::Decided(decision(EnforcementState::Delete, Some(EnforcementReason::TagRule)))
    );
    let mut large = db("large", ResourceState::Available);
    large.tags = Some(vec![tag("env", "prod")]);
    large.resource_type = Some(vec!["db.r5.large".to_string()]);
    assert_eq!(
        start(&large, &c),
        PolicyStep::Decided(decision(
            EnforcementState::Delete,
            Some(EnforcementReason::AllowedTypeRule)
        ))
    );
    large.resource_type = Some(vec!["db.t3.small".to_string()]);
    assert_eq!(start(&large, &c), PolicyStep::AskIdleOracle);
}

#[test]
fn instance_is_up_when_running() {
    let mut r = db("i-1", ResourceState::Running);
    r.type_ = Client::Ec2Instance;
    assert!(is_resource_up(&r));
    r.state = Some(ResourceState::Available);
    assert!(!is_resource_up(&r));
    r.type_ = Client::DefaultClient;
    assert!(!is_resource_up(&r));
    r.state = Some(ResourceState::Running);
    assert!(!is_resource_up(&r));
}
