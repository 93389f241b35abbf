use nuker::client::Client;
use nuker::config::TargetState;
use nuker::resource::{EnforcementReason, EnforcementState, NTag, Resource, ResourceState};
use nuker::service::{FilterRule, ResourceType};
use std::str::FromStr;

#[test]
fn status_words_map_to_states() {
    let table = [
        ("available", ResourceState::Available),
        ("pending", ResourceState::Pending),
        ("rebooting", ResourceState::Rebooting),
        ("running", ResourceState::Running),
        ("in-use", ResourceState::Running),
        ("associated", ResourceState::Running),
        ("completed", ResourceState::Running),
        ("active", ResourceState::Running),
        ("waiting", ResourceState::Running),
        ("ready", ResourceState::Running),
        ("inservice", ResourceState::Running),
        ("shutting-down", ResourceState::ShuttingDown),
        ("starting", ResourceState::Starting),
        ("provisioning", ResourceState::Starting),
        ("stopped", ResourceState::Stopped),
        ("stopping", ResourceState::Stopping),
        ("deprovisioning", ResourceState::Stopping),
        ("terminated", ResourceState::Deleted),
        ("deleting", ResourceState::Deleted),
        ("inactive", ResourceState::Deleted),
        ("terminated_with_errors", ResourceState::Deleted),
    ];
    for (word, state) in table.iter() {
        assert_eq!(ResourceState::from_str(word), Ok(*state));
        assert_eq!(ResourceState::parse(word), *state);
        assert_eq!(ResourceState::from_lowercase(word), *state);
    }
}

#[test]
fn status_words_are_read_whatever_their_case() {
    assert_eq!(ResourceState::from_str("Available"), Ok(ResourceState::Available));
    assert_eq!(ResourceState::from_str("STOPPED"), Ok(ResourceState::Stopped));
    assert_eq!(ResourceState::from_str("InService"), Ok(ResourceState::Running));
    assert_eq!(ResourceState::from_str("Shutting-Down"), Ok(ResourceState::ShuttingDown));
    assert_eq!(ResourceState::from_lowercase("Available"), ResourceState::Unknown);
}

#[test]
fn unmapped_status_words_are_unknown() {
    assert_eq!(ResourceState::from_str(""), Ok(ResourceState::Unknown));
    assert_eq!(ResourceState::from_str("failed"), Ok(ResourceState::Unknown));
    assert_eq!(ResourceState::from_str("available "), Ok(ResourceState::Unknown));
    assert_eq!(ResourceState::from_str("modifying"), Ok(ResourceState::Unknown));
}

#[test]
fn each_kind_has_its_up_state() {
    let available = [
        Client::RdsInstance,
        Client::RdsCluster,
        Client::RsCluster,
        Client::EbsVolume,
        Client::Ec2Eni,
        Client::Ec2Vpc,
        Client::Ec2Igw,
        Client::Ec2Subnet,
        Client::Ec2NatGW,
        Client::Ec2VpnGW,
        Client::Ec2VpcEndpoint,
    ];
    for kind in Client::all() {
        let expected = if available.contains(&kind) {
            ResourceState::Available
        } else {
            ResourceState::Running
        };
        assert_eq!(kind.up_state(), Some(expected));
    }
    assert_eq!(Client::DefaultClient.up_state(), None);
}

#[test]
fn target_state_gives_the_action() {
    assert_eq!(
        EnforcementState::from_target_state(&TargetState::Deleted),
        EnforcementState::Delete
    );
    assert_eq!(EnforcementState::from_target_state(&TargetState::Stopped), EnforcementState::Stop);
    assert_eq!(TargetState::default(), TargetState::Deleted);
}

#[test]
fn enforcement_state_names() {
    assert_eq!(EnforcementState::Stop.plain_name(), "would be stopped");
    assert_eq!(EnforcementState::Delete.plain_name(), "would be removed");
    assert_eq!(EnforcementState::DeleteDependent.plain_name(), "would be removed (dependent)");
    assert_eq!(EnforcementState::Skip.plain_name(), "skipped because of rules");
    assert_eq!(EnforcementState::SkipConfig.plain_name(), "skipped because of config");
    assert_eq!(EnforcementState::SkipStopped.plain_name(), "skipped as resource is not running");
    assert_eq!(
        EnforcementState::SkipUnknownState.plain_name(),
        "skipped as resource state is unknown"
    );
}

#[test]
fn enforcement_state_names_are_styled() {
    let stop = EnforcementState::Stop.name();
    assert_eq!(stop.input, "would be stopped");
    assert_eq!(stop.fgcolor, Some(colored::Color::Blue));
    assert!(stop.style.contains(colored::Styles::Bold));
    let dependent = EnforcementState::DeleteDependent.name();
    assert_eq!(dependent.input, "would be removed (dependent)");
    assert_eq!(dependent.fgcolor, Some(colored::Color::Blue));
    let skip = EnforcementState::SkipStopped.name();
    assert_eq!(skip.input, "skipped as resource is not running");
    assert_eq!(skip.fgcolor, Some(colored::Color::Yellow));
    assert!(skip.style.contains(colored::Styles::Bold));
    assert_eq!(colored::Color::Blue.to_fg_str(), "34");
    assert_eq!(colored::Color::Yellow.to_fg_str(), "33");
}

#[test]
fn actions_are_stop_and_the_two_deletes() {
    assert!(EnforcementState::Stop.is_action());
    assert!(EnforcementState::Delete.is_action());
    assert!(EnforcementState::DeleteDependent.is_action());
    assert!(!EnforcementState::Skip.is_action());
    assert!(!EnforcementState::SkipConfig.is_action());
    assert!(!EnforcementState::SkipStopped.is_action());
    assert!(!EnforcementState::SkipUnknownState.is_action());
}

#[test]
fn enforcement_reason_names() {
    assert_eq!(EnforcementReason::Idle.name(), "idle");
    assert_eq!(EnforcementReason::Runtime.name(), "runtime");
    assert_eq!(EnforcementReason::TagRule.name(), "tag-not-compliant");
    assert_eq!(EnforcementReason::AllowedTypeRule.name(), "type-not-compliant");
    assert_eq!(EnforcementReason::NameRule.name(), "name-not-compliant");
    assert_eq!(EnforcementReason::AdditionalRules.name(), "additional-rules");
    assert_eq!(EnforcementReason::Dependent.name(), "dependent");
}

#[test]
fn default_resource_is_the_placeholder() {
    let r = Resource::default();
    assert_eq!(r.id, "root");
    assert!(r.type_.is_default());
    assert_eq!(r.type_, Client::DefaultClient);
    assert_eq!(r.region, "");
    assert!(r.arn.is_none());
    assert!(r.tags.is_none());
    assert!(r.state.is_none());
    assert!(r.start_time.is_none());
    assert_eq!(r.enforcement_state, EnforcementState::Skip);
    assert!(r.enforcement_reason.is_none());
    assert!(r.resource_type.is_none());
    assert!(r.dependencies.is_none());
    assert!(r.termination_protection.is_none());
}

#[test]
fn tag_text_shows_key_and_value() {
    let t = NTag { key: Some("env".to_string()), value: Some("prod".to_string()) };
    assert_eq!(t.to_text(), "env -> prod");
    let half = NTag { key: Some("env".to_string()), value: None };
    assert_eq!(half.to_text(), "Some(\"env\") -> None");
    let none = NTag { key: None, value: None };
    assert_eq!(none.to_text(), "None -> None");
}

#[test]
fn resource_text_shows_the_decision() {
    let mut r = Resource::default();
    r.id = "db-1".to_string();
    r.type_ = Client::RdsInstance;
    r.region = "eu-west-1".to_string();
    r.enforcement_state = EnforcementState::SkipStopped;
    assert_eq!(r.to_text(), "[eu-west-1] - rds_instance - db-1 - skipped as resource is not running");
    r.tags = Some(vec![]);
    assert_eq!(r.to_text(), "[eu-west-1] - rds_instance - db-1 - skipped as resource is not running");
    r.tags = Some(vec![
        NTag { key: Some("env".to_string()), value: Some("prod".to_string()) },
        NTag { key: Some("team".to_string()), value: Some("core".to_string()) },
    ]);
    r.enforcement_state = EnforcementState::Delete;
    r.enforcement_reason = Some(EnforcementReason::TagRule);
    assert_eq!(
        r.to_text(),
        "[eu-west-1] - rds_instance - db-1 - {[env -> prod][team -> core]} - would be removed (tag-not-compliant)"
    );
}

#[test]
fn service_families() {
    assert!(ResourceType::EC2.is_ec2());
    assert!(!ResourceType::EC2.is_rds());
    assert!(!ResourceType::EC2.is_aurora());
    assert!(ResourceType::RDS.is_rds());
    assert!(!ResourceType::RDS.is_ec2());
    assert!(ResourceType::Aurora.is_aurora());
    assert!(!ResourceType::Aurora.is_rds());
    assert_ne!(FilterRule::Idle, FilterRule::RequiredTags);
    assert_ne!(FilterRule::Idle, FilterRule::AllowedTypes);
}

#[test]
fn kinds_have_names_that_lead_back_to_them() {
    let all = Client::all();
    assert_eq!(all.len(), 28);
    for kind in all.iter() {
        assert!(!kind.is_default());
        assert_eq!(Client::from_name(kind.name()), Some(*kind));
    }
    assert_eq!(Client::RdsCluster.name(), "rds_cluster");
    assert_eq!(Client::Ec2RouteTable.name(), "ec2_rt");
    assert_eq!(Client::from_name("s3_bucket"), Some(Client::S3Bucket));
    assert_eq!(Client::from_name("default"), None);
    assert_eq!(Client::from_name("S3_bucket"), None);
    assert_eq!(Client::from_name(""), None);
    assert!(Client::DefaultClient.is_default());
}
