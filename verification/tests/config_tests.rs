use nuker::client::Client;
use nuker::config::{
    contains_kind, default_resource_config, parse_config, prepare_tags, Args, FilterOp,
    MetricStatistic, NamingPrefix, ParsedConfig, RequiredTag, ResourceConfig, TargetState,
};
use nuker::pattern::{compile_regex, is_match};

fn parsed() -> ParsedConfig {
    ParsedConfig {
        ec2_instance: default_resource_config(),
        ec2_sg: default_resource_config(),
        ec2_eni: default_resource_config(),
        ec2_address: default_resource_config(),
        ebs_volume: default_resource_config(),
        ebs_snapshot: default_resource_config(),
        elb_alb: default_resource_config(),
        elb_nlb: default_resource_config(),
        rds_instance: default_resource_config(),
        rds_cluster: default_resource_config(),
        s3_bucket: default_resource_config(),
        emr_cluster: default_resource_config(),
        rs_cluster: default_resource_config(),
        glue_endpoint: default_resource_config(),
        sagemaker_notebook: default_resource_config(),
        es_domain: default_resource_config(),
        asg: default_resource_config(),
        ecs_cluster: default_resource_config(),
        eks_cluster: default_resource_config(),
        ec2_vpc: default_resource_config(),
        ec2_igw: default_resource_config(),
        ec2_nat_gw: default_resource_config(),
        ec2_network_acl: default_resource_config(),
        ec2_peering_connection: default_resource_config(),
        ec2_rt: default_resource_config(),
        ec2_subnet: default_resource_config(),
        ec2_vpc_endpoint: default_resource_config(),
        ec2_vpn_gw: default_resource_config(),
    }
}

#[test]
fn default_section_has_no_rules() {
    let c = ResourceConfig::default();
    assert_eq!(c.target_state, TargetState::Deleted);
    assert!(c.required_tags.is_none());
    assert!(c.allowed_types.is_none());
    assert!(c.whitelist.is_none());
    assert!(c.metric_filters.is_none());
    assert!(c.termination_protection.as_ref().unwrap().ignore);
    assert!(c.manage_stopped.is_none());
    assert!(c.max_run_time.is_none());
    assert!(!c.disable_additional_rules);
    assert!(c.naming_prefix.is_none());
    let d = default_resource_config();
    assert_eq!(d.target_state, TargetState::Deleted);
    assert!(d.termination_protection.unwrap().ignore);
}

#[test]
fn enum_defaults() {
    assert_eq!(FilterOp::default(), FilterOp::Lt);
    assert_eq!(MetricStatistic::default(), MetricStatistic::Average);
    assert_eq!(MetricStatistic::SampleCount.name(), "SampleCount");
    assert_eq!(MetricStatistic::Average.name(), "Average");
    assert_eq!(MetricStatistic::Sum.name(), "Sum");
    assert_eq!(MetricStatistic::Minimum.name(), "Minimum");
    assert_eq!(MetricStatistic::Maximum.name(), "Maximum");
}

#[test]
fn compile_regex_accepts_and_rejects() {
    let re = compile_regex("^db-[0-9]+$").unwrap();
    assert_eq!(re.as_str(), "^db-[0-9]+$");
    assert!(is_match(&re, "db-42"));
    assert!(!is_match(&re, "db-x"));
    assert!(!is_match(&re, ""));
    assert!(compile_regex("(").is_none());
    assert!(compile_regex("[a-").is_none());
    let any = compile_regex("").unwrap();
    assert!(is_match(&any, ""));
    assert!(is_match(&any, "whatever"));
}

#[test]
fn prepare_compiles_the_pattern_of_a_tag() {
    let mut t = RequiredTag { name: "env".to_string(), pattern: Some("^p".to_string()), regex: None };
    t.prepare();
    assert_eq!(t.name, "env");
    assert_eq!(t.pattern, Some("^p".to_string()));
    assert_eq!(t.regex.as_ref().unwrap().as_str(), "^p");
    let mut bad = RequiredTag { name: "env".to_string(), pattern: Some("(".to_string()), regex: compile_regex("x") };
    bad.prepare();
    assert!(bad.regex.is_none());
    let mut plain = RequiredTag { name: "env".to_string(), pattern: None, regex: None };
    plain.prepare();
    assert!(plain.regex.is_none());
    assert!(plain.pattern.is_none());
}

#[test]
fn prepare_tags_compiles_each_tag() {
    let mut tags = vec![
        RequiredTag { name: "a".to_string(), pattern: Some("1".to_string()), regex: None },
        RequiredTag { name: "b".to_string(), pattern: None, regex: None },
        RequiredTag { name: "c".to_string(), pattern: Some("[".to_string()), regex: None },
    ];
    prepare_tags(&mut tags);
    assert_eq!(tags.len(), 3);
    assert_eq!(tags[0].name, "a");
    assert!(tags[0].regex.is_some());
    assert_eq!(tags[1].name, "b");
    assert!(tags[1].regex.is_none());
    assert_eq!(tags[2].name, "c");
    assert!(tags[2].regex.is_none());
}

#[test]
fn parse_config_keeps_each_section_under_its_kind() {
    let mut p = parsed();
    p.rds_instance.target_state = TargetState::Stopped;
    p.rds_instance.required_tags = Some(vec![RequiredTag {
        name: "env".to_string(),
        pattern: Some("^prod$".to_string()),
        regex: None,
    }]);
    p.ec2_rt.whitelist = Some(vec!["rtb-1".to_string()]);
    p.s3_bucket.naming_prefix = Some(NamingPrefix { pattern: "^logs-".to_string(), regex: None });
    p.asg.naming_prefix = Some(NamingPrefix { pattern: "(".to_string(), regex: None });
    let config = parse_config(p);
    let rds = config.get(Client::RdsInstance).unwrap();
    assert_eq!(rds.target_state, TargetState::Stopped);
    let tags = rds.required_tags.as_ref().unwrap();
    assert_eq!(tags.len(), 1);
    assert_eq!(tags[0].regex.as_ref().unwrap().as_str(), "^prod$");
    let rt = config.get(Client::Ec2RouteTable).unwrap();
    assert_eq!(rt.whitelist, Some(vec!["rtb-1".to_string()]));
    let s3 = config.get(Client::S3Bucket).unwrap();
    let prefix = s3.naming_prefix.as_ref().unwrap();
    assert_eq!(prefix.pattern, "^logs-");
    assert!(is_match(prefix.regex.as_ref().unwrap(), "logs-2020"));
    assert!(!is_match(prefix.regex.as_ref().unwrap(), "my-logs-2020"));
    let asg = config.get(Client::Asg).unwrap();
    assert!(asg.naming_prefix.as_ref().unwrap().regex.is_none());
    assert!(config.get(Client::DefaultClient).is_none());
    for kind in Client::all() {
        assert!(config.get(kind).is_some());
    }
    let other = config.get(Client::EksCluster).unwrap();
    assert!(other.required_tags.is_none());
    assert_eq!(other.target_state, TargetState::Deleted);
}

fn args(targets: Option<Vec<Client>>, exclude: Option<Vec<Client>>) -> Args {
    Args {
        config: "nuker.toml".to_string(),
        profile: None,
        regions: vec![],
        targets,
        exclude,
        dry_run: true,
        force: false,
        verbose: 0,
        version: "unknown".to_string(),
    }
}

#[test]
fn targets_decide_before_exclusions() {
    let all = args(None, None);
    assert!(all.wants(Client::RdsCluster));
    assert!(all.wants(Client::S3Bucket));
    let some = args(Some(vec![Client::RdsCluster, Client::Asg]), None);
    assert!(some.wants(Client::RdsCluster));
    assert!(some.wants(Client::Asg));
    assert!(!some.wants(Client::S3Bucket));
    let but = args(None, Some(vec![Client::S3Bucket]));
    assert!(but.wants(Client::RdsCluster));
    assert!(!but.wants(Client::S3Bucket));
    let both = args(Some(vec![Client::S3Bucket]), Some(vec![Client::S3Bucket]));
    assert!(both.wants(Client::S3Bucket));
    assert!(!both.wants(Client::Asg));
    let none = args(Some(vec![]), None);
    assert!(!none.wants(Client::Asg));
    assert!(contains_kind(&vec![Client::Asg, Client::EbsVolume], Client::EbsVolume));
    assert!(!contains_kind(&vec![Client::Asg, Client::EbsVolume], Client::Ec2Vpc));
}

#[test]
fn only_an_unforced_real_run_needs_confirmation() {
    let mut a = args(None, None);
    assert!(!a.needs_confirmation());
    a.dry_run = false;
    assert!(a.needs_confirmation());
    a.force = true;
    assert!(!a.needs_confirmation());
    a.dry_run = true;
    assert!(!a.needs_confirmation());
}
