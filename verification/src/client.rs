//! The kinds of resource that adapters produce.

use vstd::prelude::*;
use crate::resource::ResourceState;
use crate::text::str_eq;

verus! {

/// Tells which adapter produced a resource. `DefaultClient` marks the
/// placeholder resource that stands for no cloud object at all.
#[derive(Debug, Copy, Clone, PartialEq, Eq, Hash, Structural)]
pub enum Client {
    Asg,
    Ec2Instance,
    Ec2Sg,
    Ec2Eni,
    Ec2Address,
    EbsVolume,
    EbsSnapshot,
    Ec2Vpc,
    Ec2Igw,
    Ec2Subnet,
    Ec2RouteTable,
    Ec2NetworkACL,
    Ec2NatGW,
    Ec2VpnGW,
    Ec2VpcEndpoint,
    Ec2PeeringConnection,
    RdsInstance,
    RdsCluster,
    EcsCluster,
    EksCluster,
    ElbAlb,
    ElbNlb,
    EmrCluster,
    EsDomain,
    GlueEndpoint,
    RsCluster,
    SagemakerNotebook,
    S3Bucket,
    DefaultClient,
}

/// Alias under which the placeholder variant is also known.
pub type ClientType = Client;

impl Client {
    /// Whether this is the placeholder kind.
    pub open spec fn spec_is_default(&self) -> bool {
        *self == Client::DefaultClient
    }

    #[verifier::when_used_as_spec(spec_is_default)]
    pub fn is_default(&self) -> (r: bool)
        ensures
            r == self.spec_is_default(),
    {
        match *self {
            Client::DefaultClient => true,
            _ => false,
        }
    }

    /// The state in which a resource of the kind is up, so that the rules
    /// apply to it. Databases, warehouses, volumes, network interfaces and
    /// the parts of a private network are up when `Available`; every other
    /// kind is up when `Running`. The placeholder kind is never up.
    pub open spec fn spec_up_state(&self) -> Option<ResourceState> {
        match *self {
            Client::RdsInstance | Client::RdsCluster | Client::RsCluster | Client::EbsVolume
            | Client::Ec2Eni | Client::Ec2Vpc | Client::Ec2Igw | Client::Ec2Subnet
            | Client::Ec2NatGW | Client::Ec2VpnGW | Client::Ec2VpcEndpoint => {
                Some(ResourceState::Available)
            },
            Client::Asg | Client::Ec2Instance | Client::Ec2Sg | Client::Ec2Address
            | Client::EbsSnapshot | Client::Ec2RouteTable | Client::Ec2NetworkACL
            | Client::Ec2PeeringConnection | Client::EcsCluster | Client::EksCluster
            | Client::ElbAlb | Client::ElbNlb | Client::EmrCluster | Client::EsDomain
            | Client::GlueEndpoint | Client::SagemakerNotebook | Client::S3Bucket => {
                Some(ResourceState::Running)
            },
            Client::DefaultClient => None,
        }
    }

    #[verifier::when_used_as_spec(spec_up_state)]
    pub fn up_state(&self) -> (r: Option<ResourceState>)
        ensures
            r == self.spec_up_state(),
    {
        match *self {
            Client::RdsInstance | Client::RdsCluster | Client::RsCluster | Client::EbsVolume
            | Client::Ec2Eni | Client::Ec2Vpc | Client::Ec2Igw | Client::Ec2Subnet
            | Client::Ec2NatGW | Client::Ec2VpnGW | Client::Ec2VpcEndpoint => {
                Some(ResourceState::Available)
            },
            Client::Asg | Client::Ec2Instance | Client::Ec2Sg | Client::Ec2Address
            | Client::EbsSnapshot | Client::Ec2RouteTable | Client::Ec2NetworkACL
            | Client::Ec2PeeringConnection | Client::EcsCluster | Client::EksCluster
            | Client::ElbAlb | Client::ElbNlb | Client::EmrCluster | Client::EsDomain
            | Client::GlueEndpoint | Client::SagemakerNotebook | Client::S3Bucket => {
                Some(ResourceState::Running)
            },
            Client::DefaultClient => None,
        }
    }

    /// The name of the kind: the key of its section in the configuration.
    pub open spec fn spec_name(&self) -> Seq<char> {
        match *self {
            Client::Asg => "asg"@,
            Client::Ec2Instance => "ec2_instance"@,
            Client::Ec2Sg => "ec2_sg"@,
            Client::Ec2Eni => "ec2_eni"@,
            Client::Ec2Address => "ec2_address"@,
            Client::EbsVolume => "ebs_volume"@,
            Client::EbsSnapshot => "ebs_snapshot"@,
            Client::Ec2Vpc => "ec2_vpc"@,
            Client::Ec2Igw => "ec2_igw"@,
            Client::Ec2Subnet => "ec2_subnet"@,
            Client::Ec2RouteTable => "ec2_rt"@,
            Client::Ec2NetworkACL => "ec2_network_acl"@,
            Client::Ec2NatGW => "ec2_nat_gw"@,
            Client::Ec2VpnGW => "ec2_vpn_gw"@,
            Client::Ec2VpcEndpoint => "ec2_vpc_endpoint"@,
            Client::Ec2PeeringConnection => "ec2_peering_connection"@,
            Client::RdsInstance => "rds_instance"@,
            Client::RdsCluster => "rds_cluster"@,
            Client::EcsCluster => "ecs_cluster"@,
            Client::EksCluster => "eks_cluster"@,
            Client::ElbAlb => "elb_alb"@,
            Client::ElbNlb => "elb_nlb"@,
            Client::EmrCluster => "emr_cluster"@,
            Client::EsDomain => "es_domain"@,
            Client::GlueEndpoint => "glue_endpoint"@,
            Client::RsCluster => "rs_cluster"@,
            Client::SagemakerNotebook => "sagemaker_notebook"@,
            Client::S3Bucket => "s3_bucket"@,
            Client::DefaultClient => "default"@,
        }
    }

    pub fn name(&self) -> (r: &'static str)
        ensures
            r@ == self.spec_name(),
    {
        match *self {
            Client::Asg => "asg",
            Client::Ec2Instance => "ec2_instance",
            Client::Ec2Sg => "ec2_sg",
            Client::Ec2Eni => "ec2_eni",
            Client::Ec2Address => "ec2_address",
            Client::EbsVolume => "ebs_volume",
            Client::EbsSnapshot => "ebs_snapshot",
            Client::Ec2Vpc => "ec2_vpc",
            Client::Ec2Igw => "ec2_igw",
            Client::Ec2Subnet => "ec2_subnet",
            Client::Ec2RouteTable => "ec2_rt",
            Client::Ec2NetworkACL => "ec2_network_acl",
            Client::Ec2NatGW => "ec2_nat_gw",
            Client::Ec2VpnGW => "ec2_vpn_gw",
            Client::Ec2VpcEndpoint => "ec2_vpc_endpoint",
            Client::Ec2PeeringConnection => "ec2_peering_connection",
            Client::RdsInstance => "rds_instance",
            Client::RdsCluster => "rds_cluster",
            Client::EcsCluster => "ecs_cluster",
            Client::EksCluster => "eks_cluster",
            Client::ElbAlb => "elb_alb",
            Client::ElbNlb => "elb_nlb",
            Client::EmrCluster => "emr_cluster",
            Client::EsDomain => "es_domain",
            Client::GlueEndpoint => "glue_endpoint",
            Client::RsCluster => "rs_cluster",
            Client::SagemakerNotebook => "sagemaker_notebook",
            Client::S3Bucket => "s3_bucket",
            Client::DefaultClient => "default",
        }
    }

    /// The kind of that name, if a kind other than the placeholder has it.
    pub fn from_name(name: &str) -> (r: Option<Client>)
        ensures
            match r {
                Some(c) => !c.is_default() && c.spec_name() == name@,
                None => forall|c: Client| !c.is_default() ==> c.spec_name() != name@,
            },
    {
        if str_eq(name, "asg") {
            Some(Client::Asg)
        } else if str_eq(name, "ec2_instance") {
            Some(Client::Ec2Instance)
        } else if str_eq(name, "ec2_sg") {
            Some(Client::Ec2Sg)
        } else if str_eq(name, "ec2_eni") {
            Some(Client::Ec2Eni)
        } else if str_eq(name, "ec2_address") {
            Some(Client::Ec2Address)
        } else if str_eq(name, "ebs_volume") {
            Some(Client::EbsVolume)
        } else if str_eq(name, "ebs_snapshot") {
            Some(Client::EbsSnapshot)
        } else if str_eq(name, "ec2_vpc") {
            Some(Client::Ec2Vpc)
        } else if str_eq(name, "ec2_igw") {
            Some(Client::Ec2Igw)
        } else if str_eq(name, "ec2_subnet") {
            Some(Client::Ec2Subnet)
        } else if str_eq(name, "ec2_rt") {
            Some(Client::Ec2RouteTable)
        } else if str_eq(name, "ec2_network_acl") {
            Some(Client::Ec2NetworkACL)
        } else if str_eq(name, "ec2_nat_gw") {
            Some(Client::Ec2NatGW)
        } else if str_eq(name, "ec2_vpn_gw") {
            Some(Client::Ec2VpnGW)
        } else if str_eq(name, "ec2_vpc_endpoint") {
            Some(Client::Ec2VpcEndpoint)
        } else if str_eq(name, "ec2_peering_connection") {
            Some(Client::Ec2PeeringConnection)
        } else if str_eq(name, "rds_instance") {
            Some(Client::RdsInstance)
        } else if str_eq(name, "rds_cluster") {
            Some(Client::RdsCluster)
        } else if str_eq(name, "ecs_cluster") {
            Some(Client::EcsCluster)
        } else if str_eq(name, "eks_cluster") {
            Some(Client::EksCluster)
        } else if str_eq(name, "elb_alb") {
            Some(Client::ElbAlb)
        } else if str_eq(name, "elb_nlb") {
            Some(Client::ElbNlb)
        } else if str_eq(name, "emr_cluster") {
            Some(Client::EmrCluster)
        } else if str_eq(name, "es_domain") {
            Some(Client::EsDomain)
        } else if str_eq(name, "glue_endpoint") {
            Some(Client::GlueEndpoint)
        } else if str_eq(name, "rs_cluster") {
            Some(Client::RsCluster)
        } else if str_eq(name, "sagemaker_notebook") {
            Some(Client::SagemakerNotebook)
        } else if str_eq(name, "s3_bucket") {
            Some(Client::S3Bucket)
        } else {
            None
        }
    }

    /// Every kind but the placeholder, in the order of their declaration.
    pub open spec fn kinds() -> Seq<Client> {
        seq![
            Client::Asg,
            Client::Ec2Instance,
            Client::Ec2Sg,
            Client::Ec2Eni,
            Client::Ec2Address,
            Client::EbsVolume,
            Client::EbsSnapshot,
            Client::Ec2Vpc,
            Client::Ec2Igw,
            Client::Ec2Subnet,
            Client::Ec2RouteTable,
            Client::Ec2NetworkACL,
            Client::Ec2NatGW,
            Client::Ec2VpnGW,
            Client::Ec2VpcEndpoint,
            Client::Ec2PeeringConnection,
            Client::RdsInstance,
            Client::RdsCluster,
            Client::EcsCluster,
            Client::EksCluster,
            Client::ElbAlb,
            Client::ElbNlb,
            Client::EmrCluster,
            Client::EsDomain,
            Client::GlueEndpoint,
            Client::RsCluster,
            Client::SagemakerNotebook,
            Client::S3Bucket,
        ]
    }

    /// Every kind but the placeholder.
    pub fn all() -> (all: Vec<Client>)
        ensures
            all@ == Self::kinds(),
            forall|c: Client| !c.is_default() <==> all@.contains(c),
    {
        let mut all: Vec<Client> = Vec::new();
        all.push(Client::Asg);
        all.push(Client::Ec2Instance);
        all.push(Client::Ec2Sg);
        all.push(Client::Ec2Eni);
        all.push(Client::Ec2Address);
        all.push(Client::EbsVolume);
        all.push(Client::EbsSnapshot);
        all.push(Client::Ec2Vpc);
        all.push(Client::Ec2Igw);
        all.push(Client::Ec2Subnet);
        all.push(Client::Ec2RouteTable);
        all.push(Client::Ec2NetworkACL);
        all.push(Client::Ec2NatGW);
        all.push(Client::Ec2VpnGW);
        all.push(Client::Ec2VpcEndpoint);
        all.push(Client::Ec2PeeringConnection);
        all.push(Client::RdsInstance);
        all.push(Client::RdsCluster);
        all.push(Client::EcsCluster);
        all.push(Client::EksCluster);
        all.push(Client::ElbAlb);
        all.push(Client::ElbNlb);
        all.push(Client::EmrCluster);
        all.push(Client::EsDomain);
        all.push(Client::GlueEndpoint);
        all.push(Client::RsCluster);
        all.push(Client::SagemakerNotebook);
        all.push(Client::S3Bucket);
        proof {
            assert(all@ =~= Self::kinds());
            assert forall|c: Client| !c.is_default() implies all@.contains(c) by {
                let k = match c {
                    Client::Asg => 0int,
                    Client::Ec2Instance => 1int,
                    Client::Ec2Sg => 2int,
                    Client::Ec2Eni => 3int,
                    Client::Ec2Address => 4int,
                    Client::EbsVolume => 5int,
                    Client::EbsSnapshot => 6int,
                    Client::Ec2Vpc => 7int,
                    Client::Ec2Igw => 8int,
                    Client::Ec2Subnet => 9int,
                    Client::Ec2RouteTable => 10int,
                    Client::Ec2NetworkACL => 11int,
                    Client::Ec2NatGW => 12int,
                    Client::Ec2VpnGW => 13int,
                    Client::Ec2VpcEndpoint => 14int,
                    Client::Ec2PeeringConnection => 15int,
                    Client::RdsInstance => 16int,
                    Client::RdsCluster => 17int,
                    Client::EcsCluster => 18int,
                    Client::EksCluster => 19int,
                    Client::ElbAlb => 20int,
                    Client::ElbNlb => 21int,
                    Client::EmrCluster => 22int,
                    Client::EsDomain => 23int,
                    Client::GlueEndpoint => 24int,
                    Client::RsCluster => 25int,
                    Client::SagemakerNotebook => 26int,
                    Client::S3Bucket => 27int,
                    Client::DefaultClient => 0int,
                };
                assert(all@[k] == c);
            }
        }
        all
    }
}

} // verus!
