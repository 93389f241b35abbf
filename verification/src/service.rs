//! Coarse service families and the filter rules that apply to them.

use vstd::prelude::*;
use crate::error::EngineError;

verus! {

/// The service family a resource belongs to.
#[derive(Debug, Copy, Clone, PartialEq, Eq, Structural)]
pub enum ResourceType {
    EC2,
    RDS,
    Aurora,
}

impl ResourceType {
    pub fn is_ec2(&self) -> (r: bool)
        ensures
            r == (*self == ResourceType::EC2),
    {
        match *self {
            ResourceType::EC2 => true,
            _ => false,
        }
    }

    pub fn is_rds(&self) -> (r: bool)
        ensures
            r == (*self == ResourceType::RDS),
    {
        match *self {
            ResourceType::RDS => true,
            _ => false,
        }
    }

    pub fn is_aurora(&self) -> (r: bool)
        ensures
            r == (*self == ResourceType::Aurora),
    {
        match *self {
            ResourceType::Aurora => true,
            _ => false,
        }
    }
}

/// The generic compliance rules.
#[derive(Debug, Copy, Clone, PartialEq, Eq, Structural)]
pub enum FilterRule {
    /// Checks that the required tags are present on a resource.
    RequiredTags,
    /// Checks whether the resource is idle (no usage).
    Idle,
    /// Checks that the resource uses an allowed type.
    AllowedTypes,
}

/// A tag as a service reports it.
#[derive(Debug)]
pub struct NTag {
    pub key: Option<String>,
    pub value: Option<String>,
}

/// A resource as a service reports it, before its state is interpreted.
#[derive(Debug)]
pub struct Resource {
    pub id: String,
    pub resource_type: ResourceType,
    pub profile_name: String,
    pub tags: Option<Vec<NTag>>,
    pub state: Option<String>,
}

/// A service whose resources can be found and cleaned up.
pub trait NukeService {
    /// Get all the resources without applying any filters.
    fn scan(&self, profile_name: &String) -> Result<Vec<Resource>, EngineError>;

    /// Clean up the resources.
    fn cleanup(&self, resources: Vec<&Resource>) -> Result<(), EngineError>;
}

/// Finds the resources that lack a required tag.
pub trait RequiredTagsFilter {
    fn filter(&self) -> Result<Vec<Resource>, EngineError>;
}

/// Finds the resources of a type that is not allowed.
pub trait AllowedTypesFilter {
    fn filter(&self) -> Result<Vec<Resource>, EngineError>;
}

/// Finds the resources that are idle.
pub trait IdleFilter {
    fn filter(&self) -> Result<Vec<Resource>, EngineError>;
}

} // verus!
