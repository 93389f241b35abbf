//! Resource enforcement engine: inventory model, policy decisions and
//! dependency-safe ordering of cloud resources.

pub mod client;
pub mod config;
pub mod error;
pub mod graph;
pub mod orchestrator;
pub mod order;
pub mod pattern;
pub mod policy;
pub mod resource;
pub mod scan;
pub mod service;
pub mod style;
pub mod text;
