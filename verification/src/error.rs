//! Errors of the engine.

use vstd::prelude::*;

verus! {

/// What can go wrong while the resources of a run are put in order.
#[derive(Debug)]
pub enum EngineError {
    /// The dependency graph has a cycle; the text names a resource on it.
    Dag(String),
    /// The graph cannot hold more nodes or edges.
    GraphFull,
    /// An adapter could not scan or change a resource; the text says why.
    Adapter(String),
}

} // verus!
