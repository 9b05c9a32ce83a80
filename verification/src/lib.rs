//! Compiles a resolved package dependency graph into an ordered build plan
//! for a generic incremental build executor.
//!
//! The graph is walked breadth-first from its root package; every reachable
//! package outside the skip set receives exactly one compile rule, and the
//! root's rule is marked as the default target.

pub mod errors;
pub mod graph;
pub mod laws;
pub mod manifest;
pub mod names;
pub mod plan;
pub mod rules;
