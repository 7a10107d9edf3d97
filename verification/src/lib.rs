//! Measures reachability latency of a catalog of candidate name-resolution
//! servers, ranks the outcomes with a deterministic stable rule, and plans the
//! configuration change that makes the fastest reachable server the active
//! resolver for a network interface.
//!
//! The library holds the logic of the probe -> rank -> apply pipeline: the
//! latency averaging rule, the ranking order, the parser for the resolver
//! configuration report, and the pipeline state machine. The operating-system
//! commands that probe a host and mutate the resolver configuration live
//! outside the library and hand it plain values.

pub mod catalog;
pub mod config;
pub mod model;
pub mod pipeline;
pub mod rank;
pub mod reader;
pub mod report;
