//! The workers' configuration and decisions: expanding relations, re-framing the registry
//! stream, and settling a job once it ran.
pub mod entity_relation_worker;
pub mod streaming_worker;
pub mod worker;
