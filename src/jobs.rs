//! The job envelope carried on the bus, and the jobs' kinds.
pub mod relation_jobs;
pub mod risk_jobs;
pub mod streaming_update_jobs;

use vstd::prelude::*;

use crate::jobs::relation_jobs::RelationJob;
use crate::jobs::risk_jobs::RiskJob;
use crate::jobs::streaming_update_jobs::StreamingUpdateJob;

verus! {

/// The work a job asks for.
#[derive(Debug, Clone)]
pub enum JobKind {
    RelationJob(RelationJob),
    RiskJob(RiskJob),
    StreamingUpdateJob(StreamingUpdateJob),
}

/// A job as it travels on the bus: its id matches the job row in the store.
#[derive(Debug, Clone)]
pub struct Job {
    pub id: u128,
    pub job_kind: JobKind,
}

} // verus!
