//! The relation worker's topics and producers.
use vstd::prelude::*;

use crate::bus::Producer;

verus! {

pub const ENTITY_RELATION_TOPIC: &'static str = "non-persistent://public/default/entity-relation";
pub const ENTITY_RELATION_SUBSCRIPTION: &'static str = "Entity-Relation-Sub";
pub const RISK_TOPIC: &'static str = "non-persistent://public/default/risk";
pub const RISK_SUBSCRIPTION: &'static str = "Risk-Sub";
pub const MONITORED_UPDATE_SUBSCRIPTION: &'static str = "monitored-update-sub";

/// Relation messages the relation worker may produce per minute.
pub const RATE_LIMIT_PER_MIN: u32 = 120;

/// Jobs a check may accumulate before the relation producer stops adding to it.
pub const MAX_JOB_PER_CHECK: usize = 2000;

/// The relation worker's own producer: rate limited, and capped per check.
pub fn relation_producer() -> (r: Producer)
    ensures
        r.rate_limit_per_min == Some(RATE_LIMIT_PER_MIN),
        r.max_jobs_per_check == Some(MAX_JOB_PER_CHECK),
        r.outbox@.len() == 0,
{
    Producer::new(ENTITY_RELATION_TOPIC.to_owned(), Some(RATE_LIMIT_PER_MIN), Some(MAX_JOB_PER_CHECK))
}

/// The relation worker's producer of risk jobs: not rate limited, and under the same
/// per-check cap as the relation producer, so that no check holds more than
/// `MAX_JOB_PER_CHECK` jobs from the expansion.
pub fn risk_producer() -> (r: Producer)
    ensures
        r.rate_limit_per_min is None,
        r.max_jobs_per_check == Some(MAX_JOB_PER_CHECK),
        r.outbox@.len() == 0,
{
    Producer::new(RISK_TOPIC.to_owned(), None, Some(MAX_JOB_PER_CHECK))
}

/// The producer that starts checks: the first jobs of a check are never refused.
pub fn check_producer() -> (r: Producer)
    ensures
        r.rate_limit_per_min is None,
        r.max_jobs_per_check is None,
        r.outbox@.len() == 0,
{
    Producer::new(ENTITY_RELATION_TOPIC.to_owned(), None, None)
}

} // verus!
