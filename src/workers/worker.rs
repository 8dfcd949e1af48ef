//! Settling a job after it ran: its row, and what the consumer tells the broker.
use vstd::prelude::*;

use crate::bus::Delivery;
use crate::store::{completed, errored, same_annotations, same_graph, same_monitoring, Store, StoreError};

verus! {

/// How running a job ended.
#[derive(Debug, Clone, Copy, PartialEq, Eq, Structural)]
pub enum JobOutcome {
    /// The job did its work.
    Succeeded,
    /// The job cannot succeed on this message (it does not decode, or breaks an integrity
    /// rule): it is settled with an error and not redelivered.
    Rejected,
    /// An outside service failed in passing: the job stays open with an error, and the
    /// message is redelivered until the dead-letter policy takes it.
    Transient,
}

/// The job row after settling it with `outcome` at `now`.
pub open spec fn settled(j: crate::store::Job, outcome: JobOutcome, now: i64) -> crate::store::Job {
    match outcome {
        JobOutcome::Succeeded => completed(j, now),
        JobOutcome::Rejected => errored(completed(j, now)),
        JobOutcome::Transient => errored(j),
    }
}

/// Settles job `job_id` after it ran: a job that succeeded is completed and acknowledged; a
/// rejected one is completed with an error and acknowledged; a transient failure records the
/// error, leaves the job incomplete, and asks for redelivery.
pub fn finish_job(store: &mut Store, job_id: u128, outcome: JobOutcome, now: i64) -> (r: Result<Delivery, StoreError>)
    requires
        old(store).wf(),
    ensures
        final(store).wf(),
        r is Err <==> job_id >= old(store).jobs@.len(),
        r is Err ==> r == Err::<Delivery, StoreError>(StoreError::NotFound) && final(store).jobs@ == old(store).jobs@,
        r is Ok ==> final(store).jobs@ == old(store).jobs@.update(
            job_id as int,
            settled(old(store).jobs@[job_id as int], outcome, now),
        ),
        r matches Ok(d) ==> d == (if outcome == JobOutcome::Transient { Delivery::Nack } else { Delivery::Ack }),
        final(store).check_job_map@ == old(store).check_job_map@,
        same_graph(*old(store), *final(store)),
        same_annotations(*old(store), *final(store)),
        same_monitoring(*old(store), *final(store)),
{
    match outcome {
        JobOutcome::Succeeded => {
            store.complete_job(job_id, now)?;
            Ok(Delivery::Ack)
        },
        JobOutcome::Rejected => {
            store.complete_job(job_id, now)?;
            let _ = store.update_job_with_error(job_id);
            Ok(Delivery::Ack)
        },
        JobOutcome::Transient => {
            store.update_job_with_error(job_id)?;
            Ok(Delivery::Nack)
        },
    }
}

} // verus!
