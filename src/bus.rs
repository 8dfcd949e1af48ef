//! Producers onto the bus's topics, with an optional cap on the jobs of one check, and the
//! delivery rules that consumers follow.
use vstd::prelude::*;

use crate::jobs::{Job, JobKind};
use crate::store::{count_links, job_added, same_annotations, same_graph, same_monitoring, same_store, Store};

verus! {

/// Deliveries a message gets before it is routed to its dead-letter topic.
pub const MAX_JOB_RETRY: usize = 3;

/// The suffix of a topic's dead-letter topic.
pub const DEAD_LETTER_SUFFIX: &'static str = "-DLQ";

/// What became of an enqueue request.
#[derive(Debug, Clone, Copy, PartialEq, Eq, Structural)]
pub enum Enqueued {
    /// A job row with this id was recorded and its message produced.
    Produced(u128),
    /// The check already has as many jobs as the producer allows: nothing was recorded.
    Capped,
}

/// A producer onto one topic. Messages it produces wait in `outbox`, in order, until they
/// are sent to the broker. The rate limit is enforced by whoever sends.
#[derive(Debug)]
pub struct Producer {
    pub topic: String,
    pub rate_limit_per_min: Option<u32>,
    pub max_jobs_per_check: Option<usize>,
    pub outbox: Vec<Job>,
}

/// Whether a producer with cap `cap` refuses a job for check `check_id` in store `s`.
pub open spec fn capped(s: Store, check_id: Option<u128>, cap: Option<usize>) -> bool {
    check_id is Some && cap is Some && count_links(s.check_job_map@, check_id->0) >= cap->0
}

/// What enqueueing does to the store and the outbox when the job is not refused.
pub open spec fn enqueued_job(
    old_store: Store,
    new_store: Store,
    old_outbox: Seq<Job>,
    new_outbox: Seq<Job>,
    check_id: Option<u128>,
    job_kind: JobKind,
    now: i64,
    id: u128,
) -> bool {
    &&& job_added(old_store, new_store, now, id)
    &&& new_store.check_job_map@ == match check_id {
        Some(c) => old_store.check_job_map@.push((c, id)),
        None => old_store.check_job_map@,
    }
    &&& same_graph(old_store, new_store)
    &&& same_annotations(old_store, new_store)
    &&& same_monitoring(old_store, new_store)
    &&& new_outbox == old_outbox.push(Job { id, job_kind })
}

impl Producer {
    pub fn new(topic: String, rate_limit_per_min: Option<u32>, max_jobs_per_check: Option<usize>) -> (r: Producer)
        ensures
            r.topic == topic,
            r.rate_limit_per_min == rate_limit_per_min,
            r.max_jobs_per_check == max_jobs_per_check,
            r.outbox@.len() == 0,
    {
        Producer { topic, rate_limit_per_min, max_jobs_per_check, outbox: Vec::new() }
    }

    /// Records a job, linked to `check_id` when one is given, and produces its message;
    /// refuses when the check already has as many jobs as the producer's cap.
    pub fn enqueue_job(&mut self, store: &mut Store, check_id: Option<u128>, job_kind: JobKind, now: i64) -> (r: Enqueued)
        requires
            old(store).wf(),
        ensures
            final(store).wf(),
            final(self).topic == old(self).topic,
            final(self).rate_limit_per_min == old(self).rate_limit_per_min,
            final(self).max_jobs_per_check == old(self).max_jobs_per_check,
            capped(*old(store), check_id, old(self).max_jobs_per_check) ==> r == Enqueued::Capped
                && same_store(*old(store), *final(store)) && final(self).outbox@ == old(self).outbox@,
            !capped(*old(store), check_id, old(self).max_jobs_per_check) ==> (r matches Enqueued::Produced(id)
                && enqueued_job(*old(store), *final(store), old(self).outbox@, final(self).outbox@, check_id, job_kind, now, id)),
    {
        let id = match check_id {
            Some(c) => {
                if let Some(max_jobs) = self.max_jobs_per_check {
                    if store.get_num_of_jobs(c) >= max_jobs {
                        return Enqueued::Capped;
                    }
                }
                store.add_job_with_check(c, now)
            },
            None => store.add_job(now),
        };
        self.outbox.push(Job { id, job_kind });
        Enqueued::Produced(id)
    }

    /// Hands over the produced messages, oldest first, leaving the outbox empty.
    pub fn take_outbox(&mut self) -> (r: Vec<Job>)
        ensures
            r@ == old(self).outbox@,
            final(self).outbox@.len() == 0,
            final(self).topic == old(self).topic,
            final(self).rate_limit_per_min == old(self).rate_limit_per_min,
            final(self).max_jobs_per_check == old(self).max_jobs_per_check,
    {
        self.outbox.split_off(0)
    }
}

/// A capped producer keeps a check within its cap: a check at or over the cap gets no new
/// job row from it, and a check under the cap ends at most at the cap.
pub proof fn lemma_cap_holds(
    old_store: Store,
    new_store: Store,
    old_outbox: Seq<Job>,
    new_outbox: Seq<Job>,
    c: u128,
    cap: usize,
    job_kind: JobKind,
    now: i64,
    r: Enqueued,
)
    requires
        capped(old_store, Some(c), Some(cap)) ==> r == Enqueued::Capped && same_store(old_store, new_store),
        !capped(old_store, Some(c), Some(cap)) ==> (r matches Enqueued::Produced(id) && enqueued_job(
            old_store,
            new_store,
            old_outbox,
            new_outbox,
            Some(c),
            job_kind,
            now,
            id,
        )),
    ensures
        count_links(old_store.check_job_map@, c) >= cap ==> new_store.jobs@ == old_store.jobs@
            && new_store.check_job_map@ == old_store.check_job_map@,
        count_links(old_store.check_job_map@, c) <= cap ==> count_links(new_store.check_job_map@, c) <= cap,
{
    if !capped(old_store, Some(c), Some(cap)) {
        let id = r->Produced_0;
        assert(new_store.check_job_map@.drop_last() =~= old_store.check_job_map@);
    }
}

/// The dead-letter topic of `topic`: the topic's name followed by `-DLQ`.
pub fn dead_letter_topic(topic: &str) -> (r: String)
    ensures
        r@ == topic@ + DEAD_LETTER_SUFFIX@,
{
    topic.to_owned().concat(DEAD_LETTER_SUFFIX)
}

/// What a consumer does with a delivered message once its job has run.
#[derive(Debug, Clone, Copy, PartialEq, Eq, Structural)]
pub enum Delivery {
    /// Acknowledge: the broker forgets the message.
    Ack,
    /// Negative acknowledgement: the broker redelivers, up to its dead-letter policy.
    Nack,
}

/// A job that ran without error is acknowledged; one that failed is redelivered.
pub fn delivery_for(job_succeeded: bool) -> (r: Delivery)
    ensures
        r == (if job_succeeded { Delivery::Ack } else { Delivery::Nack }),
{
    if job_succeeded {
        Delivery::Ack
    } else {
        Delivery::Nack
    }
}

/// Where a message goes after a delivery whose job failed in passing.
#[derive(Debug, Clone, Copy, PartialEq, Eq, Structural)]
pub enum Route {
    /// Delivered again on its topic.
    Redeliver,
    /// Moved to the topic's dead-letter topic.
    DeadLetter,
}

/// The dead-letter rule: after its third failed delivery a message is dead-lettered.
pub open spec fn spec_route(deliveries: usize) -> Route {
    if deliveries >= MAX_JOB_RETRY {
        Route::DeadLetter
    } else {
        Route::Redeliver
    }
}

/// Where a message goes after its `deliveries`-th delivery failed in passing.
pub fn route_after_failure(deliveries: usize) -> (r: Route)
    ensures
        r == spec_route(deliveries),
{
    if deliveries >= MAX_JOB_RETRY {
        Route::DeadLetter
    } else {
        Route::Redeliver
    }
}

/// A message is delivered at most three times: if each of its first `n - 1` failed
/// deliveries led to a redelivery, then `n` is at most three.
pub proof fn lemma_delivery_bound(n: usize)
    requires
        forall|d: usize| 1 <= d < n ==> #[trigger] spec_route(d) == Route::Redeliver,
    ensures
        n <= MAX_JOB_RETRY,
{
    if n > MAX_JOB_RETRY {
        assert(spec_route(MAX_JOB_RETRY) == Route::Redeliver);
    }
}

} // verus!
