//! The relational store: checks, entities, relationships, jobs, annotations, monitoring and
//! stream offsets, held in memory. Each table is a `Vec` whose row ids are the row positions.
use vstd::prelude::*;

use crate::dates::Date;
use crate::flags::Flagkind;
use crate::models::{Checkkind, Entity, Relationship, Relationshipkind, Updatekind};
use crate::text::{clone_opt_string, str_eq};

verus! {

/// Why a store operation refused.
#[derive(Debug, Clone, Copy, PartialEq, Eq, Structural)]
pub enum StoreError {
    /// The row would break a uniqueness rule (a second relationship for one pair).
    Duplicate,
    /// No row has the id or key asked for.
    NotFound,
}

/// An investigation started at `started_at`.
#[derive(Debug, Clone, Copy, PartialEq, Eq, Structural)]
pub struct Check {
    pub id: u128,
    pub started_at: i64,
    pub kind: Checkkind,
}

/// A unit of deferred work. Times are in the caller's clock units.
#[derive(Debug, Clone, Copy, PartialEq, Eq, Structural)]
pub struct Job {
    pub id: u128,
    pub enqueued_at: i64,
    pub completed_at: Option<i64>,
    pub has_error: bool,
}

/// The time during which a registry number is monitored; open while `ended_at` is none.
#[derive(Debug, Clone, Copy, PartialEq, Eq, Structural)]
pub struct MonitoringSpan {
    pub id: u128,
    pub started_at: i64,
    pub ended_at: Option<i64>,
}

/// A registry number whose stream updates are snapshotted while its span is open.
#[derive(Debug, Clone)]
pub struct MonitoredEntity {
    pub id: u128,
    pub company_house_id: String,
    pub monitoring_span_id: u128,
}

/// The state of an entity as a stream update reported it, as entity row `entity_id`.
#[derive(Debug, Clone, Copy, PartialEq, Eq, Structural)]
pub struct Snapshot {
    pub id: u128,
    pub recieved_at: i64,
    pub entity_id: u128,
}

/// A stream update that was applied: where a stream resumes from.
#[derive(Debug, Clone, Copy, PartialEq, Eq, Structural)]
pub struct ProcessedUpdate {
    pub id: u128,
    pub processed_at: i64,
    pub timepoint: i32,
    pub kind: Updatekind,
}

/// The store. Link tables hold `(check_id, row_id)` pairs, annotation tables
/// `(entity_id, value)` pairs.
#[derive(Debug)]
pub struct Store {
    pub checks: Vec<Check>,
    pub entities: Vec<Entity>,
    pub check_entity_map: Vec<(u128, u128)>,
    pub relationships: Vec<Relationship>,
    pub jobs: Vec<Job>,
    pub check_job_map: Vec<(u128, u128)>,
    pub flags: Vec<(u128, Flagkind)>,
    pub datasets: Vec<(u128, String)>,
    pub positions: Vec<(u128, String)>,
    pub outlier_ages: Vec<(u128, bool)>,
    pub dormant_companies: Vec<(u128, bool)>,
    pub monitoring_spans: Vec<MonitoringSpan>,
    pub monitored_entities: Vec<MonitoredEntity>,
    pub check_monitored_entity: Vec<(u128, u128)>,
    pub snapshots: Vec<Snapshot>,
    pub check_snapshot: Vec<(u128, u128)>,
    pub processed_updates: Vec<ProcessedUpdate>,
}

/// The registry number of the entity with row id `id`.
pub open spec fn number_of(entities: Seq<Entity>, id: u128) -> Seq<char> {
    entities[id as int].company_house_number@
}

impl Store {
    /// Row ids are positions, and link rows point at existing rows.
    pub open spec fn ids_wf(self) -> bool {
        &&& forall|i: int| 0 <= i < self.checks@.len() ==> #[trigger] self.checks@[i].id == i
        &&& forall|i: int| 0 <= i < self.entities@.len() ==> #[trigger] self.entities@[i].id == i
        &&& forall|i: int| 0 <= i < self.jobs@.len() ==> #[trigger] self.jobs@[i].id == i
        &&& forall|i: int|
            0 <= i < self.monitoring_spans@.len() ==> #[trigger] self.monitoring_spans@[i].id == i
        &&& forall|i: int|
            0 <= i < self.monitored_entities@.len() ==> {
                &&& (#[trigger] self.monitored_entities@[i]).id == i
                &&& self.monitored_entities@[i].monitoring_span_id < self.monitoring_spans@.len()
            }
        &&& forall|i: int|
            0 <= i < self.check_entity_map@.len() ==> #[trigger] self.check_entity_map@[i].1
                < self.entities@.len()
        &&& forall|i: int|
            0 <= i < self.check_entity_map@.len() ==> #[trigger] self.check_entity_map@[i].0
                < self.checks@.len()
        &&& forall|i: int|
            0 <= i < self.check_job_map@.len() ==> #[trigger] self.check_job_map@[i].1
                < self.jobs@.len()
        &&& forall|i: int|
            0 <= i < self.check_monitored_entity@.len() ==> #[trigger] self.check_monitored_entity@[i].1
                < self.monitored_entities@.len()
    }

    /// Within a check, no two entities share a registry number.
    pub open spec fn unique_per_check(self) -> bool {
        forall|i: int, j: int|
            0 <= i < self.check_entity_map@.len() && 0 <= j < self.check_entity_map@.len()
                && #[trigger] self.check_entity_map@[i].0 == #[trigger] self.check_entity_map@[j].0
                && number_of(self.entities@, self.check_entity_map@[i].1) == number_of(
                self.entities@,
                self.check_entity_map@[j].1,
            ) ==> i == j
    }

    /// Every link of a check to an entity names a row of its own.
    pub open spec fn links_distinct(self) -> bool {
        forall|i: int, j: int|
            0 <= i < self.check_entity_map@.len() && 0 <= j < self.check_entity_map@.len() && i != j
                ==> #[trigger] self.check_entity_map@[i].1 != #[trigger] self.check_entity_map@[j].1
    }

    pub open spec fn wf(self) -> bool {
        self.ids_wf() && self.unique_per_check() && self.links_distinct()
    }

    /// The row id of the entity that check `c` holds under registry number `r`, if any.
    pub open spec fn entity_in_check(self, c: u128, r: Seq<char>) -> Option<u128> {
        if exists|i: int|
            0 <= i < self.check_entity_map@.len() && #[trigger] self.check_entity_map@[i].0 == c
                && number_of(self.entities@, self.check_entity_map@[i].1) == r {
            let i = choose|i: int|
                0 <= i < self.check_entity_map@.len() && #[trigger] self.check_entity_map@[i].0
                    == c && number_of(self.entities@, self.check_entity_map@[i].1) == r;
            Some(self.check_entity_map@[i].1)
        } else {
            None
        }
    }

    /// An empty store.
    pub fn new() -> (r: Store)
        ensures
            r.wf(),
            r.entities@.len() == 0,
            r.jobs@.len() == 0,
            r.checks@.len() == 0,
            r.relationships@.len() == 0,
            r.check_entity_map@.len() == 0,
            r.check_job_map@.len() == 0,
            r.flags@.len() == 0,
            r.datasets@.len() == 0,
            r.positions@.len() == 0,
            r.outlier_ages@.len() == 0,
            r.dormant_companies@.len() == 0,
            r.monitoring_spans@.len() == 0,
            r.monitored_entities@.len() == 0,
            r.check_monitored_entity@.len() == 0,
            r.snapshots@.len() == 0,
            r.check_snapshot@.len() == 0,
            r.processed_updates@.len() == 0,
    {
        Store {
            checks: Vec::new(),
            entities: Vec::new(),
            check_entity_map: Vec::new(),
            relationships: Vec::new(),
            jobs: Vec::new(),
            check_job_map: Vec::new(),
            flags: Vec::new(),
            datasets: Vec::new(),
            positions: Vec::new(),
            outlier_ages: Vec::new(),
            dormant_companies: Vec::new(),
            monitoring_spans: Vec::new(),
            monitored_entities: Vec::new(),
            check_monitored_entity: Vec::new(),
            snapshots: Vec::new(),
            check_snapshot: Vec::new(),
            processed_updates: Vec::new(),
        }
    }
}

/// A copy of `e` under row id `id`.
pub fn entity_with_id(e: &Entity, id: u128) -> (r: Entity)
    ensures
        r == (Entity { id, ..*e }),
{
    Entity {
        id,
        company_house_number: e.company_house_number.clone(),
        name: clone_opt_string(&e.name),
        kind: e.kind,
        country: clone_opt_string(&e.country),
        postal_code: clone_opt_string(&e.postal_code),
        date_of_origin: clone_opt_string(&e.date_of_origin),
        is_root: e.is_root,
        officer_id: clone_opt_string(&e.officer_id),
    }
}

/// The check, entity, link and relationship tables agree.
pub open spec fn same_graph(a: Store, b: Store) -> bool {
    &&& a.checks@ == b.checks@
    &&& a.entities@ == b.entities@
    &&& a.check_entity_map@ == b.check_entity_map@
    &&& a.relationships@ == b.relationships@
}

/// The job tables agree.
pub open spec fn same_jobs(a: Store, b: Store) -> bool {
    a.jobs@ == b.jobs@ && a.check_job_map@ == b.check_job_map@
}

/// The risk annotation tables agree.
pub open spec fn same_annotations(a: Store, b: Store) -> bool {
    &&& a.flags@ == b.flags@
    &&& a.datasets@ == b.datasets@
    &&& a.positions@ == b.positions@
    &&& a.outlier_ages@ == b.outlier_ages@
    &&& a.dormant_companies@ == b.dormant_companies@
}

/// The monitoring, snapshot and stream-offset tables agree.
pub open spec fn same_monitoring(a: Store, b: Store) -> bool {
    &&& a.monitoring_spans@ == b.monitoring_spans@
    &&& a.monitored_entities@ == b.monitored_entities@
    &&& a.check_monitored_entity@ == b.check_monitored_entity@
    &&& a.snapshots@ == b.snapshots@
    &&& a.check_snapshot@ == b.check_snapshot@
    &&& a.processed_updates@ == b.processed_updates@
}

/// All tables agree.
pub open spec fn same_store(a: Store, b: Store) -> bool {
    same_graph(a, b) && same_jobs(a, b) && same_annotations(a, b) && same_monitoring(a, b)
}

/// What inserting `e` into check `c` does when the check has no entity under its number: one
/// entity row under the next id, and its link.
pub open spec fn entity_added(old: Store, new: Store, e: Entity, c: u128, id: u128) -> bool {
    &&& id == old.entities@.len()
    &&& new.entities@ == old.entities@.push(Entity { id, ..e })
    &&& new.check_entity_map@ == old.check_entity_map@.push((c, id))
    &&& new.checks@ == old.checks@
    &&& new.relationships@ == old.relationships@
    &&& same_jobs(old, new)
    &&& same_annotations(old, new)
    &&& same_monitoring(old, new)
}

impl Store {
    /// The entity that check `check_id` holds under `company_house_number`, if any.
    pub fn get_existing_entity_id(&self, check_id: u128, company_house_number: &String) -> (r:
        Option<u128>)
        requires
            self.wf(),
        ensures
            r == self.entity_in_check(check_id, company_house_number@),
    {
        let mut i: usize = 0;
        while i < self.check_entity_map.len()
            invariant
                self.wf(),
                i <= self.check_entity_map@.len(),
                forall|k: int|
                    0 <= k < i ==> !(#[trigger] self.check_entity_map@[k].0 == check_id && number_of(
                        self.entities@,
                        self.check_entity_map@[k].1,
                    ) == company_house_number@),
            decreases self.check_entity_map@.len() - i,
        {
            let (c, e) = self.check_entity_map[i];
            let n = self.entities.len();
            assert(self.check_entity_map@[i as int].1 < n);
            if c == check_id && str_eq(
                self.entities[e as usize].company_house_number.as_str(),
                company_house_number.as_str(),
            ) {
                assert(self.check_entity_map@[i as int].0 == check_id);
                assert(number_of(self.entities@, e) == company_house_number@);
                return Some(e);
            }
            i = i + 1;
        }
        None
    }

    /// Inserts `entity` into check `check_id` unless the check already holds an entity under
    /// its registry number; returns the id of the entity the check holds under that number.
    /// The entity's own `id` is replaced by the next free row id.
    pub fn insert_entity(&mut self, entity: &Entity, check_id: u128) -> (r: u128)
        requires
            old(self).wf(),
            check_id < old(self).checks@.len(),
        ensures
            final(self).wf(),
            match old(self).entity_in_check(check_id, entity.company_house_number@) {
                Some(id) => r == id && same_store(*old(self), *final(self)),
                None => entity_added(*old(self), *final(self), *entity, check_id, r),
            },
            final(self).entity_in_check(check_id, entity.company_house_number@) == Some(r),
    {
        match self.get_existing_entity_id(check_id, &entity.company_house_number) {
            Some(id) => id,
            None => {
                let ghost old_store = *self;
                let id = self.entities.len() as u128;
                self.entities.push(entity_with_id(entity, id));
                self.check_entity_map.push((check_id, id));
                proof {
                    assert forall|k: int| 0 <= k < old_store.entities@.len() implies #[trigger] self.entities@[k]
                        == old_store.entities@[k] by {}
                    let n = old_store.check_entity_map@.len() as int;
                    assert(self.check_entity_map@[n] == (check_id, id));
                    assert(number_of(self.entities@, id) == entity.company_house_number@);
                    assert forall|i: int, j: int|
                        0 <= i < self.check_entity_map@.len() && 0 <= j
                            < self.check_entity_map@.len() && #[trigger] self.check_entity_map@[i].0
                            == #[trigger] self.check_entity_map@[j].0 && number_of(
                            self.entities@,
                            self.check_entity_map@[i].1,
                        ) == number_of(self.entities@, self.check_entity_map@[j].1) implies i
                        == j by {
                        if i < n && j < n {
                            assert(old_store.check_entity_map@[i] == self.check_entity_map@[i]);
                            assert(old_store.check_entity_map@[j] == self.check_entity_map@[j]);
                        } else if i < n {
                            assert(old_store.check_entity_map@[i] == self.check_entity_map@[i]);
                        } else if j < n {
                            assert(old_store.check_entity_map@[j] == self.check_entity_map@[j]);
                        }
                    }
                    assert(self.check_entity_map@[n].0 == check_id);
                    assert(self.unique_per_check());
                    assert forall|i: int| 0 <= i < self.entities@.len() implies #[trigger] self.entities@[i].id == i by {
                        if i < old_store.entities@.len() {
                            assert(old_store.entities@[i] == self.entities@[i]);
                        }
                    }
                    assert forall|i: int| 0 <= i < self.check_entity_map@.len() implies #[trigger] self.check_entity_map@[i].1
                        < self.entities@.len() by {
                        if i < n {
                            assert(old_store.check_entity_map@[i] == self.check_entity_map@[i]);
                        }
                    }
                    assert forall|i: int| 0 <= i < self.check_entity_map@.len() implies #[trigger] self.check_entity_map@[i].0
                        < self.checks@.len() by {
                        if i < n {
                            assert(old_store.check_entity_map@[i] == self.check_entity_map@[i]);
                        }
                    }
                    assert(self.checks@ == old_store.checks@);
                    assert(self.jobs@ == old_store.jobs@);
                    assert(self.monitored_entities@ == old_store.monitored_entities@);
                    assert(self.monitoring_spans@ == old_store.monitoring_spans@);
                    assert(self.check_job_map@ == old_store.check_job_map@);
                    assert(self.check_monitored_entity@ == old_store.check_monitored_entity@);
                    assert(self.ids_wf());
                }
                id
            },
        }
    }
}

/// The completion times of the jobs linked to check `c`, in link order.
pub open spec fn job_times(links: Seq<(u128, u128)>, jobs: Seq<Job>, c: u128) -> Seq<Option<i64>>
    decreases links.len(),
{
    if links.len() == 0 {
        Seq::empty()
    } else {
        let rest = job_times(links.drop_last(), jobs, c);
        if links.last().0 == c {
            rest.push(jobs[links.last().1 as int].completed_at)
        } else {
            rest
        }
    }
}

/// How many links name check `c`.
pub open spec fn count_links(links: Seq<(u128, u128)>, c: u128) -> nat
    decreases links.len(),
{
    if links.len() == 0 {
        0
    } else {
        count_links(links.drop_last(), c) + if links.last().0 == c {
            1nat
        } else {
            0nat
        }
    }
}

/// When a set of jobs completed: none while any is incomplete, none for no jobs, else the
/// latest completion time.
pub open spec fn completion(ts: Seq<Option<i64>>) -> Option<i64>
    decreases ts.len(),
{
    if ts.len() == 0 {
        None
    } else {
        match ts.last() {
            None => None,
            Some(t) => if ts.len() == 1 {
                Some(t)
            } else {
                match completion(ts.drop_last()) {
                    None => None,
                    Some(m) => Some(if t > m { t } else { m }),
                }
            },
        }
    }
}

/// A job row as `complete_job` leaves it.
pub open spec fn completed(j: Job, now: i64) -> Job {
    Job { completed_at: Some(now), ..j }
}

/// A job row as `update_job_with_error` leaves it.
pub open spec fn errored(j: Job) -> Job {
    Job { has_error: true, ..j }
}

/// One new job row under the next id, enqueued at `now`.
pub open spec fn job_added(old: Store, new: Store, now: i64, id: u128) -> bool {
    &&& id == old.jobs@.len()
    &&& new.jobs@ == old.jobs@.push(Job { id, enqueued_at: now, completed_at: None, has_error: false })
}


/// A store whose graph and monitoring tables are unchanged, and whose job rows keep their
/// ids, stays well formed.
proof fn lemma_wf_jobs_changed(old: Store, new: Store)
    requires
        old.wf(),
        same_graph(old, new),
        same_monitoring(old, new),
        new.jobs@.len() >= old.jobs@.len(),
        forall|i: int| 0 <= i < new.jobs@.len() ==> #[trigger] new.jobs@[i].id == i,
        forall|i: int|
            0 <= i < new.check_job_map@.len() ==> #[trigger] new.check_job_map@[i].1
                < new.jobs@.len(),
    ensures
        new.wf(),
{
    assert(new.ids_wf());
    assert(new.unique_per_check());
}

impl Store {
    /// The completion times of the jobs linked to check `c`.
    pub open spec fn check_job_times(self, c: u128) -> Seq<Option<i64>> {
        job_times(self.check_job_map@, self.jobs@, c)
    }

    /// Whether some job linked to check `c` recorded an error.
    pub open spec fn spec_has_errored_job(self, c: u128) -> bool {
        exists|k: int|
            0 <= k < self.check_job_map@.len() && #[trigger] self.check_job_map@[k].0 == c
                && self.jobs@[self.check_job_map@[k].1 as int].has_error
    }

    /// Records a job on behalf of no check; returns its id.
    pub fn add_job(&mut self, now: i64) -> (r: u128)
        requires
            old(self).wf(),
        ensures
            final(self).wf(),
            job_added(*old(self), *final(self), now, r),
            final(self).check_job_map@ == old(self).check_job_map@,
            same_graph(*old(self), *final(self)),
            same_annotations(*old(self), *final(self)),
            same_monitoring(*old(self), *final(self)),
    {
        let id = self.jobs.len() as u128;
        self.jobs.push(Job { id, enqueued_at: now, completed_at: None, has_error: false });
        proof {
            assert forall|i: int| 0 <= i < self.jobs@.len() implies #[trigger] self.jobs@[i].id == i by {
                if i < self.jobs@.len() - 1 {
                    assert(self.jobs@[i] == old(self).jobs@[i]);
                }
            }
            assert forall|k: int| 0 <= k < self.check_job_map@.len() implies #[trigger] self.check_job_map@[k].1
                < self.jobs@.len() by {
                assert(self.check_job_map@[k] == old(self).check_job_map@[k]);
            }
            lemma_wf_jobs_changed(*old(self), *self);
        }
        id
    }

    /// Records a job and links it to check `check_id`; returns its id.
    pub fn add_job_with_check(&mut self, check_id: u128, now: i64) -> (r: u128)
        requires
            old(self).wf(),
        ensures
            final(self).wf(),
            job_added(*old(self), *final(self), now, r),
            final(self).check_job_map@ == old(self).check_job_map@.push((check_id, r)),
            same_graph(*old(self), *final(self)),
            same_annotations(*old(self), *final(self)),
            same_monitoring(*old(self), *final(self)),
    {
        let ghost old_store = *self;
        let id = self.add_job(now);
        self.check_job_map.push((check_id, id));
        proof {
            assert forall|i: int| 0 <= i < self.check_job_map@.len() implies #[trigger] self.check_job_map@[i].1
                < self.jobs@.len() by {
                if i < self.check_job_map@.len() - 1 {
                    assert(self.check_job_map@[i] == old(self).check_job_map@[i]);
                }
            }
            lemma_wf_jobs_changed(*old(self), *self);
        }
        id
    }

    /// Sets a job's completion time to `now`.
    pub fn complete_job(&mut self, job_id: u128, now: i64) -> (r: Result<(), StoreError>)
        requires
            old(self).wf(),
        ensures
            final(self).wf(),
            r is Ok <==> job_id < old(self).jobs@.len(),
            r is Ok ==> final(self).jobs@ == old(self).jobs@.update(
                job_id as int,
                completed(old(self).jobs@[job_id as int], now),
            ),
            r is Err ==> r == Err::<(), StoreError>(StoreError::NotFound) && final(self).jobs@ == old(self).jobs@,
            final(self).check_job_map@ == old(self).check_job_map@,
            same_graph(*old(self), *final(self)),
            same_annotations(*old(self), *final(self)),
            same_monitoring(*old(self), *final(self)),
    {
        if job_id >= self.jobs.len() as u128 {
            return Err(StoreError::NotFound);
        }
        let i = job_id as usize;
        let j = self.jobs[i];
        self.jobs.set(i, Job { completed_at: Some(now), ..j });
        proof {
            assert forall|k: int| 0 <= k < self.jobs@.len() implies #[trigger] self.jobs@[k].id == k by {
                if k != i {
                    assert(self.jobs@[k] == old(self).jobs@[k]);
                }
            }
            assert forall|k: int| 0 <= k < self.check_job_map@.len() implies #[trigger] self.check_job_map@[k].1
                < self.jobs@.len() by {
                assert(self.check_job_map@[k] == old(self).check_job_map@[k]);
            }
            lemma_wf_jobs_changed(*old(self), *self);
        }
        Ok(())
    }

    /// Marks a job as having failed. Called beside `complete_job`, not instead of it.
    pub fn update_job_with_error(&mut self, job_id: u128) -> (r: Result<(), StoreError>)
        requires
            old(self).wf(),
        ensures
            final(self).wf(),
            r is Ok <==> job_id < old(self).jobs@.len(),
            r is Ok ==> final(self).jobs@ == old(self).jobs@.update(
                job_id as int,
                errored(old(self).jobs@[job_id as int]),
            ),
            r is Err ==> r == Err::<(), StoreError>(StoreError::NotFound) && final(self).jobs@ == old(self).jobs@,
            final(self).check_job_map@ == old(self).check_job_map@,
            same_graph(*old(self), *final(self)),
            same_annotations(*old(self), *final(self)),
            same_monitoring(*old(self), *final(self)),
    {
        if job_id >= self.jobs.len() as u128 {
            return Err(StoreError::NotFound);
        }
        let i = job_id as usize;
        let j = self.jobs[i];
        self.jobs.set(i, Job { has_error: true, ..j });
        proof {
            assert forall|k: int| 0 <= k < self.jobs@.len() implies #[trigger] self.jobs@[k].id == k by {
                if k != i {
                    assert(self.jobs@[k] == old(self).jobs@[k]);
                }
            }
            assert forall|k: int| 0 <= k < self.check_job_map@.len() implies #[trigger] self.check_job_map@[k].1
                < self.jobs@.len() by {
                assert(self.check_job_map@[k] == old(self).check_job_map@[k]);
            }
            lemma_wf_jobs_changed(*old(self), *self);
        }
        Ok(())
    }

    /// How many jobs are linked to check `check_id`.
    pub fn get_num_of_jobs(&self, check_id: u128) -> (r: usize)
        requires
            self.wf(),
        ensures
            r == count_links(self.check_job_map@, check_id),
    {
        let mut count: usize = 0;
        let mut i: usize = 0;
        while i < self.check_job_map.len()
            invariant
                i <= self.check_job_map@.len(),
                count == count_links(self.check_job_map@.subrange(0, i as int), check_id),
                count <= i,
            decreases self.check_job_map@.len() - i,
        {
            assert(self.check_job_map@.subrange(0, i + 1).drop_last() =~= self.check_job_map@.subrange(
                0,
                i as int,
            ));
            if self.check_job_map[i].0 == check_id {
                count = count + 1;
            }
            i = i + 1;
        }
        assert(self.check_job_map@.subrange(0, i as int) =~= self.check_job_map@);
        count
    }

    /// When check `check_id` completed: the latest completion time of its jobs, once every
    /// one of them has completed; none while one has not, or when it has no jobs.
    pub fn check_completed_at(&self, check_id: u128) -> (r: Option<i64>)
        requires
            self.wf(),
        ensures
            r == completion(self.check_job_times(check_id)),
    {
        let mut any = false;
        let mut acc: Option<i64> = None;
        let mut i: usize = 0;
        while i < self.check_job_map.len()
            invariant
                self.wf(),
                i <= self.check_job_map@.len(),
                any == (job_times(self.check_job_map@.subrange(0, i as int), self.jobs@, check_id).len() > 0),
                acc == completion(job_times(self.check_job_map@.subrange(0, i as int), self.jobs@, check_id)),
            decreases self.check_job_map@.len() - i,
        {
            let ghost prev = job_times(self.check_job_map@.subrange(0, i as int), self.jobs@, check_id);
            assert(self.check_job_map@.subrange(0, i + 1).drop_last() =~= self.check_job_map@.subrange(
                0,
                i as int,
            ));
            let (c, j) = self.check_job_map[i];
            if c == check_id {
                let n = self.jobs.len();
                assert(self.check_job_map@[i as int].1 < n);
                let t = self.jobs[j as usize].completed_at;
                let ghost cur = prev.push(t);
                assert(cur.drop_last() =~= prev);
                acc = match t {
                    None => None,
                    Some(t) => if !any {
                        Some(t)
                    } else {
                        match acc {
                            None => None,
                            Some(m) => Some(if t > m { t } else { m }),
                        }
                    },
                };
                any = true;
            }
            i = i + 1;
        }
        assert(self.check_job_map@.subrange(0, i as int) =~= self.check_job_map@);
        acc
    }

    /// Whether some job linked to check `check_id` recorded an error.
    pub fn does_check_have_errored_job(&self, check_id: u128) -> (r: bool)
        requires
            self.wf(),
        ensures
            r == self.spec_has_errored_job(check_id),
    {
        let mut i: usize = 0;
        while i < self.check_job_map.len()
            invariant
                self.wf(),
                i <= self.check_job_map@.len(),
                forall|k: int|
                    0 <= k < i ==> !(#[trigger] self.check_job_map@[k].0 == check_id
                        && self.jobs@[self.check_job_map@[k].1 as int].has_error),
            decreases self.check_job_map@.len() - i,
        {
            let (c, j) = self.check_job_map[i];
            let n = self.jobs.len();
            assert(self.check_job_map@[i as int].1 < n);
            if c == check_id && self.jobs[j as usize].has_error {
                assert(self.check_job_map@[i as int].0 == check_id);
                return true;
            }
            i = i + 1;
        }
        false
    }
}

/// Well-formedness only reads the id-carrying and link tables.
proof fn lemma_wf_frame(old: Store, new: Store)
    requires
        old.wf(),
        same_graph(old, new) || (old.checks@ == new.checks@ && old.entities@ == new.entities@
            && old.check_entity_map@ == new.check_entity_map@),
        same_jobs(old, new),
        old.monitoring_spans@ == new.monitoring_spans@,
        old.monitored_entities@ == new.monitored_entities@,
        old.check_monitored_entity@ == new.check_monitored_entity@,
    ensures
        new.wf(),
{
    assert(new.ids_wf());
    assert(new.unique_per_check());
}

/// The rows `(entity_id, v)` for each `v` of `values`, in order.
pub open spec fn tagged<T>(entity_id: u128, values: Seq<T>) -> Seq<(u128, T)> {
    Seq::new(values.len(), |i: int| (entity_id, values[i]))
}

/// The rows `(c, snapshot_id)` for each check `c` of `checks`, in order.
pub open spec fn snapshot_links(checks: Seq<u128>, snapshot_id: u128) -> Seq<(u128, u128)> {
    Seq::new(checks.len(), |i: int| (checks[i], snapshot_id))
}

/// Only the annotation table `which` may differ; `which` names it.
pub open spec fn same_annotations_but(a: Store, b: Store, which: int) -> bool {
    &&& (which != 0 ==> a.flags@ == b.flags@)
    &&& (which != 1 ==> a.datasets@ == b.datasets@)
    &&& (which != 2 ==> a.positions@ == b.positions@)
    &&& (which != 3 ==> a.outlier_ages@ == b.outlier_ages@)
    &&& (which != 4 ==> a.dormant_companies@ == b.dormant_companies@)
}

/// The ids of the checks that actively monitor registry number `r`, in link order.
pub open spec fn monitoring_checks(
    links: Seq<(u128, u128)>,
    monitored: Seq<MonitoredEntity>,
    spans: Seq<MonitoringSpan>,
    r: Seq<char>,
) -> Seq<u128>
    decreases links.len(),
{
    if links.len() == 0 {
        Seq::empty()
    } else {
        let rest = monitoring_checks(links.drop_last(), monitored, spans, r);
        let m = monitored[links.last().1 as int];
        if m.company_house_id@ == r && spans[m.monitoring_span_id as int].ended_at is None {
            rest.push(links.last().0)
        } else {
            rest
        }
    }
}

/// The largest timepoint recorded for stream `kind`, if any.
pub open spec fn last_timepoint(rows: Seq<ProcessedUpdate>, kind: Updatekind) -> Option<i32>
    decreases rows.len(),
{
    if rows.len() == 0 {
        None
    } else {
        let rest = last_timepoint(rows.drop_last(), kind);
        let row = rows.last();
        if row.kind == kind {
            match rest {
                Some(t) => Some(if row.timepoint > t { row.timepoint } else { t }),
                None => Some(row.timepoint),
            }
        } else {
            rest
        }
    }
}

/// The ids of the entities linked to check `c`, in link order.
pub open spec fn check_entity_ids(links: Seq<(u128, u128)>, c: u128) -> Seq<u128>
    decreases links.len(),
{
    if links.len() == 0 {
        Seq::empty()
    } else {
        let rest = check_entity_ids(links.drop_last(), c);
        if links.last().0 == c {
            rest.push(links.last().1)
        } else {
            rest
        }
    }
}

/// The values recorded for entity `e` in an annotation table, in order.
pub open spec fn values_for<T>(rows: Seq<(u128, T)>, e: u128) -> Seq<T>
    decreases rows.len(),
{
    if rows.len() == 0 {
        Seq::empty()
    } else {
        let rest = values_for(rows.drop_last(), e);
        if rows.last().0 == e {
            rest.push(rows.last().1)
        } else {
            rest
        }
    }
}

/// The parents of `child` by edges of kind `kind`, with the edges' dates, in insertion order.
pub open spec fn relations_of(
    rels: Seq<Relationship>,
    child: u128,
    kind: Relationshipkind,
) -> Seq<(u128, Option<Date>, Option<Date>)>
    decreases rels.len(),
{
    if rels.len() == 0 {
        Seq::empty()
    } else {
        let rest = relations_of(rels.drop_last(), child, kind);
        let r = rels.last();
        if r.child_id == child && r.kind == kind {
            rest.push((r.parent_id, r.started_on, r.ended_on))
        } else {
            rest
        }
    }
}

impl Store {
    /// Whether a relationship for the pair `(parent, child)` exists.
    pub open spec fn has_pair(self, parent: u128, child: u128) -> bool {
        exists|k: int|
            0 <= k < self.relationships@.len() && #[trigger] self.relationships@[k].parent_id == parent
                && self.relationships@[k].child_id == child
    }

    /// The first link of check `c` to a monitored entity, if any.
    pub open spec fn first_monitor_link(self, c: u128, k: int) -> bool {
        &&& 0 <= k < self.check_monitored_entity@.len()
        &&& self.check_monitored_entity@[k].0 == c
        &&& forall|j: int| 0 <= j < k ==> #[trigger] self.check_monitored_entity@[j].0 != c
    }

    /// Records a new check started at `now`; returns its id.
    pub fn insert_check(&mut self, kind: Checkkind, now: i64) -> (r: u128)
        requires
            old(self).wf(),
        ensures
            final(self).wf(),
            r == old(self).checks@.len(),
            final(self).checks@ == old(self).checks@.push(Check { id: r, started_at: now, kind }),
            final(self).entities@ == old(self).entities@,
            final(self).check_entity_map@ == old(self).check_entity_map@,
            final(self).relationships@ == old(self).relationships@,
            same_jobs(*old(self), *final(self)),
            same_annotations(*old(self), *final(self)),
            same_monitoring(*old(self), *final(self)),
    {
        let id = self.checks.len() as u128;
        self.checks.push(Check { id, started_at: now, kind });
        proof {
            assert forall|i: int| 0 <= i < self.checks@.len() implies #[trigger] self.checks@[i].id == i by {
                if i < self.checks@.len() - 1 {
                    assert(self.checks@[i] == old(self).checks@[i]);
                }
            }
            assert forall|i: int| 0 <= i < self.check_entity_map@.len() implies #[trigger] self.check_entity_map@[i].0
                < self.checks@.len() by {
                assert(self.check_entity_map@[i] == old(self).check_entity_map@[i]);
            }
            assert(self.ids_wf());
            assert(self.unique_per_check());
        }
        id
    }

    /// Whether a relationship for the pair `(parent_id, child_id)` exists.
    pub fn has_relationship(&self, parent_id: u128, child_id: u128) -> (r: bool)
        ensures
            r == self.has_pair(parent_id, child_id),
    {
        let mut i: usize = 0;
        while i < self.relationships.len()
            invariant
                i <= self.relationships@.len(),
                forall|k: int|
                    0 <= k < i ==> !(#[trigger] self.relationships@[k].parent_id == parent_id
                        && self.relationships@[k].child_id == child_id),
            decreases self.relationships@.len() - i,
        {
            let existing = self.relationships[i];
            if existing.parent_id == parent_id && existing.child_id == child_id {
                assert(self.relationships@[i as int].parent_id == parent_id);
                return true;
            }
            i = i + 1;
        }
        false
    }

    /// Records a relationship; refuses a second one for the same (parent, child) pair.
    pub fn insert_relationship(&mut self, relationship: Relationship) -> (r: Result<(), StoreError>)
        requires
            old(self).wf(),
        ensures
            final(self).wf(),
            r is Err <==> old(self).has_pair(relationship.parent_id, relationship.child_id),
            r is Err ==> r == Err::<(), StoreError>(StoreError::Duplicate) && same_store(*old(self), *final(self)),
            r is Ok ==> final(self).relationships@ == old(self).relationships@.push(relationship),
            final(self).checks@ == old(self).checks@,
            final(self).entities@ == old(self).entities@,
            final(self).check_entity_map@ == old(self).check_entity_map@,
            same_jobs(*old(self), *final(self)),
            same_annotations(*old(self), *final(self)),
            same_monitoring(*old(self), *final(self)),
    {
        if self.has_relationship(relationship.parent_id, relationship.child_id) {
            return Err(StoreError::Duplicate);
        }
        self.relationships.push(relationship);
        proof {
            lemma_wf_frame(*old(self), *self);
        }
        Ok(())
    }

    /// The parents of entity `entity_id` by edges of kind `kind`, with the edges' dates.
    pub fn get_relations(&self, entity_id: u128, kind: Relationshipkind) -> (r: Vec<
        (u128, Option<Date>, Option<Date>),
    >)
        ensures
            r@ == relations_of(self.relationships@, entity_id, kind),
    {
        let mut out: Vec<(u128, Option<Date>, Option<Date>)> = Vec::new();
        let mut i: usize = 0;
        while i < self.relationships.len()
            invariant
                i <= self.relationships@.len(),
                out@ == relations_of(self.relationships@.subrange(0, i as int), entity_id, kind),
            decreases self.relationships@.len() - i,
        {
            assert(self.relationships@.subrange(0, i + 1).drop_last() =~= self.relationships@.subrange(0, i as int));
            let rel = self.relationships[i];
            if rel.child_id == entity_id && rel.kind == kind {
                out.push((rel.parent_id, rel.started_on, rel.ended_on));
            }
            i = i + 1;
        }
        assert(self.relationships@.subrange(0, i as int) =~= self.relationships@);
        out
    }

    /// Records flags for an entity, one row per kind, in order.
    pub fn insert_flags(&mut self, entity_id: u128, flag_kinds: &Vec<Flagkind>)
        requires
            old(self).wf(),
        ensures
            final(self).wf(),
            final(self).flags@ == old(self).flags@ + tagged(entity_id, flag_kinds@),
            same_annotations_but(*old(self), *final(self), 0),
            same_graph(*old(self), *final(self)),
            same_jobs(*old(self), *final(self)),
            same_monitoring(*old(self), *final(self)),
    {
        let mut i: usize = 0;
        while i < flag_kinds.len()
            invariant
                old(self).wf(),
                i <= flag_kinds@.len(),
                self.flags@ == old(self).flags@ + tagged(entity_id, flag_kinds@.subrange(0, i as int)),
                same_annotations_but(*old(self), *self, 0),
                same_graph(*old(self), *self),
                same_jobs(*old(self), *self),
                same_monitoring(*old(self), *self),
            decreases flag_kinds@.len() - i,
        {
            self.flags.push((entity_id, flag_kinds[i]));
            assert(old(self).flags@ + tagged(entity_id, flag_kinds@.subrange(0, i + 1)) =~= (old(self).flags@ + tagged(entity_id, flag_kinds@.subrange(0, i as int))).push((entity_id, flag_kinds@[i as int])));
            i = i + 1;
        }
        assert(flag_kinds@.subrange(0, i as int) =~= flag_kinds@);
        proof {
            lemma_wf_frame(*old(self), *self);
        }
    }

    /// Records dataset names for an entity, one row per name, in order.
    pub fn insert_datasets(&mut self, entity_id: u128, names: &Vec<String>)
        requires
            old(self).wf(),
        ensures
            final(self).wf(),
            final(self).datasets@ == old(self).datasets@ + tagged(entity_id, names@),
            same_annotations_but(*old(self), *final(self), 1),
            same_graph(*old(self), *final(self)),
            same_jobs(*old(self), *final(self)),
            same_monitoring(*old(self), *final(self)),
    {
        let mut i: usize = 0;
        while i < names.len()
            invariant
                old(self).wf(),
                i <= names@.len(),
                self.datasets@ == old(self).datasets@ + tagged(entity_id, names@.subrange(0, i as int)),
                same_annotations_but(*old(self), *self, 1),
                same_graph(*old(self), *self),
                same_jobs(*old(self), *self),
                same_monitoring(*old(self), *self),
            decreases names@.len() - i,
        {
            self.datasets.push((entity_id, names[i].clone()));
            assert(old(self).datasets@ + tagged(entity_id, names@.subrange(0, i + 1)) =~= (old(self).datasets@ + tagged(entity_id, names@.subrange(0, i as int))).push((entity_id, names@[i as int])));
            i = i + 1;
        }
        assert(names@.subrange(0, i as int) =~= names@);
        proof {
            lemma_wf_frame(*old(self), *self);
        }
    }

    /// Records position titles for an entity, one row per title, in order.
    pub fn insert_positions(&mut self, entity_id: u128, titles: &Vec<String>)
        requires
            old(self).wf(),
        ensures
            final(self).wf(),
            final(self).positions@ == old(self).positions@ + tagged(entity_id, titles@),
            same_annotations_but(*old(self), *final(self), 2),
            same_graph(*old(self), *final(self)),
            same_jobs(*old(self), *final(self)),
            same_monitoring(*old(self), *final(self)),
    {
        let mut i: usize = 0;
        while i < titles.len()
            invariant
                old(self).wf(),
                i <= titles@.len(),
                self.positions@ == old(self).positions@ + tagged(entity_id, titles@.subrange(0, i as int)),
                same_annotations_but(*old(self), *self, 2),
                same_graph(*old(self), *self),
                same_jobs(*old(self), *self),
                same_monitoring(*old(self), *self),
            decreases titles@.len() - i,
        {
            self.positions.push((entity_id, titles[i].clone()));
            assert(old(self).positions@ + tagged(entity_id, titles@.subrange(0, i + 1)) =~= (old(self).positions@ + tagged(entity_id, titles@.subrange(0, i as int))).push((entity_id, titles@[i as int])));
            i = i + 1;
        }
        assert(titles@.subrange(0, i as int) =~= titles@);
        proof {
            lemma_wf_frame(*old(self), *self);
        }
    }

    /// Records whether an individual's age is implausible.
    pub fn insert_outlier_age(&mut self, entity_id: u128, outlier: bool)
        requires
            old(self).wf(),
        ensures
            final(self).wf(),
            final(self).outlier_ages@ == old(self).outlier_ages@.push((entity_id, outlier)),
            same_annotations_but(*old(self), *final(self), 3),
            same_graph(*old(self), *final(self)),
            same_jobs(*old(self), *final(self)),
            same_monitoring(*old(self), *final(self)),
    {
        self.outlier_ages.push((entity_id, outlier));
        proof {
            lemma_wf_frame(*old(self), *self);
        }
    }

    /// Records whether a company is dormant.
    pub fn insert_dormant_company(&mut self, entity_id: u128, dormant: bool)
        requires
            old(self).wf(),
        ensures
            final(self).wf(),
            final(self).dormant_companies@ == old(self).dormant_companies@.push((entity_id, dormant)),
            same_annotations_but(*old(self), *final(self), 4),
            same_graph(*old(self), *final(self)),
            same_jobs(*old(self), *final(self)),
            same_monitoring(*old(self), *final(self)),
    {
        self.dormant_companies.push((entity_id, dormant));
        proof {
            lemma_wf_frame(*old(self), *self);
        }
    }
}

impl Store {
    /// Starts monitoring registry number `company_house_id` for check `check_id` from `now`:
    /// a new open span, a monitored entity on it, and the check's link to that entity.
    pub fn start_monitoring(&mut self, check_id: u128, company_house_id: String, now: i64)
        requires
            old(self).wf(),
        ensures
            final(self).wf(),
            final(self).monitoring_spans@ == old(self).monitoring_spans@.push(
                MonitoringSpan { id: old(self).monitoring_spans@.len() as u128, started_at: now, ended_at: None },
            ),
            final(self).monitored_entities@ == old(self).monitored_entities@.push(
                MonitoredEntity {
                    id: old(self).monitored_entities@.len() as u128,
                    company_house_id,
                    monitoring_span_id: old(self).monitoring_spans@.len() as u128,
                },
            ),
            final(self).check_monitored_entity@ == old(self).check_monitored_entity@.push(
                (check_id, old(self).monitored_entities@.len() as u128),
            ),
            final(self).snapshots@ == old(self).snapshots@,
            final(self).check_snapshot@ == old(self).check_snapshot@,
            final(self).processed_updates@ == old(self).processed_updates@,
            same_graph(*old(self), *final(self)),
            same_jobs(*old(self), *final(self)),
            same_annotations(*old(self), *final(self)),
    {
        let span_id = self.monitoring_spans.len() as u128;
        self.monitoring_spans.push(MonitoringSpan { id: span_id, started_at: now, ended_at: None });
        let monitored_id = self.monitored_entities.len() as u128;
        self.monitored_entities.push(
            MonitoredEntity { id: monitored_id, company_house_id, monitoring_span_id: span_id },
        );
        self.check_monitored_entity.push((check_id, monitored_id));
        proof {
            assert forall|i: int| 0 <= i < self.monitoring_spans@.len() implies #[trigger] self.monitoring_spans@[i].id == i by {
                if i < self.monitoring_spans@.len() - 1 {
                    assert(self.monitoring_spans@[i] == old(self).monitoring_spans@[i]);
                }
            }
            assert forall|i: int| 0 <= i < self.monitored_entities@.len() implies {
                &&& (#[trigger] self.monitored_entities@[i]).id == i
                &&& self.monitored_entities@[i].monitoring_span_id < self.monitoring_spans@.len()
            } by {
                if i < self.monitored_entities@.len() - 1 {
                    assert(self.monitored_entities@[i] == old(self).monitored_entities@[i]);
                }
            }
            assert forall|i: int| 0 <= i < self.check_monitored_entity@.len() implies #[trigger] self.check_monitored_entity@[i].1
                < self.monitored_entities@.len() by {
                if i < self.check_monitored_entity@.len() - 1 {
                    assert(self.check_monitored_entity@[i] == old(self).check_monitored_entity@[i]);
                }
            }
            assert(self.checks@ == old(self).checks@);
            assert(self.entities@ == old(self).entities@);
            assert(self.check_entity_map@ == old(self).check_entity_map@);
            assert(self.jobs@ == old(self).jobs@);
            assert(self.check_job_map@ == old(self).check_job_map@);
            assert(self.ids_wf());
            assert(self.unique_per_check());
        }
    }

    /// Ends, at `now`, the monitoring span of the first monitored entity linked to check
    /// `check_id`; fails when the check monitors nothing.
    pub fn cancel_monitoring(&mut self, check_id: u128, now: i64) -> (r: Result<(), StoreError>)
        requires
            old(self).wf(),
        ensures
            final(self).wf(),
            r is Ok <==> exists|k: int| old(self).first_monitor_link(check_id, k),
            r is Err ==> r == Err::<(), StoreError>(StoreError::NotFound) && same_store(*old(self), *final(self)),
            r is Ok ==> exists|k: int| #[trigger] old(self).first_monitor_link(check_id, k) && {
                let span = old(self).monitored_entities@[old(self).check_monitored_entity@[k].1 as int].monitoring_span_id as int;
                final(self).monitoring_spans@ == old(self).monitoring_spans@.update(
                    span,
                    MonitoringSpan { ended_at: Some(now), ..old(self).monitoring_spans@[span] },
                )
            },
            final(self).monitored_entities@ == old(self).monitored_entities@,
            final(self).check_monitored_entity@ == old(self).check_monitored_entity@,
            final(self).snapshots@ == old(self).snapshots@,
            final(self).check_snapshot@ == old(self).check_snapshot@,
            final(self).processed_updates@ == old(self).processed_updates@,
            same_graph(*old(self), *final(self)),
            same_jobs(*old(self), *final(self)),
            same_annotations(*old(self), *final(self)),
    {
        let mut i: usize = 0;
        while i < self.check_monitored_entity.len()
            invariant
                self.wf(),
                same_store(*old(self), *self),
                i <= self.check_monitored_entity@.len(),
                forall|j: int| 0 <= j < i ==> #[trigger] self.check_monitored_entity@[j].0 != check_id,
            decreases self.check_monitored_entity@.len() - i,
        {
            let (c, m) = self.check_monitored_entity[i];
            if c == check_id {
                let ghost old_store = *self;
                assert(self.first_monitor_link(check_id, i as int));
                let nm = self.monitored_entities.len();
                assert(self.check_monitored_entity@[i as int].1 < nm);
                let span_id = self.monitored_entities[m as usize].monitoring_span_id;
                let ns = self.monitoring_spans.len();
                assert(self.monitored_entities@[m as int].monitoring_span_id < ns);
                let s = span_id as usize;
                let span = self.monitoring_spans[s];
                self.monitoring_spans.set(s, MonitoringSpan { ended_at: Some(now), ..span });
                proof {
                    assert forall|k: int| 0 <= k < self.monitoring_spans@.len() implies #[trigger] self.monitoring_spans@[k].id == k by {
                        if k != s {
                            assert(self.monitoring_spans@[k] == old_store.monitoring_spans@[k]);
                        }
                    }
                    assert forall|k: int| 0 <= k < self.monitored_entities@.len() implies {
                        &&& (#[trigger] self.monitored_entities@[k]).id == k
                        &&& self.monitored_entities@[k].monitoring_span_id < self.monitoring_spans@.len()
                    } by {
                        assert(self.monitored_entities@[k] == old_store.monitored_entities@[k]);
                    }
                    assert forall|k: int| 0 <= k < self.check_monitored_entity@.len() implies #[trigger] self.check_monitored_entity@[k].1
                        < self.monitored_entities@.len() by {
                        assert(self.check_monitored_entity@[k] == old_store.check_monitored_entity@[k]);
                    }
                    assert(self.checks@ == old_store.checks@);
                    assert(self.entities@ == old_store.entities@);
                    assert(self.check_entity_map@ == old_store.check_entity_map@);
                    assert(self.jobs@ == old_store.jobs@);
                    assert(self.check_job_map@ == old_store.check_job_map@);
                    assert(self.ids_wf());
                    assert(self.unique_per_check());
                    assert(old(self).first_monitor_link(check_id, i as int));
                    assert(self.monitoring_spans@ == old(self).monitoring_spans@.update(
                        s as int,
                        MonitoringSpan { ended_at: Some(now), ..old(self).monitoring_spans@[s as int] },
                    ));
                }
                return Ok(());
            }
            i = i + 1;
        }
        proof {
            assert forall|k: int| !old(self).first_monitor_link(check_id, k) by {
                if 0 <= k < self.check_monitored_entity@.len() {
                    assert(self.check_monitored_entity@[k].0 != check_id);
                }
            }
        }
        Err(StoreError::NotFound)
    }

    /// Records a snapshot of `entity` for the checks `check_ids`: the entity as a new row
    /// linked to no check, a snapshot of it received at `now`, and one link per check.
    pub fn insert_entity_snapshot(&mut self, entity: &Entity, check_ids: &Vec<u128>, now: i64)
        requires
            old(self).wf(),
        ensures
            final(self).wf(),
            final(self).entities@ == old(self).entities@.push(
                Entity { id: old(self).entities@.len() as u128, ..*entity },
            ),
            final(self).snapshots@ == old(self).snapshots@.push(
                Snapshot {
                    id: old(self).snapshots@.len() as u128,
                    recieved_at: now,
                    entity_id: old(self).entities@.len() as u128,
                },
            ),
            final(self).check_snapshot@ == old(self).check_snapshot@ + snapshot_links(
                check_ids@,
                old(self).snapshots@.len() as u128,
            ),
            final(self).checks@ == old(self).checks@,
            final(self).check_entity_map@ == old(self).check_entity_map@,
            final(self).relationships@ == old(self).relationships@,
            final(self).monitoring_spans@ == old(self).monitoring_spans@,
            final(self).monitored_entities@ == old(self).monitored_entities@,
            final(self).check_monitored_entity@ == old(self).check_monitored_entity@,
            final(self).processed_updates@ == old(self).processed_updates@,
            same_jobs(*old(self), *final(self)),
            same_annotations(*old(self), *final(self)),
    {
        let entity_id = self.entities.len() as u128;
        self.entities.push(entity_with_id(entity, entity_id));
        let snapshot_id = self.snapshots.len() as u128;
        self.snapshots.push(Snapshot { id: snapshot_id, recieved_at: now, entity_id });
        let ghost mid = *self;
        let mut i: usize = 0;
        while i < check_ids.len()
            invariant
                i <= check_ids@.len(),
                self.check_snapshot@ == mid.check_snapshot@ + snapshot_links(
                    check_ids@.subrange(0, i as int),
                    snapshot_id,
                ),
                self.entities@ == mid.entities@,
                self.snapshots@ == mid.snapshots@,
                same_graph(mid, *self),
                same_jobs(mid, *self),
                same_annotations(mid, *self),
                self.monitoring_spans@ == mid.monitoring_spans@,
                self.monitored_entities@ == mid.monitored_entities@,
                self.check_monitored_entity@ == mid.check_monitored_entity@,
                self.processed_updates@ == mid.processed_updates@,
            decreases check_ids@.len() - i,
        {
            self.check_snapshot.push((check_ids[i], snapshot_id));
            assert(mid.check_snapshot@ + snapshot_links(check_ids@.subrange(0, i + 1), snapshot_id)
                =~= (mid.check_snapshot@ + snapshot_links(check_ids@.subrange(0, i as int), snapshot_id)).push(
                (check_ids@[i as int], snapshot_id),
            ));
            i = i + 1;
        }
        assert(check_ids@.subrange(0, i as int) =~= check_ids@);
        proof {
            let n = old(self).entities@.len() as int;
            assert forall|k: int| 0 <= k < self.entities@.len() implies #[trigger] self.entities@[k].id == k by {
                if k < n {
                    assert(self.entities@[k] == old(self).entities@[k]);
                }
            }
            assert forall|k: int| 0 <= k < self.check_entity_map@.len() implies #[trigger] self.check_entity_map@[k].1
                < self.entities@.len() by {
                assert(self.check_entity_map@[k] == old(self).check_entity_map@[k]);
            }
            assert forall|k: int| 0 <= k < n implies #[trigger] self.entities@[k] == old(self).entities@[k] by {}
            assert(self.checks@ == old(self).checks@);
            assert(self.jobs@ == old(self).jobs@);
            assert(self.check_job_map@ == old(self).check_job_map@);
            assert(self.monitoring_spans@ == old(self).monitoring_spans@);
            assert(self.monitored_entities@ == old(self).monitored_entities@);
            assert(self.check_monitored_entity@ == old(self).check_monitored_entity@);
            assert(self.ids_wf());
            assert forall|i: int, j: int|
                0 <= i < self.check_entity_map@.len() && 0 <= j < self.check_entity_map@.len()
                    && #[trigger] self.check_entity_map@[i].0 == #[trigger] self.check_entity_map@[j].0
                    && number_of(self.entities@, self.check_entity_map@[i].1) == number_of(
                    self.entities@,
                    self.check_entity_map@[j].1,
                ) implies i == j by {
                assert(self.check_entity_map@[i] == old(self).check_entity_map@[i]);
                assert(self.check_entity_map@[j] == old(self).check_entity_map@[j]);
            }
        }
    }

    /// Records that the update at `timepoint` of stream `kind` was processed at `now`.
    pub fn insert_processed_update(&mut self, timepoint: i32, kind: Updatekind, now: i64)
        requires
            old(self).wf(),
        ensures
            final(self).wf(),
            final(self).processed_updates@ == old(self).processed_updates@.push(
                ProcessedUpdate { id: old(self).processed_updates@.len() as u128, processed_at: now, timepoint, kind },
            ),
            final(self).monitoring_spans@ == old(self).monitoring_spans@,
            final(self).monitored_entities@ == old(self).monitored_entities@,
            final(self).check_monitored_entity@ == old(self).check_monitored_entity@,
            final(self).snapshots@ == old(self).snapshots@,
            final(self).check_snapshot@ == old(self).check_snapshot@,
            same_graph(*old(self), *final(self)),
            same_jobs(*old(self), *final(self)),
            same_annotations(*old(self), *final(self)),
    {
        let id = self.processed_updates.len() as u128;
        self.processed_updates.push(ProcessedUpdate { id, processed_at: now, timepoint, kind });
        proof {
            lemma_wf_frame(*old(self), *self);
        }
    }

    /// The largest timepoint processed for stream `kind`, if any.
    pub fn get_last_processed_timepoint(&self, kind: Updatekind) -> (r: Option<i32>)
        ensures
            r == last_timepoint(self.processed_updates@, kind),
    {
        let mut acc: Option<i32> = None;
        let mut i: usize = 0;
        while i < self.processed_updates.len()
            invariant
                i <= self.processed_updates@.len(),
                acc == last_timepoint(self.processed_updates@.subrange(0, i as int), kind),
            decreases self.processed_updates@.len() - i,
        {
            assert(self.processed_updates@.subrange(0, i + 1).drop_last() =~= self.processed_updates@.subrange(0, i as int));
            let row = self.processed_updates[i];
            if row.kind == kind {
                acc = match acc {
                    Some(t) => Some(if row.timepoint > t { row.timepoint } else { t }),
                    None => Some(row.timepoint),
                };
            }
            i = i + 1;
        }
        assert(self.processed_updates@.subrange(0, i as int) =~= self.processed_updates@);
        acc
    }

    /// The checks that actively monitor registry number `company_house_id`, in link order.
    pub fn get_monitored_entity_check_ids(&self, company_house_id: &String) -> (r: Vec<u128>)
        requires
            self.wf(),
        ensures
            r@ == monitoring_checks(
                self.check_monitored_entity@,
                self.monitored_entities@,
                self.monitoring_spans@,
                company_house_id@,
            ),
    {
        let mut out: Vec<u128> = Vec::new();
        let mut i: usize = 0;
        while i < self.check_monitored_entity.len()
            invariant
                self.wf(),
                i <= self.check_monitored_entity@.len(),
                out@ == monitoring_checks(
                    self.check_monitored_entity@.subrange(0, i as int),
                    self.monitored_entities@,
                    self.monitoring_spans@,
                    company_house_id@,
                ),
            decreases self.check_monitored_entity@.len() - i,
        {
            assert(self.check_monitored_entity@.subrange(0, i + 1).drop_last() =~= self.check_monitored_entity@.subrange(0, i as int));
            let (c, m) = self.check_monitored_entity[i];
            let nm = self.monitored_entities.len();
            assert(self.check_monitored_entity@[i as int].1 < nm);
            let entity = &self.monitored_entities[m as usize];
            let ns = self.monitoring_spans.len();
            assert(self.monitored_entities@[m as int].monitoring_span_id < ns);
            if str_eq(entity.company_house_id.as_str(), company_house_id.as_str())
                && self.monitoring_spans[entity.monitoring_span_id as usize].ended_at.is_none() {
                out.push(c);
            }
            i = i + 1;
        }
        assert(self.check_monitored_entity@.subrange(0, i as int) =~= self.check_monitored_entity@);
        out
    }
}

/// The first entity among `ids` that is a root, if any.
pub open spec fn first_root(entities: Seq<Entity>, ids: Seq<u128>) -> Option<u128>
    decreases ids.len(),
{
    if ids.len() == 0 {
        None
    } else {
        match first_root(entities, ids.drop_last()) {
            Some(id) => Some(id),
            None => if entities[ids.last() as int].is_root {
                Some(ids.last())
            } else {
                None
            },
        }
    }
}

impl Store {
    /// The entity with id `entity_id`.
    pub fn get_entity(&self, entity_id: u128) -> (r: Result<Entity, StoreError>)
        requires
            self.wf(),
        ensures
            r is Ok <==> entity_id < self.entities@.len(),
            r matches Ok(e) ==> e == self.entities@[entity_id as int],
            r is Err ==> r == Err::<Entity, StoreError>(StoreError::NotFound),
    {
        if entity_id >= self.entities.len() as u128 {
            return Err(StoreError::NotFound);
        }
        let e = &self.entities[entity_id as usize];
        Ok(entity_with_id(e, e.id))
    }

    /// The ids of the entities that check `check_id` holds, in insertion order.
    pub fn get_entity_ids(&self, check_id: u128) -> (r: Vec<u128>)
        ensures
            r@ == check_entity_ids(self.check_entity_map@, check_id),
    {
        let mut out: Vec<u128> = Vec::new();
        let mut i: usize = 0;
        while i < self.check_entity_map.len()
            invariant
                i <= self.check_entity_map@.len(),
                out@ == check_entity_ids(self.check_entity_map@.subrange(0, i as int), check_id),
            decreases self.check_entity_map@.len() - i,
        {
            assert(self.check_entity_map@.subrange(0, i + 1).drop_last() =~= self.check_entity_map@.subrange(0, i as int));
            let (c, e) = self.check_entity_map[i];
            if c == check_id {
                out.push(e);
            }
            i = i + 1;
        }
        assert(self.check_entity_map@.subrange(0, i as int) =~= self.check_entity_map@);
        out
    }

    /// The entities that check `check_id` holds, in insertion order.
    pub fn get_entities(&self, check_id: u128) -> (r: Vec<Entity>)
        requires
            self.wf(),
        ensures
            r@.len() == check_entity_ids(self.check_entity_map@, check_id).len(),
            forall|k: int|
                0 <= k < r@.len() ==> #[trigger] r@[k] == self.entities@[check_entity_ids(
                    self.check_entity_map@,
                    check_id,
                )[k] as int],
    {
        let ids = self.get_entity_ids(check_id);
        proof {
            lemma_check_entity_ids_bounded(self.check_entity_map@, check_id, self.entities@.len());
        }
        let mut out: Vec<Entity> = Vec::new();
        let mut i: usize = 0;
        while i < ids.len()
            invariant
                self.wf(),
                ids@ == check_entity_ids(self.check_entity_map@, check_id),
                forall|k: int| 0 <= k < ids@.len() ==> #[trigger] ids@[k] < self.entities@.len(),
                i <= ids@.len(),
                out@.len() == i,
                forall|k: int| 0 <= k < i ==> #[trigger] out@[k] == self.entities@[ids@[k] as int],
            decreases ids@.len() - i,
        {
            let n = self.entities.len();
            assert(ids@[i as int] < n);
            let e = &self.entities[ids[i] as usize];
            out.push(entity_with_id(e, e.id));
            i = i + 1;
        }
        out
    }

    /// The root entity of check `check_id`.
    pub fn get_root_entity(&self, check_id: u128) -> (r: Result<Entity, StoreError>)
        requires
            self.wf(),
        ensures
            match first_root(self.entities@, check_entity_ids(self.check_entity_map@, check_id)) {
                Some(id) => r == Ok::<Entity, StoreError>(self.entities@[id as int]),
                None => r == Err::<Entity, StoreError>(StoreError::NotFound),
            },
    {
        let ids = self.get_entity_ids(check_id);
        proof {
            lemma_check_entity_ids_bounded(self.check_entity_map@, check_id, self.entities@.len());
        }
        let mut i: usize = 0;
        while i < ids.len()
            invariant
                self.wf(),
                ids@ == check_entity_ids(self.check_entity_map@, check_id),
                forall|k: int| 0 <= k < ids@.len() ==> #[trigger] ids@[k] < self.entities@.len(),
                i <= ids@.len(),
                first_root(self.entities@, ids@.subrange(0, i as int)) is None,
            decreases ids@.len() - i,
        {
            assert(ids@.subrange(0, i + 1).drop_last() =~= ids@.subrange(0, i as int));
            let n = self.entities.len();
            assert(ids@[i as int] < n);
            let e = &self.entities[ids[i] as usize];
            if e.is_root {
                proof {
                    lemma_first_root_prefix(self.entities@, ids@, i as int + 1);
                }
                return Ok(entity_with_id(e, e.id));
            }
            i = i + 1;
        }
        assert(ids@.subrange(0, i as int) =~= ids@);
        Err(StoreError::NotFound)
    }

    /// The check with id `check_id`.
    pub fn get_check(&self, check_id: u128) -> (r: Result<Check, StoreError>)
        ensures
            r is Ok <==> check_id < self.checks@.len(),
            r matches Ok(c) ==> c == self.checks@[check_id as int],
            r is Err ==> r == Err::<Check, StoreError>(StoreError::NotFound),
    {
        if check_id >= self.checks.len() as u128 {
            return Err(StoreError::NotFound);
        }
        Ok(self.checks[check_id as usize])
    }

    /// Every check, in creation order.
    pub fn get_checks(&self) -> (r: Vec<Check>)
        ensures
            r@ == self.checks@,
    {
        let mut out: Vec<Check> = Vec::new();
        let mut i: usize = 0;
        while i < self.checks.len()
            invariant
                i <= self.checks@.len(),
                out@ == self.checks@.subrange(0, i as int),
            decreases self.checks@.len() - i,
        {
            out.push(self.checks[i]);
            assert(out@ =~= self.checks@.subrange(0, i + 1));
            i = i + 1;
        }
        assert(self.checks@.subrange(0, i as int) =~= self.checks@);
        out
    }

    /// The flag kinds recorded for an entity, in insertion order.
    pub fn get_flag_kinds_for_entity(&self, entity_id: u128) -> (r: Vec<Flagkind>)
        ensures
            r@ == values_for(self.flags@, entity_id),
    {
        let mut out: Vec<Flagkind> = Vec::new();
        let mut i: usize = 0;
        while i < self.flags.len()
            invariant
                i <= self.flags@.len(),
                out@ == values_for(self.flags@.subrange(0, i as int), entity_id),
            decreases self.flags@.len() - i,
        {
            assert(self.flags@.subrange(0, i + 1).drop_last() =~= self.flags@.subrange(0, i as int));
            let (e, k) = self.flags[i];
            if e == entity_id {
                out.push(k);
            }
            i = i + 1;
        }
        assert(self.flags@.subrange(0, i as int) =~= self.flags@);
        out
    }

    /// The position titles recorded for an entity, in insertion order.
    pub fn get_positions(&self, entity_id: u128) -> (r: Vec<String>)
        ensures
            r@ == values_for(self.positions@, entity_id),
    {
        strings_for(&self.positions, entity_id)
    }

    /// The dataset names recorded for an entity, in insertion order.
    pub fn get_datasets(&self, entity_id: u128) -> (r: Vec<String>)
        ensures
            r@ == values_for(self.datasets@, entity_id),
    {
        strings_for(&self.datasets, entity_id)
    }

    /// Whether an individual was recorded as having an implausible age; false if never
    /// recorded.
    pub fn outlier_age(&self, entity_id: u128) -> (r: bool)
        ensures
            r == (values_for(self.outlier_ages@, entity_id).len() > 0 && values_for(
                self.outlier_ages@,
                entity_id,
            )[0]),
    {
        first_flag_for(&self.outlier_ages, entity_id)
    }

    /// Whether a company was recorded as dormant; false if never recorded.
    pub fn company_dormant(&self, entity_id: u128) -> (r: bool)
        ensures
            r == (values_for(self.dormant_companies@, entity_id).len() > 0 && values_for(
                self.dormant_companies@,
                entity_id,
            )[0]),
    {
        first_flag_for(&self.dormant_companies, entity_id)
    }
}

fn strings_for(rows: &Vec<(u128, String)>, entity_id: u128) -> (r: Vec<String>)
    ensures
        r@ == values_for(rows@, entity_id),
{
    let mut out: Vec<String> = Vec::new();
    let mut i: usize = 0;
    while i < rows.len()
        invariant
            i <= rows@.len(),
            out@ == values_for(rows@.subrange(0, i as int), entity_id),
        decreases rows@.len() - i,
    {
        assert(rows@.subrange(0, i + 1).drop_last() =~= rows@.subrange(0, i as int));
        if rows[i].0 == entity_id {
            out.push(rows[i].1.clone());
        }
        i = i + 1;
    }
    assert(rows@.subrange(0, i as int) =~= rows@);
    out
}

fn first_flag_for(rows: &Vec<(u128, bool)>, entity_id: u128) -> (r: bool)
    ensures
        r == (values_for(rows@, entity_id).len() > 0 && values_for(rows@, entity_id)[0]),
{
    let mut i: usize = 0;
    while i < rows.len()
        invariant
            i <= rows@.len(),
            values_for(rows@.subrange(0, i as int), entity_id).len() == 0,
        decreases rows@.len() - i,
    {
        assert(rows@.subrange(0, i + 1).drop_last() =~= rows@.subrange(0, i as int));
        if rows[i].0 == entity_id {
            proof {
                lemma_values_for_prefix(rows@, entity_id, i as int + 1);
            }
            return rows[i].1;
        }
        i = i + 1;
    }
    assert(rows@.subrange(0, i as int) =~= rows@);
    false
}

/// The first value recorded in a prefix is the first value recorded overall.
proof fn lemma_values_for_prefix<T>(rows: Seq<(u128, T)>, e: u128, n: int)
    requires
        0 < n <= rows.len(),
        values_for(rows.subrange(0, n), e).len() > 0,
    ensures
        values_for(rows, e).len() > 0,
        values_for(rows, e)[0] == values_for(rows.subrange(0, n), e)[0],
    decreases rows.len() - n,
{
    if n < rows.len() {
        assert(rows.subrange(0, n + 1).drop_last() =~= rows.subrange(0, n));
        lemma_values_for_prefix(rows, e, n + 1);
    } else {
        assert(rows.subrange(0, n) =~= rows);
    }
}

/// A root found in a prefix of the ids is the first root of all of them.
proof fn lemma_first_root_prefix(entities: Seq<Entity>, ids: Seq<u128>, n: int)
    requires
        0 < n <= ids.len(),
        first_root(entities, ids.subrange(0, n)) is Some,
    ensures
        first_root(entities, ids) == first_root(entities, ids.subrange(0, n)),
    decreases ids.len() - n,
{
    if n < ids.len() {
        assert(ids.subrange(0, n + 1).drop_last() =~= ids.subrange(0, n));
        lemma_first_root_prefix(entities, ids, n + 1);
    } else {
        assert(ids.subrange(0, n) =~= ids);
    }
}

/// The entity ids a check holds are rows of the entity table.
pub proof fn lemma_check_entity_ids_bounded(links: Seq<(u128, u128)>, c: u128, bound: nat)
    requires
        forall|i: int| 0 <= i < links.len() ==> #[trigger] links[i].1 < bound,
    ensures
        forall|k: int|
            0 <= k < check_entity_ids(links, c).len() ==> #[trigger] check_entity_ids(links, c)[k]
                < bound,
    decreases links.len(),
{
    if links.len() > 0 {
        let rest = links.drop_last();
        assert forall|i: int| 0 <= i < rest.len() implies #[trigger] rest[i].1 < bound by {
            assert(rest[i] == links[i]);
        }
        lemma_check_entity_ids_bounded(rest, c, bound);
        assert(links[links.len() - 1].1 < bound);
        let ids = check_entity_ids(links, c);
        let rest_ids = check_entity_ids(rest, c);
        assert forall|k: int| 0 <= k < ids.len() implies #[trigger] ids[k] < bound by {
            if k < rest_ids.len() {
                assert(ids[k] == rest_ids[k]);
            }
        }
    }
}

/// `b` keeps every row of `a`'s entity, link and relationship tables, in place.
pub open spec fn grows(a: Store, b: Store) -> bool {
    &&& a.entities@.len() <= b.entities@.len()
    &&& forall|i: int| 0 <= i < a.entities@.len() ==> #[trigger] b.entities@[i] == a.entities@[i]
    &&& a.check_entity_map@.len() <= b.check_entity_map@.len()
    &&& forall|i: int|
        0 <= i < a.check_entity_map@.len() ==> #[trigger] b.check_entity_map@[i] == a.check_entity_map@[i]
    &&& a.relationships@.len() <= b.relationships@.len()
    &&& forall|i: int|
        0 <= i < a.relationships@.len() ==> #[trigger] b.relationships@[i] == a.relationships@[i]
}

/// What a store holds it keeps holding as it grows: an entity a check holds, and an edge.
pub proof fn lemma_grows_keeps(a: Store, b: Store, c: u128, r: Seq<char>, parent: u128, child: u128)
    requires
        a.wf(),
        b.wf(),
        grows(a, b),
    ensures
        a.entity_in_check(c, r) is Some ==> b.entity_in_check(c, r) == a.entity_in_check(c, r),
        a.has_pair(parent, child) ==> b.has_pair(parent, child),
{
    if a.entity_in_check(c, r) is Some {
        let i = choose|i: int|
            0 <= i < a.check_entity_map@.len() && #[trigger] a.check_entity_map@[i].0 == c
                && number_of(a.entities@, a.check_entity_map@[i].1) == r;
        assert(b.check_entity_map@[i] == a.check_entity_map@[i]);
        assert(b.entities@[a.check_entity_map@[i].1 as int] == a.entities@[a.check_entity_map@[i].1 as int]);
        assert(b.check_entity_map@[i].0 == c);
        let j = choose|j: int|
            0 <= j < b.check_entity_map@.len() && #[trigger] b.check_entity_map@[j].0 == c
                && number_of(b.entities@, b.check_entity_map@[j].1) == r;
        assert(i == j);
    }
    if a.has_pair(parent, child) {
        let k = choose|k: int|
            0 <= k < a.relationships@.len() && #[trigger] a.relationships@[k].parent_id == parent
                && a.relationships@[k].child_id == child;
        assert(b.relationships@[k] == a.relationships@[k]);
        assert(b.relationships@[k].parent_id == parent);
    }
}

/// Growth composes.
pub proof fn lemma_grows_trans(a: Store, b: Store, c: Store)
    requires
        grows(a, b),
        grows(b, c),
    ensures
        grows(a, c),
{
    assert forall|i: int| 0 <= i < a.entities@.len() implies #[trigger] c.entities@[i] == a.entities@[i] by {
        assert(b.entities@[i] == a.entities@[i]);
    }
    assert forall|i: int| 0 <= i < a.check_entity_map@.len() implies #[trigger] c.check_entity_map@[i]
        == a.check_entity_map@[i] by {
        assert(b.check_entity_map@[i] == a.check_entity_map@[i]);
    }
    assert forall|i: int| 0 <= i < a.relationships@.len() implies #[trigger] c.relationships@[i]
        == a.relationships@[i] by {
        assert(b.relationships@[i] == a.relationships@[i]);
    }
}

/// Within a check, at most one entity has a given registry number: two links of one check
/// to entities with the same number are the same link.
pub proof fn lemma_entity_unique_per_check(s: Store, c: u128, i: int, j: int)
    requires
        s.wf(),
        0 <= i < s.check_entity_map@.len(),
        0 <= j < s.check_entity_map@.len(),
        s.check_entity_map@[i].0 == c,
        s.check_entity_map@[j].0 == c,
        number_of(s.entities@, s.check_entity_map@[i].1) == number_of(s.entities@, s.check_entity_map@[j].1),
    ensures
        i == j,
{
}

/// Two different checks never share an entity row.
pub proof fn lemma_checks_disjoint(s: Store, c1: u128, c2: u128, i: int, j: int)
    requires
        s.wf(),
        c1 != c2,
        0 <= i < s.check_entity_map@.len(),
        0 <= j < s.check_entity_map@.len(),
        s.check_entity_map@[i].0 == c1,
        s.check_entity_map@[j].0 == c2,
    ensures
        s.check_entity_map@[i].1 != s.check_entity_map@[j].1,
{
}

/// The completion of a set of jobs, when there is one, is the latest of their times, and
/// every job has completed; there is none exactly when there are no jobs or one is open.
pub proof fn lemma_completion_is_latest(ts: Seq<Option<i64>>)
    ensures
        completion(ts) is Some <==> (ts.len() > 0 && forall|i: int| 0 <= i < ts.len() ==> (#[trigger] ts[i]) is Some),
        completion(ts) matches Some(t) ==> (forall|i: int| 0 <= i < ts.len() ==> (#[trigger] ts[i])->0 <= t)
            && (exists|i: int| 0 <= i < ts.len() && #[trigger] ts[i] == Some(t)),
    decreases ts.len(),
{
    if ts.len() > 0 {
        let rest = ts.drop_last();
        lemma_completion_is_latest(rest);
        let n = ts.len() - 1;
        assert forall|i: int| 0 <= i < rest.len() implies rest[i] == #[trigger] ts[i] by {}
        if ts.len() > 1 && completion(rest) is Some && ts.last() is Some {
            let m = completion(rest)->0;
            let w = choose|i: int| 0 <= i < rest.len() && #[trigger] rest[i] == Some(m);
            assert(ts[w] == Some(m));
            assert(ts[n] == ts.last());
        }
        if ts.len() > 1 && completion(rest) is None && ts.last() is Some {
            let w = choose|i: int| 0 <= i < rest.len() && !(#[trigger] rest[i] is Some);
            assert(ts[w] == rest[w]);
        }
        if ts.len() == 1 {
            assert(ts[0] == ts.last());
        }
        if ts.last() is None {
            assert(ts[n] == ts.last());
        }
    }
}

/// The times of a check's jobs are exactly those of the jobs linked to it.
pub proof fn lemma_job_times_cover(links: Seq<(u128, u128)>, jobs: Seq<Job>, c: u128)
    ensures
        forall|k: int|
            0 <= k < links.len() && #[trigger] links[k].0 == c ==> exists|i: int|
                0 <= i < job_times(links, jobs, c).len() && job_times(links, jobs, c)[i]
                    == jobs[links[k].1 as int].completed_at,
    decreases links.len(),
{
    if links.len() > 0 {
        let rest = links.drop_last();
        lemma_job_times_cover(rest, jobs, c);
        let ts = job_times(links, jobs, c);
        let rs = job_times(rest, jobs, c);
        let n = links.len() - 1;
        assert forall|k: int| 0 <= k < links.len() && #[trigger] links[k].0 == c implies exists|i: int|
            0 <= i < ts.len() && ts[i] == jobs[links[k].1 as int].completed_at by {
            if k < n {
                assert(rest[k] == links[k]);
                let i = choose|i: int| 0 <= i < rs.len() && rs[i] == jobs[rest[k].1 as int].completed_at;
                assert(ts[i] == rs[i]);
            } else {
                assert(ts[rs.len() as int] == jobs[links[k].1 as int].completed_at);
            }
        }
    }
}

/// The linked job that the `i`-th completion time of check `c` comes from.
proof fn lemma_job_time_origin(links: Seq<(u128, u128)>, jobs: Seq<Job>, c: u128, i: int) -> (k: int)
    requires
        0 <= i < job_times(links, jobs, c).len(),
    ensures
        0 <= k < links.len(),
        links[k].0 == c,
        job_times(links, jobs, c)[i] == jobs[links[k].1 as int].completed_at,
    decreases links.len(),
{
    let rest = links.drop_last();
    let rs = job_times(rest, jobs, c);
    if i < rs.len() {
        let k = lemma_job_time_origin(rest, jobs, c, i);
        assert(rest[k] == links[k]);
        k
    } else {
        (links.len() - 1) as int
    }
}

/// A check's completion time, when it has one, is the latest completion time of the jobs
/// linked to it, and every one of those jobs has completed.
pub proof fn lemma_check_completion(s: Store, c: u128)
    requires
        s.wf(),
    ensures
        completion(s.check_job_times(c)) matches Some(t) ==> {
            &&& forall|k: int|
                0 <= k < s.check_job_map@.len() && #[trigger] s.check_job_map@[k].0 == c
                    ==> (s.jobs@[s.check_job_map@[k].1 as int].completed_at matches Some(x) && x <= t)
            &&& exists|k: int|
                0 <= k < s.check_job_map@.len() && #[trigger] s.check_job_map@[k].0 == c
                    && s.jobs@[s.check_job_map@[k].1 as int].completed_at == Some(t)
        },
{
    let ts = s.check_job_times(c);
    lemma_completion_is_latest(ts);
    lemma_job_times_cover(s.check_job_map@, s.jobs@, c);
    if completion(ts) is Some {
        let t = completion(ts)->0;
        assert forall|k: int|
            0 <= k < s.check_job_map@.len() && #[trigger] s.check_job_map@[k].0 == c
                implies (s.jobs@[s.check_job_map@[k].1 as int].completed_at matches Some(x) && x <= t) by {
            let i = choose|i: int| 0 <= i < ts.len() && ts[i] == s.jobs@[s.check_job_map@[k].1 as int].completed_at;
            assert(ts[i] is Some);
        }
        let i = choose|i: int| 0 <= i < ts.len() && #[trigger] ts[i] == Some(t);
        let k = lemma_job_time_origin(s.check_job_map@, s.jobs@, c, i);
        assert(s.check_job_map@[k].0 == c);
    }
}

/// The flags recorded for entities that check `c` holds, in the order they were recorded.
pub open spec fn check_flags(flags: Seq<(u128, Flagkind)>, links: Seq<(u128, u128)>, c: u128) -> Seq<Flagkind>
    decreases flags.len(),
{
    if flags.len() == 0 {
        Seq::empty()
    } else {
        let rest = check_flags(flags.drop_last(), links, c);
        if links.contains((c, flags.last().0)) {
            rest.push(flags.last().1)
        } else {
            rest
        }
    }
}

impl Store {
    /// Whether check `check_id` holds entity `entity_id`.
    pub fn check_holds(&self, check_id: u128, entity_id: u128) -> (r: bool)
        ensures
            r == self.check_entity_map@.contains((check_id, entity_id)),
    {
        let mut i: usize = 0;
        while i < self.check_entity_map.len()
            invariant
                i <= self.check_entity_map@.len(),
                forall|k: int| 0 <= k < i ==> #[trigger] self.check_entity_map@[k] != (check_id, entity_id),
            decreases self.check_entity_map@.len() - i,
        {
            let (c, e) = self.check_entity_map[i];
            if c == check_id && e == entity_id {
                assert(self.check_entity_map@[i as int] == (check_id, entity_id));
                return true;
            }
            i = i + 1;
        }
        false
    }

    /// The flags recorded for the entities of check `check_id`, in recording order.
    pub fn get_flag_kinds_for_check(&self, check_id: u128) -> (r: Vec<Flagkind>)
        ensures
            r@ == check_flags(self.flags@, self.check_entity_map@, check_id),
    {
        let mut out: Vec<Flagkind> = Vec::new();
        let mut i: usize = 0;
        while i < self.flags.len()
            invariant
                i <= self.flags@.len(),
                out@ == check_flags(self.flags@.subrange(0, i as int), self.check_entity_map@, check_id),
            decreases self.flags@.len() - i,
        {
            assert(self.flags@.subrange(0, i + 1).drop_last() =~= self.flags@.subrange(0, i as int));
            let (e, k) = self.flags[i];
            if self.check_holds(check_id, e) {
                out.push(k);
            }
            i = i + 1;
        }
        assert(self.flags@.subrange(0, i as int) =~= self.flags@);
        out
    }
}

/// Each distinct flag of `flags` once, in order of first appearance.
pub fn distinct_flags(flags: &Vec<Flagkind>) -> (r: Vec<Flagkind>)
    ensures
        r@.no_duplicates(),
        forall|k: Flagkind| r@.contains(k) <==> flags@.contains(k),
{
    let mut out: Vec<Flagkind> = Vec::new();
    let mut i: usize = 0;
    while i < flags.len()
        invariant
            i <= flags@.len(),
            out@.no_duplicates(),
            forall|k: Flagkind| out@.contains(k) <==> flags@.subrange(0, i as int).contains(k),
        decreases flags@.len() - i,
    {
        let k = flags[i];
        let mut seen = false;
        let mut j: usize = 0;
        while j < out.len()
            invariant
                j <= out@.len(),
                seen <==> out@.subrange(0, j as int).contains(k),
            decreases out@.len() - j,
        {
            if out[j] == k {
                seen = true;
            }
            proof {
                let a = out@.subrange(0, j as int);
                let b = out@.subrange(0, j + 1);
                assert(b =~= a.push(out@[j as int]));
                if b.contains(k) {
                    let w = choose|w: int| 0 <= w < b.len() && b[w] == k;
                    if w < a.len() {
                        assert(a[w] == k);
                    }
                }
                if a.contains(k) {
                    let w = choose|w: int| 0 <= w < a.len() && a[w] == k;
                    assert(b[w] == k);
                }
                if out@[j as int] == k {
                    assert(b[j as int] == k);
                }
            }
            j = j + 1;
        }
        assert(out@.subrange(0, j as int) =~= out@);
        let ghost before = out@;
        if !seen {
            out.push(k);
            proof {
                assert forall|a: int, b: int| 0 <= a < b < out@.len() implies out@[a] != out@[b] by {
                    if b == out@.len() - 1 {
                        assert(before.contains(out@[a]));
                    } else {
                        assert(before[a] != before[b]);
                    }
                }
            }
        }
        proof {
            let pre = flags@.subrange(0, i as int);
            let next = flags@.subrange(0, i + 1);
            assert(next =~= pre.push(k));
            assert forall|x: Flagkind| out@.contains(x) <==> next.contains(x) by {
                if next.contains(x) {
                    let w = choose|w: int| 0 <= w < next.len() && next[w] == x;
                    if w < pre.len() {
                        assert(pre[w] == x);
                        assert(pre.contains(x));
                        assert(before.contains(x));
                        let v = choose|v: int| 0 <= v < before.len() && before[v] == x;
                        assert(out@[v] == x);
                    } else {
                        if !seen {
                            assert(out@[out@.len() - 1] == x);
                        }
                    }
                }
                if out@.contains(x) {
                    let v = choose|v: int| 0 <= v < out@.len() && out@[v] == x;
                    if v < before.len() {
                        assert(before[v] == x);
                        assert(before.contains(x));
                        let w = choose|w: int| 0 <= w < pre.len() && pre[w] == x;
                        assert(next[w] == x);
                    } else {
                        assert(next[i as int] == x);
                    }
                }
            }
        }
        i = i + 1;
    }
    assert(flags@.subrange(0, i as int) =~= flags@);
    out
}

/// The latest time a snapshot of entity `e` was received, if any.
pub open spec fn last_snapshot(snapshots: Seq<Snapshot>, e: u128) -> Option<i64>
    decreases snapshots.len(),
{
    if snapshots.len() == 0 {
        None
    } else {
        let rest = last_snapshot(snapshots.drop_last(), e);
        let s = snapshots.last();
        if s.entity_id == e {
            match rest {
                Some(t) => Some(if s.recieved_at > t { s.recieved_at } else { t }),
                None => Some(s.recieved_at),
            }
        } else {
            rest
        }
    }
}

impl Store {
    /// Every monitored entity, in creation order.
    pub fn get_monitored_entities(&self) -> (r: Vec<MonitoredEntity>)
        ensures
            r@ == self.monitored_entities@,
    {
        let mut out: Vec<MonitoredEntity> = Vec::new();
        let mut i: usize = 0;
        while i < self.monitored_entities.len()
            invariant
                i <= self.monitored_entities@.len(),
                out@ == self.monitored_entities@.subrange(0, i as int),
            decreases self.monitored_entities@.len() - i,
        {
            let m = &self.monitored_entities[i];
            out.push(MonitoredEntity {
                id: m.id,
                company_house_id: m.company_house_id.clone(),
                monitoring_span_id: m.monitoring_span_id,
            });
            assert(out@ =~= self.monitored_entities@.subrange(0, i + 1));
            i = i + 1;
        }
        assert(self.monitored_entities@.subrange(0, i as int) =~= self.monitored_entities@);
        out
    }

    /// The monitoring span with id `id`.
    pub fn get_monitoring_span(&self, id: u128) -> (r: Result<MonitoringSpan, StoreError>)
        ensures
            r is Ok <==> id < self.monitoring_spans@.len(),
            r matches Ok(s) ==> s == self.monitoring_spans@[id as int],
            r is Err ==> r == Err::<MonitoringSpan, StoreError>(StoreError::NotFound),
    {
        if id >= self.monitoring_spans.len() as u128 {
            return Err(StoreError::NotFound);
        }
        Ok(self.monitoring_spans[id as usize])
    }

    /// When the latest snapshot of entity `entity_id` was received, if ever.
    pub fn get_last_update(&self, entity_id: u128) -> (r: Option<i64>)
        ensures
            r == last_snapshot(self.snapshots@, entity_id),
    {
        let mut acc: Option<i64> = None;
        let mut i: usize = 0;
        while i < self.snapshots.len()
            invariant
                i <= self.snapshots@.len(),
                acc == last_snapshot(self.snapshots@.subrange(0, i as int), entity_id),
            decreases self.snapshots@.len() - i,
        {
            assert(self.snapshots@.subrange(0, i + 1).drop_last() =~= self.snapshots@.subrange(0, i as int));
            let s = self.snapshots[i];
            if s.entity_id == entity_id {
                acc = match acc {
                    Some(t) => Some(if s.recieved_at > t { s.recieved_at } else { t }),
                    None => Some(s.recieved_at),
                };
            }
            i = i + 1;
        }
        assert(self.snapshots@.subrange(0, i as int) =~= self.snapshots@);
        acc
    }

    /// The first check that monitors monitored entity `monitored_entity_id`.
    pub fn get_check_id(&self, monitored_entity_id: u128) -> (r: Result<u128, StoreError>)
        ensures
            r is Ok <==> exists|k: int|
                0 <= k < self.check_monitored_entity@.len() && #[trigger] self.check_monitored_entity@[k].1
                    == monitored_entity_id,
            r matches Ok(c) ==> exists|k: int|
                0 <= k < self.check_monitored_entity@.len() && #[trigger] self.check_monitored_entity@[k]
                    == (c, monitored_entity_id) && forall|j: int|
                    0 <= j < k ==> (#[trigger] self.check_monitored_entity@[j]).1 != monitored_entity_id,
            r is Err ==> r == Err::<u128, StoreError>(StoreError::NotFound),
    {
        let mut i: usize = 0;
        while i < self.check_monitored_entity.len()
            invariant
                i <= self.check_monitored_entity@.len(),
                forall|j: int| 0 <= j < i ==> (#[trigger] self.check_monitored_entity@[j]).1 != monitored_entity_id,
            decreases self.check_monitored_entity@.len() - i,
        {
            let (c, m) = self.check_monitored_entity[i];
            if m == monitored_entity_id {
                assert(self.check_monitored_entity@[i as int] == (c, monitored_entity_id));
                return Ok(c);
            }
            i = i + 1;
        }
        Err(StoreError::NotFound)
    }
}

} // verus!
