//! Relation jobs: one step of the ownership-graph expansion.
use vstd::prelude::*;

use crate::bus::{Enqueued, Producer};
use crate::jobs::risk_jobs::{LocalRiskJob, LocalRiskJobKind, RiskJob, RiskJobScope};
use crate::jobs::{Job, JobKind};
use crate::models::{Entity, EntityRelation, Entitykind, Relationship, Relationshipkind};
use crate::store::{
    count_links, grows, lemma_grows_keeps, lemma_grows_trans, same_annotations, same_monitoring, Store,
};
use crate::text::clone_opt_string;

verus! {

/// Which relations of an entity a job fetches.
#[derive(Debug, Clone, Copy, PartialEq, Eq, Structural)]
pub enum RelationJobKind {
    Shareholders,
    Officers,
    Appointments,
}

/// Fetch the relations of kind `relation_job_kind` of entity `child_id` in check `check_id`,
/// and expand at most `remaining_depth` further levels from them.
#[derive(Debug, Clone)]
pub struct RelationJob {
    pub child_id: u128,
    pub check_id: u128,
    pub company_house_number: String,
    pub officer_id: Option<String>,
    pub remaining_depth: usize,
    pub relation_job_kind: RelationJobKind,
}

/// The relation jobs that expanding `entity`, held under id `entity_id`, schedules from a
/// job with `depth` levels left: none at depth 0; shareholders then officers for a company;
/// appointments for an individual.
pub open spec fn spec_further_relation_jobs(
    check_id: u128,
    depth: usize,
    entity_id: u128,
    entity: Entity,
) -> Seq<RelationJob> {
    let job = |kind: RelationJobKind|
        RelationJob {
            child_id: entity_id,
            check_id,
            company_house_number: entity.company_house_number,
            officer_id: entity.officer_id,
            remaining_depth: (depth - 1) as usize,
            relation_job_kind: kind,
        };
    if depth == 0 {
        Seq::empty()
    } else {
        match entity.kind {
            Entitykind::Company => seq![job(RelationJobKind::Shareholders), job(RelationJobKind::Officers)],
            Entitykind::Individual => seq![job(RelationJobKind::Appointments)],
        }
    }
}

/// The risk job that expanding an entity schedules: a flags job for an individual.
pub open spec fn spec_further_risk_job(entity_id: u128, entity: Entity) -> Option<RiskJob> {
    match entity.kind {
        Entitykind::Individual => Some(
            RiskJob {
                scope: RiskJobScope::Local(
                    LocalRiskJob { entity_id, kind: LocalRiskJobKind::Flags },
                ),
            },
        ),
        Entitykind::Company => None,
    }
}

/// Whether `next` is a job that `prev` schedules for some entity it finds.
pub open spec fn schedules(prev: RelationJob, next: RelationJob) -> bool {
    exists|entity_id: u128, entity: Entity|
        #[trigger] spec_further_relation_jobs(prev.check_id, prev.remaining_depth, entity_id, entity).contains(
            next,
        )
}

impl RelationJob {
    fn further_job(&self, entity_id: u128, entity: &Entity, kind: RelationJobKind) -> (r: RelationJob)
        requires
            self.remaining_depth > 0,
        ensures
            r == (RelationJob {
                child_id: entity_id,
                check_id: self.check_id,
                company_house_number: entity.company_house_number,
                officer_id: entity.officer_id,
                remaining_depth: (self.remaining_depth - 1) as usize,
                relation_job_kind: kind,
            }),
    {
        RelationJob {
            child_id: entity_id,
            check_id: self.check_id,
            company_house_number: entity.company_house_number.clone(),
            officer_id: clone_opt_string(&entity.officer_id),
            remaining_depth: self.remaining_depth - 1,
            relation_job_kind: kind,
        }
    }

    /// The relation jobs to schedule after finding `entity`, held under id `entity_id`.
    pub fn further_relation_jobs(&self, entity_id: u128, entity: &Entity) -> (r: Vec<RelationJob>)
        ensures
            r@ == spec_further_relation_jobs(self.check_id, self.remaining_depth, entity_id, *entity),
    {
        let mut out: Vec<RelationJob> = Vec::new();
        if self.remaining_depth > 0 {
            match entity.kind {
                Entitykind::Company => {
                    out.push(self.further_job(entity_id, entity, RelationJobKind::Shareholders));
                    out.push(self.further_job(entity_id, entity, RelationJobKind::Officers));
                },
                Entitykind::Individual => {
                    out.push(self.further_job(entity_id, entity, RelationJobKind::Appointments));
                },
            }
        }
        proof {
            let s = spec_further_relation_jobs(self.check_id, self.remaining_depth, entity_id, *entity);
            assert(out@ =~= s);
        }
        out
    }

    /// The risk job to schedule after finding `entity`, held under id `entity_id`.
    pub fn further_risk_job(&self, entity_id: u128, entity: &Entity) -> (r: Option<RiskJob>)
        ensures
            r == spec_further_risk_job(entity_id, *entity),
    {
        match entity.kind {
            Entitykind::Individual => Some(
                RiskJob {
                    scope: RiskJobScope::Local(
                        LocalRiskJob { entity_id, kind: LocalRiskJobKind::Flags },
                    ),
                },
            ),
            Entitykind::Company => None,
        }
    }
}

/// Every job a relation job schedules has one level less left, and a job with no level
/// left schedules nothing.
pub proof fn lemma_schedules_descends(prev: RelationJob, next: RelationJob)
    requires
        schedules(prev, next),
    ensures
        prev.remaining_depth > 0,
        next.remaining_depth == prev.remaining_depth - 1,
        next.check_id == prev.check_id,
{
    let (entity_id, entity) = choose|entity_id: u128, entity: Entity|
        #[trigger] spec_further_relation_jobs(prev.check_id, prev.remaining_depth, entity_id, entity).contains(
            next,
        );
    let s = spec_further_relation_jobs(prev.check_id, prev.remaining_depth, entity_id, entity);
    let k = choose|k: int| 0 <= k < s.len() && s[k] == next;
}

/// Depth bounds the expansion whatever the graph's cycles: in any chain of relation jobs,
/// each scheduled by the one before, the jobs after the first number at most the first's
/// remaining depth, and the last has that many levels fewer.
pub proof fn lemma_chain_bounded_by_depth(chain: Seq<RelationJob>)
    requires
        chain.len() > 0,
        forall|i: int| 0 <= i < chain.len() - 1 ==> schedules(#[trigger] chain[i], chain[i + 1]),
    ensures
        chain.len() - 1 <= chain[0].remaining_depth,
        chain.last().remaining_depth == chain[0].remaining_depth - (chain.len() - 1),
    decreases chain.len(),
{
    if chain.len() > 1 {
        let prefix = chain.drop_last();
        assert forall|i: int| 0 <= i < prefix.len() - 1 implies schedules(#[trigger] prefix[i], prefix[i + 1]) by {
            assert(prefix[i] == chain[i]);
            assert(prefix[i + 1] == chain[i + 1]);
            assert(schedules(chain[i], chain[i + 1]));
        }
        lemma_chain_bounded_by_depth(prefix);
        let n = chain.len() - 1;
        assert(schedules(chain[n - 1], chain[n]));
        lemma_schedules_descends(chain[n - 1], chain[n]);
    }
}

/// The kind of edge a relation job records.
pub open spec fn spec_edge_kind(kind: RelationJobKind) -> Relationshipkind {
    match kind {
        RelationJobKind::Shareholders => Relationshipkind::Shareholder,
        RelationJobKind::Officers => Relationshipkind::Officer,
        RelationJobKind::Appointments => Relationshipkind::Officer,
    }
}

/// The edge a relation job records between its entity `child_id` and a found entity `found`:
/// the found entity is the parent, except for appointments, where the job's entity is.
pub open spec fn spec_edge(job: RelationJob, found: u128, rel: EntityRelation) -> Relationship {
    let reverse = job.relation_job_kind == RelationJobKind::Appointments;
    Relationship {
        parent_id: if reverse { job.child_id } else { found },
        child_id: if reverse { found } else { job.child_id },
        kind: spec_edge_kind(job.relation_job_kind),
        started_on: rel.started_on,
        ended_on: rel.ended_on,
    }
}

/// Whether store `s` holds what `job` records for a found entity `rel`: the check's entity
/// for its registry number, and the edge between that entity and the job's entity.
pub open spec fn recorded(s: Store, job: RelationJob, rel: EntityRelation) -> bool {
    &&& s.entity_in_check(job.check_id, rel.entity.company_house_number@) is Some
    &&& {
        let e = spec_edge(job, s.entity_in_check(job.check_id, rel.entity.company_house_number@)->0, rel);
        s.has_pair(e.parent_id, e.child_id)
    }
}

/// The enqueue requests that finding `rel`, held under id `found`, makes: its relation jobs
/// in order, then its flags job; each tagged `true` when it goes to the risk producer.
pub open spec fn record_requests(job: RelationJob, found: u128, rel: EntityRelation) -> Seq<(bool, JobKind)> {
    spec_further_relation_jobs(job.check_id, job.remaining_depth, found, rel.entity).map_values(
        |j: RelationJob| (false, JobKind::RelationJob(j)),
    ) + match spec_further_risk_job(found, rel.entity) {
        Some(r) => seq![(true, JobKind::RiskJob(r))],
        None => Seq::empty(),
    }
}

/// The id of the entity that check of `job` holds in `s` under the registry number of `rel`.
pub open spec fn found_in(s: Store, job: RelationJob, rel: EntityRelation) -> u128 {
    s.entity_in_check(job.check_id, rel.entity.company_house_number@)->0
}

/// The enqueue requests of all found entities, in order, each for the check's entity that
/// `s` holds under its number.
pub open spec fn all_requests(job: RelationJob, s: Store, recs: Seq<EntityRelation>) -> Seq<(bool, JobKind)>
    decreases recs.len(),
{
    if recs.len() == 0 {
        Seq::empty()
    } else {
        all_requests(job, s, recs.drop_last()) + record_requests(job, found_in(s, job, recs.last()), recs.last())
    }
}

/// The job kinds of the requests bound for the risk producer (`risk`) or the relation one.
pub open spec fn kinds_for(reqs: Seq<(bool, JobKind)>, risk: bool) -> Seq<JobKind>
    decreases reqs.len(),
{
    if reqs.len() == 0 {
        Seq::empty()
    } else {
        let rest = kinds_for(reqs.drop_last(), risk);
        if reqs.last().0 == risk {
            rest.push(reqs.last().1)
        } else {
            rest
        }
    }
}

/// The job kinds of the messages of `outbox` from position `from` on.
pub open spec fn outbox_kinds(outbox: Seq<Job>, from: int) -> Seq<JobKind> {
    outbox.subrange(from, outbox.len() as int).map_values(|m: Job| m.job_kind)
}

/// After the requests `reqs`, of which the first `p` were produced, from `n0` jobs of the
/// check under a shared `cap`: the producers got exactly those `p`, the check counts
/// `n0 + p` jobs, a request was refused only at the cap, and the cap was never passed.
pub open spec fn progress(
    reqs: Seq<(bool, JobKind)>,
    p: int,
    n0: nat,
    cap: Option<usize>,
    count: nat,
    relk: Seq<JobKind>,
    riskk: Seq<JobKind>,
) -> bool {
    &&& 0 <= p <= reqs.len()
    &&& relk == kinds_for(reqs.take(p), false)
    &&& riskk == kinds_for(reqs.take(p), true)
    &&& count == n0 + p
    &&& (p < reqs.len() ==> cap is Some && count >= cap->0)
    &&& (cap is Some && n0 <= cap->0 ==> count <= cap->0)
}

/// Whether relationship `r` is the edge that `job` records for one of the first `n` found
/// entities.
pub open spec fn edge_from(s: Store, job: RelationJob, recs: Seq<EntityRelation>, n: int, r: Relationship) -> bool {
    exists|k: int| 0 <= k < n && r == spec_edge(job, found_in(s, job, recs[k]), #[trigger] recs[k])
}

/// One more request: refused at the cap, produced below it.
proof fn lemma_request_step(
    reqs: Seq<(bool, JobKind)>,
    p: int,
    n0: nat,
    cap: Option<usize>,
    count: nat,
    relk: Seq<JobKind>,
    riskk: Seq<JobKind>,
    a: (bool, JobKind),
)
    requires
        progress(reqs, p, n0, cap, count, relk, riskk),
    ensures
        (cap is Some && count >= cap->0) ==> progress(reqs.push(a), p, n0, cap, count, relk, riskk),
        !(cap is Some && count >= cap->0) ==> p == reqs.len() && progress(
            reqs.push(a),
            p + 1,
            n0,
            cap,
            count + 1,
            if a.0 { relk } else { relk.push(a.1) },
            if a.0 { riskk.push(a.1) } else { riskk },
        ),
{
    let next = reqs.push(a);
    if cap is Some && count >= cap->0 {
        assert(next.take(p) =~= reqs.take(p));
    } else {
        assert(p == reqs.len());
        assert(reqs.take(p) =~= reqs);
        assert(next.take(p + 1) =~= next);
        assert(next.drop_last() =~= reqs);
    }
}

/// A message added to an outbox adds its kind.
proof fn lemma_outbox_push(o: Seq<Job>, from: int, m: Job)
    requires
        0 <= from <= o.len(),
    ensures
        outbox_kinds(o.push(m), from) == outbox_kinds(o, from).push(m.job_kind),
{
    assert(outbox_kinds(o.push(m), from) =~= outbox_kinds(o, from).push(m.job_kind));
}

/// A link to check `c` adds one to its count.
proof fn lemma_count_push(links: Seq<(u128, u128)>, c: u128, id: u128)
    ensures
        count_links(links.push((c, id)), c) == count_links(links, c) + 1,
{
    assert(links.push((c, id)).drop_last() =~= links);
}

/// The requests of entities a store already holds do not change as it grows.
proof fn lemma_requests_stable(job: RelationJob, s1: Store, s2: Store, recs: Seq<EntityRelation>)
    requires
        s1.wf(),
        s2.wf(),
        grows(s1, s2),
        forall|k: int| 0 <= k < recs.len() ==> recorded(s1, job, #[trigger] recs[k]),
    ensures
        all_requests(job, s1, recs) == all_requests(job, s2, recs),
    decreases recs.len(),
{
    if recs.len() > 0 {
        let prefix = recs.drop_last();
        assert forall|k: int| 0 <= k < prefix.len() implies recorded(s1, job, #[trigger] prefix[k]) by {
            assert(prefix[k] == recs[k]);
        }
        lemma_requests_stable(job, s1, s2, prefix);
        assert(recorded(s1, job, recs[recs.len() - 1]));
        lemma_grows_keeps(s1, s2, job.check_id, recs.last().entity.company_house_number@, 0, 0);
    }
}

impl RelationJob {
    /// The kind of edge this job records.
    pub fn edge_kind(&self) -> (r: Relationshipkind)
        ensures
            r == spec_edge_kind(self.relation_job_kind),
    {
        match self.relation_job_kind {
            RelationJobKind::Shareholders => Relationshipkind::Shareholder,
            RelationJobKind::Officers => Relationshipkind::Officer,
            RelationJobKind::Appointments => Relationshipkind::Officer,
        }
    }

    /// Records what the registry returned for this job and schedules the expansion.
    ///
    /// For each found entity, in order: the check's entity for its registry number (inserted
    /// if the check holds none), the edge between it and this job's entity (a duplicate edge
    /// is skipped, and the expansion goes on), then the jobs that `further_relation_jobs`
    /// and `further_risk_job` give, on the relation and the risk producer. The two producers
    /// share one cap on the jobs of a check: requests are produced in order until the check
    /// reaches it, and none after.
    #[verifier::rlimit(100)]
    pub fn do_job(
        &self,
        entity_relations: &Vec<EntityRelation>,
        store: &mut Store,
        relation_producer: &mut Producer,
        risk_producer: &mut Producer,
        now: i64,
    )
        requires
            old(store).wf(),
            self.check_id < old(store).checks@.len(),
            old(relation_producer).max_jobs_per_check == old(risk_producer).max_jobs_per_check,
        ensures
            final(store).wf(),
            forall|k: int|
                0 <= k < entity_relations@.len() ==> recorded(*final(store), *self, #[trigger] entity_relations@[k]),
            forall|m: int|
                old(store).relationships@.len() <= m < final(store).relationships@.len() ==> edge_from(
                    *final(store),
                    *self,
                    entity_relations@,
                    entity_relations@.len() as int,
                    #[trigger] final(store).relationships@[m],
                ),
            (forall|k: int|
                0 <= k < entity_relations@.len() ==> recorded(*old(store), *self, #[trigger] entity_relations@[k]))
                ==> {
                &&& final(store).entities@ == old(store).entities@
                &&& final(store).check_entity_map@ == old(store).check_entity_map@
                &&& final(store).relationships@ == old(store).relationships@
            },
            expansion_frame(*old(store), *final(store), *self),
            final(relation_producer).outbox@.subrange(0, old(relation_producer).outbox@.len() as int)
                == old(relation_producer).outbox@,
            final(risk_producer).outbox@.subrange(0, old(risk_producer).outbox@.len() as int)
                == old(risk_producer).outbox@,
            progress(
                all_requests(*self, *final(store), entity_relations@),
                (final(relation_producer).outbox@.len() - old(relation_producer).outbox@.len())
                    + (final(risk_producer).outbox@.len() - old(risk_producer).outbox@.len()),
                count_links(old(store).check_job_map@, self.check_id),
                old(relation_producer).max_jobs_per_check,
                count_links(final(store).check_job_map@, self.check_id),
                outbox_kinds(final(relation_producer).outbox@, old(relation_producer).outbox@.len() as int),
                outbox_kinds(final(risk_producer).outbox@, old(risk_producer).outbox@.len() as int),
            ),
            final(relation_producer).max_jobs_per_check == old(relation_producer).max_jobs_per_check,
            final(risk_producer).max_jobs_per_check == old(risk_producer).max_jobs_per_check,
    {
        let ghost start = *store;
        let ghost rel_start = relation_producer.outbox@;
        let ghost risk_start = risk_producer.outbox@;
        let ghost cap = relation_producer.max_jobs_per_check;
        let ghost n0 = count_links(store.check_job_map@, self.check_id);
        let ghost mut reqs: Seq<(bool, JobKind)> = Seq::empty();
        let ghost mut p: int = 0;
        proof {
            assert(reqs.take(0) =~= Seq::<(bool, JobKind)>::empty());
            assert(outbox_kinds(rel_start, rel_start.len() as int) =~= Seq::<JobKind>::empty());
            assert(outbox_kinds(risk_start, risk_start.len() as int) =~= Seq::<JobKind>::empty());
            assert(entity_relations@.subrange(0, 0) =~= Seq::<EntityRelation>::empty());
        }
        let reverse = self.relation_job_kind == RelationJobKind::Appointments;
        let kind = self.edge_kind();
        let mut i: usize = 0;
        while i < entity_relations.len()
            invariant
                store.wf(),
                start.wf(),
                grows(start, *store),
                self.check_id < store.checks@.len(),
                reverse == (self.relation_job_kind == RelationJobKind::Appointments),
                kind == spec_edge_kind(self.relation_job_kind),
                i <= entity_relations@.len(),
                forall|k: int| 0 <= k < i ==> recorded(*store, *self, #[trigger] entity_relations@[k]),
                forall|m: int|
                    start.relationships@.len() <= m < store.relationships@.len() ==> edge_from(
                        *store,
                        *self,
                        entity_relations@,
                        i as int,
                        #[trigger] store.relationships@[m],
                    ),
                (forall|k: int|
                    0 <= k < entity_relations@.len() ==> recorded(start, *self, #[trigger] entity_relations@[k]))
                    ==> {
                    &&& store.entities@ == start.entities@
                    &&& store.check_entity_map@ == start.check_entity_map@
                    &&& store.relationships@ == start.relationships@
                },
                expansion_frame(start, *store, *self),
                rel_start == old(relation_producer).outbox@,
                risk_start == old(risk_producer).outbox@,
                cap == old(relation_producer).max_jobs_per_check,
                n0 == count_links(start.check_job_map@, self.check_id),
                relation_producer.outbox@.len() >= rel_start.len(),
                relation_producer.outbox@.subrange(0, rel_start.len() as int) == rel_start,
                risk_producer.outbox@.len() >= risk_start.len(),
                risk_producer.outbox@.subrange(0, risk_start.len() as int) == risk_start,
                relation_producer.max_jobs_per_check == cap,
                risk_producer.max_jobs_per_check == cap,
                reqs == all_requests(*self, *store, entity_relations@.subrange(0, i as int)),
                p == (relation_producer.outbox@.len() - rel_start.len()) + (risk_producer.outbox@.len() - risk_start.len()),
                progress(
                    reqs,
                    p,
                    n0,
                    cap,
                    count_links(store.check_job_map@, self.check_id),
                    outbox_kinds(relation_producer.outbox@, rel_start.len() as int),
                    outbox_kinds(risk_producer.outbox@, risk_start.len() as int),
                ),
            decreases entity_relations@.len() - i,
        {
            let ghost before = *store;
            let rel = &entity_relations[i];
            let ghost all_present = forall|k: int|
                0 <= k < entity_relations@.len() ==> recorded(start, *self, #[trigger] entity_relations@[k]);
            proof {
                if all_present {
                    assert(recorded(start, *self, entity_relations@[i as int]));
                    assert(before.entity_in_check(self.check_id, rel.entity.company_house_number@)
                        == start.entity_in_check(self.check_id, rel.entity.company_house_number@));
                }
            }
            let found = store.insert_entity(&rel.entity, self.check_id);
            let relationship = if reverse {
                Relationship {
                    parent_id: self.child_id,
                    child_id: found,
                    kind,
                    started_on: rel.started_on,
                    ended_on: rel.ended_on,
                }
            } else {
                Relationship {
                    parent_id: found,
                    child_id: self.child_id,
                    kind,
                    started_on: rel.started_on,
                    ended_on: rel.ended_on,
                }
            };
            let ghost after_entity = *store;
            let _ = store.insert_relationship(relationship);
            let ghost after_edge = *store;
            proof {
                if all_present {
                    assert(relationship == spec_edge(*self, found, *rel));
                    assert(after_entity.relationships@ == start.relationships@);
                    assert(start.has_pair(relationship.parent_id, relationship.child_id));
                    assert(after_entity.has_pair(relationship.parent_id, relationship.child_id));
                    assert(after_edge.relationships@ == start.relationships@);
                }
                assert(grows(before, after_entity));
                assert(grows(after_entity, after_edge)) by {
                    assert forall|m: int| 0 <= m < after_entity.relationships@.len() implies
                        #[trigger] after_edge.relationships@[m] == after_entity.relationships@[m] by {}
                }
                if !after_entity.has_pair(relationship.parent_id, relationship.child_id) {
                    let n = after_entity.relationships@.len() as int;
                    assert(after_edge.relationships@[n] == relationship);
                    assert(after_edge.relationships@[n].parent_id == relationship.parent_id);
                }
                assert(after_edge.has_pair(relationship.parent_id, relationship.child_id));
                assert(expansion_frame(before, after_entity, *self));
                assert(expansion_frame(after_entity, after_edge, *self)) by {
                    assert forall|k: int| after_entity.relationships@.len() <= k < after_edge.relationships@.len()
                        implies ((#[trigger] after_edge.relationships@[k]).parent_id == self.child_id
                        || after_edge.relationships@[k].child_id == self.child_id) by {
                        assert(after_edge.relationships@[k] == relationship);
                    }
                }
                lemma_frame_trans(before, after_entity, after_edge, *self);
                lemma_grows_trans(before, after_entity, after_edge);
                assert(count_links(after_edge.check_job_map@, self.check_id) == count_links(before.check_job_map@, self.check_id));
            }
            let ghost rr = record_requests(*self, found, *rel);
            let ghost base = reqs;
            let mut further = self.further_relation_jobs(found, &rel.entity);
            let ghost all_further = further@;
            let ghost mut n_done: int = 0;
            proof {
                assert(base + rr.take(0) =~= base);
            }
            while further.len() > 0
                invariant
                    store.wf(),
                    grows(after_edge, *store),
                    same_graph_for_loop(after_edge, *store),
                    after_edge.checks@ == store.checks@,
                    same_annotations(after_edge, *store),
                    same_monitoring(after_edge, *store),
                    self.check_id < store.checks@.len(),
                    n_done + further@.len() == all_further.len(),
                    0 <= n_done,
                    further@ == all_further.subrange(n_done, all_further.len() as int),
                    all_further == spec_further_relation_jobs(self.check_id, self.remaining_depth, found, rel.entity),
                    rr == record_requests(*self, found, *rel),
                    reqs == base + rr.take(n_done),
                    relation_producer.outbox@.len() >= rel_start.len(),
                    relation_producer.outbox@.subrange(0, rel_start.len() as int) == rel_start,
                    risk_producer.outbox@.len() >= risk_start.len(),
                    risk_producer.outbox@.subrange(0, risk_start.len() as int) == risk_start,
                    relation_producer.max_jobs_per_check == cap,
                    risk_producer.max_jobs_per_check == cap,
                    p == (relation_producer.outbox@.len() - rel_start.len()) + (risk_producer.outbox@.len() - risk_start.len()),
                    progress(
                        reqs,
                        p,
                        n0,
                        cap,
                        count_links(store.check_job_map@, self.check_id),
                        outbox_kinds(relation_producer.outbox@, rel_start.len() as int),
                        outbox_kinds(risk_producer.outbox@, risk_start.len() as int),
                    ),
                decreases further@.len(),
            {
                let j = further.remove(0);
                let ghost a = (false, JobKind::RelationJob(j));
                let ghost prev_reqs = reqs;
                proof {
                    assert(all_further[n_done] == j);
                    assert(rr[n_done] == a);
                    assert(base + rr.take(n_done + 1) =~= prev_reqs.push(a));
                    lemma_request_step(
                        prev_reqs,
                        p,
                        n0,
                        cap,
                        count_links(store.check_job_map@, self.check_id),
                        outbox_kinds(relation_producer.outbox@, rel_start.len() as int),
                        outbox_kinds(risk_producer.outbox@, risk_start.len() as int),
                        a,
                    );
                    reqs = prev_reqs.push(a);
                    n_done = n_done + 1;
                }
                let ghost ob = relation_producer.outbox@;
                let ghost links = store.check_job_map@;
                let r = relation_producer.enqueue_job(store, Some(self.check_id), JobKind::RelationJob(j), now);
                proof {
                    assert(relation_producer.outbox@.subrange(0, rel_start.len() as int) =~= ob.subrange(0, rel_start.len() as int));
                    if let Enqueued::Produced(id) = r {
                        lemma_outbox_push(ob, rel_start.len() as int, Job { id, job_kind: JobKind::RelationJob(j) });
                        lemma_count_push(links, self.check_id, id);
                        p = p + 1;
                    }
                }
            }
            proof {
                assert(n_done == all_further.len());
            }
            match self.further_risk_job(found, &rel.entity) {
                Some(risk_job) => {
                    let ghost a = (true, JobKind::RiskJob(risk_job));
                    let ghost prev_reqs = reqs;
                    proof {
                        assert(rr.len() == n_done + 1);
                        assert(rr[n_done] == a);
                        assert(base + rr =~= prev_reqs.push(a));
                        lemma_request_step(
                            prev_reqs,
                            p,
                            n0,
                            cap,
                            count_links(store.check_job_map@, self.check_id),
                            outbox_kinds(relation_producer.outbox@, rel_start.len() as int),
                            outbox_kinds(risk_producer.outbox@, risk_start.len() as int),
                            a,
                        );
                        reqs = prev_reqs.push(a);
                    }
                    let ghost ob = risk_producer.outbox@;
                    let ghost links = store.check_job_map@;
                    let r = risk_producer.enqueue_job(store, Some(self.check_id), JobKind::RiskJob(risk_job), now);
                    proof {
                        assert(risk_producer.outbox@.subrange(0, risk_start.len() as int) =~= ob.subrange(0, risk_start.len() as int));
                        if let Enqueued::Produced(id) = r {
                            lemma_outbox_push(ob, risk_start.len() as int, Job { id, job_kind: JobKind::RiskJob(risk_job) });
                            lemma_count_push(links, self.check_id, id);
                            p = p + 1;
                        }
                    }
                },
                None => {
                    proof {
                        assert(rr.len() == n_done);
                        assert(base + rr =~= reqs);
                    }
                },
            }
            proof {
                let now_store = *store;
                assert(reqs == base + rr);
                assert(expansion_frame(after_edge, now_store, *self));
                lemma_frame_trans(before, after_edge, now_store, *self);
                lemma_frame_trans(start, before, now_store, *self);
                lemma_grows_trans(after_entity, after_edge, now_store);
                lemma_grows_trans(before, after_entity, now_store);
                lemma_grows_trans(start, before, now_store);
                assert(after_entity.entity_in_check(self.check_id, rel.entity.company_house_number@) == Some(found));
                lemma_grows_keeps(after_entity, now_store, self.check_id, rel.entity.company_house_number@, 0, 0);
                lemma_grows_keeps(after_edge, now_store, self.check_id, rel.entity.company_house_number@, relationship.parent_id, relationship.child_id);
                assert(relationship == spec_edge(*self, found, *rel));
                assert(found_in(now_store, *self, *rel) == found);
                assert forall|k: int| 0 <= k < i + 1 implies recorded(now_store, *self, #[trigger] entity_relations@[k]) by {
                    if k < i {
                        let r2 = entity_relations@[k];
                        let e = spec_edge(*self, before.entity_in_check(self.check_id, r2.entity.company_house_number@)->0, r2);
                        lemma_grows_keeps(before, now_store, self.check_id, r2.entity.company_house_number@, e.parent_id, e.child_id);
                    }
                }
                let prefix = entity_relations@.subrange(0, i as int);
                let next = entity_relations@.subrange(0, i + 1);
                assert(next.drop_last() =~= prefix);
                assert forall|k: int| 0 <= k < prefix.len() implies recorded(before, *self, #[trigger] prefix[k]) by {
                    assert(prefix[k] == entity_relations@[k]);
                }
                lemma_requests_stable(*self, before, now_store, prefix);
                assert(next.last() == *rel);
                assert(reqs == all_requests(*self, now_store, next));
                assert forall|m: int|
                    start.relationships@.len() <= m < now_store.relationships@.len() implies edge_from(
                        now_store,
                        *self,
                        entity_relations@,
                        i + 1,
                        #[trigger] now_store.relationships@[m],
                    ) by {
                    if m < before.relationships@.len() {
                        assert(now_store.relationships@[m] == before.relationships@[m]);
                        assert(edge_from(before, *self, entity_relations@, i as int, before.relationships@[m]));
                        let k = choose|k: int| 0 <= k < i && before.relationships@[m] == spec_edge(
                            *self,
                            found_in(before, *self, entity_relations@[k]),
                            #[trigger] entity_relations@[k],
                        );
                        let r2 = entity_relations@[k];
                        lemma_grows_keeps(before, now_store, self.check_id, r2.entity.company_house_number@, 0, 0);
                        assert(found_in(now_store, *self, r2) == found_in(before, *self, r2));
                    } else {
                        assert(now_store.relationships@[m] == relationship);
                        assert(entity_relations@[i as int] == *rel);
                    }
                }
            }
            i = i + 1;
        }
        proof {
            assert(entity_relations@.subrange(0, i as int) =~= entity_relations@);
        }
    }
}

/// What expanding `job` may change between `a` and `b`: rows only ever added to the graph,
/// new links only to the job's check, new edges only at the job's entity; the checks,
/// annotations and monitoring tables untouched.
pub open spec fn expansion_frame(a: Store, b: Store, job: RelationJob) -> bool {
    &&& grows(a, b)
    &&& b.checks@ == a.checks@
    &&& same_annotations(a, b)
    &&& same_monitoring(a, b)
    &&& forall|k: int|
        a.check_entity_map@.len() <= k < b.check_entity_map@.len() ==> (#[trigger] b.check_entity_map@[k]).0
            == job.check_id
    &&& forall|k: int|
        a.relationships@.len() <= k < b.relationships@.len() ==> ((#[trigger] b.relationships@[k]).parent_id
            == job.child_id || b.relationships@[k].child_id == job.child_id)
}

/// Frames compose.
proof fn lemma_frame_trans(a: Store, b: Store, c: Store, job: RelationJob)
    requires
        expansion_frame(a, b, job),
        expansion_frame(b, c, job),
    ensures
        expansion_frame(a, c, job),
{
    lemma_grows_trans(a, b, c);
    assert forall|k: int| a.check_entity_map@.len() <= k < c.check_entity_map@.len() implies (#[trigger] c.check_entity_map@[k]).0
        == job.check_id by {
        if k < b.check_entity_map@.len() {
            assert(c.check_entity_map@[k] == b.check_entity_map@[k]);
        }
    }
    assert forall|k: int| a.relationships@.len() <= k < c.relationships@.len() implies ((#[trigger] c.relationships@[k]).parent_id
        == job.child_id || c.relationships@[k].child_id == job.child_id) by {
        if k < b.relationships@.len() {
            assert(c.relationships@[k] == b.relationships@[k]);
        }
    }
}

/// The enqueues of the expansion leave the graph tables alone.
pub open spec fn same_graph_for_loop(a: Store, b: Store) -> bool {
    &&& a.entities@ == b.entities@
    &&& a.check_entity_map@ == b.check_entity_map@
    &&& a.relationships@ == b.relationships@
}

} // verus!
