//! Checks as the front-end sees them: starting one (its root entity and first relation
//! jobs), listing them, and reporting what one found.
use vstd::prelude::*;

use crate::bus::Producer;
use crate::dates::Date;
use crate::flags::Flagkind;
use crate::jobs::relation_jobs::{RelationJob, RelationJobKind};
use crate::jobs::{Job, JobKind};
use crate::models::{spec_root_entity, Checkkind, Entity, Relationshipkind};
use crate::store::{
    check_entity_ids, check_flags, completion, distinct_flags, first_root,
    lemma_check_entity_ids_bounded, relations_of, values_for, Check, Store, StoreError,
};

verus! {

/// The deepest expansion a check may ask for.
pub const MAX_DEPTH: usize = 3;

/// Registry numbers are eight characters long.
pub const REGISTRY_NUMBER_WIDTH: usize = 8;

/// A registry number padded on the left with zeros to eight characters.
pub open spec fn padded_number(s: Seq<char>) -> Seq<char> {
    if s.len() >= REGISTRY_NUMBER_WIDTH {
        s
    } else {
        Seq::new((REGISTRY_NUMBER_WIDTH - s.len()) as nat, |i: int| '0') + s
    }
}

/// A registry number padded on the left with zeros to eight characters.
pub fn pad_number(s: &str) -> (r: String)
    ensures
        r@ == padded_number(s@),
{
    let n = s.unicode_len();
    let mut out = String::new();
    if n < REGISTRY_NUMBER_WIDTH {
        let mut k: usize = 0;
        while k < REGISTRY_NUMBER_WIDTH - n
            invariant
                n == s@.len(),
                n < REGISTRY_NUMBER_WIDTH,
                k <= REGISTRY_NUMBER_WIDTH - n,
                out@ == Seq::new(k as nat, |i: int| '0'),
            decreases REGISTRY_NUMBER_WIDTH - n - k,
        {
            proof {
                reveal_strlit("0");
            }
            out.append("0");
            assert(out@ =~= Seq::new((k + 1) as nat, |i: int| '0'));
            k = k + 1;
        }
    }
    out.append(s);
    proof {
        if n >= REGISTRY_NUMBER_WIDTH {
            assert(out@ =~= s@);
        }
    }
    out
}

/// The depth a check runs with: the asked depth, at most three.
pub open spec fn effective_depth(depth: usize) -> usize {
    if depth < MAX_DEPTH { depth } else { MAX_DEPTH }
}

/// Starts a relation check on `company_house_number` at `now`, expanding `depth` levels (at
/// most three): records the check and its root entity, under the number padded to eight
/// characters, and, for a depth above 0, enqueues the root's shareholders and officers jobs.
/// Returns the check's id.
pub fn start_check(
    store: &mut Store,
    producer: &mut Producer,
    company_house_number: &str,
    depth: usize,
    now: i64,
) -> (r: u128)
    requires
        old(store).wf(),
        old(producer).max_jobs_per_check is None,
    ensures
        final(store).wf(),
        r == old(store).checks@.len(),
        final(store).checks@.len() == old(store).checks@.len() + 1,
        final(store).checks@[r as int].kind == Checkkind::EntityRelation,
        final(store).checks@[r as int].started_at == now,
        final(store).entity_in_check(r, padded_number(company_house_number@)) == Some(
            old(store).entities@.len() as u128,
        ),
        final(store).entities@.len() == old(store).entities@.len() + 1,
        final(store).entities@.drop_last() == old(store).entities@,
        ({
            let root = final(store).entities@.last();
            &&& root == (Entity { id: old(store).entities@.len() as u128, ..spec_root_entity(root.company_house_number) })
            &&& root.company_house_number@ == padded_number(company_house_number@)
            &&& root.is_root
        }),
        final(store).check_entity_map@ == old(store).check_entity_map@.push(
            (r, old(store).entities@.len() as u128),
        ),
        ({
            let root_id = final(store).entity_in_check(r, padded_number(company_house_number@))->0;
            if effective_depth(depth) > 0 {
                &&& final(producer).outbox@.len() == old(producer).outbox@.len() + 2
                &&& final(producer).outbox@.subrange(0, old(producer).outbox@.len() as int) == old(producer).outbox@
                &&& initial_job(final(producer).outbox@[old(producer).outbox@.len() as int], r, root_id,
                    padded_number(company_house_number@), effective_depth(depth), RelationJobKind::Shareholders)
                &&& initial_job(final(producer).outbox@[old(producer).outbox@.len() as int + 1], r, root_id,
                    padded_number(company_house_number@), effective_depth(depth), RelationJobKind::Officers)
            } else {
                final(producer).outbox@ == old(producer).outbox@
            }
        }),
        final(store).relationships@ == old(store).relationships@,
{
    let number = pad_number(company_house_number);
    let check_id = store.insert_check(Checkkind::EntityRelation, now);
    let root = Entity::create_root(number.clone());
    proof {
        assert forall|i: int| 0 <= i < store.check_entity_map@.len() implies #[trigger] store.check_entity_map@[i].0
            != check_id by {
            assert(store.check_entity_map@[i] == old(store).check_entity_map@[i]);
        }
    }
    let root_id = store.insert_entity(&root, check_id);
    let ghost after_root = *store;
    proof {
        assert(after_root.entities@.drop_last() =~= old(store).entities@);
    }
    let ghost ob = producer.outbox@;
    let validated_depth = if depth < MAX_DEPTH { depth } else { MAX_DEPTH };
    if validated_depth > 0 {
        producer.enqueue_job(store, Some(check_id), JobKind::RelationJob(RelationJob {
            child_id: root_id,
            check_id,
            company_house_number: number.clone(),
            officer_id: None,
            remaining_depth: validated_depth,
            relation_job_kind: RelationJobKind::Shareholders,
        }), now);
        producer.enqueue_job(store, Some(check_id), JobKind::RelationJob(RelationJob {
            child_id: root_id,
            check_id,
            company_house_number: number,
            officer_id: None,
            remaining_depth: validated_depth,
            relation_job_kind: RelationJobKind::Officers,
        }), now);
        proof {
            assert(producer.outbox@.subrange(0, ob.len() as int) =~= ob);
        }
    }
    check_id
}

/// Whether message `m` is a first relation job of check `check_id` of kind `kind`.
pub open spec fn initial_job(m: Job, check_id: u128, root_id: u128, number: Seq<char>, depth: usize, kind: RelationJobKind) -> bool {
    match m.job_kind {
        JobKind::RelationJob(j) => {
            &&& j.child_id == root_id
            &&& j.check_id == check_id
            &&& j.company_house_number@ == number
            &&& j.officer_id is None
            &&& j.remaining_depth == depth
            &&& j.relation_job_kind == kind
        },
        _ => false,
    }
}

/// One line of the list of checks.
#[derive(Debug, Clone)]
pub struct CheckInfo {
    pub check_id: u128,
    pub entity_number: String,
    pub name: Option<String>,
    pub instructed_on: i64,
    pub completed_on: Option<i64>,
    pub distinct_flags: Vec<Flagkind>,
}

/// The list of checks, and whether any of them has a job that failed.
#[derive(Debug, Clone)]
pub struct ChecksResponse {
    pub checks: Vec<CheckInfo>,
    pub has_error: bool,
}

/// An entity related to another, with the dates the relation held.
#[derive(Debug, Clone, Copy, PartialEq, Eq)]
pub struct Relation {
    pub entity_id: u128,
    pub started_on: Option<Date>,
    pub ended_on: Option<Date>,
}

/// An entity of a check with its officers, shareholders and risk annotations.
#[derive(Debug, Clone)]
pub struct EntityWithRelations {
    pub entity: Entity,
    pub officers: Vec<Relation>,
    pub shareholders: Vec<Relation>,
    pub flags: Vec<Flagkind>,
    pub positions: Vec<String>,
    pub datasets: Vec<String>,
}

/// Everything a check found.
#[derive(Debug, Clone)]
pub struct EntityCheckResponse {
    pub entities: Vec<EntityWithRelations>,
    pub started_at: i64,
    pub completed_at: Option<i64>,
}

/// The root entity of check `c`, if it has one.
pub open spec fn root_of(s: Store, c: u128) -> Option<u128> {
    first_root(s.entities@, check_entity_ids(s.check_entity_map@, c))
}

/// Whether `info` describes check `c` of store `s`.
pub open spec fn describes(s: Store, c: Check, info: CheckInfo) -> bool {
    &&& root_of(s, c.id) is Some
    &&& info.check_id == c.id
    &&& info.entity_number == s.entities@[root_of(s, c.id)->0 as int].company_house_number
    &&& info.name == s.entities@[root_of(s, c.id)->0 as int].name
    &&& info.instructed_on == c.started_at
    &&& info.completed_on == completion(s.check_job_times(c.id))
    &&& info.distinct_flags@.no_duplicates()
    &&& forall|k: Flagkind|
        info.distinct_flags@.contains(k) <==> check_flags(s.flags@, s.check_entity_map@, c.id).contains(k)
}

/// Whether `rels` lists the relations `t` in order.
pub open spec fn lists(rels: Seq<Relation>, t: Seq<(u128, Option<Date>, Option<Date>)>) -> bool {
    &&& rels.len() == t.len()
    &&& forall|k: int|
        0 <= k < t.len() ==> #[trigger] rels[k] == (Relation { entity_id: t[k].0, started_on: t[k].1, ended_on: t[k].2 })
}

/// Whether `e` reports entity `id` of store `s`.
pub open spec fn reports(s: Store, id: u128, e: EntityWithRelations) -> bool {
    &&& e.entity == s.entities@[id as int]
    &&& lists(e.officers@, relations_of(s.relationships@, id, Relationshipkind::Officer))
    &&& lists(e.shareholders@, relations_of(s.relationships@, id, Relationshipkind::Shareholder))
    &&& e.flags@ == values_for(s.flags@, id)
    &&& e.positions@ == values_for(s.positions@, id)
    &&& e.datasets@ == values_for(s.datasets@, id)
}

fn to_relations(t: Vec<(u128, Option<Date>, Option<Date>)>) -> (r: Vec<Relation>)
    ensures
        lists(r@, t@),
{
    let mut out: Vec<Relation> = Vec::new();
    let mut i: usize = 0;
    while i < t.len()
        invariant
            i <= t@.len(),
            out@.len() == i,
            forall|k: int|
                0 <= k < i ==> #[trigger] out@[k] == (Relation { entity_id: t@[k].0, started_on: t@[k].1, ended_on: t@[k].2 }),
        decreases t@.len() - i,
    {
        let (entity_id, started_on, ended_on) = t[i];
        out.push(Relation { entity_id, started_on, ended_on });
        i = i + 1;
    }
    out
}

/// Every check with its root entity, completion time and distinct flags, and whether any
/// check has a failed job. Fails when a check has no root entity.
pub fn get_checks(store: &Store) -> (r: Result<ChecksResponse, StoreError>)
    requires
        store.wf(),
    ensures
        r is Err <==> exists|k: int| 0 <= k < store.checks@.len() && root_of(*store, #[trigger] store.checks@[k].id) is None,
        r is Err ==> r == Err::<ChecksResponse, StoreError>(StoreError::NotFound),
        r matches Ok(resp) ==> {
            &&& resp.checks@.len() == store.checks@.len()
            &&& forall|k: int| 0 <= k < store.checks@.len() ==> describes(*store, store.checks@[k], #[trigger] resp.checks@[k])
            &&& resp.has_error == exists|k: int| 0 <= k < store.checks@.len() && store.spec_has_errored_job(#[trigger] store.checks@[k].id)
        },
{
    let checks = store.get_checks();
    let mut out: Vec<CheckInfo> = Vec::new();
    let mut has_error = false;
    let mut i: usize = 0;
    while i < checks.len()
        invariant
            store.wf(),
            checks@ == store.checks@,
            i <= checks@.len(),
            out@.len() == i,
            forall|k: int| 0 <= k < i ==> describes(*store, checks@[k], #[trigger] out@[k]),
            forall|k: int| 0 <= k < i ==> root_of(*store, #[trigger] checks@[k].id) is Some,
            has_error == exists|k: int| 0 <= k < i && store.spec_has_errored_job(#[trigger] checks@[k].id),
        decreases checks@.len() - i,
    {
        let check = checks[i];
        let root = match store.get_root_entity(check.id) {
            Ok(root) => root,
            Err(e) => {
                assert(root_of(*store, checks@[i as int].id) is None);
                return Err(e);
            },
        };
        let flags = store.get_flag_kinds_for_check(check.id);
        let info = CheckInfo {
            check_id: check.id,
            entity_number: root.company_house_number,
            name: root.name,
            instructed_on: check.started_at,
            completed_on: store.check_completed_at(check.id),
            distinct_flags: distinct_flags(&flags),
        };
        out.push(info);
        let errored = store.does_check_have_errored_job(check.id);
        proof {
            if errored {
                assert(store.spec_has_errored_job(checks@[i as int].id));
            }
            if !errored && has_error {
                let w = choose|k: int| 0 <= k < i && store.spec_has_errored_job(#[trigger] checks@[k].id);
                assert(0 <= w < i + 1 && store.spec_has_errored_job(checks@[w].id));
            }
            if !errored && !has_error {
                assert forall|k: int| 0 <= k < i + 1 implies !store.spec_has_errored_job(#[trigger] checks@[k].id) by {
                    if k < i {
                    }
                }
            }
        }
        has_error = has_error || errored;
        i = i + 1;
    }
    Ok(ChecksResponse { checks: out, has_error })
}

/// Everything check `check_id` found: each of its entities with its officers, shareholders,
/// flags, positions and datasets, and when the check started and completed.
pub fn get_entity_response(store: &Store, check_id: u128) -> (r: Result<EntityCheckResponse, StoreError>)
    requires
        store.wf(),
    ensures
        r is Err <==> check_id >= store.checks@.len(),
        r is Err ==> r == Err::<EntityCheckResponse, StoreError>(StoreError::NotFound),
        r matches Ok(resp) ==> {
            let ids = check_entity_ids(store.check_entity_map@, check_id);
            &&& resp.started_at == store.checks@[check_id as int].started_at
            &&& resp.completed_at == completion(store.check_job_times(check_id))
            &&& resp.entities@.len() == ids.len()
            &&& forall|k: int| 0 <= k < ids.len() ==> reports(*store, ids[k], #[trigger] resp.entities@[k])
        },
{
    let check = store.get_check(check_id)?;
    let entities = store.get_entities(check_id);
    let ghost ids = check_entity_ids(store.check_entity_map@, check_id);
    proof {
        lemma_check_entity_ids_bounded(store.check_entity_map@, check_id, store.entities@.len());
    }
    let mut out: Vec<EntityWithRelations> = Vec::new();
    let mut i: usize = 0;
    while i < entities.len()
        invariant
            store.wf(),
            entities@.len() == ids.len(),
            ids == check_entity_ids(store.check_entity_map@, check_id),
            forall|k: int| 0 <= k < ids.len() ==> #[trigger] ids[k] < store.entities@.len(),
            forall|k: int| 0 <= k < entities@.len() ==> #[trigger] entities@[k] == store.entities@[ids[k] as int],
            i <= entities@.len(),
            out@.len() == i,
            forall|k: int| 0 <= k < i ==> reports(*store, ids[k], #[trigger] out@[k]),
        decreases entities@.len() - i,
    {
        let entity = &entities[i];
        let id = entity.id;
        proof {
            assert(entities@[i as int] == store.entities@[ids[i as int] as int]);
            assert(ids[i as int] < store.entities@.len());
            assert(store.entities@[ids[i as int] as int].id == ids[i as int]);
        }
        out.push(EntityWithRelations {
            entity: crate::store::entity_with_id(entity, id),
            officers: to_relations(store.get_relations(id, Relationshipkind::Officer)),
            shareholders: to_relations(store.get_relations(id, Relationshipkind::Shareholder)),
            flags: store.get_flag_kinds_for_entity(id),
            positions: store.get_positions(id),
            datasets: store.get_datasets(id),
        });
        i = i + 1;
    }
    Ok(EntityCheckResponse {
        entities: out,
        started_at: check.started_at,
        completed_at: store.check_completed_at(check_id),
    })
}

} // verus!
