use company_investigation::bus::{
    dead_letter_topic, delivery_for, route_after_failure, Delivery, Enqueued, Producer, Route, MAX_JOB_RETRY,
};
use company_investigation::checks::start_check;
use company_investigation::jobs::relation_jobs::{RelationJob, RelationJobKind};
use company_investigation::jobs::risk_jobs::{LocalRiskJobKind, RiskJobScope};
use company_investigation::jobs::{Job, JobKind};
use company_investigation::models::{Entity, EntityRelation, Entitykind, Relationshipkind};
use company_investigation::store::{Store, StoreError};
use company_investigation::workers::worker::{finish_job, JobOutcome};

fn entity(number: &str, kind: Entitykind) -> Entity {
    Entity {
        id: 0,
        company_house_number: number.to_string(),
        name: Some(format!("name of {}", number)),
        kind,
        country: None,
        postal_code: None,
        date_of_origin: None,
        is_root: false,
        officer_id: None,
    }
}

fn found(number: &str, kind: Entitykind) -> EntityRelation {
    EntityRelation { entity: entity(number, kind), started_on: None, ended_on: None }
}

fn relation_job(msg: &Job) -> RelationJob {
    match &msg.job_kind {
        JobKind::RelationJob(j) => j.clone(),
        other => panic!("not a relation job: {:?}", other),
    }
}

use company_investigation::workers::entity_relation_worker::{check_producer, relation_producer, risk_producer};

/// Runs every relation job waiting on `relations`, answering each from `registry`, until
/// none is left. Each job is settled as succeeded at time `clock`, which advances.
fn run_relation_jobs(
    store: &mut Store,
    relations: &mut Producer,
    risks: &mut Producer,
    registry: &dyn Fn(&RelationJob) -> Vec<EntityRelation>,
    clock: &mut i64,
) -> usize {
    let mut ran = 0;
    loop {
        let batch = relations.take_outbox();
        if batch.is_empty() {
            return ran;
        }
        for msg in batch {
            let job = relation_job(&msg);
            let records = registry(&job);
            job.do_job(&records, store, relations, risks, *clock);
            *clock += 1;
            assert_eq!(finish_job(store, msg.id, JobOutcome::Succeeded, *clock), Ok(Delivery::Ack));
            ran += 1;
        }
    }
}

#[test]
fn two_levels_of_shareholders_make_five_entities() {
    let mut store = Store::new();
    let mut api = check_producer();
    let check = start_check(&mut store, &mut api, "3977902", 2, 100);
    let mut relations = relation_producer();
    relations.outbox = api.take_outbox();
    assert_eq!(relations.outbox.len(), 2);
    assert_eq!(relation_job(&relations.outbox[0]).relation_job_kind, RelationJobKind::Shareholders);
    assert_eq!(relation_job(&relations.outbox[1]).relation_job_kind, RelationJobKind::Officers);
    assert_eq!(relation_job(&relations.outbox[0]).company_house_number, "03977902");
    assert_eq!(relation_job(&relations.outbox[0]).remaining_depth, 2);
    let mut risks = risk_producer();
    let registry = |job: &RelationJob| -> Vec<EntityRelation> {
        match (job.relation_job_kind, job.company_house_number.as_str()) {
            (RelationJobKind::Shareholders, "03977902") => {
                vec![found("A0000001", Entitykind::Company), found("B0000002", Entitykind::Company)]
            }
            (RelationJobKind::Shareholders, "A0000001") => vec![found("PA", Entitykind::Individual)],
            (RelationJobKind::Shareholders, "B0000002") => vec![found("PB", Entitykind::Individual)],
            _ => vec![],
        }
    };
    let mut clock = 200;
    run_relation_jobs(&mut store, &mut relations, &mut risks, &registry, &mut clock);
    assert_eq!(store.get_entities(check).len(), 5);
    assert_eq!(store.relationships.len(), 4);
    assert!(store.relationships.iter().all(|r| r.kind == Relationshipkind::Shareholder));
    let flags_jobs: Vec<Job> = risks.take_outbox();
    assert_eq!(flags_jobs.len(), 2);
    for msg in &flags_jobs {
        match &msg.job_kind {
            JobKind::RiskJob(r) => match r.scope {
                RiskJobScope::Local(l) => assert_eq!(l.kind, LocalRiskJobKind::Flags),
                _ => panic!("global risk job"),
            },
            _ => panic!("not a risk job"),
        }
    }
    // The flags jobs are still open, so the check is not complete yet.
    assert_eq!(store.check_completed_at(check), None);
    for msg in &flags_jobs {
        clock += 1;
        finish_job(&mut store, msg.id, JobOutcome::Succeeded, clock).unwrap();
    }
    let latest = store.jobs.iter().map(|j| j.completed_at.unwrap()).max();
    assert_eq!(store.check_completed_at(check), latest);
    assert_eq!(store.check_completed_at(check), Some(clock));
    assert!(!store.does_check_have_errored_job(check));
}

#[test]
fn officer_fan_out_stops_at_the_cap() {
    let mut store = Store::new();
    let check = store.insert_check(company_investigation::models::Checkkind::EntityRelation, 0);
    let root = store.insert_entity(&Entity::create_root("00000001".to_string()), check);
    let mut relations = relation_producer();
    let mut risks = risk_producer();
    let job = RelationJob {
        child_id: root,
        check_id: check,
        company_house_number: "00000001".to_string(),
        officer_id: None,
        remaining_depth: 1,
        relation_job_kind: RelationJobKind::Officers,
    };
    let officers: Vec<EntityRelation> =
        (0..5000).map(|i| found(&format!("P{}", i), Entitykind::Individual)).collect();
    job.do_job(&officers, &mut store, &mut relations, &mut risks, 1);
    // Each officer asks for an appointments job and a flags job; both producers share the
    // cap, so the check stops at 2000 jobs, half of each kind.
    assert_eq!(relations.outbox.len(), 1000);
    assert_eq!(risks.outbox.len(), 1000);
    assert_eq!(store.get_num_of_jobs(check), 2000);
    let relation_ids: Vec<u128> = relations.outbox.iter().map(|m| m.id).collect();
    assert!(relation_ids.iter().all(|id| (*id as usize) < 2000));
    // Every job row is linked once, to this check.
    let mut ids: Vec<u128> = store.check_job_map.iter().map(|(_, j)| *j).collect();
    ids.sort();
    ids.dedup();
    assert_eq!(ids.len(), store.jobs.len());
    assert!(store.check_job_map.iter().all(|(c, _)| *c == check));
    assert_eq!(store.get_entities(check).len(), 5001);
    // A further relation job for the capped check records nothing.
    let before = store.jobs.len();
    let again = relations.enqueue_job(&mut store, Some(check), JobKind::RelationJob(job.clone()), 2);
    assert_eq!(again, Enqueued::Capped);
    assert_eq!(store.jobs.len(), before);
}

#[test]
fn cap_counts_only_the_capped_check() {
    let mut store = Store::new();
    let mut p = Producer::new("t".to_string(), None, Some(2));
    let job = JobKind::RelationJob(RelationJob {
        child_id: 0,
        check_id: 7,
        company_house_number: "N".to_string(),
        officer_id: None,
        remaining_depth: 0,
        relation_job_kind: RelationJobKind::Shareholders,
    });
    assert_eq!(p.enqueue_job(&mut store, Some(7), job.clone(), 0), Enqueued::Produced(0));
    assert_eq!(p.enqueue_job(&mut store, Some(7), job.clone(), 0), Enqueued::Produced(1));
    assert_eq!(p.enqueue_job(&mut store, Some(7), job.clone(), 0), Enqueued::Capped);
    assert_eq!(p.enqueue_job(&mut store, Some(8), job.clone(), 0), Enqueued::Produced(2));
    assert_eq!(p.enqueue_job(&mut store, None, job, 0), Enqueued::Produced(3));
    assert_eq!(store.get_num_of_jobs(7), 2);
    assert_eq!(store.get_num_of_jobs(8), 1);
    assert_eq!(p.outbox.len(), 4);
    assert_eq!(p.outbox[3].id, 3);
}

#[test]
fn depth_zero_job_schedules_no_relation_jobs() {
    let mut store = Store::new();
    let check = store.insert_check(company_investigation::models::Checkkind::EntityRelation, 0);
    let mut relations = relation_producer();
    let mut risks = risk_producer();
    let job = RelationJob {
        child_id: 0,
        check_id: check,
        company_house_number: "ROOT".to_string(),
        officer_id: None,
        remaining_depth: 0,
        relation_job_kind: RelationJobKind::Shareholders,
    };
    job.do_job(
        &vec![found("C1", Entitykind::Company), found("I1", Entitykind::Individual)],
        &mut store,
        &mut relations,
        &mut risks,
        0,
    );
    assert!(relations.outbox.is_empty());
    assert_eq!(risks.outbox.len(), 1);
}

#[test]
fn cyclic_graph_expansion_ends_within_depth() {
    // Two companies that own each other: expansion still stops after `depth` levels.
    let mut store = Store::new();
    let mut api = check_producer();
    let check = start_check(&mut store, &mut api, "C1", 3, 0);
    let mut relations = relation_producer();
    relations.outbox = api.take_outbox();
    let mut risks = risk_producer();
    let registry = |job: &RelationJob| -> Vec<EntityRelation> {
        match (job.relation_job_kind, job.company_house_number.as_str()) {
            (RelationJobKind::Shareholders, "000000C1") => vec![found("000000C2", Entitykind::Company)],
            (RelationJobKind::Shareholders, "000000C2") => vec![found("000000C1", Entitykind::Company)],
            _ => vec![],
        }
    };
    let mut clock = 1;
    let ran = run_relation_jobs(&mut store, &mut relations, &mut risks, &registry, &mut clock);
    // Depth 3: 2 root jobs, then 2 per found company for each of 3 levels.
    assert_eq!(ran, 2 + 2 + 2 + 2);
    assert_eq!(store.get_entities(check).len(), 2);
    assert!(store.jobs.iter().all(|j| j.completed_at.is_some()));
}

#[test]
fn rerunning_a_job_keeps_entities_and_relationships() {
    let mut store = Store::new();
    let check = store.insert_check(company_investigation::models::Checkkind::EntityRelation, 0);
    let root = store.insert_entity(&Entity::create_root("R".to_string()), check);
    let mut relations = relation_producer();
    let mut risks = risk_producer();
    let job = RelationJob {
        child_id: root,
        check_id: check,
        company_house_number: "R".to_string(),
        officer_id: None,
        remaining_depth: 1,
        relation_job_kind: RelationJobKind::Shareholders,
    };
    let records = vec![found("SH01", Entitykind::Company), found("SH02", Entitykind::Individual)];
    job.do_job(&records, &mut store, &mut relations, &mut risks, 1);
    let entities = store.entities.len();
    let links = store.check_entity_map.clone();
    let rels = store.relationships.clone();
    let scheduled = relations.outbox.len();
    assert_eq!(scheduled, 3);
    job.do_job(&records, &mut store, &mut relations, &mut risks, 2);
    // Duplicate edges still expand: the second run schedules the same jobs again.
    assert_eq!(relations.outbox.len(), 2 * scheduled);
    assert_eq!(store.entities.len(), entities);
    assert_eq!(store.check_entity_map, links);
    assert_eq!(store.relationships, rels);
    // The same job in another check makes rows of its own.
    let other = store.insert_check(company_investigation::models::Checkkind::EntityRelation, 3);
    let other_root = store.insert_entity(&Entity::create_root("R".to_string()), other);
    let job2 = RelationJob { check_id: other, child_id: other_root, ..job.clone() };
    job2.do_job(&records, &mut store, &mut relations, &mut risks, 4);
    let first: Vec<u128> = store.get_entities(check).iter().map(|e| e.id).collect();
    let second: Vec<u128> = store.get_entities(other).iter().map(|e| e.id).collect();
    assert_eq!(first.len(), 3);
    assert_eq!(second.len(), 3);
    assert!(first.iter().all(|id| !second.contains(id)));
}

#[test]
fn appointments_reverse_the_edge() {
    let mut store = Store::new();
    let check = store.insert_check(company_investigation::models::Checkkind::EntityRelation, 0);
    let person = store.insert_entity(&entity("PN01", Entitykind::Individual), check);
    let mut relations = relation_producer();
    let mut risks = risk_producer();
    let job = RelationJob {
        child_id: person,
        check_id: check,
        company_house_number: "PN01".to_string(),
        officer_id: Some("OID".to_string()),
        remaining_depth: 0,
        relation_job_kind: RelationJobKind::Appointments,
    };
    job.do_job(&vec![found("C9", Entitykind::Company)], &mut store, &mut relations, &mut risks, 0);
    let company = store.get_existing_entity_id(check, &"C9".to_string()).unwrap();
    assert_eq!(store.relationships.len(), 1);
    assert_eq!(store.relationships[0].parent_id, person);
    assert_eq!(store.relationships[0].child_id, company);
    assert_eq!(store.relationships[0].kind, Relationshipkind::Officer);
    assert_eq!(store.get_relations(company, Relationshipkind::Officer), vec![(person, None, None)]);
}

#[test]
fn transient_failures_leave_the_check_incomplete() {
    let mut store = Store::new();
    let check = store.insert_check(company_investigation::models::Checkkind::EntityRelation, 0);
    let job_id = store.add_job_with_check(check, 0);
    for attempt in 0..MAX_JOB_RETRY {
        let d = finish_job(&mut store, job_id, JobOutcome::Transient, attempt as i64).unwrap();
        assert_eq!(d, Delivery::Nack);
    }
    assert_eq!(store.jobs[0].completed_at, None);
    assert!(store.jobs[0].has_error);
    assert_eq!(store.check_completed_at(check), None);
    assert!(store.does_check_have_errored_job(check));
    assert_eq!(dead_letter_topic("entity-relation"), "entity-relation-DLQ");
    assert_eq!(route_after_failure(1), Route::Redeliver);
    assert_eq!(route_after_failure(2), Route::Redeliver);
    assert_eq!(route_after_failure(3), Route::DeadLetter);
    assert_eq!(route_after_failure(4), Route::DeadLetter);
    assert_eq!(MAX_JOB_RETRY, 3);
}

#[test]
fn settling_outcomes() {
    let mut store = Store::new();
    let a = store.add_job(0);
    let b = store.add_job(0);
    assert_eq!(finish_job(&mut store, a, JobOutcome::Succeeded, 5), Ok(Delivery::Ack));
    assert_eq!(finish_job(&mut store, b, JobOutcome::Rejected, 6), Ok(Delivery::Ack));
    assert_eq!(store.jobs[0].completed_at, Some(5));
    assert!(!store.jobs[0].has_error);
    assert_eq!(store.jobs[1].completed_at, Some(6));
    assert!(store.jobs[1].has_error);
    assert_eq!(finish_job(&mut store, 9, JobOutcome::Succeeded, 7), Err(StoreError::NotFound));
    assert_eq!(delivery_for(true), Delivery::Ack);
    assert_eq!(delivery_for(false), Delivery::Nack);
}
