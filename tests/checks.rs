use company_investigation::checks::{get_checks, get_entity_response, start_check, Relation};
use company_investigation::flags::Flagkind;
use company_investigation::models::{Checkkind, Entity, Entitykind, Relationship, Relationshipkind};
use company_investigation::store::{distinct_flags, Store, StoreError};
use company_investigation::workers::entity_relation_worker::check_producer;

fn person(number: &str) -> Entity {
    Entity {
        id: 0,
        company_house_number: number.to_string(),
        name: Some("Pat".to_string()),
        kind: Entitykind::Individual,
        country: None,
        postal_code: None,
        date_of_origin: None,
        is_root: false,
        officer_id: None,
    }
}

#[test]
fn start_check_pads_the_number_and_caps_the_depth() {
    let mut store = Store::new();
    let mut producer = check_producer();
    let check = start_check(&mut store, &mut producer, "123", 9, 5);
    assert_eq!(store.get_check(check).unwrap().started_at, 5);
    let root = store.get_root_entity(check).unwrap();
    assert_eq!(root.company_house_number, "00000123");
    assert_eq!(producer.outbox.len(), 2);
    for msg in &producer.outbox {
        match &msg.job_kind {
            company_investigation::jobs::JobKind::RelationJob(j) => {
                assert_eq!(j.remaining_depth, 3);
                assert_eq!(j.child_id, root.id);
                assert_eq!(j.check_id, check);
            }
            _ => panic!("not a relation job"),
        }
    }
    assert_eq!(store.get_num_of_jobs(check), 2);
    let none = start_check(&mut store, &mut producer, "123456789", 0, 6);
    assert_eq!(store.get_root_entity(none).unwrap().company_house_number, "123456789");
    assert_eq!(producer.outbox.len(), 2);
}

#[test]
fn distinct_flags_keep_first_appearances() {
    let flags = vec![Flagkind::Crime, Flagkind::Politician, Flagkind::Crime, Flagkind::Politician, Flagkind::Wanted];
    assert_eq!(distinct_flags(&flags), vec![Flagkind::Crime, Flagkind::Politician, Flagkind::Wanted]);
    assert!(distinct_flags(&vec![]).is_empty());
}

#[test]
fn check_list_and_entity_report() {
    let mut store = Store::new();
    let mut producer = check_producer();
    let check = start_check(&mut store, &mut producer, "00000001", 1, 10);
    let root = store.get_root_entity(check).unwrap().id;
    let p = store.insert_entity(&person("PN01"), check);
    store.insert_relationship(Relationship { parent_id: p, child_id: root, kind: Relationshipkind::Officer, started_on: None, ended_on: None }).unwrap();
    store.insert_flags(p, &vec![Flagkind::Politician, Flagkind::Politician]);
    store.insert_positions(p, &vec!["Mayor".to_string()]);
    store.insert_datasets(p, &vec!["UKHMT".to_string()]);
    let resp = get_checks(&store).unwrap();
    assert_eq!(resp.checks.len(), 1);
    assert_eq!(resp.checks[0].entity_number, "00000001");
    assert_eq!(resp.checks[0].instructed_on, 10);
    assert_eq!(resp.checks[0].completed_on, None);
    assert_eq!(resp.checks[0].distinct_flags, vec![Flagkind::Politician]);
    assert!(!resp.has_error);
    let job = producer.outbox[0].id;
    store.update_job_with_error(job).unwrap();
    assert!(get_checks(&store).unwrap().has_error);

    let report = get_entity_response(&store, check).unwrap();
    assert_eq!(report.started_at, 10);
    assert_eq!(report.entities.len(), 2);
    assert_eq!(report.entities[0].officers, vec![Relation { entity_id: p, started_on: None, ended_on: None }]);
    assert!(report.entities[0].shareholders.is_empty());
    assert_eq!(report.entities[1].entity.company_house_number, "PN01");
    assert_eq!(report.entities[1].positions, vec!["Mayor".to_string()]);
    assert_eq!(report.entities[1].datasets, vec!["UKHMT".to_string()]);
    assert_eq!(report.entities[1].flags.len(), 2);
    assert_eq!(get_entity_response(&store, 99).unwrap_err(), StoreError::NotFound);

    // A check without a root entity cannot be listed.
    store.insert_check(Checkkind::EntityRelation, 11);
    assert_eq!(get_checks(&store).unwrap_err(), StoreError::NotFound);
}
