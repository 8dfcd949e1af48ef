use company_investigation::dates::Date;
use company_investigation::flags::Flagkind;
use company_investigation::models::{Checkkind, Entity, Entitykind, Relationship, Relationshipkind, Updatekind};
use company_investigation::store::{Store, StoreError};

fn person(number: &str) -> Entity {
    Entity {
        id: 99,
        company_house_number: number.to_string(),
        name: Some("Jo".to_string()),
        kind: Entitykind::Individual,
        country: Some("UK".to_string()),
        postal_code: None,
        date_of_origin: None,
        is_root: false,
        officer_id: None,
    }
}

#[test]
fn insert_entity_deduplicates_within_a_check() {
    let mut store = Store::new();
    let c1 = store.insert_check(Checkkind::EntityRelation, 1);
    let c2 = store.insert_check(Checkkind::MonitoredEntity, 2);
    let a = store.insert_entity(&person("N1"), c1);
    let b = store.insert_entity(&person("N1"), c1);
    let c = store.insert_entity(&person("N1"), c2);
    let d = store.insert_entity(&person("N2"), c1);
    assert_eq!(a, b);
    assert_ne!(a, c);
    assert_ne!(a, d);
    assert_eq!(store.entities.len(), 3);
    assert_eq!(store.get_entity(a).unwrap().id, a);
    assert_eq!(store.get_entity(a).unwrap().company_house_number, "N1");
    assert_eq!(store.get_entities(c1).len(), 2);
    assert_eq!(store.get_entities(c2).len(), 1);
    assert_eq!(store.get_entity(17).unwrap_err(), StoreError::NotFound);
    assert_eq!(store.get_check(c2).unwrap().kind, Checkkind::MonitoredEntity);
    assert_eq!(store.get_checks().len(), 2);
}

#[test]
fn root_entity_of_a_check() {
    let mut store = Store::new();
    let c = store.insert_check(Checkkind::EntityRelation, 0);
    store.insert_entity(&person("N1"), c);
    assert_eq!(store.get_root_entity(c).unwrap_err(), StoreError::NotFound);
    let root = store.insert_entity(&Entity::create_root("R".to_string()), c);
    assert_eq!(store.get_root_entity(c).unwrap().id, root);
}

#[test]
fn duplicate_relationship_is_refused() {
    let mut store = Store::new();
    let rel = Relationship { parent_id: 1, child_id: 2, kind: Relationshipkind::Shareholder, started_on: Some(Date { days_from_ce: 3 }), ended_on: None };
    assert_eq!(store.insert_relationship(rel), Ok(()));
    let other_kind = Relationship { kind: Relationshipkind::Officer, ..rel };
    assert_eq!(store.insert_relationship(other_kind), Err(StoreError::Duplicate));
    assert_eq!(store.insert_relationship(Relationship { parent_id: 2, child_id: 1, ..rel }), Ok(()));
    assert_eq!(store.relationships.len(), 2);
    assert_eq!(store.get_relations(2, Relationshipkind::Shareholder), vec![(1, Some(Date { days_from_ce: 3 }), None)]);
    assert!(store.get_relations(2, Relationshipkind::Officer).is_empty());
}

#[test]
fn completion_is_the_latest_job_once_all_complete() {
    let mut store = Store::new();
    let c = store.insert_check(Checkkind::EntityRelation, 0);
    assert_eq!(store.check_completed_at(c), None);
    let j1 = store.add_job_with_check(c, 1);
    let j2 = store.add_job_with_check(c, 2);
    let unrelated = store.add_job(3);
    assert_eq!(store.get_num_of_jobs(c), 2);
    store.complete_job(j2, 50).unwrap();
    assert_eq!(store.check_completed_at(c), None);
    store.complete_job(j1, 40).unwrap();
    assert_eq!(store.check_completed_at(c), Some(50));
    store.complete_job(j1, 70).unwrap();
    assert_eq!(store.check_completed_at(c), Some(70));
    assert_eq!(store.complete_job(unrelated + 5, 1), Err(StoreError::NotFound));
    assert!(!store.does_check_have_errored_job(c));
    store.update_job_with_error(unrelated).unwrap();
    assert!(!store.does_check_have_errored_job(c));
    store.update_job_with_error(j1).unwrap();
    assert!(store.does_check_have_errored_job(c));
    assert_eq!(store.check_completed_at(c), Some(70));
}

#[test]
fn annotations_are_appended_per_entity() {
    let mut store = Store::new();
    store.insert_flags(1, &vec![Flagkind::SanctionedEntity, Flagkind::Politician]);
    store.insert_flags(2, &vec![Flagkind::Crime]);
    store.insert_positions(1, &vec!["Minister".to_string()]);
    store.insert_datasets(1, &vec!["OFAC".to_string(), "UKHMT".to_string()]);
    assert_eq!(store.get_flag_kinds_for_entity(1), vec![Flagkind::SanctionedEntity, Flagkind::Politician]);
    assert_eq!(store.get_flag_kinds_for_entity(2), vec![Flagkind::Crime]);
    assert_eq!(store.get_positions(1), vec!["Minister".to_string()]);
    assert_eq!(store.get_datasets(1), vec!["OFAC".to_string(), "UKHMT".to_string()]);
    assert!(store.get_datasets(2).is_empty());
    assert!(!store.outlier_age(1));
    store.insert_outlier_age(1, true);
    assert!(store.outlier_age(1));
    store.insert_dormant_company(3, true);
    assert!(store.company_dormant(3));
    assert!(!store.company_dormant(1));
}

#[test]
fn monitoring_spans_and_active_checks() {
    let mut store = Store::new();
    let c1 = store.insert_check(Checkkind::MonitoredEntity, 0);
    let c2 = store.insert_check(Checkkind::MonitoredEntity, 0);
    store.start_monitoring(c1, "X".to_string(), 5);
    store.start_monitoring(c2, "X".to_string(), 6);
    store.start_monitoring(c2, "Y".to_string(), 6);
    assert_eq!(store.get_monitored_entity_check_ids(&"X".to_string()), vec![c1, c2]);
    assert_eq!(store.cancel_monitoring(c1, 9), Ok(()));
    assert_eq!(store.monitoring_spans[0].ended_at, Some(9));
    assert_eq!(store.get_monitored_entity_check_ids(&"X".to_string()), vec![c2]);
    assert_eq!(store.get_monitored_entity_check_ids(&"Z".to_string()), Vec::<u128>::new());
    assert_eq!(store.cancel_monitoring(77, 9), Err(StoreError::NotFound));
}

#[test]
fn snapshots_and_processed_updates() {
    let mut store = Store::new();
    store.insert_entity_snapshot(&person("X"), &vec![4, 5], 10);
    assert_eq!(store.snapshots.len(), 1);
    assert_eq!(store.snapshots[0].entity_id, 0);
    assert_eq!(store.check_snapshot, vec![(4, 0), (5, 0)]);
    assert!(store.check_entity_map.is_empty());
    assert_eq!(store.get_last_processed_timepoint(Updatekind::Company), None);
    store.insert_processed_update(10, Updatekind::Company, 1);
    store.insert_processed_update(12, Updatekind::Officer, 1);
    store.insert_processed_update(11, Updatekind::Company, 1);
    assert_eq!(store.get_last_processed_timepoint(Updatekind::Company), Some(11));
    assert_eq!(store.get_last_processed_timepoint(Updatekind::Officer), Some(12));
    assert_eq!(store.get_last_processed_timepoint(Updatekind::Shareholder), None);
}

#[test]
fn monitoring_lookups() {
    let mut store = Store::new();
    let c = store.insert_check(Checkkind::MonitoredEntity, 0);
    store.start_monitoring(c, "X".to_string(), 4);
    let monitored = store.get_monitored_entities();
    assert_eq!(monitored.len(), 1);
    assert_eq!(monitored[0].company_house_id, "X");
    assert_eq!(store.get_check_id(monitored[0].id), Ok(c));
    assert_eq!(store.get_check_id(5), Err(StoreError::NotFound));
    let span = store.get_monitoring_span(monitored[0].monitoring_span_id).unwrap();
    assert_eq!((span.started_at, span.ended_at), (4, None));
    assert_eq!(store.get_monitoring_span(9), Err(StoreError::NotFound));
    assert_eq!(store.get_last_update(0), None);
    store.insert_entity_snapshot(&person("X"), &vec![c], 20);
    store.insert_entity_snapshot(&person("X"), &vec![c], 15);
    assert_eq!(store.get_last_update(0), Some(20));
    assert_eq!(store.get_last_update(1), Some(15));
}
