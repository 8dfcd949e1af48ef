use company_investigation::bus::Producer;
use company_investigation::company_house::company_house_streaming_types::{
    CompanyData, CompanyStreamingResponse, Event, OfficerData, ShareholderStreamingResponse,
};
use company_investigation::jobs::streaming_update_jobs::{StreamingUpdateJob, UpdateKind};
use company_investigation::jobs::JobKind;
use company_investigation::models::{Checkkind, Updatekind};
use company_investigation::store::Store;
use company_investigation::workers::streaming_worker::{
    company_update, enqueue_update, shareholder_update, StreamFramer, StreamingKind, COMPANY_STREAMING_URL,
};

fn company_data(number: Option<&str>, name: Option<&str>) -> CompanyData {
    CompanyData {
        accounts: None,
        annual_return: None,
        branch_company_details: None,
        can_file: None,
        company_name: name.map(|n| n.to_string()),
        company_number: number.map(|n| n.to_string()),
        company_status: None,
        company_status_detail: None,
        confirmation_statement: None,
        corporate_annotation: None,
        date_of_cessation: None,
        date_of_creation: Some("2001-02-03".to_string()),
        etag: None,
        external_registration_number: None,
        foreign_company_details: None,
        has_been_liquidated: None,
        has_charges: None,
        has_insolvency_history: None,
        is_community_interest_company: None,
        jurisdiction: None,
        last_full_members_list_date: None,
        links: None,
        partial_data_available: None,
        previous_company_names: None,
        registered_office_address: None,
        registered_office_is_in_dispute: None,
        service_address: None,
        sic_codes: None,
        subtype: None,
        kind: None,
        undeliverable_registered_office_address: None,
    }
}

fn event(timepoint: i32) -> Event {
    Event { fields_changed: None, published_at: None, timepoint, event_type: None }
}

/// Reads one framed company-stream record the way the stream's JSON lays it out.
fn decode(record: &[u8]) -> CompanyStreamingResponse {
    let v: serde_json::Value = serde_json::from_slice(record).unwrap();
    let data = v.get("data").map(|d| {
        company_data(d.get("company_number").and_then(|n| n.as_str()), d.get("company_name").and_then(|n| n.as_str()))
    });
    let event = v.get("event").map(|e| event(e.get("timepoint").and_then(|t| t.as_i64()).unwrap() as i32));
    CompanyStreamingResponse { data, event, resource_id: None, resource_kind: None, resource_uri: None }
}

#[test]
fn heartbeats_are_skipped() {
    let mut framer = StreamFramer::new();
    let records = framer.process_bytes(b"\n{\"a\":1}\n\n\n{\"b\":2}\n\n");
    assert_eq!(records, vec![b"{\"a\":1}\n".to_vec(), b"{\"b\":2}\n".to_vec()]);
    assert!(framer.buffer.is_empty());
}

#[test]
fn a_record_may_span_batches() {
    let mut framer = StreamFramer::new();
    assert!(framer.process_bytes(b"{\"a\":").is_empty());
    assert_eq!(framer.buffer, b"{\"a\":".to_vec());
    assert!(framer.process_bytes(b"1").is_empty());
    assert_eq!(framer.process_bytes(b"}\n{\"b\""), vec![b"{\"a\":1}\n".to_vec()]);
    assert_eq!(framer.buffer, b"{\"b\"".to_vec());
    assert!(framer.process_bytes(b"\n").is_empty(), "a lone newline is a heartbeat");
    assert_eq!(framer.process_bytes(b":2}\n"), vec![b"{\"b\":2}\n".to_vec()]);
}

#[test]
fn n_records_among_heartbeats_give_n_records() {
    let mut bytes = Vec::new();
    for i in 0..50 {
        for _ in 0..(i % 4) {
            bytes.push(b'\n');
        }
        bytes.extend_from_slice(format!("{{\"n\":{}}}\n", i).as_bytes());
    }
    let mut framer = StreamFramer::new();
    let records = framer.process_bytes(&bytes);
    assert_eq!(records.len(), 50);
    assert_eq!(records[7], b"{\"n\":7}\n".to_vec());
}

#[test]
fn unmonitored_updates_are_recorded_without_snapshots() {
    let bytes = b"{\"event\":{\"timepoint\":10,\"type\":\"changed\"},\"data\":{\"company_name\":\"X Ltd\",\"company_number\":\"X\"}}\n\n{\"event\":{\"timepoint\":11,\"type\":\"changed\"},\"data\":{\"company_name\":\"Y Ltd\",\"company_number\":\"Y\"}}\n";
    let mut store = Store::new();
    let mut producer = Producer::new(StreamingKind::Company.topic().to_string(), None, None);
    let mut framer = StreamFramer::new();
    for record in framer.process_bytes(bytes) {
        if let Some(update) = company_update(decode(&record)) {
            enqueue_update(&mut producer, &mut store, update, 0);
        }
    }
    let jobs = producer.take_outbox();
    assert_eq!(jobs.len(), 2);
    assert!(store.check_job_map.is_empty());
    for msg in jobs {
        match msg.job_kind {
            JobKind::StreamingUpdateJob(update) => update.do_job(&mut store, 1),
            _ => panic!("not an update job"),
        }
    }
    assert_eq!(store.snapshots.len(), 0);
    let timepoints: Vec<i32> = store.processed_updates.iter().map(|p| p.timepoint).collect();
    assert_eq!(timepoints, vec![10, 11]);
    assert!(store.processed_updates.iter().all(|p| p.kind == Updatekind::Company));
}

#[test]
fn monitored_update_makes_a_snapshot_for_each_monitoring_check() {
    let mut store = Store::new();
    let c1 = store.insert_check(Checkkind::MonitoredEntity, 0);
    let c2 = store.insert_check(Checkkind::MonitoredEntity, 0);
    store.start_monitoring(c1, "X".to_string(), 0);
    store.start_monitoring(c2, "X".to_string(), 0);
    let update = StreamingUpdateJob { event: event(42), kind: UpdateKind::Company(company_data(Some("X"), Some("X Ltd"))) };
    assert_eq!(update.get_check_ids_monitoring_entity(&store), vec![c1, c2]);
    update.do_job(&mut store, 7);
    assert_eq!(store.snapshots.len(), 1);
    assert_eq!(store.check_snapshot, vec![(c1, 0), (c2, 0)]);
    let snapshot_entity = store.get_entity(store.snapshots[0].entity_id).unwrap();
    assert_eq!(snapshot_entity.company_house_number, "X");
    assert_eq!(snapshot_entity.name, Some("X Ltd".to_string()));
    assert_eq!(snapshot_entity.date_of_origin, Some("2001-02-03".to_string()));
    assert_eq!(store.processed_updates[0].timepoint, 42);
    // After monitoring ends, updates are recorded but make no snapshot.
    store.cancel_monitoring(c1, 8).unwrap();
    store.cancel_monitoring(c2, 8).unwrap();
    update.do_job(&mut store, 9);
    assert_eq!(store.snapshots.len(), 1);
    assert_eq!(store.processed_updates.len(), 2);
}

#[test]
fn shareholder_updates_are_only_recorded() {
    let mut store = Store::new();
    let update = StreamingUpdateJob { event: event(3), kind: UpdateKind::Shareholder };
    update.do_job(&mut store, 0);
    assert_eq!(store.snapshots.len(), 0);
    assert_eq!(store.processed_updates[0].kind, Updatekind::Shareholder);
}

#[test]
fn restart_resumes_from_the_last_timepoint() {
    let mut store = Store::new();
    let fresh = StreamingKind::Company.stream_request(&store);
    assert_eq!(fresh.timepoint, None);
    assert_eq!(fresh.url, COMPANY_STREAMING_URL);
    store.insert_processed_update(10, Updatekind::Company, 0);
    store.insert_processed_update(11, Updatekind::Company, 0);
    store.insert_processed_update(30, Updatekind::Officer, 0);
    let resumed = StreamingKind::Company.stream_request(&store);
    assert_eq!(resumed.timepoint, Some(11));
    assert_eq!(StreamingKind::Officer.stream_request(&store).timepoint, Some(30));
}

#[test]
fn records_without_data_or_event_are_dropped() {
    let r = CompanyStreamingResponse { data: None, event: Some(event(1)), resource_id: None, resource_kind: None, resource_uri: None };
    assert!(company_update(r).is_none());
}

#[test]
fn monitored_officer_update_snapshots_the_officer() {
    let mut store = Store::new();
    let c = store.insert_check(Checkkind::MonitoredEntity, 0);
    store.start_monitoring(c, "X".to_string(), 0);
    let officer = OfficerData {
        name: Some("Jo".to_string()),
        officer_role: Some("director".to_string()),
        appointed_on: None,
        resigned_on: None,
        company_number: Some("X".to_string()),
    };
    let update = StreamingUpdateJob { event: event(5), kind: UpdateKind::Officer(officer) };
    update.do_job(&mut store, 1);
    assert_eq!(store.snapshots.len(), 1);
    assert_eq!(store.check_snapshot, vec![(c, 0)]);
    let e = store.get_entity(store.snapshots[0].entity_id).unwrap();
    assert_eq!(e.kind, company_investigation::models::Entitykind::Individual);
    assert_eq!(e.company_house_number, "X");
    assert_eq!(e.name, Some("Jo".to_string()));
    assert_eq!(store.processed_updates[0].kind, Updatekind::Officer);
}

#[test]
fn shareholder_records_become_update_jobs() {
    let none = ShareholderStreamingResponse { data: None, event: Some(event(1)), resource_id: None, resource_kind: None, resource_uri: None };
    assert!(shareholder_update(none).is_none());
    let mut store = Store::new();
    let mut producer = Producer::new(StreamingKind::Shareholder.topic().to_string(), None, None);
    let record = ShareholderStreamingResponse {
        data: Some(company_investigation::company_house::company_house_response_types::ShareholderListItem {
            address: None, ceased: None, ceased_on: None, country_of_residence: None, date_of_birth: None,
            description: None, etag: None, identification: None, is_sanctioned_bool: None, kind: None,
            links: None, name: Some("Holder".to_string()), name_elements: None, nationality: None,
            nature_of_control: None, notified_on: None, principal_office_address: None,
        }),
        event: Some(event(9)),
        resource_id: None,
        resource_kind: None,
        resource_uri: None,
    };
    let update = shareholder_update(record).unwrap();
    assert!(matches!(update.kind, UpdateKind::Shareholder));
    enqueue_update(&mut producer, &mut store, update, 0);
    assert_eq!(producer.outbox.len(), 1);
    assert_eq!(store.jobs.len(), 1);
}

#[test]
fn heartbeats_stay_transparent_across_batches() {
    let batches: Vec<&[u8]> = vec![b"\n{\"a\"", b":1}\n", b"\n", b"{\"b\":2}\n\n{", b"\"c\":3}", b"\n"];
    let mut framer = StreamFramer::new();
    let mut records = Vec::new();
    for b in batches {
        records.extend(framer.process_bytes(b));
    }
    assert_eq!(records, vec![b"{\"a\":1}\n".to_vec(), b"{\"b\":2}\n".to_vec()]);
    // The last batch begins with the newline of the record under way, so it is a heartbeat.
    assert_eq!(framer.buffer, b"{\"c\":3}".to_vec());
}
