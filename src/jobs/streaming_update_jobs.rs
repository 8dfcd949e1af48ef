//! Streaming-update jobs: one change event of the registry stream.
use vstd::prelude::*;

use crate::company_house::company_house_streaming_types::{CompanyData, Event, OfficerData};
use crate::models::{spec_company_data_entity, Entity, Entitykind, Updatekind};
use crate::store::{monitoring_checks, same_annotations, same_jobs, snapshot_links, ProcessedUpdate, Snapshot, Store};
use crate::text::clone_opt_string;

verus! {

/// The payload of a change event, by stream.
#[derive(Debug, Clone)]
pub enum UpdateKind {
    Company(CompanyData),
    Officer(OfficerData),
    Shareholder,
}

#[derive(Debug, Clone)]
pub struct StreamingUpdateJob {
    pub event: Event,
    pub kind: UpdateKind,
}

/// The registry number an update is about: the company's number for a company update and
/// the appointing company's number for an officer update; none for a shareholder update.
pub open spec fn spec_update_number(kind: UpdateKind) -> Option<String> {
    match kind {
        UpdateKind::Company(d) => d.company_number,
        UpdateKind::Officer(d) => d.company_number,
        UpdateKind::Shareholder => None,
    }
}

/// The stream an update came from.
pub open spec fn spec_update_kind(kind: UpdateKind) -> Updatekind {
    match kind {
        UpdateKind::Company(_) => Updatekind::Company,
        UpdateKind::Officer(_) => Updatekind::Officer,
        UpdateKind::Shareholder => Updatekind::Shareholder,
    }
}

/// The entity a snapshot records for an update: the company of a company update, the
/// officer of an officer update (an individual, under the number the payload gives).
pub open spec fn spec_update_entity(kind: UpdateKind) -> Option<Entity> {
    match kind {
        UpdateKind::Company(d) => spec_company_data_entity(d),
        UpdateKind::Officer(d) => spec_officer_data_entity(d),
        UpdateKind::Shareholder => None,
    }
}

/// The officer an officer-stream payload describes: none without a number.
pub open spec fn spec_officer_data_entity(d: OfficerData) -> Option<Entity> {
    match d.company_number {
        Some(n) => Some(
            Entity {
                id: 0,
                company_house_number: n,
                name: d.name,
                kind: Entitykind::Individual,
                country: None,
                postal_code: None,
                date_of_origin: None,
                is_root: false,
                officer_id: None,
            },
        ),
        None => None,
    }
}

/// The officer an officer-stream payload describes, if it names a number.
pub fn officer_data_entity(d: &OfficerData) -> (r: Option<Entity>)
    ensures
        r == spec_officer_data_entity(*d),
{
    match &d.company_number {
        Some(n) => Some(
            Entity {
                id: 0,
                company_house_number: n.clone(),
                name: clone_opt_string(&d.name),
                kind: Entitykind::Individual,
                country: None,
                postal_code: None,
                date_of_origin: None,
                is_root: false,
                officer_id: None,
            },
        ),
        None => None,
    }
}

impl UpdateKind {
    /// The stream this update came from.
    pub fn update_kind(&self) -> (r: Updatekind)
        ensures
            r == spec_update_kind(*self),
    {
        match self {
            UpdateKind::Company(_) => Updatekind::Company,
            UpdateKind::Officer(_) => Updatekind::Officer,
            UpdateKind::Shareholder => Updatekind::Shareholder,
        }
    }

    /// The registry number this update is about, if its payload names one.
    pub fn registry_number(&self) -> (r: Option<String>)
        ensures
            r == spec_update_number(*self),
    {
        match self {
            UpdateKind::Company(d) => clone_opt_string(&d.company_number),
            UpdateKind::Officer(d) => clone_opt_string(&d.company_number),
            UpdateKind::Shareholder => None,
        }
    }
}

impl StreamingUpdateJob {
    /// The checks that actively monitor the registry number of this update.
    pub open spec fn spec_monitoring_checks(self, store: Store) -> Seq<u128> {
        match spec_update_number(self.kind) {
            Some(n) => monitoring_checks(
                store.check_monitored_entity@,
                store.monitored_entities@,
                store.monitoring_spans@,
                n@,
            ),
            None => Seq::empty(),
        }
    }

    /// The checks that actively monitor the registry number of this update.
    pub fn get_check_ids_monitoring_entity(&self, store: &Store) -> (r: Vec<u128>)
        requires
            store.wf(),
        ensures
            r@ == self.spec_monitoring_checks(*store),
    {
        match self.kind.registry_number() {
            Some(n) => store.get_monitored_entity_check_ids(&n),
            None => Vec::new(),
        }
    }

    /// Applies this update at `now`: when checks monitor its registry number and it carries an
    /// entity, a snapshot of the entity for those checks; in every case, a processed-update
    /// row for the event's timepoint.
    pub fn do_job(&self, store: &mut Store, now: i64)
        requires
            old(store).wf(),
        ensures
            final(store).wf(),
            ({
                let checks = self.spec_monitoring_checks(*old(store));
                if checks.len() > 0 {
                    &&& spec_update_entity(self.kind) is Some
                    &&& final(store).entities@ == old(store).entities@.push(
                        Entity { id: old(store).entities@.len() as u128, ..spec_update_entity(self.kind)->0 },
                    )
                    &&& final(store).snapshots@ == old(store).snapshots@.push(
                        Snapshot {
                            id: old(store).snapshots@.len() as u128,
                            recieved_at: now,
                            entity_id: old(store).entities@.len() as u128,
                        },
                    )
                    &&& final(store).check_snapshot@ == old(store).check_snapshot@ + snapshot_links(
                        checks,
                        old(store).snapshots@.len() as u128,
                    )
                } else {
                    &&& final(store).entities@ == old(store).entities@
                    &&& final(store).snapshots@ == old(store).snapshots@
                    &&& final(store).check_snapshot@ == old(store).check_snapshot@
                }
            }),
            final(store).processed_updates@ == old(store).processed_updates@.push(
                ProcessedUpdate {
                    id: old(store).processed_updates@.len() as u128,
                    processed_at: now,
                    timepoint: self.event.timepoint,
                    kind: spec_update_kind(self.kind),
                },
            ),
            final(store).checks@ == old(store).checks@,
            final(store).check_entity_map@ == old(store).check_entity_map@,
            final(store).relationships@ == old(store).relationships@,
            final(store).monitoring_spans@ == old(store).monitoring_spans@,
            final(store).monitored_entities@ == old(store).monitored_entities@,
            final(store).check_monitored_entity@ == old(store).check_monitored_entity@,
            same_jobs(*old(store), *final(store)),
            same_annotations(*old(store), *final(store)),
    {
        let check_ids = self.get_check_ids_monitoring_entity(store);
        if check_ids.len() > 0 {
            let entity = match &self.kind {
                UpdateKind::Company(company_data) => Entity::from_company_data(company_data),
                UpdateKind::Officer(officer_data) => officer_data_entity(officer_data),
                UpdateKind::Shareholder => None,
            };
            match entity {
                Some(entity) => store.insert_entity_snapshot(&entity, &check_ids, now),
                None => {},
            }
        }
        store.insert_processed_update(self.event.timepoint, self.kind.update_kind(), now);
    }
}

} // verus!
