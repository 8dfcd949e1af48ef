use company_investigation::company_house::company_house_response_types::{
    AppointedTo, AppointmentListItem, DateOfBirth, Identification, Officer, OfficerLinks,
    OfficerListItem, OfficerListResponse, Links, ShareholderID, ShareholderList,
    ShareholderListItem,
};
use company_investigation::dates::Date;
use company_investigation::models::{
    extract_officer_id, match_number_to_kind, officer_relations, shareholder_relations, Checkkind,
    Entity, EntityRelation, Entitykind, Relationshipkind,
};

fn shareholder(number: Option<&str>, kind: Option<&str>, dob: Option<DateOfBirth>) -> ShareholderListItem {
    ShareholderListItem {
        address: None,
        ceased: None,
        ceased_on: None,
        country_of_residence: None,
        date_of_birth: dob,
        description: None,
        etag: None,
        identification: Some(ShareholderID {
            country_registered: None,
            legal_authority: None,
            legal_form: None,
            place_registered: None,
            registration_number: number.map(|n| n.to_string()),
        }),
        is_sanctioned_bool: None,
        kind: kind.map(|k| k.to_string()),
        links: None,
        name: Some("Holder".to_string()),
        name_elements: None,
        nationality: None,
        nature_of_control: None,
        notified_on: Some(Date { days_from_ce: 730000 }),
        principal_office_address: None,
    }
}

fn officer(person_number: Option<&str>, registration: Option<&str>, appointments: Option<&str>) -> OfficerListItem {
    OfficerListItem {
        address: None,
        appointed_before: None,
        appointed_on: None,
        contact_details: None,
        date_of_birth: None,
        etag: None,
        former_names: None,
        identification: Some(Identification {
            identification_type: None,
            legal_authority: None,
            legal_form: None,
            place_registered: None,
            registration_number: registration.map(|n| n.to_string()),
        }),
        is_pre_1992_appointment: None,
        links: Some(OfficerLinks {
            officer: Some(Officer { appointments: appointments.map(|a| a.to_string()) }),
            self_: None,
        }),
        name: Some("Officer".to_string()),
        nationality: None,
        occupation: None,
        officer_role: None,
        person_number: person_number.map(|p| p.to_string()),
        principal_office_address: None,
        resigned_on: None,
        responsibilities: None,
    }
}

#[test]
fn shareholder_projection_keeps_number_kind_and_dates() {
    let dob = DateOfBirth { day: None, month: Some(4), year: Some(1970) };
    let rel = EntityRelation::from_shareholder(
        &shareholder(Some("01234567"), Some("individual-person-with-significant-control"), Some(dob)),
        false,
    )
    .unwrap();
    assert_eq!(rel.entity.company_house_number, "01234567");
    assert_eq!(rel.entity.kind, Entitykind::Individual);
    assert_eq!(rel.entity.date_of_origin, Some("0/4/1970".to_string()));
    assert_eq!(rel.started_on, Some(Date { days_from_ce: 730000 }));
    assert!(!rel.entity.is_root);
}

#[test]
fn shareholder_without_registration_number_is_skipped() {
    assert!(EntityRelation::from_shareholder(&shareholder(None, None, None), false).is_err());
    let list = ShareholderList {
        active_count: None,
        creased_count: None,
        items: Some(vec![shareholder(None, None, None), shareholder(Some("X1"), None, None)]),
        items_per_page: None,
        links: None,
        start_index: None,
        total_result: None,
    };
    let rels = shareholder_relations(&list);
    assert_eq!(rels.len(), 1);
    assert_eq!(rels[0].entity.company_house_number, "X1");
    assert_eq!(rels[0].entity.kind, Entitykind::Company);
}

#[test]
fn psc_kinds_map_to_entity_kinds() {
    let kinds = [
        ("individual-person-with-significant-control", Entitykind::Individual),
        ("corporate-entity-person-with-significant-control", Entitykind::Company),
        ("legal-person-with-significant-control", Entitykind::Individual),
        ("super-secure-person-with-significant-control", Entitykind::Individual),
        ("individual-beneficial-owner", Entitykind::Individual),
        ("corporate-entity-beneficial-owner", Entitykind::Company),
        ("legal-person-beneficial-owner", Entitykind::Individual),
        ("super-secure-beneficial-owner", Entitykind::Company),
        ("something-else", Entitykind::Company),
    ];
    for (k, expected) in kinds {
        assert_eq!(Entitykind::from_psc_kind(&Some(k.to_string())), expected, "{}", k);
    }
    assert_eq!(Entitykind::from_psc_kind(&None), Entitykind::Company);
}

#[test]
fn person_number_wins_over_registration_number() {
    let ident = Some(Identification {
        identification_type: None,
        legal_authority: None,
        legal_form: None,
        place_registered: None,
        registration_number: Some("C1".to_string()),
    });
    assert_eq!(
        match_number_to_kind(&Some("PN01".to_string()), &ident),
        Some(("PN01".to_string(), Entitykind::Individual))
    );
    assert_eq!(match_number_to_kind(&None, &ident), Some(("C1".to_string(), Entitykind::Company)));
    assert_eq!(match_number_to_kind(&None, &None), None);
}

#[test]
fn officer_id_is_second_segment_of_appointments_link() {
    let o = officer(Some("PN01"), None, Some("/officers/246qk5GYIymwRXPiiBMDBG7hRS8/appointments"));
    assert_eq!(extract_officer_id(&o), Some("246qk5GYIymwRXPiiBMDBG7hRS8".to_string()));
    let o = officer(Some("PN01"), None, Some("//officers//ABC"));
    assert_eq!(extract_officer_id(&o), Some("ABC".to_string()));
    let o = officer(Some("PN01"), None, Some("/officers"));
    assert_eq!(extract_officer_id(&o), None);
    let o = officer(Some("PN01"), None, None);
    assert_eq!(extract_officer_id(&o), None);
}

#[test]
fn officer_projection_and_list() {
    let rel = EntityRelation::from_officer(&officer(Some("PN09"), None, Some("/officers/OID/appointments")), false).unwrap();
    assert_eq!(rel.entity.company_house_number, "PN09");
    assert_eq!(rel.entity.kind, Entitykind::Individual);
    assert_eq!(rel.entity.officer_id, Some("OID".to_string()));
    assert_eq!(rel.entity.date_of_origin, Some("00/00/0000".to_string()));
    let resp = OfficerListResponse {
        active_count: None,
        etag: None,
        items: Some(vec![officer(None, None, None), officer(None, Some("C7"), None)]),
        items_per_page: None,
        kind: None,
        links: Links { self_: None },
        start_index: None,
        total_results: None,
    };
    let rels = officer_relations(&resp);
    assert_eq!(rels.len(), 1);
    assert_eq!(rels[0].entity.kind, Entitykind::Company);
    assert_eq!(rels[0].entity.company_house_number, "C7");
}

#[test]
fn appointment_projects_the_company_appointed_to() {
    let item = AppointmentListItem {
        address: None,
        appointed_before: None,
        appointed_on: Some(Date { days_from_ce: 5 }),
        appointed_to: Some(AppointedTo {
            company_name: Some("Acme".to_string()),
            company_number: Some("00000042".to_string()),
            company_status: None,
        }),
        contact_details: None,
        country_of_residence: None,
        former_names: None,
        identification: None,
        is_pre_1992_appointment: None,
        links: None,
        name: None,
        name_elements: None,
        nationality: None,
        occupation: None,
        officer_role: None,
        principal_office_address: None,
        resigned_on: None,
        responsibilities: None,
    };
    let rel = EntityRelation::from_appointment(&item).unwrap();
    assert_eq!(rel.entity.company_house_number, "00000042");
    assert_eq!(rel.entity.name, Some("Acme".to_string()));
    assert_eq!(rel.entity.kind, Entitykind::Company);
    assert_eq!(rel.started_on, Some(Date { days_from_ce: 5 }));
}

#[test]
fn kind_labels_round_trip() {
    for k in [Entitykind::Company, Entitykind::Individual] {
        assert_eq!(Entitykind::from_label(k.label()), Ok(k));
    }
    for k in [Relationshipkind::Shareholder, Relationshipkind::Officer] {
        assert_eq!(Relationshipkind::from_label(k.label()), Ok(k));
    }
    for k in [Checkkind::EntityRelation, Checkkind::MonitoredEntity] {
        assert_eq!(Checkkind::from_label(k.label()), Ok(k));
    }
    assert_eq!(Entitykind::label(&Entitykind::Individual), "individual");
    assert_eq!(Entitykind::from_label("person"), Err(()));
}

#[test]
fn root_entity_is_a_company_root() {
    let root = Entity::create_root("03977902".to_string());
    assert!(root.is_root);
    assert_eq!(root.kind, Entitykind::Company);
    assert_eq!(root.company_house_number, "03977902");
}
