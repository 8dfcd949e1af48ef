//! Entities, relationships and the kinds the store records them under, and the projection
//! of registry records into entities.
use vstd::prelude::*;

use crate::company_house::company_house_response_types::{
    AppointmentListItem, AppointmentsResponse, DateOfBirth, Identification, OfficerListItem,
    OfficerListResponse, ShareholderList, ShareholderListItem,
};
use crate::company_house::company_house_streaming_types::CompanyData;
use crate::dates::Date;
use crate::text::{clone_opt_string, str_eq};

verus! {

/// The kind of edge between a parent entity and a child entity.
#[derive(Debug, Clone, Copy, PartialEq, Eq, Structural)]
pub enum Relationshipkind {
    Shareholder,
    Officer,
}

/// Whether an entity is a company or an individual.
#[derive(Debug, Clone, Copy, PartialEq, Eq, Structural)]
pub enum Entitykind {
    Company,
    Individual,
}

/// What a check investigates.
#[derive(Debug, Clone, Copy, PartialEq, Eq, Structural)]
pub enum Checkkind {
    EntityRelation,
    MonitoredEntity,
}

/// The change-event stream an update came from.
#[derive(Debug, Clone, Copy, PartialEq, Eq, Structural)]
pub enum Updatekind {
    Company,
    Officer,
    Shareholder,
}

impl Relationshipkind {
    /// The name under which the store keeps this kind.
    pub fn label(&self) -> (r: &'static str)
        ensures
            r@ == match *self {
                Relationshipkind::Shareholder => "shareholder"@,
                Relationshipkind::Officer => "officer"@,
            },
    {
        match self {
            Relationshipkind::Shareholder => "shareholder",
            Relationshipkind::Officer => "officer",
        }
    }

    /// Reads back a kind from its stored name.
    pub fn from_label(value: &str) -> (r: Result<Relationshipkind, ()>)
        ensures
            r == (if value@ == "shareholder"@ {
                Ok(Relationshipkind::Shareholder)
            } else if value@ == "officer"@ {
                Ok(Relationshipkind::Officer)
            } else {
                Err(())
            }),
    {
        if str_eq(value, "shareholder") {
            Ok(Relationshipkind::Shareholder)
        } else if str_eq(value, "officer") {
            Ok(Relationshipkind::Officer)
        } else {
            Err(())
        }
    }
}

impl Entitykind {
    /// The name under which the store keeps this kind.
    pub fn label(&self) -> (r: &'static str)
        ensures
            r@ == match *self {
                Entitykind::Company => "company"@,
                Entitykind::Individual => "individual"@,
            },
    {
        match self {
            Entitykind::Company => "company",
            Entitykind::Individual => "individual",
        }
    }

    /// Reads back a kind from its stored name.
    pub fn from_label(value: &str) -> (r: Result<Entitykind, ()>)
        ensures
            r == (if value@ == "company"@ {
                Ok(Entitykind::Company)
            } else if value@ == "individual"@ {
                Ok(Entitykind::Individual)
            } else {
                Err(())
            }),
    {
        if str_eq(value, "company") {
            Ok(Entitykind::Company)
        } else if str_eq(value, "individual") {
            Ok(Entitykind::Individual)
        } else {
            Err(())
        }
    }

    /// The kind of entity that a shareholder record's `kind` names; a missing or unknown
    /// kind is a company.
    pub fn from_psc_kind(kind: &Option<String>) -> (r: Entitykind)
        ensures
            r == psc_entity_kind(*kind),
    {
        match kind {
            None => Entitykind::Company,
            Some(k) => {
                let k = k.as_str();
                if str_eq(k, "individual-person-with-significant-control") || str_eq(
                    k,
                    "legal-person-with-significant-control",
                ) || str_eq(k, "super-secure-person-with-significant-control") || str_eq(
                    k,
                    "individual-beneficial-owner",
                ) || str_eq(k, "legal-person-beneficial-owner") {
                    Entitykind::Individual
                } else {
                    Entitykind::Company
                }
            },
        }
    }
}

/// The kinds of shareholder record that stand for an individual.
pub open spec fn psc_entity_kind(kind: Option<String>) -> Entitykind {
    match kind {
        Some(k) => if k@ == "individual-person-with-significant-control"@ || k@
            == "legal-person-with-significant-control"@ || k@
            == "super-secure-person-with-significant-control"@ || k@
            == "individual-beneficial-owner"@ || k@ == "legal-person-beneficial-owner"@ {
            Entitykind::Individual
        } else {
            Entitykind::Company
        },
        None => Entitykind::Company,
    }
}

impl Checkkind {
    /// The name under which the store keeps this kind.
    pub fn label(&self) -> (r: &'static str)
        ensures
            r@ == match *self {
                Checkkind::EntityRelation => "entity_relation"@,
                Checkkind::MonitoredEntity => "monitored_entity"@,
            },
    {
        match self {
            Checkkind::EntityRelation => "entity_relation",
            Checkkind::MonitoredEntity => "monitored_entity",
        }
    }

    /// Reads back a kind from its stored name.
    pub fn from_label(value: &str) -> (r: Result<Checkkind, ()>)
        ensures
            r == (if value@ == "entity_relation"@ {
                Ok(Checkkind::EntityRelation)
            } else if value@ == "monitored_entity"@ {
                Ok(Checkkind::MonitoredEntity)
            } else {
                Err(())
            }),
    {
        if str_eq(value, "entity_relation") {
            Ok(Checkkind::EntityRelation)
        } else if str_eq(value, "monitored_entity") {
            Ok(Checkkind::MonitoredEntity)
        } else {
            Err(())
        }
    }
}

/// A company or an individual. `company_house_number` is the registry number: the company
/// number of a company, the person number of an individual.
#[derive(Debug, Clone)]
pub struct Entity {
    pub id: u128,
    pub company_house_number: String,
    pub name: Option<String>,
    pub kind: Entitykind,
    pub country: Option<String>,
    pub postal_code: Option<String>,
    pub date_of_origin: Option<String>,
    pub is_root: bool,
    pub officer_id: Option<String>,
}

/// An entity found through a relation, with the dates the relation held.
#[derive(Debug, Clone)]
pub struct EntityRelation {
    pub entity: Entity,
    pub started_on: Option<Date>,
    pub ended_on: Option<Date>,
}

/// A directed edge: `parent_id` is a shareholder or officer of `child_id`.
#[derive(Debug, Clone, Copy, PartialEq, Eq, Structural)]
pub struct Relationship {
    pub parent_id: u128,
    pub child_id: u128,
    pub kind: Relationshipkind,
    pub started_on: Option<Date>,
    pub ended_on: Option<Date>,
}

impl Entity {
    /// The root entity of a new check: a company known only by its registry number.
    /// The store gives it its id when it is inserted.
    pub fn create_root(company_house_number: String) -> (r: Entity)
        ensures
            r == spec_root_entity(company_house_number),
    {
        Entity {
            id: 0,
            is_root: true,
            company_house_number,
            name: None,
            kind: Entitykind::Company,
            country: None,
            postal_code: None,
            date_of_origin: None,
            officer_id: None,
        }
    }

    /// The company that a change-event record describes, if the record names its number.
    pub fn from_company_data(company_data: &CompanyData) -> (r: Option<Entity>)
        ensures
            r == spec_company_data_entity(*company_data),
    {
        let number = match &company_data.company_number {
            Some(n) => n.clone(),
            None => return None,
        };
        let (country, postal_code) = match &company_data.registered_office_address {
            Some(address) => (clone_opt_string(&address.country), clone_opt_string(
                &address.postal_code,
            )),
            None => (None, None),
        };
        Some(
            Entity {
                id: 0,
                company_house_number: number,
                name: clone_opt_string(&company_data.company_name),
                kind: Entitykind::Company,
                country,
                postal_code,
                date_of_origin: clone_opt_string(&company_data.date_of_creation),
                is_root: false,
                officer_id: None,
            },
        )
    }
}

/// The root entity of a check on registry number `number`.
pub open spec fn spec_root_entity(number: String) -> Entity {
    Entity {
        id: 0,
        company_house_number: number,
        name: None,
        kind: Entitykind::Company,
        country: None,
        postal_code: None,
        date_of_origin: None,
        is_root: true,
        officer_id: None,
    }
}

/// The company a change-event record describes: none without its number.
pub open spec fn spec_company_data_entity(d: CompanyData) -> Option<Entity> {
    match d.company_number {
        Some(n) => Some(
            Entity {
                id: 0,
                company_house_number: n,
                name: d.company_name,
                kind: Entitykind::Company,
                country: match d.registered_office_address {
                    Some(a) => a.country,
                    None => None,
                },
                postal_code: match d.registered_office_address {
                    Some(a) => a.postal_code,
                    None => None,
                },
                date_of_origin: d.date_of_creation,
                is_root: false,
                officer_id: None,
            },
        ),
        None => None,
    }
}

/// The decimal digits of a natural number, most significant first.
pub open spec fn decimal_digits(n: nat) -> Seq<char>
    decreases n,
{
    let d = seq!['0', '1', '2', '3', '4', '5', '6', '7', '8', '9'][(n % 10) as int];
    if n < 10 {
        seq![d]
    } else {
        decimal_digits(n / 10).push(d)
    }
}

/// An integer as Rust's `Display` writes it.
pub open spec fn decimal(n: int) -> Seq<char> {
    if n < 0 {
        seq!['-'] + decimal_digits((-n) as nat)
    } else {
        decimal_digits(n as nat)
    }
}

/// A date of birth written day/month/year.
pub open spec fn dob_text(day: i32, month: i32, year: i32) -> Seq<char> {
    decimal(day as int) + seq!['/'] + decimal(month as int) + seq!['/'] + decimal(year as int)
}

/// Relies on `format!` with `i32`'s `Display`, which writes an integer in decimal with a
/// leading minus sign when negative.
#[verifier::external_body]
fn format_dob(day: i32, month: i32, year: i32) -> (r: String)
    ensures
        r@ == dob_text(day, month, year),
{
    format!("{}/{}/{}", day, month, year)
}

/// The date of origin that a shareholder record's date of birth gives: none without a year,
/// a missing day or month written as 0.
pub open spec fn spec_shareholder_dob(dob: Option<DateOfBirth>) -> Option<Seq<char>> {
    match dob {
        Some(d) => match d.year {
            Some(y) => Some(
                dob_text(
                    match d.day {
                        Some(x) => x,
                        None => 0,
                    },
                    match d.month {
                        Some(x) => x,
                        None => 0,
                    },
                    y,
                ),
            ),
            None => None,
        },
        None => None,
    }
}

fn shareholder_dob(dob: &Option<DateOfBirth>) -> (r: Option<String>)
    ensures
        r matches Some(s) ==> spec_shareholder_dob(*dob) == Some(s@),
        r is None <==> spec_shareholder_dob(*dob) is None,
{
    match dob {
        Some(d) => match d.year {
            Some(y) => {
                let day = match d.day {
                    Some(x) => x,
                    None => 0,
                };
                let month = match d.month {
                    Some(x) => x,
                    None => 0,
                };
                Some(format_dob(day, month, y))
            },
            None => None,
        },
        None => None,
    }
}

/// What the store needs of a shareholder record: its registration number is required.
pub open spec fn shareholder_projects(item: ShareholderListItem, rel: EntityRelation, is_root: bool) -> bool {
    &&& item.identification matches Some(ident)
    &&& ident.registration_number == Some(rel.entity.company_house_number)
    &&& rel.entity.id == 0
    &&& rel.entity.officer_id is None
    &&& rel.entity.name == item.name
    &&& rel.entity.kind == psc_entity_kind(item.kind)
    &&& rel.entity.country == match item.address {
        Some(a) => a.country,
        None => None,
    }
    &&& rel.entity.postal_code == match item.address {
        Some(a) => a.postal_code,
        None => None,
    }
    &&& (match rel.entity.date_of_origin {
        Some(s) => spec_shareholder_dob(item.date_of_birth) == Some(s@),
        None => spec_shareholder_dob(item.date_of_birth) is None,
    })
    &&& rel.entity.is_root == is_root
    &&& rel.started_on == item.notified_on
    &&& rel.ended_on == item.ceased_on
}

/// Whether a shareholder record carries the registration number that identifies it.
pub open spec fn shareholder_identified(item: ShareholderListItem) -> bool {
    item.identification matches Some(ident) && ident.registration_number is Some
}

/// The registry number and kind of an officer: a person number makes an individual, else a
/// registration number makes a company.
pub open spec fn spec_number_to_kind(
    person_number: Option<String>,
    identification: Option<Identification>,
) -> Option<(String, Entitykind)> {
    match person_number {
        Some(p) => Some((p, Entitykind::Individual)),
        None => match identification {
            Some(ident) => match ident.registration_number {
                Some(n) => Some((n, Entitykind::Company)),
                None => None,
            },
            None => None,
        },
    }
}

/// The registry number and kind of an officer: a person number makes an individual, else a
/// registration number makes a company.
pub fn match_number_to_kind(
    person_number: &Option<String>,
    identification: &Option<Identification>,
) -> (r: Option<(String, Entitykind)>)
    ensures
        r == spec_number_to_kind(*person_number, *identification),
{
    match person_number {
        Some(person_number) => return Some((person_number.clone(), Entitykind::Individual)),
        None => {},
    }
    match identification {
        Some(identification) => match &identification.registration_number {
            Some(n) => Some((n.clone(), Entitykind::Company)),
            None => None,
        },
        None => None,
    }
}

/// The date of origin recorded for an officer, whose record gives no full date of birth.
pub const UNKNOWN_DATE_OF_ORIGIN: &'static str = "00/00/0000";

/// What the store needs of an officer record: a person number or a registration number.
pub open spec fn officer_projects(item: OfficerListItem, rel: EntityRelation, is_root: bool) -> bool {
    &&& spec_number_to_kind(item.person_number, item.identification) == Some(
        (rel.entity.company_house_number, rel.entity.kind),
    )
    &&& rel.entity.id == 0
    &&& rel.entity.name == item.name
    &&& rel.entity.country == match item.address {
        Some(a) => a.country,
        None => None,
    }
    &&& rel.entity.postal_code == match item.address {
        Some(a) => a.postal_code,
        None => None,
    }
    &&& rel.entity.date_of_origin matches Some(s) && s@ == UNKNOWN_DATE_OF_ORIGIN@
    &&& opt_view(rel.entity.officer_id) == officer_id_text(item)
    &&& rel.entity.is_root == is_root
    &&& rel.started_on == item.appointed_on
    &&& rel.ended_on == item.resigned_on
}

/// What the store needs of an appointment record: the number of the company appointed to.
pub open spec fn appointment_projects(item: AppointmentListItem, rel: EntityRelation) -> bool {
    &&& item.appointed_to matches Some(to)
    &&& to.company_number == Some(rel.entity.company_house_number)
    &&& rel.entity.name == to.company_name
    &&& rel.entity == Entity {
        id: 0,
        company_house_number: rel.entity.company_house_number,
        name: rel.entity.name,
        kind: Entitykind::Company,
        country: None,
        postal_code: None,
        date_of_origin: None,
        is_root: false,
        officer_id: None,
    }
    &&& rel.started_on == item.appointed_on
    &&& rel.ended_on == item.resigned_on
}

/// Whether position `k` of `s` starts a non-empty `/`-separated segment.
pub open spec fn seg_start(s: Seq<char>, k: int) -> bool {
    0 <= k < s.len() && s[k] != '/' && (k == 0 || s[k - 1] == '/')
}

/// How many non-empty segments start before position `i`.
pub open spec fn starts_before(s: Seq<char>, i: int) -> nat
    decreases i,
{
    if i <= 0 {
        0
    } else {
        starts_before(s, i - 1) + if seg_start(s, i - 1) {
            1nat
        } else {
            0nat
        }
    }
}

/// Where the segment that runs through position `p` ends: the first `/` from `p` on, or
/// the end of `s`.
pub open spec fn seg_end(s: Seq<char>, p: int) -> int
    decreases s.len() - p,
{
    if p >= s.len() || p < 0 {
        s.len() as int
    } else if s[p] == '/' {
        p
    } else {
        seg_end(s, p + 1)
    }
}

/// The second non-empty `/`-separated segment of `s`, if there is one.
pub open spec fn second_segment(s: Seq<char>) -> Option<Seq<char>> {
    if exists|p: int| seg_start(s, p) && starts_before(s, p) == 1 {
        let p = choose|p: int| seg_start(s, p) && starts_before(s, p) == 1;
        Some(s.subrange(p, seg_end(s, p)))
    } else {
        None
    }
}

/// The view of an optional string.
pub open spec fn opt_view(o: Option<String>) -> Option<Seq<char>> {
    match o {
        Some(s) => Some(s@),
        None => None,
    }
}

/// The officer id inside an officer record's appointments link
/// (`/officers/<id>/appointments`): its second non-empty segment.
pub open spec fn officer_id_text(item: OfficerListItem) -> Option<Seq<char>> {
    match item.links {
        Some(l) => match l.officer {
            Some(o) => match o.appointments {
                Some(a) => second_segment(a@),
                None => None,
            },
            None => None,
        },
        None => None,
    }
}

/// Segment counts only grow along a text.
proof fn lemma_starts_before_monotone(s: Seq<char>, a: int, b: int)
    requires
        a <= b,
    ensures
        starts_before(s, a) <= starts_before(s, b),
    decreases b - a,
{
    if a < b {
        lemma_starts_before_monotone(s, a, b - 1);
    }
}

fn second_segment_of(s: &str) -> (r: Option<String>)
    ensures
        opt_view(r) == second_segment(s@),
{
    let n = s.unicode_len();
    let mut i: usize = 0;
    let mut count: usize = 0;
    while i < n
        invariant
            n == s@.len(),
            i <= n,
            count == starts_before(s@, i as int),
            count <= 1,
            forall|k: int| 0 <= k < i ==> !(seg_start(s@, k) && starts_before(s@, k) == 1),
        decreases n - i,
    {
        let c = s.get_char(i);
        let starts = c != '/' && (i == 0 || s.get_char(i - 1) == '/');
        assert(starts == seg_start(s@, i as int));
        if starts {
            if count == 1 {
                let mut j: usize = i;
                while j < n && s.get_char(j) != '/'
                    invariant
                        n == s@.len(),
                        i <= j <= n,
                        seg_end(s@, i as int) == seg_end(s@, j as int),
                    decreases n - j,
                {
                    j = j + 1;
                }
                proof {
                    assert forall|p: int| seg_start(s@, p) && starts_before(s@, p) == 1 implies p
                        == i by {
                        if p > i {
                            lemma_starts_before_monotone(s@, i + 1, p);
                        }
                    }
                }
                return Some(s.substring_char(i, j).to_owned());
            }
            count = count + 1;
        }
        i = i + 1;
    }
    None
}

/// The officer id that an officer record's links give, if any.
pub fn extract_officer_id(officer_item: &OfficerListItem) -> (r: Option<String>)
    ensures
        opt_view(r) == officer_id_text(*officer_item),
{
    match &officer_item.links {
        Some(links) => match &links.officer {
            Some(officer) => match &officer.appointments {
                Some(appointments) => second_segment_of(appointments.as_str()),
                None => None,
            },
            None => None,
        },
        None => None,
    }
}

impl EntityRelation {
    /// Projects a shareholder record; fails when it carries no registration number.
    pub fn from_shareholder(shareholder: &ShareholderListItem, is_root: bool) -> (r: Result<
        EntityRelation,
        (),
    >)
        ensures
            r is Ok <==> shareholder_identified(*shareholder),
            r matches Ok(rel) ==> shareholder_projects(*shareholder, rel, is_root),
    {
        let ident = match &shareholder.identification {
            Some(identification) => identification,
            None => return Err(()),
        };
        let number = match &ident.registration_number {
            Some(n) => n.clone(),
            None => return Err(()),
        };
        let (country, postal_code) = match &shareholder.address {
            Some(address) => (clone_opt_string(&address.country), clone_opt_string(
                &address.postal_code,
            )),
            None => (None, None),
        };
        let entity = Entity {
            id: 0,
            company_house_number: number,
            officer_id: None,
            name: clone_opt_string(&shareholder.name),
            kind: Entitykind::from_psc_kind(&shareholder.kind),
            country,
            postal_code,
            date_of_origin: shareholder_dob(&shareholder.date_of_birth),
            is_root,
        };
        Ok(
            EntityRelation {
                entity,
                started_on: shareholder.notified_on,
                ended_on: shareholder.ceased_on,
            },
        )
    }

    /// Projects an officer record; fails when it carries neither a person number nor a
    /// registration number.
    pub fn from_officer(officer: &OfficerListItem, is_root: bool) -> (r: Result<EntityRelation, ()>)
        ensures
            r is Ok <==> spec_number_to_kind(officer.person_number, officer.identification) is Some,
            r matches Ok(rel) ==> officer_projects(*officer, rel, is_root),
    {
        let (number, kind) = match match_number_to_kind(
            &officer.person_number,
            &officer.identification,
        ) {
            Some(found) => found,
            None => return Err(()),
        };
        let (country, postal_code) = match &officer.address {
            Some(address) => (clone_opt_string(&address.country), clone_opt_string(
                &address.postal_code,
            )),
            None => (None, None),
        };
        let entity = Entity {
            id: 0,
            company_house_number: number,
            officer_id: extract_officer_id(officer),
            name: clone_opt_string(&officer.name),
            kind,
            country,
            postal_code,
            date_of_origin: Some(UNKNOWN_DATE_OF_ORIGIN.to_owned()),
            is_root,
        };
        Ok(EntityRelation { entity, started_on: officer.appointed_on, ended_on: officer.resigned_on })
    }

    /// Projects an appointment record into the company appointed to; fails when the record
    /// does not name that company's number.
    pub fn from_appointment(appointment: &AppointmentListItem) -> (r: Result<EntityRelation, ()>)
        ensures
            r is Ok <==> (appointment.appointed_to matches Some(to) && to.company_number is Some),
            r matches Ok(rel) ==> appointment_projects(*appointment, rel),
    {
        let (number, name) = match &appointment.appointed_to {
            Some(to) => (clone_opt_string(&to.company_number), clone_opt_string(&to.company_name)),
            None => return Err(()),
        };
        let number = match number {
            Some(n) => n,
            None => return Err(()),
        };
        let entity = Entity {
            id: 0,
            company_house_number: number,
            officer_id: None,
            name,
            kind: Entitykind::Company,
            country: None,
            postal_code: None,
            date_of_origin: None,
            is_root: false,
        };
        Ok(
            EntityRelation {
                entity,
                started_on: appointment.appointed_on,
                ended_on: appointment.resigned_on,
            },
        )
    }
}

/// Whether an officer record carries a person number or a registration number.
pub open spec fn officer_identified(item: OfficerListItem) -> bool {
    spec_number_to_kind(item.person_number, item.identification) is Some
}

/// Whether an appointment record names the number of the company appointed to.
pub open spec fn appointment_identified(item: AppointmentListItem) -> bool {
    item.appointed_to matches Some(to) && to.company_number is Some
}

/// The shareholder records that project into entities, in order.
pub open spec fn identified_shareholders(items: Seq<ShareholderListItem>) -> Seq<ShareholderListItem>
    decreases items.len(),
{
    if items.len() == 0 {
        Seq::empty()
    } else {
        let rest = identified_shareholders(items.drop_last());
        if shareholder_identified(items.last()) {
            rest.push(items.last())
        } else {
            rest
        }
    }
}

/// The entities that a shareholder response names, in order; records that cannot be
/// projected are skipped.
pub fn shareholder_relations(response: &ShareholderList) -> (r: Vec<EntityRelation>)
    ensures
        r@.len() == identified_shareholders(match response.items { Some(v) => v@, None => Seq::empty() }).len(),
        forall|k: int|
            0 <= k < r@.len() ==> shareholder_projects(identified_shareholders(match response.items { Some(v) => v@, None => Seq::empty() })[k], #[trigger] r@[k], false),
{
    let mut out: Vec<EntityRelation> = Vec::new();
    let items = match &response.items {
        Some(items) => items,
        None => {
            assert(identified_shareholders(Seq::<ShareholderListItem>::empty()) =~= Seq::<ShareholderListItem>::empty());
            return out;
        },
    };
    let mut i: usize = 0;
    while i < items.len()
        invariant
            i <= items@.len(),
            response.items == Some(*items),
            out@.len() == identified_shareholders(items@.subrange(0, i as int)).len(),
            forall|k: int|
                0 <= k < out@.len() ==> shareholder_projects(
                    identified_shareholders(items@.subrange(0, i as int))[k],
                    #[trigger] out@[k], false,
                ),
        decreases items@.len() - i,
    {
        assert(items@.subrange(0, i + 1).drop_last() =~= items@.subrange(0, i as int));
        match EntityRelation::from_shareholder(&items[i], false) {
            Ok(rel) => out.push(rel),
            Err(_) => {},
        }
        i = i + 1;
    }
    assert(items@.subrange(0, items@.len() as int) =~= items@);
    out
}

/// The officer records that project into entities, in order.
pub open spec fn identified_officers(items: Seq<OfficerListItem>) -> Seq<OfficerListItem>
    decreases items.len(),
{
    if items.len() == 0 {
        Seq::empty()
    } else {
        let rest = identified_officers(items.drop_last());
        if officer_identified(items.last()) {
            rest.push(items.last())
        } else {
            rest
        }
    }
}

/// The entities that a officer response names, in order; records that cannot be
/// projected are skipped.
pub fn officer_relations(response: &OfficerListResponse) -> (r: Vec<EntityRelation>)
    ensures
        r@.len() == identified_officers(match response.items { Some(v) => v@, None => Seq::empty() }).len(),
        forall|k: int|
            0 <= k < r@.len() ==> officer_projects(identified_officers(match response.items { Some(v) => v@, None => Seq::empty() })[k], #[trigger] r@[k], false),
{
    let mut out: Vec<EntityRelation> = Vec::new();
    let items = match &response.items {
        Some(items) => items,
        None => {
            assert(identified_officers(Seq::<OfficerListItem>::empty()) =~= Seq::<OfficerListItem>::empty());
            return out;
        },
    };
    let mut i: usize = 0;
    while i < items.len()
        invariant
            i <= items@.len(),
            response.items == Some(*items),
            out@.len() == identified_officers(items@.subrange(0, i as int)).len(),
            forall|k: int|
                0 <= k < out@.len() ==> officer_projects(
                    identified_officers(items@.subrange(0, i as int))[k],
                    #[trigger] out@[k], false,
                ),
        decreases items@.len() - i,
    {
        assert(items@.subrange(0, i + 1).drop_last() =~= items@.subrange(0, i as int));
        match EntityRelation::from_officer(&items[i], false) {
            Ok(rel) => out.push(rel),
            Err(_) => {},
        }
        i = i + 1;
    }
    assert(items@.subrange(0, items@.len() as int) =~= items@);
    out
}

/// The appointment records that project into entities, in order.
pub open spec fn identified_appointments(items: Seq<AppointmentListItem>) -> Seq<AppointmentListItem>
    decreases items.len(),
{
    if items.len() == 0 {
        Seq::empty()
    } else {
        let rest = identified_appointments(items.drop_last());
        if appointment_identified(items.last()) {
            rest.push(items.last())
        } else {
            rest
        }
    }
}

/// The entities that a appointment response names, in order; records that cannot be
/// projected are skipped.
pub fn appointment_relations(response: &AppointmentsResponse) -> (r: Vec<EntityRelation>)
    ensures
        r@.len() == identified_appointments(match response.items { Some(v) => v@, None => Seq::empty() }).len(),
        forall|k: int|
            0 <= k < r@.len() ==> appointment_projects(identified_appointments(match response.items { Some(v) => v@, None => Seq::empty() })[k], #[trigger] r@[k]),
{
    let mut out: Vec<EntityRelation> = Vec::new();
    let items = match &response.items {
        Some(items) => items,
        None => {
            assert(identified_appointments(Seq::<AppointmentListItem>::empty()) =~= Seq::<AppointmentListItem>::empty());
            return out;
        },
    };
    let mut i: usize = 0;
    while i < items.len()
        invariant
            i <= items@.len(),
            response.items == Some(*items),
            out@.len() == identified_appointments(items@.subrange(0, i as int)).len(),
            forall|k: int|
                0 <= k < out@.len() ==> appointment_projects(
                    identified_appointments(items@.subrange(0, i as int))[k],
                    #[trigger] out@[k],
                ),
        decreases items@.len() - i,
    {
        assert(items@.subrange(0, i + 1).drop_last() =~= items@.subrange(0, i as int));
        match EntityRelation::from_appointment(&items[i]) {
            Ok(rel) => out.push(rel),
            Err(_) => {},
        }
        i = i + 1;
    }
    assert(items@.subrange(0, items@.len() as int) =~= items@);
    out
}

} // verus!
