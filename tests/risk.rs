use chrono::Datelike;
use company_investigation::company_house::company_house_response_types::{FilingHistoryItem, FilingHistoryResponse};
use company_investigation::dates::{years_since, Date, Instant};
use company_investigation::flags::Flagkind;
use company_investigation::jobs::risk_jobs::{
    is_dormant, is_outlier_age, outlier_from_dob, FlagStringList, GlobalRiskJob, RiskError, RiskJob,
    RiskJobScope,
};
use company_investigation::models::{Checkkind, Entity, Entitykind};
use company_investigation::open_sanctions::types::{Entity as WatchlistEntity, FacetCategory, Facets, FlagSearchResponse, Total};
use company_investigation::store::Store;

fn facet() -> FacetCategory {
    FacetCategory { label: String::new(), values: vec![] }
}

fn search(results: Vec<WatchlistEntity>) -> FlagSearchResponse {
    FlagSearchResponse {
        limit: 10,
        offset: 0,
        total: Total { value: results.len() as u32, relation: "eq".to_string() },
        results,
        facets: Facets { topics: facet(), datasets: facet(), countries: facet() },
    }
}

fn watchlist_entity(properties: Vec<(&str, Vec<&str>)>, datasets: Vec<&str>) -> WatchlistEntity {
    WatchlistEntity {
        id: "id".to_string(),
        caption: "caption".to_string(),
        schema: "Person".to_string(),
        properties: properties
            .into_iter()
            .map(|(k, v)| (k.to_string(), v.into_iter().map(|s| s.to_string()).collect()))
            .collect(),
        datasets: datasets.into_iter().map(|s| s.to_string()).collect(),
        referents: vec![],
        target: true,
        first_seen: String::new(),
        last_seen: String::new(),
        last_change: String::new(),
    }
}

fn individual(name: Option<&str>, dob: Option<&str>) -> Entity {
    Entity {
        id: 0,
        company_house_number: "PN01".to_string(),
        name: name.map(|n| n.to_string()),
        kind: Entitykind::Individual,
        country: None,
        postal_code: None,
        date_of_origin: dob.map(|d| d.to_string()),
        is_root: false,
        officer_id: None,
    }
}

#[test]
fn watchlist_result_becomes_flags_positions_and_datasets() {
    let mut store = Store::new();
    let check = store.insert_check(Checkkind::EntityRelation, 0);
    let id = store.insert_entity(&individual(Some("Jo Bloggs"), None), check);
    let entity = store.get_entity(id).unwrap();
    assert_eq!(RiskJob::flags_query(&entity), Some("Jo Bloggs".to_string()));
    let result = search(vec![watchlist_entity(
        vec![("topics", vec!["sanction", "role.pep"]), ("position", vec!["Minister"])],
        vec!["OFAC", "UKHMT"],
    )]);
    RiskJob::do_flags_job(&mut store, id, &result);
    assert_eq!(store.get_flag_kinds_for_entity(id), vec![Flagkind::SanctionedEntity, Flagkind::Politician]);
    assert_eq!(store.get_positions(id), vec!["Minister".to_string()]);
    assert_eq!(store.get_datasets(id), vec!["OFAC".to_string(), "UKHMT".to_string()]);
    assert_eq!(store.flags.len(), 2);
    assert_eq!(store.positions.len(), 1);
    assert_eq!(store.datasets.len(), 2);
}

#[test]
fn flags_job_ignores_companies_unknown_topics_and_empty_results() {
    let mut company = individual(Some("Acme"), None);
    company.kind = Entitykind::Company;
    assert_eq!(RiskJob::flags_query(&company), None);
    assert_eq!(RiskJob::flags_query(&individual(None, None)), None);
    let mut store = Store::new();
    RiskJob::do_flags_job(&mut store, 1, &search(vec![]));
    assert!(store.flags.is_empty() && store.datasets.is_empty());
    let result = search(vec![
        watchlist_entity(vec![("topics", vec!["made.up", "crime"]), ("other", vec!["x"])], vec![]),
        watchlist_entity(vec![("topics", vec!["poi"])], vec!["SECOND"]),
    ]);
    RiskJob::do_flags_job(&mut store, 1, &result);
    assert_eq!(store.get_flag_kinds_for_entity(1), vec![Flagkind::Crime]);
    assert!(store.get_datasets(1).is_empty());
}

#[test]
fn topic_list_drops_unknown_topics() {
    let list = FlagStringList(vec!["gov.head".to_string(), "nope".to_string(), "mil".to_string()]);
    assert_eq!(list.into_flags(), vec![Flagkind::HeadOfGovernment, Flagkind::Military]);
}

#[test]
fn outlier_age_bounds() {
    assert!(is_outlier_age(Some(14)));
    assert!(!is_outlier_age(Some(15)));
    assert!(!is_outlier_age(Some(85)));
    assert!(is_outlier_age(Some(86)));
    assert!(!is_outlier_age(None));
}

#[test]
fn years_since_counts_full_years() {
    let at = |year, month, day| Instant { year, month, day, seconds_of_day: 0, nanosecond: 0 };
    assert_eq!(years_since(&at(2024, 6, 1), &at(2000, 6, 1)), Some(24));
    assert_eq!(years_since(&at(2024, 5, 31), &at(2000, 6, 1)), Some(23));
    assert_eq!(years_since(&at(1999, 1, 1), &at(2000, 6, 1)), None);
    assert!(outlier_from_dob(&at(2024, 1, 1), &at(2015, 1, 1)));
    assert!(!outlier_from_dob(&at(2024, 1, 1), &at(1980, 1, 1)));
}

#[test]
fn outlier_age_job_reads_rfc3339_with_offsets() {
    // Born 2009-01-01T01:00:00+02:00, which is 2008-12-31T23:00:00Z: fifteen full years
    // at 2023-12-31T23:30:00Z only once the offset is applied.
    let now = Instant { year: 2023, month: 12, day: 31, seconds_of_day: 23 * 3600 + 1800, nanosecond: 0 };
    let mut store = Store::new();
    RiskJob::do_outlier_age_job(&mut store, &individual(None, Some("2009-01-01T01:00:00+02:00")), &now).unwrap();
    assert_eq!(store.outlier_ages, vec![(0, false)]);
    RiskJob::do_outlier_age_job(&mut store, &individual(None, Some("2009-01-01T01:00:00Z")), &now).unwrap();
    assert_eq!(store.outlier_ages, vec![(0, false), (0, true)]);
}

#[test]
fn outlier_age_job_records_verdicts() {
    let now = Instant { year: 2024, month: 1, day: 1, seconds_of_day: 0, nanosecond: 0 };
    let mut store = Store::new();
    assert_eq!(RiskJob::do_outlier_age_job(&mut store, &individual(None, Some("2015-01-01T00:00:00Z")), &now), Ok(()));
    assert_eq!(store.outlier_ages, vec![(0, true)]);
    let mut adult = individual(None, Some("1980-01-01T00:00:00Z"));
    adult.id = 1;
    RiskJob::do_outlier_age_job(&mut store, &adult, &now).unwrap();
    let mut unknown = individual(None, None);
    unknown.id = 2;
    RiskJob::do_outlier_age_job(&mut store, &unknown, &now).unwrap();
    assert_eq!(store.outlier_ages, vec![(0, true), (1, false), (2, false)]);
    assert_eq!(
        RiskJob::do_outlier_age_job(&mut store, &individual(None, Some("00/00/0000")), &now),
        Err(RiskError::InvalidDate)
    );
    let mut company = individual(None, Some("bad"));
    company.kind = Entitykind::Company;
    assert_eq!(RiskJob::do_outlier_age_job(&mut store, &company, &now), Ok(()));
    assert_eq!(store.outlier_ages.len(), 3);
}

fn filing(date: Option<Date>) -> FilingHistoryItem {
    FilingHistoryItem {
        annotations: None,
        associated_filings: None,
        barcode: None,
        category: None,
        date,
        description: None,
        links: None,
        pages: None,
        paper_filed: None,
        resolutions: None,
        subcategory: None,
        transaction_id: None,
        filing_type: None,
    }
}

fn day(y: i32, m: u32, d: u32) -> Date {
    Date { days_from_ce: chrono::NaiveDate::from_ymd_opt(y, m, d).unwrap().num_days_from_ce() }
}

fn history(items: Vec<FilingHistoryItem>) -> FilingHistoryResponse {
    FilingHistoryResponse {
        etag: None,
        filing_history_status: None,
        items,
        items_per_page: None,
        kind: None,
        start_index: None,
        total_count: None,
    }
}

fn dormant_after(filings: Vec<Option<Date>>, today: Date) -> bool {
    let mut store = Store::new();
    let mut company = individual(Some("Acme"), None);
    company.kind = Entitykind::Company;
    company.id = 4;
    let h = history(filings.into_iter().map(filing).collect());
    RiskJob::do_dormancy_job(&mut store, &company, &h, today);
    assert_eq!(store.dormant_companies.len(), 1);
    assert_eq!(store.dormant_companies[0].0, 4);
    store.dormant_companies[0].1
}

#[test]
fn dormancy_after_five_calendar_years_without_filing() {
    let today = day(2024, 3, 15);
    assert!(!dormant_after(vec![Some(day(2019, 3, 15))], today));
    assert!(dormant_after(vec![Some(day(2019, 3, 14))], today));
    // Five 365-day years would put the cutoff at 2019-03-17; calendar years do not.
    assert!(!dormant_after(vec![Some(day(2019, 3, 16))], today));
    assert!(!dormant_after(vec![], today));
    assert!(!dormant_after(vec![None], today));
    // The latest filing decides, wherever it is listed.
    assert!(!dormant_after(vec![Some(day(2001, 1, 1)), None, Some(day(2023, 1, 1))], today));
    assert!(dormant_after(vec![Some(day(2001, 1, 1)), Some(day(2018, 6, 1))], today));
    // A leap day counts back to the last day of February.
    assert!(!dormant_after(vec![Some(day(2019, 2, 28))], day(2024, 2, 29)));
    assert!(dormant_after(vec![Some(day(2019, 2, 27))], day(2024, 2, 29)));
    assert!(is_dormant(Some(day(2000, 1, 1)), Some(day(2000, 1, 2))));
    assert!(!is_dormant(Some(day(2000, 1, 2)), Some(day(2000, 1, 2))));
    assert!(!is_dormant(Some(day(2000, 1, 1)), None));
    assert!(!is_dormant(None, Some(day(2000, 1, 2))));
}

#[test]
fn global_risk_jobs_are_reserved() {
    let job = RiskJob { scope: RiskJobScope::Global(GlobalRiskJob::CircularRelations) };
    assert_eq!(job.do_global_job(&GlobalRiskJob::CircularRelations), Err(RiskError::Unimplemented));
    assert_eq!(job.do_global_job(&GlobalRiskJob::MassRegistration), Err(RiskError::Unimplemented));
}
