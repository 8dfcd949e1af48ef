//! Risk jobs: watchlist flags, implausible ages and dormant companies.
use vstd::prelude::*;

use crate::company_house::company_house_response_types::{FilingHistoryItem, FilingHistoryResponse};
use crate::dates::{
    months_back, months_back_of, parse_instant, parsed_instant, spec_years_since, years_since, Date, Instant,
};
use crate::flags::{topic_flag, Flagkind};
use crate::models::{Entity, Entitykind};
use crate::open_sanctions::types::FlagSearchResponse;
use crate::store::{same_annotations_but, same_graph, same_jobs, same_monitoring, same_store, tagged, Store};
use crate::text::str_eq;

verus! {

/// Years of silence after which a company counts as dormant.
pub const DORMANCY_YEARS: u32 = 5;

/// The same span in calendar months.
pub const DORMANCY_MONTHS: u32 = DORMANCY_YEARS * 12;

/// Ages below this are implausible for an officer or owner.
pub const MIN_PLAUSIBLE_AGE: u32 = 15;

/// Ages above this are implausible for an officer or owner.
pub const MAX_PLAUSIBLE_AGE: u32 = 85;

/// Why a risk job failed.
#[derive(Debug, Clone, Copy, PartialEq, Eq, Structural)]
pub enum RiskError {
    /// The job kind is reserved and not carried out.
    Unimplemented,
    /// An individual's date of origin is not an RFC 3339 date and time.
    InvalidDate,
}

/// Topic strings as the watchlist sends them.
pub struct FlagStringList(pub Vec<String>);

/// The flags that topic strings stand for, in order; unknown topics are dropped.
pub open spec fn flags_of(topics: Seq<String>) -> Seq<Flagkind>
    decreases topics.len(),
{
    if topics.len() == 0 {
        Seq::empty()
    } else {
        let rest = flags_of(topics.drop_last());
        match topic_flag(topics.last()@) {
            Some(k) => rest.push(k),
            None => rest,
        }
    }
}

/// The values of the properties named `key`, concatenated in order.
pub open spec fn property_values(props: Seq<(String, Vec<String>)>, key: Seq<char>) -> Seq<String>
    decreases props.len(),
{
    if props.len() == 0 {
        Seq::empty()
    } else {
        let rest = property_values(props.drop_last(), key);
        if props.last().0@ == key {
            rest + props.last().1@
        } else {
            rest
        }
    }
}

/// The flags recorded from the `topics` properties, in order.
pub open spec fn property_flags(props: Seq<(String, Vec<String>)>) -> Seq<Flagkind>
    decreases props.len(),
{
    if props.len() == 0 {
        Seq::empty()
    } else {
        let rest = property_flags(props.drop_last());
        if props.last().0@ == "topics"@ {
            rest + flags_of(props.last().1@)
        } else {
            rest
        }
    }
}

/// Whether an age makes an individual an outlier: unknown ages do not.
pub open spec fn spec_outlier(age: Option<u32>) -> bool {
    match age {
        Some(a) => a < MIN_PLAUSIBLE_AGE || a > MAX_PLAUSIBLE_AGE,
        None => false,
    }
}

/// Whether a company whose latest filing is `last_filing` is dormant, given the day
/// `cutoff` five calendar years before today: its latest filing lies before the cutoff. No
/// dated filing, or no cutoff in the calendar's range, is not dormant.
pub open spec fn spec_dormant(last_filing: Option<Date>, cutoff: Option<Date>) -> bool {
    match (last_filing, cutoff) {
        (Some(d), Some(c)) => d.days_from_ce < c.days_from_ce,
        _ => false,
    }
}

/// The latest date among the dated filings of `items`.
pub open spec fn latest_date(items: Seq<FilingHistoryItem>) -> Option<Date>
    decreases items.len(),
{
    if items.len() == 0 {
        None
    } else {
        let rest = latest_date(items.drop_last());
        match items.last().date {
            Some(d) => match rest {
                Some(r) => if d.days_from_ce > r.days_from_ce { Some(d) } else { Some(r) },
                None => Some(d),
            },
            None => rest,
        }
    }
}

/// The outlier verdict recorded for an individual whose date of origin is `dob`, at `now`.
pub open spec fn spec_outlier_verdict(dob: Option<String>, now: Instant) -> bool {
    match dob {
        Some(s) => spec_outlier(spec_years_since(now, parsed_instant(s@)->0)),
        None => false,
    }
}

impl FlagStringList {
    /// The flags these topics stand for, in order; unknown topics are dropped.
    pub fn into_flags(&self) -> (r: Vec<Flagkind>)
        ensures
            r@ == flags_of(self.0@),
    {
        let topics = &self.0;
        let mut out: Vec<Flagkind> = Vec::new();
        let mut i: usize = 0;
        while i < topics.len()
            invariant
                i <= topics@.len(),
                out@ == flags_of(topics@.subrange(0, i as int)),
            decreases topics@.len() - i,
        {
            assert(topics@.subrange(0, i + 1).drop_last() =~= topics@.subrange(0, i as int));
            match Flagkind::from_topic(topics[i].as_str()) {
                Ok(k) => out.push(k),
                Err(_) => {},
            }
            i = i + 1;
        }
        assert(topics@.subrange(0, i as int) =~= topics@);
        out
    }
}

/// Whether an age makes an individual an outlier: below 15 or above 85 years.
pub fn is_outlier_age(age: Option<u32>) -> (r: bool)
    ensures
        r == spec_outlier(age),
{
    match age {
        Some(a) => a < MIN_PLAUSIBLE_AGE || a > MAX_PLAUSIBLE_AGE,
        None => false,
    }
}

/// Whether an individual born at `dob` is an outlier at `now`.
pub fn outlier_from_dob(now: &Instant, dob: &Instant) -> (r: bool)
    ensures
        r == spec_outlier(spec_years_since(*now, *dob)),
{
    is_outlier_age(years_since(now, dob))
}

/// Whether a company whose latest filing is `last_filing` is dormant, given the day
/// `cutoff` five calendar years before today.
pub fn is_dormant(last_filing: Option<Date>, cutoff: Option<Date>) -> (r: bool)
    ensures
        r == spec_dormant(last_filing, cutoff),
{
    match (last_filing, cutoff) {
        (Some(d), Some(c)) => d.days_from_ce < c.days_from_ce,
        _ => false,
    }
}

/// The latest date among the dated filings of a history.
pub fn latest_filing(filing_history: &FilingHistoryResponse) -> (r: Option<Date>)
    ensures
        r == latest_date(filing_history.items@),
{
    let items = &filing_history.items;
    let mut latest: Option<Date> = None;
    let mut i: usize = 0;
    while i < items.len()
        invariant
            i <= items@.len(),
            latest == latest_date(items@.subrange(0, i as int)),
        decreases items@.len() - i,
    {
        assert(items@.subrange(0, i + 1).drop_last() =~= items@.subrange(0, i as int));
        match items[i].date {
            Some(d) => {
                latest = match latest {
                    Some(r) => if d.days_from_ce > r.days_from_ce { Some(d) } else { Some(r) },
                    None => Some(d),
                };
            },
            None => {},
        }
        i = i + 1;
    }
    assert(items@.subrange(0, i as int) =~= items@);
    latest
}

impl RiskJob {
    /// Global jobs are reserved: they are accepted and answered as not carried out.
    pub fn do_global_job(&self, job: &GlobalRiskJob) -> (r: Result<(), RiskError>)
        ensures
            r == Err::<(), RiskError>(RiskError::Unimplemented),
    {
        match job {
            GlobalRiskJob::CircularRelations => Err(RiskError::Unimplemented),
            GlobalRiskJob::MassRegistration => Err(RiskError::Unimplemented),
        }
    }

    /// The name to search the watchlist for: an individual's name; none for a company or an
    /// individual without a name, for whom the flags job does nothing.
    pub fn flags_query(entity: &Entity) -> (r: Option<String>)
        ensures
            r == (if entity.kind == Entitykind::Individual { entity.name } else { None }),
    {
        match entity.kind {
            Entitykind::Individual => match &entity.name {
                Some(n) => Some(n.clone()),
                None => None,
            },
            Entitykind::Company => None,
        }
    }

    /// Records what the watchlist's top result says of entity `entity_id`: the flags of its
    /// `topics`, its `position` titles, and its datasets. Nothing without a result.
    pub fn do_flags_job(store: &mut Store, entity_id: u128, search_result: &FlagSearchResponse)
        requires
            old(store).wf(),
        ensures
            final(store).wf(),
            search_result.results@.len() == 0 ==> same_store(*old(store), *final(store)),
            search_result.results@.len() > 0 ==> {
                let top = search_result.results@[0];
                &&& final(store).flags@ == old(store).flags@ + tagged(entity_id, property_flags(top.properties@))
                &&& final(store).positions@ == old(store).positions@ + tagged(
                    entity_id,
                    property_values(top.properties@, "position"@),
                )
                &&& final(store).datasets@ == old(store).datasets@ + tagged(entity_id, top.datasets@)
                &&& final(store).outlier_ages@ == old(store).outlier_ages@
                &&& final(store).dormant_companies@ == old(store).dormant_companies@
                &&& same_graph(*old(store), *final(store))
                &&& same_jobs(*old(store), *final(store))
                &&& same_monitoring(*old(store), *final(store))
            },
    {
        if search_result.results.len() == 0 {
            return;
        }
        let top = &search_result.results[0];
        let props = &top.properties;
        let mut i: usize = 0;
        while i < props.len()
            invariant
                store.wf(),
                i <= props@.len(),
                store.flags@ == old(store).flags@ + tagged(entity_id, property_flags(props@.subrange(0, i as int))),
                store.positions@ == old(store).positions@ + tagged(
                    entity_id,
                    property_values(props@.subrange(0, i as int), "position"@),
                ),
                store.datasets@ == old(store).datasets@,
                store.outlier_ages@ == old(store).outlier_ages@,
                store.dormant_companies@ == old(store).dormant_companies@,
                same_graph(*old(store), *store),
                same_jobs(*old(store), *store),
                same_monitoring(*old(store), *store),
            decreases props@.len() - i,
        {
            proof {
                reveal_strlit("topics");
                reveal_strlit("position");
                assert("topics"@.len() != "position"@.len());
            }
            let ghost prefix = props@.subrange(0, i as int);
            assert(props@.subrange(0, i + 1).drop_last() =~= prefix);
            let (key, values) = (&props[i].0, &props[i].1);
            if str_eq(key.as_str(), "topics") {
                let flags = FlagStringList(clone_strings(values)).into_flags();
                store.insert_flags(entity_id, &flags);
                assert(tagged(entity_id, property_flags(prefix)) + tagged(entity_id, flags@) =~= tagged(
                    entity_id,
                    property_flags(prefix) + flags@,
                ));
            } else if str_eq(key.as_str(), "position") {
                store.insert_positions(entity_id, values);
                assert(tagged(entity_id, property_values(prefix, "position"@)) + tagged(entity_id, values@)
                    =~= tagged(entity_id, property_values(prefix, "position"@) + values@));
            }
            i = i + 1;
        }
        assert(props@.subrange(0, i as int) =~= props@);
        store.insert_datasets(entity_id, &top.datasets);
    }

    /// Records whether an individual's age is implausible at `now`: an individual with no date
    /// of origin is not an outlier; one whose date of origin does not parse fails the job.
    /// A company is left alone.
    pub fn do_outlier_age_job(store: &mut Store, entity: &Entity, now: &Instant) -> (r: Result<(), RiskError>)
        requires
            old(store).wf(),
        ensures
            final(store).wf(),
            r is Err <==> (entity.kind == Entitykind::Individual && (entity.date_of_origin matches Some(s)
                && parsed_instant(s@) is None)),
            r is Err ==> r == Err::<(), RiskError>(RiskError::InvalidDate),
            (r is Err || entity.kind != Entitykind::Individual) ==> same_store(*old(store), *final(store)),
            (r is Ok && entity.kind == Entitykind::Individual) ==> {
                &&& final(store).outlier_ages@ == old(store).outlier_ages@.push(
                    (entity.id, spec_outlier_verdict(entity.date_of_origin, *now)),
                )
                &&& same_annotations_but(*old(store), *final(store), 3)
                &&& same_graph(*old(store), *final(store))
                &&& same_jobs(*old(store), *final(store))
                &&& same_monitoring(*old(store), *final(store))
            },
    {
        if entity.kind != Entitykind::Individual {
            return Ok(());
        }
        let outlier = match &entity.date_of_origin {
            Some(dob) => match parse_instant(dob.as_str()) {
                Some(born) => outlier_from_dob(now, &born),
                None => return Err(RiskError::InvalidDate),
            },
            None => false,
        };
        store.insert_outlier_age(entity.id, outlier);
        Ok(())
    }

    /// Records whether a company is dormant on day `today`, from its filing history: dormant
    /// when its latest filing is dated before the same day five calendar years back.
    pub fn do_dormancy_job(store: &mut Store, entity: &Entity, filing_history: &FilingHistoryResponse, today: Date)
        requires
            old(store).wf(),
        ensures
            final(store).wf(),
            final(store).dormant_companies@ == old(store).dormant_companies@.push(
                (
                    entity.id,
                    spec_dormant(
                        latest_date(filing_history.items@),
                        months_back_of(today, DORMANCY_MONTHS),
                    ),
                ),
            ),
            same_annotations_but(*old(store), *final(store), 4),
            same_graph(*old(store), *final(store)),
            same_jobs(*old(store), *final(store)),
            same_monitoring(*old(store), *final(store)),
    {
        let cutoff = months_back(today, DORMANCY_MONTHS);
        store.insert_dormant_company(entity.id, is_dormant(latest_filing(filing_history), cutoff));
    }
}

/// A copy of a list of strings.
pub fn clone_strings(v: &Vec<String>) -> (r: Vec<String>)
    ensures
        r@ == v@,
{
    let mut out: Vec<String> = Vec::new();
    let mut i: usize = 0;
    while i < v.len()
        invariant
            i <= v@.len(),
            out@ == v@.subrange(0, i as int),
        decreases v@.len() - i,
    {
        out.push(v[i].clone());
        assert(out@ =~= v@.subrange(0, i + 1));
        i = i + 1;
    }
    assert(v@.subrange(0, i as int) =~= v@);
    out
}

/// Jobs over a whole check, once its relations are known. Reserved: accepted on the wire,
/// not carried out.
#[derive(Debug, Clone, Copy, PartialEq, Eq, Structural)]
pub enum GlobalRiskJob {
    /// Whether entities are related in a cycle.
    CircularRelations,
    /// Whether companies were registered in bulk within a short window.
    MassRegistration,
}

/// Jobs over a single entity, runnable as soon as it is recorded.
#[derive(Debug, Clone, Copy, PartialEq, Eq, Structural)]
pub enum LocalRiskJobKind {
    /// Watchlist topics, positions and datasets of an individual.
    Flags,
    /// Whether an individual is implausibly young or old.
    OutlierAge,
    /// Whether a company has filed nothing for more than five years.
    Dormancy,
}

#[derive(Debug, Clone, Copy, PartialEq, Eq, Structural)]
pub struct LocalRiskJob {
    pub entity_id: u128,
    pub kind: LocalRiskJobKind,
}

#[derive(Debug, Clone, Copy, PartialEq, Eq, Structural)]
pub enum RiskJobScope {
    Global(GlobalRiskJob),
    Local(LocalRiskJob),
}

#[derive(Debug, Clone, Copy, PartialEq, Eq, Structural)]
pub struct RiskJob {
    pub scope: RiskJobScope,
}

} // verus!
