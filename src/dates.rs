//! Calendar values as plain numbers, and the parser that reads instants.
use vstd::prelude::*;

use chrono::{Datelike, Timelike};

verus! {

/// A calendar day, counted as chrono counts days from the Common Era (day 1 is 0001-01-01).
#[derive(Debug, Clone, Copy, PartialEq, Eq, Structural)]
pub struct Date {
    pub days_from_ce: i32,
}

/// A UTC instant broken into its calendar fields.
#[derive(Debug, Clone, Copy, PartialEq, Eq, Structural)]
pub struct Instant {
    pub year: i32,
    pub month: u32,
    pub day: u32,
    pub seconds_of_day: u32,
    pub nanosecond: u32,
}

impl Instant {
    /// Fields within the ranges that chrono hands out.
    pub open spec fn wf(self) -> bool {
        &&& 1 <= self.month <= 12
        &&& 1 <= self.day <= 31
        &&& self.seconds_of_day < 86400
        &&& self.nanosecond < 2_000_000_000
    }
}

/// What chrono's RFC 3339 parser makes of a text, read as a UTC instant.
pub uninterp spec fn parsed_instant(s: Seq<char>) -> Option<Instant>;

/// Relies on `<chrono::DateTime<Utc> as FromStr>::from_str`: parses an RFC 3339 date and time;
/// the fields are those of the UTC instant.
#[verifier::external_body]
pub(crate) fn parse_instant(s: &str) -> (r: Option<Instant>)
    ensures
        r == parsed_instant(s@),
        r matches Some(i) ==> i.wf(),
{
    match s.parse::<chrono::DateTime<chrono::Utc>>() {
        Ok(dt) => Some(Instant {
            year: dt.year(),
            month: dt.month(),
            day: dt.day(),
            seconds_of_day: dt.num_seconds_from_midnight(),
            nanosecond: dt.nanosecond(),
        }),
        Err(_) => None,
    }
}

/// The day `months` calendar months before `day`, as chrono counts it (a day past the end
/// of the target month becomes its last day); none outside chrono's range.
pub uninterp spec fn months_back_of(day: Date, months: u32) -> Option<Date>;

/// Relies on `NaiveDate::checked_sub_months`: calendar-month subtraction, none when out of
/// range. `from_num_days_from_ce_opt` and `num_days_from_ce` only convert day numbers.
#[verifier::external_body]
pub(crate) fn months_back(day: Date, months: u32) -> (r: Option<Date>)
    ensures
        r == months_back_of(day, months),
{
    match chrono::NaiveDate::from_num_days_from_ce_opt(day.days_from_ce) {
        Some(d) => match d.checked_sub_months(chrono::Months::new(months)) {
            Some(back) => Some(Date { days_from_ce: back.num_days_from_ce() }),
            None => None,
        },
        None => None,
    }
}

/// Whether the month, day and time of day of `a` come strictly before those of `b`.
pub open spec fn earlier_in_year(a: Instant, b: Instant) -> bool {
    a.month < b.month || (a.month == b.month && (a.day < b.day || (a.day == b.day && (
    a.seconds_of_day < b.seconds_of_day || (a.seconds_of_day == b.seconds_of_day
        && a.nanosecond < b.nanosecond)))))
}

/// Full years elapsed from `base` to `now`; none when `base` is later than `now`.
pub open spec fn spec_years_since(now: Instant, base: Instant) -> Option<u32> {
    let years = now.year - base.year - if earlier_in_year(now, base) { 1int } else { 0int };
    if years >= 0 {
        Some(years as u32)
    } else {
        None
    }
}

/// Full years elapsed from `base` to `now`, as chrono's `DateTime::years_since` counts them.
pub fn years_since(now: &Instant, base: &Instant) -> (r: Option<u32>)
    ensures
        r == spec_years_since(*now, *base),
{
    let earlier = now.month < base.month || (now.month == base.month && (now.day < base.day || (
    now.day == base.day && (now.seconds_of_day < base.seconds_of_day || (now.seconds_of_day
        == base.seconds_of_day && now.nanosecond < base.nanosecond)))));
    let mut years: i64 = now.year as i64 - base.year as i64;
    if earlier {
        years = years - 1;
    }
    if years >= 0 {
        Some(years as u32)
    } else {
        None
    }
}

} // verus!
