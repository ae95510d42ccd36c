//! Calendar conversions that chrono performs for the library. Days are counted
//! as chrono counts them from the common era (1 January of year 1 is day 1);
//! times of day are seconds after midnight.

use std::fmt::Write;
use vstd::prelude::*;

verus! {

/// Day number of 1 January 1970.
pub const UNIX_EPOCH_DAY: i64 = 719163;

/// Day number of a calendar date, if the date exists.
pub uninterp spec fn civil_day_number(year: int, month: int, day: int) -> Option<int>;

/// The proleptic Gregorian leap-year rule.
pub open spec fn is_leap_year(year: int) -> bool {
    year % 4 == 0 && (year % 100 != 0 || year % 400 == 0)
}

/// Days in the months of `year` before `month`.
pub open spec fn days_before_month(year: int, month: int) -> int {
    let base: int = if month <= 1 { 0 } else if month == 2 { 31 } else if month == 3 { 59 } else if month == 4 { 90 }
        else if month == 5 { 120 } else if month == 6 { 151 } else if month == 7 { 181 } else if month == 8 { 212 }
        else if month == 9 { 243 } else if month == 10 { 273 } else if month == 11 { 304 } else { 334 };
    base + if month > 2 && is_leap_year(year) { 1int } else { 0int }
}

/// Day number of a date in the proleptic Gregorian calendar, 1 January of year 1
/// being day 1.
pub open spec fn gregorian_day_number(year: int, month: int, day: int) -> int {
    let y = year - 1;
    365 * y + y / 4 - y / 100 + y / 400 + days_before_month(year, month) + day
}

/// Relies on chrono's `NaiveDate::from_ymd_opt` and `Datelike::num_days_from_ce`:
/// the day number of a valid proleptic Gregorian date (counted from 1 January of
/// year 1 as day 1), none for an invalid one.
#[verifier::external_body]
pub(crate) fn day_number_of(year: i32, month: u32, day: u32) -> (r: Option<i32>)
    ensures
        match r {
            Some(n) => civil_day_number(year as int, month as int, day as int) == Some(n as int)
                && n as int == gregorian_day_number(year as int, month as int, day as int),
            None => civil_day_number(year as int, month as int, day as int) is None,
        },
{
    chrono::NaiveDate::from_ymd_opt(year, month, day).map(|d| chrono::Datelike::num_days_from_ce(&d))
}

/// Day number of a date written in strftime format `fmt`, if `s` reads as one.
pub uninterp spec fn parsed_day(s: Seq<char>, fmt: Seq<char>) -> Option<int>;

/// Relies on chrono's `NaiveDate::parse_from_str` and `Datelike::num_days_from_ce`.
#[verifier::external_body]
pub(crate) fn parse_day(s: &str, fmt: &str) -> (r: Option<i32>)
    ensures
        match r {
            Some(n) => parsed_day(s@, fmt@) == Some(n as int),
            None => parsed_day(s@, fmt@) is None,
        },
{
    chrono::NaiveDate::parse_from_str(s, fmt).ok().map(|d| chrono::Datelike::num_days_from_ce(&d))
}

/// The UTC day and second of day of a relaxed RFC 3339 timestamp.
pub uninterp spec fn parsed_utc(s: Seq<char>) -> Option<(int, int)>;

/// Relies on chrono's `FromStr for DateTime<Utc>` (RFC 3339, also with a space
/// before the time), `date_naive`, `num_days_from_ce` and `num_seconds_from_midnight`;
/// the second of day is below 86400.
#[verifier::external_body]
pub(crate) fn parse_utc(s: &str) -> (r: Option<(i32, u32)>)
    ensures
        match r {
            Some(t) => parsed_utc(s@) == Some((t.0 as int, t.1 as int)) && t.1 < 86400,
            None => parsed_utc(s@) is None,
        },
{
    s.parse::<chrono::DateTime<chrono::Utc>>().ok().map(|t| {
        (chrono::Datelike::num_days_from_ce(&t.date_naive()), chrono::Timelike::num_seconds_from_midnight(&t))
    })
}

/// Instant of an RFC 3339 timestamp: seconds since 1970 and nanoseconds.
pub uninterp spec fn rfc3339_instant_of(s: Seq<char>) -> Option<(i64, u32)>;

/// Relies on chrono's `DateTime::parse_from_rfc3339`, `timestamp` and
/// `timestamp_subsec_nanos`; such pairs order as chrono orders the instants.
#[verifier::external_body]
pub(crate) fn rfc3339_instant(s: &str) -> (r: Option<(i64, u32)>)
    ensures
        r == rfc3339_instant_of(s@),
{
    chrono::DateTime::parse_from_rfc3339(s).ok().map(|d| (d.timestamp(), d.timestamp_subsec_nanos()))
}

/// Instant of an RFC 2822 date-time.
pub uninterp spec fn rfc2822_instant_of(s: Seq<char>) -> Option<(i64, u32)>;

/// Relies on chrono's `DateTime::parse_from_rfc2822`, `timestamp` and
/// `timestamp_subsec_nanos`.
#[verifier::external_body]
pub(crate) fn rfc2822_instant(s: &str) -> (r: Option<(i64, u32)>)
    ensures
        r == rfc2822_instant_of(s@),
{
    chrono::DateTime::parse_from_rfc2822(s).ok().map(|d| (d.timestamp(), d.timestamp_subsec_nanos()))
}

/// Day `day` at `second` after midnight written in strftime format `fmt`; none if
/// the day is beyond chrono's range, the second is not below 86400, or the format
/// is invalid.
pub uninterp spec fn formatted(day: int, second: int, fmt: Seq<char>) -> Option<Seq<char>>;

/// Relies on chrono's `NaiveDate::from_num_days_from_ce_opt`,
/// `NaiveTime::from_num_seconds_from_midnight_opt`, `NaiveDate::and_time` and
/// `NaiveDateTime::format`; an invalid format makes the write fail.
#[verifier::external_body]
pub(crate) fn format_moment(day: i32, second: u32, fmt: &str) -> (r: Option<String>)
    ensures
        match r {
            Some(t) => formatted(day as int, second as int, fmt@) == Some(t@),
            None => formatted(day as int, second as int, fmt@) is None,
        },
{
    let date = chrono::NaiveDate::from_num_days_from_ce_opt(day)?;
    let time = chrono::NaiveTime::from_num_seconds_from_midnight_opt(second, 0)?;
    let mut out = String::new();
    write!(out, "{}", date.and_time(time).format(fmt)).ok()?;
    Some(out)
}

} // verus!
