//! Guide time windows, in epoch milliseconds. The backend's calendar days are
//! in UTC+8.

use vstd::prelude::*;
use chrono::{Datelike, NaiveDate};
use crate::error::IptvError;

verus! {

pub const DAY_MS: i64 = 86_400_000;

/// The offset of the backend's time zone, UTC+8, in milliseconds.
pub const ZONE_OFFSET_MS: i64 = 28_800_000;

pub open spec fn is_leap_year(y: int) -> bool {
    (y % 4 == 0 && y % 100 != 0) || y % 400 == 0
}

pub open spec fn days_in_month(y: int, m: int) -> int {
    if m == 2 {
        if is_leap_year(y) { 29 } else { 28 }
    } else if m == 4 || m == 6 || m == 9 || m == 11 {
        30
    } else {
        31
    }
}

/// A day of the proleptic Gregorian calendar within chrono's year range.
pub open spec fn valid_civil(y: int, m: int, d: int) -> bool {
    &&& -262143 <= y <= 262142
    &&& 1 <= m <= 12
    &&& 1 <= d <= days_in_month(y, m)
}

/// The number of days from 1970-01-01 to the given day.
pub open spec fn days_from_civil(y: int, m: int, d: int) -> int {
    let yy = if m <= 2 { y - 1 } else { y };
    let era = yy / 400;
    let yoe = yy - era * 400;
    let mp = if m > 2 { m - 3 } else { m + 9 };
    let doy = (153 * mp + 2) / 5 + d - 1;
    let doe = yoe * 365 + yoe / 4 - yoe / 100 + doy;
    era * 146097 + doe - 719468
}

/// The day that chrono's `NaiveDate::parse_from_str` reads from `s` with the
/// format `fmt`, as (year, month, day).
pub uninterp spec fn chrono_date(s: Seq<char>, fmt: Seq<char>) -> Option<(int, int, int)>;

/// Relies on `chrono::NaiveDate::parse_from_str`; a `NaiveDate` is always a
/// valid day within chrono's year range.
#[verifier::external_body]
fn parse_date(s: &str, fmt: &str) -> (r: Option<(i32, u32, u32)>)
    ensures
        r is None ==> chrono_date(s@, fmt@) is None,
        r matches Some((y, m, d)) ==> chrono_date(s@, fmt@) == Some((y as int, m as int, d as int))
            && valid_civil(y as int, m as int, d as int),
{
    NaiveDate::parse_from_str(s, fmt).ok().map(|d| (d.year(), d.month(), d.day()))
}

/// Relies on chrono's `NaiveDate::from_ymd_opt`, `and_hms_opt(0, 0, 0)`,
/// `and_utc` and `timestamp_millis`: the milliseconds from the epoch to
/// midnight UTC of the given day.
#[verifier::external_body]
fn utc_midnight_millis(y: i32, m: u32, d: u32) -> (r: i64)
    requires
        valid_civil(y as int, m as int, d as int),
    ensures
        r == days_from_civil(y as int, m as int, d as int) * DAY_MS,
{
    NaiveDate::from_ymd_opt(y, m, d).unwrap().and_hms_opt(0, 0, 0).unwrap().and_utc().timestamp_millis()
}

proof fn lemma_civil_bounds(y: int, m: int, d: int)
    requires
        valid_civil(y, m, d),
    ensures
        -200_000_000 <= days_from_civil(y, m, d) <= 200_000_000,
{
    let yy = if m <= 2 { y - 1 } else { y };
    let era = yy / 400;
    let yoe = yy - era * 400;
    assert(-657 <= era <= 656);
    assert(0 <= yoe < 400);
    let mp = if m > 2 { m - 3 } else { m + 9 };
    assert(0 <= (153 * mp + 2) / 5 <= 400);
    assert(0 <= yoe * 365 <= 400 * 365) by (nonlinear_arith)
        requires
            0 <= yoe < 400,
    ;
    assert(-657 * 146097 <= era * 146097 <= 656 * 146097) by (nonlinear_arith)
        requires
            -657 <= era <= 656,
    ;
}

/// Midnight at the start of the given day in UTC+8, in epoch milliseconds.
pub open spec fn local_midnight_ms(y: int, m: int, d: int) -> int {
    days_from_civil(y, m, d) * DAY_MS - ZONE_OFFSET_MS
}

/// The day a date string names: the first of `YYYYMMDD`, `YYYY-MM-DD`,
/// `YYYY/MM/DD`, `DD-MM-YYYY`, `DD/MM/YYYY` that reads it.
pub open spec fn resolve_date(s: Seq<char>) -> Option<(int, int, int)> {
    if chrono_date(s, "%Y%m%d"@) is Some {
        chrono_date(s, "%Y%m%d"@)
    } else if chrono_date(s, "%Y-%m-%d"@) is Some {
        chrono_date(s, "%Y-%m-%d"@)
    } else if chrono_date(s, "%Y/%m/%d"@) is Some {
        chrono_date(s, "%Y/%m/%d"@)
    } else if chrono_date(s, "%d-%m-%Y"@) is Some {
        chrono_date(s, "%d-%m-%Y"@)
    } else {
        chrono_date(s, "%d/%m/%Y"@)
    }
}

/// The guide window of one calendar day: from its midnight in UTC+8 to the
/// next midnight, in epoch milliseconds. A string that no supported format
/// reads is a `Parse` error carrying the string.
pub fn cal_date_range(date_str: &str) -> (r: Result<(i64, i64), IptvError>)
    ensures
        match resolve_date(date_str@) {
            None => r matches Err(IptvError::Parse(t)) && t@ == date_str@,
            Some((y, m, d)) => r matches Ok((b, e)) && b == local_midnight_ms(y, m, d) && e == b + DAY_MS,
        },
{
    let mut parsed = parse_date(date_str, "%Y%m%d");
    if parsed.is_none() {
        parsed = parse_date(date_str, "%Y-%m-%d");
    }
    if parsed.is_none() {
        parsed = parse_date(date_str, "%Y/%m/%d");
    }
    if parsed.is_none() {
        parsed = parse_date(date_str, "%d-%m-%Y");
    }
    if parsed.is_none() {
        parsed = parse_date(date_str, "%d/%m/%Y");
    }
    match parsed {
        None => Err(IptvError::Parse(date_str.to_owned())),
        Some((y, m, d)) => {
            proof {
                lemma_civil_bounds(y as int, m as int, d as int);
            }
            let start = utc_midnight_millis(y, m, d) - ZONE_OFFSET_MS;
            Ok((start, start + DAY_MS))
        },
    }
}

/// The bulk guide window around `now_ms`: seven days back to two days ahead.
pub fn bulk_guide_window(now_ms: i64) -> (r: (i64, i64))
    requires
        i64::MIN + 7 * DAY_MS <= now_ms <= i64::MAX - 2 * DAY_MS,
    ensures
        r.0 == now_ms - 7 * DAY_MS,
        r.1 == now_ms + 2 * DAY_MS,
{
    (now_ms - 7 * DAY_MS, now_ms + 2 * DAY_MS)
}

} // verus!
