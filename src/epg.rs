//! The direct guide query: which channel and day it asks for, and the
//! response it gets.

use vstd::prelude::*;
use chrono::{Datelike, TimeZone, Timelike, Utc};
use crate::channel::{Channel, ProgramView};
use crate::daterange::{days_from_civil, valid_civil};
use crate::directory::{ChannelDirectory, get_channel_id_by_tvgname, name_entries, name_lookup};
use crate::error::IptvError;
use crate::naming::{dashed_date, format_date_string};
use crate::text::{char_from_digit, decimal_chars, push_char, push_decimal};

verus! {

/// The query: a published channel name, a day, and optionally the channel id.
pub struct EpgQuery {
    pub ch: String,
    pub date: String,
    pub id: Option<u64>,
}

/// One program as the query response lists it, with `HH:MM` times in UTC+8.
pub struct EpgItem {
    pub start: String,
    pub end: String,
    pub title: String,
}

/// The query response.
pub struct EpgResponse {
    pub date: String,
    pub channel_name: String,
    pub url: String,
    pub epg_data: Vec<EpgItem>,
}

/// The first and last second that chrono's `DateTime<Utc>` can hold.
pub open spec fn min_utc_secs() -> int {
    days_from_civil(-262143, 1, 1) * 86400
}

pub open spec fn max_utc_secs() -> int {
    days_from_civil(262142, 12, 31) * 86400 + 86399
}

/// `secs` is the second `h:mi:s` of the day `y-mo-d`, counted from the epoch.
pub open spec fn civil_at(secs: int, y: int, mo: int, d: int, h: int, mi: int, sec: int) -> bool {
    &&& valid_civil(y, mo, d)
    &&& 0 <= h < 24 && 0 <= mi < 60 && 0 <= sec < 60
    &&& days_from_civil(y, mo, d) * 86400 + h * 3600 + mi * 60 + sec == secs
}

/// Relies on chrono's `Utc.timestamp_opt(secs, 0).single()` and the calendar
/// fields of the result: a time within chrono's range, as its UTC day and
/// time of day.
#[verifier::external_body]
fn utc_civil(secs: i64) -> (r: Option<(i32, u32, u32, u32, u32, u32)>)
    ensures
        r is Some <==> min_utc_secs() <= secs <= max_utc_secs(),
        r matches Some((y, mo, d, h, mi, sec)) ==> civil_at(
            secs as int,
            y as int,
            mo as int,
            d as int,
            h as int,
            mi as int,
            sec as int,
        ),
{
    Utc.timestamp_opt(secs, 0).single().map(
        |t| (t.year(), t.month(), t.day(), t.hour(), t.minute(), t.second()),
    )
}

proof fn lemma_time_of_day(secs: int, days: int, h: int, mi: int, sec: int)
    requires
        0 <= h < 24 && 0 <= mi < 60 && 0 <= sec < 60,
        days * 86400 + h * 3600 + mi * 60 + sec == secs,
    ensures
        (secs % 86400) / 3600 == h,
        (secs % 86400) % 3600 / 60 == mi,
{
    let t = h * 3600 + mi * 60 + sec;
    assert(0 <= t < 86400);
    vstd::arithmetic::div_mod::lemma_fundamental_div_mod_converse(secs, 86400, days, t);
    assert(t / 3600 == h) by (nonlinear_arith)
        requires
            t == h * 3600 + mi * 60 + sec,
            0 <= mi < 60 && 0 <= sec < 60 && 0 <= h,
    ;
    assert(t % 3600 == mi * 60 + sec) by (nonlinear_arith)
        requires
            t == h * 3600 + mi * 60 + sec,
            0 <= mi < 60 && 0 <= sec < 60 && 0 <= h,
    ;
    assert((mi * 60 + sec) / 60 == mi) by (nonlinear_arith)
        requires
            0 <= mi < 60 && 0 <= sec < 60,
    ;
}

/// Two digits for `n < 100`.
pub open spec fn two_digits(n: int) -> Seq<char> {
    seq![('0' as u32 + n / 10) as char, ('0' as u32 + n % 10) as char]
}

/// `HH:MM` in UTC+8 of a time in epoch milliseconds; `00:00` for a time
/// chrono cannot represent.
pub open spec fn hhmm(timestamp: int) -> Seq<char> {
    let secs = if timestamp >= 0 { timestamp / 1000 } else { -((-timestamp) / 1000) };
    if min_utc_secs() <= secs <= max_utc_secs() {
        let day = secs % 86400;
        two_digits((day / 3600 + 8) % 24) + seq![':'] + two_digits(day % 3600 / 60)
    } else {
        "00:00"@
    }
}

fn push_two_digits(s: &mut String, n: u32)
    requires
        n < 100,
    ensures
        final(s)@ == old(s)@ + two_digits(n as int),
{
    let hi = n / 10;
    let lo = n % 10;
    push_char(s, char_from_digit(hi));
    push_char(s, char_from_digit(lo));
}

/// `HH:MM` in UTC+8; see `hhmm`.
pub fn timestamp_to_hhmm(timestamp: i64) -> (r: String)
    ensures
        r@ == hhmm(timestamp as int),
{
    let secs = timestamp / 1000;
    assert(secs == if timestamp >= 0 { timestamp / 1000 } else { -((-timestamp) / 1000) });
    match utc_civil(secs) {
        Some((y, mo, d, h, m, sec)) => {
            proof {
                lemma_time_of_day(secs as int, days_from_civil(y as int, mo as int, d as int), h as int, m as int, sec as int);
            }
            let mut s = String::new();
            push_two_digits(&mut s, (h + 8) % 24);
            push_char(&mut s, ':');
            push_two_digits(&mut s, m);
            assert(Seq::<char>::empty() + two_digits(((h + 8) % 24) as int) == two_digits(((h + 8) % 24) as int));
            s
        },
        None => "00:00".to_owned(),
    }
}

/// The day string the query works with: `YYYYMMDD` with dashes added when it
/// reads as a date, else the string as given.
pub fn query_date(date: &str) -> (r: String)
    ensures
        r@ == match dashed_date(date@) {
            Some(d) => d,
            None => date@,
        },
{
    match format_date_string(date) {
        Some(d) => d,
        None => date.to_owned(),
    }
}

/// The channel a query is about: its explicit id, else the id recorded for
/// its channel name; a name the directory does not know is `NotFound`.
pub fn resolve_channel_id(query: &EpgQuery, dir: &ChannelDirectory) -> (r: Result<u64, IptvError>)
    ensures
        match query.id {
            Some(id) => r == Ok::<u64, IptvError>(id),
            None => match name_lookup(name_entries(dir.names.entries@), query.ch@) {
                Some(id) => r == Ok::<u64, IptvError>(id),
                None => r matches Err(IptvError::NotFound(t)) && t@ == query.ch@,
            },
        },
{
    match query.id {
        Some(id) => Ok(id),
        None => match get_channel_id_by_tvgname(dir, query.ch.as_str()) {
            Some(id) => Ok(id),
            None => Err(IptvError::NotFound(query.ch.clone())),
        },
    }
}

pub open spec fn item_matches(item: EpgItem, p: ProgramView) -> bool {
    item.start@ == hhmm(p.start as int) && item.end@ == hhmm(p.stop as int) && item.title@ == p.title
}

/// The response for `channel` on the day `date`: its name, its multicast
/// address and one item per program, in order.
pub fn epg_response(date: String, channel: &Channel) -> (r: EpgResponse)
    ensures
        r.date == date,
        r.channel_name@ == channel.name@,
        r.url@ == channel.igmp@,
        r.epg_data.len() == channel.epg.len(),
        forall|i: int| 0 <= i < r.epg_data.len() ==> #[trigger] item_matches(r.epg_data[i], channel.epg[i]@),
{
    let mut items: Vec<EpgItem> = Vec::new();
    let mut i: usize = 0;
    while i < channel.epg.len()
        invariant
            i <= channel.epg.len(),
            items.len() == i,
            forall|j: int| 0 <= j < i ==> #[trigger] item_matches(items[j], channel.epg[j]@),
        decreases channel.epg.len() - i,
    {
        let p = &channel.epg[i];
        let item = EpgItem {
            start: timestamp_to_hhmm(p.start),
            end: timestamp_to_hhmm(p.stop),
            title: p.title.clone(),
        };
        items.push(item);
        i += 1;
    }
    EpgResponse { date, channel_name: channel.name.clone(), url: channel.igmp.clone(), epg_data: items }
}

/// `n >= 0` in decimal, with leading zeros up to four digits.
pub open spec fn four_digits(n: nat) -> Seq<char> {
    let d = decimal_chars(n);
    if d.len() < 4 {
        Seq::new((4 - d.len()) as nat, |i: int| '0') + d
    } else {
        d
    }
}

/// The year as chrono's `%Y` writes it: four digits within 0..=9999, else a
/// sign and at least four digits.
pub open spec fn year_text(y: int) -> Seq<char> {
    if 0 <= y <= 9999 {
        four_digits(y as nat)
    } else if y > 9999 {
        seq!['+'] + four_digits(y as nat)
    } else {
        seq!['-'] + four_digits((-y) as nat)
    }
}

/// `YYYYMMDDHHMMSS`.
pub open spec fn xmltv_text(y: int, mo: int, d: int, h: int, mi: int, sec: int) -> Seq<char> {
    year_text(y) + two_digits(mo) + two_digits(d) + two_digits(h) + two_digits(mi) + two_digits(sec)
}

/// The second of an epoch-millisecond time, rounded down, shifted to UTC+8.
pub open spec fn local_secs(unix_time: int) -> int {
    unix_time / 1000 + 28800
}

/// Whether a time and its UTC+8 reading are both within chrono's range.
pub open spec fn xmltv_time_ok(unix_time: int) -> bool {
    min_utc_secs() <= unix_time / 1000 <= max_utc_secs() && min_utc_secs() <= local_secs(unix_time)
        <= max_utc_secs()
}

fn push_four_digits(s: &mut String, n: u32)
    ensures
        final(s)@ == old(s)@ + four_digits(n as nat),
{
    let ghost d = decimal_chars(n as nat);
    proof {
        lemma_decimal_len(n as nat);
    }
    let mut k: u32 = if n < 10 { 3 } else if n < 100 { 2 } else if n < 1000 { 1 } else { 0 };
    assert(k == if d.len() < 4 { 4 - d.len() } else { 0 });
    let ghost start = s@;
    let mut i: u32 = 0;
    while i < k
        invariant
            i <= k,
            s@ == start + Seq::new(i as nat, |j: int| '0'),
        decreases k - i,
    {
        push_char(s, '0');
        assert(Seq::new((i + 1) as nat, |j: int| '0') == Seq::new(i as nat, |j: int| '0').push('0'));
        i += 1;
    }
    push_decimal(s, n as u64);
    assert(Seq::new(0, |j: int| '0') + d == d);
}

proof fn lemma_decimal_len(n: nat)
    ensures
        n < 10 ==> decimal_chars(n).len() == 1,
        10 <= n < 100 ==> decimal_chars(n).len() == 2,
        100 <= n < 1000 ==> decimal_chars(n).len() == 3,
        n >= 1000 ==> decimal_chars(n).len() >= 4,
    decreases n,
{
    if n >= 10 {
        lemma_decimal_len(n / 10);
    }
}

/// `YYYYMMDDHHMMSS` of an epoch-millisecond time in UTC+8, as chrono formats
/// it; a time out of chrono's range is a `Parse` error.
pub fn to_xmltv_time(unix_time: i64) -> (r: Result<String, IptvError>)
    ensures
        r is Ok <==> xmltv_time_ok(unix_time as int),
        r matches Ok(t) ==> exists|y: int, mo: int, d: int, h: int, mi: int, sec: int|
            civil_at(local_secs(unix_time as int), y, mo, d, h, mi, sec) && t@ == #[trigger] xmltv_text(
                y,
                mo,
                d,
                h,
                mi,
                sec,
            ),
{
    let secs: i64 = if unix_time >= 0 { unix_time / 1000 } else { -((-(unix_time + 1)) / 1000) - 1 };
    assert(secs == unix_time as int / 1000) by (nonlinear_arith)
        requires
            secs == if unix_time >= 0 { unix_time / 1000 } else { -((-(unix_time + 1)) / 1000) - 1 },
    ;
    if utc_civil(secs).is_none() {
        return Err(IptvError::Parse("fail to parse time".to_owned()));
    }
    match utc_civil(secs + 28800) {
        None => Err(IptvError::Parse("fail to parse time".to_owned())),
        Some((y, mo, d, h, mi, sec)) => {
            let mut s = String::new();
            if 0 <= y && y <= 9999 {
                push_four_digits(&mut s, y as u32);
            } else if y > 9999 {
                push_char(&mut s, '+');
                push_four_digits(&mut s, y as u32);
            } else {
                push_char(&mut s, '-');
                push_four_digits(&mut s, (0 - y) as u32);
            }
            push_two_digits(&mut s, mo);
            push_two_digits(&mut s, d);
            push_two_digits(&mut s, h);
            push_two_digits(&mut s, mi);
            push_two_digits(&mut s, sec);
            assert(s@ == xmltv_text(y as int, mo as int, d as int, h as int, mi as int, sec as int));
            Ok(s)
        },
    }
}

} // verus!
