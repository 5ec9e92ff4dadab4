//! Instants in the calendar: RFC 3339 text and monthly windows, through chrono.
use vstd::prelude::*;

use chrono::{DateTime, Datelike, NaiveDate, TimeZone, Utc};

use crate::models::{Timestamp, TIMESTAMP_LIMIT};

verus! {

/// The Gregorian year of the instant `seconds` after the Unix epoch, in UTC.
pub uninterp spec fn spec_year_of(seconds: i64) -> i32;

/// The month (1 to 12) of the instant `seconds` after the Unix epoch, in UTC.
pub uninterp spec fn spec_month_of(seconds: i64) -> u32;

/// The seconds after the Unix epoch of midnight UTC on the first day of
/// `month` in `year`.
pub uninterp spec fn spec_first_of_month(year: i32, month: u32) -> i64;

/// The `%Y-%m-%dT%H:%M:%SZ` text of the instant `seconds` after the Unix epoch.
pub uninterp spec fn spec_rfc3339(seconds: i64) -> Seq<char>;

/// The month before `month` of `year`, as (year, month).
pub open spec fn previous_month(year: i32, month: u32) -> (int, int) {
    if month == 1 {
        (year - 1, 12)
    } else {
        (year as int, month - 1)
    }
}

/// The month after `month` of `year`, as (year, month).
pub open spec fn following_month(year: int, month: int) -> (int, int) {
    if month == 12 {
        (year + 1, 1)
    } else {
        (year, month + 1)
    }
}

/// The first instant of the month after the one that holds `t`.
pub open spec fn next_month_start(t: Timestamp) -> Timestamp {
    let m = following_month(spec_year_of(t.seconds) as int, spec_month_of(t.seconds) as int);
    Timestamp { seconds: spec_first_of_month(m.0 as i32, m.1 as u32), nanos: 0 }
}

/// The earlier of two instants; `a` when neither is earlier.
pub open spec fn earlier(a: Timestamp, b: Timestamp) -> Timestamp {
    if b.before(a) {
        b
    } else {
        a
    }
}

/// `DateTime::<Utc>::from_timestamp` then `Datelike::year`: the calendar year of
/// an instant in UTC. Stated: the result is named by the instant's seconds,
/// and an instant within the handled range lies within 256,000 years of the
/// year 0.
#[verifier::external_body]
fn year_of(t: Timestamp) -> (r: i32)
    requires
        t.wf(),
    ensures
        r == spec_year_of(t.seconds),
        -256_000 <= r <= 256_000,
{
    DateTime::<Utc>::from_timestamp(t.seconds, t.nanos).unwrap().year()
}

/// `DateTime::<Utc>::from_timestamp` then `Datelike::month`: the calendar month
/// (1 to 12) of an instant in UTC, named by the instant's seconds.
#[verifier::external_body]
fn month_of(t: Timestamp) -> (r: u32)
    requires
        t.wf(),
    ensures
        r == spec_month_of(t.seconds),
        1 <= r <= 12,
{
    DateTime::<Utc>::from_timestamp(t.seconds, t.nanos).unwrap().month()
}

/// `Utc.with_ymd_and_hms(year, month, 1, 0, 0, 0)`: midnight UTC on the first
/// of a month, which exists for every month of a year that chrono handles.
/// Stated: the result is named by the year and month, it has no nanoseconds,
/// and every instant of the handled range in the month before lies strictly
/// before it.
#[verifier::external_body]
fn first_of_month(year: i32, month: u32) -> (r: Timestamp)
    requires
        1 <= month <= 12,
        -262_143 <= year <= 262_142,
    ensures
        r.seconds == spec_first_of_month(year, month),
        r.nanos == 0,
        forall|s: i64|
            -TIMESTAMP_LIMIT <= s <= TIMESTAMP_LIMIT && (#[trigger] spec_year_of(s), spec_month_of(s)) == (
                previous_month(year, month).0 as i32,
                previous_month(year, month).1 as u32,
            ) ==> s < r.seconds,
{
    let value = Utc.with_ymd_and_hms(year, month, 1, 0, 0, 0).single().unwrap();
    Timestamp { seconds: value.timestamp(), nanos: value.timestamp_subsec_nanos() }
}

/// `DateTime::format("%Y-%m-%dT%H:%M:%SZ")` written out: an instant as RFC 3339
/// text in UTC, whole seconds. The text is named by the instant's seconds.
#[verifier::external_body]
pub fn format_rfc3339(value: Timestamp) -> (r: String)
    requires
        value.wf(),
    ensures
        r@ == spec_rfc3339(value.seconds),
{
    DateTime::<Utc>::from_timestamp(value.seconds, value.nanos).unwrap().format("%Y-%m-%dT%H:%M:%SZ").to_string()
}

/// One range of instants: `start` inclusive, `end` exclusive.
#[derive(Debug, Clone, Copy)]
pub struct TimeWindow {
    pub start: Timestamp,
    pub end: Timestamp,
}

/// The first instant of the month after the one that holds `t`.
fn following_month_start(t: Timestamp) -> (r: Timestamp)
    requires
        t.wf(),
    ensures
        r == next_month_start(t),
        t.before(r),
{
    let year = year_of(t);
    let month = month_of(t);
    let (y, m) = if month == 12 { (year + 1, 1u32) } else { (year, month + 1) };
    let r = first_of_month(y, m);
    assert(previous_month(y, m) == (year as int, month as int));
    assert((spec_year_of(t.seconds), spec_month_of(t.seconds)) == (previous_month(y, m).0 as i32, previous_month(y, m).1 as u32));
    r
}

/// The windows that split `[from, to)` at the starts of months: the first
/// starts at `from`, each ends where the next begins, at the start of the
/// month after its own start or at `to`, whichever is earlier, and the last
/// ends at `to`. No windows when `from` is not before `to`.
pub fn month_windows(from: Timestamp, to: Timestamp) -> (windows: Vec<TimeWindow>)
    requires
        from.wf(),
        to.wf(),
    ensures
        windows@.len() == 0 <==> !from.before(to),
        windows@.len() > 0 ==> windows@[0].start == from && windows@.last().end == to,
        forall|i: int| 0 <= i < windows@.len() ==> #[trigger] windows@[i].end == earlier(next_month_start(windows@[i].start), to),
        forall|i: int| 0 <= i < windows@.len() ==> (#[trigger] windows@[i]).start.before(windows@[i].end),
        forall|i: int| 0 < i < windows@.len() ==> (#[trigger] windows@[i]).start == windows@[i - 1].end,
{
    let mut windows: Vec<TimeWindow> = Vec::new();
    let mut cursor = from;
    while cursor.is_before(&to)
        invariant
            cursor.wf(),
            to.wf(),
            from.wf(),
            windows@.len() == 0 ==> cursor == from,
            windows@.len() > 0 ==> windows@[0].start == from && windows@.last().end == cursor,
            forall|i: int| 0 <= i < windows@.len() ==> #[trigger] windows@[i].end == earlier(next_month_start(windows@[i].start), to),
            forall|i: int| 0 <= i < windows@.len() ==> (#[trigger] windows@[i]).start.before(windows@[i].end),
            forall|i: int| 0 < i < windows@.len() ==> (#[trigger] windows@[i]).start == windows@[i - 1].end,
            windows@.len() > 0 ==> !to.before(cursor),
        decreases (to.seconds - cursor.seconds) * 1_000_000_000 + (to.nanos - cursor.nanos),
    {
        let next = following_month_start(cursor);
        let end = if to.is_before(&next) { to } else { next };
        assert(end.wf()) by {
            assert(-TIMESTAMP_LIMIT <= cursor.seconds);
        }
        windows.push(TimeWindow { start: cursor, end });
        cursor = end;
    }
    windows
}

/// The instant that an RFC 3339 text names, as seconds and nanoseconds after
/// the Unix epoch, if it is one.
pub uninterp spec fn spec_rfc3339_instant(text: Seq<char>) -> Option<(i64, u32)>;

/// The seconds after the Unix epoch of midnight UTC on the date that a
/// `YYYY-MM-DD` text names, if it names one.
pub uninterp spec fn spec_date_midnight(text: Seq<char>) -> Option<i64>;

/// `DateTime::parse_from_rfc3339` then `with_timezone(&Utc)`: the instant an
/// RFC 3339 text names, with any offset applied, or none when the text is not
/// one. The result is named by the text.
#[verifier::external_body]
fn parse_rfc3339_instant(value: &str) -> (r: Option<Timestamp>)
    ensures
        match spec_rfc3339_instant(value@) {
            Some(t) => r == Some(Timestamp { seconds: t.0, nanos: t.1 }),
            None => r is None,
        },
{
    match DateTime::parse_from_rfc3339(value) {
        Ok(parsed) => {
            let utc = parsed.with_timezone(&Utc);
            Some(Timestamp { seconds: utc.timestamp(), nanos: utc.timestamp_subsec_nanos() })
        },
        Err(_) => None,
    }
}

/// `NaiveDate::parse_from_str(value, "%Y-%m-%d")` then midnight UTC of that
/// date: none when the text is not such a date. The result is named by the
/// text, and midnight has no nanoseconds.
#[verifier::external_body]
fn parse_date_midnight(value: &str) -> (r: Option<Timestamp>)
    ensures
        match spec_date_midnight(value@) {
            Some(s) => r == Some(Timestamp { seconds: s, nanos: 0 }),
            None => r is None,
        },
{
    match NaiveDate::parse_from_str(value, "%Y-%m-%d") {
        Ok(date) => match date.and_hms_opt(0, 0, 0) {
            Some(midnight) => {
                let utc = midnight.and_utc();
                Some(Timestamp { seconds: utc.timestamp(), nanos: utc.timestamp_subsec_nanos() })
            },
            None => None,
        },
        Err(_) => None,
    }
}

/// The instant a command-line timestamp names: an RFC 3339 timestamp, or else
/// a `YYYY-MM-DD` date at midnight UTC.
pub fn parse_datetime(value: &str) -> (r: Option<Timestamp>)
    ensures
        r == match spec_rfc3339_instant(value@) {
            Some(t) => Some(Timestamp { seconds: t.0, nanos: t.1 }),
            None => match spec_date_midnight(value@) {
                Some(s) => Some(Timestamp { seconds: s, nanos: 0 }),
                None => None,
            },
        },
{
    match parse_rfc3339_instant(value) {
        Some(t) => Some(t),
        None => parse_date_midnight(value),
    }
}

} // verus!
