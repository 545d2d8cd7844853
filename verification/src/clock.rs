//! Points in time and how they are written down.
//!
//! A timestamp counts nanoseconds since the Unix epoch; a duration counts
//! nanoseconds. Both stay within what a calendar of the years -9999 to 9999
//! can hold.
use time::format_description::well_known::Rfc3339;
use time::{Duration, OffsetDateTime};
use vstd::prelude::*;

use crate::text;

verus! {

/// Nanoseconds since the Unix epoch.
pub type Timestamp = i128;

/// A length of time in nanoseconds.
pub type Span = i128;

pub const NANOS_PER_SECOND: i128 = 1_000_000_000;

/// The first nanosecond of the year -9999.
pub const MIN_TIMESTAMP: i128 = -377_705_116_800_000_000_000;

/// The last nanosecond of the year 9999.
pub const MAX_TIMESTAMP: i128 = 253_402_300_799_999_999_999;

/// The first nanosecond of the year 0.
pub const YEAR_ZERO: i128 = -62_167_219_200_000_000_000;

/// The longest duration either way, in nanoseconds.
pub const MAX_SPAN: i128 = 9_223_372_036_854_775_807_999_999_999;

/// Whether `t` lies between the years -9999 and 9999.
pub open spec fn is_timestamp(t: int) -> bool {
    MIN_TIMESTAMP <= t <= MAX_TIMESTAMP
}

/// Whether `d` is a length of time that a duration can hold.
pub open spec fn is_span(d: int) -> bool {
    -MAX_SPAN <= d <= MAX_SPAN
}

/// The length of `seconds` seconds.
pub open spec fn seconds(n: int) -> int {
    n * NANOS_PER_SECOND
}

/// The Unix timestamp in whole seconds, rounded towards the past.
pub open spec fn unix_seconds(t: int) -> int {
    t / (NANOS_PER_SECOND as int)
}

/// What the RFC 3339 formatter writes for a timestamp in UTC, or `None` where
/// it refuses it.
pub uninterp spec fn rfc3339_text(t: int) -> Option<Seq<char>>;

/// `OffsetDateTime::format` with the `Rfc3339` description, on the UTC date
/// that `OffsetDateTime::from_unix_timestamp_nanos` gives. The result is a
/// function of the timestamp, and there is one for every timestamp from the
/// year 0 to the year 9999.
#[verifier::external_body]
fn rfc3339(t: Timestamp) -> (r: Option<String>)
    requires
        is_timestamp(t as int),
    ensures
        r.deep_view() == rfc3339_text(t as int),
        YEAR_ZERO <= t ==> r is Some,
{
    OffsetDateTime::from_unix_timestamp_nanos(t).ok()?.format(&Rfc3339).ok()
}

/// How a date in UTC is shown in a log.
pub uninterp spec fn shown_date(t: int) -> Seq<char>;

/// The debug form of an `OffsetDateTime`, on the UTC date that
/// `OffsetDateTime::from_unix_timestamp_nanos` gives. The calendar holds every
/// timestamp, and the text is a function of it.
#[verifier::external_body]
pub(crate) fn date_shown(t: Timestamp) -> (r: String)
    requires
        is_timestamp(t as int),
    ensures
        r@ == shown_date(t as int),
{
    let date = OffsetDateTime::from_unix_timestamp_nanos(t).expect("the calendar holds timestamps");
    format!("{date:?}")
}

/// The whole seconds of a length of time, the rest left off.
pub open spec fn span_seconds(d: int) -> int {
    if d < 0 {
        -((-d) / (NANOS_PER_SECOND as int))
    } else {
        d / (NANOS_PER_SECOND as int)
    }
}

/// The nanoseconds of a length of time beyond its whole seconds.
pub open spec fn span_rest(d: int) -> int {
    d - span_seconds(d) * NANOS_PER_SECOND
}

/// How a length of time is shown in a log.
pub open spec fn shown_span(d: int) -> Seq<char> {
    "SignedDuration { seconds: "@ + text::signed_decimal(span_seconds(d)) + ", nanoseconds: "@
        + text::signed_decimal(span_rest(d)) + " }"@
}

/// The debug form of a `Duration`, made by `Duration::nanoseconds_i128`: its
/// whole seconds and the nanoseconds beyond them, both with its sign.
#[verifier::external_body]
pub(crate) fn span_shown(d: Span) -> (r: String)
    requires
        is_span(d as int),
    ensures
        r@ == shown_span(d as int),
{
    format!("{:?}", Duration::nanoseconds_i128(d))
}

/// `OffsetDateTime::now_utc`: the time on the machine's clock. Which one is
/// left open; it is a date that the calendar holds.
#[verifier::external_body]
fn utc_now() -> (t: Timestamp)
    ensures
        is_timestamp(t as int),
{
    OffsetDateTime::now_utc().unix_timestamp_nanos()
}

/// A source of the current time.
pub trait Clock {
    fn now(&self) -> (t: Timestamp)
        ensures
            is_timestamp(t as int),
    ;
}

/// The machine's own clock.
#[derive(Debug)]
pub struct SystemClock;

impl Clock for SystemClock {
    fn now(&self) -> (t: Timestamp) {
        utc_now()
    }
}

/// Rounds a timestamp down to whole seconds.
pub fn whole_unix_seconds(t: Timestamp) -> (s: i64)
    requires
        is_timestamp(t as int),
    ensures
        s == unix_seconds(t as int),
{
    if t >= 0 {
        (t / NANOS_PER_SECOND) as i64
    } else {
        let back: i128 = -t;
        let up: i128 = (back + (NANOS_PER_SECOND - 1)) / NANOS_PER_SECOND;
        assert(unix_seconds(t as int) == -up) by (nonlinear_arith)
            requires
                t < 0,
                back == -t,
                up == (back + 999_999_999int) / 1_000_000_000int,
                NANOS_PER_SECOND == 1_000_000_000,
        ;
        (-up) as i64
    }
}

/// How a timestamp is written on the wire.
pub open spec fn wire_time(t: int) -> Seq<char> {
    match rfc3339_text(t) {
        Some(text) => text,
        None => text::signed_decimal(unix_seconds(t)),
    }
}

/// The formatted date where there is one, else the Unix seconds in decimal.
pub fn time_text(formatted: Option<String>, t: Timestamp) -> (r: String)
    requires
        is_timestamp(t as int),
    ensures
        r@ == match formatted {
            Some(text) => text@,
            None => text::signed_decimal(unix_seconds(t as int)),
        },
{
    match formatted {
        Some(text) => text,
        None => text::signed_decimal_text(whole_unix_seconds(t)),
    }
}

/// Formats a timestamp as RFC 3339, falling back to a Unix seconds string if
/// formatting fails.
pub fn format_time(t: Timestamp) -> (r: String)
    requires
        is_timestamp(t as int),
    ensures
        r@ == wire_time(t as int),
{
    time_text(rfc3339(t), t)
}

/// The RFC 3339 form of a timestamp, or `None` where it has none.
pub fn rfc3339_time(t: Timestamp) -> (r: Option<String>)
    requires
        is_timestamp(t as int),
    ensures
        r.deep_view() == rfc3339_text(t as int),
        YEAR_ZERO <= t ==> r is Some,
{
    rfc3339(t)
}

/// A compact "how long ago" label: under a minute is "now", then whole
/// minutes, hours and days.
pub open spec fn ago(seconds: nat) -> Seq<char> {
    if seconds < 60 {
        "now"@
    } else if seconds < 3600 {
        text::decimal(seconds / 60).push('m')
    } else if seconds < 86400 {
        text::decimal(seconds / 3600).push('h')
    } else {
        text::decimal(seconds / 86400).push('d')
    }
}

/// A compact "how long ago" label for presence and contact rows: under a
/// minute is "now", then whole minutes, hours, and days ("5m", "2h", "6d").
pub fn ago_compact(seconds: u64) -> (r: String)
    ensures
        r@ == ago(seconds as nat),
{
    if seconds < 60 {
        "now".to_owned()
    } else if seconds < 3600 {
        let mut label = text::decimal_text(seconds / 60);
        label.push('m');
        label
    } else if seconds < 86400 {
        let mut label = text::decimal_text(seconds / 3600);
        label.push('h');
        label
    } else {
        let mut label = text::decimal_text(seconds / 86400);
        label.push('d');
        label
    }
}

} // verus!
