//! The UTC calendar, as `chrono` reads it.
//!
//! The functions marked `external_body` call `chrono`; their contracts are
//! taken on trust. Each of them maps plain values to plain values, and each
//! result that depends on its arguments alone has a name that contracts
//! elsewhere can speak of.

use crate::instant::Instant;
use chrono::{DateTime, Datelike, Timelike, Utc};
use vstd::prelude::*;

verus! {

/// A calendar date.
#[derive(Clone, Copy, Debug, PartialEq, Eq, Structural)]
pub struct CivilDate {
    pub year: i32,
    pub month: u32,
    pub day: u32,
}

/// What the period rules read from the UTC calendar at one instant.
#[derive(Clone, Copy, Debug, PartialEq, Eq, Structural)]
pub struct UtcCalendar {
    /// Calendar year.
    pub year: i32,
    /// Day of the month, counted from 1.
    pub day: u32,
    /// Days since Monday: 0 on a Monday, 6 on a Sunday.
    pub weekday: u32,
}

impl UtcCalendar {
    /// The day of the month lies in 1..=31 and the weekday in 0..=6.
    pub open spec fn wf(self) -> bool {
        1 <= self.day <= 31 && self.weekday <= 6
    }
}

/// The UTC calendar reading of an instant, `None` where `chrono` cannot
/// represent the instant.
pub uninterp spec fn utc_calendar_of(at: Instant) -> Option<UtcCalendar>;

/// The instant that `chrono` parses from the five numbers written as
/// `year-month-day hour:minute +0000`.
pub uninterp spec fn instant_from_text(year: i64, month: u32, day: u32, hour: u32, minute: u32) -> Option<Instant>;

/// The instant that `chrono` parses from a stored timestamp.
pub uninterp spec fn timestamp_from_text(text: Seq<char>) -> Option<Instant>;

/// The text that `chrono` writes for an instant, `None` where it cannot
/// represent the instant.
pub uninterp spec fn timestamp_text(at: Instant) -> Option<Seq<char>>;

/// Reads the system clock with `chrono::Utc::now`.
///
/// Trusted: `Utc::now` makes its value of the time that has passed since
/// 1970, in whole seconds and the nanoseconds of the second under way, with
/// `DateTime::from_timestamp`; so the instant is one that the calendar of
/// `chrono` reaches, not before the epoch, and in no leap second. Which
/// instant it is depends on the clock, and nothing more is claimed of it.
/// `Utc::now` panics on a machine whose clock stands before 1970.
#[verifier::external_body]
pub(crate) fn utc_now() -> (r: Instant)
    ensures
        r.representable(),
        r.secs >= 0,
        r.nanos < 1_000_000_000,
{
    let now = Utc::now();
    Instant { secs: now.timestamp(), nanos: now.timestamp_subsec_nanos() }
}

/// Builds a `chrono::DateTime<Utc>` with `DateTime::from_timestamp_secs` and
/// `Timelike::with_nanosecond`, and reads its `year`, `day` and `weekday` (as
/// `num_days_from_monday`).
///
/// Trusted: the reading depends on the instant alone; there is one for just
/// the instants from the first day of `chrono`'s calendar to the last
/// nanosecond of its last day, with nanoseconds below 2,000,000,000; the day
/// of the month lies in 1..=31 and the weekday number in 0..=6, as `chrono`
/// documents.
#[verifier::external_body]
pub(crate) fn utc_calendar(at: Instant) -> (r: Option<UtcCalendar>)
    ensures
        r == utc_calendar_of(at),
        r is Some <==> at.representable(),
        r matches Some(c) ==> c.wf(),
{
    let t = DateTime::from_timestamp_secs(at.secs)?.with_nanosecond(at.nanos)?;
    Some(UtcCalendar { year: t.year(), day: t.day(), weekday: t.weekday().num_days_from_monday() })
}

/// Writes the five numbers as `year-month-day hour:minute +0000` and parses
/// that text with `chrono::DateTime::parse_from_str` under the format
/// `%Y-%m-%d %H:%M %z`.
///
/// Trusted: the outcome depends on the five numbers alone.
#[verifier::external_body]
pub(crate) fn utc_instant_from_text(year: i64, month: u32, day: u32, hour: u32, minute: u32) -> (r: Option<Instant>)
    ensures
        r == instant_from_text(year, month, day, hour, minute),
{
    let text = format!("{}-{}-{} {}:{} +0000", year, month, day, hour, minute);
    let t = DateTime::parse_from_str(text.as_str(), "%Y-%m-%d %H:%M %z").ok()?;
    Some(Instant { secs: t.timestamp(), nanos: t.timestamp_subsec_nanos() })
}

/// Parses a stored timestamp with `chrono`'s `FromStr` for `DateTime<Utc>`.
///
/// Trusted: the outcome depends on the text alone.
#[verifier::external_body]
pub(crate) fn parse_utc_timestamp(text: &str) -> (r: Option<Instant>)
    ensures
        r == timestamp_from_text(text@),
{
    let t = text.parse::<DateTime<Utc>>().ok()?;
    Some(Instant { secs: t.timestamp(), nanos: t.timestamp_subsec_nanos() })
}

/// Builds a `chrono::DateTime<Utc>` with `DateTime::from_timestamp_secs` and
/// `Timelike::with_nanosecond`, and writes it with `to_string`.
///
/// Trusted: the outcome depends on the instant alone.
#[verifier::external_body]
pub(crate) fn format_utc_timestamp(at: Instant) -> (r: Option<String>)
    ensures
        match r {
            Some(s) => timestamp_text(at) == Some(s@),
            None => timestamp_text(at) is None,
        },
{
    Some(DateTime::from_timestamp_secs(at.secs)?.with_nanosecond(at.nanos)?.to_string())
}

} // verus!
