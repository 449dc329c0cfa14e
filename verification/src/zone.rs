//! Named time zones, as `chrono_tz` knows them, and local wall-clock time in
//! them, as `chrono` computes it.
//!
//! The functions marked `external_body` call the two crates; their contracts
//! are taken on trust. A zone is handed over by its name and an instant by its
//! seconds and nanoseconds, so every result depends on plain values alone and
//! has a name that contracts elsewhere can speak of. Each of them parses the
//! name with `FromStr` for `Tz` and builds the `chrono::DateTime` with
//! `DateTime::from_timestamp_secs` and `Timelike::with_nanosecond`, which
//! holds every instant that `chrono` can hold.

use crate::calendar::CivilDate;
use crate::instant::Instant;
use chrono::{DateTime, Datelike, Timelike};
use chrono_tz::Tz;
use vstd::prelude::*;

verus! {

/// Whether `chrono_tz` knows a zone of this name.
pub uninterp spec fn zone_is_known(zone: Seq<char>) -> bool;

/// The calendar date that the instant falls on in the zone; `None` where the
/// zone is not known or `chrono` cannot represent the instant.
pub uninterp spec fn local_date_in_zone(zone: Seq<char>, at: Instant) -> Option<CivilDate>;

/// The instant whose local time in the zone is that of `at` with the hour
/// replaced; `None` where `chrono` finds no single such instant.
pub uninterp spec fn hour_set_in_zone(zone: Seq<char>, at: Instant, hour: u32) -> Option<Instant>;

/// As `hour_set_in_zone`, for the minute.
pub uninterp spec fn minute_set_in_zone(zone: Seq<char>, at: Instant, minute: u32) -> Option<Instant>;

/// As `hour_set_in_zone`, for the second.
pub uninterp spec fn second_set_in_zone(zone: Seq<char>, at: Instant, second: u32) -> Option<Instant>;

/// As `hour_set_in_zone`, for the nanosecond.
pub uninterp spec fn nanosecond_set_in_zone(zone: Seq<char>, at: Instant, nanosecond: u32) -> Option<Instant>;

/// The calendar date that the instant falls on in the zone, none in a zone
/// that is not known.
pub open spec fn local_date_of(zone: Seq<char>, at: Instant) -> Option<CivilDate> {
    if zone_is_known(zone) {
        local_date_in_zone(zone, at)
    } else {
        None
    }
}

/// Parses the name with `chrono_tz`'s `FromStr` for `Tz`.
///
/// Trusted: whether the name parses depends on the name alone.
#[verifier::external_body]
pub(crate) fn zone_known(zone: &str) -> (r: bool)
    ensures
        r == zone_is_known(zone@),
{
    zone.parse::<Tz>().is_ok()
}

/// Moves the instant into the zone with `DateTime::with_timezone` and reads
/// the local `year`, `month` and `day`.
///
/// Trusted: the outcome depends on the zone's name and the instant alone, and
/// a name that does not parse gives no date.
#[verifier::external_body]
pub(crate) fn local_date(zone: &str, at: Instant) -> (r: Option<CivilDate>)
    ensures
        r == local_date_in_zone(zone@, at),
        !zone_is_known(zone@) ==> r is None,
{
    let tz = zone.parse::<Tz>().ok()?;
    let local = DateTime::from_timestamp_secs(at.secs)?.with_nanosecond(at.nanos)?.with_timezone(&tz);
    Some(CivilDate { year: local.year(), month: local.month(), day: local.day() })
}

/// Moves the instant into the zone and calls `Timelike::with_hour` on it.
///
/// Trusted: the outcome depends on the zone's name, the instant and the hour
/// alone.
#[verifier::external_body]
pub(crate) fn set_hour(zone: &str, at: Instant, hour: u32) -> (r: Option<Instant>)
    ensures
        r == hour_set_in_zone(zone@, at, hour),
{
    let tz = zone.parse::<Tz>().ok()?;
    let local = DateTime::from_timestamp_secs(at.secs)?.with_nanosecond(at.nanos)?.with_timezone(&tz);
    let moved = local.with_hour(hour)?;
    Some(Instant { secs: moved.timestamp(), nanos: moved.timestamp_subsec_nanos() })
}

/// Moves the instant into the zone and calls `Timelike::with_minute` on it.
///
/// Trusted: the outcome depends on the zone's name, the instant and the
/// minute alone.
#[verifier::external_body]
pub(crate) fn set_minute(zone: &str, at: Instant, minute: u32) -> (r: Option<Instant>)
    ensures
        r == minute_set_in_zone(zone@, at, minute),
{
    let tz = zone.parse::<Tz>().ok()?;
    let local = DateTime::from_timestamp_secs(at.secs)?.with_nanosecond(at.nanos)?.with_timezone(&tz);
    let moved = local.with_minute(minute)?;
    Some(Instant { secs: moved.timestamp(), nanos: moved.timestamp_subsec_nanos() })
}

/// Moves the instant into the zone and calls `Timelike::with_second` on it.
///
/// Trusted: the outcome depends on the zone's name, the instant and the
/// second alone.
#[verifier::external_body]
pub(crate) fn set_second(zone: &str, at: Instant, second: u32) -> (r: Option<Instant>)
    ensures
        r == second_set_in_zone(zone@, at, second),
{
    let tz = zone.parse::<Tz>().ok()?;
    let local = DateTime::from_timestamp_secs(at.secs)?.with_nanosecond(at.nanos)?.with_timezone(&tz);
    let moved = local.with_second(second)?;
    Some(Instant { secs: moved.timestamp(), nanos: moved.timestamp_subsec_nanos() })
}

/// Moves the instant into the zone and calls `Timelike::with_nanosecond` on
/// it.
///
/// Trusted: the outcome depends on the zone's name, the instant and the
/// nanosecond alone.
#[verifier::external_body]
pub(crate) fn set_nanosecond(zone: &str, at: Instant, nanosecond: u32) -> (r: Option<Instant>)
    ensures
        r == nanosecond_set_in_zone(zone@, at, nanosecond),
{
    let tz = zone.parse::<Tz>().ok()?;
    let local = DateTime::from_timestamp_secs(at.secs)?.with_nanosecond(at.nanos)?.with_timezone(&tz);
    let moved = local.with_nanosecond(nanosecond)?;
    Some(Instant { secs: moved.timestamp(), nanos: moved.timestamp_subsec_nanos() })
}

} // verus!
