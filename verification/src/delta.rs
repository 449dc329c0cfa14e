//! How long after the opening of its day a guess was made.

use crate::calendar::CivilDate;
use crate::instant::Instant;
use crate::opening::{opening_time, opening_time_of, OpeningTime};
use crate::submission::{Submission, SubmissionView};
use crate::zone::{
    hour_set_in_zone, minute_set_in_zone, nanosecond_set_in_zone, second_set_in_zone, set_hour,
    set_minute, set_nanosecond, set_second, zone_is_known, zone_known,
};
use vstd::prelude::*;

verus! {

/// Why no delta can be told for a submission.
#[derive(Clone, Copy, Debug, PartialEq, Eq, Structural)]
pub enum DeltaError {
    /// The submission's time zone is not a known zone.
    BadTimezone,
    /// The opening time does not exist, or exists twice, on the player's
    /// local day.
    BadLocalTime,
    /// The difference is not a whole number of microseconds, or is too large
    /// to count in microseconds.
    PrecisionError,
}

impl DeltaError {
    /// A short message for the error.
    pub fn message(&self) -> (m: &'static str)
        ensures
            m@ == match *self {
                DeltaError::BadTimezone => "Bad timezone"@,
                DeltaError::BadLocalTime => "Bad time format"@,
                DeltaError::PrecisionError => "Could not get microseconds"@,
            },
    {
        match self {
            DeltaError::BadTimezone => "Bad timezone",
            DeltaError::BadLocalTime => "Bad time format",
            DeltaError::PrecisionError => "Could not get microseconds",
        }
    }
}

/// The instant at which the game opened on the player's local day: the local
/// time of `at` in `zone` with the hour and the minute replaced by those of
/// the opening, in this order, and then the second and the nanosecond set to
/// zero. `None` as soon as one of the four steps finds no single instant.
pub open spec fn opening_instant(zone: Seq<char>, at: Instant, open: OpeningTime) -> Option<Instant> {
    match hour_set_in_zone(zone, at, open.hour) {
        None => None,
        Some(a) => match minute_set_in_zone(zone, a, open.minute) {
            None => None,
            Some(b) => match second_set_in_zone(zone, b, 0) {
                None => None,
                Some(c) => nanosecond_set_in_zone(zone, c, 0),
            },
        },
    }
}

/// The delta of a submission whose zone is known or not, as `known` says, and
/// whose day opened at `opening`: the microseconds from the opening to the
/// submission.
///
/// An unknown zone is a `BadTimezone`; no opening instant is a `BadLocalTime`;
/// a difference that is not a whole number of microseconds, or does not fit in
/// an `i64`, is a `PrecisionError`.
pub open spec fn measured(s: SubmissionView, known: bool, opening: Option<Instant>) -> Result<
    int,
    DeltaError,
> {
    if !known {
        Err(DeltaError::BadTimezone)
    } else {
        match opening {
            None => Err(DeltaError::BadLocalTime),
            Some(open) => match s.timestamp.whole_micros_since_spec(open) {
                Some(micros) => Ok(micros),
                None => Err(DeltaError::PrecisionError),
            },
        }
    }
}

/// The delta of a submission for a day: the submission measured against the
/// opening instant of the player's local day, where the opening time is that
/// of `day`'s day of the month.
pub open spec fn delta_of(day: CivilDate, s: SubmissionView) -> Result<int, DeltaError> {
    measured(
        s,
        zone_is_known(s.timezone),
        opening_instant(s.timezone, s.timestamp, opening_time_of(day.day)),
    )
}

/// Two submissions measured against one opening instant: the difference of
/// their deltas is the time from the one submission to the other. (Of
/// instants in a leap second this does not hold, since a leap second is
/// counted or not by where it lies in the day.)
pub proof fn lemma_deltas_from_one_opening(
    first: SubmissionView,
    second: SubmissionView,
    opening: Instant,
    x1: int,
    x2: int,
)
    requires
        !first.timestamp.in_leap_second(),
        !second.timestamp.in_leap_second(),
        !opening.in_leap_second(),
        measured(first, true, Some(opening)) == Ok::<int, DeltaError>(x1),
        measured(second, true, Some(opening)) == Ok::<int, DeltaError>(x2),
    ensures
        first.timestamp.nanos_since_spec(second.timestamp) == (x1 - x2) * 1000,
{
}

/// The opening instant on the player's local day, step by step.
fn find_opening_instant(zone: &str, at: Instant, open: OpeningTime) -> (r: Option<Instant>)
    ensures
        r == opening_instant(zone@, at, open),
{
    let a: Instant = match set_hour(zone, at, open.hour) {
        Some(a) => a,
        None => {
            return None;
        },
    };
    let b: Instant = match set_minute(zone, a, open.minute) {
        Some(b) => b,
        None => {
            return None;
        },
    };
    let c: Instant = match set_second(zone, b, 0) {
        Some(c) => c,
        None => {
            return None;
        },
    };
    set_nanosecond(zone, c, 0)
}

/// Measures a submission against the opening instant of its day: the delta
/// in microseconds, together with the player's name. `known` says whether the
/// submission's time zone is a known zone, and `opening` is the opening
/// instant of the player's local day, if there is one.
pub fn measure(r: &Submission, known: bool, opening: Option<Instant>) -> (res: Result<
    (i64, String),
    DeltaError,
>)
    ensures
        match res {
            Ok((micros, player)) => measured(r@, known, opening) == Ok::<int, DeltaError>(
                micros as int,
            ) && player@ == r.player@,
            Err(e) => measured(r@, known, opening) == Err::<int, DeltaError>(e),
        },
{
    if !known {
        return Err(DeltaError::BadTimezone);
    }
    let open: Instant = match opening {
        Some(t) => t,
        None => {
            return Err(DeltaError::BadLocalTime);
        },
    };
    match r.timestamp.whole_micros_since(&open) {
        Some(micros) => Ok((micros, r.player.clone())),
        None => Err(DeltaError::PrecisionError),
    }
}

/// Computes the delta of a submission for a day, in microseconds, together
/// with the player's name.
///
/// The delta is positive for a guess made after the opening and negative for
/// one made before it.
pub fn delta(day: CivilDate, r: &Submission) -> (res: Result<(i64, String), DeltaError>)
    ensures
        match res {
            Ok((micros, player)) => delta_of(day, r@) == Ok::<int, DeltaError>(micros as int)
                && player@ == r.player@,
            Err(e) => delta_of(day, r@) == Err::<int, DeltaError>(e),
        },
{
    if !zone_known(r.timezone.as_str()) {
        return measure(r, false, None);
    }
    let open: OpeningTime = opening_time(day.day);
    let opening: Option<Instant> = find_opening_instant(r.timezone.as_str(), r.timestamp, open);
    measure(r, true, opening)
}

} // verus!
