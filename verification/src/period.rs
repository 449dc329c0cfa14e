//! From a period keyword to the instant from which submissions count.

use crate::calendar::{
    instant_from_text, utc_calendar, utc_calendar_of, utc_instant_from_text, utc_now, UtcCalendar,
};
use crate::instant::{div_toward_zero, Instant};
use vstd::prelude::*;

verus! {

/// The periods over which a leaderboard can be asked for.
#[derive(Clone, Copy, Debug, PartialEq, Eq, Structural)]
pub enum Period {
    /// Since midnight at the start of the current UTC day.
    Day,
    /// The last 24 hours.
    Daily,
    /// Since this time of day on the Monday of the current week.
    Week,
    /// The last 7 days.
    Weekly,
    /// Since this time of day on the first day of the current month.
    Month,
    /// The last 30 days.
    Monthly,
    /// As many whole days as have passed since 11:59 UTC on 31 December of
    /// the year before.
    Year,
    /// The last 365 days.
    Yearly,
    /// Everything.
    Unknown,
}

/// `now` moved back by `days` whole days; the epoch where that instant would
/// be out of range.
pub open spec fn days_before(now: Instant, days: nat) -> Instant {
    match now.minus_days_spec(days) {
        Some(t) => t,
        None => Instant { secs: 0, nanos: 0 },
    }
}

/// Whole days from `anchor` to `now`, rounded toward zero. Without an anchor
/// the count starts at the epoch.
pub open spec fn days_since(now: Instant, anchor: Option<Instant>) -> int {
    let from = match anchor {
        Some(a) => a,
        None => Instant { secs: 0, nanos: 0 },
    };
    let seconds = div_toward_zero(now.nanos_since_spec(from), 1_000_000_000);
    div_toward_zero(seconds, 86_400)
}

/// The cutoff that a period stands for when the current time is `now`, the
/// UTC calendar reads `reading` at that time, and `anchor` is 11:59 UTC on 31
/// December of the year before.
///
/// The periods that go by the calendar have the epoch for a cutoff where
/// there is no reading; `Month` goes back one day less than the day of the
/// month; `Year` goes back the whole days since the anchor, and has the epoch
/// for a cutoff where the anchor lies after `now`.
pub open spec fn cutoff_from(
    period: Period,
    now: Instant,
    reading: Option<UtcCalendar>,
    anchor: Option<Instant>,
) -> Instant {
    let epoch = Instant { secs: 0, nanos: 0 };
    match period {
        Period::Unknown => epoch,
        Period::Day => match now.start_of_day_spec() {
            Some(t) => t,
            None => epoch,
        },
        Period::Daily => days_before(now, 1),
        Period::Weekly => days_before(now, 7),
        Period::Monthly => days_before(now, 30),
        Period::Yearly => days_before(now, 365),
        Period::Week => match reading {
            Some(c) => days_before(now, c.weekday as nat),
            None => epoch,
        },
        Period::Month => match reading {
            Some(c) => days_before(
                now,
                if c.day >= 1 {
                    (c.day - 1) as nat
                } else {
                    0
                },
            ),
            None => epoch,
        },
        Period::Year => match reading {
            Some(_) => if days_since(now, anchor) >= 0 {
                days_before(now, days_since(now, anchor) as nat)
            } else {
                epoch
            },
            None => epoch,
        },
    }
}

/// 11:59 UTC on 31 December of the year before the year of the reading, as
/// `chrono` parses it.
pub open spec fn anchor_of(reading: Option<UtcCalendar>) -> Option<Instant> {
    match reading {
        Some(c) => instant_from_text((c.year - 1) as i64, 12, 31, 11, 59),
        None => None,
    }
}

/// The cutoff that a period stands for when the current time is `now`.
pub open spec fn cutoff_of(period: Period, now: Instant) -> Instant {
    cutoff_from(period, now, utc_calendar_of(now), anchor_of(utc_calendar_of(now)))
}

/// With a calendar reading, `Week` reaches back no further than `Weekly`,
/// and never past `now`.
pub proof fn lemma_week_lies_within_weekly(now: Instant, reading: UtcCalendar, anchor: Option<Instant>)
    requires
        reading.wf(),
        now.minus_days_spec(7) is Some,
    ensures
        cutoff_from(Period::Week, now, Some(reading), anchor).at_or_after_spec(
            cutoff_from(Period::Weekly, now, Some(reading), anchor),
        ),
        now.at_or_after_spec(cutoff_from(Period::Week, now, Some(reading), anchor)),
{
}

/// With a calendar reading, `Month` reaches back no further than `Monthly`,
/// and never past `now`.
pub proof fn lemma_month_lies_within_monthly(now: Instant, reading: UtcCalendar, anchor: Option<Instant>)
    requires
        reading.wf(),
        now.minus_days_spec(30) is Some,
    ensures
        cutoff_from(Period::Month, now, Some(reading), anchor).at_or_after_spec(
            cutoff_from(Period::Monthly, now, Some(reading), anchor),
        ),
        now.at_or_after_spec(cutoff_from(Period::Month, now, Some(reading), anchor)),
{
}

impl Period {
    /// The period that a keyword names.
    pub open spec fn of_keyword(word: Seq<char>) -> Period {
        if word == "daily"@ {
            Period::Daily
        } else if word == "day"@ || word == "today"@ {
            Period::Day
        } else if word == "week"@ {
            Period::Week
        } else if word == "weekly"@ {
            Period::Weekly
        } else if word == "month"@ {
            Period::Month
        } else if word == "monthly"@ {
            Period::Monthly
        } else if word == "year"@ {
            Period::Year
        } else if word == "yearly"@ {
            Period::Yearly
        } else {
            Period::Unknown
        }
    }

    /// Reads a period keyword; any other word is `Unknown`.
    pub fn from_keyword(word: &str) -> (p: Period)
        ensures
            p == Period::of_keyword(word@),
    {
        if word.eq("daily") {
            Period::Daily
        } else if word.eq("day") || word.eq("today") {
            Period::Day
        } else if word.eq("week") {
            Period::Week
        } else if word.eq("weekly") {
            Period::Weekly
        } else if word.eq("month") {
            Period::Month
        } else if word.eq("monthly") {
            Period::Monthly
        } else if word.eq("year") {
            Period::Year
        } else if word.eq("yearly") {
            Period::Yearly
        } else {
            Period::Unknown
        }
    }

    /// Reads the period argument of a command line; a missing one is
    /// `Unknown`.
    pub fn from_argument(word: Option<&str>) -> (p: Period)
        ensures
            p == match word {
                Some(w) => Period::of_keyword(w@),
                None => Period::Unknown,
            },
    {
        match word {
            Some(w) => Period::from_keyword(w),
            None => Period::Unknown,
        }
    }
}

/// `now` moved back by `days` whole days; the epoch where that instant would
/// be out of range.
fn go_back(now: Instant, days: u64) -> (r: Instant)
    ensures
        r == days_before(now, days as nat),
{
    match now.minus_days(days) {
        Some(t) => t,
        None => Instant::epoch(),
    }
}

/// Whole days from `anchor` to `now`, where that count is not negative.
fn whole_days_since(now: Instant, anchor: Option<Instant>) -> (r: Option<u64>)
    ensures
        r == (if days_since(now, anchor) >= 0 {
            Some(days_since(now, anchor) as u64)
        } else {
            None
        }),
        days_since(now, anchor) <= u64::MAX,
{
    let from: Instant = match anchor {
        Some(a) => a,
        None => Instant::epoch(),
    };
    let d: i128 = now.nanos_since(&from);
    if d >= 0 {
        let days: i128 = (d / 1_000_000_000) / 86_400;
        Some(days as u64)
    } else {
        let days: i128 = -((-d) / 1_000_000_000) / 86_400;
        assert(days <= 0);
        if days == 0 {
            Some(0)
        } else {
            None
        }
    }
}

/// The instant from which submissions count for `period` when the current
/// time is `now`, the UTC calendar reads `reading` at that time, and `anchor`
/// is 11:59 UTC on 31 December of the year before. The reading matters for
/// `Week`, `Month` and `Year` only, the anchor for `Year` only.
pub fn cutoff_for(period: Period, now: Instant, reading: Option<UtcCalendar>, anchor: Option<Instant>) -> (cutoff:
    Instant)
    ensures
        cutoff == cutoff_from(period, now, reading, anchor),
{
    match period {
        Period::Unknown => Instant::epoch(),
        Period::Day => match now.start_of_day() {
            Some(t) => t,
            None => Instant::epoch(),
        },
        Period::Daily => go_back(now, 1),
        Period::Weekly => go_back(now, 7),
        Period::Monthly => go_back(now, 30),
        Period::Yearly => go_back(now, 365),
        Period::Week => match reading {
            Some(c) => go_back(now, c.weekday as u64),
            None => Instant::epoch(),
        },
        Period::Month => match reading {
            Some(c) => if c.day >= 1 {
                go_back(now, (c.day - 1) as u64)
            } else {
                go_back(now, 0)
            },
            None => Instant::epoch(),
        },
        Period::Year => match reading {
            Some(_) => match whole_days_since(now, anchor) {
                Some(days) => go_back(now, days),
                None => Instant::epoch(),
            },
            None => Instant::epoch(),
        },
    }
}

/// The instant from which submissions count for `period` when the current
/// time is `now`. An instant that cannot be computed gives the epoch, which
/// lets every submission count.
///
/// The cutoff is never later than `now`, unless it is the epoch. At a `now`
/// that the calendar reaches, `Week` goes back at most 6 days and `Month` at
/// most 30.
pub fn start_date_at(period: Period, now: Instant) -> (cutoff: Instant)
    ensures
        cutoff == cutoff_of(period, now),
        cutoff == (Instant { secs: 0, nanos: 0 }) || now.at_or_after_spec(cutoff),
        period == Period::Week && now.representable() ==> exists|days: nat|
            days <= 6 && cutoff == #[trigger] days_before(now, days),
        period == Period::Month && now.representable() ==> exists|days: nat|
            days <= 30 && cutoff == #[trigger] days_before(now, days),
{
    match period {
        Period::Week | Period::Month | Period::Year => {
            let reading: Option<UtcCalendar> = utc_calendar(now);
            let anchor: Option<Instant> = match reading {
                Some(c) => utc_instant_from_text(c.year as i64 - 1, 12, 31, 11, 59),
                None => None,
            };
            proof {
                if let Some(c) = reading {
                    assert(cutoff_from(Period::Week, now, reading, anchor) == days_before(
                        now,
                        c.weekday as nat,
                    ));
                    assert(cutoff_from(Period::Month, now, reading, anchor) == days_before(
                        now,
                        (c.day - 1) as nat,
                    ));
                }
            }
            cutoff_for(period, now, reading, anchor)
        },
        _ => cutoff_for(period, now, None, None),
    }
}

/// The instant from which submissions count for `period`, reckoned from the
/// system clock.
///
/// The cutoff is that of an instant which the calendar reaches, not before
/// the epoch and in no leap second: the one the clock gave. It is never later
/// than that instant, unless it is the epoch; `Week` goes back at most 6 days
/// and `Month` at most 30. For `Unknown` it is the epoch, whatever the clock
/// says.
pub fn start_date(period: Period) -> (cutoff: Instant)
    ensures
        exists|now: Instant|
            now.representable() && now.secs >= 0 && now.nanos < 1_000_000_000 && cutoff
                == #[trigger] cutoff_of(period, now) && (cutoff == (Instant { secs: 0, nanos: 0 })
                || now.at_or_after_spec(cutoff)) && (period == Period::Week ==> exists|days: nat|
                days <= 6 && cutoff == #[trigger] days_before(now, days)) && (period
                == Period::Month ==> exists|days: nat|
                days <= 30 && cutoff == #[trigger] days_before(now, days)),
        period == Period::Unknown ==> cutoff == (Instant { secs: 0, nanos: 0 }),
{
    let now: Instant = utc_now();
    start_date_at(period, now)
}

} // verus!
