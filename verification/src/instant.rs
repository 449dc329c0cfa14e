//! Absolute instants on the UTC time line, counted from the Unix epoch.
//!
//! An instant is held as `chrono` reads a time stamp: whole seconds since the
//! epoch, leap seconds not counted, and the nanoseconds after that second.
//! Nanoseconds from 1,000,000,000 up say that the instant lies in a leap
//! second, the second 60 that follows the second `secs`. Differences and
//! comparisons count such an instant as `chrono` does.

use vstd::prelude::*;

verus! {

/// Seconds from the epoch to the earliest instant the calendar of `chrono`
/// reaches: midnight before 1 January of the year -262143.
pub const EARLIEST_SECS: i64 = -8_334_601_228_800;

/// Seconds from the epoch to the last second the calendar of `chrono`
/// reaches: 23:59:59 on 31 December of the year 262142.
pub const LATEST_SECS: i64 = 8_210_266_876_799;

/// An instant: `secs` whole seconds after the epoch (before it when negative)
/// and `nanos` nanoseconds after that second.
#[derive(Clone, Copy, Debug, PartialEq, Eq, Structural)]
pub struct Instant {
    pub secs: i64,
    pub nanos: u32,
}

/// `n / d` rounded toward zero, for a positive `d`.
pub open spec fn div_toward_zero(n: int, d: int) -> int {
    if n >= 0 {
        n / d
    } else {
        -((-n) / d)
    }
}

impl Instant {
    /// Whether the calendar of `chrono` reaches the instant.
    pub open spec fn representable(self) -> bool {
        &&& EARLIEST_SECS <= self.secs <= LATEST_SECS
        &&& self.nanos < 2_000_000_000
        &&& self.secs == LATEST_SECS ==> self.nanos < 1_000_000_000
    }

    /// Whether the instant lies in a leap second.
    pub open spec fn in_leap_second(self) -> bool {
        self.nanos >= 1_000_000_000
    }

    /// The second of its UTC day that holds the instant, from 0 to 86,399.
    pub open spec fn second_of_day(self) -> int {
        (self.secs % 86_400) as int
    }

    /// The leap second to count between `earlier` and `self`: one more where
    /// `earlier` lies in a leap second and `self` has the greater second of
    /// the day, one less where `self` lies in a leap second and `earlier` has
    /// the greater second of the day.
    pub open spec fn leap_second_since(self, earlier: Instant) -> int {
        if self.second_of_day() > earlier.second_of_day() && earlier.in_leap_second() {
            1
        } else if self.second_of_day() < earlier.second_of_day() && self.in_leap_second() {
            -1
        } else {
            0
        }
    }

    /// Nanoseconds from `earlier` to `self`; negative when `self` comes first.
    pub open spec fn nanos_since_spec(self, earlier: Instant) -> int {
        (self.secs - earlier.secs + self.leap_second_since(earlier)) * 1_000_000_000 + (self.nanos
            - earlier.nanos)
    }

    /// Microseconds from `earlier` to `self`, where that is a whole number of
    /// microseconds that fits in an `i64`.
    pub open spec fn whole_micros_since_spec(self, earlier: Instant) -> Option<int> {
        let nanos = self.nanos_since_spec(earlier);
        if nanos % 1000 == 0 && i64::MIN <= nanos / 1000 <= i64::MAX {
            Some(nanos / 1000)
        } else {
            None
        }
    }

    /// Whether `self` is `other` or later.
    pub open spec fn at_or_after_spec(self, other: Instant) -> bool {
        self.secs > other.secs || (self.secs == other.secs && self.nanos >= other.nanos)
    }

    /// The instant `days` whole days before `self`, if it is not earlier than
    /// `EARLIEST_SECS`.
    pub open spec fn minus_days_spec(self, days: nat) -> Option<Instant> {
        if self.secs - 86_400 * days >= EARLIEST_SECS {
            Some(Instant { secs: (self.secs - 86_400 * days) as i64, nanos: self.nanos })
        } else {
            None
        }
    }

    /// Midnight at the start of the UTC day that holds `self`, if `self` is
    /// not earlier than `EARLIEST_SECS`.
    pub open spec fn start_of_day_spec(self) -> Option<Instant> {
        if self.secs >= EARLIEST_SECS {
            Some(Instant { secs: (self.secs - self.secs % 86_400) as i64, nanos: 0 })
        } else {
            None
        }
    }

    /// The Unix epoch, 1970-01-01 00:00:00 UTC.
    pub fn epoch() -> (r: Instant)
        ensures
            r == (Instant { secs: 0, nanos: 0 }),
    {
        Instant { secs: 0, nanos: 0 }
    }

    /// Whether `self` is `other` or later.
    pub fn at_or_after(&self, other: &Instant) -> (r: bool)
        ensures
            r == self.at_or_after_spec(*other),
    {
        self.secs > other.secs || (self.secs == other.secs && self.nanos >= other.nanos)
    }

    fn day_second(&self) -> (r: i64)
        ensures
            r == self.second_of_day(),
    {
        let rem: i64 = self.secs % 86_400;
        if rem < 0 {
            rem + 86_400
        } else {
            rem
        }
    }

    /// Nanoseconds from `earlier` to `self`; negative when `self` comes first.
    pub fn nanos_since(&self, earlier: &Instant) -> (r: i128)
        ensures
            r == self.nanos_since_spec(*earlier),
    {
        let mine: i64 = self.day_second();
        let theirs: i64 = earlier.day_second();
        let leap: i128 = if mine > theirs && earlier.nanos >= 1_000_000_000 {
            1
        } else if mine < theirs && self.nanos >= 1_000_000_000 {
            -1
        } else {
            0
        };
        ((self.secs as i128) - (earlier.secs as i128) + leap) * 1_000_000_000 + ((self.nanos as i128)
            - (earlier.nanos as i128))
    }

    /// Microseconds from `earlier` to `self`; `None` where the difference is
    /// not a whole number of microseconds or does not fit in an `i64`.
    pub fn whole_micros_since(&self, earlier: &Instant) -> (r: Option<i64>)
        ensures
            match r {
                Some(micros) => self.whole_micros_since_spec(*earlier) == Some(micros as int),
                None => self.whole_micros_since_spec(*earlier) is None,
            },
    {
        let nanos: i128 = self.nanos_since(earlier);
        if nanos % 1000 != 0 {
            return None;
        }
        let micros: i128 = nanos / 1000;
        if micros < i64::MIN as i128 || micros > i64::MAX as i128 {
            None
        } else {
            Some(micros as i64)
        }
    }

    /// The instant `days` whole days before `self`, or `None` when that would
    /// be earlier than `EARLIEST_SECS`.
    pub fn minus_days(&self, days: u64) -> (r: Option<Instant>)
        ensures
            r == self.minus_days_spec(days as nat),
    {
        let s: i128 = (self.secs as i128) - 86_400 * (days as i128);
        if s >= EARLIEST_SECS as i128 {
            Some(Instant { secs: s as i64, nanos: self.nanos })
        } else {
            None
        }
    }

    /// Midnight at the start of the UTC day that holds `self`, or `None` when
    /// `self` is earlier than `EARLIEST_SECS`.
    pub fn start_of_day(&self) -> (r: Option<Instant>)
        ensures
            r == self.start_of_day_spec(),
    {
        if self.secs < EARLIEST_SECS {
            return None;
        }
        let back: i64 = self.day_second();
        Some(Instant { secs: self.secs - back, nanos: 0 })
    }
}

} // verus!
