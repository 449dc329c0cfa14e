//! The opening time of a day, rebuilt from its seed.
//!
//! The bot that runs the game seeds a fresh `rand::rngs::StdRng` with the day
//! of the month and draws the opening hour from it; it seeds a second one with
//! the same number and draws the opening minute. The same generator and the
//! same way of sampling a range give the same hour and minute here.

use rand::rngs::StdRng;
use rand::{Rng, SeedableRng};
use vstd::prelude::*;

verus! {

/// The earliest hour at which the game opens.
pub const OPEN_HOUR_LOW: u32 = 5;

/// The hour by which the game has opened: opening hours are drawn from
/// `OPEN_HOUR_LOW..OPEN_HOUR_HIGH`.
pub const OPEN_HOUR_HIGH: u32 = 12;

/// The least minute of an opening time.
pub const OPEN_MINUTE_LOW: u32 = 0;

/// One more than the greatest minute of an opening time: opening minutes are
/// drawn from `OPEN_MINUTE_LOW..OPEN_MINUTE_HIGH`.
pub const OPEN_MINUTE_HIGH: u32 = 59;

/// The hour and minute at which a day's game opens.
#[derive(Clone, Copy, Debug, PartialEq, Eq, Structural)]
pub struct OpeningTime {
    pub hour: u32,
    pub minute: u32,
}

/// The first number that a `StdRng` seeded with `seed` draws from
/// `low..high`.
pub uninterp spec fn first_draw(seed: u64, low: u32, high: u32) -> u32;

/// The opening time of every day whose day of the month is `day`.
pub open spec fn opening_time_of(day: u32) -> OpeningTime {
    OpeningTime {
        hour: first_draw(day as u64, OPEN_HOUR_LOW, OPEN_HOUR_HIGH),
        minute: first_draw(day as u64, OPEN_MINUTE_LOW, OPEN_MINUTE_HIGH),
    }
}

/// Seeds a `StdRng` with `SeedableRng::seed_from_u64` and draws once with
/// `Rng::random_range(low..high)`.
///
/// Trusted: the generator is a fixed algorithm, so the number drawn depends on
/// the seed and the range alone; it lies in the range, as `rand` documents.
/// `random_range` panics on an empty range, which `requires` leaves out. The
/// algorithm is that of the version of `rand` the crate is built with; `rand`
/// keeps the right to change it in a later version, which would then draw
/// other numbers than the bot did.
#[verifier::external_body]
pub(crate) fn draw(seed: u64, low: u32, high: u32) -> (r: u32)
    requires
        low < high,
    ensures
        r == first_draw(seed, low, high),
        low <= r < high,
{
    StdRng::seed_from_u64(seed).random_range(low..high)
}

/// Rebuilds the opening time of a day from its day of the month: an hour in
/// 5..12 and a minute in 0..59, each the first draw of its own generator
/// seeded with `day`.
pub fn opening_time(day: u32) -> (t: OpeningTime)
    ensures
        t == opening_time_of(day),
        OPEN_HOUR_LOW <= t.hour < OPEN_HOUR_HIGH,
        OPEN_MINUTE_LOW <= t.minute < OPEN_MINUTE_HIGH,
{
    let hour: u32 = draw(day as u64, OPEN_HOUR_LOW, OPEN_HOUR_HIGH);
    let minute: u32 = draw(day as u64, OPEN_MINUTE_LOW, OPEN_MINUTE_HIGH);
    OpeningTime { hour, minute }
}

/// Rebuilding the opening time of one day of the month twice gives the same
/// hour and minute both times.
pub proof fn lemma_opening_time_is_determined(day: u32, first: OpeningTime, second: OpeningTime)
    requires
        first == opening_time_of(day),
        second == opening_time_of(day),
    ensures
        first == second,
{
}

} // verus!
