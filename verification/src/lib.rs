//! Leaderboard of the closest guesses in a daily timed game.
//!
//! Every day a bot opens the game at a pseudo-random time of day that is known
//! only through its seed, the day of the month. Players submit time-stamped
//! guesses, and the guess that comes soonest after the opening wins the day.
//! From a log of submissions this crate rebuilds each day's opening time,
//! measures how far every guess was from it, picks each day's winner and ranks
//! the winners of all days.
//!
//! The way through the crate, from the log to the leaderboard:
//!
//! - [`submission`] holds an entry of the log, [`instant`] the instants on
//!   the time line, and [`period`] turns a period keyword into the instant
//!   from which submissions count;
//! - [`opening`] rebuilds the opening time of a day and [`delta`] measures a
//!   guess against it;
//! - [`days`] makes candidates of the submissions and finds the winner of
//!   each day, [`order`] sorts the winners and keeps one entry a player, and
//!   [`rank`] puts the ranking together;
//! - [`board`] is the whole run for one channel.
//!
//! Everything is verified but the calls into other crates. Time zones and the
//! calendar are `chrono`'s and `chrono_tz`'s ([`zone`], [`calendar`]), the
//! random draw is `rand`'s ([`opening`]), chunking, sorting and the dropping
//! of duplicates are `itertools`'s ([`days`], [`order`]), and lower case is
//! `std`'s ([`text`]). Each call stands in a small function marked
//! `external_body` whose contract is taken on trust; its doc comment says what
//! is trusted.

pub mod board;
pub mod calendar;
pub mod days;
pub mod delta;
pub mod entry;
pub mod instant;
pub mod opening;
pub mod order;
pub mod period;
pub mod rank;
pub mod submission;
pub mod text;
pub mod zone;
