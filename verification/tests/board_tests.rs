use chrono::{TimeDelta, TimeZone};
use chrono_tz::Tz;
use first_rank::board::{channel_of, leaderboard, select_in_scope, RunError};
use first_rank::calendar::CivilDate;
use first_rank::entry::RankedEntry;
use first_rank::instant::Instant;
use first_rank::rank::MAX_RESULTS;
use first_rank::submission::Submission;

const EPOCH: Instant = Instant { secs: 0, nanos: 0 };

fn march(day: u32) -> CivilDate {
    CivilDate { year: 2024, month: 3, day }
}

/// A guess made in Paris `micros` microseconds after `hour:minute` on a day of March 2024.
fn guess(player: &str, channel: &str, day: u32, hour: u32, minute: u32, micros: i64) -> Submission {
    let tz: Tz = "Europe/Paris".parse().unwrap();
    let opening = tz.with_ymd_and_hms(2024, 3, day, hour, minute, 0).single().unwrap();
    let at = opening + TimeDelta::microseconds(micros);
    Submission {
        player: player.to_string(),
        channel: channel.to_string(),
        timestamp: Instant { secs: at.timestamp(), nanos: at.timestamp_subsec_nanos() },
        timezone: "Europe/Paris".to_string(),
    }
}

fn entry(player: &str, date: CivilDate, delta: i64) -> RankedEntry {
    RankedEntry { date, delta, player: player.to_string() }
}

#[test]
fn a_channel_must_be_named() {
    assert_eq!(channel_of(None), Err(RunError::MissingChannel));
    assert_eq!(channel_of(Some("#game".to_string())), Ok("#game".to_string()));
    assert_eq!(channel_of(Some(String::new())), Ok(String::new()));
}

#[test]
fn run_errors_have_messages() {
    assert_eq!(RunError::MissingChannel.message(), "A channel must be provided");
    assert_eq!(RunError::NoResults.message(), "No results found");
}

#[test]
fn channel_filter_matches_whatever_the_case() {
    // The 13th opens at 09:34.
    let log = [guess("alice", "foo", 13, 9, 34, 50_000)];
    assert_eq!(
        leaderboard(&log, "Foo", &EPOCH, MAX_RESULTS),
        Ok(vec![entry("alice", march(13), 50_000)])
    );
    assert_eq!(select_in_scope(&log, "Foo", &EPOCH), log.to_vec());
    assert_eq!(select_in_scope(&log, "FOO", &EPOCH), log.to_vec());
    assert_eq!(select_in_scope(&log, "fooo", &EPOCH), vec![]);
}

#[test]
fn select_in_scope_keeps_the_order_of_the_log() {
    let log = [
        guess("alice", "#Game", 11, 6, 13, 1),
        guess("bob", "#other", 12, 7, 24, 2),
        guess("carol", "#game", 13, 9, 34, 3),
        guess("dave", "#GAME", 14, 10, 49, 4),
    ];
    let cutoff = log[2].timestamp;
    assert_eq!(
        select_in_scope(&log, "#game", &EPOCH),
        vec![log[0].clone(), log[2].clone(), log[3].clone()]
    );
    assert_eq!(select_in_scope(&log, "#game", &cutoff), vec![log[2].clone(), log[3].clone()]);
    assert_eq!(select_in_scope(&log, "#other", &cutoff), vec![]);
    assert_eq!(select_in_scope(&[], "#game", &EPOCH), vec![]);
}

#[test]
fn the_leaderboard_ranks_what_is_in_scope() {
    // The 11th opens at 06:13, the 12th at 07:24, the 13th at 09:34, the 14th at 10:49.
    let log = [
        guess("alice", "#game", 11, 6, 13, 400_000),
        guess("bob", "#other", 11, 6, 13, 100),
        guess("carol", "#Game", 12, 7, 24, 300_000),
        guess("dave", "#game", 13, 9, 34, 200_000),
        guess("erin", "#other", 13, 9, 34, 5),
        guess("alice", "#game", 14, 10, 49, 100_000),
    ];
    assert_eq!(
        leaderboard(&log, "#game", &EPOCH, MAX_RESULTS),
        Ok(vec![
            entry("alice", march(14), 100_000),
            entry("dave", march(13), 200_000),
            entry("carol", march(12), 300_000),
        ])
    );
    assert_eq!(
        leaderboard(&log, "#game", &log[2].timestamp, 2),
        Ok(vec![entry("alice", march(14), 100_000), entry("dave", march(13), 200_000)])
    );
    assert_eq!(
        leaderboard(&log, "#OTHER", &EPOCH, MAX_RESULTS),
        Ok(vec![entry("erin", march(13), 5), entry("bob", march(11), 100)])
    );
}

#[test]
fn out_of_scope_guesses_do_not_lose_a_day() {
    // The early guess is on another channel.
    let log = [
        guess("alice", "#game", 13, 9, 34, 50_000),
        guess("bob", "#other", 13, 9, 34, -10_000),
    ];
    assert_eq!(
        leaderboard(&log, "#game", &EPOCH, MAX_RESULTS),
        Ok(vec![entry("alice", march(13), 50_000)])
    );
}

#[test]
fn no_entry_is_no_results() {
    let log = [
        guess("alice", "#game", 13, 9, 34, -1),
        guess("bob", "#game", 14, 10, 49, 1_000_001),
    ];
    assert_eq!(leaderboard(&log, "#game", &EPOCH, MAX_RESULTS), Err(RunError::NoResults));
    assert_eq!(leaderboard(&[], "#game", &EPOCH, MAX_RESULTS), Err(RunError::NoResults));
    let good = [guess("alice", "#game", 13, 9, 34, 1)];
    assert_eq!(leaderboard(&good, "#elsewhere", &EPOCH, MAX_RESULTS), Err(RunError::NoResults));
    let later = Instant { secs: good[0].timestamp.secs + 1, nanos: 0 };
    assert_eq!(leaderboard(&good, "#game", &later, MAX_RESULTS), Err(RunError::NoResults));
    assert_eq!(leaderboard(&good, "#game", &EPOCH, 0), Err(RunError::NoResults));
    assert_eq!(
        leaderboard(&good, "#game", &EPOCH, 1),
        Ok(vec![entry("alice", march(13), 1)])
    );
}
