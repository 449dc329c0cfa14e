use chrono::{DateTime, Datelike, Days, NaiveDate, TimeDelta, TimeZone, Timelike, Utc};
use chrono_tz::Tz;
use first_rank::calendar::CivilDate;
use first_rank::days::candidates;
use first_rank::delta::delta;
use first_rank::entry::RankedEntry;
use first_rank::instant::Instant;
use first_rank::period::{start_date_at, Period};
use first_rank::rank::rank;
use first_rank::submission::Submission;
use itertools::Itertools;
use rand::rngs::StdRng;
use rand::{Rng, SeedableRng};

const ZONES: [&str; 10] = [
    "Europe/Paris",
    "America/New_York",
    "Asia/Tokyo",
    "Australia/Lord_Howe",
    "Asia/Kolkata",
    "Pacific/Apia",
    "America/Sao_Paulo",
    "Africa/Cairo",
    "UTC",
    "America/St_Johns",
];

const PLAYERS: [&str; 7] = ["alice", "bob", "carol", "dave", "erin", "frank", "grace"];

/// A small generator of numbers that look random and are the same at every run.
struct Numbers(u64);

impl Numbers {
    fn next(&mut self) -> u64 {
        self.0 = self.0.wrapping_mul(6_364_136_223_846_793_005).wrapping_add(1_442_695_040_888_963_407);
        self.0 >> 33
    }

    fn below(&mut self, n: u64) -> u64 {
        self.next() % n
    }
}

fn chrono_of(t: Instant) -> DateTime<Utc> {
    DateTime::from_timestamp(t.secs, t.nanos).unwrap()
}

fn instant_of(t: DateTime<Utc>) -> Instant {
    Instant { secs: t.timestamp(), nanos: t.timestamp_subsec_nanos() }
}

fn local_day(s: &Submission) -> NaiveDate {
    let tz: Tz = s.timezone.parse().unwrap();
    chrono_of(s.timestamp).with_timezone(&tz).date_naive()
}

/// The delta computed with the date and time library alone.
fn direct_delta(day: NaiveDate, s: &Submission) -> Option<i64> {
    let tz: Tz = s.timezone.parse().ok()?;
    let local = chrono_of(s.timestamp).with_timezone(&tz);
    let hour: u32 = StdRng::seed_from_u64(day.day() as u64).random_range(5..12);
    let minute: u32 = StdRng::seed_from_u64(day.day() as u64).random_range(0..59);
    let opening = local
        .with_hour(hour)
        .and_then(|t| t.with_minute(minute))
        .and_then(|t| t.with_second(0))
        .and_then(|t| t.with_nanosecond(0))?;
    let difference = local - opening;
    if difference.subsec_nanos() % 1_000 != 0 {
        return None;
    }
    difference.num_microseconds()
}

/// The ranking computed with iterator adaptors alone.
fn direct_rank(log: &[Submission], max_results: usize) -> Vec<RankedEntry> {
    let groups = log.iter().chunk_by(|s| local_day(s));
    groups
        .into_iter()
        .filter_map(|(day, group)| {
            let best: Vec<(i64, String)> = group
                .filter_map(|s| direct_delta(day, s).map(|d| (d, s.player.clone())))
                .sorted_by(|a, b| Ord::cmp(&a.0, &b.0))
                .take(1)
                .collect();
            match best.first() {
                Some((micros, player)) if *micros > 0 && *micros <= 1_000_000 => Some(RankedEntry {
                    date: CivilDate { year: day.year(), month: day.month(), day: day.day() },
                    delta: *micros,
                    player: player.clone(),
                }),
                _ => None,
            }
        })
        .sorted_by(|a, b| Ord::cmp(&a.delta, &b.delta))
        .unique_by(|e| e.player.clone())
        .take(max_results)
        .collect()
}

/// A log of `days` days from 2023-10-20 on, with up to four guesses a day around the opening.
fn log_of(seed: u64, days: u64) -> Vec<Submission> {
    let mut numbers = Numbers(seed);
    let mut log = Vec::new();
    let start = NaiveDate::from_ymd_opt(2023, 10, 20).unwrap();
    for n in 0..days {
        let date = start + Days::new(n);
        let hour: u32 = StdRng::seed_from_u64(date.day() as u64).random_range(5..12);
        let minute: u32 = StdRng::seed_from_u64(date.day() as u64).random_range(0..59);
        for _ in 0..numbers.below(5) {
            let zone = ZONES[numbers.below(ZONES.len() as u64) as usize];
            let tz: Tz = zone.parse().unwrap();
            let opening = match tz.with_ymd_and_hms(date.year(), date.month(), date.day(), hour, minute, 0).single() {
                Some(t) => t,
                None => continue,
            };
            let nanos = match numbers.below(5) {
                0 => numbers.below(1_200_000) as i64 * 1_000,
                1 => numbers.below(5_000_000) as i64 * 1_000 - 2_000_000_000,
                2 => numbers.below(200_000) as i64 * 1_000,
                3 => numbers.below(1_200_000_000) as i64,
                _ => numbers.below(86_400) as i64 * 1_000_000_000 - 30_000_000_000_000,
            };
            let at = opening + TimeDelta::nanoseconds(nanos);
            log.push(Submission {
                player: PLAYERS[numbers.below(PLAYERS.len() as u64) as usize].to_string(),
                channel: "#game".to_string(),
                timestamp: Instant { secs: at.timestamp(), nanos: at.timestamp_subsec_nanos() },
                timezone: zone.to_string(),
            });
        }
    }
    log
}

#[test]
fn deltas_agree_with_a_direct_computation() {
    let log = log_of(11, 400);
    assert!(log.len() > 500);
    for s in &log {
        let day = local_day(s);
        let date = CivilDate { year: day.year(), month: day.month(), day: day.day() };
        assert_eq!(delta(date, s).ok(), direct_delta(day, s).map(|d| (d, s.player.clone())));
    }
}

#[test]
fn deltas_at_any_time_of_any_day_agree_with_a_direct_computation() {
    let mut numbers = Numbers(5);
    for _ in 0..3_000 {
        let zone = ZONES[numbers.below(ZONES.len() as u64) as usize];
        let s = Submission {
            player: "alice".to_string(),
            channel: "#game".to_string(),
            timestamp: Instant {
                secs: numbers.below(4_000_000_000) as i64 - 1_000_000_000,
                nanos: if numbers.below(4) == 0 {
                    numbers.below(1_000_000_000) as u32
                } else {
                    numbers.below(1_000_000) as u32 * 1_000
                },
            },
            timezone: zone.to_string(),
        };
        let day = local_day(&s);
        let date = CivilDate { year: day.year(), month: day.month(), day: day.day() };
        assert_eq!(delta(date, &s).ok().map(|d| d.0), direct_delta(day, &s));
        let made = candidates(&[s.clone()]);
        assert_eq!(made.len(), 1);
        assert_eq!(made[0].date, date);
        assert_eq!(made[0].delta, direct_delta(day, &s));
    }
}

#[test]
fn rankings_agree_with_a_direct_computation() {
    let mut entries = 0;
    for seed in 0..40u64 {
        let log = log_of(seed, 60 + seed);
        for max_results in [0usize, 1, 3, 10, 1_000] {
            let ranking = rank(&log, max_results);
            assert_eq!(ranking, direct_rank(&log, max_results));
            entries += ranking.len();
        }
    }
    assert!(entries > 200);
}

#[test]
fn rankings_of_shuffled_days_agree_with_a_direct_computation() {
    let mut numbers = Numbers(99);
    for seed in 0..20u64 {
        let mut log = log_of(1_000 + seed, 40);
        for i in 0..log.len() {
            if numbers.below(4) == 0 {
                let j = numbers.below(log.len() as u64) as usize;
                log.swap(i, j);
            }
        }
        assert_eq!(rank(&log, 10), direct_rank(&log, 10));
    }
}

#[test]
fn fixed_periods_agree_with_chronos_days() {
    let mut numbers = Numbers(3);
    for _ in 0..2_000 {
        let now = Instant {
            secs: numbers.below(8_000_000_000) as i64 - 3_000_000_000,
            nanos: numbers.below(1_000_000_000) as u32,
        };
        for (period, days) in [(Period::Daily, 1u64), (Period::Weekly, 7), (Period::Monthly, 30), (Period::Yearly, 365)] {
            let expected = chrono_of(now).checked_sub_days(Days::new(days)).unwrap_or_default();
            assert_eq!(start_date_at(period, now), instant_of(expected));
        }
    }
}

#[test]
fn calendar_periods_agree_with_chronos_calendar() {
    let mut numbers = Numbers(4);
    for _ in 0..2_000 {
        let now = Instant {
            secs: numbers.below(8_000_000_000) as i64 - 3_000_000_000,
            nanos: numbers.below(1_000_000_000) as u32,
        };
        let t = chrono_of(now);
        let midnight = t.date_naive().and_hms_opt(0, 0, 0).unwrap().and_utc();
        assert_eq!(start_date_at(Period::Day, now), instant_of(midnight));
        let monday = t.checked_sub_days(Days::new(t.weekday().num_days_from_monday() as u64)).unwrap();
        assert_eq!(start_date_at(Period::Week, now), instant_of(monday));
        assert_eq!(monday.weekday().num_days_from_monday(), 0);
        assert_eq!(monday.time(), t.time());
        let first = t.checked_sub_days(Days::new(t.day() as u64 - 1)).unwrap();
        assert_eq!(start_date_at(Period::Month, now), instant_of(first));
        assert_eq!((first.year(), first.month(), first.day()), (t.year(), t.month(), 1));
        let eve = NaiveDate::from_ymd_opt(t.year() - 1, 12, 31).unwrap().and_hms_opt(11, 59, 0).unwrap().and_utc();
        let since = t.signed_duration_since(eve).num_days() as u64;
        let year = t.checked_sub_days(Days::new(since)).unwrap();
        assert_eq!(start_date_at(Period::Year, now), instant_of(year));
        assert!(year > eve && year <= eve + TimeDelta::days(1));
    }
}
