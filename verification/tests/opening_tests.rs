use first_rank::opening::{
    opening_time, OpeningTime, OPEN_HOUR_HIGH, OPEN_HOUR_LOW, OPEN_MINUTE_HIGH, OPEN_MINUTE_LOW,
};
use rand::rngs::StdRng;
use rand::{Rng, SeedableRng};

const OPENINGS: [(u32, u32, u32); 31] = [
    (1, 10, 48), (2, 5, 4), (3, 9, 38), (4, 9, 40), (5, 6, 10), (6, 5, 7), (7, 7, 24),
    (8, 9, 37), (9, 9, 34), (10, 7, 22), (11, 6, 13), (12, 7, 24), (13, 9, 34), (14, 10, 49),
    (15, 10, 48), (16, 11, 54), (17, 8, 32), (18, 7, 18), (19, 10, 45), (20, 8, 28),
    (21, 10, 49), (22, 11, 55), (23, 5, 8), (24, 9, 37), (25, 9, 36), (26, 6, 16), (27, 11, 56),
    (28, 8, 25), (29, 11, 58), (30, 7, 22), (31, 6, 12),
];

#[test]
fn opening_ranges_are_the_games() {
    assert_eq!((OPEN_HOUR_LOW, OPEN_HOUR_HIGH), (5, 12));
    assert_eq!((OPEN_MINUTE_LOW, OPEN_MINUTE_HIGH), (0, 59));
}

#[test]
fn opening_times_of_every_day_of_the_month() {
    for (day, hour, minute) in OPENINGS {
        assert_eq!(opening_time(day), OpeningTime { hour, minute });
    }
}

#[test]
fn opening_time_is_the_same_every_time() {
    for day in 1..=31u32 {
        assert_eq!(opening_time(day), opening_time(day));
    }
    assert_eq!(opening_time(13), OpeningTime { hour: 9, minute: 34 });
    assert_eq!(opening_time(13), OpeningTime { hour: 9, minute: 34 });
}

#[test]
fn opening_time_lies_in_its_ranges() {
    for day in 0..=400u32 {
        let t = opening_time(day);
        assert!(5 <= t.hour && t.hour < 12);
        assert!(t.minute < 59);
    }
}

#[test]
fn opening_time_is_the_first_draw_of_two_fresh_generators() {
    for day in [1u32, 2, 13, 28, 31] {
        let hour: u32 = StdRng::seed_from_u64(day as u64).random_range(5..12);
        let minute: u32 = StdRng::seed_from_u64(day as u64).random_range(0..59);
        assert_eq!(opening_time(day), OpeningTime { hour, minute });
    }
}

#[test]
fn opening_time_is_not_the_seed() {
    assert_eq!(opening_time(1).hour, 10);
    assert_eq!(opening_time(6).minute, 7);
    assert_eq!(opening_time(7).hour, 7);
    assert_eq!(opening_time(7).minute, 24);
}
