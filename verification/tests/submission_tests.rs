use first_rank::instant::Instant;
use first_rank::submission::Submission;

fn row(fields: [&str; 4]) -> Vec<String> {
    fields.iter().map(|f| f.to_string()).collect()
}

fn sample() -> Submission {
    Submission {
        player: "alice".to_string(),
        channel: "#Game".to_string(),
        timestamp: Instant { secs: 1_710_318_840, nanos: 50_000_000 },
        timezone: "Europe/Paris".to_string(),
    }
}

#[test]
fn from_fields_reads_a_row() {
    let s = Submission::from_fields(&row(["alice", "#Game", "2024-03-13 08:34:00.050 UTC", "Europe/Paris"]));
    assert_eq!(s, sample());
}

#[test]
fn from_fields_reads_other_spellings_of_the_timestamp() {
    for text in ["2024-03-13T08:34:00.05Z", "2024-03-13 08:34:00.050+00:00", "2024-03-13 09:34:00.05 +01:00"] {
        let s = Submission::from_fields(&row(["alice", "#Game", text, "Europe/Paris"]));
        assert_eq!(s.timestamp, Instant { secs: 1_710_318_840, nanos: 50_000_000 });
    }
}

#[test]
fn a_bad_timestamp_is_the_epoch() {
    for text in ["", "yesterday", "2024-13-45 08:34:00 UTC", "1710318840"] {
        let s = Submission::from_fields(&row(["bob", "#game", text, "Asia/Tokyo"]));
        assert_eq!(s.timestamp, Instant { secs: 0, nanos: 0 });
        assert_eq!(s.player, "bob");
        assert_eq!(s.channel, "#game");
        assert_eq!(s.timezone, "Asia/Tokyo");
    }
}

#[test]
fn a_short_row_has_empty_fields() {
    let s = Submission::from_fields(&["carol".to_string(), "#game".to_string()]);
    assert_eq!(s.player, "carol");
    assert_eq!(s.channel, "#game");
    assert_eq!(s.timestamp, Instant { secs: 0, nanos: 0 });
    assert_eq!(s.timezone, "");
    let none = Submission::from_fields(&[]);
    assert_eq!(none.player, "");
    assert_eq!(none.channel, "");
    assert_eq!(none.timestamp, Instant { secs: 0, nanos: 0 });
    assert_eq!(none.timezone, "");
}

#[test]
fn further_fields_are_ignored() {
    let mut fields = row(["alice", "#Game", "2024-03-13 08:34:00.050 UTC", "Europe/Paris"]);
    fields.push("extra".to_string());
    assert_eq!(Submission::from_fields(&fields), sample());
}

#[test]
fn to_fields_writes_a_row() {
    assert_eq!(
        sample().to_fields(),
        row(["alice", "#Game", "2024-03-13 08:34:00.050 UTC", "Europe/Paris"])
    );
    let whole = Submission { timestamp: Instant { secs: 0, nanos: 0 }, ..sample() };
    assert_eq!(whole.to_fields()[2], "1970-01-01 00:00:00 UTC");
}

#[test]
fn a_row_reads_back_as_it_was_written() {
    let subs = [
        sample(),
        Submission { timestamp: Instant { secs: -3_225_277_939, nanos: 1 }, ..sample() },
        Submission { timestamp: Instant { secs: 0, nanos: 999_999_999 }, player: String::new(), ..sample() },
    ];
    for s in subs {
        assert_eq!(Submission::from_fields(&s.to_fields()), s);
    }
}

#[test]
fn an_instant_that_cannot_be_written_leaves_its_field_empty() {
    let far = Submission { timestamp: Instant { secs: i64::MAX, nanos: 0 }, ..sample() };
    assert_eq!(far.to_fields(), row(["alice", "#Game", "", "Europe/Paris"]));
    let odd = Submission { timestamp: Instant { secs: 0, nanos: 2_000_000_000 }, ..sample() };
    assert_eq!(odd.to_fields()[2], "");
}

#[test]
fn channel_filter_foo_matches_stored_foo() {
    let stored = Submission { channel: "foo".to_string(), ..sample() };
    assert!(stored.in_scope("Foo", &Instant { secs: 0, nanos: 0 }));
    let upper = Submission { channel: "FOO".to_string(), ..sample() };
    assert!(upper.in_scope("foo", &Instant { secs: 0, nanos: 0 }));
    assert!(!stored.in_scope("bar", &Instant { secs: 0, nanos: 0 }));
}

#[test]
fn in_scope_counts_from_the_cutoff() {
    let s = sample();
    assert!(s.in_scope("#game", &Instant { secs: 1_710_318_840, nanos: 50_000_000 }));
    assert!(s.in_scope("#game", &Instant { secs: 1_710_318_840, nanos: 49_999_999 }));
    assert!(!s.in_scope("#game", &Instant { secs: 1_710_318_840, nanos: 50_000_001 }));
    assert!(!s.in_scope("#game", &Instant { secs: 1_710_318_841, nanos: 0 }));
    assert!(s.in_scope("#game", &Instant { secs: 0, nanos: 0 }));
    assert!(!s.in_scope("#other", &Instant { secs: 0, nanos: 0 }));
}

#[test]
fn a_leap_second_is_read_and_written() {
    let s = Submission::from_fields(&row(["alice", "#Game", "2016-12-31 23:59:60.500 UTC", "Asia/Tokyo"]));
    assert_eq!(s.timestamp, Instant { secs: 1_483_228_799, nanos: 1_500_000_000 });
    assert_eq!(s.to_fields()[2], "2016-12-31 23:59:60.500 UTC");
    assert_eq!(Submission::from_fields(&s.to_fields()), s);
    assert!(s.in_scope("#game", &Instant { secs: 1_483_228_799, nanos: 999_999_999 }));
    assert!(!s.in_scope("#game", &Instant { secs: 1_483_228_800, nanos: 0 }));
}

#[test]
fn from_parsed_fields_takes_the_instant_it_is_given() {
    let fields = row(["alice", "#Game", "whatever", "Europe/Paris"]);
    let at = Instant { secs: 1_710_318_840, nanos: 50_000_000 };
    assert_eq!(Submission::from_parsed_fields(&fields, Some(at)), sample());
    let none = Submission::from_parsed_fields(&fields, None);
    assert_eq!(none, Submission { timestamp: Instant { secs: 0, nanos: 0 }, ..sample() });
    let short = Submission::from_parsed_fields(&["carol".to_string()], Some(at));
    assert_eq!(short.player, "carol");
    assert_eq!(short.channel, "");
    assert_eq!(short.timestamp, at);
    assert_eq!(short.timezone, "");
}

#[test]
fn to_fields_with_writes_the_stamp_it_is_given() {
    assert_eq!(
        sample().to_fields_with(Some("then".to_string())),
        row(["alice", "#Game", "then", "Europe/Paris"])
    );
    assert_eq!(sample().to_fields_with(None), row(["alice", "#Game", "", "Europe/Paris"]));
}
