//! One entry of the game, as the record store holds it.

use crate::calendar::{format_utc_timestamp, parse_utc_timestamp, timestamp_from_text, timestamp_text};
use crate::instant::Instant;
use crate::text::{eq_ignoring_case, same_ignoring_case};
use vstd::prelude::*;

verus! {

/// A player's guess: who made it, on which channel, at which instant, and the
/// name of the time zone the player lives in.
#[derive(Clone, Debug, PartialEq, Eq)]
pub struct Submission {
    pub player: String,
    pub channel: String,
    pub timestamp: Instant,
    pub timezone: String,
}

/// A submission with its texts as sequences of characters.
pub struct SubmissionView {
    pub player: Seq<char>,
    pub channel: Seq<char>,
    pub timestamp: Instant,
    pub timezone: Seq<char>,
}

impl View for Submission {
    type V = SubmissionView;

    open spec fn view(&self) -> SubmissionView {
        SubmissionView {
            player: self.player@,
            channel: self.channel@,
            timestamp: self.timestamp,
            timezone: self.timezone@,
        }
    }
}

/// The submissions of a slice, each by its view.
pub open spec fn submissions_view(v: Seq<Submission>) -> Seq<SubmissionView> {
    v.map_values(|s: Submission| s@)
}

/// The fields of a stored row as sequences of characters.
pub open spec fn fields_view(fields: Seq<String>) -> Seq<Seq<char>> {
    fields.map_values(|f: String| f@)
}

/// Field `i` of a row, empty where the row is too short.
pub open spec fn field_or_empty(fields: Seq<Seq<char>>, i: int) -> Seq<char> {
    if 0 <= i < fields.len() {
        fields[i]
    } else {
        Seq::empty()
    }
}

/// The submission that a stored row `[player, channel, timestamp, timezone]`
/// stands for when its timestamp parses as `parsed`. A timestamp that does not
/// parse stands for the epoch.
pub open spec fn submission_of(fields: Seq<Seq<char>>, parsed: Option<Instant>) -> SubmissionView {
    SubmissionView {
        player: field_or_empty(fields, 0),
        channel: field_or_empty(fields, 1),
        timestamp: match parsed {
            Some(t) => t,
            None => Instant { secs: 0, nanos: 0 },
        },
        timezone: field_or_empty(fields, 3),
    }
}

/// The submission that a stored row `[player, channel, timestamp, timezone]`
/// stands for.
pub open spec fn submission_of_fields(fields: Seq<Seq<char>>) -> SubmissionView {
    submission_of(fields, timestamp_from_text(field_or_empty(fields, 2)))
}

/// The stored row of a submission whose instant is written as `stamp`. An
/// instant that cannot be written leaves its field empty.
pub open spec fn fields_of(s: SubmissionView, stamp: Option<Seq<char>>) -> Seq<Seq<char>> {
    seq![
        s.player,
        s.channel,
        match stamp {
            Some(t) => t,
            None => Seq::empty(),
        },
        s.timezone,
    ]
}

/// The stored row of a submission.
pub open spec fn fields_of_submission(s: SubmissionView) -> Seq<Seq<char>> {
    fields_of(s, timestamp_text(s.timestamp))
}

/// Whether a submission was made on `channel`, whatever the case of the
/// letters, and at `cutoff` or later.
pub open spec fn in_scope_spec(s: SubmissionView, channel: Seq<char>, cutoff: Instant) -> bool {
    same_ignoring_case(s.channel, channel) && s.timestamp.at_or_after_spec(cutoff)
}

fn field_at(fields: &[String], i: usize) -> (r: String)
    ensures
        r@ == field_or_empty(fields_view(fields@), i as int),
{
    if i < fields.len() {
        fields[i].clone()
    } else {
        String::new()
    }
}

impl Submission {
    /// Makes a submission of a stored row whose timestamp has been parsed:
    /// `parsed` is the instant it gave, if it gave one. Missing fields are
    /// empty, and a timestamp that did not parse is the epoch.
    pub fn from_parsed_fields(fields: &[String], parsed: Option<Instant>) -> (s: Submission)
        ensures
            s@ == submission_of(fields_view(fields@), parsed),
    {
        let timestamp: Instant = match parsed {
            Some(t) => t,
            None => Instant::epoch(),
        };
        Submission {
            player: field_at(fields, 0),
            channel: field_at(fields, 1),
            timestamp,
            timezone: field_at(fields, 3),
        }
    }

    /// Reads a submission from a stored row. Missing fields are empty, and a
    /// timestamp that does not parse is the epoch: a bad row never fails the
    /// load.
    pub fn from_fields(fields: &[String]) -> (s: Submission)
        ensures
            s@ == submission_of_fields(fields_view(fields@)),
    {
        let stamp: String = field_at(fields, 2);
        let parsed: Option<Instant> = parse_utc_timestamp(stamp.as_str());
        Submission::from_parsed_fields(fields, parsed)
    }

    /// Writes the submission as a row for the store, with its instant
    /// written as `stamp`; without one the field is empty.
    pub fn to_fields_with(&self, stamp: Option<String>) -> (fields: Vec<String>)
        ensures
            fields_view(fields@) == fields_of(
                self@,
                match stamp {
                    Some(t) => Some(t@),
                    None => None,
                },
            ),
    {
        let written: String = match stamp {
            Some(t) => t,
            None => String::new(),
        };
        let mut fields: Vec<String> = Vec::new();
        fields.push(self.player.clone());
        fields.push(self.channel.clone());
        fields.push(written);
        fields.push(self.timezone.clone());
        assert(fields_view(fields@) =~= fields_of(
            self@,
            match stamp {
                Some(t) => Some(t@),
                None => None,
            },
        ));
        fields
    }

    /// Writes the submission as a row for the store.
    pub fn to_fields(&self) -> (fields: Vec<String>)
        ensures
            fields_view(fields@) == fields_of_submission(self@),
    {
        let stamp: Option<String> = format_utc_timestamp(self.timestamp);
        self.to_fields_with(stamp)
    }

    /// Whether the submission was made on `channel`, whatever the case of the
    /// letters, and at `cutoff` or later.
    pub fn in_scope(&self, channel: &str, cutoff: &Instant) -> (r: bool)
        ensures
            r == in_scope_spec(self@, channel@, *cutoff),
    {
        eq_ignoring_case(self.channel.as_str(), channel) && self.timestamp.at_or_after(cutoff)
    }
}

} // verus!
