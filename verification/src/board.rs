//! The leaderboard of one channel, from the whole log.

use crate::days::candidates_of;
use crate::entry::{entries_view, RankedEntry};
use crate::instant::Instant;
use crate::rank::{rank, ranking_of};
use crate::submission::{in_scope_spec, submissions_view, Submission, SubmissionView};
use vstd::prelude::*;

verus! {

/// Why a run ends without a leaderboard.
#[derive(Clone, Copy, Debug, PartialEq, Eq, Structural)]
pub enum RunError {
    /// No channel was named.
    MissingChannel,
    /// No submission is in scope, or no day has a winner.
    NoResults,
}

impl RunError {
    /// The message shown to the user.
    pub fn message(&self) -> (m: &'static str)
        ensures
            m@ == match *self {
                RunError::MissingChannel => "A channel must be provided"@,
                RunError::NoResults => "No results found"@,
            },
    {
        match self {
            RunError::MissingChannel => "A channel must be provided",
            RunError::NoResults => "No results found",
        }
    }
}

/// The submissions of `records` that are in scope for the channel and the
/// cutoff, in their order.
pub open spec fn in_scope_of(records: Seq<SubmissionView>, channel: Seq<char>, cutoff: Instant) -> Seq<
    SubmissionView,
>
    decreases records.len(),
{
    if records.len() == 0 {
        Seq::empty()
    } else {
        let rest = in_scope_of(records.drop_last(), channel, cutoff);
        if in_scope_spec(records.last(), channel, cutoff) {
            rest.push(records.last())
        } else {
            rest
        }
    }
}

/// The channel argument of a command line; it must be there.
pub fn channel_of(argument: Option<String>) -> (channel: Result<String, RunError>)
    ensures
        match channel {
            Ok(c) => argument == Some(c),
            Err(e) => argument is None && e == RunError::MissingChannel,
        },
{
    match argument {
        Some(c) => Ok(c),
        None => Err(RunError::MissingChannel),
    }
}

/// Picks the submissions that were made on `channel`, whatever the case of
/// the letters, at `cutoff` or later.
pub fn select_in_scope(records: &[Submission], channel: &str, cutoff: &Instant) -> (out: Vec<Submission>)
    ensures
        submissions_view(out@) == in_scope_of(submissions_view(records@), channel@, *cutoff),
{
    let mut out: Vec<Submission> = Vec::new();
    let mut i: usize = 0;
    let ghost all = submissions_view(records@);
    assert(submissions_view(out@) =~= in_scope_of(all.take(0), channel@, *cutoff));
    while i < records.len()
        invariant
            i <= records.len(),
            all == submissions_view(records@),
            submissions_view(out@) == in_scope_of(all.take(i as int), channel@, *cutoff),
        decreases records.len() - i,
    {
        let r = &records[i];
        proof {
            assert(all.take(i + 1).drop_last() =~= all.take(i as int));
            assert(all.take(i + 1).last() == r@);
        }
        if r.in_scope(channel, cutoff) {
            let ghost before = out@;
            let kept = Submission {
                player: r.player.clone(),
                channel: r.channel.clone(),
                timestamp: r.timestamp,
                timezone: r.timezone.clone(),
            };
            out.push(kept);
            assert(submissions_view(out@) =~= submissions_view(before).push(r@));
        }
        i += 1;
    }
    assert(all.take(i as int) =~= all);
    out
}

/// The leaderboard of a channel: the ranking of the submissions of `records`
/// that are in scope. A ranking without an entry is the error `NoResults`.
pub fn leaderboard(records: &[Submission], channel: &str, cutoff: &Instant, max_results: usize) -> (board:
    Result<Vec<RankedEntry>, RunError>)
    ensures
        match board {
            Ok(ranking) => ranking.len() > 0 && entries_view(ranking@) == ranking_of(
                candidates_of(in_scope_of(submissions_view(records@), channel@, *cutoff)),
                max_results as nat,
            ),
            Err(e) => e == RunError::NoResults && ranking_of(
                candidates_of(in_scope_of(submissions_view(records@), channel@, *cutoff)),
                max_results as nat,
            ).len() == 0,
        },
{
    let selected: Vec<Submission> = select_in_scope(records, channel, cutoff);
    let ranking: Vec<RankedEntry> = rank(selected.as_slice(), max_results);
    if ranking.len() == 0 {
        Err(RunError::NoResults)
    } else {
        Ok(ranking)
    }
}

} // verus!
