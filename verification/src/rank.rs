//! The ranking: the winners of all days in order, one entry a player.

use crate::days::{
    candidates, candidates_of, chunk_by_date, day_runs, day_winner, day_winner_of, grouped_by_date,
    lemma_day_winner_is_least_of_its_date,
    lemma_winners_qualify, qualifies, winners_of, CUTOFF_US,
};
use crate::entry::{
    candidates_view, entries_view, runs_view, Candidate, CandidateView, EntryView, RankedEntry,
};
use crate::order::{
    at_most, first_per_player, lemma_first_per_player, lemma_sorted_stably,
    lemma_stable_sort_is_sorted_stably, lemma_stable_sort_members, sort_by_delta, sorted_by_delta,
    sorted_stably, unique_by_player,
};
use crate::submission::{submissions_view, Submission};
use vstd::prelude::*;

verus! {

/// The length of a leaderboard.
pub const MAX_RESULTS: usize = 10;

/// The ranking of the candidates `c` with at most `max_results` entries: the
/// winners of the runs of `c`, sorted by delta with winners of equal delta in
/// the order of their days; of these the first entry of each player; and of
/// these the first `max_results`.
pub open spec fn ranking_of(c: Seq<CandidateView>, max_results: nat) -> Seq<EntryView> {
    at_most(first_per_player(sorted_stably(winners_of(day_runs(c)))), max_results)
}

/// A ranking is no longer than asked for.
pub proof fn lemma_ranking_length(c: Seq<CandidateView>, max_results: nat)
    ensures
        ranking_of(c, max_results).len() <= max_results,
{
}

/// Every entry of a ranking is the winner of one of the days, and its delta
/// is above zero and no more than the cutoff.
pub proof fn lemma_ranked_deltas_qualify(c: Seq<CandidateView>, max_results: nat)
    ensures
        forall|i: int|
            0 <= i < ranking_of(c, max_results).len() ==> 0 < (#[trigger] ranking_of(
                c,
                max_results,
            )[i]).delta <= CUTOFF_US,
        forall|i: int|
            0 <= i < ranking_of(c, max_results).len() ==> exists|r: int|
                0 <= r < day_runs(c).len() && #[trigger] day_winner_of(day_runs(c)[r]) == Some(
                    #[trigger] ranking_of(c, max_results)[i],
                ),
{
    let out = ranking_of(c, max_results);
    let runs = day_runs(c);
    let w = winners_of(runs);
    let sorted = sorted_stably(w);
    let f = first_per_player(sorted);
    lemma_sorted_stably(w);
    lemma_first_per_player(sorted);
    lemma_stable_sort_members(w, sorted);
    lemma_winners_qualify(runs);
    assert forall|i: int| 0 <= i < out.len() implies qualifies((#[trigger] out[i]).delta)
        && exists|r: int| 0 <= r < runs.len() && #[trigger] day_winner_of(runs[r]) == Some(out[i]) by {
        assert(out[i] == f[i]);
        assert(sorted.contains(f[i]));
        let a = choose|a: int| 0 <= a < sorted.len() && sorted[a] == f[i];
        assert(w.contains(sorted[a]));
        let b = choose|b: int| 0 <= b < w.len() && w[b] == sorted[a];
        assert(qualifies(w[b].delta));
    }
}

/// Where the candidates of one date stand side by side, an entry of the
/// ranking has the least delta of all candidates of its date that won a day
/// with it.
pub proof fn lemma_ranked_entry_is_least_of_its_date(
    c: Seq<CandidateView>,
    max_results: nat,
    n: int,
    i: int,
)
    requires
        grouped_by_date(c),
        0 <= n < ranking_of(c, max_results).len(),
        0 <= i < c.len(),
        c[i].date == ranking_of(c, max_results)[n].date,
        c[i].delta is Some,
    ensures
        ranking_of(c, max_results)[n].delta <= c[i].delta.unwrap(),
{
    lemma_ranked_deltas_qualify(c, max_results);
    let e = ranking_of(c, max_results)[n];
    let r = choose|r: int|
        0 <= r < day_runs(c).len() && #[trigger] day_winner_of(day_runs(c)[r]) == Some(e);
    lemma_day_winner_is_least_of_its_date(c, r, i);
}

/// A ranking is sorted by delta, the smallest first.
pub proof fn lemma_ranking_is_sorted(c: Seq<CandidateView>, max_results: nat)
    ensures
        sorted_by_delta(ranking_of(c, max_results)),
{
    let out = ranking_of(c, max_results);
    let sorted = sorted_stably(winners_of(day_runs(c)));
    let f = first_per_player(sorted);
    lemma_sorted_stably(winners_of(day_runs(c)));
    lemma_first_per_player(sorted);
    assert forall|i: int, j: int| 0 <= i <= j < out.len() implies out[i].delta <= out[j].delta by {
        assert(out[i] == f[i] && out[j] == f[j]);
    }
}

/// No two entries of a ranking are of the same player.
pub proof fn lemma_ranked_players_differ(c: Seq<CandidateView>, max_results: nat)
    ensures
        forall|i: int, j: int|
            0 <= i < j < ranking_of(c, max_results).len() ==> ranking_of(c, max_results)[i].player
                != ranking_of(c, max_results)[j].player,
{
    let out = ranking_of(c, max_results);
    let sorted = sorted_stably(winners_of(day_runs(c)));
    let f = first_per_player(sorted);
    lemma_first_per_player(sorted);
    assert forall|i: int, j: int| 0 <= i < j < out.len() implies out[i].player
        != out[j].player by {
        assert(out[i] == f[i] && out[j] == f[j]);
    }
}

/// Ranks candidates that are already dated and measured.
///
/// The candidates are split into runs of one date; each run gives its winner,
/// if it has one; the winners are sorted by delta, only the first entry of
/// each player is kept, and of these the first `max_results`.
pub fn rank_candidates(candidates: Vec<Candidate>, max_results: usize) -> (ranking: Vec<RankedEntry>)
    ensures
        entries_view(ranking@) == ranking_of(candidates_view(candidates@), max_results as nat),
        ranking.len() <= max_results,
        forall|i: int| 0 <= i < ranking.len() ==> 0 < (#[trigger] ranking[i]).delta <= CUTOFF_US,
        forall|i: int, j: int| 0 <= i <= j < ranking.len() ==> ranking[i].delta <= ranking[j].delta,
        forall|i: int, j: int| 0 <= i < j < ranking.len() ==> ranking[i].player@ != ranking[j].player@,
{
    let ghost c = candidates_view(candidates@);
    let runs: Vec<Vec<Candidate>> = chunk_by_date(candidates);
    let ghost rv = runs_view(runs@);
    let mut winners: Vec<RankedEntry> = Vec::new();
    let mut i: usize = 0;
    assert(entries_view(winners@) =~= winners_of(rv.take(0)));
    while i < runs.len()
        invariant
            i <= runs.len(),
            rv == runs_view(runs@),
            entries_view(winners@) == winners_of(rv.take(i as int)),
        decreases runs.len() - i,
    {
        proof {
            assert(rv.take(i + 1).drop_last() =~= rv.take(i as int));
            assert(rv.take(i + 1).last() == candidates_view(runs[i as int]@));
        }
        match day_winner(&runs[i]) {
            Some(w) => {
                let ghost before = winners@;
                let ghost wv = w@;
                winners.push(w);
                assert(entries_view(winners@) =~= entries_view(before).push(wv));
            },
            None => {},
        }
        i += 1;
    }
    assert(rv.take(i as int) =~= rv);
    let sorted: Vec<RankedEntry> = sort_by_delta(winners);
    let ghost sv = entries_view(sorted@);
    let mut ranking: Vec<RankedEntry> = unique_by_player(sorted);
    ranking.truncate(max_results);
    proof {
        let out = entries_view(ranking@);
        assert(out =~= at_most(first_per_player(sv), max_results as nat));
        lemma_stable_sort_is_sorted_stably(winners_of(day_runs(c)), sv);
        assert(out == ranking_of(c, max_results as nat));
        lemma_ranking_length(c, max_results as nat);
        lemma_ranked_deltas_qualify(c, max_results as nat);
        lemma_ranking_is_sorted(c, max_results as nat);
        lemma_ranked_players_differ(c, max_results as nat);
        assert forall|i: int| 0 <= i < ranking.len() implies 0 < (#[trigger] ranking[i]).delta
            <= CUTOFF_US by {
            assert(out[i] == ranking[i]@);
        }
        assert forall|i: int, j: int| 0 <= i <= j < ranking.len() implies ranking[i].delta
            <= ranking[j].delta by {
            assert(out[i] == ranking[i]@ && out[j] == ranking[j]@);
        }
        assert forall|i: int, j: int| 0 <= i < j < ranking.len() implies ranking[i].player@
            != ranking[j].player@ by {
            assert(out[i] == ranking[i]@ && out[j] == ranking[j]@);
        }
    }
    ranking
}

/// Ranks the best guesses of a log of submissions.
///
/// Submissions are told apart by the calendar date on which each was made in
/// its player's own time zone, and consecutive submissions of one date make a
/// day. The guess with the least delta wins its day, if that delta is above
/// zero and no more than the cutoff; a day whose least delta is not has no
/// winner. The winners of all days are put in order, the smallest delta
/// first; a player who won several days keeps the best of them; at most
/// `max_results` entries are returned.
pub fn rank(first_results: &[Submission], max_results: usize) -> (ranking: Vec<RankedEntry>)
    ensures
        entries_view(ranking@) == ranking_of(
            candidates_of(submissions_view(first_results@)),
            max_results as nat,
        ),
        ranking.len() <= max_results,
        forall|i: int| 0 <= i < ranking.len() ==> 0 < (#[trigger] ranking[i]).delta <= CUTOFF_US,
        forall|i: int, j: int| 0 <= i <= j < ranking.len() ==> ranking[i].delta <= ranking[j].delta,
        forall|i: int, j: int| 0 <= i < j < ranking.len() ==> ranking[i].player@ != ranking[j].player@,
{
    let made: Vec<Candidate> = candidates(first_results);
    rank_candidates(made, max_results)
}

} // verus!
