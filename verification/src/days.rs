//! From submissions to the winner of each day.
//!
//! A submission becomes a candidate of the local date it was made on;
//! consecutive candidates of one date make a day; the candidate with the
//! least delta wins the day, if that delta is above zero and within the
//! cutoff.

use crate::delta::{delta, delta_of};
use crate::entry::{
    candidates_view, entries_view, runs_view, Candidate, CandidateView, EntryView, RankedEntry,
};
use crate::order::{first_min, lemma_first_min_is_least, lemma_stable_sort_head, sort_by_delta};
use crate::submission::{submissions_view, Submission, SubmissionView};
use crate::zone::{local_date, local_date_of, zone_is_known};
use itertools::Itertools;
use vstd::prelude::*;

verus! {

/// A guess wins its day only if it was made after the opening and no more
/// than this many microseconds after it.
pub const CUTOFF_US: i64 = 1_000_000;

/// The candidate that a submission makes: none where the submission has no
/// local date; else one for its local date, with the delta for that date
/// where one can be told.
pub open spec fn candidate_of(s: SubmissionView) -> Option<CandidateView> {
    match local_date_of(s.timezone, s.timestamp) {
        None => None,
        Some(date) => Some(
            CandidateView {
                date,
                delta: match delta_of(date, s) {
                    Ok(d) => Some(d),
                    Err(_) => None,
                },
                player: s.player,
            },
        ),
    }
}

/// The candidates that a list of submissions makes, in the order of the
/// submissions.
pub open spec fn candidates_of(subs: Seq<SubmissionView>) -> Seq<CandidateView>
    decreases subs.len(),
{
    if subs.len() == 0 {
        Seq::empty()
    } else {
        let rest = candidates_of(subs.drop_last());
        match candidate_of(subs.last()) {
            Some(c) => rest.push(c),
            None => rest,
        }
    }
}

/// The candidates split into runs of one date: each candidate joins the run
/// of the candidate before it where their dates agree, and starts a new run
/// where they do not.
pub open spec fn day_runs(c: Seq<CandidateView>) -> Seq<Seq<CandidateView>>
    decreases c.len(),
{
    if c.len() == 0 {
        Seq::empty()
    } else {
        let before = day_runs(c.drop_last());
        if c.len() >= 2 && c[c.len() - 2].date == c.last().date {
            before.drop_last().push(before.last().push(c.last()))
        } else {
            before.push(seq![c.last()])
        }
    }
}

/// The candidates of a run that have a delta, as entries, in their order.
pub open spec fn entries_of(run: Seq<CandidateView>) -> Seq<EntryView>
    decreases run.len(),
{
    if run.len() == 0 {
        Seq::empty()
    } else {
        let rest = entries_of(run.drop_last());
        match run.last().delta {
            Some(d) => rest.push(EntryView { date: run.last().date, delta: d, player: run.last().player }),
            None => rest,
        }
    }
}

/// Whether a delta wins: after the opening, and within the cutoff.
pub open spec fn qualifies(delta: int) -> bool {
    0 < delta <= CUTOFF_US
}

/// The winner of a run: the entry with the least delta, if that delta
/// qualifies. A run whose least delta does not qualify has no winner, whatever
/// the other deltas of the run are.
pub open spec fn day_winner_of(run: Seq<CandidateView>) -> Option<EntryView> {
    let es = entries_of(run);
    if es.len() > 0 && qualifies(first_min(es).delta) {
        Some(first_min(es))
    } else {
        None
    }
}

/// The winners of the runs that have one, in the order of the runs.
pub open spec fn winners_of(runs: Seq<Seq<CandidateView>>) -> Seq<EntryView>
    decreases runs.len(),
{
    if runs.len() == 0 {
        Seq::empty()
    } else {
        let rest = winners_of(runs.drop_last());
        match day_winner_of(runs.last()) {
            Some(w) => rest.push(w),
            None => rest,
        }
    }
}

/// Groups the candidates with `Itertools::chunk_by`, keyed by the year, month
/// and day of their date, and collects every group.
///
/// Trusted: `chunk_by` puts consecutive elements with the same key into the
/// same group and starts a new group at every change of key, which is what
/// `day_runs` says.
#[verifier::external_body]
pub(crate) fn chunk_by_date(candidates: Vec<Candidate>) -> (runs: Vec<Vec<Candidate>>)
    ensures
        runs_view(runs@) == day_runs(candidates_view(candidates@)),
{
    let chunks = candidates.into_iter().chunk_by(|c| (c.date.year, c.date.month, c.date.day));
    chunks.into_iter().map(|(_, run)| run.collect()).collect()
}

/// A submission whose time zone is not known makes no candidate.
pub proof fn lemma_unknown_zone_makes_no_candidate(s: SubmissionView)
    requires
        !zone_is_known(s.timezone),
    ensures
        candidate_of(s) is None,
{
}

/// The runs of a sequence of candidates, put end to end, are the sequence
/// again; no run is empty; the candidates of a run have one date; and a run
/// ends where the date changes.
pub proof fn lemma_day_runs(c: Seq<CandidateView>)
    ensures
        day_runs(c).flatten() == c,
        forall|r: int| 0 <= r < day_runs(c).len() ==> (#[trigger] day_runs(c)[r]).len() > 0,
        forall|r: int, i: int|
            0 <= r < day_runs(c).len() && 0 <= i < day_runs(c)[r].len() ==> (
            #[trigger] day_runs(c)[r][i]).date == day_runs(c)[r][0].date,
        forall|r: int|
            0 <= r < day_runs(c).len() - 1 ==> (#[trigger] day_runs(c)[r]).last().date
                != day_runs(c)[r + 1][0].date,
        c.len() > 0 ==> day_runs(c).len() > 0 && day_runs(c).last().last() == c.last(),
    decreases c.len(),
{
    let runs = day_runs(c);
    if c.len() > 0 {
        let d = c.drop_last();
        let before = day_runs(d);
        let last = c.last();
        lemma_day_runs(d);
        assert(d + seq![last] =~= c);
        if c.len() >= 2 && c[c.len() - 2].date == last.date {
            assert(d.last() == c[c.len() - 2]);
            let head = before.drop_last();
            let open = before.last();
            let run = open.push(last);
            assert(before =~= head.push(open));
            head.lemma_flatten_push(open);
            head.lemma_flatten_push(run);
            assert(runs.flatten() =~= c);
            assert forall|r: int| 0 <= r < runs.len() implies (#[trigger] runs[r]).len() > 0 by {
                if r < head.len() {
                    assert(runs[r] == before[r]);
                }
            }
            assert forall|r: int, i: int| 0 <= r < runs.len() && 0 <= i < runs[r].len() implies (
            #[trigger] runs[r][i]).date == runs[r][0].date by {
                if r < head.len() {
                    assert(runs[r] == before[r]);
                } else if i < open.len() {
                    assert(run[i] == open[i]);
                    assert(run[0] == open[0]);
                } else {
                    assert(before[before.len() - 1][open.len() - 1].date == open[0].date);
                    assert(run[0] == open[0]);
                }
            }
            assert forall|r: int| 0 <= r < runs.len() - 1 implies (#[trigger] runs[r]).last().date
                != runs[r + 1][0].date by {
                assert(runs[r] == before[r]);
                if r + 1 < head.len() {
                    assert(runs[r + 1] == before[r + 1]);
                } else {
                    assert(run[0] == open[0]);
                    assert(before[r + 1] == open);
                }
            }
        } else {
            before.lemma_flatten_push(seq![last]);
            assert(runs.flatten() =~= c);
            assert forall|r: int| 0 <= r < runs.len() implies (#[trigger] runs[r]).len() > 0 by {
                if r < before.len() {
                    assert(runs[r] == before[r]);
                }
            }
            assert forall|r: int, i: int| 0 <= r < runs.len() && 0 <= i < runs[r].len() implies (
            #[trigger] runs[r][i]).date == runs[r][0].date by {
                if r < before.len() {
                    assert(runs[r] == before[r]);
                }
            }
            assert forall|r: int| 0 <= r < runs.len() - 1 implies (#[trigger] runs[r]).last().date
                != runs[r + 1][0].date by {
                assert(runs[r] == before[r]);
                if r + 1 < before.len() {
                    assert(runs[r + 1] == before[r + 1]);
                } else {
                    assert(d.last() == c[c.len() - 2]);
                }
            }
        }
    }
}

/// The candidates of one date stand side by side: between two candidates of
/// one date there is none of another.
pub open spec fn grouped_by_date(c: Seq<CandidateView>) -> bool {
    forall|i: int, j: int, k: int|
        0 <= i <= j <= k < c.len() && c[i].date == c[k].date ==> c[j].date == c[i].date
}

/// How the runs grow by one candidate: the last candidate joins the last run
/// or makes a run of its own, and the runs before stay as they are.
proof fn lemma_day_runs_step(c: Seq<CandidateView>)
    requires
        c.len() > 0,
    ensures
        c.len() >= 2 && c[c.len() - 2].date == c.last().date ==> day_runs(c.drop_last()).len() > 0
            && day_runs(c).len() == day_runs(c.drop_last()).len() && day_runs(c).last()
            == day_runs(c.drop_last()).last().push(c.last()),
        !(c.len() >= 2 && c[c.len() - 2].date == c.last().date) ==> day_runs(c).len()
            == day_runs(c.drop_last()).len() + 1 && day_runs(c).last() == seq![c.last()],
        forall|r: int|
            0 <= r < day_runs(c).len() - 1 ==> #[trigger] day_runs(c)[r] == day_runs(
                c.drop_last(),
            )[r],
{
    lemma_day_runs(c.drop_last());
}

/// No run is empty.
proof fn lemma_run_is_not_empty(c: Seq<CandidateView>, r: int)
    requires
        0 <= r < day_runs(c).len(),
    ensures
        day_runs(c)[r].len() > 0,
{
    lemma_day_runs(c);
}

/// The candidates of a run have the date of its first.
proof fn lemma_run_has_one_date(c: Seq<CandidateView>, r: int, k: int)
    requires
        0 <= r < day_runs(c).len(),
        0 <= k < day_runs(c)[r].len(),
    ensures
        day_runs(c)[r][k].date == day_runs(c)[r][0].date,
{
    lemma_day_runs(c);
}

/// Every candidate stands in one of the runs.
pub proof fn lemma_candidate_is_in_a_run(c: Seq<CandidateView>, i: int) -> (r: int)
    requires
        0 <= i < c.len(),
    ensures
        0 <= r < day_runs(c).len(),
        day_runs(c)[r].contains(c[i]),
    decreases c.len(),
{
    let runs = day_runs(c);
    let d = c.drop_last();
    let before = day_runs(d);
    lemma_day_runs_step(c);
    if i == c.len() - 1 {
        let r = runs.len() - 1;
        assert(runs[r][runs[r].len() - 1] == c[i]);
        r
    } else {
        let r = lemma_candidate_is_in_a_run(d, i);
        assert(d[i] == c[i]);
        let k = choose|k: int| 0 <= k < before[r].len() && before[r][k] == d[i];
        if r == runs.len() - 1 {
            assert(runs[r][k] == c[i]);
        } else {
            assert(runs[r] == before[r]);
        }
        r
    }
}

/// The runs hold nothing but the candidates.
pub proof fn lemma_run_member_is_a_candidate(c: Seq<CandidateView>, r: int, k: int)
    requires
        0 <= r < day_runs(c).len(),
        0 <= k < day_runs(c)[r].len(),
    ensures
        c.contains(day_runs(c)[r][k]),
    decreases c.len(),
{
    let runs = day_runs(c);
    if c.len() > 0 {
        let d = c.drop_last();
        let before = day_runs(d);
        lemma_day_runs_step(c);
        if r < runs.len() - 1 {
            assert(runs[r] == before[r]);
            lemma_run_member_is_a_candidate(d, r, k);
            let a = choose|a: int| 0 <= a < d.len() && d[a] == before[r][k];
            assert(c[a] == runs[r][k]);
        } else if k == runs[r].len() - 1 {
            assert(runs[r][k] == c[c.len() - 1]);
        } else {
            assert(runs[r][k] == before[r][k]);
            lemma_run_member_is_a_candidate(d, r, k);
            let a = choose|a: int| 0 <= a < d.len() && d[a] == before[r][k];
            assert(c[a] == runs[r][k]);
        }
    }
}

/// Where the candidates of one date stand side by side, no two runs are of
/// the same date.
pub proof fn lemma_grouped_runs_differ(c: Seq<CandidateView>, r: int, s: int)
    requires
        grouped_by_date(c),
        0 <= r < s < day_runs(c).len(),
    ensures
        day_runs(c)[r][0].date != day_runs(c)[s][0].date,
    decreases c.len(),
{
    let runs = day_runs(c);
    if c.len() > 0 {
        let d = c.drop_last();
        let before = day_runs(d);
        let last = c.last();
        lemma_day_runs_step(c);
        assert(grouped_by_date(d)) by {
            assert forall|i: int, j: int, k: int|
                0 <= i <= j <= k < d.len() && d[i].date == d[k].date implies d[j].date
                == d[i].date by {
                assert(c[i] == d[i] && c[j] == d[j] && c[k] == d[k]);
            }
        }
        assert(runs[r] == before[r]);
        if s < runs.len() - 1 {
            assert(runs[s] == before[s]);
            lemma_grouped_runs_differ(d, r, s);
        } else if c.len() >= 2 && c[c.len() - 2].date == last.date {
            lemma_run_is_not_empty(d, s);
            assert(runs[s][0] == before[s][0]);
            lemma_grouped_runs_differ(d, r, s);
        } else {
            assert(runs[s][0] == last);
            if before[r][0].date == last.date {
                lemma_run_is_not_empty(d, r);
                lemma_run_member_is_a_candidate(d, r, 0);
                let a = choose|a: int| 0 <= a < d.len() && d[a] == before[r][0];
                assert(c[a] == d[a]);
                assert(c[c.len() - 1] == last);
                assert(c[c.len() - 2].date == c[a].date);
                assert(false);
            }
        }
    }
}

/// Where the candidates of one date stand side by side, the winner of a day
/// has the least delta of all candidates of its date.
pub proof fn lemma_day_winner_is_least_of_its_date(c: Seq<CandidateView>, r: int, i: int)
    requires
        grouped_by_date(c),
        0 <= r < day_runs(c).len(),
        day_winner_of(day_runs(c)[r]) is Some,
        0 <= i < c.len(),
        c[i].date == day_winner_of(day_runs(c)[r]).unwrap().date,
        c[i].delta is Some,
    ensures
        day_winner_of(day_runs(c)[r]).unwrap().delta <= c[i].delta.unwrap(),
{
    let runs = day_runs(c);
    let w = day_winner_of(runs[r]).unwrap();
    lemma_day_winner_is_least(runs[r]);
    let m = choose|m: int|
        0 <= m < runs[r].len() && (#[trigger] runs[r][m]).delta == Some(w.delta) && runs[r][m].player
            == w.player && runs[r][m].date == w.date;
    lemma_run_has_one_date(c, r, m);
    let s = lemma_candidate_is_in_a_run(c, i);
    let k = choose|k: int| 0 <= k < runs[s].len() && runs[s][k] == c[i];
    lemma_run_has_one_date(c, s, k);
    if s < r {
        lemma_grouped_runs_differ(c, s, r);
    }
    if r < s {
        lemma_grouped_runs_differ(c, r, s);
    }
    assert(s == r);
    assert(runs[r][k].delta is Some);
}

/// Every winner is the winner of one of the runs, and its delta qualifies.
pub proof fn lemma_winners_qualify(runs: Seq<Seq<CandidateView>>)
    ensures
        forall|i: int|
            0 <= i < winners_of(runs).len() ==> qualifies((#[trigger] winners_of(runs)[i]).delta)
                && exists|r: int|
                0 <= r < runs.len() && #[trigger] day_winner_of(runs[r]) == Some(
                    winners_of(runs)[i],
                ),
    decreases runs.len(),
{
    if runs.len() > 0 {
        let d = runs.drop_last();
        let w = winners_of(runs);
        let v = winners_of(d);
        lemma_winners_qualify(d);
        assert forall|i: int| 0 <= i < w.len() implies qualifies((#[trigger] w[i]).delta)
            && exists|r: int| 0 <= r < runs.len() && #[trigger] day_winner_of(runs[r]) == Some(w[i]) by {
            if i < v.len() {
                assert(w[i] == v[i]);
                let r = choose|r: int| 0 <= r < d.len() && #[trigger] day_winner_of(d[r]) == Some(v[i]);
                assert(runs[r] == d[r]);
            } else {
                assert(day_winner_of(runs[runs.len() - 1]) == Some(w[i]));
            }
        }
    }
}

/// The winner of a day has the least delta of the day: no candidate of the
/// run has a smaller one, and one candidate of the run has just that delta.
pub proof fn lemma_day_winner_is_least(run: Seq<CandidateView>)
    requires
        day_winner_of(run) is Some,
    ensures
        forall|i: int|
            0 <= i < run.len() && (#[trigger] run[i]).delta is Some ==> day_winner_of(
                run,
            ).unwrap().delta <= run[i].delta.unwrap(),
        exists|i: int|
            0 <= i < run.len() && (#[trigger] run[i]).delta == Some(day_winner_of(run).unwrap().delta)
                && run[i].player == day_winner_of(run).unwrap().player && run[i].date
                == day_winner_of(run).unwrap().date,
{
    let es = entries_of(run);
    lemma_entries_of(run);
    lemma_first_min_is_least(es);
    let w = first_min(es);
    assert forall|i: int| 0 <= i < run.len() && (#[trigger] run[i]).delta is Some implies w.delta
        <= run[i].delta.unwrap() by {
        let e = EntryView { date: run[i].date, delta: run[i].delta.unwrap(), player: run[i].player };
        assert(es.contains(e));
        let j = choose|j: int| 0 <= j < es.len() && es[j] == e;
        assert(w.delta <= es[j].delta);
    }
    let j = choose|j: int| 0 <= j < es.len() && es[j] == w;
    let i = choose|i: int|
        0 <= i < run.len() && (#[trigger] run[i]).delta == Some(es[j].delta) && run[i].player
            == es[j].player && run[i].date == es[j].date;
}

/// The entries of a run are its candidates that have a delta.
proof fn lemma_entries_of(run: Seq<CandidateView>)
    ensures
        forall|i: int|
            0 <= i < run.len() && (#[trigger] run[i]).delta is Some ==> entries_of(run).contains(
                EntryView { date: run[i].date, delta: run[i].delta.unwrap(), player: run[i].player },
            ),
        forall|j: int|
            0 <= j < entries_of(run).len() ==> exists|i: int|
                0 <= i < run.len() && (#[trigger] run[i]).delta == Some(
                    (#[trigger] entries_of(run)[j]).delta,
                ) && run[i].player == entries_of(run)[j].player && run[i].date == entries_of(
                    run,
                )[j].date,
    decreases run.len(),
{
    if run.len() > 0 {
        let d = run.drop_last();
        let es = entries_of(run);
        let ds = entries_of(d);
        lemma_entries_of(d);
        assert forall|i: int| 0 <= i < run.len() && (#[trigger] run[i]).delta is Some implies es.contains(
            EntryView { date: run[i].date, delta: run[i].delta.unwrap(), player: run[i].player },
        ) by {
            let e = EntryView { date: run[i].date, delta: run[i].delta.unwrap(), player: run[i].player };
            if i < d.len() {
                assert(d[i] == run[i]);
                assert(ds.contains(e));
                let j = choose|j: int| 0 <= j < ds.len() && ds[j] == e;
                assert(es[j] == e);
            } else {
                assert(es[es.len() - 1] == e);
            }
        }
        assert forall|j: int| 0 <= j < es.len() implies exists|i: int|
            0 <= i < run.len() && (#[trigger] run[i]).delta == Some((#[trigger] es[j]).delta)
                && run[i].player == es[j].player && run[i].date == es[j].date by {
            if j < ds.len() {
                assert(es[j] == ds[j]);
                let i = choose|i: int|
                    0 <= i < d.len() && (#[trigger] d[i]).delta == Some(ds[j].delta) && d[i].player
                        == ds[j].player && d[i].date == ds[j].date;
                assert(run[i] == d[i]);
            } else {
                assert(run[run.len() - 1] == run.last());
            }
        }
    }
}

/// Makes a candidate of every submission that has a local date: the date the
/// submission falls on in the player's time zone, and the delta for that
/// date where one can be told. A submission whose time zone gives it no local
/// date is left out.
pub fn candidates(first_results: &[Submission]) -> (out: Vec<Candidate>)
    ensures
        candidates_view(out@) == candidates_of(submissions_view(first_results@)),
{
    let mut out: Vec<Candidate> = Vec::new();
    let mut i: usize = 0;
    let ghost subs = submissions_view(first_results@);
    assert(candidates_view(out@) =~= candidates_of(subs.take(0)));
    while i < first_results.len()
        invariant
            i <= first_results.len(),
            subs == submissions_view(first_results@),
            candidates_view(out@) == candidates_of(subs.take(i as int)),
        decreases first_results.len() - i,
    {
        let r = &first_results[i];
        proof {
            assert(subs.take(i + 1).drop_last() =~= subs.take(i as int));
            assert(subs.take(i + 1).last() == r@);
        }
        match local_date(r.timezone.as_str(), r.timestamp) {
            Some(date) => {
                let ghost before = out@;
                let made: Candidate = match delta(date, r) {
                    Ok((micros, player)) => Candidate { date, delta: Some(micros), player },
                    Err(_) => Candidate { date, delta: None, player: r.player.clone() },
                };
                assert(Some(made@) == candidate_of(r@));
                out.push(made);
                assert(candidates_view(out@) =~= candidates_view(before).push(made@));
            },
            None => {},
        }
        i += 1;
    }
    assert(subs.take(i as int) =~= subs);
    out
}

/// The winner of one run of candidates: the one with the least delta (the
/// first of them where several have it), if that delta is above zero and no
/// more than the cutoff.
pub fn day_winner(run: &Vec<Candidate>) -> (winner: Option<RankedEntry>)
    ensures
        match winner {
            Some(w) => day_winner_of(candidates_view(run@)) == Some(w@),
            None => day_winner_of(candidates_view(run@)) is None,
        },
{
    let mut entries: Vec<RankedEntry> = Vec::new();
    let mut i: usize = 0;
    let ghost cv = candidates_view(run@);
    assert(entries_view(entries@) =~= entries_of(cv.take(0)));
    while i < run.len()
        invariant
            i <= run.len(),
            cv == candidates_view(run@),
            entries_view(entries@) == entries_of(cv.take(i as int)),
        decreases run.len() - i,
    {
        proof {
            assert(cv.take(i + 1).drop_last() =~= cv.take(i as int));
            assert(cv.take(i + 1).last() == run[i as int]@);
        }
        match run[i].delta {
            Some(d) => {
                let ghost before = entries@;
                let e = RankedEntry { date: run[i].date, delta: d, player: run[i].player.clone() };
                entries.push(e);
                assert(entries_view(entries@) =~= entries_view(before).push(e@));
            },
            None => {},
        }
        i += 1;
    }
    assert(cv.take(i as int) =~= cv);
    if entries.len() == 0 {
        return None;
    }
    let ghost es = entries_view(entries@);
    let sorted: Vec<RankedEntry> = sort_by_delta(entries);
    proof {
        lemma_stable_sort_head(es, entries_view(sorted@));
    }
    let best = &sorted[0];
    assert(best@ == first_min(es));
    if best.delta > 0 && best.delta <= CUTOFF_US {
        Some(RankedEntry { date: best.date, delta: best.delta, player: best.player.clone() })
    } else {
        None
    }
}

} // verus!
