//! Candidates for a day's win and the entries of a ranking.

use crate::calendar::CivilDate;
use crate::instant::div_toward_zero;
use vstd::prelude::*;

verus! {

/// A submission as the ranking sees it: the local date it was made on, its
/// delta where one could be told, and the player.
#[derive(Clone, Debug, PartialEq, Eq)]
pub struct Candidate {
    pub date: CivilDate,
    pub delta: Option<i64>,
    pub player: String,
}

/// A candidate with its player's name as a sequence of characters.
pub struct CandidateView {
    pub date: CivilDate,
    pub delta: Option<int>,
    pub player: Seq<char>,
}

impl View for Candidate {
    type V = CandidateView;

    open spec fn view(&self) -> CandidateView {
        CandidateView {
            date: self.date,
            delta: match self.delta {
                Some(d) => Some(d as int),
                None => None,
            },
            player: self.player@,
        }
    }
}

/// The best guess of one day: the date, the delta in microseconds and the
/// player.
#[derive(Clone, Debug, PartialEq, Eq)]
pub struct RankedEntry {
    pub date: CivilDate,
    pub delta: i64,
    pub player: String,
}

/// A ranked entry with its player's name as a sequence of characters.
pub struct EntryView {
    pub date: CivilDate,
    pub delta: int,
    pub player: Seq<char>,
}

impl View for RankedEntry {
    type V = EntryView;

    open spec fn view(&self) -> EntryView {
        EntryView { date: self.date, delta: self.delta as int, player: self.player@ }
    }
}

impl RankedEntry {
    /// The delta in whole milliseconds, rounded toward zero.
    pub fn delta_millis(&self) -> (ms: i64)
        ensures
            ms == div_toward_zero(self.delta as int, 1000),
    {
        self.delta / 1000
    }
}

/// The candidates of a vector, each by its view.
pub open spec fn candidates_view(v: Seq<Candidate>) -> Seq<CandidateView> {
    v.map_values(|c: Candidate| c@)
}

/// The runs of a vector of runs, each by the views of its candidates.
pub open spec fn runs_view(v: Seq<Vec<Candidate>>) -> Seq<Seq<CandidateView>> {
    v.map_values(|r: Vec<Candidate>| candidates_view(r@))
}

/// The entries of a vector, each by its view.
pub open spec fn entries_view(v: Seq<RankedEntry>) -> Seq<EntryView> {
    v.map_values(|e: RankedEntry| e@)
}

} // verus!
