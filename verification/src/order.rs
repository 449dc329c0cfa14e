//! Putting entries in order: the least delta, sorting by delta, and one
//! entry a player.
//!
//! The sorting and the dropping of repeated players are `itertools`'s; what
//! they do is said here by `is_stable_sort` and `first_per_player`, of which
//! the rest of this module proves what the ranking needs.

use crate::entry::{entries_view, EntryView, RankedEntry};
use itertools::Itertools;
use vstd::prelude::*;

verus! {

/// The entry with the least delta; of several with the least delta, the first.
pub open spec fn first_min(es: Seq<EntryView>) -> EntryView
    recommends
        es.len() > 0,
    decreases es.len(),
{
    if es.len() <= 1 {
        es[0]
    } else {
        let m = first_min(es.drop_last());
        if es.last().delta < m.delta {
            es.last()
        } else {
            m
        }
    }
}

/// Deltas never fall from one entry to the next.
pub open spec fn sorted_by_delta(s: Seq<EntryView>) -> bool {
    forall|i: int, j: int| 0 <= i <= j < s.len() ==> s[i].delta <= s[j].delta
}

/// The entries of `s` whose delta is `k`, in their order.
pub open spec fn with_delta(s: Seq<EntryView>, k: int) -> Seq<EntryView>
    decreases s.len(),
{
    if s.len() == 0 {
        Seq::empty()
    } else if s.last().delta == k {
        with_delta(s.drop_last(), k).push(s.last())
    } else {
        with_delta(s.drop_last(), k)
    }
}

/// `out` is `input` sorted by delta, with entries of equal delta left in the
/// order they had: deltas never fall in `out`, and for every delta the entries
/// of `out` with it are the entries of `input` with it, in the same order.
pub open spec fn is_stable_sort(input: Seq<EntryView>, out: Seq<EntryView>) -> bool {
    &&& sorted_by_delta(out)
    &&& forall|k: int| #[trigger] with_delta(out, k) == with_delta(input, k)
}

/// `s` with the entry `x` put in behind the last entry whose delta is no
/// greater than `x`'s.
pub open spec fn inserted(s: Seq<EntryView>, x: EntryView) -> Seq<EntryView>
    decreases s.len(),
{
    if s.len() == 0 || s.last().delta <= x.delta {
        s.push(x)
    } else {
        inserted(s.drop_last(), x).push(s.last())
    }
}

/// The entries of `s` sorted by delta, the smallest first; entries of equal
/// delta stay in the order they have in `s`.
pub open spec fn sorted_stably(s: Seq<EntryView>) -> Seq<EntryView>
    decreases s.len(),
{
    if s.len() == 0 {
        Seq::empty()
    } else {
        inserted(sorted_stably(s.drop_last()), s.last())
    }
}

/// Whether some entry of `s` is `player`'s.
pub open spec fn has_player(s: Seq<EntryView>, player: Seq<char>) -> bool {
    exists|i: int| 0 <= i < s.len() && #[trigger] s[i].player == player
}

/// The entries of `s` that are the first of their player, in their order.
pub open spec fn first_per_player(s: Seq<EntryView>) -> Seq<EntryView>
    decreases s.len(),
{
    if s.len() == 0 {
        Seq::empty()
    } else {
        let rest = first_per_player(s.drop_last());
        if has_player(s.drop_last(), s.last().player) {
            rest
        } else {
            rest.push(s.last())
        }
    }
}

/// The first `n` entries of `s`, or all of `s` where it has fewer.
pub open spec fn at_most(s: Seq<EntryView>, n: nat) -> Seq<EntryView> {
    if n < s.len() {
        s.take(n as int)
    } else {
        s
    }
}

/// Sorts the entries with `Itertools::sorted_by`, comparing deltas.
///
/// Trusted: `sorted_by` sorts in ascending order and is stable, which is what
/// `is_stable_sort` says.
#[verifier::external_body]
pub(crate) fn sort_by_delta(entries: Vec<RankedEntry>) -> (sorted: Vec<RankedEntry>)
    ensures
        is_stable_sort(entries_view(entries@), entries_view(sorted@)),
{
    entries.into_iter().sorted_by(|a, b| Ord::cmp(&a.delta, &b.delta)).collect()
}

/// Drops repeated players with `Itertools::unique_by`, keyed by player.
///
/// Trusted: `unique_by` keeps, in their order, the elements whose key has not
/// occurred before them, which is what `first_per_player` says.
#[verifier::external_body]
pub(crate) fn unique_by_player(entries: Vec<RankedEntry>) -> (unique: Vec<RankedEntry>)
    ensures
        entries_view(unique@) == first_per_player(entries_view(entries@)),
{
    entries.into_iter().unique_by(|e| e.player.clone()).collect()
}

/// Every entry of `with_delta(s, k)` is an entry of `s` and has delta `k`.
pub proof fn lemma_with_delta_members(s: Seq<EntryView>, k: int)
    ensures
        forall|i: int|
            0 <= i < with_delta(s, k).len() ==> (#[trigger] with_delta(s, k)[i]).delta == k
                && s.contains(with_delta(s, k)[i]),
    decreases s.len(),
{
    if s.len() > 0 {
        let d = s.drop_last();
        let r = with_delta(d, k);
        let w = with_delta(s, k);
        lemma_with_delta_members(d, k);
        assert forall|i: int| 0 <= i < w.len() implies (#[trigger] w[i]).delta == k && s.contains(
            w[i],
        ) by {
            if i < r.len() {
                assert(w[i] == r[i]);
                assert(d.contains(r[i]));
                let j = choose|j: int| 0 <= j < d.len() && d[j] == r[i];
                assert(s[j] == r[i]);
            } else {
                assert(w[i] == s[s.len() - 1]);
            }
        }
    }
}

/// Every entry of `s` is among the entries of `s` with its delta.
pub proof fn lemma_with_delta_has(s: Seq<EntryView>, i: int)
    requires
        0 <= i < s.len(),
    ensures
        with_delta(s, s[i].delta).contains(s[i]),
    decreases s.len(),
{
    let k = s[i].delta;
    let w = with_delta(s, k);
    if i == s.len() - 1 {
        assert(w[w.len() - 1] == s[i]);
    } else {
        let d = s.drop_last();
        let r = with_delta(d, k);
        lemma_with_delta_has(d, i);
        assert(d[i] == s[i]);
        let j = choose|j: int| 0 <= j < r.len() && r[j] == s[i];
        assert(w[j] == s[i]);
    }
}

/// A stable sort neither loses an entry nor makes one up.
pub proof fn lemma_stable_sort_members(input: Seq<EntryView>, out: Seq<EntryView>)
    requires
        is_stable_sort(input, out),
    ensures
        forall|i: int| 0 <= i < out.len() ==> input.contains(#[trigger] out[i]),
        forall|i: int| 0 <= i < input.len() ==> out.contains(#[trigger] input[i]),
{
    assert forall|i: int| 0 <= i < out.len() implies input.contains(#[trigger] out[i]) by {
        let k = out[i].delta;
        lemma_with_delta_has(out, i);
        assert(with_delta(out, k) == with_delta(input, k));
        lemma_with_delta_members(input, k);
        let j = choose|j: int| 0 <= j < with_delta(out, k).len() && with_delta(out, k)[j] == out[i];
        assert(input.contains(with_delta(input, k)[j]));
    }
    assert forall|i: int| 0 <= i < input.len() implies out.contains(#[trigger] input[i]) by {
        let k = input[i].delta;
        lemma_with_delta_has(input, i);
        assert(with_delta(out, k) == with_delta(input, k));
        lemma_with_delta_members(out, k);
        let j = choose|j: int|
            0 <= j < with_delta(input, k).len() && with_delta(input, k)[j] == input[i];
        assert(out.contains(with_delta(out, k)[j]));
    }
}

/// Two sequences that are sorted by delta and have, for every delta, the
/// same entries with it in the same order are the same sequence.
pub proof fn lemma_sorted_alike_are_equal(a: Seq<EntryView>, b: Seq<EntryView>)
    requires
        sorted_by_delta(a),
        sorted_by_delta(b),
        forall|k: int| #[trigger] with_delta(a, k) == with_delta(b, k),
    ensures
        a == b,
    decreases a.len(),
{
    if a.len() == 0 {
        if b.len() > 0 {
            lemma_with_delta_has(b, 0);
            assert(with_delta(a, b[0].delta) == with_delta(b, b[0].delta));
        }
        assert(a =~= b);
    } else {
        let x = a.last();
        let k = x.delta;
        lemma_with_delta_has(a, a.len() - 1);
        assert(with_delta(a, k) == with_delta(b, k));
        lemma_with_delta_members(b, k);
        let wa = with_delta(a, k);
        let p = choose|p: int| 0 <= p < wa.len() && wa[p] == x;
        assert(b.contains(with_delta(b, k)[p]));
        let j = choose|j: int| 0 <= j < b.len() && b[j] == x;
        let y = b.last();
        lemma_with_delta_has(b, b.len() - 1);
        assert(with_delta(a, y.delta) == with_delta(b, y.delta));
        lemma_with_delta_members(a, y.delta);
        let wb = with_delta(b, y.delta);
        let q = choose|q: int| 0 <= q < wb.len() && wb[q] == y;
        assert(a.contains(with_delta(a, y.delta)[q]));
        let i = choose|i: int| 0 <= i < a.len() && a[i] == y;
        assert(a[i].delta <= a[a.len() - 1].delta);
        assert(b[j].delta <= b[b.len() - 1].delta);
        assert(y.delta == k);
        let da = a.drop_last();
        let db = b.drop_last();
        assert(with_delta(a, k) == with_delta(da, k).push(x));
        assert(with_delta(b, k) == with_delta(db, k).push(y));
        assert(with_delta(da, k).push(x).last() == x);
        assert(with_delta(db, k).push(y).last() == y);
        assert(x == y);
        assert(with_delta(da, k) =~= with_delta(da, k).push(x).drop_last());
        assert(with_delta(db, k) =~= with_delta(db, k).push(y).drop_last());
        assert forall|m: int| #[trigger] with_delta(da, m) == with_delta(db, m) by {
            assert(with_delta(a, m) == with_delta(b, m));
        }
        assert forall|i: int, j: int| 0 <= i <= j < da.len() implies da[i].delta
            <= da[j].delta by {
            assert(da[i] == a[i] && da[j] == a[j]);
        }
        assert forall|i: int, j: int| 0 <= i <= j < db.len() implies db[i].delta
            <= db[j].delta by {
            assert(db[i] == b[i] && db[j] == b[j]);
        }
        lemma_sorted_alike_are_equal(da, db);
        assert(a =~= da.push(x));
        assert(b =~= db.push(y));
    }
}

/// A sequence has one stable sort by delta and no other.
pub proof fn lemma_stable_sort_is_unique(input: Seq<EntryView>, a: Seq<EntryView>, b: Seq<EntryView>)
    requires
        is_stable_sort(input, a),
        is_stable_sort(input, b),
    ensures
        a == b,
{
    assert forall|k: int| #[trigger] with_delta(a, k) == with_delta(b, k) by {
        assert(with_delta(a, k) == with_delta(input, k));
        assert(with_delta(b, k) == with_delta(input, k));
    }
    lemma_sorted_alike_are_equal(a, b);
}

/// Putting an entry into a sorted sequence leaves it sorted, adds the entry
/// behind the entries of its delta, and changes nothing else.
pub proof fn lemma_inserted(s: Seq<EntryView>, x: EntryView)
    requires
        sorted_by_delta(s),
    ensures
        sorted_by_delta(inserted(s, x)),
        inserted(s, x).len() == s.len() + 1,
        forall|i: int|
            0 <= i < inserted(s, x).len() ==> (#[trigger] inserted(s, x)[i]) == x || s.contains(
                inserted(s, x)[i],
            ),
        forall|k: int|
            #[trigger] with_delta(inserted(s, x), k) == if x.delta == k {
                with_delta(s, k).push(x)
            } else {
                with_delta(s, k)
            },
    decreases s.len(),
{
    let out = inserted(s, x);
    if s.len() == 0 || s.last().delta <= x.delta {
        assert(out.drop_last() =~= s);
        assert forall|i: int| 0 <= i < out.len() implies (#[trigger] out[i]) == x || s.contains(
            out[i],
        ) by {
            if i < s.len() {
                assert(out[i] == s[i]);
            }
        }
        assert forall|i: int, j: int| 0 <= i <= j < out.len() implies out[i].delta
            <= out[j].delta by {
            if j == s.len() && i < s.len() {
                assert(s[i].delta <= s[s.len() - 1].delta);
            }
        }
    } else {
        let d = s.drop_last();
        let y = s.last();
        let r = inserted(d, x);
        assert forall|i: int, j: int| 0 <= i <= j < d.len() implies d[i].delta <= d[j].delta by {
            assert(d[i] == s[i] && d[j] == s[j]);
        }
        lemma_inserted(d, x);
        assert(out.drop_last() =~= r);
        assert(out.last() == y);
        assert forall|i: int| 0 <= i < out.len() implies (#[trigger] out[i]) == x || s.contains(
            out[i],
        ) by {
            if i < r.len() {
                assert(out[i] == r[i]);
                if r[i] != x {
                    assert(d.contains(r[i]));
                    let a = choose|a: int| 0 <= a < d.len() && d[a] == r[i];
                    assert(s[a] == r[i]);
                }
            } else {
                assert(s[s.len() - 1] == out[i]);
            }
        }
        assert forall|i: int, j: int| 0 <= i <= j < out.len() implies out[i].delta
            <= out[j].delta by {
            if j < r.len() {
                assert(out[i] == r[i] && out[j] == r[j]);
            } else if i < r.len() {
                assert(out[i] == r[i]);
                if r[i] != x {
                    assert(d.contains(r[i]));
                    let a = choose|a: int| 0 <= a < d.len() && d[a] == r[i];
                    assert(s[a].delta <= s[s.len() - 1].delta);
                }
            }
        }
        assert forall|k: int|
            #[trigger] with_delta(out, k) == if x.delta == k {
                with_delta(s, k).push(x)
            } else {
                with_delta(s, k)
            } by {
            assert(with_delta(r, k) == if x.delta == k {
                with_delta(d, k).push(x)
            } else {
                with_delta(d, k)
            });
        }
    }
}

/// `sorted_stably` sorts by delta and is stable.
pub proof fn lemma_sorted_stably(s: Seq<EntryView>)
    ensures
        is_stable_sort(s, sorted_stably(s)),
        sorted_stably(s).len() == s.len(),
    decreases s.len(),
{
    if s.len() > 0 {
        let d = s.drop_last();
        lemma_sorted_stably(d);
        lemma_inserted(sorted_stably(d), s.last());
        assert forall|k: int| #[trigger]
            with_delta(sorted_stably(s), k) == with_delta(s, k) by {
            assert(with_delta(sorted_stably(d), k) == with_delta(d, k));
        }
    }
}

/// Whatever sorts by delta and is stable gives what `sorted_stably` gives.
pub proof fn lemma_stable_sort_is_sorted_stably(input: Seq<EntryView>, out: Seq<EntryView>)
    requires
        is_stable_sort(input, out),
    ensures
        out == sorted_stably(input),
{
    lemma_sorted_stably(input);
    lemma_stable_sort_is_unique(input, out, sorted_stably(input));
}

/// `first_min` picks an entry of the sequence, and no entry has a smaller
/// delta.
pub proof fn lemma_first_min_is_least(es: Seq<EntryView>)
    requires
        es.len() > 0,
    ensures
        es.contains(first_min(es)),
        forall|i: int| 0 <= i < es.len() ==> first_min(es).delta <= (#[trigger] es[i]).delta,
    decreases es.len(),
{
    if es.len() == 1 {
        assert(es[0] == first_min(es));
    } else {
        let d = es.drop_last();
        let m = first_min(d);
        lemma_first_min_is_least(d);
        let j = choose|j: int| 0 <= j < d.len() && d[j] == m;
        assert(es[j] == m);
        assert(es[es.len() - 1] == es.last());
        assert forall|i: int| 0 <= i < es.len() implies first_min(es).delta <= (
        #[trigger] es[i]).delta by {
            if i < es.len() - 1 {
                assert(d[i] == es[i]);
            }
        }
    }
}

/// Where the first entry of `s` has delta `k`, it is the first of the entries
/// with delta `k`.
proof fn lemma_with_delta_first(s: Seq<EntryView>, k: int)
    requires
        s.len() > 0,
        s[0].delta == k,
    ensures
        with_delta(s, k).len() > 0,
        with_delta(s, k)[0] == s[0],
    decreases s.len(),
{
    let d = s.drop_last();
    if s.len() == 1 {
        assert(with_delta(d, k).len() == 0);
        assert(s.last() == s[0]);
    } else {
        lemma_with_delta_first(d, k);
        assert(d[0] == s[0]);
    }
}

/// `first_min(es)` is the first of the entries that have its delta.
proof fn lemma_first_min_leads(es: Seq<EntryView>)
    requires
        es.len() > 0,
    ensures
        with_delta(es, first_min(es).delta).len() > 0,
        with_delta(es, first_min(es).delta)[0] == first_min(es),
    decreases es.len(),
{
    let k = first_min(es).delta;
    if es.len() == 1 {
        lemma_with_delta_first(es, k);
    } else {
        let d = es.drop_last();
        let m = first_min(d);
        lemma_first_min_is_least(d);
        if es.last().delta < m.delta {
            lemma_with_delta_members(d, k);
            if with_delta(d, k).len() > 0 {
                let x = with_delta(d, k)[0];
                assert(d.contains(x));
                let j = choose|j: int| 0 <= j < d.len() && d[j] == x;
                assert(m.delta <= d[j].delta);
                assert(false);
            }
        } else {
            lemma_first_min_leads(d);
        }
    }
}

/// The head of a stable sort by delta is what `first_min` picks.
pub proof fn lemma_stable_sort_head(input: Seq<EntryView>, out: Seq<EntryView>)
    requires
        is_stable_sort(input, out),
        input.len() > 0,
    ensures
        out.len() > 0,
        out[0] == first_min(input),
{
    lemma_stable_sort_members(input, out);
    assert(out.contains(input[0]));
    lemma_first_min_is_least(input);
    let m = first_min(input);
    let k = m.delta;
    assert(input.contains(out[0]));
    let a = choose|a: int| 0 <= a < input.len() && input[a] == out[0];
    assert(m.delta <= input[a].delta);
    let b = choose|b: int| 0 <= b < input.len() && input[b] == m;
    assert(out.contains(input[b]));
    let j = choose|j: int| 0 <= j < out.len() && out[j] == m;
    assert(out[0].delta <= out[j].delta);
    lemma_with_delta_first(out, k);
    lemma_first_min_leads(input);
    assert(with_delta(out, k) == with_delta(input, k));
}

/// Of the entries that are the first of their player, each is an entry of
/// the sequence, no two are of the same player, and they are sorted by delta
/// where the sequence is.
pub proof fn lemma_first_per_player(s: Seq<EntryView>)
    ensures
        forall|i: int|
            0 <= i < first_per_player(s).len() ==> s.contains(#[trigger] first_per_player(s)[i]),
        forall|i: int, j: int|
            0 <= i < j < first_per_player(s).len() ==> first_per_player(s)[i].player
                != first_per_player(s)[j].player,
        sorted_by_delta(s) ==> sorted_by_delta(first_per_player(s)),
    decreases s.len(),
{
    if s.len() > 0 {
        let d = s.drop_last();
        let r = first_per_player(d);
        let f = first_per_player(s);
        let last = s.last();
        lemma_first_per_player(d);
        assert forall|i: int| 0 <= i < r.len() implies s.contains(#[trigger] r[i]) by {
            assert(d.contains(r[i]));
            let x = choose|x: int| 0 <= x < d.len() && d[x] == r[i];
            assert(s[x] == r[i]);
        }
        assert(s[s.len() - 1] == last);
        if !has_player(d, last.player) {
            assert forall|i: int, j: int| 0 <= i < j < f.len() implies f[i].player
                != f[j].player by {
                if j == r.len() {
                    assert(d.contains(r[i]));
                    let x = choose|x: int| 0 <= x < d.len() && d[x] == r[i];
                    assert(d[x].player != last.player);
                } else {
                    assert(f[i] == r[i] && f[j] == r[j]);
                }
            }
        }
        if sorted_by_delta(s) {
            assert forall|i: int, j: int| 0 <= i <= j < d.len() implies d[i].delta
                <= d[j].delta by {
                assert(d[i] == s[i] && d[j] == s[j]);
            }
            assert forall|i: int, j: int| 0 <= i <= j < f.len() implies f[i].delta
                <= f[j].delta by {
                if j < r.len() {
                    assert(f[i] == r[i] && f[j] == r[j]);
                } else if i < r.len() {
                    assert(d.contains(r[i]));
                    let x = choose|x: int| 0 <= x < d.len() && d[x] == r[i];
                    assert(s[x].delta <= s[s.len() - 1].delta);
                }
            }
        }
    }
}

} // verus!
