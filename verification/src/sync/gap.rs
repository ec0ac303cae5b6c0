//! Backfill gaps.
//!
//! Given the span of days that should be in the warehouse and the spans that
//! earlier runs have already brought in, [`find_gaps`] names the days that are
//! still missing, as runs of consecutive days cut at month ends so that each
//! piece is one query against the remote service.
//!
//! Spans are modelled as pairs of day numbers `(first, last)`, both inclusive.

use crate::date::{
    civil_to_days, day_of_days, days_in_month, in_range, month_of_days, names_its_day,
    year_of_days, Date,
};
use crate::date_util::{
    checked_last_day_of_month, last_day_spec, lemma_civil_bounds, lemma_last_day_ends_month,
};
use vstd::prelude::*;

verus! {

/// A span of days, first and last day included.
#[derive(Clone, Copy, Debug, PartialEq, Eq)]
pub struct DateRange {
    pub start: Date,
    pub end: Date,
}

/// A span of day numbers, first and last included. It holds no day when the
/// first number is above the last.
pub type Span = (int, int);

/// The span of day numbers that a [`DateRange`] stands for.
pub open spec fn span_of(r: DateRange) -> Span {
    (r.start@, r.end@)
}

/// The spans of a list of ranges, in order.
pub open spec fn spans_of(rs: Seq<DateRange>) -> Seq<Span> {
    rs.map_values(|r: DateRange| span_of(r))
}

/// The spans of a list of `(start, end)` pairs, in order.
pub open spec fn spans_of_pairs(ps: Seq<(Date, Date)>) -> Seq<Span> {
    ps.map_values(|p: (Date, Date)| (p.0@, p.1@))
}

/// Whether day `d` lies in one of the spans.
pub open spec fn covers(spans: Seq<Span>, d: int) -> bool {
    exists|i: int| 0 <= i < spans.len() && (#[trigger] spans[i]).0 <= d <= spans[i].1
}

/// Whether the spans are the runs of a set of days, in order: none is empty,
/// and between one span and any later one at least one day is left out.
pub open spec fn is_run_list(spans: Seq<Span>) -> bool {
    &&& forall|i: int| 0 <= i < spans.len() ==> (#[trigger] spans[i]).0 <= spans[i].1
    &&& forall|i: int, j: int|
        0 <= i < j < spans.len() ==> (#[trigger] spans[i]).1 + 1 < (#[trigger] spans[j]).0
}

/// Whether `gaps` are exactly the runs of days between `lo` and `hi` that
/// `synced` does not cover.
pub open spec fn is_gap_list(gaps: Seq<Span>, lo: int, hi: int, synced: Seq<Span>) -> bool {
    &&& is_run_list(gaps)
    &&& forall|d: int| covers(gaps, d) <==> (lo <= d <= hi && !covers(synced, d))
}

/// The runs of days between `lo` and `hi` that `synced` does not cover, built
/// one day at a time from `lo` upwards.
pub open spec fn free_runs(lo: int, hi: int, synced: Seq<Span>) -> Seq<Span>
    decreases hi - lo + 1,
{
    if hi < lo {
        Seq::empty()
    } else {
        let before = free_runs(lo, hi - 1, synced);
        if covers(synced, hi) {
            before
        } else if before.len() > 0 && before.last().1 == hi - 1 {
            before.drop_last().push((before.last().0, hi))
        } else {
            before.push((hi, hi))
        }
    }
}

/// The last day of the month that holds day `day`, where the calendar names
/// one that is in range.
pub open spec fn month_end_of(day: int) -> Option<int> {
    last_day_spec(year_of_days(day), month_of_days(day))
}

/// Whether day `other` lies in the month of day `day`, on or after it: it is
/// the day of that month so many days on.
pub open spec fn in_month_of(day: int, other: int) -> bool {
    &&& names_its_day(day)
    &&& day <= other
    &&& civil_to_days(year_of_days(day), month_of_days(day), day_of_days(day) + (other - day))
        == Some(other)
}

/// Whether a span ends on the last day of the month it starts in.
pub open spec fn ends_its_month(span: Span) -> bool {
    &&& names_its_day(span.0)
    &&& civil_to_days(
        year_of_days(span.0),
        month_of_days(span.0),
        days_in_month(year_of_days(span.0), month_of_days(span.0)),
    ) == Some(span.1)
}

/// Whether each span lies within one month of the calendar.
pub open spec fn each_in_one_month(spans: Seq<Span>) -> bool {
    forall|i: int| 0 <= i < spans.len() ==> in_month_of((#[trigger] spans[i]).0, spans[i].1)
}

/// Where the batch that starts on `cursor` stops: at the end of its month, or
/// at `end` where the month goes on past it. A month end that does not lie at
/// or after `cursor` is no boundary.
pub open spec fn batch_end(cursor: int, month_end: Option<int>, end: int) -> int {
    match month_end {
        Some(last) => if cursor <= last < end {
            last
        } else {
            end
        },
        None => end,
    }
}

/// The days from `start` to `end` cut at month ends: one span per month
/// touched, the first starting on `start` and the last ending on `end`.
pub open spec fn month_batches(start: int, end: int) -> Seq<Span>
    decreases end - start + 1,
{
    if start > end {
        Seq::empty()
    } else {
        let stop = batch_end(start, month_end_of(start), end);
        seq![(start, stop)] + month_batches(stop + 1, end)
    }
}

/// The month batches of each run, one run after the other.
pub open spec fn all_month_batches(runs: Seq<Span>) -> Seq<Span>
    decreases runs.len(),
{
    if runs.len() == 0 {
        Seq::empty()
    } else {
        all_month_batches(runs.drop_last()) + month_batches(runs.last().0, runs.last().1)
    }
}

/// What [`find_gaps`] returns for the wanted days `lo` to `hi` and the spans
/// already synced.
pub open spec fn find_gaps_spec(lo: int, hi: int, synced: Seq<Span>) -> Seq<Span> {
    all_month_batches(free_runs(lo, hi, synced))
}

/// The day number of an optional date.
pub open spec fn day_of(date: Option<Date>) -> Option<int> {
    match date {
        Some(d) => Some(d@),
        None => None,
    }
}

/// A pushed span covers its own days, and the list what it covered before.
pub proof fn lemma_covers_push(spans: Seq<Span>, x: Span, d: int)
    ensures
        covers(spans.push(x), d) <==> (covers(spans, d) || x.0 <= d <= x.1),
{
    let t = spans.push(x);
    if covers(spans, d) {
        let i = choose|i: int| 0 <= i < spans.len() && (#[trigger] spans[i]).0 <= d <= spans[i].1;
        assert(t[i] == spans[i]);
    }
    if x.0 <= d <= x.1 {
        assert(t[spans.len() as int] == x);
    }
    if covers(t, d) {
        let i = choose|i: int| 0 <= i < t.len() && (#[trigger] t[i]).0 <= d <= t[i].1;
        if i < spans.len() {
            assert(spans[i] == t[i]);
        }
    }
}

/// Two lists one after the other cover what either covers.
pub proof fn lemma_covers_concat(a: Seq<Span>, b: Seq<Span>, d: int)
    ensures
        covers(a + b, d) <==> (covers(a, d) || covers(b, d)),
{
    let t = a + b;
    if covers(a, d) {
        let i = choose|i: int| 0 <= i < a.len() && (#[trigger] a[i]).0 <= d <= a[i].1;
        assert(t[i] == a[i]);
    }
    if covers(b, d) {
        let i = choose|i: int| 0 <= i < b.len() && (#[trigger] b[i]).0 <= d <= b[i].1;
        assert(t[a.len() + i] == b[i]);
    }
    if covers(t, d) {
        let i = choose|i: int| 0 <= i < t.len() && (#[trigger] t[i]).0 <= d <= t[i].1;
        if i < a.len() {
            assert(a[i] == t[i]);
        } else {
            assert(b[i - a.len()] == t[i]);
        }
    }
}

/// Replacing the last span changes what that span covers and nothing else.
pub proof fn lemma_covers_replace_last(spans: Seq<Span>, x: Span, d: int)
    requires
        spans.len() > 0,
    ensures
        covers(spans.drop_last().push(x), d) <==> (covers(spans.drop_last(), d) || x.0 <= d
            <= x.1),
        covers(spans, d) <==> (covers(spans.drop_last(), d) || spans.last().0 <= d
            <= spans.last().1),
{
    lemma_covers_push(spans.drop_last(), x, d);
    lemma_covers_push(spans.drop_last(), spans.last(), d);
    assert(spans.drop_last().push(spans.last()) =~= spans);
}

/// An empty list covers no day.
pub proof fn lemma_covers_empty(d: int)
    ensures
        !covers(Seq::<Span>::empty(), d),
{
}

/// In a run list every covered day lies at or before the end of the last span,
/// and what the earlier spans cover lies more than a day before its start.
pub proof fn lemma_run_list_order(spans: Seq<Span>, d: int)
    requires
        is_run_list(spans),
        spans.len() > 0,
    ensures
        covers(spans, d) ==> d <= spans.last().1,
        covers(spans.drop_last(), d) ==> d + 1 < spans.last().0,
        is_run_list(spans.drop_last()),
{
    let n = spans.len() - 1;
    let head = spans.drop_last();
    if covers(spans, d) {
        let i = choose|i: int| 0 <= i < spans.len() && (#[trigger] spans[i]).0 <= d <= spans[i].1;
        if i < n {
            assert(spans[i].1 + 1 < spans[n].0);
            assert(spans[n].0 <= spans[n].1);
        }
    }
    if covers(head, d) {
        let i = choose|i: int| 0 <= i < head.len() && (#[trigger] head[i]).0 <= d <= head[i].1;
        assert(head[i] == spans[i]);
        assert(spans[i].1 + 1 < spans[n].0);
    }
    assert forall|i: int| 0 <= i < head.len() implies (#[trigger] head[i]).0 <= head[i].1 by {
        assert(head[i] == spans[i]);
    }
    assert forall|i: int, j: int| 0 <= i < j < head.len() implies (#[trigger] head[i]).1 + 1 < (
    #[trigger] head[j]).0 by {
        assert(head[i] == spans[i]);
        assert(head[j] == spans[j]);
    }
}

/// The runs that [`free_runs`] builds are the gap list of its arguments.
pub proof fn lemma_free_runs_is_gap_list(lo: int, hi: int, synced: Seq<Span>)
    ensures
        is_gap_list(free_runs(lo, hi, synced), lo, hi, synced),
    decreases hi - lo + 1,
{
    let runs = free_runs(lo, hi, synced);
    if hi < lo {
        assert forall|d: int| covers(runs, d) <==> (lo <= d <= hi && !covers(synced, d)) by {
            lemma_covers_empty(d);
        }
    } else {
        let before = free_runs(lo, hi - 1, synced);
        lemma_free_runs_is_gap_list(lo, hi - 1, synced);
        if covers(synced, hi) {
        } else if before.len() > 0 && before.last().1 == hi - 1 {
            let head = before.drop_last();
            let x = (before.last().0, hi);
            lemma_run_list_order(before, hi);
            assert(before.last() == before[before.len() - 1]);
            assert forall|i: int| 0 <= i < runs.len() implies (#[trigger] runs[i]).0
                <= runs[i].1 by {
                if i < head.len() {
                    assert(runs[i] == before[i]);
                }
            }
            assert forall|i: int, j: int| 0 <= i < j < runs.len() implies (#[trigger] runs[i]).1
                + 1 < (#[trigger] runs[j]).0 by {
                assert(runs[i] == before[i]);
                if j < head.len() {
                    assert(runs[j] == before[j]);
                } else {
                    assert(before[i].1 + 1 < before[before.len() - 1].0);
                }
            }
            assert forall|d: int| covers(runs, d) <==> (lo <= d <= hi && !covers(synced, d)) by {
                lemma_covers_replace_last(before, x, d);
            }
        } else {
            assert forall|i: int| 0 <= i < runs.len() implies (#[trigger] runs[i]).0
                <= runs[i].1 by {
                if i < before.len() {
                    assert(runs[i] == before[i]);
                }
            }
            assert forall|i: int, j: int| 0 <= i < j < runs.len() implies (#[trigger] runs[i]).1
                + 1 < (#[trigger] runs[j]).0 by {
                assert(runs[i] == before[i]);
                if j < before.len() {
                    assert(runs[j] == before[j]);
                } else {
                    let n = before.len() - 1;
                    assert(before[n] == before.last());
                    assert(before[n].0 <= before[n].1);
                    assert(covers(before, before[n].1));
                    if i < n {
                        assert(before[i].1 + 1 < before[n].0);
                    }
                }
            }
            assert forall|d: int| covers(runs, d) <==> (lo <= d <= hi && !covers(synced, d)) by {
                lemma_covers_push(before, (hi, hi), d);
            }
        }
    }
}

/// A set of days has one run list: two run lists that cover the same days
/// are the same list.
pub proof fn lemma_run_list_unique(a: Seq<Span>, b: Seq<Span>)
    requires
        is_run_list(a),
        is_run_list(b),
        forall|d: int| covers(a, d) <==> covers(b, d),
    ensures
        a == b,
    decreases a.len(),
{
    if a.len() == 0 {
        if b.len() > 0 {
            assert(b[0].0 <= b[0].1);
            assert(covers(b, b[0].0));
            lemma_covers_empty(b[0].0);
            assert(a =~= Seq::<Span>::empty());
        }
        assert(a =~= b);
    } else {
        let na = a.len() - 1;
        assert(a[na].0 <= a[na].1);
        assert(covers(a, a[na].1));
        if b.len() == 0 {
            assert(b =~= Seq::<Span>::empty());
            lemma_covers_empty(a[na].1);
        }
        let nb = b.len() - 1;
        assert(b[nb].0 <= b[nb].1);
        assert(covers(b, b[nb].1));
        assert(covers(a, a[na].0));
        assert(covers(b, b[nb].0));
        let la = a.last();
        let lb = b.last();
        // The last spans end on the last covered day.
        lemma_run_list_order(a, lb.1);
        lemma_run_list_order(b, la.1);
        assert(la.1 == lb.1);
        // They start where the last run of covered days starts.
        if la.0 < lb.0 {
            let d = lb.0 - 1;
            assert(covers(a, d));
            lemma_covers_replace_last(b, lb, d);
            lemma_run_list_order(b, d);
        }
        if lb.0 < la.0 {
            let d = la.0 - 1;
            assert(covers(b, d));
            lemma_covers_replace_last(a, la, d);
            lemma_run_list_order(a, d);
        }
        assert(la == lb);
        assert forall|d: int| covers(a.drop_last(), d) <==> covers(b.drop_last(), d) by {
            lemma_covers_replace_last(a, la, d);
            lemma_covers_replace_last(b, lb, d);
            lemma_run_list_order(a, d);
            lemma_run_list_order(b, d);
        }
        lemma_run_list_order(a, 0);
        lemma_run_list_order(b, 0);
        lemma_run_list_unique(a.drop_last(), b.drop_last());
        assert(a =~= a.drop_last().push(la));
        assert(b =~= b.drop_last().push(lb));
    }
}

/// A gap list is the one that [`free_runs`] builds.
pub proof fn lemma_gap_list_is_free_runs(gaps: Seq<Span>, lo: int, hi: int, synced: Seq<Span>)
    requires
        is_gap_list(gaps, lo, hi, synced),
    ensures
        gaps == free_runs(lo, hi, synced),
{
    lemma_free_runs_is_gap_list(lo, hi, synced);
    lemma_run_list_unique(gaps, free_runs(lo, hi, synced));
}

/// The month batches of a span cover its days and no others.
pub proof fn lemma_month_batches_cover(start: int, end: int, d: int)
    ensures
        covers(month_batches(start, end), d) <==> start <= d <= end,
    decreases end - start + 1,
{
    if start > end {
        lemma_covers_empty(d);
    } else {
        let stop = batch_end(start, month_end_of(start), end);
        let first = seq![(start, stop)];
        lemma_month_batches_cover(stop + 1, end, d);
        lemma_covers_concat(first, month_batches(stop + 1, end), d);
        lemma_covers_push(Seq::<Span>::empty(), (start, stop), d);
        lemma_covers_empty(d);
        assert(first =~= Seq::<Span>::empty().push((start, stop)));
    }
}

/// The month batches of a list of runs cover what the runs cover.
pub proof fn lemma_all_month_batches_cover(runs: Seq<Span>, d: int)
    ensures
        covers(all_month_batches(runs), d) <==> covers(runs, d),
    decreases runs.len(),
{
    if runs.len() == 0 {
        lemma_covers_empty(d);
        assert(runs =~= Seq::<Span>::empty());
    } else {
        lemma_all_month_batches_cover(runs.drop_last(), d);
        lemma_month_batches_cover(runs.last().0, runs.last().1, d);
        lemma_covers_concat(
            all_month_batches(runs.drop_last()),
            month_batches(runs.last().0, runs.last().1),
            d,
        );
        lemma_covers_replace_last(runs, runs.last(), d);
    }
}

/// Whether the spans stand in order without touching days twice: none is
/// empty, and each ends before any later one starts.
pub open spec fn is_ordered(spans: Seq<Span>) -> bool {
    &&& forall|i: int| 0 <= i < spans.len() ==> (#[trigger] spans[i]).0 <= spans[i].1
    &&& forall|i: int, j: int|
        0 <= i < j < spans.len() ==> (#[trigger] spans[i]).1 < (#[trigger] spans[j]).0
}

/// The month batches of a span stand in order, and none reaches out of the
/// span.
pub proof fn lemma_month_batches_ordered(start: int, end: int)
    ensures
        is_ordered(month_batches(start, end)),
        forall|i: int|
            0 <= i < month_batches(start, end).len() ==> start
                <= (#[trigger] month_batches(start, end)[i]).0
                && month_batches(start, end)[i].1 <= end,
    decreases end - start + 1,
{
    if start <= end {
        let stop = batch_end(start, month_end_of(start), end);
        let rest = month_batches(stop + 1, end);
        let all = month_batches(start, end);
        lemma_month_batches_ordered(stop + 1, end);
        assert(all == seq![(start, stop)] + rest);
        assert forall|i: int| 0 <= i < all.len() implies start <= (#[trigger] all[i]).0
            && all[i].0 <= all[i].1 && all[i].1 <= end by {
            if i > 0 {
                assert(all[i] == rest[i - 1]);
            }
        }
        assert forall|i: int, j: int| 0 <= i < j < all.len() implies (#[trigger] all[i]).1
            < (#[trigger] all[j]).0 by {
            assert(all[j] == rest[j - 1]);
            if i > 0 {
                assert(all[i] == rest[i - 1]);
            }
        }
    }
}

/// The month batches of a list of runs stand in order, and none reaches past
/// the last run.
pub proof fn lemma_all_month_batches_ordered(runs: Seq<Span>)
    requires
        is_run_list(runs),
    ensures
        is_ordered(all_month_batches(runs)),
        forall|i: int|
            0 <= i < all_month_batches(runs).len() ==> runs.len() > 0
                && (#[trigger] all_month_batches(runs)[i]).1 <= runs.last().1,
    decreases runs.len(),
{
    if runs.len() > 0 {
        let head = all_month_batches(runs.drop_last());
        let tail = month_batches(runs.last().0, runs.last().1);
        let all = all_month_batches(runs);
        lemma_all_month_batches_ordered(runs.drop_last());
        lemma_month_batches_ordered(runs.last().0, runs.last().1);
        assert(all == head + tail);
        assert forall|i: int| 0 <= i < all.len() implies (#[trigger] all[i]).0 <= all[i].1
            && all[i].1 <= runs.last().1 by {
            if i < head.len() {
                assert(all[i] == head[i]);
                assert(runs.drop_last().last() == runs[runs.len() - 2]);
            } else {
                assert(all[i] == tail[i - head.len()]);
            }
        }
        assert forall|i: int, j: int| 0 <= i < j < all.len() implies (#[trigger] all[i]).1
            < (#[trigger] all[j]).0 by {
            if j < head.len() {
                assert(all[i] == head[i]);
                assert(all[j] == head[j]);
            } else if i < head.len() {
                assert(all[i] == head[i]);
                assert(all[j] == tail[j - head.len()]);
                assert(runs.drop_last().last() == runs[runs.len() - 2]);
            } else {
                assert(all[i] == tail[i - head.len()]);
                assert(all[j] == tail[j - head.len()]);
            }
        }
    }
}

/// A batch does not leave the month it starts in.
pub proof fn lemma_batch_in_one_month(cursor: int, end: int)
    requires
        names_its_day(cursor),
        cursor <= end,
        in_range(end),
    ensures
        in_month_of(cursor, batch_end(cursor, month_end_of(cursor), end)),
{
    let year = year_of_days(cursor);
    let month = month_of_days(cursor);
    lemma_civil_bounds(year, month, day_of_days(cursor));
    lemma_last_day_ends_month(year, month);
}

/// A batch that stops before the last day wanted stops on the last day of
/// its month.
pub proof fn lemma_batch_ends_month(cursor: int, end: int)
    requires
        names_its_day(cursor),
        cursor <= end,
        in_range(end),
    ensures
        batch_end(cursor, month_end_of(cursor), end) < end ==> ends_its_month(
            (cursor, batch_end(cursor, month_end_of(cursor), end)),
        ),
{
    let year = year_of_days(cursor);
    let month = month_of_days(cursor);
    lemma_civil_bounds(year, month, day_of_days(cursor));
    lemma_last_day_ends_month(year, month);
}

/// Whether a range of a gap list ends where it must: on the last day of its
/// month, on the last day wanted, or on the eve of a day that is synced.
pub open spec fn ends_in_place(span: Span, hi: int, synced: Seq<Span>) -> bool {
    ends_its_month(span) || span.1 == hi || covers(synced, span.1 + 1)
}

/// A run of uncovered days ends on the last day wanted or on the eve of a day
/// that is synced.
pub proof fn lemma_run_ends_in_place(runs: Seq<Span>, k: int, lo: int, hi: int, synced: Seq<Span>)
    requires
        is_gap_list(runs, lo, hi, synced),
        0 <= k < runs.len(),
    ensures
        lo <= runs[k].0 <= runs[k].1 <= hi,
        runs[k].1 == hi || covers(synced, runs[k].1 + 1),
{
    let next = runs[k].1 + 1;
    assert(covers(runs, runs[k].1));
    assert(covers(runs, runs[k].0));
    if runs[k].1 < hi && covers(runs, next) {
        let j = choose|j: int| 0 <= j < runs.len() && (#[trigger] runs[j]).0 <= next <= runs[j].1;
        if j < k {
            assert(runs[j].1 + 1 < runs[k].0);
        } else if j > k {
            assert(runs[k].1 + 1 < runs[j].0);
        }
    }
}

/// Backfilling is idempotent: once the gaps that [`find_gaps`] returned count
/// as synced, asking again for the same wanted days returns no gap.
pub proof fn lemma_find_gaps_idempotent(lo: int, hi: int, synced: Seq<Span>)
    ensures
        find_gaps_spec(lo, hi, synced + find_gaps_spec(lo, hi, synced)) == Seq::<Span>::empty(),
{
    let runs = free_runs(lo, hi, synced);
    let filled = synced + find_gaps_spec(lo, hi, synced);
    let again = free_runs(lo, hi, filled);
    lemma_free_runs_is_gap_list(lo, hi, synced);
    lemma_free_runs_is_gap_list(lo, hi, filled);
    if again.len() > 0 {
        let d = again[0].0;
        assert(again[0].0 <= again[0].1);
        assert(covers(again, d));
        lemma_covers_concat(synced, find_gaps_spec(lo, hi, synced), d);
        lemma_all_month_batches_cover(runs, d);
    }
    assert(again =~= Seq::<Span>::empty());
}

/// With nothing synced, the gaps are the wanted days cut at month ends.
pub proof fn lemma_nothing_synced(lo: int, hi: int)
    requires
        lo <= hi,
    ensures
        find_gaps_spec(lo, hi, Seq::<Span>::empty()) == month_batches(lo, hi),
{
    let none = Seq::<Span>::empty();
    let whole = seq![(lo, hi)];
    assert forall|d: int| covers(whole, d) <==> (lo <= d <= hi && !covers(none, d)) by {
        lemma_covers_push(none, (lo, hi), d);
        assert(whole =~= none.push((lo, hi)));
    }
    lemma_gap_list_is_free_runs(whole, lo, hi, none);
    assert(whole.drop_last() =~= none);
    assert(all_month_batches(whole) == all_month_batches(none) + month_batches(lo, hi));
    assert(all_month_batches(none) + month_batches(lo, hi) =~= month_batches(lo, hi));
}

/// Where every wanted day is synced, there is no gap.
pub proof fn lemma_fully_synced(lo: int, hi: int, synced: Seq<Span>)
    requires
        forall|d: int| lo <= d <= hi ==> covers(synced, d),
    ensures
        find_gaps_spec(lo, hi, synced) == Seq::<Span>::empty(),
{
    let runs = free_runs(lo, hi, synced);
    lemma_free_runs_is_gap_list(lo, hi, synced);
    if runs.len() > 0 {
        assert(runs[0].0 <= runs[0].1);
        assert(covers(runs, runs[0].0));
    }
    assert(runs =~= Seq::<Span>::empty());
}

/// Whether no span is empty and the spans stand in order of their first day.
pub open spec fn is_sorted_by_start(spans: Seq<Span>) -> bool {
    &&& forall|i: int| 0 <= i < spans.len() ==> (#[trigger] spans[i]).0 <= spans[i].1
    &&& forall|i: int, j: int|
        0 <= i < j < spans.len() ==> (#[trigger] spans[i]).0 <= (#[trigger] spans[j]).0
}

/// An inserted span covers its own days, and the list what it covered before.
pub proof fn lemma_covers_insert(spans: Seq<Span>, pos: int, x: Span, d: int)
    requires
        0 <= pos <= spans.len(),
    ensures
        covers(spans.insert(pos, x), d) <==> (covers(spans, d) || x.0 <= d <= x.1),
{
    let front = spans.subrange(0, pos);
    let back = spans.subrange(pos, spans.len() as int);
    lemma_covers_push(front, x, d);
    lemma_covers_concat(front.push(x), back, d);
    lemma_covers_concat(front, back, d);
    assert(front + back =~= spans);
}

/// The ranges of `ranges` that hold at least one day, in order of their first
/// day. Ranges that start on the same day keep the order they came in.
fn sorted_by_start(ranges: &[(Date, Date)]) -> (sorted: Vec<DateRange>)
    ensures
        is_sorted_by_start(spans_of(sorted@)),
        forall|d: int| covers(spans_of(sorted@), d) <==> covers(spans_of_pairs(ranges@), d),
{
    let mut sorted: Vec<DateRange> = Vec::new();
    let mut k: usize = 0;
    proof {
        assert(spans_of(sorted@) =~= Seq::<Span>::empty());
        assert(spans_of_pairs(ranges@.take(0)) =~= Seq::<Span>::empty());
    }
    while k < ranges.len()
        invariant
            k <= ranges.len(),
            is_sorted_by_start(spans_of(sorted@)),
            forall|d: int|
                covers(spans_of(sorted@), d) <==> covers(
                    spans_of_pairs(ranges@.take(k as int)),
                    d,
                ),
        decreases ranges.len() - k,
    {
        let (start, end) = ranges[k];
        let ghost seen = spans_of_pairs(ranges@.take(k as int));
        let ghost x = (start@, end@);
        proof {
            assert(spans_of_pairs(ranges@.take(k + 1)) =~= seen.push(x));
        }
        if start.is_on_or_before(&end) {
            let mut pos: usize = 0;
            while pos < sorted.len() && sorted[pos].start.is_on_or_before(&start)
                invariant
                    pos <= sorted.len(),
                    forall|i: int| 0 <= i < pos ==> (#[trigger] spans_of(sorted@)[i]).0 <= start@,
                decreases sorted.len() - pos,
            {
                pos += 1;
            }
            let ghost before = spans_of(sorted@);
            sorted.insert(pos, DateRange { start, end });
            proof {
                let after = spans_of(sorted@);
                before.insert_ensures(pos as int, x);
                assert(after =~= before.insert(pos as int, x));
                assert forall|i: int, j: int| 0 <= i < j < after.len() implies (
                #[trigger] after[i]).0 <= (#[trigger] after[j]).0 by {
                    if j < pos {
                        assert(after[i] == before[i] && after[j] == before[j]);
                    } else if j == pos {
                        assert(after[i] == before[i]);
                    } else if i < pos {
                        assert(after[i] == before[i] && after[j] == before[j - 1]);
                    } else if i == pos {
                        assert(after[j] == before[j - 1]);
                        assert(before[pos as int].0 <= before[j - 1].0);
                    } else {
                        assert(after[i] == before[i - 1] && after[j] == before[j - 1]);
                    }
                }
                assert forall|i: int| 0 <= i < after.len() implies (#[trigger] after[i]).0
                    <= after[i].1 by {
                    if i < pos {
                        assert(after[i] == before[i]);
                    } else if i > pos {
                        assert(after[i] == before[i - 1]);
                    }
                }
                assert forall|d: int| covers(after, d) <==> covers(seen.push(x), d) by {
                    lemma_covers_insert(before, pos as int, x, d);
                    lemma_covers_push(seen, x, d);
                }
            }
        } else {
            proof {
                assert forall|d: int| covers(spans_of(sorted@), d) <==> covers(
                    seen.push(x),
                    d,
                ) by {
                    lemma_covers_push(seen, x, d);
                }
            }
        }
        k += 1;
    }
    proof {
        assert(ranges@.take(k as int) =~= ranges@);
    }
    sorted
}

/// Merges spans that overlap or touch. The result is the run list of the days
/// that `ranges` cover: two ranges with no day left out between them (the
/// second starts at most one day after the first ends) become one. A range
/// whose end is before its start holds no day and is passed over.
pub fn merge_ranges(ranges: &[(Date, Date)]) -> (merged: Vec<DateRange>)
    ensures
        is_run_list(spans_of(merged@)),
        forall|d: int| covers(spans_of(merged@), d) <==> covers(spans_of_pairs(ranges@), d),
{
    let sorted = sorted_by_start(ranges);
    let mut merged: Vec<DateRange> = Vec::new();
    let mut k: usize = 0;
    proof {
        assert(spans_of(merged@) =~= Seq::<Span>::empty());
        assert(spans_of(sorted@.take(0)) =~= Seq::<Span>::empty());
    }
    while k < sorted.len()
        invariant
            k <= sorted.len(),
            is_sorted_by_start(spans_of(sorted@)),
            is_run_list(spans_of(merged@)),
            forall|d: int|
                covers(spans_of(merged@), d) <==> covers(spans_of(sorted@.take(k as int)), d),
            forall|j: int|
                merged.len() > 0 && k <= j < sorted.len() ==> spans_of(merged@).last().0 <= (
                #[trigger] spans_of(sorted@)[j]).0,
        decreases sorted.len() - k,
    {
        let next = sorted[k];
        let n = merged.len();
        let ghost all = spans_of(sorted@);
        let ghost seen = spans_of(sorted@.take(k as int));
        let ghost before = spans_of(merged@);
        let ghost x = span_of(next);
        proof {
            assert(spans_of(sorted@.take(k + 1)) =~= seen.push(x));
            assert(all[k as int] == x);
            assert(x.0 <= x.1);
        }
        if n > 0 && next.start.days_from_ce() <= merged[n - 1].end.days_from_ce() + 1 {
            let last = merged[n - 1];
            let end = if next.end.is_on_or_before(&last.end) {
                last.end
            } else {
                next.end
            };
            merged.pop();
            merged.push(DateRange { start: last.start, end });
            proof {
                let after = spans_of(merged@);
                let y = (last.start@, end@);
                assert(before.last() == span_of(last));
                assert(after =~= before.drop_last().push(y));
                assert(before.last().0 <= x.0);
                assert forall|i: int| 0 <= i < after.len() implies (#[trigger] after[i]).0
                    <= after[i].1 by {
                    if i < n - 1 {
                        assert(after[i] == before[i]);
                    } else {
                        assert(before[n - 1].0 <= before[n - 1].1);
                    }
                }
                assert forall|i: int, j: int| 0 <= i < j < after.len() implies (
                #[trigger] after[i]).1 + 1 < (#[trigger] after[j]).0 by {
                    assert(after[i] == before[i]);
                    if j < n - 1 {
                        assert(after[j] == before[j]);
                    } else {
                        assert(before[i].1 + 1 < before[n - 1].0);
                    }
                }
                assert forall|d: int| covers(after, d) <==> covers(seen.push(x), d) by {
                    lemma_covers_replace_last(before, y, d);
                    lemma_covers_push(seen, x, d);
                }
                assert forall|j: int| k + 1 <= j < sorted.len() implies after.last().0 <= (
                #[trigger] all[j]).0 by {
                    assert(before.last().0 <= all[j].0);
                }
            }
        } else {
            merged.push(next);
            proof {
                let after = spans_of(merged@);
                assert(after =~= before.push(x));
                assert forall|i: int| 0 <= i < after.len() implies (#[trigger] after[i]).0
                    <= after[i].1 by {
                    if i < n {
                        assert(after[i] == before[i]);
                    }
                }
                assert forall|i: int, j: int| 0 <= i < j < after.len() implies (
                #[trigger] after[i]).1 + 1 < (#[trigger] after[j]).0 by {
                    assert(after[i] == before[i]);
                    if j < n {
                        assert(after[j] == before[j]);
                    } else {
                        assert(before[n - 1] == before.last());
                        assert(before[n - 1].0 <= before[n - 1].1);
                        if i < n - 1 {
                            assert(before[i].1 + 1 < before[n - 1].0);
                        }
                    }
                }
                assert forall|d: int| covers(after, d) <==> covers(seen.push(x), d) by {
                    lemma_covers_push(before, x, d);
                    lemma_covers_push(seen, x, d);
                }
                assert forall|j: int| k + 1 <= j < sorted.len() implies after.last().0 <= (
                #[trigger] all[j]).0 by {
                    assert(all[k as int].0 <= all[j].0);
                }
            }
        }
        k += 1;
    }
    proof {
        assert(sorted@.take(k as int) =~= sorted@);
    }
    merged
}

/// In a run list, a day at or after every end among the first `k` spans and
/// before the start of span `k` (or, with `k` the length, after them all) is
/// covered by no span.
proof fn lemma_free_before(m: Seq<Span>, k: int, cursor: int, d: int)
    requires
        is_run_list(m),
        0 <= k <= m.len(),
        forall|i: int| 0 <= i < k ==> (#[trigger] m[i]).1 < cursor,
        cursor <= d,
        k < m.len() ==> d < m[k].0,
    ensures
        !covers(m, d),
{
    if covers(m, d) {
        let i = choose|i: int| 0 <= i < m.len() && (#[trigger] m[i]).0 <= d <= m[i].1;
        if i < k {
            assert(m[i].1 < cursor);
        } else if i > k {
            assert(m[k].0 <= m[k].1);
            assert(m[k].1 + 1 < m[i].0);
        }
    }
}

/// The runs of days from `desired_start` to `desired_end` that no synced range
/// covers, in order: the days before, between and after the synced ranges,
/// none of them outside the wanted days. Empty when `desired_start` is after
/// `desired_end`.
pub fn uncovered_ranges(
    desired_start: Date,
    desired_end: Date,
    synced_ranges: &[(Date, Date)],
) -> (gaps: Vec<DateRange>)
    ensures
        is_gap_list(
            spans_of(gaps@),
            desired_start@,
            desired_end@,
            spans_of_pairs(synced_ranges@),
        ),
        spans_of(gaps@) == free_runs(
            desired_start@,
            desired_end@,
            spans_of_pairs(synced_ranges@),
        ),
{
    let mut gaps: Vec<DateRange> = Vec::new();
    let lo: i32 = desired_start.days_from_ce();
    let hi: i32 = desired_end.days_from_ce();
    let ghost synced = spans_of_pairs(synced_ranges@);
    proof {
        assert(spans_of(gaps@) =~= Seq::<Span>::empty());
    }
    if lo > hi {
        proof {
            lemma_gap_list_is_free_runs(spans_of(gaps@), lo as int, hi as int, synced);
        }
        return gaps;
    }
    let merged = merge_ranges(synced_ranges);
    let ghost m = spans_of(merged@);
    let mut cursor: i32 = lo;
    let mut k: usize = 0;
    while k < merged.len()
        invariant
            k <= merged.len(),
            m == spans_of(merged@),
            lo == desired_start@,
            hi == desired_end@,
            in_range(lo as int),
            in_range(hi as int),
            lo <= hi,
            lo <= cursor,
            cursor <= crate::date::MAX_DAYS + 1,
            is_run_list(m),
            is_run_list(spans_of(gaps@)),
            forall|i: int| 0 <= i < k ==> (#[trigger] m[i]).1 < cursor,
            forall|i: int| 0 <= i < gaps.len() ==> (#[trigger] spans_of(gaps@)[i]).1 + 1 < cursor,
            forall|d: int| #[trigger]
                covers(spans_of(gaps@), d) ==> lo <= d <= hi && d < cursor && !covers(m, d),
            forall|d: int|
                lo <= d <= hi && d < cursor && !#[trigger] covers(spans_of(gaps@), d) ==> covers(
                    m,
                    d,
                ),
        decreases merged.len() - k,
    {
        let range = merged[k];
        let first: i32 = range.start.days_from_ce();
        let last: i32 = range.end.days_from_ce();
        let ghost before = spans_of(gaps@);
        let ghost old_cursor = cursor;
        proof {
            assert(m[k as int] == span_of(range));
            assert(m[k as int].0 <= m[k as int].1);
        }
        if first > cursor && cursor <= hi {
            let stop: i32 = if first - 1 < hi {
                first - 1
            } else {
                hi
            };
            let gap = DateRange {
                start: Date::from_days_ce(cursor).unwrap(),
                end: Date::from_days_ce(stop).unwrap(),
            };
            gaps.push(gap);
            proof {
                let after = spans_of(gaps@);
                let x = (cursor as int, stop as int);
                assert(after =~= before.push(x));
                assert forall|i: int| 0 <= i < after.len() implies (#[trigger] after[i]).0
                    <= after[i].1 by {
                    if i < before.len() {
                        assert(after[i] == before[i]);
                    }
                }
                assert forall|i: int, j: int| 0 <= i < j < after.len() implies (
                #[trigger] after[i]).1 + 1 < (#[trigger] after[j]).0 by {
                    assert(after[i] == before[i]);
                    if j < before.len() {
                        assert(after[j] == before[j]);
                    }
                }
                assert forall|d: int| covers(after, d) implies lo <= d <= hi && !covers(
                    m,
                    d,
                ) by {
                    lemma_covers_push(before, x, d);
                    if !covers(before, d) {
                        lemma_free_before(m, k as int, cursor as int, d);
                    }
                }
                assert forall|d: int| covers(after, d) <==> (covers(before, d) || cursor <= d
                    <= stop) by {
                    lemma_covers_push(before, x, d);
                }
            }
        }
        if last + 1 > cursor {
            cursor = last + 1;
        }
        proof {
            let after = spans_of(gaps@);
            assert forall|i: int| 0 <= i < gaps.len() implies (#[trigger] after[i]).1 + 1
                < cursor by {
                if i < before.len() {
                    assert(after[i] == before[i]);
                }
            }
            assert forall|d: int| lo <= d <= hi && d < cursor && !covers(
                after,
                d,
            ) implies covers(m, d) by {
                if d >= old_cursor {
                    assert(m[k as int].0 <= d <= m[k as int].1);
                }
            }
        }
        k += 1;
    }
    if cursor <= hi {
        let ghost before = spans_of(gaps@);
        let gap = DateRange { start: Date::from_days_ce(cursor).unwrap(), end: desired_end };
        gaps.push(gap);
        proof {
            let after = spans_of(gaps@);
            let x = (cursor as int, hi as int);
            assert(after =~= before.push(x));
            assert forall|i: int| 0 <= i < after.len() implies (#[trigger] after[i]).0
                <= after[i].1 by {
                if i < before.len() {
                    assert(after[i] == before[i]);
                }
            }
            assert forall|i: int, j: int| 0 <= i < j < after.len() implies (
            #[trigger] after[i]).1 + 1 < (#[trigger] after[j]).0 by {
                assert(after[i] == before[i]);
                if j < before.len() {
                    assert(after[j] == before[j]);
                }
            }
            assert forall|d: int| covers(after, d) <==> (lo <= d <= hi && !covers(m, d)) by {
                lemma_covers_push(before, x, d);
                if cursor <= d <= hi {
                    lemma_free_before(m, k as int, cursor as int, d);
                }
            }
        }
    }
    proof {
        let g = spans_of(gaps@);
        assert forall|d: int| covers(g, d) <==> (lo <= d <= hi && !covers(synced, d)) by {
            assert(covers(m, d) <==> covers(synced, d));
        }
        lemma_gap_list_is_free_runs(g, lo as int, hi as int, synced);
    }
    gaps
}

/// The days from `desired_start` to `desired_end` that are still to be
/// fetched, given the ranges already synced: the runs of uncovered days, each
/// cut at month ends. Empty when `desired_start` is after `desired_end`, and
/// when the synced ranges cover every wanted day.
pub fn find_gaps(desired_start: Date, desired_end: Date, synced_ranges: &[(Date, Date)]) -> (gaps:
    Vec<DateRange>)
    ensures
        spans_of(gaps@) == find_gaps_spec(
            desired_start@,
            desired_end@,
            spans_of_pairs(synced_ranges@),
        ),
        forall|d: int|
            covers(spans_of(gaps@), d) <==> (desired_start@ <= d <= desired_end@ && !covers(
                spans_of_pairs(synced_ranges@),
                d,
            )),
        is_ordered(spans_of(gaps@)),
        each_in_one_month(spans_of(gaps@)),
        forall|i: int|
            0 <= i < gaps@.len() ==> ends_in_place(
                #[trigger] spans_of(gaps@)[i],
                desired_end@,
                spans_of_pairs(synced_ranges@),
            ),
        desired_start@ > desired_end@ ==> gaps@.len() == 0,
{
    let runs = uncovered_ranges(desired_start, desired_end, synced_ranges);
    let mut gaps: Vec<DateRange> = Vec::new();
    let mut k: usize = 0;
    proof {
        assert(spans_of(gaps@) =~= Seq::<Span>::empty());
        assert(spans_of(runs@).take(0) =~= Seq::<Span>::empty());
    }
    while k < runs.len()
        invariant
            k <= runs.len(),
            spans_of(gaps@) == all_month_batches(spans_of(runs@).take(k as int)),
            each_in_one_month(spans_of(gaps@)),
            is_gap_list(
                spans_of(runs@),
                desired_start@,
                desired_end@,
                spans_of_pairs(synced_ranges@),
            ),
            forall|i: int|
                0 <= i < gaps@.len() ==> ends_in_place(
                    #[trigger] spans_of(gaps@)[i],
                    desired_end@,
                    spans_of_pairs(synced_ranges@),
                ),
        decreases runs.len() - k,
    {
        let run = runs[k];
        let mut batches = split_into_months(run.start, run.end);
        let ghost before = spans_of(gaps@);
        let ghost added = spans_of(batches@);
        gaps.append(&mut batches);
        proof {
            let upto = spans_of(runs@).take(k + 1);
            assert(upto.drop_last() =~= spans_of(runs@).take(k as int));
            assert(upto.last() == span_of(run));
            assert(spans_of(gaps@) =~= before + added);
            lemma_run_ends_in_place(
                spans_of(runs@),
                k as int,
                desired_start@,
                desired_end@,
                spans_of_pairs(synced_ranges@),
            );
            assert(spans_of(runs@)[k as int] == span_of(run));
            assert forall|i: int| 0 <= i < spans_of(gaps@).len() implies in_month_of(
                (#[trigger] spans_of(gaps@)[i]).0,
                spans_of(gaps@)[i].1,
            ) && ends_in_place(
                spans_of(gaps@)[i],
                desired_end@,
                spans_of_pairs(synced_ranges@),
            ) by {
                if i < before.len() {
                    assert(spans_of(gaps@)[i] == before[i]);
                } else {
                    let batch = added[i - before.len()];
                    assert(spans_of(gaps@)[i] == batch);
                    assert(in_month_of(batch.0, batch.1));
                    assert(covers(added, batch.1));
                }
            }
        }
        k += 1;
    }
    proof {
        assert(spans_of(runs@).take(k as int) =~= spans_of(runs@));
        assert forall|d: int|
            covers(spans_of(gaps@), d) <==> (desired_start@ <= d <= desired_end@ && !covers(
                spans_of_pairs(synced_ranges@),
                d,
            )) by {
            lemma_all_month_batches_cover(spans_of(runs@), d);
        }
        lemma_all_month_batches_ordered(spans_of(runs@));
    }
    gaps
}

/// Where the batch that starts on `cursor` stops, given the last day of the
/// month of `cursor` as the calendar named it: at that day, or at `end` where
/// the month goes on past `end` or no usable month end was named.
pub fn batch_stop(cursor: Date, month_end: Option<Date>, end: Date) -> (stop: Date)
    requires
        cursor@ <= end@,
    ensures
        stop@ == batch_end(cursor@, day_of(month_end), end@),
        cursor@ <= stop@ <= end@,
{
    match month_end {
        Some(last) => {
            if cursor.is_on_or_before(&last) && last.is_before(&end) {
                last
            } else {
                end
            }
        },
        None => end,
    }
}

/// Cuts the days from `start` to `end` at month ends. The result is empty
/// when `start` is after `end`.
pub fn split_into_months(start: Date, end: Date) -> (batches: Vec<DateRange>)
    ensures
        spans_of(batches@) == month_batches(start@, end@),
        is_ordered(spans_of(batches@)),
        each_in_one_month(spans_of(batches@)),
        forall|i: int|
            0 <= i < batches@.len() && (#[trigger] spans_of(batches@)[i]).1 < end@
                ==> ends_its_month(spans_of(batches@)[i]),
        forall|d: int| covers(spans_of(batches@), d) <==> start@ <= d <= end@,
{
    let mut batches: Vec<DateRange> = Vec::new();
    let last: i32 = end.days_from_ce();
    let mut cursor: i32 = start.days_from_ce();
    assert(spans_of(batches@) =~= Seq::<Span>::empty());
    while cursor <= last
        invariant
            last == end@,
            start@ <= cursor,
            in_range(start@),
            in_range(last as int),
            spans_of(batches@) + month_batches(cursor as int, end@) == month_batches(
                start@,
                end@,
            ),
            each_in_one_month(spans_of(batches@)),
            forall|i: int|
                0 <= i < batches@.len() && (#[trigger] spans_of(batches@)[i]).1 < end@
                    ==> ends_its_month(spans_of(batches@)[i]),
        decreases last - cursor + 1,
    {
        let first = Date::from_days_ce(cursor).unwrap();
        let month_end = checked_last_day_of_month(first.year(), first.month());
        let stop = batch_stop(first, month_end, end);
        let ghost before = spans_of(batches@);
        batches.push(DateRange { start: first, end: stop });
        proof {
            let rest = month_batches(stop@ + 1, end@);
            assert(day_of(month_end) == month_end_of(cursor as int));
            assert(month_batches(cursor as int, end@) == seq![(cursor as int, stop@)] + rest);
            assert(spans_of(batches@) =~= before.push((cursor as int, stop@)));
            assert(before.push((cursor as int, stop@)) + rest =~= before + (seq![
                (cursor as int, stop@),
            ] + rest));
            lemma_batch_in_one_month(cursor as int, end@);
            lemma_batch_ends_month(cursor as int, end@);
            assert forall|i: int| 0 <= i < spans_of(batches@).len() implies in_month_of(
                (#[trigger] spans_of(batches@)[i]).0,
                spans_of(batches@)[i].1,
            ) && (spans_of(batches@)[i].1 < end@ ==> ends_its_month(spans_of(batches@)[i])) by {
                if i < before.len() {
                    assert(spans_of(batches@)[i] == before[i]);
                }
            }
        }
        cursor = stop.days_from_ce() + 1;
    }
    proof {
        assert(month_batches(cursor as int, end@) =~= Seq::<Span>::empty());
        assert(spans_of(batches@) + Seq::<Span>::empty() =~= spans_of(batches@));
        lemma_month_batches_ordered(start@, end@);
        assert forall|d: int| covers(spans_of(batches@), d) <==> start@ <= d <= end@ by {
            lemma_month_batches_cover(start@, end@, d);
        }
    }
    batches
}

} // verus!
