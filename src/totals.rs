use vstd::prelude::*;
use crate::calendar::{CivilDate, nth_date, year_length, lemma_nth_date};
use crate::heatmap::{
    YearMatrix, occurrences, walk_length, cell_after, weekday_index, week_index, same_cell,
    walked_day_in_grid,
};

verus! {

/// Sum of a sequence of counts.
pub open spec fn seq_sum(s: Seq<u64>) -> int
    decreases s.len(),
{
    if s.len() == 0 { 0 } else { seq_sum(s.drop_last()) + s.last() }
}

spec fn int_sum(s: Seq<int>) -> int
    decreases s.len(),
{
    if s.len() == 0 { 0 } else { int_sum(s.drop_last()) + s.last() }
}

/// How many of `events` fall on one of the first `n` days of year `y`.
pub open spec fn events_in_walk(events: Seq<CivilDate>, y: int, n: nat) -> nat
    decreases events.len(),
{
    if events.len() == 0 {
        0
    } else {
        events_in_walk(events.drop_last(), y, n) + if events.last().year == y
            && events.last().ordinal() <= n { 1nat } else { 0nat }
    }
}

/// No day of the first `n` days of year `y` that a later one of them
/// overwrites in the grid holds an event.
pub open spec fn no_event_overwritten(events: Seq<CivilDate>, y: int, n: nat) -> bool {
    forall|j: nat, k: nat|
        j < k < n && same_cell(#[trigger] nth_date(y, j), #[trigger] nth_date(y, k)) ==> occurrences(
            events,
            nth_date(y, j),
        ) == 0
}

spec fn grid(events: Seq<CivilDate>, y: int, k: nat) -> Seq<int> {
    Seq::new(371, |i: int| cell_after(events, y, k, i / 53, i % 53) as int)
}

spec fn walk_total(events: Seq<CivilDate>, y: int, k: nat) -> int
    decreases k,
{
    if k == 0 {
        0
    } else {
        walk_total(events, y, (k - 1) as nat) + occurrences(events, nth_date(y, (k - 1) as nat))
    }
}

spec fn hits(e: CivilDate, y: int, k: nat) -> int
    decreases k,
{
    if k == 0 {
        0
    } else {
        hits(e, y, (k - 1) as nat) + if nth_date(y, (k - 1) as nat) == e { 1int } else { 0int }
    }
}

proof fn lemma_int_sum_update(s: Seq<int>, i: int, v: int)
    requires
        0 <= i < s.len(),
    ensures
        int_sum(s.update(i, v)) == int_sum(s) - s[i] + v,
    decreases s.len(),
{
    if i < s.len() - 1 {
        assert(s.update(i, v).drop_last() =~= s.drop_last().update(i, v));
        lemma_int_sum_update(s.drop_last(), i, v);
    } else {
        assert(s.update(i, v).drop_last() =~= s.drop_last());
    }
}

proof fn lemma_int_sum_zero(s: Seq<int>)
    requires
        forall|i: int| 0 <= i < s.len() ==> s[i] == 0,
    ensures
        int_sum(s) == 0,
    decreases s.len(),
{
    if s.len() > 0 {
        lemma_int_sum_zero(s.drop_last());
    }
}

proof fn lemma_sums_agree(a: Seq<u64>, b: Seq<int>)
    requires
        a.len() == b.len(),
        forall|i: int| 0 <= i < a.len() ==> a[i] as int == b[i],
    ensures
        seq_sum(a) == int_sum(b),
    decreases a.len(),
{
    if a.len() > 0 {
        lemma_sums_agree(a.drop_last(), b.drop_last());
    }
}

proof fn lemma_flat_index(i: int, w: int, c: int)
    requires
        0 <= w < 7,
        0 <= c < 53,
        0 <= i < 371,
    ensures
        0 <= i / 53 < 7,
        0 <= i % 53 < 53,
        (i / 53 == w && i % 53 == c) <==> i == w * 53 + c,
{
    assert(i == (i / 53) * 53 + i % 53) by (nonlinear_arith)
        requires 0 <= i;
    assert(0 <= i / 53 < 7) by (nonlinear_arith)
        requires 0 <= i < 371;
    assert(0 <= i % 53 < 53) by (nonlinear_arith)
        requires 0 <= i;
    if i == w * 53 + c {
        assert(i / 53 == w) by (nonlinear_arith)
            requires i == w * 53 + c, 0 <= c < 53, i == (i / 53) * 53 + i % 53, 0 <= i % 53 < 53;
    }
}

/// A cell holds 0 or the count of some earlier day of the walk that lands on it.
proof fn lemma_cell_source(events: Seq<CivilDate>, y: int, k: nat, w: int, c: int)
    ensures
        cell_after(events, y, k, w, c) == 0 || exists|j: nat|
            j < k && weekday_index(#[trigger] nth_date(y, j)) == w && week_index(nth_date(y, j))
                == c && cell_after(events, y, k, w, c) == occurrences(events, nth_date(y, j)),
    decreases k,
{
    if k > 0 {
        lemma_cell_source(events, y, (k - 1) as nat, w, c);
    }
}

proof fn lemma_grid_total(events: Seq<CivilDate>, y: int, n: nat, k: nat)
    requires
        0 <= y <= 9999,
        n <= year_length(y),
        k <= n,
        no_event_overwritten(events, y, n),
        forall|j: nat| j < n ==> walked_day_in_grid(#[trigger] nth_date(y, j)),
    ensures
        int_sum(grid(events, y, k)) == walk_total(events, y, k),
    decreases k,
{
    if k == 0 {
        lemma_int_sum_zero(grid(events, y, 0));
    } else {
        let p = (k - 1) as nat;
        lemma_grid_total(events, y, n, p);
        let d = nth_date(y, p);
        assert(walked_day_in_grid(d));
        let w = weekday_index(d);
        let c = week_index(d);
        let idx = w * 53 + c;
        assert(0 <= idx < 371) by (nonlinear_arith)
            requires 0 <= w < 7, 0 <= c < 53, idx == w * 53 + c;
        lemma_flat_index(idx, w, c);
        lemma_cell_source(events, y, p, w, c);
        if cell_after(events, y, p, w, c) != 0 {
            let j = choose|j: nat|
                j < p && weekday_index(#[trigger] nth_date(y, j)) == w && week_index(nth_date(y, j))
                    == c && cell_after(events, y, p, w, c) == occurrences(events, nth_date(y, j));
            assert(same_cell(nth_date(y, j), nth_date(y, p)));
        }
        assert forall|i: int| 0 <= i < 371 implies #[trigger] grid(events, y, k)[i] == grid(
            events,
            y,
            p,
        ).update(idx, occurrences(events, d) as int)[i] by {
            lemma_flat_index(i, w, c);
        }
        assert(grid(events, y, k) =~= grid(events, y, p).update(idx, occurrences(events, d) as int));
        lemma_int_sum_update(grid(events, y, p), idx, occurrences(events, d) as int);
    }
}

/// Two real dates of one year at the same position are the same date.
proof fn lemma_ordinal_injective(a: CivilDate, b: CivilDate)
    requires
        a.valid(),
        b.valid(),
        a.year == b.year,
        a.ordinal() == b.ordinal(),
    ensures
        a == b,
{
}

proof fn lemma_hits(e: CivilDate, y: int, k: nat)
    requires
        0 <= y <= 9999,
        k <= year_length(y),
        e.valid(),
    ensures
        hits(e, y, k) == if e.year == y && e.ordinal() <= k { 1int } else { 0int },
    decreases k,
{
    if k > 0 {
        let p = (k - 1) as nat;
        lemma_hits(e, y, p);
        lemma_nth_date(y, p);
        if e.year == y && e.ordinal() == k {
            lemma_ordinal_injective(e, nth_date(y, p));
        }
    }
}

proof fn lemma_walk_total_split(events: Seq<CivilDate>, y: int, k: nat)
    requires
        events.len() > 0,
    ensures
        walk_total(events, y, k) == walk_total(events.drop_last(), y, k) + hits(events.last(), y, k),
    decreases k,
{
    if k > 0 {
        lemma_walk_total_split(events, y, (k - 1) as nat);
    }
}

proof fn lemma_walk_total_empty(events: Seq<CivilDate>, y: int, k: nat)
    requires
        events.len() == 0,
    ensures
        walk_total(events, y, k) == 0,
    decreases k,
{
    if k > 0 {
        lemma_walk_total_empty(events, y, (k - 1) as nat);
    }
}

proof fn lemma_walk_total_counts(events: Seq<CivilDate>, y: int, n: nat)
    requires
        0 <= y <= 9999,
        n <= year_length(y),
        forall|i: int| 0 <= i < events.len() ==> (#[trigger] events[i]).valid(),
    ensures
        walk_total(events, y, n) == events_in_walk(events, y, n),
    decreases events.len(),
{
    if events.len() == 0 {
        lemma_walk_total_empty(events, y, n);
    } else {
        let rest = events.drop_last();
        assert forall|i: int| 0 <= i < rest.len() implies (#[trigger] rest[i]).valid() by {
            assert(rest[i] == events[i]);
        }
        lemma_walk_total_counts(rest, y, n);
        lemma_walk_total_split(events, y, n);
        assert(events[events.len() - 1].valid());
        lemma_hits(events.last(), y, n);
    }
}

/// The cells of a year add up to the number of events that fall on the days
/// walked for it, whenever no day that a later walked day overwrites in the
/// grid holds an event.
pub proof fn law_cells_sum_to_events(m: YearMatrix, events: Seq<CivilDate>, today: CivilDate)
    requires
        m.built_from(events, today),
        0 <= m.year <= 9999,
        today.valid(),
        forall|i: int| 0 <= i < events.len() ==> (#[trigger] events[i]).valid(),
        no_event_overwritten(events, m.year as int, walk_length(m.year as int, today)),
    ensures
        seq_sum(m.cells@) == events_in_walk(events, m.year as int, walk_length(m.year as int, today)),
{
    let y = m.year as int;
    let n = walk_length(y, today);
    lemma_grid_total(events, y, n, n);
    lemma_walk_total_counts(events, y, n);
    assert forall|i: int| 0 <= i < 371 implies m.cells@[i] as int == #[trigger] grid(events, y, n)[i] by {
        lemma_flat_index(i, 0, 0);
        let w = i / 53;
        let c = i % 53;
        lemma_flat_index(i, w, c);
        assert(m.cells@[w * 53 + c] == cell_after(events, y, n, w, c));
    }
    lemma_sums_agree(m.cells@, grid(events, y, n));
}

} // verus!
