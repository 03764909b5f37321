use vstd::prelude::*;
use crate::calendar::{
    CivilDate, iso_week, weekday_from_monday, iso_week_number, weekday_number, nth_date,
    year_length, lemma_nth_date, parse_rfc3339_date, rfc3339_date,
};

verus! {

/// Weekday rows of a year matrix.
pub const WEEKDAYS: usize = 7;

/// Week columns of a year matrix.
pub const WEEKS: usize = 53;

/// How many of `events` fall on day `d`.
pub open spec fn occurrences(events: Seq<CivilDate>, d: CivilDate) -> nat
    decreases events.len(),
{
    if events.len() == 0 {
        0
    } else {
        occurrences(events.drop_last(), d) + if events.last() == d { 1nat } else { 0nat }
    }
}

/// Some event falls in year `y`.
pub open spec fn has_year(events: Seq<CivilDate>, y: int) -> bool {
    exists|j: int| 0 <= j < events.len() && events[j].year == y
}

/// Days walked for year `y`: up to and including `today` in the current
/// year, else the 365 days from the first of January.
pub open spec fn walk_length(y: int, today: CivilDate) -> nat {
    if y == today.year { today.ordinal() as nat } else { 365 }
}

/// Zero-based column of day `d`: its ISO week number less one.
pub open spec fn week_index(d: CivilDate) -> int {
    iso_week_number(d.year as int, d.month as int, d.day as int) - 1
}

/// Row of day `d`: its weekday, Monday being 0.
pub open spec fn weekday_index(d: CivilDate) -> int {
    weekday_number(d.year as int, d.month as int, d.day as int)
}

/// Cell (`w`, `c`) after the first `k` days of year `y` were walked: the
/// count of the last walked day that lands on it, or 0.
pub open spec fn cell_after(events: Seq<CivilDate>, y: int, k: nat, w: int, c: int) -> nat
    decreases k,
{
    if k == 0 {
        0
    } else {
        let d = nth_date(y, (k - 1) as nat);
        if weekday_index(d) == w && week_index(d) == c {
            occurrences(events, d)
        } else {
            cell_after(events, y, (k - 1) as nat, w, c)
        }
    }
}

/// The greatest column among the first `k` days of year `y` (0 for none).
pub open spec fn max_week_after(y: int, k: nat) -> int
    decreases k,
{
    if k == 0 {
        0
    } else {
        let prev = max_week_after(y, (k - 1) as nat);
        let w = week_index(nth_date(y, (k - 1) as nat));
        if w > prev { w } else { prev }
    }
}

/// Day `d` has a row and a column of the grid.
pub open spec fn walked_day_in_grid(d: CivilDate) -> bool {
    0 <= weekday_index(d) < 7 && 0 <= week_index(d) < 53
}

/// The counts of one year laid out by weekday (rows) and ISO week (columns).
#[derive(Clone, Debug)]
pub struct YearMatrix {
    pub year: i32,
    /// Row-major cells: weekday `w`, week `c` is at `w * WEEKS + c`.
    pub cells: Vec<u64>,
    /// The highest column written.
    pub max_week: usize,
}

impl YearMatrix {
    /// Well formed: seven rows of 53 columns, and a column in range.
    pub open spec fn wf(&self) -> bool {
        &&& self.cells@.len() == 371
        &&& self.max_week < 53
    }

    /// This is the matrix of year `self.year` built from `events` on day `today`.
    pub open spec fn built_from(&self, events: Seq<CivilDate>, today: CivilDate) -> bool {
        let n = walk_length(self.year as int, today);
        &&& self.wf()
        &&& forall|w: int, c: int|
            0 <= w < 7 && 0 <= c < 53 ==> #[trigger] self.cells@[w * 53 + c] == cell_after(
                events,
                self.year as int,
                n,
                w,
                c,
            )
        &&& self.max_week == max_week_after(self.year as int, n)
        &&& forall|k: nat| k < n ==> walked_day_in_grid(#[trigger] nth_date(self.year as int, k))
    }

    /// The count shown for weekday `w` (Monday 0) in week column `c`.
    pub fn cell(&self, w: usize, c: usize) -> (r: u64)
        requires
            self.wf(),
            w < 7,
            c < 53,
        ensures
            r == self.cells@[w * 53 + c],
    {
        proof { lemma_cell_in_range(w as int, c as int); }
        self.cells[w * WEEKS + c]
    }
}

proof fn lemma_cell_in_range(w: int, c: int)
    requires
        0 <= w < 7,
        0 <= c < 53,
    ensures
        0 <= w * 53 + c < 371,
{
    assert(0 <= w * 53 + c < 371) by (nonlinear_arith)
        requires 0 <= w < 7, 0 <= c < 53;
}

proof fn lemma_cell_distinct(w1: int, c1: int, w2: int, c2: int)
    requires
        0 <= w1 < 7,
        0 <= c1 < 53,
        0 <= w2 < 7,
        0 <= c2 < 53,
        w1 * 53 + c1 == w2 * 53 + c2,
    ensures
        w1 == w2,
        c1 == c2,
{
    assert(w1 == w2) by (nonlinear_arith)
        requires 0 <= c1 < 53, 0 <= c2 < 53, w1 * 53 + c1 == w2 * 53 + c2;
}

/// The number of events on day `d`.
pub fn daily_count(events: &Vec<CivilDate>, d: CivilDate) -> (r: u64)
    ensures
        r == occurrences(events@, d),
{
    let mut count: u64 = 0;
    let mut i: usize = 0;
    while i < events.len()
        invariant
            i <= events.len(),
            count == occurrences(events@.subrange(0, i as int), d),
            count <= i,
        decreases events.len() - i,
    {
        proof {
            assert(events@.subrange(0, i + 1).drop_last() =~= events@.subrange(0, i as int));
        }
        if events[i] == d {
            count = count + 1;
        }
        i = i + 1;
    }
    proof { assert(events@.subrange(0, i as int) =~= events@); }
    count
}

/// Whether some event falls in year `y`.
pub fn year_present(events: &Vec<CivilDate>, y: i32) -> (r: bool)
    ensures
        r == has_year(events@, y as int),
{
    let mut i: usize = 0;
    while i < events.len()
        invariant
            i <= events.len(),
            forall|j: int| 0 <= j < i ==> events@[j].year != y,
        decreases events.len() - i,
    {
        if events[i].year == y {
            return true;
        }
        i = i + 1;
    }
    false
}

/// The matrix of year `year`: every day from the first of January up to
/// `today` (current year) or for 365 days (other years) is placed at its
/// weekday row and ISO week column and holds that day's count.
pub fn build_year_matrix(events: &Vec<CivilDate>, year: i32, today: CivilDate) -> (m: YearMatrix)
    requires
        0 <= year <= 9999,
        today.valid(),
    ensures
        m.year == year,
        m.built_from(events@, today),
{
    let n: u32 = if year == today.year { today.day_of_year() } else { 365 };
    assert(n <= year_length(year as int));
    let mut cells: Vec<u64> = Vec::new();
    while cells.len() < 371
        invariant
            cells.len() <= 371,
            forall|i: int| 0 <= i < cells.len() ==> cells@[i] == 0,
        decreases 371 - cells.len(),
    {
        cells.push(0);
    }
    let mut max_week: usize = 0;
    let mut cur = CivilDate { year, month: 1, day: 1 };
    let mut k: u32 = 0;
    while k < n
        invariant
            0 <= year <= 9999,
            k <= n,
            n == walk_length(year as int, today),
            n <= year_length(year as int),
            k < n ==> cur == nth_date(year as int, k as nat),
            cells.len() == 371,
            forall|w: int, c: int|
                0 <= w < 7 && 0 <= c < 53 ==> #[trigger] cells@[w * 53 + c] == cell_after(
                    events@,
                    year as int,
                    k as nat,
                    w,
                    c,
                ),
            max_week == max_week_after(year as int, k as nat),
            max_week < 53,
            forall|j: nat| j < k ==> walked_day_in_grid(#[trigger] nth_date(year as int, j)),
        decreases n - k,
    {
        proof { lemma_nth_date(year as int, k as nat); }
        let wd = weekday_from_monday(cur) as usize;
        let wk = (iso_week(cur) - 1) as usize;
        let cnt = daily_count(events, cur);
        proof { lemma_cell_in_range(wd as int, wk as int); }
        let ghost before = cells@;
        cells.set(wd * WEEKS + wk, cnt);
        proof {
            assert forall|w: int, c: int| 0 <= w < 7 && 0 <= c < 53 implies #[trigger] cells@[w * 53 + c]
                == cell_after(events@, year as int, (k + 1) as nat, w, c) by {
                lemma_cell_in_range(w, c);
                if w != wd || c != wk {
                    if w * 53 + c == wd * 53 + wk {
                        lemma_cell_distinct(w, c, wd as int, wk as int);
                    }
                    assert(cells@[w * 53 + c] == before[w * 53 + c]);
                }
            }
        }
        if wk > max_week {
            max_week = wk;
        }
        if k + 1 < n {
            proof { lemma_nth_date(year as int, (k + 1) as nat); }
            cur = cur.next();
        }
        k = k + 1;
    }
    YearMatrix { year, cells, max_week }
}

/// The dates that chrono reads from `texts`, in order, leaving out each text
/// that is not an RFC 3339 timestamp.
pub open spec fn parsed_dates(texts: Seq<String>) -> Seq<CivilDate>
    decreases texts.len(),
{
    if texts.len() == 0 {
        Seq::empty()
    } else {
        let before = parsed_dates(texts.drop_last());
        match rfc3339_date(texts.last()@) {
            Some(d) => before.push(d),
            None => before,
        }
    }
}

/// The commit dates of `texts`; malformed timestamps contribute nothing.
pub fn parse_commit_dates(texts: &Vec<String>) -> (r: Vec<CivilDate>)
    ensures
        r@ == parsed_dates(texts@),
        forall|i: int| 0 <= i < r.len() ==> (#[trigger] r@[i]).valid(),
{
    let mut r: Vec<CivilDate> = Vec::new();
    let mut i: usize = 0;
    while i < texts.len()
        invariant
            i <= texts.len(),
            r@ == parsed_dates(texts@.subrange(0, i as int)),
            forall|j: int| 0 <= j < r.len() ==> (#[trigger] r@[j]).valid(),
        decreases texts.len() - i,
    {
        proof {
            assert(texts@.subrange(0, i + 1).drop_last() =~= texts@.subrange(0, i as int));
        }
        match parse_rfc3339_date(texts[i].as_str()) {
            Some(d) => r.push(d),
            None => {},
        }
        i = i + 1;
    }
    proof { assert(texts@.subrange(0, i as int) =~= texts@); }
    r
}

/// The output of [`build_matrices`]: one matrix per year that holds an event,
/// years in strictly descending order.
pub open spec fn matrices_of(r: Seq<YearMatrix>, events: Seq<CivilDate>, today: CivilDate) -> bool {
    &&& forall|i: int| 0 <= i < r.len() ==> has_year(events, #[trigger] r[i].year as int)
    &&& forall|j: int|
        0 <= j < events.len() ==> exists|i: int|
            0 <= i < r.len() && #[trigger] r[i].year == (#[trigger] events[j]).year
    &&& forall|i: int, j: int| 0 <= i < j < r.len() ==> r[i].year > r[j].year
    &&& forall|i: int| 0 <= i < r.len() ==> (#[trigger] r[i]).built_from(events, today)
}

/// The matrices of every year that holds an event, newest year first.
pub fn build_matrices(events: &Vec<CivilDate>, today: CivilDate) -> (r: Vec<YearMatrix>)
    requires
        forall|i: int| 0 <= i < events.len() ==> (#[trigger] events@[i]).valid(),
        today.valid(),
    ensures
        matrices_of(r@, events@, today),
{
    let mut r: Vec<YearMatrix> = Vec::new();
    if events.len() == 0 {
        return r;
    }
    let mut lo: i32 = events[0].year;
    let mut hi: i32 = events[0].year;
    let mut i: usize = 1;
    while i < events.len()
        invariant
            1 <= i <= events.len(),
            forall|j: int| 0 <= j < events.len() ==> (#[trigger] events@[j]).valid(),
            0 <= lo <= hi <= 9999,
            forall|j: int| 0 <= j < i ==> lo <= (#[trigger] events@[j]).year <= hi,
        decreases events.len() - i,
    {
        if events[i].year < lo {
            lo = events[i].year;
        }
        if events[i].year > hi {
            hi = events[i].year;
        }
        i = i + 1;
    }
    let mut y: i32 = hi;
    while y >= lo
        invariant
            today.valid(),
            0 <= lo <= hi <= 9999,
            lo - 1 <= y <= hi,
            forall|j: int| 0 <= j < events.len() ==> lo <= (#[trigger] events@[j]).year <= hi,
            forall|i: int| 0 <= i < r.len() ==> has_year(events@, #[trigger] r@[i].year as int),
            forall|i: int| 0 <= i < r.len() ==> #[trigger] r@[i].year > y,
            forall|j: int|
                0 <= j < events.len() && (#[trigger] events@[j]).year > y ==> exists|i: int|
                    0 <= i < r.len() && #[trigger] r@[i].year == events@[j].year,
            forall|i: int, j: int| 0 <= i < j < r.len() ==> r@[i].year > r@[j].year,
            forall|i: int| 0 <= i < r.len() ==> (#[trigger] r@[i]).built_from(events@, today),
        decreases y - lo + 1,
    {
        if year_present(events, y) {
            let m = build_year_matrix(events, y, today);
            let ghost before = r@;
            r.push(m);
            proof {
                assert forall|j: int|
                    0 <= j < events.len() && (#[trigger] events@[j]).year > y - 1 implies exists|i: int|
                        0 <= i < r.len() && #[trigger] r@[i].year == events@[j].year by {
                    if events@[j].year > y {
                        let i = choose|i: int| 0 <= i < before.len() && #[trigger] before[i].year == events@[j].year;
                        assert(r@[i] == before[i]);
                    } else {
                        assert(r@[r.len() - 1].year == events@[j].year);
                    }
                }
            }
        } else {
            proof {
                assert forall|j: int|
                    0 <= j < events.len() && (#[trigger] events@[j]).year > y - 1 implies exists|i: int|
                        0 <= i < r.len() && #[trigger] r@[i].year == events@[j].year by {
                    if events@[j].year == y {
                        assert(has_year(events@, y as int));
                    }
                }
            }
        }
        y = y - 1;
    }
    r
}

proof fn lemma_last_write(events: Seq<CivilDate>, y: int, n: nat, k: nat)
    requires
        k < n,
        forall|j: nat|
            k < j < n ==> !same_cell(#[trigger] nth_date(y, j), nth_date(y, k)),
    ensures
        cell_after(events, y, n, weekday_index(nth_date(y, k)), week_index(nth_date(y, k)))
            == occurrences(events, nth_date(y, k)),
    decreases n,
{
    if n > k + 1 {
        assert(!same_cell(nth_date(y, (n - 1) as nat), nth_date(y, k)));
        lemma_last_write(events, y, (n - 1) as nat, k);
    }
}

/// Days `a` and `b` land on the same cell.
pub open spec fn same_cell(a: CivilDate, b: CivilDate) -> bool {
    weekday_index(a) == weekday_index(b) && week_index(a) == week_index(b)
}

/// The events of one day are counted together: the cell of a walked day that
/// no later day of the walk lands on holds the number of events on that day.
pub proof fn law_day_cell_counts_events(m: YearMatrix, events: Seq<CivilDate>, today: CivilDate, k: nat)
    requires
        m.built_from(events, today),
        k < walk_length(m.year as int, today),
        forall|j: nat|
            k < j < walk_length(m.year as int, today) ==> !same_cell(
                #[trigger] nth_date(m.year as int, j),
                nth_date(m.year as int, k),
            ),
    ensures
        m.cells@[weekday_index(nth_date(m.year as int, k)) * 53 + week_index(
            nth_date(m.year as int, k),
        )] == occurrences(events, nth_date(m.year as int, k)),
{
    let d = nth_date(m.year as int, k);
    assert(walked_day_in_grid(d));
    lemma_last_write(events, m.year as int, walk_length(m.year as int, today), k);
}

proof fn lemma_max_week_bounded(y: int, k: nat, b: int)
    requires
        b >= 0,
        forall|j: nat| j < k ==> week_index(#[trigger] nth_date(y, j)) <= b,
    ensures
        max_week_after(y, k) <= b,
    decreases k,
{
    if k > 0 {
        lemma_max_week_bounded(y, (k - 1) as nat, b);
    }
}

/// The highest column of a year equals the column of the last day walked,
/// whenever no earlier day of the walk lies in a later column.
pub proof fn law_max_week_is_last_day(m: YearMatrix, events: Seq<CivilDate>, today: CivilDate)
    requires
        m.built_from(events, today),
        today.valid(),
        forall|j: nat|
            j < walk_length(m.year as int, today) ==> week_index(#[trigger] nth_date(m.year as int, j))
                <= week_index(nth_date(m.year as int, (walk_length(m.year as int, today) - 1) as nat)),
    ensures
        walk_length(m.year as int, today) >= 1,
        m.max_week == week_index(nth_date(m.year as int, (walk_length(m.year as int, today) - 1) as nat)),
{
    let y = m.year as int;
    let n = walk_length(y, today);
    assert(n >= 1);
    let last = nth_date(y, (n - 1) as nat);
    assert(walked_day_in_grid(last));
    lemma_max_week_bounded(y, n, week_index(last));
}

/// The heatmap of a contributor's commit timestamps on day `today`.
pub fn heatmap_from_timestamps(texts: &Vec<String>, today: CivilDate) -> (r: Vec<YearMatrix>)
    requires
        today.valid(),
    ensures
        matrices_of(r@, parsed_dates(texts@), today),
{
    let events = parse_commit_dates(texts);
    build_matrices(&events, today)
}

} // verus!
