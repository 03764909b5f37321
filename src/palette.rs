use vstd::prelude::*;
use crate::heatmap::YearMatrix;

verus! {

/// The six intensity levels of the heatmap, lightest first.
#[derive(Clone, Copy, Debug, PartialEq, Eq, Structural)]
pub enum Bucket {
    Empty,
    One,
    Low,
    Mid,
    High,
    Max,
}

/// The level of a cell with `count` commits: 0, 1, 2-3, 4-6, 7-9, 10 and more.
pub open spec fn bucket_of(count: int) -> Bucket {
    if count <= 0 {
        Bucket::Empty
    } else if count == 1 {
        Bucket::One
    } else if count <= 3 {
        Bucket::Low
    } else if count <= 6 {
        Bucket::Mid
    } else if count <= 9 {
        Bucket::High
    } else {
        Bucket::Max
    }
}

/// The ordered table of (inclusive upper bound, level); counts above the last
/// bound are `Max`.
pub fn bucket_table() -> (t: Vec<(u64, Bucket)>)
    ensures
        t@ == seq![
            (0u64, Bucket::Empty),
            (1u64, Bucket::One),
            (3u64, Bucket::Low),
            (6u64, Bucket::Mid),
            (9u64, Bucket::High),
        ],
{
    let t: Vec<(u64, Bucket)> = vec![
        (0, Bucket::Empty),
        (1, Bucket::One),
        (3, Bucket::Low),
        (6, Bucket::Mid),
        (9, Bucket::High),
    ];
    proof {
        assert(t@ =~= seq![
            (0u64, Bucket::Empty),
            (1u64, Bucket::One),
            (3u64, Bucket::Low),
            (6u64, Bucket::Mid),
            (9u64, Bucket::High),
        ]);
    }
    t
}

/// The level of a cell with `count` commits: the first row of the table whose
/// bound is not below `count`.
pub fn color_bucket(count: u64) -> (b: Bucket)
    ensures
        b == bucket_of(count as int),
{
    let table = bucket_table();
    let mut i: usize = 0;
    while i < table.len()
        invariant
            table@ == seq![
                (0u64, Bucket::Empty),
                (1u64, Bucket::One),
                (3u64, Bucket::Low),
                (6u64, Bucket::Mid),
                (9u64, Bucket::High),
            ],
            i <= 5,
            forall|j: int| 0 <= j < i ==> table@[j].0 < count,
        decreases table.len() - i,
    {
        if count <= table[i].0 {
            assert(i == 0 || table@[i - 1].0 < count);
            return table[i].1;
        }
        i = i + 1;
    }
    assert(table@[4].0 < count);
    Bucket::Max
}

/// The colour of a level, as red, green and blue.
pub fn bucket_rgb(b: Bucket) -> (rgb: (u8, u8, u8))
    ensures
        b == Bucket::Empty ==> rgb == (250u8, 250u8, 210u8),
        b == Bucket::One ==> rgb == (152u8, 251u8, 152u8),
        b == Bucket::Low ==> rgb == (127u8, 255u8, 0u8),
        b == Bucket::Mid ==> rgb == (0u8, 255u8, 0u8),
        b == Bucket::High ==> rgb == (50u8, 205u8, 50u8),
        b == Bucket::Max ==> rgb == (34u8, 139u8, 34u8),
{
    match b {
        Bucket::Empty => (250, 250, 210),
        Bucket::One => (152, 251, 152),
        Bucket::Low => (127, 255, 0),
        Bucket::Mid => (0, 255, 0),
        Bucket::High => (50, 205, 50),
        Bucket::Max => (34, 139, 34),
    }
}

/// The legend text of a level.
pub fn bucket_label(b: Bucket) -> (s: &'static str)
    ensures
        b == Bucket::Empty ==> s@ == "No contributions"@,
        b == Bucket::One ==> s@ == "1 contribution"@,
        b == Bucket::Low ==> s@ == "2-3 contributions"@,
        b == Bucket::Mid ==> s@ == "4-6 contributions"@,
        b == Bucket::High ==> s@ == "7-9 contributions"@,
        b == Bucket::Max ==> s@ == "10+ contributions"@,
{
    match b {
        Bucket::Empty => "No contributions",
        Bucket::One => "1 contribution",
        Bucket::Low => "2-3 contributions",
        Bucket::Mid => "4-6 contributions",
        Bucket::High => "7-9 contributions",
        Bucket::Max => "10+ contributions",
    }
}

/// The levels in legend order, lightest first.
pub fn legend() -> (l: Vec<Bucket>)
    ensures
        l@ == seq![Bucket::Empty, Bucket::One, Bucket::Low, Bucket::Mid, Bucket::High, Bucket::Max],
{
    let l = vec![Bucket::Empty, Bucket::One, Bucket::Low, Bucket::Mid, Bucket::High, Bucket::Max];
    assert(l@ =~= seq![Bucket::Empty, Bucket::One, Bucket::Low, Bucket::Mid, Bucket::High, Bucket::Max]);
    l
}

impl YearMatrix {
    /// The levels of weekday row `w`, for the columns 0 through `max_week`.
    pub fn row_buckets(&self, w: usize) -> (r: Vec<Bucket>)
        requires
            self.wf(),
            w < 7,
        ensures
            r.len() == self.max_week + 1,
            forall|c: int|
                0 <= c <= self.max_week ==> #[trigger] r@[c] == bucket_of(
                    self.cells@[w * 53 + c] as int,
                ),
    {
        let mut r: Vec<Bucket> = Vec::new();
        let mut c: usize = 0;
        while c <= self.max_week
            invariant
                self.wf(),
                w < 7,
                c <= self.max_week + 1,
                r.len() == c,
                forall|j: int|
                    0 <= j < c ==> #[trigger] r@[j] == bucket_of(self.cells@[w * 53 + j] as int),
            decreases self.max_week + 1 - c,
        {
            let b = color_bucket(self.cell(w, c));
            r.push(b);
            c = c + 1;
        }
        r
    }
}

} // verus!
