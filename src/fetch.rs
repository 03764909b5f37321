use vstd::prelude::*;

verus! {

/// The earliest year whose commits are asked for.
pub const FIRST_YEAR: i32 = 2000;

/// The status with which the service says that nothing was found.
pub const NOT_FOUND: u16 = 404;

/// The decimal digit `n` (below 10).
pub open spec fn digit_char(n: nat) -> char {
    seq!['0', '1', '2', '3', '4', '5', '6', '7', '8', '9'][n as int]
}

/// The decimal notation of `n`, without leading zeros.
pub open spec fn decimal_text(n: nat) -> Seq<char>
    decreases n,
{
    if n < 10 {
        seq![digit_char(n)]
    } else {
        decimal_text(n / 10).push(digit_char(n % 10))
    }
}

/// Start of the queried span of year `y`.
pub open spec fn since_text(y: nat) -> Seq<char> {
    decimal_text(y) + "-01-01T00:00:00Z"@
}

/// End of the queried span of a year `y` that is not the current one.
pub open spec fn until_text(y: nat) -> Seq<char> {
    decimal_text(y) + "-12-31T23:59:59Z"@
}

/// Relies on `format!`: the decimal notation of `year` followed by `tail`.
#[verifier::external_body]
fn year_stamp(year: i32, tail: &str) -> (r: String)
    requires
        year >= 0,
    ensures
        r@ == decimal_text(year as nat) + tail@,
{
    format!("{}{}", year, tail)
}

/// One time-bounded request: the commits of one year.
#[derive(Clone, Debug)]
pub struct YearQuery {
    pub year: i32,
    pub since: String,
    pub until: String,
}

/// What to do next while fetching a contributor's activity.
#[derive(Clone, Debug)]
pub enum FetchStep {
    /// Ask for the commits of a year and report the answer with `record`.
    Request(YearQuery),
    /// Every year was asked for; the timestamps are complete.
    Finished,
    /// A request failed with this status; the whole fetch fails.
    Failed(u16),
}

/// A status in 200..=299.
pub open spec fn is_success(status: u16) -> bool {
    200 <= status <= 299
}

/// The year-by-year fetch of one contributor's commit timestamps, from the
/// current year back to `FIRST_YEAR`.
#[derive(Clone, Debug)]
pub struct ActivityFetch {
    pub current_year: i32,
    /// The instant that bounds the current year's request.
    pub now_stamp: String,
    /// The year asked for next; below `FIRST_YEAR` once all were asked for.
    pub next_year: i32,
    /// The timestamps gathered so far.
    pub timestamps: Vec<String>,
    /// The status of the request that failed, if one did.
    pub failure: Option<u16>,
}

impl ActivityFetch {
    /// Still waiting for the answer on `next_year`.
    pub open spec fn awaiting(&self) -> bool {
        self.failure is None && self.next_year >= FIRST_YEAR
    }

    pub fn new(current_year: i32, now_stamp: String) -> (f: ActivityFetch)
        ensures
            f.current_year == current_year,
            f.now_stamp == now_stamp,
            f.next_year == current_year,
            f.timestamps@ == Seq::<String>::empty(),
            f.failure is None,
    {
        ActivityFetch { current_year, now_stamp, next_year: current_year, timestamps: Vec::new(), failure: None }
    }

    /// `r` asks for `next_year`, from its first second up to the current
    /// instant in the current year, else up to the year's last second.
    pub open spec fn requests_next(&self, r: FetchStep) -> bool {
        match r {
            FetchStep::Request(q) => {
                &&& q.year == self.next_year
                &&& q.since@ == since_text(self.next_year as nat)
                &&& if self.next_year == self.current_year {
                    q.until@ == self.now_stamp@
                } else {
                    q.until@ == until_text(self.next_year as nat)
                }
            },
            _ => false,
        }
    }

    /// The next action: the request for `next_year` (bounded by the current
    /// instant in the current year, else by the year's last second), or the end.
    pub fn step(&self) -> (r: FetchStep)
        ensures
            self.failure matches Some(c) ==> r matches FetchStep::Failed(d) && d == c,
            self.failure is None && self.next_year < FIRST_YEAR ==> r is Finished,
            self.awaiting() ==> self.requests_next(r),
    {
        match self.failure {
            Some(c) => FetchStep::Failed(c),
            None => {
                if self.next_year < FIRST_YEAR {
                    FetchStep::Finished
                } else {
                    let year = self.next_year;
                    let since = year_stamp(year, "-01-01T00:00:00Z");
                    let until = if year == self.current_year {
                        self.now_stamp.clone()
                    } else {
                        year_stamp(year, "-12-31T23:59:59Z")
                    };
                    FetchStep::Request(YearQuery { year, since, until })
                }
            },
        }
    }

    /// Takes the answer on `next_year`: a success adds its timestamps and
    /// moves to the year before, "not found" counts as an empty year, and any
    /// other status fails the fetch.
    pub fn record(&mut self, status: u16, timestamps: Vec<String>)
        requires
            old(self).awaiting(),
        ensures
            final(self).current_year == old(self).current_year,
            final(self).now_stamp == old(self).now_stamp,
            is_success(status) ==> final(self).timestamps@ == old(self).timestamps@ + timestamps@
                && final(self).next_year == old(self).next_year - 1 && final(self).failure is None,
            status == NOT_FOUND ==> final(self).timestamps@ == old(self).timestamps@
                && final(self).next_year == old(self).next_year - 1 && final(self).failure is None,
            !is_success(status) && status != NOT_FOUND ==> final(self).timestamps@ == old(
                self,
            ).timestamps@ && final(self).next_year == old(self).next_year && final(self).failure
                == Some(status),
    {
        if 200 <= status && status <= 299 {
            let mut more = timestamps;
            self.timestamps.append(&mut more);
            self.next_year = self.next_year - 1;
        } else if status == NOT_FOUND {
            self.next_year = self.next_year - 1;
        } else {
            self.failure = Some(status);
        }
    }
}

} // verus!
