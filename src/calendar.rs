use vstd::prelude::*;
use chrono::Datelike;

verus! {

/// A day of the proleptic Gregorian calendar.
#[derive(Clone, Copy, Debug, PartialEq, Eq, Structural)]
pub struct CivilDate {
    pub year: i32,
    pub month: u32,
    pub day: u32,
}

pub open spec fn is_leap_year(y: int) -> bool {
    (y % 4 == 0 && y % 100 != 0) || y % 400 == 0
}

pub open spec fn month_length(y: int, m: int) -> int {
    if m == 2 {
        if is_leap_year(y) { 29 } else { 28 }
    } else if m == 4 || m == 6 || m == 9 || m == 11 {
        30
    } else {
        31
    }
}

pub open spec fn year_length(y: int) -> int {
    if is_leap_year(y) { 366 } else { 365 }
}

/// Days of the year that lie before the first day of month `m`.
pub open spec fn days_before_month(y: int, m: int) -> int {
    let leap: int = if is_leap_year(y) { 1 } else { 0 };
    if m <= 1 { 0 }
    else if m == 2 { 31 }
    else if m == 3 { 59 + leap }
    else if m == 4 { 90 + leap }
    else if m == 5 { 120 + leap }
    else if m == 6 { 151 + leap }
    else if m == 7 { 181 + leap }
    else if m == 8 { 212 + leap }
    else if m == 9 { 243 + leap }
    else if m == 10 { 273 + leap }
    else if m == 11 { 304 + leap }
    else { 334 + leap }
}

impl CivilDate {
    /// A real date with a four-digit year.
    pub open spec fn valid(self) -> bool {
        &&& 0 <= self.year <= 9999
        &&& 1 <= self.month <= 12
        &&& 1 <= self.day <= month_length(self.year as int, self.month as int)
    }

    /// One-based position of the date within its year.
    pub open spec fn ordinal(self) -> int {
        days_before_month(self.year as int, self.month as int) + self.day
    }
}

/// The day after `d`.
pub open spec fn next_date(d: CivilDate) -> CivilDate {
    if (d.day as int) < month_length(d.year as int, d.month as int) {
        CivilDate { year: d.year, month: d.month, day: (d.day + 1) as u32 }
    } else if d.month < 12 {
        CivilDate { year: d.year, month: (d.month + 1) as u32, day: 1 }
    } else {
        CivilDate { year: (d.year + 1) as i32, month: 1, day: 1 }
    }
}

/// The date `k` days after the first of January of year `y`.
pub open spec fn nth_date(y: int, k: nat) -> CivilDate
    decreases k,
{
    if k == 0 {
        CivilDate { year: y as i32, month: 1, day: 1 }
    } else {
        next_date(nth_date(y, (k - 1) as nat))
    }
}

proof fn lemma_month_steps(y: int, m: int)
    requires
        1 <= m < 12,
    ensures
        days_before_month(y, m + 1) == days_before_month(y, m) + month_length(y, m),
        days_before_month(y, 12) + month_length(y, 12) == year_length(y),
{
}

/// The walk from the first of January stays in the year and counts its days.
pub proof fn lemma_nth_date(y: int, k: nat)
    requires
        0 <= y <= 9999,
        k < year_length(y),
    ensures
        nth_date(y, k).valid(),
        nth_date(y, k).year == y,
        nth_date(y, k).ordinal() == k + 1,
    decreases k,
{
    if k > 0 {
        lemma_nth_date(y, (k - 1) as nat);
        let d = nth_date(y, (k - 1) as nat);
        if d.month < 12 {
            lemma_month_steps(y, d.month as int);
        } else {
            lemma_month_steps(y, 11);
        }
    }
}

pub fn is_leap(y: i32) -> (r: bool)
    ensures
        r == is_leap_year(y as int),
{
    (y % 4 == 0 && y % 100 != 0) || y % 400 == 0
}

pub fn days_in_month(y: i32, m: u32) -> (r: u32)
    ensures
        r == month_length(y as int, m as int),
{
    if m == 2 {
        if is_leap(y) { 29 } else { 28 }
    } else if m == 4 || m == 6 || m == 9 || m == 11 {
        30
    } else {
        31
    }
}

impl CivilDate {
    /// One-based position of the date within its year.
    pub fn day_of_year(&self) -> (r: u32)
        requires
            self.valid(),
        ensures
            r == self.ordinal(),
    {
        let leap: u32 = if is_leap(self.year) { 1 } else { 0 };
        let before: u32 = if self.month <= 1 { 0 }
            else if self.month == 2 { 31 }
            else if self.month == 3 { 59 + leap }
            else if self.month == 4 { 90 + leap }
            else if self.month == 5 { 120 + leap }
            else if self.month == 6 { 151 + leap }
            else if self.month == 7 { 181 + leap }
            else if self.month == 8 { 212 + leap }
            else if self.month == 9 { 243 + leap }
            else if self.month == 10 { 273 + leap }
            else if self.month == 11 { 304 + leap }
            else { 334 + leap };
        before + self.day
    }

    /// The following day.
    pub fn next(&self) -> (r: CivilDate)
        requires
            self.valid(),
            self.year < 9999 || self.month < 12 || self.day < 31,
        ensures
            r == next_date(*self),
    {
        if self.day < days_in_month(self.year, self.month) {
            CivilDate { year: self.year, month: self.month, day: self.day + 1 }
        } else if self.month < 12 {
            CivilDate { year: self.year, month: self.month + 1, day: 1 }
        } else {
            CivilDate { year: self.year + 1, month: 1, day: 1 }
        }
    }
}

/// The calendar date that chrono reads from an RFC 3339 timestamp, in the
/// timestamp's own offset.
pub uninterp spec fn rfc3339_date(s: Seq<char>) -> Option<CivilDate>;

/// The ISO 8601 week number of a date.
pub uninterp spec fn iso_week_number(year: int, month: int, day: int) -> int;

/// The weekday of a date, Monday being 0.
pub uninterp spec fn weekday_number(year: int, month: int, day: int) -> int;

/// Relies on chrono's `DateTime::parse_from_rfc3339`: `None` when the text is
/// not an RFC 3339 timestamp, else the local calendar date written in it
/// (a real date, its year written with four digits).
#[verifier::external_body]
pub(crate) fn parse_rfc3339_date(s: &str) -> (r: Option<CivilDate>)
    ensures
        r == rfc3339_date(s@),
        r matches Some(d) ==> d.valid(),
{
    match chrono::DateTime::parse_from_rfc3339(s) {
        Ok(t) => Some(CivilDate { year: t.year(), month: t.month(), day: t.day() }),
        Err(_) => None,
    }
}

/// Relies on chrono's `NaiveDate::iso_week` and `IsoWeek::week`: the ISO week
/// number, from 1 to 53.
#[verifier::external_body]
pub(crate) fn iso_week(d: CivilDate) -> (r: u32)
    requires
        d.valid(),
    ensures
        r == iso_week_number(d.year as int, d.month as int, d.day as int),
        1 <= r <= 53,
{
    chrono::NaiveDate::from_ymd_opt(d.year, d.month, d.day).unwrap().iso_week().week()
}

/// Relies on chrono's `Weekday::num_days_from_monday`: Monday is 0, Sunday 6.
#[verifier::external_body]
pub(crate) fn weekday_from_monday(d: CivilDate) -> (r: u32)
    requires
        d.valid(),
    ensures
        r == weekday_number(d.year as int, d.month as int, d.day as int),
        r <= 6,
{
    chrono::NaiveDate::from_ymd_opt(d.year, d.month, d.day).unwrap().weekday().num_days_from_monday()
}

} // verus!
