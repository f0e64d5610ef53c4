//! Proleptic Gregorian calendar arithmetic on plain dates.
use vstd::prelude::*;

verus! {

/// Smallest year a date may carry (the range of `chrono::NaiveDate`).
pub const MIN_YEAR: i32 = -262143;

/// Largest year a date may carry (the range of `chrono::NaiveDate`).
pub const MAX_YEAR: i32 = 262142;

/// Seconds in a day.
pub const DAY_SECS: u32 = 86400;

/// A calendar date. Valid when `wf` holds.
#[derive(Clone, Copy, Debug, PartialEq, Eq, Structural)]
pub struct Date {
    pub year: i32,
    pub month: u32,
    pub day: u32,
}

/// A date with a time of day, in seconds since midnight, without a time zone.
#[derive(Clone, Copy, Debug, PartialEq, Eq, Structural)]
pub struct LocalDateTime {
    pub date: Date,
    pub secs: u32,
}

pub open spec fn is_leap(y: int) -> bool {
    (y % 4 == 0 && y % 100 != 0) || y % 400 == 0
}

pub open spec fn year_len(y: int) -> int {
    if is_leap(y) { 366 } else { 365 }
}

/// Number of days in month `m` of year `y`.
pub open spec fn month_len(y: int, m: int) -> int {
    if m == 2 {
        if is_leap(y) { 29 } else { 28 }
    } else if m == 4 || m == 6 || m == 9 || m == 11 {
        30
    } else {
        31
    }
}

/// Whether `(y, m, d)` names a day that exists in the supported range.
pub open spec fn valid_ymd(y: int, m: int, d: int) -> bool {
    &&& MIN_YEAR <= y <= MAX_YEAR
    &&& 1 <= m <= 12
    &&& 1 <= d <= month_len(y, m)
}

/// Days in the years before year `y` (year 1 starts at day 1).
pub open spec fn days_before_year(y: int) -> int {
    let p = y - 1;
    365 * p + p / 4 - p / 100 + p / 400
}

/// Days in the months of year `y` before month `m`.
pub open spec fn days_before_month(y: int, m: int) -> int {
    let base: int = if m <= 1 {
        0
    } else if m == 2 {
        31
    } else if m == 3 {
        59
    } else if m == 4 {
        90
    } else if m == 5 {
        120
    } else if m == 6 {
        151
    } else if m == 7 {
        181
    } else if m == 8 {
        212
    } else if m == 9 {
        243
    } else if m == 10 {
        273
    } else if m == 11 {
        304
    } else {
        334
    };
    if m > 2 && is_leap(y) { base + 1 } else { base }
}

/// Ordinal day count with 0001-01-01 as day 1.
pub open spec fn day_number_ymd(y: int, m: int, d: int) -> int {
    days_before_year(y) + days_before_month(y, m) + d
}

impl Date {
    pub open spec fn wf(self) -> bool {
        valid_ymd(self.year as int, self.month as int, self.day as int)
    }

    pub open spec fn day_number(self) -> int {
        day_number_ymd(self.year as int, self.month as int, self.day as int)
    }

    /// Calendar order: by year, then month, then day.
    pub open spec fn lt(self, other: Date) -> bool {
        ||| self.year < other.year
        ||| self.year == other.year && self.month < other.month
        ||| self.year == other.year && self.month == other.month && self.day < other.day
    }

    pub open spec fn le(self, other: Date) -> bool {
        self.lt(other) || self == other
    }

    /// Whether the day after `self` is still in the supported range: every day but the
    /// last day of `MAX_YEAR`.
    pub open spec fn has_next(self) -> bool {
        self.year < MAX_YEAR || self.month < 12 || self.day < 31
    }

    /// The day after `self`.
    pub open spec fn next_spec(self) -> Date {
        if (self.day as int) < month_len(self.year as int, self.month as int) {
            Date { year: self.year, month: self.month, day: (self.day + 1) as u32 }
        } else if self.month < 12 {
            Date { year: self.year, month: (self.month + 1) as u32, day: 1 }
        } else {
            Date { year: (self.year + 1) as i32, month: 1, day: 1 }
        }
    }

    /// The day before `self`.
    pub open spec fn prev_spec(self) -> Date {
        if self.day > 1 {
            Date { year: self.year, month: self.month, day: (self.day - 1) as u32 }
        } else if self.month > 1 {
            Date {
                year: self.year,
                month: (self.month - 1) as u32,
                day: month_len(self.year as int, self.month - 1) as u32,
            }
        } else {
            Date { year: (self.year - 1) as i32, month: 12, day: 31 }
        }
    }
}

impl LocalDateTime {
    pub open spec fn wf(self) -> bool {
        self.date.wf() && self.secs < DAY_SECS
    }

    /// Seconds since 0001-01-01T00:00:00 minus one day, a strictly increasing measure.
    pub open spec fn ordinal_secs(self) -> int {
        self.date.day_number() * 86400 + self.secs
    }

    pub open spec fn lt(self, other: LocalDateTime) -> bool {
        self.date.lt(other.date) || (self.date == other.date && self.secs < other.secs)
    }
}

/// One year holds 365 days, or 366 in a leap year.
pub proof fn lemma_year_step(y: int)
    ensures
        days_before_year(y + 1) == days_before_year(y) + year_len(y),
{
    let p = y - 1;
    assert((p + 1) / 4 == p / 4 + (if (p + 1) % 4 == 0 { 1int } else { 0 }));
    assert((p + 1) / 100 == p / 100 + (if (p + 1) % 100 == 0 { 1int } else { 0 }));
    assert((p + 1) / 400 == p / 400 + (if (p + 1) % 400 == 0 { 1int } else { 0 }));
}

/// Later years start later.
pub proof fn lemma_year_mono(y1: int, y2: int)
    requires
        y1 <= y2,
    ensures
        days_before_year(y1) + 365 * (y2 - y1) <= days_before_year(y2),
    decreases y2 - y1,
{
    if y1 < y2 {
        lemma_year_step(y2 - 1);
        lemma_year_mono(y1, y2 - 1);
    }
}

/// A month starts right after the previous one ends.
pub proof fn lemma_month_step(y: int, m: int)
    requires
        1 <= m < 12,
    ensures
        days_before_month(y, m + 1) == days_before_month(y, m) + month_len(y, m),
{
}

/// The months of a year fill it exactly.
pub proof fn lemma_months_fill_year(y: int)
    ensures
        days_before_month(y, 12) + month_len(y, 12) == year_len(y),
{
}

/// Later months of one year start later.
pub proof fn lemma_month_mono(y: int, m1: int, m2: int)
    requires
        1 <= m1 < m2 <= 12,
    ensures
        days_before_month(y, m1) + month_len(y, m1) <= days_before_month(y, m2),
    decreases m2 - m1,
{
    lemma_month_step(y, m1);
    if m1 + 1 < m2 {
        lemma_month_mono(y, m1 + 1, m2);
        lemma_month_step(y, m1 + 1);
    }
}

/// Calendar order and day numbers agree.
pub proof fn lemma_day_number_order(a: Date, b: Date)
    requires
        a.wf(),
        b.wf(),
    ensures
        a.lt(b) <==> a.day_number() < b.day_number(),
        a == b <==> a.day_number() == b.day_number(),
{
    if a.lt(b) {
        lemma_day_number_lt(a, b);
    } else if b.lt(a) {
        lemma_day_number_lt(b, a);
    }
}

proof fn lemma_day_number_lt(a: Date, b: Date)
    requires
        a.wf(),
        b.wf(),
        a.lt(b),
    ensures
        a.day_number() < b.day_number(),
{
    let (ay, am, ad) = (a.year as int, a.month as int, a.day as int);
    let (by, bm, bd) = (b.year as int, b.month as int, b.day as int);
    if ay < by {
        if am < 12 {
            lemma_month_mono(ay, am, 12);
        }
        lemma_months_fill_year(ay);
        lemma_year_step(ay);
        lemma_year_mono(ay + 1, by);
    } else if am < bm {
        lemma_month_mono(ay, am, bm);
    }
}

/// The day after a date has the next day number.
pub proof fn lemma_next_day_number(d: Date)
    requires
        d.wf(),
        d.has_next(),
    ensures
        d.next_spec().wf(),
        d.next_spec().day_number() == d.day_number() + 1,
        d.lt(d.next_spec()),
{
    let (y, m) = (d.year as int, d.month as int);
    if (d.day as int) < month_len(y, m) {
    } else if m < 12 {
        lemma_month_step(y, m);
    } else {
        lemma_months_fill_year(y);
        lemma_year_step(y);
    }
}

/// The day before a date has the previous day number.
pub proof fn lemma_prev_day_number(d: Date)
    requires
        d.wf(),
        d.year > MIN_YEAR || d.month > 1 || d.day > 1,
    ensures
        d.prev_spec().wf(),
        d.prev_spec().day_number() + 1 == d.day_number(),
        d.prev_spec().lt(d),
        d.prev_spec().next_spec() == d,
{
    let (y, m) = (d.year as int, d.month as int);
    if d.day > 1 {
    } else if m > 1 {
        lemma_month_step(y, m - 1);
    } else {
        lemma_months_fill_year(y - 1);
        lemma_year_step(y - 1);
    }
}

/// Whether `y` is a leap year.
pub fn leap_year(y: i32) -> (r: bool)
    ensures
        r == is_leap(y as int),
{
    (y % 4 == 0 && y % 100 != 0) || y % 400 == 0
}

/// Days in month `m` of year `y`.
pub fn days_in_month(y: i32, m: u32) -> (r: u32)
    requires
        1 <= m <= 12,
    ensures
        r as int == month_len(y as int, m as int),
        28 <= r <= 31,
{
    if m == 2 {
        if leap_year(y) {
            29
        } else {
            28
        }
    } else if m == 4 || m == 6 || m == 9 || m == 11 {
        30
    } else {
        31
    }
}

/// Whether `(y, m, d)` is an existing date in the supported range.
pub fn is_valid_ymd(y: i32, m: u32, d: u32) -> (r: bool)
    ensures
        r == valid_ymd(y as int, m as int, d as int),
{
    MIN_YEAR <= y && y <= MAX_YEAR && 1 <= m && m <= 12 && 1 <= d && d <= days_in_month(y, m)
}

/// The date `(y, m, d)` if it exists.
pub fn date_from_ymd(y: i32, m: u32, d: u32) -> (r: Option<Date>)
    ensures
        r is Some <==> valid_ymd(y as int, m as int, d as int),
        r matches Some(dt) ==> dt == (Date { year: y, month: m, day: d }),
{
    if is_valid_ymd(y, m, d) {
        Some(Date { year: y, month: m, day: d })
    } else {
        None
    }
}

fn days_before_month_exec(y: i32, m: u32) -> (r: i64)
    requires
        1 <= m <= 12,
    ensures
        r as int == days_before_month(y as int, m as int),
{
    let base: i64 = if m == 1 {
        0
    } else if m == 2 {
        31
    } else if m == 3 {
        59
    } else if m == 4 {
        90
    } else if m == 5 {
        120
    } else if m == 6 {
        151
    } else if m == 7 {
        181
    } else if m == 8 {
        212
    } else if m == 9 {
        243
    } else if m == 10 {
        273
    } else if m == 11 {
        304
    } else {
        334
    };
    if m > 2 && leap_year(y) {
        base + 1
    } else {
        base
    }
}

proof fn lemma_dby_shift(y: int)
    requires
        y > -400000,
    ensures
        ({
            let q = y - 1 + 400000;
            365 * q + q / 4 - q / 100 + q / 400 - 146097000 == days_before_year(y)
        }),
{
    let p = y - 1;
    let q = p + 400000;
    assert(q / 4 == p / 4 + 100000);
    assert(q / 100 == p / 100 + 4000);
    assert(q / 400 == p / 400 + 1000);
}

/// Ordinal of a date, 0001-01-01 being day 1 (as `num_days_from_ce`).
pub fn day_number(d: Date) -> (r: i64)
    requires
        d.wf(),
    ensures
        r as int == d.day_number(),
{
    proof {
        lemma_dby_shift(d.year as int);
    }
    let q: i64 = d.year as i64 - 1 + 400000;
    let dby: i64 = 365 * q + q / 4 - q / 100 + q / 400 - 146097000;
    dby + days_before_month_exec(d.year, d.month) + d.day as i64
}

/// Whether `a` comes before `b` in the calendar.
pub fn date_lt(a: Date, b: Date) -> (r: bool)
    ensures
        r == a.lt(b),
{
    a.year < b.year || (a.year == b.year && (a.month < b.month || (a.month == b.month && a.day
        < b.day)))
}

/// The day before `d`.
pub fn prev_day(d: Date) -> (r: Date)
    requires
        d.wf(),
        d.year > MIN_YEAR || d.month > 1 || d.day > 1,
    ensures
        r == d.prev_spec(),
        r.wf(),
        r.day_number() + 1 == d.day_number(),
{
    proof {
        lemma_prev_day_number(d);
    }
    if d.day > 1 {
        Date { year: d.year, month: d.month, day: d.day - 1 }
    } else if d.month > 1 {
        Date { year: d.year, month: d.month - 1, day: days_in_month(d.year, d.month - 1) }
    } else {
        Date { year: d.year - 1, month: 12, day: 31 }
    }
}

/// The day after `d`.
pub fn next_day(d: Date) -> (r: Date)
    requires
        d.wf(),
        d.has_next(),
    ensures
        r == d.next_spec(),
        r.wf(),
        r.day_number() == d.day_number() + 1,
{
    proof {
        lemma_next_day_number(d);
    }
    if d.day < days_in_month(d.year, d.month) {
        Date { year: d.year, month: d.month, day: d.day + 1 }
    } else if d.month < 12 {
        Date { year: d.year, month: d.month + 1, day: 1 }
    } else {
        Date { year: d.year + 1, month: 1, day: 1 }
    }
}

/// Whole days from `a` to `b` (negative when `b` is earlier).
pub fn days_between(a: Date, b: Date) -> (r: i64)
    requires
        a.wf(),
        b.wf(),
    ensures
        r as int == b.day_number() - a.day_number(),
{
    proof {
        lemma_day_number_bounds(a);
        lemma_day_number_bounds(b);
    }
    day_number(b) - day_number(a)
}

/// Day numbers of supported dates stay far inside `i64`.
pub proof fn lemma_day_number_bounds(d: Date)
    requires
        d.wf(),
    ensures
        -100_000_000 < d.day_number() < 100_000_000,
{
    lemma_dby_shift(d.year as int);
}

} // verus!
