//! Ages: calendar breakdowns, exact elapsed time, zodiac signs and birthdays.
use vstd::prelude::*;

use crate::calendar::{
    Date, LocalDateTime, MAX_YEAR, MIN_YEAR, date_from_ymd, date_lt, days_between,
    day_number_ymd, days_in_month, month_len, prev_day, valid_ymd,
};
use crate::model::Person;
use crate::zone::{
    instant_in_range, instant_of, instant_to_local, local_to_instant, naive_as_utc, tz_local_time,
};

verus! {

/// An age as years, months and days, plus hours, minutes and seconds when the
/// birth time is known.
#[derive(Clone, Copy, Debug, PartialEq, Eq, Structural)]
pub struct AgeBreakdown {
    pub years: u32,
    pub months: u32,
    pub days: u32,
    pub hours: Option<u32>,
    pub minutes: Option<u32>,
    pub seconds: Option<u32>,
}

/// The twelve signs of the tropical zodiac.
#[derive(Clone, Copy, Debug, PartialEq, Eq, Structural)]
pub enum Zodiac {
    Aries,
    Taurus,
    Gemini,
    Cancer,
    Leo,
    Virgo,
    Libra,
    Scorpio,
    Sagittarius,
    Capricorn,
    Aquarius,
    Pisces,
}

impl Zodiac {
    pub open spec fn symbol_spec(self) -> Seq<char> {
        match self {
            Zodiac::Aries => "♈"@,
            Zodiac::Taurus => "♉"@,
            Zodiac::Gemini => "♊"@,
            Zodiac::Cancer => "♋"@,
            Zodiac::Leo => "♌"@,
            Zodiac::Virgo => "♍"@,
            Zodiac::Libra => "♎"@,
            Zodiac::Scorpio => "♏"@,
            Zodiac::Sagittarius => "♐"@,
            Zodiac::Capricorn => "♑"@,
            Zodiac::Aquarius => "♒"@,
            Zodiac::Pisces => "♓"@,
        }
    }

    pub open spec fn key_spec(self) -> Seq<char> {
        match self {
            Zodiac::Aries => "aries"@,
            Zodiac::Taurus => "taurus"@,
            Zodiac::Gemini => "gemini"@,
            Zodiac::Cancer => "cancer"@,
            Zodiac::Leo => "leo"@,
            Zodiac::Virgo => "virgo"@,
            Zodiac::Libra => "libra"@,
            Zodiac::Scorpio => "scorpio"@,
            Zodiac::Sagittarius => "sagittarius"@,
            Zodiac::Capricorn => "capricorn"@,
            Zodiac::Aquarius => "aquarius"@,
            Zodiac::Pisces => "pisces"@,
        }
    }

    /// The sign's glyph, U+2648 to U+2653.
    pub fn symbol(self) -> (r: &'static str)
        ensures
            r@ == self.symbol_spec(),
    {
        match self {
            Zodiac::Aries => "♈",
            Zodiac::Taurus => "♉",
            Zodiac::Gemini => "♊",
            Zodiac::Cancer => "♋",
            Zodiac::Leo => "♌",
            Zodiac::Virgo => "♍",
            Zodiac::Libra => "♎",
            Zodiac::Scorpio => "♏",
            Zodiac::Sagittarius => "♐",
            Zodiac::Capricorn => "♑",
            Zodiac::Aquarius => "♒",
            Zodiac::Pisces => "♓",
        }
    }

    /// The sign's lower-case English name, used as a stable key.
    pub fn key(self) -> (r: &'static str)
        ensures
            r@ == self.key_spec(),
    {
        match self {
            Zodiac::Aries => "aries",
            Zodiac::Taurus => "taurus",
            Zodiac::Gemini => "gemini",
            Zodiac::Cancer => "cancer",
            Zodiac::Leo => "leo",
            Zodiac::Virgo => "virgo",
            Zodiac::Libra => "libra",
            Zodiac::Scorpio => "scorpio",
            Zodiac::Sagittarius => "sagittarius",
            Zodiac::Capricorn => "capricorn",
            Zodiac::Aquarius => "aquarius",
            Zodiac::Pisces => "pisces",
        }
    }
}

/// The sign of the day `(m, d)`: each sign starts on its first day below and runs
/// until the next one starts.
pub open spec fn zodiac_of(m: int, d: int) -> Zodiac {
    if (m == 3 && d >= 21) || (m == 4 && d <= 19) {
        Zodiac::Aries
    } else if m == 4 || (m == 5 && d <= 20) {
        Zodiac::Taurus
    } else if m == 5 || (m == 6 && d <= 20) {
        Zodiac::Gemini
    } else if m == 6 || (m == 7 && d <= 22) {
        Zodiac::Cancer
    } else if m == 7 || (m == 8 && d <= 22) {
        Zodiac::Leo
    } else if m == 8 || (m == 9 && d <= 22) {
        Zodiac::Virgo
    } else if m == 9 || (m == 10 && d <= 22) {
        Zodiac::Libra
    } else if m == 10 || (m == 11 && d <= 21) {
        Zodiac::Scorpio
    } else if m == 11 || (m == 12 && d <= 21) {
        Zodiac::Sagittarius
    } else if m == 12 || (m == 1 && d <= 19) {
        Zodiac::Capricorn
    } else if m == 1 || (m == 2 && d <= 18) {
        Zodiac::Aquarius
    } else {
        Zodiac::Pisces
    }
}

/// The zodiac sign of a birth date.
pub fn zodiac(date: Date) -> (z: Zodiac)
    ensures
        z == zodiac_of(date.month as int, date.day as int),
        (date.month == 3 && date.day >= 21) || (date.month == 4 && date.day <= 19) ==> z == Zodiac::Aries,
        (date.month == 4 && date.day >= 20) || (date.month == 5 && date.day <= 20) ==> z == Zodiac::Taurus,
        (date.month == 5 && date.day >= 21) || (date.month == 6 && date.day <= 20) ==> z == Zodiac::Gemini,
        (date.month == 6 && date.day >= 21) || (date.month == 7 && date.day <= 22) ==> z == Zodiac::Cancer,
        (date.month == 7 && date.day >= 23) || (date.month == 8 && date.day <= 22) ==> z == Zodiac::Leo,
        (date.month == 8 && date.day >= 23) || (date.month == 9 && date.day <= 22) ==> z == Zodiac::Virgo,
        (date.month == 9 && date.day >= 23) || (date.month == 10 && date.day <= 22) ==> z == Zodiac::Libra,
        (date.month == 10 && date.day >= 23) || (date.month == 11 && date.day <= 21) ==> z == Zodiac::Scorpio,
        (date.month == 11 && date.day >= 22) || (date.month == 12 && date.day <= 21) ==> z == Zodiac::Sagittarius,
        (date.month == 12 && date.day >= 22) || (date.month == 1 && date.day <= 19) ==> z == Zodiac::Capricorn,
        (date.month == 1 && date.day >= 20) || (date.month == 2 && date.day <= 18) ==> z == Zodiac::Aquarius,
        (date.month == 2 && date.day >= 19) || (date.month == 3 && date.day <= 20) ==> z == Zodiac::Pisces,
{
    let (m, d) = (date.month, date.day);
    if (m == 3 && d >= 21) || (m == 4 && d <= 19) {
        Zodiac::Aries
    } else if m == 4 || (m == 5 && d <= 20) {
        Zodiac::Taurus
    } else if m == 5 || (m == 6 && d <= 20) {
        Zodiac::Gemini
    } else if m == 6 || (m == 7 && d <= 22) {
        Zodiac::Cancer
    } else if m == 7 || (m == 8 && d <= 22) {
        Zodiac::Leo
    } else if m == 8 || (m == 9 && d <= 22) {
        Zodiac::Virgo
    } else if m == 9 || (m == 10 && d <= 22) {
        Zodiac::Libra
    } else if m == 10 || (m == 11 && d <= 21) {
        Zodiac::Scorpio
    } else if m == 11 || (m == 12 && d <= 21) {
        Zodiac::Sagittarius
    } else if m == 12 || (m == 1 && d <= 19) {
        Zodiac::Capricorn
    } else if m == 1 || (m == 2 && d <= 18) {
        Zodiac::Aquarius
    } else {
        Zodiac::Pisces
    }
}

/// The signs' calendar ranges: 21 March to 19 April is Aries, 20 April to 20 May
/// Taurus, 21 May to 20 June Gemini, 21 June to 22 July Cancer, 23 July to 22 August
/// Leo, 23 August to 22 September Virgo, 23 September to 22 October Libra, 23 October
/// to 21 November Scorpio, 22 November to 21 December Sagittarius, 22 December to 19
/// January Capricorn, 20 January to 18 February Aquarius, 19 February to 20 March Pisces.
pub proof fn lemma_zodiac_ranges(m: int, d: int)
    requires
        1 <= m <= 12,
        1 <= d <= 31,
    ensures
        (m == 3 && d >= 21) || (m == 4 && d <= 19) ==> zodiac_of(m, d) == Zodiac::Aries,
        (m == 4 && d >= 20) || (m == 5 && d <= 20) ==> zodiac_of(m, d) == Zodiac::Taurus,
        (m == 5 && d >= 21) || (m == 6 && d <= 20) ==> zodiac_of(m, d) == Zodiac::Gemini,
        (m == 6 && d >= 21) || (m == 7 && d <= 22) ==> zodiac_of(m, d) == Zodiac::Cancer,
        (m == 7 && d >= 23) || (m == 8 && d <= 22) ==> zodiac_of(m, d) == Zodiac::Leo,
        (m == 8 && d >= 23) || (m == 9 && d <= 22) ==> zodiac_of(m, d) == Zodiac::Virgo,
        (m == 9 && d >= 23) || (m == 10 && d <= 22) ==> zodiac_of(m, d) == Zodiac::Libra,
        (m == 10 && d >= 23) || (m == 11 && d <= 21) ==> zodiac_of(m, d) == Zodiac::Scorpio,
        (m == 11 && d >= 22) || (m == 12 && d <= 21) ==> zodiac_of(m, d) == Zodiac::Sagittarius,
        (m == 12 && d >= 22) || (m == 1 && d <= 19) ==> zodiac_of(m, d) == Zodiac::Capricorn,
        (m == 1 && d >= 20) || (m == 2 && d <= 18) ==> zodiac_of(m, d) == Zodiac::Aquarius,
        (m == 2 && d >= 19) || (m == 3 && d <= 20) ==> zodiac_of(m, d) == Zodiac::Pisces,
{
}

/// Within one month the sign changes at most once: every day from the cusp on has the
/// sign of the cusp, every day before it the sign of the month's first day.
pub proof fn lemma_zodiac_one_change_per_month(m: int, d1: int, d2: int)
    requires
        1 <= m <= 12,
        1 <= d1 <= d2 <= 31,
        zodiac_of(m, d1) != zodiac_of(m, d2),
    ensures
        zodiac_of(m, d1) == zodiac_of(m, 1),
        zodiac_of(m, d2) == zodiac_of(m, 31),
{
}

pub open spec fn min_int(a: int, b: int) -> int {
    if a <= b { a } else { b }
}

/// Calendar difference from `b` to a later `a` as (years, months, days, hours,
/// minutes, seconds), computed field by field: time of day borrows a day, a day count
/// borrows the previous month, and an anniversary day that a month lacks (the 29th to
/// 31st) falls on that month's last day. `is_calendar_diff` says what the result is, and
/// `lemma_calendar_diff_is_age` and `lemma_calendar_age_unique` show that this is it.
pub open spec fn calendar_diff_spec(b: LocalDateTime, a: LocalDateTime) -> (
    int,
    int,
    int,
    int,
    int,
    int,
) {
    let s0 = a.secs as int - b.secs as int;
    let secs = if s0 < 0 { s0 + 86400 } else { s0 };
    let ad = if s0 < 0 { a.date.prev_spec() } else { a.date };
    let (by, bm, bd) = (b.date.year as int, b.date.month as int, b.date.day as int);
    let (ay, am, dd) = (ad.year as int, ad.month as int, ad.day as int);
    let d0 = dd - min_int(bd, month_len(ay, am));
    let ay1 = if d0 < 0 && am == 1 { ay - 1 } else { ay };
    let am1 = if d0 < 0 { if am == 1 { 12 } else { am - 1 } } else { am };
    let days = if d0 < 0 { dd + (month_len(ay1, am1) - min_int(bd, month_len(ay1, am1))) } else { d0 };
    let m0 = am1 - bm;
    let months = if m0 < 0 { m0 + 12 } else { m0 };
    let ay2 = if m0 < 0 { ay1 - 1 } else { ay1 };
    let years = if ay2 - by < 0 { 0 } else { ay2 - by };
    (years, months, if days < 0 { 0 } else { days }, secs / 3600, (secs % 3600) / 60, secs % 60)
}

/// Calendar difference `b -> a` (requires `b <= a`): years, months, days, hours, minutes, seconds.
pub fn calendar_diff(b: LocalDateTime, a: LocalDateTime) -> (r: (u32, u32, u32, u32, u32, u32))
    requires
        b.wf(),
        a.wf(),
        !a.lt(b),
    ensures
        ({
            let s = calendar_diff_spec(b, a);
            &&& r.0 as int == s.0
            &&& r.1 as int == s.1
            &&& r.2 as int == s.2
            &&& r.3 as int == s.3
            &&& r.4 as int == s.4
            &&& r.5 as int == s.5
        }),
        r.1 < 12,
        r.2 <= 30,
        r.3 < 24,
        r.4 < 60,
        r.5 < 60,
        is_calendar_diff(b, a, (r.0 as int, r.1 as int, r.2 as int, r.3 as int, r.4 as int, r.5 as int)),
{
    proof {
        lemma_calendar_diff_is_age(b, a);
    }
    let mut secs: i64 = a.secs as i64 - b.secs as i64;
    let mut a_date = a.date;
    if secs < 0 {
        secs = secs + 86400;
        // `a` is later than `b` while its time of day is earlier, so its date is later.
        assert(b.date.lt(a.date));
        a_date = prev_day(a.date);
    }
    let (by, bm, bd) = (b.date.year as i64, b.date.month as i64, b.date.day as i64);
    let (mut ay, mut am, ad) = (a_date.year as i64, a_date.month as i64, a_date.day as i64);
    let dim_a = days_in_month(a_date.year, a_date.month) as i64;
    let effective_bd = if bd < dim_a {
        bd
    } else {
        dim_a
    };
    let mut days = ad - effective_bd;
    if days < 0 {
        am = am - 1;
        if am == 0 {
            am = 12;
            ay = ay - 1;
        }
        let dim = days_in_month(ay as i32, am as u32) as i64;
        let anchor = if bd < dim {
            bd
        } else {
            dim
        };
        days = ad + (dim - anchor);
    }
    let mut months = am - bm;
    if months < 0 {
        months = months + 12;
        ay = ay - 1;
    }
    let years = if ay - by < 0 {
        0
    } else {
        ay - by
    };
    let days_out = if days < 0 {
        0
    } else {
        days
    };
    (
        years as u32,
        months as u32,
        days_out as u32,
        (secs / 3600) as u32,
        ((secs % 3600) / 60) as u32,
        (secs % 60) as u32,
    )
}

/// The date `t` whole months after `b`, as (year, month, day): on `b`'s day of the
/// month, or on the month's last day when that month is shorter.
pub open spec fn months_after(b: Date, t: int) -> (int, int, int) {
    let k = b.month as int - 1 + t;
    let y = b.year as int + k / 12;
    let m = k % 12 + 1;
    (y, m, min_int(b.day as int, month_len(y, m)))
}

/// Calendar order on (year, month, day).
pub open spec fn ymd_lt(x: (int, int, int), y: (int, int, int)) -> bool {
    ||| x.0 < y.0
    ||| x.0 == y.0 && x.1 < y.1
    ||| x.0 == y.0 && x.1 == y.1 && x.2 < y.2
}

/// `r` = (years, months, days, hours, minutes, seconds) is the calendar age from `b` to a
/// later `a`. The time of day borrows a day when `a`'s is earlier than `b`'s (the day
/// counted up to is then the day before `a`'s date); `years * 12 + months` whole months
/// after `b` is not later than that day while one month more is; `days` more days reach
/// it; and the remaining seconds are split into hours, minutes and seconds.
pub open spec fn is_calendar_diff(b: LocalDateTime, a: LocalDateTime, r: (int, int, int, int, int, int)) -> bool {
    let s0 = a.secs as int - b.secs as int;
    let secs = if s0 < 0 { s0 + 86400 } else { s0 };
    let ad = if s0 < 0 { a.date.prev_spec() } else { a.date };
    let day = (ad.year as int, ad.month as int, ad.day as int);
    let t = r.0 * 12 + r.1;
    let from = months_after(b.date, t);
    &&& r.0 >= 0 && 0 <= r.1 < 12
    &&& !ymd_lt(day, from)
    &&& ymd_lt(day, months_after(b.date, t + 1))
    &&& r.2 == ad.day_number() - day_number_ymd(from.0, from.1, from.2)
    &&& r.3 == secs / 3600 && r.4 == (secs % 3600) / 60 && r.5 == secs % 60
}

proof fn lemma_div12(q: int, r: int)
    requires
        0 <= r < 12,
    ensures
        (12 * q + r) / 12 == q,
        (12 * q + r) % 12 == r,
{
    assert((12 * q + r) / 12 == q && (12 * q + r) % 12 == r) by (nonlinear_arith)
        requires
            0 <= r < 12,
    ;
}

/// The calendar difference is the calendar age: `calendar_diff_spec` meets
/// `is_calendar_diff`.
pub proof fn lemma_calendar_diff_is_age(b: LocalDateTime, a: LocalDateTime)
    requires
        b.wf(),
        a.wf(),
        !a.lt(b),
    ensures
        is_calendar_diff(b, a, calendar_diff_spec(b, a)),
{
    let s0 = a.secs as int - b.secs as int;
    let ad = if s0 < 0 { a.date.prev_spec() } else { a.date };
    if s0 < 0 {
        assert(b.date.lt(a.date));
        crate::calendar::lemma_prev_day_number(a.date);
        crate::calendar::lemma_day_number_order(b.date, a.date);
        crate::calendar::lemma_day_number_order(ad, b.date);
    }
    assert(ad.wf());
    assert(!ad.lt(b.date));
    let (by, bm, bd) = (b.date.year as int, b.date.month as int, b.date.day as int);
    let (ay, am, dd) = (ad.year as int, ad.month as int, ad.day as int);
    let d0 = dd - min_int(bd, month_len(ay, am));
    let ay1 = if d0 < 0 && am == 1 { ay - 1 } else { ay };
    let am1 = if d0 < 0 { if am == 1 { 12 } else { am - 1 } } else { am };
    let r = calendar_diff_spec(b, a);
    // The month reached is not before `b`'s month.
    assert(ay1 > by || (ay1 == by && am1 >= bm));
    let t = 12 * (ay1 - by) + (am1 - bm);
    assert(r.0 * 12 + r.1 == t);
    lemma_div12(ay1 - by, am1 - 1);
    assert(bm - 1 + t == 12 * (ay1 - by) + (am1 - 1));
    assert(months_after(b.date, t) == (ay1, am1, min_int(bd, month_len(ay1, am1))));
    let (ny, nm) = if am1 == 12 { (ay1 + 1, 1int) } else { (ay1, am1 + 1) };
    if am1 == 12 {
        lemma_div12(ay1 - by + 1, 0);
        assert(bm - 1 + t + 1 == 12 * (ay1 - by + 1) + 0);
    } else {
        lemma_div12(ay1 - by, am1);
        assert(bm - 1 + t + 1 == 12 * (ay1 - by) + am1);
    }
    assert(months_after(b.date, t + 1) == (ny, nm, min_int(bd, month_len(ny, nm))));
    if d0 < 0 {
        if am > 1 {
            crate::calendar::lemma_month_step(ay, am - 1);
        } else {
            crate::calendar::lemma_year_step(ay - 1);
            crate::calendar::lemma_months_fill_year(ay - 1);
        }
    }
}

/// A later count of whole months gives a later month.
proof fn lemma_months_after_mono(b: Date, t1: int, t2: int)
    requires
        0 <= b.month as int - 1 + t1,
        t1 < t2,
    ensures
        ymd_lt(months_after(b, t1), months_after(b, t2)),
{
    let k1 = b.month as int - 1 + t1;
    let k2 = b.month as int - 1 + t2;
    assert(k1 / 12 <= k2 / 12 && (k1 / 12 == k2 / 12 ==> k1 % 12 < k2 % 12)) by (nonlinear_arith)
        requires
            0 <= k1 < k2,
    ;
}

/// The calendar age is unique: two results that both meet `is_calendar_diff` agree.
pub proof fn lemma_calendar_age_unique(
    b: LocalDateTime,
    a: LocalDateTime,
    r1: (int, int, int, int, int, int),
    r2: (int, int, int, int, int, int),
)
    requires
        b.wf(),
        is_calendar_diff(b, a, r1),
        is_calendar_diff(b, a, r2),
    ensures
        r1 == r2,
{
    let t1 = r1.0 * 12 + r1.1;
    let t2 = r2.0 * 12 + r2.1;
    assert(t1 >= 0 && t2 >= 0) by (nonlinear_arith)
        requires
            r1.0 >= 0,
            r1.1 >= 0,
            r2.0 >= 0,
            r2.1 >= 0,
            t1 == r1.0 * 12 + r1.1,
            t2 == r2.0 * 12 + r2.1,
    ;
    if t1 + 1 < t2 {
        lemma_months_after_mono(b.date, t1 + 1, t2);
    } else if t2 + 1 < t1 {
        lemma_months_after_mono(b.date, t2 + 1, t1);
    }
    assert(t1 == t2);
    assert(r1.0 == r2.0 && r1.1 == r2.1) by (nonlinear_arith)
        requires
            r1.0 * 12 + r1.1 == r2.0 * 12 + r2.1,
            0 <= r1.1 < 12,
            0 <= r2.1 < 12,
    ;
}

/// On an anniversary at the same time of day the difference is a whole number of
/// years; an anniversary day a month lacks is kept on its last day (29 February
/// falls on 28 February in other years).
pub proof fn lemma_anniversary(b: LocalDateTime, a: LocalDateTime)
    requires
        b.wf(),
        a.wf(),
        a.secs == b.secs,
        a.date.year >= b.date.year,
        a.date.month == b.date.month,
        a.date.day as int == min_int(
            b.date.day as int,
            month_len(a.date.year as int, a.date.month as int),
        ),
    ensures
        calendar_diff_spec(b, a) == (a.date.year - b.date.year, 0int, 0int, 0int, 0int, 0int),
{
}

/// Within one month the difference is the difference of days and times.
pub proof fn lemma_same_month(b: LocalDateTime, a: LocalDateTime)
    requires
        b.wf(),
        a.wf(),
        a.date.year == b.date.year,
        a.date.month == b.date.month,
        a.date.day >= b.date.day,
        a.secs >= b.secs,
    ensures
        calendar_diff_spec(b, a) == (
            0int,
            0int,
            a.date.day - b.date.day,
            (a.secs - b.secs) / 3600,
            ((a.secs - b.secs) % 3600) / 60,
            (a.secs - b.secs) % 60,
        ),
{
}

/// Midnight of the day of `t`.
pub open spec fn midnight(t: LocalDateTime) -> LocalDateTime {
    LocalDateTime { date: t.date, secs: 0 }
}

/// Age at local time `now` of someone born at local time `birth`; without a known
/// time of day both are taken at midnight and no hours, minutes or seconds are given.
/// Before the birth the age is zero.
pub open spec fn age_between_spec(birth: LocalDateTime, now: LocalDateTime, has_time: bool) -> AgeBreakdown {
    let b = if has_time { birth } else { midnight(birth) };
    let n = if has_time { now } else { midnight(now) };
    if n.lt(b) {
        AgeBreakdown {
            years: 0,
            months: 0,
            days: 0,
            hours: if has_time { Some(0) } else { None },
            minutes: if has_time { Some(0) } else { None },
            seconds: if has_time { Some(0) } else { None },
        }
    } else {
        let s = calendar_diff_spec(b, n);
        AgeBreakdown {
            years: s.0 as u32,
            months: s.1 as u32,
            days: s.2 as u32,
            hours: if has_time { Some(s.3 as u32) } else { None },
            minutes: if has_time { Some(s.4 as u32) } else { None },
            seconds: if has_time { Some(s.5 as u32) } else { None },
        }
    }
}

/// Before the birth the age is zero: no years, months or days, and zero hours, minutes
/// and seconds when the time of birth is known. Without a known time the local dates
/// are compared.
pub proof fn lemma_age_before_birth(birth: LocalDateTime, now: LocalDateTime, has_time: bool)
    requires
        if has_time { now.lt(birth) } else { now.date.lt(birth.date) },
    ensures
        ({
            let a = age_between_spec(birth, now, has_time);
            &&& a.years == 0 && a.months == 0 && a.days == 0
            &&& a.hours == (if has_time { Some(0u32) } else { None })
            &&& a.minutes == (if has_time { Some(0u32) } else { None })
            &&& a.seconds == (if has_time { Some(0u32) } else { None })
        }),
{
}

fn local_lt(a: LocalDateTime, b: LocalDateTime) -> (r: bool)
    ensures
        r == a.lt(b),
{
    date_lt(a.date, b.date) || (a.date == b.date && a.secs < b.secs)
}

/// Age at local time `now` of someone born at local time `birth` (see `age_between_spec`).
pub fn age_between(birth: LocalDateTime, now: LocalDateTime, has_time: bool) -> (r: AgeBreakdown)
    requires
        birth.wf(),
        now.wf(),
    ensures
        r == age_between_spec(birth, now, has_time),
        r.months < 12,
        r.days <= 30,
        r.hours is Some == has_time,
        r.minutes is Some == has_time,
        r.seconds is Some == has_time,
        r.hours matches Some(h) ==> h < 24,
        r.minutes matches Some(m) ==> m < 60,
        r.seconds matches Some(s) ==> s < 60,
{
    let b = if has_time {
        birth
    } else {
        LocalDateTime { date: birth.date, secs: 0 }
    };
    let n = if has_time {
        now
    } else {
        LocalDateTime { date: now.date, secs: 0 }
    };
    if local_lt(n, b) {
        return AgeBreakdown {
            years: 0,
            months: 0,
            days: 0,
            hours: if has_time {
                Some(0)
            } else {
                None
            },
            minutes: if has_time {
                Some(0)
            } else {
                None
            },
            seconds: if has_time {
                Some(0)
            } else {
                None
            },
        };
    }
    let (y, m, d, h, mi, s) = calendar_diff(b, n);
    AgeBreakdown {
        years: y,
        months: m,
        days: d,
        hours: if has_time {
            Some(h)
        } else {
            None
        },
        minutes: if has_time {
            Some(mi)
        } else {
            None
        },
        seconds: if has_time {
            Some(s)
        } else {
            None
        },
    }
}

/// The local time at instant `now` in zone `tz`.
pub open spec fn local_at(tz: Seq<char>, now: int) -> LocalDateTime {
    let t = tz_local_time(tz, now).unwrap();
    LocalDateTime { date: Date { year: t.0, month: t.1, day: t.2 }, secs: t.3 }
}

/// `l` is a local time that a zone may show at instant `now`: one within a day of
/// `now` read as UTC.
pub open spec fn near_local(l: LocalDateTime, now: int) -> bool {
    l.wf() && -86400 < naive_as_utc(l) - now < 86400
}

/// `a` is the age of `p` at a local time that a zone may show at instant `now`.
pub open spec fn age_near(p: Person, now: int, a: AgeBreakdown) -> bool {
    exists|l: LocalDateTime|
        #![trigger age_between_spec(p.birth, l, p.has_time)]
        near_local(l, now) && a == age_between_spec(p.birth, l, p.has_time)
}

/// `e` is the time elapsed since the birth of `p`, for a birth instant within 25 hours
/// of the birth read as UTC and a local time that a zone may show at instant `now`.
pub open spec fn elapsed_near(p: Person, now: int, e: int) -> bool {
    exists|b: int, l: LocalDateTime|
        #![trigger elapsed_spec(b, p.birth, now, l, p.has_time)]
        {
            &&& l.wf()
            &&& p.has_time ==> -90000 < b - naive_as_utc(p.birth) < 90000
            &&& !p.has_time ==> near_local(l, now)
            &&& e == elapsed_spec(b, p.birth, now, l, p.has_time)
        }
}

/// `d` is the number of days to the next birthday of `p`, counted from the date of a
/// local time that a zone may show at instant `now`.
pub open spec fn birthday_days_near(p: Person, now: int, d: int) -> bool {
    exists|l: LocalDateTime|
        #![trigger days_to_birthday(p.birth.date, l.date)]
        near_local(l, now) && d == days_to_birthday(p.birth.date, l.date)
}

/// Age of `p` at instant `now` (Unix seconds), counted in the person's zone. Without
/// a zone the machine's zone gives the local time, which lies within a day of `now`
/// read as UTC.
pub fn age_at(p: &Person, now: i64) -> (r: AgeBreakdown)
    requires
        p.wf(),
        instant_in_range(now as int),
    ensures
        p.tz matches Some(n) ==> r == age_between_spec(p.birth, local_at(n@, now as int), p.has_time),
        age_near(*p, now as int, r),
        r.months < 12,
        r.days <= 30,
        r.hours is Some == p.has_time,
        r.minutes is Some == p.has_time,
        r.seconds is Some == p.has_time,
        r.hours matches Some(h) ==> h < 24,
        r.minutes matches Some(m) ==> m < 60,
        r.seconds matches Some(s) ==> s < 60,
{
    let now_local = instant_to_local(&p.tz, now);
    age_between(p.birth, now_local, p.has_time)
}

/// The birth moment of `p` as Unix seconds, resolved in the person's zone.
pub fn birth_instant(p: &Person) -> (r: i64)
    requires
        p.wf(),
    ensures
        p.tz matches Some(n) ==> r as int == instant_of(Some(n@), p.birth),
        -9_000_000_000_000 < r < 9_000_000_000_000,
        -90000 < r - naive_as_utc(p.birth) < 90000,
{
    local_to_instant(&p.tz, p.birth)
}

/// Exact time since birth, in whole seconds; zero before the birth. Without a known
/// time of day it counts whole days between the local dates.
pub open spec fn elapsed_spec(birth_at: int, birth: LocalDateTime, now: int, now_local: LocalDateTime, has_time: bool) -> int {
    if has_time {
        if now - birth_at < 0 { 0 } else { now - birth_at }
    } else {
        let days = now_local.date.day_number() - birth.date.day_number();
        (if days < 0 { 0 } else { days }) * 86400
    }
}

/// Exact elapsed time since birth (in whole seconds; day-granular when the time is unknown).
/// Without a zone the machine's zone resolves the birth (within 25 hours of the birth
/// read as UTC) and today's date (within a day of `now` read as UTC).
pub fn elapsed(p: &Person, now: i64) -> (r: i64)
    requires
        p.wf(),
        instant_in_range(now as int),
    ensures
        0 <= r < 20_000_000_000_000,
        p.tz matches Some(n) ==> r as int == elapsed_spec(
            instant_of(Some(n@), p.birth),
            p.birth,
            now as int,
            local_at(n@, now as int),
            p.has_time,
        ),
        elapsed_near(*p, now as int, r as int),
{
    if p.has_time {
        let birth = birth_instant(p);
        let r = if now < birth {
            0
        } else {
            now - birth
        };
        assert(r as int == elapsed_spec(birth as int, p.birth, now as int, p.birth, p.has_time));
        r
    } else {
        let now_local = instant_to_local(&p.tz, now);
        let days = days_between(p.birth.date, now_local.date);
        proof {
            crate::calendar::lemma_day_number_bounds(p.birth.date);
            crate::calendar::lemma_day_number_bounds(now_local.date);
        }
        let r = if days < 0 {
            0
        } else {
            days * 86400
        };
        assert(r as int == elapsed_spec(0, p.birth, now as int, now_local, p.has_time));
        r
    }
}

/// The anniversary of `birth` in year `y`; 29 February becomes 1 March in other years.
pub open spec fn birthday_in(birth: Date, y: int) -> Date {
    if valid_ymd(y, birth.month as int, birth.day as int) {
        Date { year: y as i32, month: birth.month, day: birth.day }
    } else {
        Date { year: y as i32, month: 3, day: 1 }
    }
}

/// The anniversary of `birth` in year `y`; 29 February becomes 1 March in other years.
pub fn birthday_in_year(birth: Date, y: i32) -> (r: Date)
    requires
        MIN_YEAR <= y <= MAX_YEAR,
    ensures
        r == birthday_in(birth, y as int),
        r.wf(),
{
    match date_from_ymd(y, birth.month, birth.day) {
        Some(d) => d,
        None => Date { year: y, month: 3, day: 1 },
    }
}

/// Whole days from `today` until the next anniversary of `birth` (0: today).
pub open spec fn days_to_birthday(birth: Date, today: Date) -> int {
    let this_year = birthday_in(birth, today.year as int);
    let next = if this_year.lt(today) { birthday_in(birth, today.year + 1) } else { this_year };
    next.day_number() - today.day_number()
}

/// A birthday comes round within a year: the next one is at most 365 days away.
pub proof fn lemma_birthday_within_a_year(birth: Date, today: Date)
    requires
        birth.wf(),
        today.wf(),
        today.year < MAX_YEAR,
    ensures
        0 <= days_to_birthday(birth, today) <= 365,
{
    let y = today.year as int;
    let this_year = birthday_in(birth, y);
    let next_year = birthday_in(birth, y + 1);
    crate::calendar::lemma_year_step(y);
    crate::calendar::lemma_months_fill_year(y);
    if this_year.lt(today) {
        crate::calendar::lemma_day_number_order(this_year, today);
        crate::calendar::lemma_day_number_order(today, next_year);
        assert(next_year.day_number() - this_year.day_number() <= 366);
    } else {
        crate::calendar::lemma_day_number_order(today, this_year);
        if this_year.month < 12 {
            crate::calendar::lemma_month_mono(y, this_year.month as int, 12);
        }
    }
}

/// Days until the next birthday, counted from the local date `today`.
pub fn days_until_birthday(birth: Date, today: Date) -> (r: i64)
    requires
        today.wf(),
        today.year < MAX_YEAR,
    ensures
        r as int == days_to_birthday(birth, today),
        r >= 0,
        birth.wf() ==> r <= 365,
        r == 0 <==> birthday_in(birth, today.year as int) == today,
{
    proof {
        if birth.wf() {
            lemma_birthday_within_a_year(birth, today);
        }
    }
    let mut candidate = birthday_in_year(birth, today.year);
    if date_lt(candidate, today) {
        candidate = birthday_in_year(birth, today.year + 1);
        proof {
            crate::calendar::lemma_day_number_order(today, candidate);
        }
    } else {
        proof {
            crate::calendar::lemma_day_number_order(today, candidate);
        }
    }
    days_between(today, candidate)
}

/// Whole days until the next birthday in the person's timezone; 0 means today. Without
/// a zone, today is the machine's local date, within a day of `now` read as UTC.
pub fn next_birthday_days(p: &Person, now: i64) -> (r: i64)
    requires
        p.wf(),
        instant_in_range(now as int),
    ensures
        0 <= r <= 365,
        p.tz matches Some(n) ==> r as int == days_to_birthday(p.birth.date, local_at(n@, now as int).date),
        birthday_days_near(*p, now as int, r as int),
{
    let local = instant_to_local(&p.tz, now);
    let today = local.date;
    let r = days_until_birthday(p.birth.date, today);
    assert(r as int == days_to_birthday(p.birth.date, local.date));
    r
}

} // verus!
