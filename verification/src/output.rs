//! Text output: ages in the different views, birthdays, and the aligned table.
use vstd::prelude::*;

use crate::age::{
    AgeBreakdown, Zodiac, age_at, age_between_spec, age_near, birthday_days_near, days_to_birthday,
    elapsed, elapsed_near, elapsed_spec, local_at, next_birthday_days, zodiac, zodiac_of,
};
use crate::i18n::{Lang, Msg, msg, msg_spec};
use crate::model::{AgeView, Person, SortKey};
use crate::text::{
    chars_to_string, decimal, decimal2, push_all, push_decimal, push_decimal2, push_str,
    str_chars,
};
use crate::zone::{instant_in_range, instant_of};
use crate::calendar::LocalDateTime;
use crate::store::{Store, avatar_path_spec};
use crate::tui::form::{date_text, format_date};

verus! {

/// One row of the people table, already formatted.
#[derive(Clone, Debug)]
pub struct Row {
    pub alias: String,
    pub name: String,
    pub age: String,
    pub zodiac: String,
    pub birthday: String,
    pub today: bool,
}

/// "61y 6m 7d", followed by " 09:04:32" when hours, minutes and seconds are all known.
pub open spec fn format_age_spec(lang: Lang, a: AgeBreakdown) -> Seq<char> {
    let base = decimal(a.years as nat) + msg_spec(lang, Msg::AgeYearsUnit) + seq![' ']
        + decimal(a.months as nat) + msg_spec(lang, Msg::AgeMonthsUnit) + seq![' '] + decimal(
        a.days as nat,
    ) + msg_spec(lang, Msg::AgeDaysUnit);
    match (a.hours, a.minutes, a.seconds) {
        (Some(h), Some(m), Some(s)) => base + seq![' '] + decimal2(h as nat) + seq![':']
            + decimal2(m as nat) + seq![':'] + decimal2(s as nat),
        _ => base,
    }
}

/// An age as years, months and days, with the time of day when it is known.
pub fn format_age(lang: Lang, a: &AgeBreakdown) -> (r: String)
    ensures
        r@ == format_age_spec(lang, *a),
{
    let mut out: Vec<char> = Vec::new();
    push_decimal(&mut out, a.years as u64);
    push_str(&mut out, msg(lang, Msg::AgeYearsUnit));
    out.push(' ');
    push_decimal(&mut out, a.months as u64);
    push_str(&mut out, msg(lang, Msg::AgeMonthsUnit));
    out.push(' ');
    push_decimal(&mut out, a.days as u64);
    push_str(&mut out, msg(lang, Msg::AgeDaysUnit));
    match (a.hours, a.minutes, a.seconds) {
        (Some(h), Some(m), Some(s)) => {
            out.push(' ');
            push_decimal2(&mut out, h as u64);
            out.push(':');
            push_decimal2(&mut out, m as u64);
            out.push(':');
            push_decimal2(&mut out, s as u64);
        },
        _ => {},
    }
    proof {
        assert(out@ =~= format_age_spec(lang, *a));
    }
    chars_to_string(out.as_slice())
}

/// The separator between groups of three digits (narrow no-break space).
pub open spec fn group_sep() -> char {
    '\u{202f}'
}

/// The first `k` digits of `s`, with a separator before every digit that starts
/// a group of three counted from the right.
pub open spec fn grouped(s: Seq<char>, k: nat) -> Seq<char>
    decreases k,
{
    if k == 0 {
        Seq::empty()
    } else {
        let i = k - 1;
        let sep = if i > 0 && (s.len() - i) % 3 == 0 { seq![group_sep()] } else { Seq::empty() };
        grouped(s, (k - 1) as nat) + sep + seq![s[i]]
    }
}

/// `n` in decimal with its digits grouped by three, e.g. 22473 -> "22 473".
pub open spec fn group_thousands_spec(n: int) -> Seq<char> {
    let d = decimal((if n < 0 { -n } else { n }) as nat);
    let g = grouped(d, d.len());
    if n < 0 { seq!['-'] + g } else { g }
}

fn push_grouped(out: &mut Vec<char>, digits: &Vec<char>)
    ensures
        final(out)@ == old(out)@ + grouped(digits@, digits@.len()),
{
    let ghost start = out@;
    let n = digits.len();
    let mut i: usize = 0;
    while i < n
        invariant
            i <= n,
            n == digits@.len(),
            out@ == start + grouped(digits@, i as nat),
        decreases n - i,
    {
        if i > 0 && (n - i) % 3 == 0 {
            out.push('\u{202f}');
        }
        out.push(digits[i]);
        proof {
            assert(out@ =~= start + grouped(digits@, (i + 1) as nat));
        }
        i = i + 1;
    }
}

/// Group thousands with a narrow no-break space: 22473 -> "22 473".
pub fn group_thousands(n: i64) -> (r: String)
    ensures
        r@ == group_thousands_spec(n as int),
{
    let mut digits: Vec<char> = Vec::new();
    let m: u64 = if n == i64::MIN {
        9223372036854775808u64
    } else if n < 0 {
        (-n) as u64
    } else {
        n as u64
    };
    push_decimal(&mut digits, m);
    proof {
        assert(digits@ =~= decimal((if n < 0 { -(n as int) } else { n as int }) as nat));
    }
    let mut out: Vec<char> = Vec::new();
    if n < 0 {
        out.push('-');
    }
    push_grouped(&mut out, &digits);
    proof {
        assert(out@ =~= group_thousands_spec(n as int));
    }
    chars_to_string(out.as_slice())
}

/// Removing the separators from a grouped numeral gives back its digits.
pub proof fn lemma_grouped_digits(s: Seq<char>, k: nat)
    requires
        k <= s.len(),
        forall|i: int| 0 <= i < s.len() ==> #[trigger] s[i] != group_sep(),
    ensures
        grouped(s, k).filter(|c: char| c != group_sep()) == s.subrange(0, k as int),
    decreases k,
{
    if k > 0 {
        lemma_grouped_digits(s, (k - 1) as nat);
        let i = k - 1;
        let sep = if i > 0 && (s.len() - i) % 3 == 0 { seq![group_sep()] } else { Seq::<char>::empty() };
        let f = |c: char| c != group_sep();
        Seq::filter_distributes_over_add(grouped(s, (k - 1) as nat), sep, f);
        Seq::filter_distributes_over_add(grouped(s, (k - 1) as nat) + sep, seq![s[i as int]], f);
        reveal_with_fuel(Seq::filter, 2);
        assert(sep.filter(f) =~= Seq::<char>::empty());
        assert(seq![s[i as int]].filter(f) =~= seq![s[i as int]]);
        assert(s.subrange(0, k as int) =~= s.subrange(0, i as int).push(s[i as int]));
    }
}

/// No digit of a decimal numeral is a group separator.
proof fn lemma_decimal_has_no_separator(n: nat)
    ensures
        forall|i: int| 0 <= i < decimal(n).len() ==> #[trigger] decimal(n)[i] != group_sep(),
    decreases n,
{
    let last = if n < 10 { n as int } else { (n % 10) as int };
    let c = crate::text::digit_char(last);
    let b = (last + 48) as u8;
    assert(b == last + 48);
    assert(c == b as char);
    assert(c as u32 == b as u32);
    assert(c != group_sep());
    if n >= 10 {
        lemma_decimal_has_no_separator(n / 10);
        assert(decimal(n) == decimal(n / 10).push(c));
    }
}

/// Grouping only inserts separators: with every U+202F removed, `group_thousands_spec(n)`
/// is the plain decimal numeral of `n`, with a leading `-` when `n` is negative.
pub proof fn lemma_group_thousands_digits(n: int)
    ensures
        group_thousands_spec(n).filter(|c: char| c != group_sep()) == (if n < 0 {
            seq!['-']
        } else {
            Seq::<char>::empty()
        }) + decimal((if n < 0 { -n } else { n }) as nat),
{
    let d = decimal((if n < 0 { -n } else { n }) as nat);
    let f = |c: char| c != group_sep();
    lemma_decimal_has_no_separator((if n < 0 { -n } else { n }) as nat);
    lemma_grouped_digits(d, d.len());
    assert(d.subrange(0, d.len() as int) =~= d);
    if n < 0 {
        Seq::filter_distributes_over_add(seq!['-'], grouped(d, d.len()), f);
        reveal_with_fuel(Seq::filter, 2);
        assert(seq!['-'].filter(f) =~= seq!['-']);
    } else {
        assert(Seq::<char>::empty() + d =~= d);
    }
}

/// Seconds in an average Gregorian year (365.2425 days).
pub const YEAR_SECS: i64 = 31556952;

/// `secs` in years, in hundredths, rounded to the nearest (ties to even).
pub open spec fn years_hundredths(secs: int) -> int {
    let q = secs * 100 / 31556952;
    let r = secs * 100 % 31556952;
    if 2 * r > 31556952 || (2 * r == 31556952 && q % 2 == 1) { q + 1 } else { q }
}

/// The word for a number of days: singular for one.
pub open spec fn days_word(lang: Lang, n: int) -> Seq<char> {
    if n == 1 { msg_spec(lang, Msg::DaySingular) } else { msg_spec(lang, Msg::DayPlural) }
}

/// An age in `view` from the elapsed seconds `secs` (whole days when the birth time is
/// unknown) and the calendar breakdown `a`.
pub open spec fn format_age_view_spec(lang: Lang, view: AgeView, secs: int, a: AgeBreakdown) -> Seq<char> {
    let days = secs / 86400;
    match view {
        AgeView::Calendar => format_age_spec(lang, a),
        AgeView::Years => {
            let h = years_hundredths(secs);
            decimal((h / 100) as nat) + seq!['.'] + decimal2((h % 100) as nat) + msg_spec(
                lang,
                Msg::ViewYearsValue,
            )
        },
        AgeView::Months => group_thousands_spec(a.years * 12 + a.months) + msg_spec(
            lang,
            Msg::MonthsWord,
        ) + decimal(a.days as nat) + days_word(lang, a.days as int),
        AgeView::Weeks => group_thousands_spec(days / 7) + msg_spec(lang, Msg::WeeksWord)
            + decimal((days % 7) as nat) + days_word(lang, days % 7),
        AgeView::Days => group_thousands_spec(days) + msg_spec(lang, Msg::DayPlural),
        AgeView::Hours => group_thousands_spec(secs / 3600) + msg_spec(lang, Msg::HoursWord),
    }
}

/// `s` begins with `p`.
pub open spec fn starts_with(s: Seq<char>, p: Seq<char>) -> bool {
    p.len() <= s.len() && s.subrange(0, p.len() as int) == p
}

/// The total views count the whole age in one unit: the Months view starts with the
/// calendar age's whole months, `years * 12 + months`, the Weeks view with the whole
/// weeks and the Days and Hours views are the whole days and hours of the elapsed
/// seconds; each numeral, without its thousands separators, is the plain decimal
/// numeral of that count.
pub proof fn lemma_total_views_show_totals(lang: Lang, secs: int, a: AgeBreakdown)
    requires
        secs >= 0,
    ensures
        starts_with(
            format_age_view_spec(lang, AgeView::Months, secs, a),
            group_thousands_spec(a.years * 12 + a.months) + msg_spec(lang, Msg::MonthsWord),
        ),
        starts_with(
            format_age_view_spec(lang, AgeView::Weeks, secs, a),
            group_thousands_spec(secs / 86400 / 7) + msg_spec(lang, Msg::WeeksWord),
        ),
        format_age_view_spec(lang, AgeView::Days, secs, a) == group_thousands_spec(secs / 86400) + msg_spec(
            lang,
            Msg::DayPlural,
        ),
        format_age_view_spec(lang, AgeView::Hours, secs, a) == group_thousands_spec(secs / 3600) + msg_spec(
            lang,
            Msg::HoursWord,
        ),
        group_thousands_spec(a.years * 12 + a.months).filter(|c: char| c != group_sep()) == decimal(
            (a.years * 12 + a.months) as nat,
        ),
        group_thousands_spec(secs / 86400 / 7).filter(|c: char| c != group_sep()) == decimal(
            (secs / 86400 / 7) as nat,
        ),
        group_thousands_spec(secs / 86400).filter(|c: char| c != group_sep()) == decimal((secs / 86400) as nat),
        group_thousands_spec(secs / 3600).filter(|c: char| c != group_sep()) == decimal((secs / 3600) as nat),
{
    let m = a.years * 12 + a.months;
    let d = secs / 86400;
    let p1 = group_thousands_spec(m) + msg_spec(lang, Msg::MonthsWord);
    let t1 = decimal(a.days as nat) + days_word(lang, a.days as int);
    assert(format_age_view_spec(lang, AgeView::Months, secs, a) =~= p1 + t1);
    assert((p1 + t1).subrange(0, p1.len() as int) =~= p1);
    let p2 = group_thousands_spec(d / 7) + msg_spec(lang, Msg::WeeksWord);
    let t2 = decimal((d % 7) as nat) + days_word(lang, d % 7);
    assert(format_age_view_spec(lang, AgeView::Weeks, secs, a) =~= p2 + t2);
    assert((p2 + t2).subrange(0, p2.len() as int) =~= p2);
    lemma_group_thousands_digits(m);
    lemma_group_thousands_digits(d / 7);
    lemma_group_thousands_digits(d);
    lemma_group_thousands_digits(secs / 3600);
}

/// Formats an age in `view` from elapsed seconds and the calendar breakdown.
pub fn format_view(lang: Lang, view: AgeView, secs: i64, a: &AgeBreakdown) -> (r: String)
    requires
        0 <= secs <= 9_000_000_000_000_000,
    ensures
        r@ == format_age_view_spec(lang, view, secs as int, *a),
        view == AgeView::Months ==> starts_with(
            r@,
            group_thousands_spec(a.years * 12 + a.months) + msg_spec(lang, Msg::MonthsWord),
        ),
        view == AgeView::Weeks ==> starts_with(
            r@,
            group_thousands_spec(secs / 86400 / 7) + msg_spec(lang, Msg::WeeksWord),
        ),
        view == AgeView::Days ==> r@ == group_thousands_spec(secs / 86400) + msg_spec(lang, Msg::DayPlural),
        view == AgeView::Hours ==> r@ == group_thousands_spec(secs / 3600) + msg_spec(lang, Msg::HoursWord),
{
    proof {
        lemma_total_views_show_totals(lang, secs as int, *a);
    }
    let days = secs / 86400;
    match view {
        AgeView::Calendar => format_age(lang, a),
        AgeView::Years => {
            let num: i128 = secs as i128 * 100;
            let q: i128 = num / 31556952;
            let rem: i128 = num % 31556952;
            let h: i128 = if 2 * rem > 31556952 || (2 * rem == 31556952 && q % 2 == 1) {
                q + 1
            } else {
                q
            };
            let mut out: Vec<char> = Vec::new();
            push_decimal(&mut out, (h / 100) as u64);
            out.push('.');
            push_decimal2(&mut out, (h % 100) as u64);
            push_str(&mut out, msg(lang, Msg::ViewYearsValue));
            proof {
                assert(out@ =~= format_age_view_spec(lang, view, secs as int, *a));
            }
            chars_to_string(out.as_slice())
        },
        AgeView::Months => {
            let mut out = str_chars(group_thousands(a.years as i64 * 12 + a.months as i64).as_str());
            push_str(&mut out, msg(lang, Msg::MonthsWord));
            push_decimal(&mut out, a.days as u64);
            push_str(&mut out, msg(lang, if a.days == 1 { Msg::DaySingular } else { Msg::DayPlural }));
            proof {
                assert(out@ =~= format_age_view_spec(lang, view, secs as int, *a));
            }
            chars_to_string(out.as_slice())
        },
        AgeView::Weeks => {
            let rest = days % 7;
            let mut out = str_chars(group_thousands(days / 7).as_str());
            push_str(&mut out, msg(lang, Msg::WeeksWord));
            push_decimal(&mut out, rest as u64);
            push_str(&mut out, msg(lang, if rest == 1 { Msg::DaySingular } else { Msg::DayPlural }));
            proof {
                assert(out@ =~= format_age_view_spec(lang, view, secs as int, *a));
            }
            chars_to_string(out.as_slice())
        },
        AgeView::Days => {
            let mut out = str_chars(group_thousands(days).as_str());
            push_str(&mut out, msg(lang, Msg::DayPlural));
            proof {
                assert(out@ =~= format_age_view_spec(lang, view, secs as int, *a));
            }
            chars_to_string(out.as_slice())
        },
        AgeView::Hours => {
            let mut out = str_chars(group_thousands(secs / 3600).as_str());
            push_str(&mut out, msg(lang, Msg::HoursWord));
            proof {
                assert(out@ =~= format_age_view_spec(lang, view, secs as int, *a));
            }
            chars_to_string(out.as_slice())
        },
    }
}

/// `text` shows the age of `p` at instant `now` in `view`, for an elapsed time and a
/// calendar age that a zone may give (see `elapsed_near` and `age_near`).
pub open spec fn age_text_near(lang: Lang, view: AgeView, p: Person, now: int, text: Seq<char>) -> bool {
    exists|e: int, a: AgeBreakdown|
        #![trigger format_age_view_spec(lang, view, e, a)]
        elapsed_near(p, now, e) && age_near(p, now, a) && text == format_age_view_spec(lang, view, e, a)
}

/// Age of `p` at instant `now` in the requested view. `Calendar` is `format_age`; the
/// others are totals of the elapsed time. Without a zone the machine's zone gives the
/// local times, each within a day of `now` read as UTC, and the birth instant, within
/// 25 hours of the birth read as UTC.
pub fn format_age_view(lang: Lang, p: &Person, now: i64, view: AgeView) -> (r: String)
    requires
        p.wf(),
        instant_in_range(now as int),
    ensures
        age_text_near(lang, view, *p, now as int, r@),
        p.tz matches Some(n) ==> r@ == format_age_view_spec(
            lang,
            view,
            elapsed_spec(instant_of(Some(n@), p.birth), p.birth, now as int, local_at(n@, now as int), p.has_time),
            age_between_spec(p.birth, local_at(n@, now as int), p.has_time),
        ),
{
    let el = elapsed(p, now);
    let a = age_at(p, now);
    let r = format_view(lang, view, el, &a);
    assert(r@ == format_age_view_spec(lang, view, el as int, a));
    r
}

/// The message naming a sort order.
pub open spec fn sort_msg(key: SortKey) -> Msg {
    match key {
        SortKey::Age => Msg::SortAge,
        SortKey::Alias => Msg::SortAlias,
        SortKey::Birthday => Msg::SortBirthday,
    }
}

/// Label of a sort order.
pub fn sort_label(lang: Lang, key: SortKey) -> (r: &'static str)
    ensures
        r@ == msg_spec(lang, sort_msg(key)),
{
    msg(
        lang,
        match key {
            SortKey::Age => Msg::SortAge,
            SortKey::Alias => Msg::SortAlias,
            SortKey::Birthday => Msg::SortBirthday,
        },
    )
}

/// The message naming an age view.
pub open spec fn view_msg(view: AgeView) -> Msg {
    match view {
        AgeView::Calendar => Msg::ViewCalendar,
        AgeView::Years => Msg::ViewYears,
        AgeView::Months => Msg::ViewMonths,
        AgeView::Weeks => Msg::ViewWeeks,
        AgeView::Days => Msg::ViewDays,
        AgeView::Hours => Msg::ViewHours,
    }
}

/// Label of an age view.
pub fn view_label(lang: Lang, view: AgeView) -> (r: &'static str)
    ensures
        r@ == msg_spec(lang, view_msg(view)),
{
    msg(
        lang,
        match view {
            AgeView::Calendar => Msg::ViewCalendar,
            AgeView::Years => Msg::ViewYears,
            AgeView::Months => Msg::ViewMonths,
            AgeView::Weeks => Msg::ViewWeeks,
            AgeView::Days => Msg::ViewDays,
            AgeView::Hours => Msg::ViewHours,
        },
    )
}

/// The message naming a zodiac sign.
pub open spec fn zodiac_msg(z: Zodiac) -> Msg {
    match z {
        Zodiac::Aries => Msg::ZodiacAries,
        Zodiac::Taurus => Msg::ZodiacTaurus,
        Zodiac::Gemini => Msg::ZodiacGemini,
        Zodiac::Cancer => Msg::ZodiacCancer,
        Zodiac::Leo => Msg::ZodiacLeo,
        Zodiac::Virgo => Msg::ZodiacVirgo,
        Zodiac::Libra => Msg::ZodiacLibra,
        Zodiac::Scorpio => Msg::ZodiacScorpio,
        Zodiac::Sagittarius => Msg::ZodiacSagittarius,
        Zodiac::Capricorn => Msg::ZodiacCapricorn,
        Zodiac::Aquarius => Msg::ZodiacAquarius,
        Zodiac::Pisces => Msg::ZodiacPisces,
    }
}

impl Zodiac {
    /// The localized name of the sign.
    pub fn label(self, lang: Lang) -> (r: &'static str)
        ensures
            r@ == msg_spec(lang, zodiac_msg(self)),
    {
        msg(
            lang,
            match self {
                Zodiac::Aries => Msg::ZodiacAries,
                Zodiac::Taurus => Msg::ZodiacTaurus,
                Zodiac::Gemini => Msg::ZodiacGemini,
                Zodiac::Cancer => Msg::ZodiacCancer,
                Zodiac::Leo => Msg::ZodiacLeo,
                Zodiac::Virgo => Msg::ZodiacVirgo,
                Zodiac::Libra => Msg::ZodiacLibra,
                Zodiac::Scorpio => Msg::ZodiacScorpio,
                Zodiac::Sagittarius => Msg::ZodiacSagittarius,
                Zodiac::Capricorn => Msg::ZodiacCapricorn,
                Zodiac::Aquarius => Msg::ZodiacAquarius,
                Zodiac::Pisces => Msg::ZodiacPisces,
            },
        )
    }
}

/// "birthday today", or "birthday in N day(s)".
pub open spec fn format_birthday_spec(lang: Lang, days: int) -> Seq<char> {
    if days == 0 {
        msg_spec(lang, Msg::BirthdayToday)
    } else {
        msg_spec(lang, Msg::BirthdayInPrefix) + crate::text::decimal_signed(days) + days_word(
            lang,
            days,
        ) + msg_spec(lang, Msg::BirthdayInSuffix)
    }
}

/// The birthday column: today, or in how many days.
pub fn format_birthday(lang: Lang, days: i64) -> (r: String)
    ensures
        r@ == format_birthday_spec(lang, days as int),
{
    if days == 0 {
        return msg(lang, Msg::BirthdayToday).to_string();
    }
    let mut out = str_chars(msg(lang, Msg::BirthdayInPrefix));
    crate::text::push_decimal_signed(&mut out, days);
    push_str(&mut out, msg(lang, if days == 1 { Msg::DaySingular } else { Msg::DayPlural }));
    push_str(&mut out, msg(lang, Msg::BirthdayInSuffix));
    proof {
        assert(out@ =~= format_birthday_spec(lang, days as int));
    }
    chars_to_string(out.as_slice())
}

/// `row` is the table row of `p` at instant `now`, its age shown in `view`: alias,
/// full name, zodiac sign, age and days to the birthday, exact for a known zone and,
/// for the machine's zone, as `age_text_near` and `birthday_days_near` bound them.
pub open spec fn row_shows(lang: Lang, view: AgeView, p: Person, now: int, row: Row) -> bool {
    let z = zodiac_of(p.birth.date.month as int, p.birth.date.day as int);
    &&& row.alias@ == p.alias@
    &&& row.name@ == p.full_name_spec()
    &&& row.zodiac@ == z.symbol_spec() + seq![' '] + msg_spec(lang, zodiac_msg(z))
    &&& age_text_near(lang, view, p, now, row.age@)
    &&& exists|d: int|
        #![trigger format_birthday_spec(lang, d)]
        d >= 0 && birthday_days_near(p, now, d) && row.birthday@ == format_birthday_spec(lang, d)
            && row.today == (d == 0)
    &&& p.tz matches Some(n) ==> {
        let local = local_at(n@, now);
        let d = days_to_birthday(p.birth.date, local.date);
        &&& row.age@ == format_age_view_spec(
            lang,
            view,
            elapsed_spec(instant_of(Some(n@), p.birth), p.birth, now, local, p.has_time),
            age_between_spec(p.birth, local, p.has_time),
        )
        &&& row.birthday@ == format_birthday_spec(lang, d)
        &&& row.today == (d == 0)
    }
}

/// The table rows for `people` at instant `now`, ages shown in `view`.
pub fn rows(lang: Lang, people: &Vec<Person>, now: i64, view: AgeView) -> (r: Vec<Row>)
    requires
        forall|i: int| 0 <= i < people.len() ==> (#[trigger] people[i]).wf(),
        instant_in_range(now as int),
    ensures
        r.len() == people.len(),
        forall|i: int| 0 <= i < people.len() ==> row_shows(lang, view, people[i], now as int, #[trigger] r[i]),
{
    let mut out: Vec<Row> = Vec::new();
    let mut i: usize = 0;
    while i < people.len()
        invariant
            i <= people.len(),
            out.len() == i,
            forall|k: int| 0 <= k < people.len() ==> (#[trigger] people[k]).wf(),
            instant_in_range(now as int),
            forall|k: int| 0 <= k < i ==> row_shows(lang, view, people[k], now as int, #[trigger] out[k]),
        decreases people.len() - i,
    {
        let p = &people[i];
        let days = next_birthday_days(p, now);
        let z = zodiac(p.birth.date);
        let mut zc = str_chars(z.symbol());
        zc.push(' ');
        push_str(&mut zc, z.label(lang));
        let row = Row {
            alias: p.alias.clone(),
            name: p.full_name(),
            age: format_age_view(lang, p, now, view),
            zodiac: chars_to_string(zc.as_slice()),
            birthday: format_birthday(lang, days),
            today: days == 0,
        };
        proof {
            assert(row.zodiac@ =~= z.symbol_spec() + seq![' '] + msg_spec(lang, zodiac_msg(z)));
            assert(row.birthday@ == format_birthday_spec(lang, days as int));
            assert(row_shows(lang, view, *p, now as int, row));
        }
        out.push(row);
        i = i + 1;
    }
    out
}

/// `YYYY-MM-DDTHH:MM:SS` of a local date and time.
pub open spec fn stamp_text(t: LocalDateTime) -> Seq<char> {
    date_text(t.date) + seq!['T'] + decimal2((t.secs / 3600) as nat) + seq![':'] + decimal2(
        ((t.secs / 60) % 60) as nat,
    ) + seq![':'] + decimal2((t.secs % 60) as nat)
}

/// A local date and time as `YYYY-MM-DDTHH:MM:SS`.
pub fn format_stamp(t: LocalDateTime) -> (r: String)
    requires
        t.wf(),
    ensures
        r@ == stamp_text(t),
{
    let mut out = str_chars(format_date(t.date).as_str());
    out.push('T');
    push_decimal2(&mut out, (t.secs / 3600) as u64);
    out.push(':');
    push_decimal2(&mut out, ((t.secs / 60) % 60) as u64);
    out.push(':');
    push_decimal2(&mut out, (t.secs % 60) as u64);
    proof {
        assert(out@ =~= stamp_text(t));
    }
    chars_to_string(out.as_slice())
}

/// One person as the JSON listing shows them.
#[derive(Clone, Debug)]
pub struct JsonPerson {
    pub alias: String,
    pub first_name: String,
    pub last_name: Option<String>,
    /// `YYYY-MM-DDTHH:MM:SS`, local to the birth place.
    pub birth: String,
    pub has_time: bool,
    pub tz: Option<String>,
    /// Path of the stored avatar, when there is one.
    pub avatar: Option<String>,
    pub age: AgeBreakdown,
    /// The zodiac sign's key, e.g. `pisces`.
    pub zodiac: String,
    pub next_birthday_in_days: i64,
}

/// The JSON listing's entries for `people` (of `store`) at instant `now`, in order.
pub fn json_people(store: &Store, people: &Vec<Person>, now: i64) -> (r: Vec<JsonPerson>)
    requires
        forall|i: int| 0 <= i < people.len() ==> (#[trigger] people[i]).wf(),
        instant_in_range(now as int),
    ensures
        r.len() == people.len(),
        forall|i: int|
            0 <= i < people.len() ==> {
                let p = #[trigger] people[i];
                let j = r[i];
                &&& j.alias@ == p.alias@
                &&& j.first_name@ == p.first_name@
                &&& (j.last_name is Some <==> p.last_name is Some)
                &&& (j.last_name matches Some(l) ==> p.last_name matches Some(m) && l@ == m@)
                &&& j.birth@ == stamp_text(p.birth)
                &&& j.has_time == p.has_time
                &&& (j.tz is Some <==> p.tz is Some)
                &&& (j.tz matches Some(z) ==> p.tz matches Some(n) && z@ == n@)
                &&& (j.avatar is Some <==> p.avatar)
                &&& (j.avatar matches Some(a) ==> a@ == avatar_path_spec(store.dir@, p.alias@))
                &&& j.zodiac@ == zodiac_of(p.birth.date.month as int, p.birth.date.day as int).key_spec()
                &&& j.next_birthday_in_days >= 0
                &&& age_near(p, now as int, j.age)
                &&& birthday_days_near(p, now as int, j.next_birthday_in_days as int)
                &&& p.tz matches Some(n) ==> {
                    &&& j.age == age_between_spec(p.birth, local_at(n@, now as int), p.has_time)
                    &&& j.next_birthday_in_days as int == days_to_birthday(p.birth.date, local_at(n@, now as int).date)
                }
            },
{
    let mut out: Vec<JsonPerson> = Vec::new();
    let mut i: usize = 0;
    while i < people.len()
        invariant
            i <= people.len(),
            out.len() == i,
            forall|k: int| 0 <= k < people.len() ==> (#[trigger] people[k]).wf(),
            instant_in_range(now as int),
            forall|k: int|
                0 <= k < i ==> {
                    let p = #[trigger] people[k];
                    let j = out[k];
                    &&& j.alias@ == p.alias@
                    &&& j.first_name@ == p.first_name@
                    &&& (j.last_name is Some <==> p.last_name is Some)
                    &&& (j.last_name matches Some(l) ==> p.last_name matches Some(m) && l@ == m@)
                    &&& j.birth@ == stamp_text(p.birth)
                    &&& j.has_time == p.has_time
                    &&& (j.tz is Some <==> p.tz is Some)
                    &&& (j.tz matches Some(z) ==> p.tz matches Some(n) && z@ == n@)
                    &&& (j.avatar is Some <==> p.avatar)
                    &&& (j.avatar matches Some(a) ==> a@ == avatar_path_spec(store.dir@, p.alias@))
                        &&& j.zodiac@ == zodiac_of(p.birth.date.month as int, p.birth.date.day as int).key_spec()
                    &&& j.next_birthday_in_days >= 0
                    &&& age_near(p, now as int, j.age)
                    &&& birthday_days_near(p, now as int, j.next_birthday_in_days as int)
                    &&& p.tz matches Some(n) ==> {
                        &&& j.age == age_between_spec(p.birth, local_at(n@, now as int), p.has_time)
                        &&& j.next_birthday_in_days as int == days_to_birthday(p.birth.date, local_at(n@, now as int).date)
                    }
                },
        decreases people.len() - i,
    {
        let p = &people[i];
        let last_name = match &p.last_name {
            Some(l) => Some(l.clone()),
            None => None,
        };
        let tz = match &p.tz {
            Some(n) => Some(n.clone()),
            None => None,
        };
        let avatar = if p.avatar {
            Some(store.avatar_path(p.alias.as_str()))
        } else {
            None
        };
        let entry = JsonPerson {
            alias: p.alias.clone(),
            first_name: p.first_name.clone(),
            last_name,
            birth: format_stamp(p.birth),
            has_time: p.has_time,
            tz,
            avatar,
            age: age_at(p, now),
            zodiac: zodiac(p.birth.date).key().to_string(),
            next_birthday_in_days: next_birthday_days(p, now),
        };
        out.push(entry);
        i = i + 1;
    }
    out
}

} // verus!
