//! Time zones: resolving a local wall-clock time to an instant and back,
//! through the IANA database of `chrono_tz` or the system zone of `chrono`.
use vstd::prelude::*;

use crate::calendar::{Date, LocalDateTime, DAY_SECS, MAX_YEAR, next_day};
use chrono::{Datelike, TimeZone, Timelike};

verus! {

/// Whether `name` is a zone of the IANA database (`chrono_tz::Tz::from_str` succeeds).
pub uninterp spec fn tz_known(name: Seq<char>) -> bool;

/// The instants (Unix seconds, earliest first) at which the clocks of zone `tz` show
/// the local time `(year, month, day, secs)`; `None` when `tz` is not a known zone.
pub uninterp spec fn tz_local_instants(
    tz: Seq<char>,
    year: int,
    month: int,
    day: int,
    secs: int,
) -> Option<Seq<i64>>;

/// The local time `(year, month, day, secs)` shown in zone `tz` at instant `utc`
/// (Unix seconds); `None` when `tz` is not a known zone.
pub uninterp spec fn tz_local_time(tz: Seq<char>, utc: int) -> Option<(i32, u32, u32, u32)>;

/// Instants whose local time in any zone stays inside the supported years.
pub open spec fn instant_in_range(t: int) -> bool {
    -8_000_000_000_000 <= t <= 8_000_000_000_000
}

/// Parses `name` as a `chrono_tz::Tz` and gives back its canonical name
/// (`Tz::from_str`, then `Tz::name`, which spells a zone as it was looked up).
#[verifier::external_body]
pub(crate) fn tz_parse(name: &str) -> (r: Option<String>)
    ensures
        r is Some <==> tz_known(name@),
        r matches Some(n) ==> n@ == name@,
{
    name.parse::<chrono_tz::Tz>().ok().map(|t| t.name().to_string())
}

/// `chrono_tz::Tz::from_local_datetime`: the instants showing local time `t` in zone `tz`
/// (one, two around a backward clock change, none in a gap). Each differs from `t` read
/// as UTC by the zone's offset, less than a day.
#[verifier::external_body]
pub(crate) fn tz_from_local(tz: &str, t: LocalDateTime) -> (r: Option<Vec<i64>>)
    requires
        t.wf(),
    ensures
        r is Some <==> tz_known(tz@),
        r matches Some(v) ==> v@ == tz_local_instants(
            tz@,
            t.date.year as int,
            t.date.month as int,
            t.date.day as int,
            t.secs as int,
        ).unwrap() && v.len() <= 2,
        r matches Some(v) ==> forall|i: int|
            0 <= i < v.len() ==> -9_000_000_000_000 < #[trigger] v[i] < 9_000_000_000_000 && -86400 < naive_as_utc(t)
                - v[i] < 86400,
{
    let zone: chrono_tz::Tz = tz.parse().ok()?;
    let naive = chrono::NaiveDate::from_ymd_opt(t.date.year, t.date.month, t.date.day)?
        .and_hms_opt(t.secs / 3600, (t.secs / 60) % 60, t.secs % 60)?;
    Some(match zone.from_local_datetime(&naive) {
        chrono::LocalResult::Single(x) => vec![x.timestamp()],
        chrono::LocalResult::Ambiguous(a, b) => vec![a.timestamp(), b.timestamp()],
        chrono::LocalResult::None => vec![],
    })
}

/// `DateTime::with_timezone(tz).naive_local()`: the local time in zone `tz` at instant `utc`.
#[verifier::external_body]
pub(crate) fn tz_to_local(tz: &str, utc: i64) -> (r: Option<LocalDateTime>)
    requires
        instant_in_range(utc as int),
    ensures
        r is Some <==> tz_known(tz@),
        r matches Some(l) ==> l.wf() && tz_local_time(tz@, utc as int) == Some(
            (l.date.year, l.date.month, l.date.day, l.secs),
        ) && -86400 < naive_as_utc(l) - utc < 86400,
{
    let zone: chrono_tz::Tz = tz.parse().ok()?;
    let local = chrono::DateTime::from_timestamp(utc, 0)?.with_timezone(&zone).naive_local();
    Some(LocalDateTime {
        date: Date { year: local.year(), month: local.month(), day: local.day() },
        secs: local.num_seconds_from_midnight(),
    })
}

/// `chrono::Local::from_local_datetime`: the instants showing local time `t` in the
/// zone of this machine. What comes back depends on the machine's settings; each
/// differs from `t` read as UTC by an offset of less than a day (a `FixedOffset`).
#[verifier::external_body]
pub(crate) fn system_from_local(t: LocalDateTime) -> (r: Vec<i64>)
    requires
        t.wf(),
    ensures
        r.len() <= 2,
        forall|i: int|
            0 <= i < r.len() ==> -9_000_000_000_000 < #[trigger] r[i] < 9_000_000_000_000 && -86400 < naive_as_utc(t)
                - r[i] < 86400,
{
    let naive = match chrono::NaiveDate::from_ymd_opt(t.date.year, t.date.month, t.date.day)
        .and_then(|d| d.and_hms_opt(t.secs / 3600, (t.secs / 60) % 60, t.secs % 60)) {
        Some(n) => n,
        None => return vec![],
    };
    match chrono::Local.from_local_datetime(&naive) {
        chrono::LocalResult::Single(x) => vec![x.timestamp()],
        chrono::LocalResult::Ambiguous(a, b) => vec![a.timestamp(), b.timestamp()],
        chrono::LocalResult::None => vec![],
    }
}

/// `DateTime::with_timezone(&chrono::Local).naive_local()`: the local time of this machine
/// at instant `utc`. What comes back depends on the machine's settings.
#[verifier::external_body]
pub(crate) fn system_to_local(utc: i64) -> (r: LocalDateTime)
    requires
        instant_in_range(utc as int),
    ensures
        r.wf(),
        -86400 < naive_as_utc(r) - utc < 86400,
{
    let local = chrono::DateTime::from_timestamp(utc, 0).unwrap().with_timezone(
        &chrono::Local,
    ).naive_local();
    LocalDateTime {
        date: Date { year: local.year(), month: local.month(), day: local.day() },
        secs: local.num_seconds_from_midnight(),
    }
}

/// Unix seconds of a local time read as if it were UTC.
pub open spec fn naive_as_utc(t: LocalDateTime) -> int {
    (t.date.day_number() - 719163) * 86400 + t.secs
}

/// `t` one hour later.
pub open spec fn plus_hour(t: LocalDateTime) -> LocalDateTime {
    if t.secs + 3600 < DAY_SECS {
        LocalDateTime { date: t.date, secs: (t.secs + 3600) as u32 }
    } else {
        LocalDateTime { date: t.date.next_spec(), secs: (t.secs + 3600 - DAY_SECS) as u32 }
    }
}

/// The instant a local time stands for, given the instants showing it (`now`) and those
/// showing it an hour later (`later`): the earliest of `now`; in a gap the earliest of
/// `later`; failing both, the local time read as UTC.
pub open spec fn resolve_instant(t: LocalDateTime, now: Seq<i64>, later: Seq<i64>) -> int {
    if now.len() > 0 {
        now[0] as int
    } else if later.len() > 0 {
        later[0] as int
    } else {
        naive_as_utc(t)
    }
}

/// Whether the time an hour after `t` is still in the supported range: all but the
/// last hour of the last supported day.
pub open spec fn hour_later_fits(t: LocalDateTime) -> bool {
    t.secs + 3600 < DAY_SECS || t.date.has_next()
}

/// The instant local time `t` stands for in zone `tz` (`None`: the system zone). An hour
/// after the last supported day no instant shows, so a gap there is read as UTC.
pub open spec fn instant_of(tz: Option<Seq<char>>, t: LocalDateTime) -> int
    recommends
        tz is Some,
{
    let name = tz.unwrap();
    let d = t.date;
    let l = plus_hour(t);
    resolve_instant(
        t,
        tz_local_instants(name, d.year as int, d.month as int, d.day as int, t.secs as int).unwrap(),
        if hour_later_fits(t) {
            tz_local_instants(
                name,
                l.date.year as int,
                l.date.month as int,
                l.date.day as int,
                l.secs as int,
            ).unwrap()
        } else {
            Seq::empty()
        },
    )
}

/// `t` one hour later.
pub fn add_hour(t: LocalDateTime) -> (r: LocalDateTime)
    requires
        t.wf(),
        hour_later_fits(t),
    ensures
        r == plus_hour(t),
        r.wf(),
{
    if t.secs + 3600 < DAY_SECS {
        LocalDateTime { date: t.date, secs: t.secs + 3600 }
    } else {
        LocalDateTime { date: next_day(t.date), secs: t.secs + 3600 - DAY_SECS }
    }
}

/// Unix seconds of a local time read as if it were UTC.
pub fn naive_utc(t: LocalDateTime) -> (r: i64)
    requires
        t.wf(),
    ensures
        r as int == naive_as_utc(t),
        -9_000_000_000_000 < r < 9_000_000_000_000,
{
    proof {
        crate::calendar::lemma_day_number_bounds(t.date);
    }
    (crate::calendar::day_number(t.date) - 719163) * 86400 + t.secs as i64
}

/// Picks the instant for a local time from the clock lookups (see `resolve_instant`).
pub fn pick_instant(t: LocalDateTime, now: &Vec<i64>, later: &Vec<i64>) -> (r: i64)
    requires
        t.wf(),
        forall|i: int| 0 <= i < now.len() ==> -9_000_000_000_000 < #[trigger] now[i] < 9_000_000_000_000,
        forall|i: int| 0 <= i < later.len() ==> -9_000_000_000_000 < #[trigger] later[i] < 9_000_000_000_000,
    ensures
        r as int == resolve_instant(t, now@, later@),
        -9_000_000_000_000 < r < 9_000_000_000_000,
{
    if now.len() > 0 {
        now[0]
    } else if later.len() > 0 {
        later[0]
    } else {
        naive_utc(t)
    }
}

/// The instant local time `t` stands for in zone `tz`, or in the system zone for `None`.
/// In a gap (clocks jump forward) the time is read an hour later; an ambiguous time
/// takes its earlier instant. In the last hour of the last supported day there is no
/// hour later, and a gap there is read as UTC.
pub fn local_to_instant(tz: &Option<String>, t: LocalDateTime) -> (r: i64)
    requires
        t.wf(),
        tz matches Some(n) ==> tz_known(n@),
    ensures
        tz matches Some(n) ==> r as int == instant_of(Some(n@), t),
        -9_000_000_000_000 < r < 9_000_000_000_000,
        -90000 < r - naive_as_utc(t) < 90000,
{
    let fits = t.secs + 3600 < DAY_SECS || t.date.year < MAX_YEAR || t.date.month < 12 || t.date.day < 31;
    match tz {
        Some(name) => {
            let now_v = tz_from_local(name.as_str(), t).unwrap();
            let later_v = if fits {
                let later = add_hour(t);
                proof {
                    lemma_plus_hour_naive(t);
                }
                tz_from_local(name.as_str(), later).unwrap()
            } else {
                Vec::new()
            };
            pick_instant(t, &now_v, &later_v)
        },
        None => {
            let now_v = system_from_local(t);
            let later_v = if fits {
                let later = add_hour(t);
                proof {
                    lemma_plus_hour_naive(t);
                }
                system_from_local(later)
            } else {
                Vec::new()
            };
            pick_instant(t, &now_v, &later_v)
        },
    }
}

/// The local time at instant `utc` in zone `tz`, or in the system zone for `None`.
pub fn instant_to_local(tz: &Option<String>, utc: i64) -> (r: LocalDateTime)
    requires
        instant_in_range(utc as int),
        tz matches Some(n) ==> tz_known(n@),
    ensures
        r.wf(),
        r.date.year < MAX_YEAR,
        -86400 < naive_as_utc(r) - utc < 86400,
        tz matches Some(n) ==> tz_local_time(n@, utc as int) == Some(
            (r.date.year, r.date.month, r.date.day, r.secs),
        ),
{
    let r = match tz {
        Some(name) => tz_to_local(name.as_str(), utc).unwrap(),
        None => system_to_local(utc),
    };
    proof {
        lemma_local_year_in_range(r, utc as int);
    }
    r
}

/// An hour later reads an hour later as UTC.
proof fn lemma_plus_hour_naive(t: LocalDateTime)
    requires
        t.wf(),
        hour_later_fits(t),
    ensures
        naive_as_utc(plus_hour(t)) == naive_as_utc(t) + 3600,
{
    if t.secs + 3600 >= DAY_SECS {
        crate::calendar::lemma_next_day_number(t.date);
    }
}

proof fn lemma_local_year_in_range(l: LocalDateTime, utc: int)
    requires
        l.wf(),
        instant_in_range(utc),
        -86400 < naive_as_utc(l) - utc < 86400,
    ensures
        l.date.year < MAX_YEAR,
{
    if l.date.year >= MAX_YEAR {
        crate::calendar::lemma_year_mono(200000, l.date.year as int);
        assert(crate::calendar::days_before_year(200000) == 73045425);
    }
}

} // verus!
