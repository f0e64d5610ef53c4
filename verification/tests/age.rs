use ages::age::Zodiac::{Aquarius, Aries, Capricorn, Leo, Pisces, Sagittarius, Taurus};
use ages::age::{age_at, birth_instant, elapsed, next_birthday_days, zodiac, Zodiac};
use ages::calendar::{Date, LocalDateTime};
use ages::model::{Person, SortKey};
use ages::order::sort_people;

fn p(y: i32, m: u32, d: u32, hm: Option<(u32, u32)>, tz: Option<&str>) -> Person {
    let (h, mi) = hm.unwrap_or((0, 0));
    Person {
        alias: format!("p{y}{m}{d}"),
        first_name: "X".into(),
        last_name: None,
        birth: LocalDateTime { date: Date { year: y, month: m, day: d }, secs: h * 3600 + mi * 60 },
        has_time: hm.is_some(),
        tz: tz.map(|t| t.to_string()),
        avatar: false,
        pixel: false,
    }
}

fn utc(y: i32, m: u32, d: u32, h: u32, mi: u32, s: u32) -> i64 {
    chrono::NaiveDate::from_ymd_opt(y, m, d)
        .unwrap()
        .and_hms_opt(h, mi, s)
        .unwrap()
        .and_utc()
        .timestamp()
}

#[test]
fn borrow_from_january() {
    let a = age_at(&p(2023, 1, 31, None, Some("UTC")), utc(2023, 3, 1, 12, 0, 0));
    assert_eq!((a.years, a.months, a.days), (0, 1, 1));
}

#[test]
fn leap_birthday_non_leap_year() {
    let a = age_at(&p(2000, 2, 29, None, Some("UTC")), utc(2023, 2, 28, 12, 0, 0));
    assert_eq!((a.years, a.months, a.days), (23, 0, 0));
    let b = age_at(&p(2000, 2, 29, None, Some("UTC")), utc(2023, 2, 27, 12, 0, 0));
    assert_eq!(b.years, 22);
}

#[test]
fn hms_hidden_without_time() {
    let a = age_at(&p(1990, 5, 5, None, Some("UTC")), utc(2020, 5, 5, 10, 0, 0));
    assert_eq!((a.years, a.months, a.days, a.hours), (30, 0, 0, None));
}

#[test]
fn hms_borrow_day() {
    let a = age_at(&p(1990, 5, 5, Some((10, 0)), Some("UTC")), utc(2020, 5, 5, 9, 30, 15));
    assert_eq!(
        (a.years, a.months, a.days, a.hours, a.minutes, a.seconds),
        (29, 11, 29, Some(23), Some(30), Some(15))
    );
}

#[test]
fn same_instant_two_timezones_same_age() {
    let ist = p(1990, 1, 1, Some((3, 0)), Some("Europe/Istanbul"));
    let utc0 = p(1990, 1, 1, Some((1, 0)), Some("UTC"));
    assert_eq!(birth_instant(&ist), birth_instant(&utc0));
    let now = utc(2020, 6, 1, 0, 0, 0);
    assert_eq!(age_at(&ist, now).years, age_at(&utc0, now).years);
}

#[test]
fn dst_gap_does_not_panic() {
    let a = p(2024, 3, 31, Some((2, 30)), Some("Europe/Berlin"));
    let _ = birth_instant(&a);
    let _ = age_at(&a, utc(2025, 1, 1, 0, 0, 0));
}

#[test]
fn dst_gap_resolves_an_hour_later() {
    // 02:30 does not exist in Berlin on 2024-03-31; it is read as 03:30 CEST = 01:30 UTC.
    let a = p(2024, 3, 31, Some((2, 30)), Some("Europe/Berlin"));
    assert_eq!(birth_instant(&a), utc(2024, 3, 31, 1, 30, 0));
}

#[test]
fn elapsed_totals() {
    let a = p(2000, 1, 1, Some((0, 0)), Some("UTC"));
    assert_eq!(elapsed(&a, utc(2000, 1, 8, 12, 0, 0)), (7 * 24 + 12) * 3600);
    let b = p(2000, 1, 1, None, Some("UTC"));
    assert_eq!(elapsed(&b, utc(2000, 1, 8, 12, 0, 0)), 7 * 86400);
    assert_eq!(elapsed(&b, utc(1999, 1, 1, 0, 0, 0)), 0);
}

#[test]
fn zodiac_boundaries() {
    let z = |m, d| zodiac(Date { year: 2001, month: m, day: d });
    assert_eq!(z(3, 20), Pisces);
    assert_eq!(z(3, 21), Aries);
    assert_eq!(z(4, 19), Aries);
    assert_eq!(z(4, 20), Taurus);
    assert_eq!(z(8, 1), Leo);
    assert_eq!(z(12, 21), Sagittarius);
    assert_eq!(z(12, 22), Capricorn);
    assert_eq!(z(1, 19), Capricorn);
    assert_eq!(z(1, 20), Aquarius);
    assert_eq!(z(2, 18), Aquarius);
    assert_eq!(z(2, 19), Pisces);
}

#[test]
fn zodiac_symbols_and_keys() {
    assert_eq!(Zodiac::Pisces.symbol(), "♓");
    assert_eq!(Zodiac::Leo.symbol(), "♌");
    assert_eq!(Zodiac::Pisces.key(), "pisces");
    assert_eq!(Zodiac::Capricorn.key(), "capricorn");
}

#[test]
fn next_birthday() {
    let a = p(1990, 6, 15, None, Some("UTC"));
    assert_eq!(next_birthday_days(&a, utc(2020, 6, 15, 12, 0, 0)), 0);
    assert_eq!(next_birthday_days(&a, utc(2020, 6, 14, 12, 0, 0)), 1);
    assert_eq!(next_birthday_days(&a, utc(2020, 6, 16, 12, 0, 0)), 364);
}

#[test]
fn next_birthday_leap_to_mar1() {
    let a = p(2000, 2, 29, None, Some("UTC"));
    assert_eq!(next_birthday_days(&a, utc(2023, 2, 28, 12, 0, 0)), 1);
    assert_eq!(next_birthday_days(&a, utc(2024, 2, 29, 12, 0, 0)), 0);
}

#[test]
fn next_birthday_depends_on_the_zone() {
    // 23:00 UTC on 14 June is already 15 June in Istanbul.
    let now = utc(2020, 6, 14, 23, 0, 0);
    assert_eq!(next_birthday_days(&p(1990, 6, 15, None, Some("UTC")), now), 1);
    assert_eq!(next_birthday_days(&p(1990, 6, 15, None, Some("Europe/Istanbul")), now), 0);
}

#[test]
fn sort_age_desc_ties_alias() {
    let mut v = vec![
        p(2000, 1, 1, None, Some("UTC")),
        p(1990, 1, 1, None, Some("UTC")),
        p(1995, 1, 1, None, Some("UTC")),
    ];
    v[0].alias = "b".into();
    v[1].alias = "c".into();
    v[2].alias = "a".into();
    let now = utc(2020, 1, 1, 0, 0, 0);
    sort_people(&mut v, SortKey::Age, now);
    assert_eq!(v.iter().map(|p| p.alias.as_str()).collect::<Vec<_>>(), ["c", "a", "b"]);
    sort_people(&mut v, SortKey::Alias, now);
    assert_eq!(v.iter().map(|p| p.alias.as_str()).collect::<Vec<_>>(), ["a", "b", "c"]);
    let mut same = vec![p(2000, 1, 1, None, Some("UTC")), p(2000, 1, 1, None, Some("UTC"))];
    same[0].alias = "z".into();
    same[1].alias = "y".into();
    sort_people(&mut same, SortKey::Age, now);
    assert_eq!(same[0].alias, "y");
}

#[test]
fn sort_birthday_soonest_first() {
    let now = utc(2020, 6, 1, 0, 0, 0);
    let mut v = vec![p(1990, 12, 1, None, Some("UTC")), p(1990, 6, 2, None, Some("UTC"))];
    sort_people(&mut v, SortKey::Birthday, now);
    assert_eq!(v[0].birth.date.month, 6);
}

#[test]
fn sort_keeps_everyone() {
    let now = utc(2020, 6, 1, 0, 0, 0);
    let mut v = vec![
        p(1990, 12, 1, None, Some("UTC")),
        p(1980, 6, 2, None, None),
        p(2001, 2, 3, Some((4, 5)), Some("Asia/Tokyo")),
    ];
    let mut before: Vec<String> = v.iter().map(|p| p.alias.clone()).collect();
    sort_people(&mut v, SortKey::Birthday, now);
    let mut after: Vec<String> = v.iter().map(|p| p.alias.clone()).collect();
    before.sort();
    after.sort();
    assert_eq!(before, after);
}

#[test]
fn age_before_birth_is_zero() {
    let a = age_at(&p(2030, 6, 1, Some((8, 0)), Some("UTC")), utc(2030, 6, 1, 7, 59, 59));
    assert_eq!(
        (a.years, a.months, a.days, a.hours, a.minutes, a.seconds),
        (0, 0, 0, Some(0), Some(0), Some(0))
    );
    let b = age_at(&p(2030, 6, 1, None, Some("UTC")), utc(2030, 5, 31, 23, 0, 0));
    assert_eq!((b.years, b.months, b.days, b.hours, b.minutes, b.seconds), (0, 0, 0, None, None, None));
}

#[test]
fn system_zone_age_is_within_a_day_of_utc() {
    // Without a zone the machine's zone is used; whatever it is, the age of someone born
    // ten years and a few days earlier is ten years and a few days.
    let a = age_at(&p(2010, 3, 10, None, None), utc(2020, 3, 15, 12, 0, 0));
    assert_eq!((a.years, a.months), (10, 0));
    assert!((4..=6).contains(&a.days), "{}", a.days);
    assert_eq!(a.hours, None);
}

#[test]
fn system_zone_people_sort_oldest_first() {
    let mut v = vec![p(1990, 1, 1, None, None), p(1950, 6, 1, None, None), p(2001, 3, 3, None, None)];
    sort_people(&mut v, SortKey::Age, utc(2024, 1, 1, 0, 0, 0));
    let years: Vec<i32> = v.iter().map(|q| q.birth.date.year).collect();
    assert_eq!(years, vec![1950, 1990, 2001]);
}
