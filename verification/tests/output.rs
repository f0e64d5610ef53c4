use ages::age::AgeBreakdown;
use ages::calendar::{Date, LocalDateTime};
use ages::i18n::Lang;
use ages::model::{AgeView, Person, SortKey};
use ages::output::{
    format_age, format_age_view, format_birthday, format_stamp, group_thousands, json_people, rows,
    sort_label, view_label, Row,
};
use ages::store::Store;
use ages::table::{display_width, pad, render_table_checked};

fn utc(y: i32, m: u32, d: u32, h: u32, mi: u32, s: u32) -> i64 {
    chrono::NaiveDate::from_ymd_opt(y, m, d)
        .unwrap()
        .and_hms_opt(h, mi, s)
        .unwrap()
        .and_utc()
        .timestamp()
}

fn person(alias: &str, first: &str, last: Option<&str>, y: i32, m: u32, d: u32) -> Person {
    Person {
        alias: alias.into(),
        first_name: first.into(),
        last_name: last.map(|s| s.to_string()),
        birth: LocalDateTime { date: Date { year: y, month: m, day: d }, secs: 0 },
        has_time: true,
        tz: Some("UTC".into()),
        avatar: false,
        pixel: false,
    }
}

#[test]
fn age_formats() {
    let a = AgeBreakdown { years: 61, months: 6, days: 7, hours: Some(9), minutes: Some(4), seconds: Some(32) };
    assert_eq!(format_age(Lang::En, &a), "61y 6m 7d 09:04:32");
    let b = AgeBreakdown { years: 27, months: 9, days: 3, hours: None, minutes: None, seconds: None };
    assert_eq!(format_age(Lang::En, &b), "27y 9m 3d");
}

#[test]
fn age_views() {
    let p = person("a", "A", None, 2000, 1, 1);
    let now = utc(2001, 1, 8, 12, 0, 0);
    assert_eq!(format_age_view(Lang::En, &p, now, AgeView::Calendar), "1y 0m 7d 12:00:00");
    assert_eq!(format_age_view(Lang::En, &p, now, AgeView::Years), "1.02 years");
    assert_eq!(format_age_view(Lang::En, &p, now, AgeView::Months), "12 months 7 days");
    assert_eq!(format_age_view(Lang::En, &p, now, AgeView::Weeks), "53 weeks 2 days");
    assert_eq!(format_age_view(Lang::En, &p, now, AgeView::Days), "373 days");
    assert_eq!(format_age_view(Lang::En, &p, now, AgeView::Hours), "8\u{202f}964 hours");
    assert_eq!(group_thousands(22473), "22\u{202f}473");
    assert_eq!(group_thousands(999), "999");
    assert_eq!(view_label(Lang::En, AgeView::Weeks), "weeks");
}

#[test]
fn group_thousands_edges() {
    assert_eq!(group_thousands(0), "0");
    assert_eq!(group_thousands(1000), "1\u{202f}000");
    assert_eq!(group_thousands(1234567), "1\u{202f}234\u{202f}567");
    assert_eq!(group_thousands(-1234), "-1\u{202f}234");
}

#[test]
fn group_thousands_only_inserts_separators() {
    for n in [0i64, 7, 999, 1000, -1000, 1234567, -987654321, i64::MAX, i64::MIN + 1] {
        let plain: String = group_thousands(n).chars().filter(|c| *c != '\u{202f}').collect();
        assert_eq!(plain, n.to_string());
    }
}

#[test]
fn years_view_rounds_to_hundredths() {
    let p = person("a", "A", None, 2000, 1, 1);
    // Exactly half a year of 365.2425 days.
    let now = utc(2000, 1, 1, 0, 0, 0) + 31556952 / 2;
    assert_eq!(format_age_view(Lang::En, &p, now, AgeView::Years), "0.50 years");
    assert_eq!(format_age_view(Lang::En, &p, utc(2000, 1, 1, 0, 0, 0), AgeView::Years), "0.00 years");
}

#[test]
fn birthday_formats_plural() {
    assert_eq!(format_birthday(Lang::En, 0), "birthday today");
    assert_eq!(format_birthday(Lang::En, 1), "birthday in 1 day");
    assert_eq!(format_birthday(Lang::En, 174), "birthday in 174 days");
    assert_eq!(format_birthday(Lang::Tr, 0), "doğum günü bugün");
}

#[test]
fn labels_are_localized() {
    assert_eq!(sort_label(Lang::En, SortKey::Age), "age");
    assert_ne!(sort_label(Lang::Tr, SortKey::Age), sort_label(Lang::En, SortKey::Age));
    assert_ne!(view_label(Lang::Tr, AgeView::Weeks), "weeks");
}

#[test]
fn table_pads_columns() {
    let rows = vec![
        Row {
            alias: "anne".into(),
            name: "Ayşe Aktaş".into(),
            age: "61y".into(),
            zodiac: "♓ Pisces".into(),
            birthday: "birthday in 3 days".into(),
            today: false,
        },
        Row {
            alias: "k".into(),
            name: "Can".into(),
            age: "1y".into(),
            zodiac: "♌ Leo".into(),
            birthday: "birthday today".into(),
            today: true,
        },
    ];
    let t = render_table_checked(Lang::En, &rows).unwrap();
    let lines: Vec<&str> = t.lines().collect();
    assert_eq!(lines.len(), 3);
    assert!(lines[0].starts_with("alias  name        age"));
    assert!(lines[1].starts_with("anne   Ayşe Aktaş  61y"));
    assert!(lines[2].contains("🎂 birthday today"));
    let col = |line: &str, needle: &str| display_width(&line[..line.find(needle).unwrap()]);
    assert_eq!(col(lines[0], "birthday"), col(lines[1], "birthday in 3 days"));
    assert_eq!(col(lines[0], "birthday"), col(lines[2], "🎂"));
    assert_eq!(col(lines[0], "zodiac"), col(lines[1], "♓"));
    assert_eq!(display_width("♓ Pisces"), 9);
    assert_eq!(display_width("🎂"), 2);
    assert_eq!(display_width("Ayşe"), 4);
}

#[test]
fn table_lines_have_no_trailing_spaces() {
    let rows = vec![Row {
        alias: "a".into(),
        name: "B".into(),
        age: "1y".into(),
        zodiac: "♌ Leo".into(),
        birthday: "".into(),
        today: false,
    }];
    let t = render_table_checked(Lang::En, &rows).unwrap();
    assert!(t.ends_with('\n'));
    for line in t.lines() {
        assert_eq!(line, line.trim_end());
    }
}

#[test]
fn pad_fills_to_width() {
    assert_eq!(pad("ab", 4), "ab  ");
    assert_eq!(pad("♓", 3), "♓ ");
    assert_eq!(pad("abcdef", 2), "abcdef");
}

#[test]
fn rows_fill_every_column() {
    let people = vec![person("anne", "Ayşe", Some("Aktaş"), 1965, 3, 14)];
    let now = utc(2020, 3, 14, 12, 0, 0);
    let r = rows(Lang::En, &people, now, AgeView::Calendar);
    assert_eq!(r.len(), 1);
    assert_eq!(r[0].alias, "anne");
    assert_eq!(r[0].name, "Ayşe Aktaş");
    assert_eq!(r[0].age, "55y 0m 0d 12:00:00");
    assert_eq!(r[0].zodiac, "♓ Pisces");
    assert_eq!(r[0].birthday, "birthday today");
    assert!(r[0].today);
}

#[test]
fn full_name_and_initials() {
    assert_eq!(person("a", "Ayşe", Some("Aktaş"), 2000, 1, 1).full_name(), "Ayşe Aktaş");
    assert_eq!(person("a", "Ayşe", Some("Aktaş"), 2000, 1, 1).initials(), "AA");
    assert_eq!(person("a", "can", None, 2000, 1, 1).full_name(), "can");
    assert_eq!(person("a", "can", None, 2000, 1, 1).initials(), "C");
}

#[test]
fn json_entries() {
    let mut store = Store::new("/data".into());
    let mut p = person("anne", "Ayşe", None, 1965, 3, 14);
    p.birth.secs = 4 * 3600 + 30 * 60;
    p.avatar = true;
    store.data.people.push(p);
    let now = utc(2020, 3, 11, 12, 0, 0);
    let j = json_people(&store, &store.data.people, now);
    assert_eq!(j.len(), 1);
    assert_eq!(j[0].alias, "anne");
    assert_eq!(j[0].birth, "1965-03-14T04:30:00");
    assert_eq!(j[0].avatar.as_deref(), Some("/data/avatars/anne.png"));
    assert_eq!(j[0].zodiac, "pisces");
    assert_eq!(j[0].next_birthday_in_days, 3);
    assert_eq!(j[0].age.years, 54);
}

#[test]
fn stamp_pads_fields() {
    let t = LocalDateTime { date: Date { year: 7, month: 2, day: 3 }, secs: 3661 };
    assert_eq!(format_stamp(t), "0007-02-03T01:01:01");
}
