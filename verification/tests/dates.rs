use ages::dates::{build_person, parse_date, parse_time, parse_tz, DateError};
use ages::i18n::Lang;

#[test]
fn iso_date() {
    let d = parse_date("1994-05-12").unwrap();
    assert_eq!((d.year, d.month, d.day), (1994, 5, 12));
}

#[test]
fn tr_date() {
    let d = parse_date("12.05.1994").unwrap();
    assert_eq!((d.year, d.month, d.day), (1994, 5, 12));
}

#[test]
fn rejects_feb_31() {
    assert!(matches!(parse_date("31.02.2000"), Err(DateError::BadDate(_))));
}

#[test]
fn rejects_garbage() {
    assert!(parse_date("yesterday").is_err());
}

#[test]
fn time_ok() {
    assert_eq!(parse_time("04:30").unwrap(), 4 * 3600 + 30 * 60);
}

#[test]
fn time_bad() {
    assert!(matches!(parse_time("4h30"), Err(DateError::BadTime(_))));
}

#[test]
fn tz_ok() {
    assert_eq!(parse_tz("Europe/Istanbul").unwrap(), "Europe/Istanbul");
}

#[test]
fn tz_bad() {
    assert!(matches!(parse_tz("Mars/Olympus"), Err(DateError::BadTz(_))));
}

#[test]
fn bad_date_message_is_localized() {
    assert_eq!(
        DateError::BadDate("x".into()).message(Lang::En),
        "\"x\" is not a date. Use YYYY-MM-DD or DD.MM.YYYY."
    );
}

#[test]
fn inputs_are_trimmed() {
    let d = parse_date("  2001-02-03 ").unwrap();
    assert_eq!((d.year, d.month, d.day), (2001, 2, 3));
    assert_eq!(parse_time(" 23:59 ").unwrap(), 23 * 3600 + 59 * 60);
    assert_eq!(parse_tz(" UTC ").unwrap(), "UTC");
    match parse_date(" nope ") {
        Err(DateError::BadDate(v)) => assert_eq!(v, "nope"),
        other => panic!("{other:?}"),
    }
}

#[test]
fn build_person_errors_in_field_order() {
    assert!(matches!(
        build_person("a", "A", None, "bad", Some("bad"), Some("bad")),
        Err(DateError::BadDate(_))
    ));
    assert!(matches!(
        build_person("a", "A", None, "2000-01-01", Some("bad"), Some("bad")),
        Err(DateError::BadTime(_))
    ));
    assert!(matches!(
        build_person("a", "A", None, "2000-01-01", Some("10:00"), Some("bad")),
        Err(DateError::BadTz(_))
    ));
}

#[test]
fn build_person_fields() {
    let p = build_person("anne", "Ayşe", Some(""), "14.03.1965", Some("04:30"), Some("Europe/Istanbul")).unwrap();
    assert_eq!(p.alias, "anne");
    assert_eq!(p.first_name, "Ayşe");
    assert_eq!(p.last_name, None);
    assert_eq!((p.birth.date.year, p.birth.date.month, p.birth.date.day), (1965, 3, 14));
    assert_eq!(p.birth.secs, 4 * 3600 + 30 * 60);
    assert!(p.has_time);
    assert_eq!(p.tz.as_deref(), Some("Europe/Istanbul"));
    assert!(!p.avatar && !p.pixel);
    assert!(p.is_usable());
    let q = build_person("k", "Can", Some("Aktaş"), "2000-08-01", None, None).unwrap();
    assert_eq!(q.last_name.as_deref(), Some("Aktaş"));
    assert_eq!(q.birth.secs, 0);
    assert!(!q.has_time);
    assert_eq!(q.tz, None);
}

#[test]
fn error_messages_per_kind() {
    assert_eq!(
        DateError::BadTime("4h".into()).message(Lang::En),
        "\"4h\" is not a time. Use HH:MM."
    );
    assert!(DateError::BadTz("Mars".into()).message(Lang::En).contains("Mars"));
    assert!(DateError::BadDate("x".into()).message(Lang::Tr).contains("\"x\""));
}

#[test]
fn last_supported_year_is_a_date() {
    let p = build_person("far", "Far", None, "+262142-12-31", Some("23:30"), Some("UTC")).unwrap();
    assert_eq!((p.birth.date.year, p.birth.date.month, p.birth.date.day), (262142, 12, 31));
    let now = ages::age::birth_instant(&p) - 10;
    let a = ages::age::age_at(&p, 0);
    assert_eq!((a.years, a.months, a.days, a.hours), (0, 0, 0, Some(0)));
    assert!(now > 8_000_000_000_000);
    assert!(ages::age::next_birthday_days(&p, 0) <= 365);
    let q = build_person("far2", "Far", None, "+262142-01-01", None, None).unwrap();
    assert!(ages::age::birth_instant(&q) > 8_000_000_000_000);
}
