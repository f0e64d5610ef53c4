use ages::calendar::{Date, LocalDateTime};
use ages::commands::{add_person, apply_edit, check_edit, set_avatar, CommandError, EditRequest};
use ages::avatar::AvatarError;
use ages::dates::DateError;
use ages::i18n::Lang;
use ages::model::Person;
use ages::store::{validate_alias, Store, StoreError};

fn person(alias: &str) -> Person {
    Person {
        alias: alias.into(),
        first_name: "Ayşe".into(),
        last_name: Some("Aktaş".into()),
        birth: LocalDateTime { date: Date { year: 1965, month: 3, day: 14 }, secs: 4 * 3600 + 30 * 60 },
        has_time: true,
        tz: Some("Europe/Istanbul".into()),
        avatar: false,
        pixel: false,
    }
}

fn aliases(s: &Store) -> Vec<String> {
    s.data.people.iter().map(|p| p.alias.clone()).collect()
}

#[test]
fn open_missing_is_empty() {
    let s = Store::new("/tmp/nowhere".into());
    assert!(s.data.people.is_empty());
}

#[test]
fn duplicate_rejected() {
    let mut s = Store::new("/d".into());
    s.add(person("anne")).unwrap();
    assert!(matches!(s.add(person("anne")), Err(StoreError::Duplicate(_))));
    assert_eq!(s.data.people.len(), 1);
}

#[test]
fn bad_alias_rejected() {
    for a in ["", "a/b", "a\\b", "..", ".", "tab\there", "a.b", "x:y"] {
        assert!(matches!(validate_alias(a), Err(StoreError::BadAlias(_))), "{a}");
        let mut s = Store::new("/d".into());
        assert!(s.add(person(a)).is_err());
        assert!(s.data.people.is_empty());
    }
    assert!(validate_alias("anne_2-x").is_ok());
    assert!(validate_alias("Eşim").is_ok());
    assert!(validate_alias("anne baba").is_ok());
}

#[test]
fn paths_in_the_store_directory() {
    let s = Store::new("/home/u/.ages".into());
    assert_eq!(s.people_path(), "/home/u/.ages/people.toml");
    assert_eq!(s.avatar_path("Küçük Kardeş"), "/home/u/.ages/avatars/Küçük Kardeş.png");
    let t = Store::new("/x/".into());
    assert_eq!(t.avatar_path("a"), "/x/avatars/a.png");
}

#[test]
fn rename_rejects_dupe_bad_and_unknown() {
    let mut s = Store::new("/d".into());
    let mut a = person("anne");
    a.avatar = true;
    s.add(a).unwrap();
    s.add(person("baba")).unwrap();
    assert!(matches!(s.rename("anne", "baba"), Err(StoreError::Duplicate(_))));
    assert!(matches!(s.rename("anne", "bad/alias"), Err(StoreError::BadAlias(_))));
    assert!(matches!(s.rename("ghost", "x"), Err(StoreError::Unknown(_))));
    assert_eq!(s.rename_check("anne", "mom"), Ok(true));
    assert_eq!(s.rename_check("baba", "dad"), Ok(false));
    assert_eq!(s.rename_check("anne", "anne"), Ok(false));
    s.rename("anne", "mom").unwrap();
    assert!(s.find("mom").is_some());
    assert!(s.find("anne").is_none());
    assert_eq!(aliases(&s), ["mom", "baba"]);
    assert!(s.find("mom").unwrap().avatar);
}

#[test]
fn remove_gives_back_the_person() {
    let mut s = Store::new("/d".into());
    let mut a = person("anne");
    a.avatar = true;
    s.add(a).unwrap();
    s.add(person("baba")).unwrap();
    let removed = s.remove("anne").unwrap();
    assert_eq!(removed.alias, "anne");
    assert!(removed.avatar);
    assert!(matches!(s.remove("anne"), Err(StoreError::Unknown(_))));
    assert_eq!(aliases(&s), ["baba"]);
}

#[test]
fn add_then_find_law() {
    let mut s = Store::new("/d".into());
    for a in ["c", "a", "b"] {
        s.add(person(a)).unwrap();
        assert_eq!(s.find(a).unwrap().alias, a);
    }
    assert_eq!(s.position("b"), Some(2));
    assert_eq!(s.position("z"), None);
}

#[test]
fn store_error_messages() {
    assert_eq!(StoreError::Duplicate("anne".into()).message(Lang::En), "\"anne\" already exists.");
    assert!(StoreError::BadAlias("a/b".into()).message(Lang::En).contains("a/b"));
    assert!(StoreError::Unknown("ghost".into()).message(Lang::En).contains("ghost"));
    let w = StoreError::Write { path: "/p".into(), reason: "full".into() }.message(Lang::En);
    assert!(w.contains("/p") && w.contains("full"));
}

#[test]
fn add_command_trims_alias_and_checks() {
    let mut s = Store::new("/d".into());
    let a = add_person(&mut s, "  anne ", "Ayşe", Some("Aktaş"), "14.03.1965", Some("04:30"), Some("Europe/Istanbul")).unwrap();
    assert_eq!(a, "anne");
    assert_eq!(s.find("anne").unwrap().first_name, "Ayşe");
    assert!(matches!(
        add_person(&mut s, "anne", "X", None, "2000-01-01", None, None),
        Err(CommandError::Store(StoreError::Duplicate(_)))
    ));
    assert!(matches!(
        add_person(&mut s, "x", "X", None, "31.02.2000", None, None),
        Err(CommandError::Date(DateError::BadDate(_)))
    ));
    assert_eq!(s.data.people.len(), 1);
    assert!(set_avatar(&mut s, "anne", true));
    assert!(s.find("anne").unwrap().avatar && s.find("anne").unwrap().pixel);
    assert!(!set_avatar(&mut s, "ghost", false));
}

fn request(alias: &str) -> EditRequest {
    EditRequest {
        alias: alias.into(),
        name: None,
        surname: None,
        birth: None,
        time: None,
        tz: None,
        avatar: None,
        no_avatar: false,
        pixel: None,
        rename: None,
    }
}

#[test]
fn edit_checks_in_order() {
    let mut s = Store::new("/d".into());
    s.add(person("anne")).unwrap();
    s.add(person("baba")).unwrap();
    assert!(matches!(
        check_edit(&s, &request("ghost"), Ok(())),
        Err(CommandError::Store(StoreError::Unknown(_)))
    ));
    let mut r = request("anne");
    r.birth = Some("31.02.2000".into());
    r.rename = Some("baba".into());
    assert!(matches!(check_edit(&s, &r, Ok(())), Err(CommandError::Date(DateError::BadDate(_)))));
    r.birth = None;
    assert!(matches!(check_edit(&s, &r, Ok(())), Err(CommandError::Store(StoreError::Duplicate(_)))));
    r.rename = Some(" a/b ".into());
    assert!(matches!(check_edit(&s, &r, Ok(())), Err(CommandError::Store(StoreError::BadAlias(_)))));
    r.rename = Some(" mom ".into());
    r.avatar = Some("x.txt".into());
    let bad = Err(AvatarError::BadImage("x.txt".into()));
    assert!(matches!(check_edit(&s, &r, bad), Err(CommandError::Avatar(AvatarError::BadImage(_)))));
    let plan = check_edit(&s, &r, Ok(())).unwrap();
    assert_eq!(plan.rename.as_deref(), Some("mom"));
    r.tz = Some("Mars/Olympus".into());
    assert!(matches!(check_edit(&s, &r, Ok(())), Err(CommandError::Date(DateError::BadTz(_)))));
}

#[test]
fn edit_applies_fields() {
    let mut s = Store::new("/d".into());
    s.add(person("anne")).unwrap();
    let mut r = request("anne");
    r.name = Some("Ayla".into());
    r.surname = Some("".into());
    r.birth = Some("2000-02-03".into());
    r.time = Some("10:15".into());
    r.tz = Some("".into());
    let plan = check_edit(&s, &r, Ok(())).unwrap();
    apply_edit(&mut s, "anne", &r, &plan).unwrap();
    let p = s.find("anne").unwrap();
    assert_eq!(p.first_name, "Ayla");
    assert_eq!(p.last_name, None);
    assert_eq!((p.birth.date.year, p.birth.date.month, p.birth.date.day), (2000, 2, 3));
    assert_eq!(p.birth.secs, 10 * 3600 + 15 * 60);
    assert_eq!(p.tz, None);
    assert!(p.is_usable());
    assert!(matches!(apply_edit(&mut s, "ghost", &r, &plan), Err(CommandError::Store(StoreError::Unknown(_)))));
}

#[test]
fn edit_avatar_flags() {
    let mut s = Store::new("/d".into());
    let mut a = person("anne");
    a.avatar = true;
    a.pixel = true;
    s.add(a).unwrap();
    let mut r = request("anne");
    r.no_avatar = true;
    let plan = check_edit(&s, &r, Ok(())).unwrap();
    apply_edit(&mut s, "anne", &r, &plan).unwrap();
    assert!(!s.find("anne").unwrap().avatar && !s.find("anne").unwrap().pixel);
    let mut r = request("anne");
    r.avatar = Some("in.png".into());
    r.pixel = Some(16);
    let plan = check_edit(&s, &r, Ok(())).unwrap();
    apply_edit(&mut s, "anne", &r, &plan).unwrap();
    assert!(s.find("anne").unwrap().avatar && s.find("anne").unwrap().pixel);
}

#[test]
fn usable_people() {
    assert!(person("a").is_usable());
    let mut p = person("a");
    p.tz = Some("Mars/Olympus".into());
    assert!(!p.is_usable());
    let mut q = person("a");
    q.birth.date.day = 30;
    q.birth.date.month = 2;
    assert!(!q.is_usable());
    let mut r = person("a");
    r.birth.secs = 86400;
    assert!(!r.is_usable());
}

#[test]
fn find_mut_changes_in_place() {
    let mut s = Store::new("/d".into());
    s.add(person("anne")).unwrap();
    s.add(person("baba")).unwrap();
    s.find_mut("baba").unwrap().first_name = "Mehmet".into();
    assert_eq!(s.find("baba").unwrap().first_name, "Mehmet");
    assert_eq!(s.find("anne").unwrap().first_name, "Ayşe");
    assert!(s.find_mut("ghost").is_none());
}
