use ages::avatar::DEFAULT_PIXEL_GRID;
use ages::calendar::{Date, LocalDateTime};
use ages::i18n::Lang;
use ages::model::{AgeView, Person, SortKey};
use ages::store::Store;
use ages::tui::app::{App, Effect, Key, Mode, PickerKind};
use ages::tui::event::{action_for, handle_key, Action};
use ages::tui::form::{field_label, parse_pixel, FormState, FIELD_COUNT};

fn person(alias: &str, first: &str, last: &str, y: i32, m: u32, d: u32) -> Person {
    Person {
        alias: alias.into(),
        first_name: first.into(),
        last_name: if last.is_empty() { None } else { Some(last.into()) },
        birth: LocalDateTime { date: Date { year: y, month: m, day: d }, secs: 4 * 3600 + 30 * 60 },
        has_time: true,
        tz: Some("Europe/Istanbul".into()),
        avatar: false,
        pixel: false,
    }
}

fn now() -> i64 {
    chrono::NaiveDate::from_ymd_opt(2024, 1, 1)
        .unwrap()
        .and_hms_opt(0, 0, 0)
        .unwrap()
        .and_utc()
        .timestamp()
}

/// Three people: anne, baba (oldest), kardes.
fn app3() -> App {
    let mut store = Store::new("/data".into());
    store.add(person("baba", "Mehmet", "Aktaş", 1962, 8, 1)).unwrap();
    store.add(person("anne", "Ayşe", "Aktaş", 1965, 3, 14)).unwrap();
    store.add(person("kardes", "Can", "Aktaş", 1998, 12, 1)).unwrap();
    App::new(store, now(), Lang::En)
}

fn key(app: &mut App, k: Key) -> Effect {
    let e = handle_key(app, k, false);
    if let Effect::Submit = e {
        submit(app);
    }
    e
}

/// What the program does on `Effect::Submit`, without files: an avatar path ending in
/// `.png` counts as a readable image.
fn submit(app: &mut App) {
    let (readable, editing) = match &app.mode {
        Mode::Form(f) => {
            let p = f.fields[6].trim();
            (p.is_empty() || p.ends_with(".png"), f.editing.is_some())
        }
        _ => return,
    };
    if let Some(out) = app.submit_form(readable) {
        app.apply_form(out, editing).unwrap();
    }
}

fn type_str(app: &mut App, s: &str) {
    for c in s.chars() {
        key(app, Key::Char(c));
    }
}

fn tab(app: &mut App) {
    key(app, Key::Tab);
}

fn form(app: &App) -> &FormState {
    match &app.mode {
        Mode::Form(f) => f,
        _ => panic!("not in form mode"),
    }
}

fn error(app: &App) -> String {
    form(app).error.clone().unwrap_or_default()
}

fn aliases(app: &App) -> Vec<String> {
    app.people().iter().map(|p| p.alias.clone()).collect()
}

#[test]
fn sorted_oldest_first_on_new() {
    let app = app3();
    assert_eq!(app.selected, 0);
    assert_eq!(app.people()[0].alias, "baba");
    assert_eq!(app.people()[2].alias, "kardes");
}

#[test]
fn navigation_clamps() {
    let mut app = app3();
    app.move_up();
    assert_eq!(app.selected, 0);
    app.move_down();
    app.move_down();
    app.move_down();
    assert_eq!(app.selected, 2);
}

#[test]
fn cycle_sort_persists_and_keeps_selection() {
    let mut app = app3();
    app.selected = 1;
    let alias = app.selected_person().unwrap().alias.clone();
    app.set_sort(SortKey::Alias);
    assert_eq!(app.store.data.settings.sort, SortKey::Alias);
    assert_eq!(app.selected_person().unwrap().alias, alias);
    assert_eq!(aliases(&app), ["anne", "baba", "kardes"]);
}

#[test]
fn lang_picker_selects_turkish() {
    let mut app = app3();
    key(&mut app, Key::Char('l'));
    match &app.mode {
        Mode::Picker(p) => {
            assert_eq!(p.kind, PickerKind::Lang);
            assert_eq!(p.items, vec!["English", "Türkçe"]);
            assert_eq!(p.selected, 0);
        }
        _ => panic!("expected picker"),
    }
    key(&mut app, Key::Down);
    let e = key(&mut app, Key::Enter);
    assert!(matches!(e, Effect::Save));
    assert!(matches!(app.mode, Mode::List));
    assert_eq!(app.store.data.settings.lang.as_deref(), Some("tr"));
    assert_eq!(app.lang, Lang::Tr);
}

#[test]
fn picker_esc_changes_nothing() {
    let mut app = app3();
    key(&mut app, Key::Char('s'));
    key(&mut app, Key::Down);
    let e = key(&mut app, Key::Esc);
    assert!(matches!(e, Effect::Nothing));
    assert!(matches!(app.mode, Mode::List));
    assert_eq!(app.store.data.settings.sort, SortKey::Age);
}

#[test]
fn sort_and_view_pickers_apply() {
    let mut app = app3();
    key(&mut app, Key::Char('s'));
    key(&mut app, Key::Char('j'));
    key(&mut app, Key::Char('j'));
    key(&mut app, Key::Char('j'));
    key(&mut app, Key::Enter);
    assert_eq!(app.store.data.settings.sort, SortKey::Birthday);
    key(&mut app, Key::Char('v'));
    match &app.mode {
        Mode::Picker(p) => assert_eq!(p.items.len(), AgeView::all().len()),
        _ => panic!("expected picker"),
    }
    key(&mut app, Key::Down);
    key(&mut app, Key::Down);
    key(&mut app, Key::Down);
    key(&mut app, Key::Enter);
    assert_eq!(app.store.data.settings.age_view, AgeView::Weeks);
}

#[test]
fn delete_flow() {
    let mut app = app3();
    app.selected = 2;
    app.begin_delete();
    assert!(matches!(app.mode, Mode::ConfirmDelete));
    match app.confirm_delete() {
        Effect::Deleted { alias, avatar } => {
            assert_eq!(alias, "kardes");
            assert!(!avatar);
        }
        _ => panic!("expected a deletion"),
    }
    assert_eq!(app.people().len(), 2);
    assert_eq!(app.selected, 1);
    assert!(matches!(app.mode, Mode::List));
}

#[test]
fn keys() {
    let mut app = app3();
    key(&mut app, Key::Char('j'));
    assert_eq!(app.selected, 1);
    key(&mut app, Key::Up);
    assert_eq!(app.selected, 0);
    key(&mut app, Key::Char('d'));
    assert!(matches!(app.mode, Mode::ConfirmDelete));
    key(&mut app, Key::Char('n'));
    assert!(matches!(app.mode, Mode::List));
    assert_eq!(app.people().len(), 3);
    key(&mut app, Key::Char('a'));
    assert!(matches!(app.mode, Mode::Form(_)));
    key(&mut app, Key::Esc);
    assert!(matches!(app.mode, Mode::List));
    key(&mut app, Key::Char('q'));
    assert!(app.should_quit);
}

#[test]
fn ctrl_c_quits_in_every_mode() {
    let mut app = app3();
    handle_key(&mut app, Key::Char('c'), true);
    assert!(app.should_quit);
    app.should_quit = false;
    app.begin_add();
    handle_key(&mut app, Key::Char('c'), true);
    assert!(app.should_quit);
    app.should_quit = false;
    app.cancel();
    app.begin_delete();
    handle_key(&mut app, Key::Char('c'), true);
    assert!(app.should_quit);
    assert!(matches!(app.mode, Mode::ConfirmDelete));
}

#[test]
fn remove_avatar_flow() {
    let mut app = app3();
    // `x` does nothing for a person without an avatar.
    key(&mut app, Key::Char('x'));
    assert!(matches!(app.mode, Mode::List));
    {
        let p = app.store.find_mut("baba").unwrap();
        p.avatar = true;
        p.pixel = true;
    }
    key(&mut app, Key::Char('x'));
    assert!(matches!(app.mode, Mode::ConfirmRemoveAvatar));
    key(&mut app, Key::Char('n'));
    assert!(app.store.find("baba").unwrap().avatar);
    key(&mut app, Key::Char('x'));
    match key(&mut app, Key::Char('y')) {
        Effect::AvatarRemoved { alias } => assert_eq!(alias, "baba"),
        _ => panic!("expected the avatar to go"),
    }
    assert!(matches!(app.mode, Mode::List));
    let p = app.store.find("baba").unwrap();
    assert!(!p.avatar && !p.pixel);
}

#[test]
fn error_popup_closes_on_any_key() {
    let mut app = app3();
    app.mode = Mode::Error("boom".into());
    key(&mut app, Key::Char('z'));
    assert!(matches!(app.mode, Mode::List));
    assert!(!app.should_quit);
}

#[test]
fn key_map() {
    assert_eq!(action_for(&Mode::List, Key::Char('k'), false), Action::MoveUp);
    assert_eq!(action_for(&Mode::List, Key::Char('v'), false), Action::Pick(PickerKind::View));
    assert_eq!(action_for(&Mode::List, Key::Char('z'), false), Action::Ignore);
    assert_eq!(action_for(&Mode::ConfirmDelete, Key::Enter, false), Action::Delete);
    assert_eq!(action_for(&Mode::ConfirmRemoveAvatar, Key::Char('e'), false), Action::RemoveAvatar);
    assert_eq!(action_for(&Mode::Form(FormState::new_add()), Key::Char('q'), false), Action::FormKey);
    assert_eq!(action_for(&Mode::Form(FormState::new_add()), Key::Char('c'), true), Action::Quit);
}

#[test]
fn add_via_form() {
    let mut app = app3();
    app.begin_add();
    type_str(&mut app, "dede");
    tab(&mut app);
    type_str(&mut app, "Ali");
    tab(&mut app);
    tab(&mut app);
    type_str(&mut app, "01.01.1940");
    tab(&mut app);
    type_str(&mut app, "07:15");
    tab(&mut app);
    type_str(&mut app, "Europe/Istanbul");
    key(&mut app, Key::Enter);
    assert!(matches!(app.mode, Mode::List), "{}", error(&app));
    let p = app.store.find("dede").unwrap();
    assert_eq!(p.first_name, "Ali");
    assert!(p.has_time);
    assert_eq!((p.birth.date.year, p.birth.date.month, p.birth.date.day), (1940, 1, 1));
    assert_eq!(p.birth.secs, 7 * 3600 + 15 * 60);
    assert_eq!(app.selected_person().unwrap().alias, "dede");
    assert_eq!(app.people()[0].alias, "dede");
}

#[test]
fn duplicate_alias_error_keeps_form_open() {
    let mut app = app3();
    app.begin_add();
    type_str(&mut app, "anne");
    tab(&mut app);
    type_str(&mut app, "X");
    tab(&mut app);
    tab(&mut app);
    type_str(&mut app, "2000-01-01");
    key(&mut app, Key::Enter);
    assert!(error(&app).contains("already exists"));
    assert_eq!(app.people().len(), 3);
}

#[test]
fn empty_name_and_bad_date_errors() {
    let mut app = app3();
    app.begin_add();
    type_str(&mut app, "x");
    key(&mut app, Key::Enter);
    assert!(error(&app).contains("First name"));
    tab(&mut app);
    type_str(&mut app, "X");
    tab(&mut app);
    tab(&mut app);
    type_str(&mut app, "nope");
    key(&mut app, Key::Enter);
    assert!(error(&app).contains("not a date"));
}

#[test]
fn bad_avatar_path_error() {
    let mut app = app3();
    app.begin_add();
    type_str(&mut app, "x");
    tab(&mut app);
    type_str(&mut app, "X");
    tab(&mut app);
    tab(&mut app);
    type_str(&mut app, "2000-01-01");
    for _ in 0..3 {
        tab(&mut app);
    }
    type_str(&mut app, "/definitely/missing.jpg");
    key(&mut app, Key::Enter);
    assert!(error(&app).contains("as an image"));
    assert!(app.store.find("x").is_none());
}

#[test]
fn edit_rename_via_form() {
    let mut app = app3();
    app.selected = 0;
    let old = app.selected_person().unwrap().alias.clone();
    app.begin_edit();
    assert_eq!(form(&app).fields[0], old);
    for _ in 0..old.chars().count() {
        key(&mut app, Key::Backspace);
    }
    type_str(&mut app, "mom");
    key(&mut app, Key::Enter);
    assert!(matches!(app.mode, Mode::List), "{}", error(&app));
    assert!(app.store.find("mom").is_some());
    assert!(app.store.find(&old).is_none());
    assert_eq!(app.selected_person().unwrap().alias, "mom");
}

#[test]
fn edit_without_new_image_keeps_avatar_and_pixel_flag() {
    let mut app = app3();
    {
        let p = app.store.find_mut("baba").unwrap();
        p.avatar = true;
        p.pixel = true;
    }
    app.begin_edit();
    assert!(form(&app).has_avatar);
    tab(&mut app);
    type_str(&mut app, "X");
    key(&mut app, Key::Enter);
    assert!(matches!(app.mode, Mode::List), "{}", error(&app));
    let p = app.store.find("baba").unwrap();
    assert!(p.avatar && p.pixel);
}

#[test]
fn add_with_pixel_avatar_via_form() {
    let mut app = app3();
    app.begin_add();
    type_str(&mut app, "dede");
    tab(&mut app);
    type_str(&mut app, "Ali");
    tab(&mut app);
    tab(&mut app);
    type_str(&mut app, "1940-01-01");
    for _ in 0..3 {
        tab(&mut app);
    }
    type_str(&mut app, "in.png");
    tab(&mut app);
    type_str(&mut app, "maybe");
    key(&mut app, Key::Enter);
    assert!(error(&app).contains("pixel"));
    for _ in 0..5 {
        key(&mut app, Key::Backspace);
    }
    type_str(&mut app, "e");
    key(&mut app, Key::Enter);
    assert!(matches!(app.mode, Mode::List), "{}", error(&app));
    let p = app.store.find("dede").unwrap();
    assert!(p.avatar && p.pixel);
}

#[test]
fn parse_pixel_values() {
    assert_eq!(parse_pixel(Lang::En, ""), Ok(None));
    assert_eq!(parse_pixel(Lang::En, "h"), Ok(None));
    assert_eq!(parse_pixel(Lang::En, " E "), Ok(Some(DEFAULT_PIXEL_GRID)));
    assert_eq!(parse_pixel(Lang::En, "48"), Ok(Some(48)));
    assert!(parse_pixel(Lang::En, "1").is_err());
    assert!(parse_pixel(Lang::En, "x").is_err());
    assert_eq!(parse_pixel(Lang::En, "HAYIR"), Ok(None));
    assert!(parse_pixel(Lang::En, "257").is_err());
    assert_eq!(parse_pixel(Lang::En, "+2"), Ok(Some(2)));
}

#[test]
fn edit_keeps_alias_when_unchanged() {
    let mut app = app3();
    app.begin_edit();
    tab(&mut app);
    type_str(&mut app, "X");
    key(&mut app, Key::Enter);
    assert!(matches!(app.mode, Mode::List), "{}", error(&app));
    assert!(app.store.find("baba").unwrap().first_name.ends_with('X'));
}

#[test]
fn shift_tab_moves_back_and_wraps() {
    let mut app = app3();
    app.begin_add();
    key(&mut app, Key::BackTab);
    assert_eq!(form(&app).focus, FIELD_COUNT - 1);
    tab(&mut app);
    assert_eq!(form(&app).focus, 0);
}

#[test]
fn esc_cancels() {
    let mut app = app3();
    app.begin_add();
    key(&mut app, Key::Esc);
    assert!(matches!(app.mode, Mode::List));
}

#[test]
fn ctrl_letters_are_not_typed() {
    let mut app = app3();
    app.begin_add();
    handle_key(&mut app, Key::Char('u'), true);
    assert_eq!(form(&app).fields[0], "");
    key(&mut app, Key::Char('u'));
    assert_eq!(form(&app).fields[0], "u");
}

#[test]
fn form_fields_from_person() {
    let mut p = person("anne", "Ayşe", "", 1965, 3, 14);
    p.has_time = false;
    let f = FormState::from_person(&p);
    assert_eq!(f.editing.as_deref(), Some("anne"));
    assert_eq!(f.fields[2], "");
    assert_eq!(f.fields[3], "1965-03-14");
    assert_eq!(f.fields[4], "");
    assert_eq!(f.fields[5], "Europe/Istanbul");
    assert_eq!(field_label(Lang::En, 0), "alias");
}

#[test]
fn tick_resorts_by_birthday() {
    let mut app = app3();
    app.set_sort(SortKey::Birthday);
    let first = app.people()[0].alias.clone();
    assert_eq!(first, "anne");
    let later = chrono::NaiveDate::from_ymd_opt(2024, 3, 20)
        .unwrap()
        .and_hms_opt(0, 0, 0)
        .unwrap()
        .and_utc()
        .timestamp();
    app.tick(later);
    assert_eq!(app.people()[0].alias, "baba");
}
