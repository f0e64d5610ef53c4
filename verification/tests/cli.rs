use ages::cli::prescan_lang;
use ages::commands::{confirm_answer, remove_question, remove_step, RemoveStep};
use ages::i18n::{current, init, msg, select, Lang, Msg};
use ages::model::{AgeView, Settings, SortKey};

fn args(s: &[&str]) -> Vec<String> {
    s.iter().map(|x| x.to_string()).collect()
}

#[test]
fn prescan_finds_lang() {
    assert_eq!(
        prescan_lang(&args(&["ages", "--lang", "tr", "list"])),
        Some("tr".into())
    );
    assert_eq!(
        prescan_lang(&args(&["ages", "list", "--lang=en"])),
        Some("en".into())
    );
    assert_eq!(prescan_lang(&args(&["ages", "list"])), None);
}

#[test]
fn prescan_takes_first_flag_and_missing_value() {
    assert_eq!(
        prescan_lang(&args(&["ages", "--lang=tr", "--lang", "en"])),
        Some("tr".into())
    );
    assert_eq!(prescan_lang(&args(&["ages", "--lang"])), None);
    assert_eq!(prescan_lang(&args(&["ages", "--language", "tr"])), None);
}

#[test]
fn select_falls_back_to_english() {
    assert_eq!(select("tr"), Lang::Tr);
    assert_eq!(select("en"), Lang::En);
    assert_eq!(select("de"), Lang::En);
    assert_eq!(current(select("tr")), "tr");
    assert_eq!(current(select("xx")), "en");
}

#[test]
fn init_prefers_flag_then_desktop() {
    let desktop = args(&["de", "tr", "en"]);
    assert_eq!(init(Some("en"), &desktop), Lang::En);
    assert_eq!(init(None, &desktop), Lang::Tr);
    assert_eq!(init(None, &args(&["de", "fr"])), Lang::En);
    assert_eq!(init(None, &Vec::new()), Lang::En);
}

#[test]
fn confirm_answers() {
    for yes in ["y", "Yes", " e ", "EVET\n"] {
        assert!(confirm_answer(yes), "{yes}");
    }
    for no in ["", "n", "no", "hayır", "yess"] {
        assert!(!confirm_answer(no), "{no}");
    }
}

#[test]
fn remove_needs_yes_or_terminal() {
    assert_eq!(remove_step(true, false), RemoveStep::Proceed);
    assert_eq!(remove_step(false, true), RemoveStep::Ask);
    assert_eq!(remove_step(false, false), RemoveStep::Refuse);
    assert_eq!(remove_question(Lang::En, "anne"), "Remove anne? [y/N]");
}

#[test]
fn switches_language() {
    assert_eq!(msg(select("tr"), Msg::BirthdayToday), "doğum günü bugün");
    assert_eq!(msg(select("en"), Msg::BirthdayToday), "birthday today");
}

#[test]
fn settings_default_to_age_and_calendar() {
    let s = Settings::default_settings();
    assert_eq!(s.sort, SortKey::Age);
    assert_eq!(s.age_view, AgeView::Calendar);
    assert_eq!(s.lang, None);
    assert_eq!(AgeView::default_view(), AgeView::Calendar);
    assert_eq!(AgeView::all()[3], AgeView::Weeks);
    assert_eq!(AgeView::Weeks.index(), 3);
}
