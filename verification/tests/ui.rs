use ages::calendar::{Date, LocalDateTime};
use ages::i18n::{effective_lang, Lang, Msg};
use ages::model::{AgeView, Person, Settings, SortKey};
use ages::tui::app::Mode;
use ages::tui::form::FormState;
use ages::tui::ui::{
    avatar_hint_shown, birth_text, centered_box, column_widths, confirm_body, confirm_width, header_gap, picker_size, content_area, field_value, form_title, header_status,
    help_text, list_line, list_rows, picker_line, place_text, scroll_offset, Area,
};

fn person() -> Person {
    Person {
        alias: "baba".into(),
        first_name: "Mehmet".into(),
        last_name: Some("Aktaş".into()),
        birth: LocalDateTime { date: Date { year: 1962, month: 8, day: 1 }, secs: 4 * 3600 + 30 * 60 },
        has_time: true,
        tz: Some("Europe/Istanbul".into()),
        avatar: true,
        pixel: true,
    }
}

#[test]
fn language_precedence() {
    let desktop = vec!["tr".to_string()];
    assert_eq!(effective_lang(Some("en"), Some("tr"), &desktop), Lang::En);
    assert_eq!(effective_lang(None, Some("en"), &desktop), Lang::En);
    assert_eq!(effective_lang(None, None, &desktop), Lang::Tr);
    assert_eq!(effective_lang(None, None, &Vec::new()), Lang::En);
}

#[test]
fn layout_geometry() {
    let screen = Area { x: 0, y: 0, width: 100, height: 30 };
    let c = content_area(screen);
    assert_eq!((c.x, c.width, c.height), (5, 90, 30));
    let narrow = content_area(Area { x: 0, y: 0, width: 60, height: 40 });
    assert_eq!((narrow.x, narrow.width), (0, 60));
    let b = centered_box(30, 5, screen);
    assert_eq!((b.x, b.y, b.width, b.height), (35, 12, 30, 5));
    let clipped = centered_box(300, 50, screen);
    assert_eq!((clipped.x, clipped.y, clipped.width, clipped.height), (0, 0, 100, 30));
    assert_eq!(list_rows(3, 30), 3);
    assert_eq!(list_rows(0, 30), 1);
    assert_eq!(list_rows(40, 30), 22);
    assert_eq!(list_rows(5, 4), 1);
}

#[test]
fn list_scrolls_to_keep_selection_visible() {
    assert_eq!(scroll_offset(0, 10), 0);
    assert_eq!(scroll_offset(9, 10), 0);
    assert_eq!(scroll_offset(27, 10), 18);
    assert_eq!(scroll_offset(5, 0), 0);
}

#[test]
fn list_line_text() {
    let l = list_line(true, "baba", 5, "Mehmet Aktaş", 12, "61y", false, 100);
    assert_eq!(l, "  ▶ baba   Mehmet Aktaş  61y");
    let t = list_line(false, "anne", 5, "Ayşe", 6, "1y", true, 100);
    assert_eq!(t, "    anne   Ayşe    1y 🎂");
    assert_eq!(list_line(false, "anne", 5, "Ayşe", 6, "1y", true, 6), "    an");
}

#[test]
fn header_and_help() {
    let s = Settings { lang: None, sort: SortKey::Age, age_view: AgeView::Calendar };
    assert_eq!(header_status(Lang::En, &s), "sort: age · view: calendar");
    assert_eq!(help_text(Lang::En, &Mode::Error("boom".into())), "press any key");
    assert_eq!(help_text(Lang::En, &Mode::ConfirmDelete), "y yes  n no");
    assert!(help_text(Lang::En, &Mode::List).contains("a add"));
    assert_eq!(confirm_body(Lang::En, Msg::TuiDeleteBodyPrefix, "baba"), "Delete baba?");
    assert_eq!(
        confirm_body(Lang::En, Msg::TuiRemoveAvatarBodyPrefix, "baba"),
        "Remove the avatar of baba?"
    );
    assert_eq!(picker_line("English", true), " ▶ English");
    assert_eq!(picker_line("Türkçe", false), "   Türkçe");
}

#[test]
fn detail_texts() {
    let p = person();
    assert_eq!(birth_text(Lang::En, &p), "1962-08-01 04:30");
    assert_eq!(place_text(Lang::En, &p), "Europe/Istanbul · ▦ pixel art");
    let mut q = person();
    q.has_time = false;
    q.tz = None;
    q.pixel = false;
    assert_eq!(birth_text(Lang::En, &q), "1962-08-01  (time unknown)");
    assert_eq!(place_text(Lang::En, &q), "local time");
}

#[test]
fn form_texts() {
    let mut f = FormState::from_person(&person());
    assert_eq!(form_title(Lang::En, &f), "Edit person");
    assert_eq!(form_title(Lang::En, &FormState::new_add()), "Add person");
    assert_eq!(field_value(Lang::En, &f, 0), "baba▏");
    assert_eq!(field_value(Lang::En, &f, 1), "Mehmet");
    assert!(avatar_hint_shown(&f, 6));
    assert_eq!(field_value(Lang::En, &f, 6), "current avatar is kept");
    f.focus = 6;
    assert_eq!(field_value(Lang::En, &f, 6), "▏current avatar is kept");
    f.input('x');
    assert!(!avatar_hint_shown(&f, 6));
    assert_eq!(field_value(Lang::En, &f, 6), "x▏");
}

#[test]
fn list_column_widths() {
    assert_eq!(column_widths(&Vec::new()), (5, 0));
    let mut short = person();
    short.alias = "ab".into();
    short.first_name = "Ay".into();
    short.last_name = None;
    assert_eq!(column_widths(&vec![short.clone()]), (5, 2));
    let mut long = person();
    long.alias = "kardeşim".into();
    // "Mehmet Aktaş" is 12 characters (ş counts once).
    assert_eq!(column_widths(&vec![short, long, person()]), (8, 12));
}

#[test]
fn popup_and_header_sizes() {
    assert_eq!(header_gap(40, "  ages", "sort: age"), 40 - 6 - 9 - 2);
    assert_eq!(header_gap(10, "  ages", "sort: age"), 0);
    assert_eq!(confirm_width("Delete?"), 30);
    assert_eq!(confirm_width(&"x".repeat(40)), 48);
    let items = vec!["English".to_string(), "Türkçe".to_string()];
    assert_eq!(picker_size("Language", &items), (20, 4));
    let long = vec!["a very long option label".to_string()];
    assert_eq!(picker_size("Sort", &long), (32, 3));
}
