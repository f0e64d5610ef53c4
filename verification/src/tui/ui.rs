//! What the interactive view shows, as plain values: the screen layout and the texts
//! of the header, the list lines, the detail panel, the footer and the popups.
//! Painting them is the caller's part.
use vstd::prelude::*;

use crate::i18n::{Lang, Msg, msg, msg_spec};
use crate::model::{Person, Settings};
use crate::output::{sort_label, sort_msg, view_label, view_msg};
use crate::table::max_int;
use crate::text::{chars_to_string, push_all, push_str, str_chars};
use crate::tui::app::{Mode, PickerKind};
use crate::tui::form::{FIELD_COUNT, FormState, date_text, format_date, format_time, time_text};

verus! {

/// Content is capped to this width and centered.
pub const MAX_WIDTH: u16 = 90;

/// Avatar box size in terminal cells.
pub const AVATAR_COLS: u16 = 16;

pub const AVATAR_ROWS: u16 = 8;

/// A rectangle of terminal cells.
#[derive(Clone, Copy, Debug, PartialEq, Eq, Structural)]
pub struct Area {
    pub x: u16,
    pub y: u16,
    pub width: u16,
    pub height: u16,
}

impl Area {
    /// The rectangle lies on a `u16` screen.
    pub open spec fn wf(self) -> bool {
        self.x + self.width <= u16::MAX && self.y + self.height <= u16::MAX
    }

    /// `self` lies inside `outer`.
    pub open spec fn within(self, outer: Area) -> bool {
        &&& outer.x <= self.x
        &&& self.x + self.width <= outer.x + outer.width
        &&& outer.y <= self.y
        &&& self.y + self.height <= outer.y + outer.height
    }
}

pub open spec fn min_int(a: int, b: int) -> int {
    if a < b { a } else { b }
}

/// The content column: at most `MAX_WIDTH` wide, centered, full height.
pub fn content_area(screen: Area) -> (r: Area)
    requires
        screen.wf(),
    ensures
        r.width == min_int(screen.width as int, MAX_WIDTH as int),
        r.x == screen.x + (screen.width - r.width) / 2,
        r.y == screen.y,
        r.height == screen.height,
        r.within(screen),
{
    let width = if screen.width < MAX_WIDTH { screen.width } else { MAX_WIDTH };
    Area { x: screen.x + (screen.width - width) / 2, y: screen.y, width, height: screen.height }
}

/// A count as a terminal size, capped at the largest one.
pub open spec fn cap_u16(n: int) -> int {
    if n > 65535 { 65535 } else { n }
}

/// Spaces between the header's title and its status on a line `width` cells wide:
/// what is left after both and two more cells, or none.
pub fn header_gap(width: u16, title: &str, status: &str) -> (r: usize)
    ensures
        r as int == if width - title@.len() - status@.len() - 2 > 0 {
            width - title@.len() - status@.len() - 2
        } else {
            0
        },
{
    let t = str_chars(title).len();
    let s = str_chars(status).len();
    let w = width as usize;
    if t < w && s < w - t && 2 < w - t - s {
        w - t - s - 2
    } else {
        0
    }
}

/// Width of the yes/no popup around `body`: the text and eight cells, at least 30.
pub fn confirm_width(body: &str) -> (r: u16)
    ensures
        r as int == cap_u16(max_int(body@.len() + 8 as int, 30)),
{
    let n = str_chars(body).len();
    if n >= 65535 - 8 {
        65535
    } else if n + 8 < 30 {
        30
    } else {
        (n + 8) as u16
    }
}

/// The longest label of `items`, in characters (0 for none).
pub open spec fn widest_label(items: Seq<String>) -> int
    decreases items.len(),
{
    if items.len() == 0 {
        0
    } else {
        max_int(widest_label(items.drop_last()), items.last()@.len() as int)
    }
}

/// Size of a picker popup titled `title` listing `items`: wide enough for the longest
/// label and eight cells, for the title and six, and at least 20; one row per item and
/// two for the border.
pub fn picker_size(title: &str, items: &Vec<String>) -> (r: (u16, u16))
    ensures
        r.0 as int == cap_u16(max_int(max_int(widest_label(items@) + 8, title@.len() + 6 as int), 20)),
        r.1 as int == cap_u16(items.len() + 2),
{
    let mut widest: usize = 0;
    let mut i: usize = 0;
    while i < items.len()
        invariant
            i <= items.len(),
            widest as int == widest_label(items@.subrange(0, i as int)),
        decreases items.len() - i,
    {
        let n = str_chars(items[i].as_str()).len();
        proof {
            assert(items@.subrange(0, i + 1).drop_last() =~= items@.subrange(0, i as int));
        }
        if n > widest {
            widest = n;
        }
        i = i + 1;
    }
    proof {
        assert(items@.subrange(0, items.len() as int) =~= items@);
    }
    let t = str_chars(title).len();
    let a = if widest >= 65535 - 8 { 65535 } else { widest + 8 };
    let b = if t >= 65535 - 6 { 65535 } else { t + 6 };
    let m = if a > b { a } else { b };
    let w: u16 = if m < 20 { 20 } else { m as u16 };
    let h: u16 = if items.len() >= 65535 - 2 { 65535 } else { (items.len() + 2) as u16 };
    (w, h)
}

/// A `w × h` popup centered in `area`, cut down to fit.
pub fn centered_box(w: u16, h: u16, area: Area) -> (r: Area)
    requires
        area.wf(),
    ensures
        r.width == min_int(w as int, area.width as int),
        r.height == min_int(h as int, area.height as int),
        r.x == area.x + (area.width - r.width) / 2,
        r.y == area.y + (area.height - r.height) / 2,
        r.within(area),
{
    let w = if w < area.width { w } else { area.width };
    let h = if h < area.height { h } else { area.height };
    Area { x: area.x + (area.width - w) / 2, y: area.y + (area.height - h) / 2, width: w, height: h }
}

/// Rows given to the list: one per person (at least one), leaving eight rows for the
/// rest of the screen, but never fewer than one. The count is taken modulo 2^16.
pub fn list_rows(people: usize, height: u16) -> (r: u16)
    ensures
        r as int == min_int(
            (if people == 0 { 1 } else { people as int }) % 65536,
            if height < 9 { 1 } else { height - 8 },
        ),
{
    let n: usize = if people == 0 { 1 } else { people };
    let wanted: u16 = (n % 65536) as u16;
    let room: u16 = if height < 9 { 1 } else { height - 8 };
    if wanted < room { wanted } else { room }
}

/// First list line shown when `visible` lines fit, so that the selected line is shown.
pub fn scroll_offset(selected: usize, visible: usize) -> (r: usize)
    ensures
        visible == 0 ==> r == 0,
        visible > 0 ==> r <= selected < r + visible,
        visible > 0 ==> r == if selected + 1 > visible { selected + 1 - visible } else { 0 },
{
    if visible == 0 {
        0
    } else if selected >= visible - 1 {
        selected - (visible - 1)
    } else {
        0
    }
}

/// `s` followed by spaces up to `w` characters (characters, not cells).
pub open spec fn pad_chars_spec(s: Seq<char>, w: int) -> Seq<char> {
    s + Seq::new(if s.len() < w { (w - s.len()) as nat } else { 0 }, |i: int| ' ')
}

fn push_padded(out: &mut Vec<char>, s: &Vec<char>, w: usize)
    ensures
        final(out)@ == old(out)@ + pad_chars_spec(s@, w as int),
{
    let ghost start = out@;
    push_all(out, s);
    let mut k = s.len();
    while k < w
        invariant
            s.len() <= k <= w || (k == s.len() && s.len() >= w),
            out@ == start + s@ + Seq::new((k - s.len()) as nat, |i: int| ' '),
        decreases w - k,
    {
        out.push(' ');
        proof {
            assert(out@ =~= start + s@ + Seq::new((k + 1 - s.len()) as nat, |i: int| ' '));
        }
        k = k + 1;
    }
    proof {
        assert(out@ =~= start + pad_chars_spec(s@, w as int));
    }
}

/// One list line: marker, alias and name padded to their columns, the age, a cake on a
/// birthday; cut to `max_chars` characters.
pub open spec fn list_line_spec(
    selected: bool,
    alias: Seq<char>,
    alias_w: int,
    name: Seq<char>,
    name_w: int,
    age: Seq<char>,
    birthday: bool,
    max_chars: int,
) -> Seq<char> {
    let marker = if selected { "▶ "@ } else { "  "@ };
    let cake = if birthday { " 🎂"@ } else { Seq::empty() };
    let full = "  "@ + marker + pad_chars_spec(alias, alias_w) + "  "@ + pad_chars_spec(name, name_w) + "  "@
        + age + cake;
    if full.len() <= max_chars {
        full
    } else {
        full.subrange(0, max_chars)
    }
}

/// The widths of the list's alias and name columns: the longest alias (in characters,
/// at least 5) and the longest full name (0 for no people).
pub open spec fn column_widths_spec(people: Seq<Person>) -> (int, int)
    decreases people.len(),
{
    if people.len() == 0 {
        (5, 0)
    } else {
        let (a, n) = column_widths_spec(people.drop_last());
        let last = people.last();
        (
            if last.alias@.len() > a { last.alias@.len() as int } else { a },
            if last.full_name_spec().len() > n { last.full_name_spec().len() as int } else { n },
        )
    }
}

/// The list's column widths (see `column_widths_spec`): every alias and full name
/// fits, and each width is that of one of them (or the minimum).
pub fn column_widths(people: &Vec<Person>) -> (r: (usize, usize))
    ensures
        (r.0 as int, r.1 as int) == column_widths_spec(people@),
        r.0 >= 5,
        forall|i: int| 0 <= i < people.len() ==> (#[trigger] people[i]).alias@.len() <= r.0,
        forall|i: int| 0 <= i < people.len() ==> (#[trigger] people[i]).full_name_spec().len() <= r.1,
        r.0 == 5 || exists|i: int| 0 <= i < people.len() && (#[trigger] people[i]).alias@.len() == r.0,
        r.1 == 0 || exists|i: int| 0 <= i < people.len() && (#[trigger] people[i]).full_name_spec().len() == r.1,
{
    let mut alias_w: usize = 5;
    let mut name_w: usize = 0;
    let mut i: usize = 0;
    while i < people.len()
        invariant
            i <= people.len(),
            (alias_w as int, name_w as int) == column_widths_spec(people@.subrange(0, i as int)),
            alias_w >= 5,
            forall|k: int| 0 <= k < i ==> (#[trigger] people[k]).alias@.len() <= alias_w,
            forall|k: int| 0 <= k < i ==> (#[trigger] people[k]).full_name_spec().len() <= name_w,
            alias_w == 5 || exists|k: int| 0 <= k < i && (#[trigger] people[k]).alias@.len() == alias_w,
            name_w == 0 || exists|k: int| 0 <= k < i && (#[trigger] people[k]).full_name_spec().len() == name_w,
        decreases people.len() - i,
    {
        let p = &people[i];
        let a = str_chars(p.alias.as_str()).len();
        let n = str_chars(p.full_name().as_str()).len();
        proof {
            assert(people@.subrange(0, i + 1).drop_last() =~= people@.subrange(0, i as int));
            assert(people@.subrange(0, i + 1).last() == people[i as int]);
        }
        if a > alias_w {
            alias_w = a;
        }
        if n > name_w {
            name_w = n;
        }
        i = i + 1;
    }
    proof {
        assert(people@.subrange(0, i as int) =~= people@);
    }
    (alias_w, name_w)
}

/// The text of one list line.
pub fn list_line(
    selected: bool,
    alias: &str,
    alias_w: usize,
    name: &str,
    name_w: usize,
    age: &str,
    birthday: bool,
    max_chars: usize,
) -> (r: String)
    ensures
        r@ == list_line_spec(selected, alias@, alias_w as int, name@, name_w as int, age@, birthday, max_chars as int),
{
    let mut out = str_chars("  ");
    push_str(&mut out, if selected { "▶ " } else { "  " });
    push_padded(&mut out, &str_chars(alias), alias_w);
    push_str(&mut out, "  ");
    push_padded(&mut out, &str_chars(name), name_w);
    push_str(&mut out, "  ");
    push_str(&mut out, age);
    if birthday {
        push_str(&mut out, " 🎂");
    }
    proof {
        reveal_strlit("  ");
        reveal_strlit("▶ ");
        reveal_strlit(" 🎂");
    }
    let ghost full = out@;
    let mut cut: Vec<char> = Vec::new();
    let mut i: usize = 0;
    while i < out.len() && i < max_chars
        invariant
            i <= out.len(),
            i <= max_chars,
            out@ == full,
            cut@ == full.subrange(0, i as int),
        decreases out.len() - i,
    {
        cut.push(out[i]);
        proof {
            assert(cut@ =~= full.subrange(0, i + 1));
        }
        i = i + 1;
    }
    proof {
        let m = if selected { "▶ "@ } else { "  "@ };
        let c = if birthday { " 🎂"@ } else { Seq::<char>::empty() };
        assert(full =~= "  "@ + m + pad_chars_spec(alias@, alias_w as int) + "  "@ + pad_chars_spec(name@, name_w as int)
            + "  "@ + age@ + c);
        if full.len() <= max_chars {
            assert(cut@ =~= full);
        }
    }
    chars_to_string(cut.as_slice())
}

/// The header status: "sort: age · view: calendar".
pub fn header_status(lang: Lang, settings: &Settings) -> (r: String)
    ensures
        r@ == msg_spec(lang, Msg::TuiSortPrefix) + msg_spec(lang, sort_msg(settings.sort)) + " · "@ + msg_spec(
            lang,
            Msg::TuiViewPrefix,
        ) + msg_spec(lang, view_msg(settings.age_view)),
{
    let mut out = str_chars(msg(lang, Msg::TuiSortPrefix));
    push_str(&mut out, sort_label(lang, settings.sort));
    push_str(&mut out, " · ");
    push_str(&mut out, msg(lang, Msg::TuiViewPrefix));
    push_str(&mut out, view_label(lang, settings.age_view));
    proof {
        reveal_strlit(" · ");
    }
    chars_to_string(out.as_slice())
}

/// The message for the key help of `mode`.
pub open spec fn help_msg(mode: Mode) -> Msg {
    match mode {
        Mode::List => Msg::TuiHelp,
        Mode::Form(_) => Msg::TuiHelpForm,
        Mode::ConfirmDelete | Mode::ConfirmRemoveAvatar => Msg::TuiHelpConfirm,
        Mode::Error(_) => Msg::TuiHelpError,
        Mode::Picker(_) => Msg::TuiHelpPick,
    }
}

/// The footer: the keys that work in `mode`.
pub fn help_text(lang: Lang, mode: &Mode) -> (r: &'static str)
    ensures
        r@ == msg_spec(lang, help_msg(*mode)),
{
    msg(
        lang,
        match mode {
            Mode::List => Msg::TuiHelp,
            Mode::Form(_) => Msg::TuiHelpForm,
            Mode::ConfirmDelete | Mode::ConfirmRemoveAvatar => Msg::TuiHelpConfirm,
            Mode::Error(_) => Msg::TuiHelpError,
            Mode::Picker(_) => Msg::TuiHelpPick,
        },
    )
}

/// The title of a picker popup.
pub fn picker_title(lang: Lang, kind: PickerKind) -> (r: &'static str)
    ensures
        r@ == msg_spec(
            lang,
            match kind {
                PickerKind::Lang => Msg::TuiPickLang,
                PickerKind::Sort => Msg::TuiPickSort,
                PickerKind::View => Msg::TuiPickView,
            },
        ),
{
    msg(
        lang,
        match kind {
            PickerKind::Lang => Msg::TuiPickLang,
            PickerKind::Sort => Msg::TuiPickSort,
            PickerKind::View => Msg::TuiPickView,
        },
    )
}

/// The question of a confirmation popup: `prefix`, the alias, a question mark.
pub fn confirm_body(lang: Lang, prefix: Msg, alias: &str) -> (r: String)
    ensures
        r@ == msg_spec(lang, prefix) + alias@ + msg_spec(lang, Msg::QuestionMark),
{
    let mut out = str_chars(msg(lang, prefix));
    push_str(&mut out, alias);
    push_str(&mut out, msg(lang, Msg::QuestionMark));
    chars_to_string(out.as_slice())
}

/// The birth line of the detail panel: date and time, or the date and "time unknown".
pub open spec fn birth_text_spec(lang: Lang, p: Person) -> Seq<char> {
    if p.has_time {
        date_text(p.birth.date) + seq![' '] + time_text(p.birth.secs as int)
    } else {
        date_text(p.birth.date) + "  ("@ + msg_spec(lang, Msg::TimeUnknown) + seq![')']
    }
}

pub fn birth_text(lang: Lang, p: &Person) -> (r: String)
    requires
        p.birth.wf(),
    ensures
        r@ == birth_text_spec(lang, *p),
{
    let mut out = str_chars(format_date(p.birth.date).as_str());
    if p.has_time {
        out.push(' ');
        push_str(&mut out, format_time(p.birth.secs).as_str());
    } else {
        push_str(&mut out, "  (");
        push_str(&mut out, msg(lang, Msg::TimeUnknown));
        out.push(')');
        proof {
            reveal_strlit("  (");
        }
    }
    proof {
        assert(out@ =~= birth_text_spec(lang, *p));
    }
    chars_to_string(out.as_slice())
}

/// The place line: the zone name or "local time", tagged when the avatar is pixel art.
pub open spec fn place_text_spec(lang: Lang, p: Person) -> Seq<char> {
    let zone = match p.tz {
        Some(n) => n@,
        None => msg_spec(lang, Msg::TzLocal),
    };
    if p.avatar && p.pixel {
        zone + " · ▦ "@ + msg_spec(lang, Msg::PixelTag)
    } else {
        zone
    }
}

pub fn place_text(lang: Lang, p: &Person) -> (r: String)
    ensures
        r@ == place_text_spec(lang, *p),
{
    let mut out = match &p.tz {
        Some(n) => str_chars(n.as_str()),
        None => str_chars(msg(lang, Msg::TzLocal)),
    };
    if p.avatar && p.pixel {
        push_str(&mut out, " · ▦ ");
        push_str(&mut out, msg(lang, Msg::PixelTag));
    }
    chars_to_string(out.as_slice())
}

/// Whether field `i` of `form` shows the "avatar is kept" hint: the avatar field, left
/// empty, of a person who has one.
pub open spec fn shows_avatar_hint(form: FormState, i: int) -> bool {
    i == 6 && form.has_avatar && form.fields[6]@.len() == 0
}

/// Whether field `i` shows the "avatar is kept" hint.
pub fn avatar_hint_shown(form: &FormState, i: usize) -> (r: bool)
    requires
        form.wf(),
    ensures
        r == shows_avatar_hint(*form, i as int),
{
    i == 6 && form.has_avatar && str_chars(form.fields[6].as_str()).len() == 0
}

/// The value line of field `i` of the form: the text with a cursor when focused, or
/// the hint that the current avatar is kept.
pub open spec fn field_value_spec(lang: Lang, form: FormState, i: int) -> Seq<char> {
    let focused = i == form.focus;
    if shows_avatar_hint(form, i) {
        (if focused { "▏"@ } else { Seq::empty() }) + msg_spec(lang, Msg::FieldAvatarKept)
    } else if focused {
        form.fields[i]@ + "▏"@
    } else {
        form.fields[i]@
    }
}

pub fn field_value(lang: Lang, form: &FormState, i: usize) -> (r: String)
    requires
        form.wf(),
        i < FIELD_COUNT,
    ensures
        r@ == field_value_spec(lang, *form, i as int),
{
    let focused = i == form.focus;
    let value = str_chars(form.fields[i].as_str());
    let mut out: Vec<char> = Vec::new();
    proof {
        reveal_strlit("▏");
    }
    if i == 6 && form.has_avatar && value.len() == 0 {
        if focused {
            push_str(&mut out, "▏");
        }
        push_str(&mut out, msg(lang, Msg::FieldAvatarKept));
    } else {
        push_all(&mut out, &value);
        if focused {
            push_str(&mut out, "▏");
        }
    }
    proof {
        assert(out@ =~= field_value_spec(lang, *form, i as int));
    }
    chars_to_string(out.as_slice())
}

/// The form popup's title.
pub fn form_title(lang: Lang, form: &FormState) -> (r: &'static str)
    ensures
        r@ == msg_spec(lang, if form.editing is Some { Msg::TuiFormEdit } else { Msg::TuiFormAdd }),
{
    msg(lang, if form.editing.is_some() { Msg::TuiFormEdit } else { Msg::TuiFormAdd })
}

/// A picker line: the highlighted option gets a marker.
pub fn picker_line(label: &str, highlighted: bool) -> (r: String)
    ensures
        r@ == (if highlighted { " ▶ "@ } else { "   "@ }) + label@,
{
    let mut out = str_chars(if highlighted { " ▶ " } else { "   " });
    push_str(&mut out, label);
    chars_to_string(out.as_slice())
}

} // verus!
