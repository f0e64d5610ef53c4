//! The add / edit form of the interactive view: field editing and validation.
use vstd::prelude::*;

use crate::avatar::{AvatarError, DEFAULT_PIXEL_GRID};
use crate::calendar::{Date, LocalDateTime};
use crate::dates::{DateError, build_person, chrono_time, parse_date_spec, time_format};
use crate::zone::tz_known;
use crate::i18n::{Lang, Msg, msg, msg_spec};
use crate::model::{Person, alias_ok};
use crate::store::{Store, StoreError, has_alias, index_of, validate_alias};
use crate::tui::app::{App, Effect, Key, Mode};
use crate::text::{
    chars_eq, chars_to_string, decimal, decimal2, push_all, push_decimal, push_decimal2,
    push_str, str_chars, str_lower, str_to_lower, trim, trim_chars, trim_str,
};

verus! {

/// Number of form fields: alias, first name, last name, date, time, zone, avatar
/// path, pixel art.
pub const FIELD_COUNT: usize = 8;

/// The message naming field `i`.
pub open spec fn field_msg(i: int) -> Msg {
    if i == 0 {
        Msg::FieldAlias
    } else if i == 1 {
        Msg::FieldFirstName
    } else if i == 2 {
        Msg::FieldLastName
    } else if i == 3 {
        Msg::FieldDate
    } else if i == 4 {
        Msg::FieldTime
    } else if i == 5 {
        Msg::FieldTz
    } else if i == 6 {
        Msg::FieldAvatar
    } else {
        Msg::FieldPixel
    }
}

/// Localized label of field `i`.
pub fn field_label(lang: Lang, i: usize) -> (r: &'static str)
    requires
        i < FIELD_COUNT,
    ensures
        r@ == msg_spec(lang, field_msg(i as int)),
{
    msg(
        lang,
        if i == 0 {
            Msg::FieldAlias
        } else if i == 1 {
            Msg::FieldFirstName
        } else if i == 2 {
            Msg::FieldLastName
        } else if i == 3 {
            Msg::FieldDate
        } else if i == 4 {
            Msg::FieldTime
        } else if i == 5 {
            Msg::FieldTz
        } else if i == 6 {
            Msg::FieldAvatar
        } else {
            Msg::FieldPixel
        },
    )
}

/// A year as chrono's `%Y` writes it: four digits for 0 to 9999, otherwise a sign and
/// at least four digits.
pub open spec fn year_text(y: int) -> Seq<char> {
    let a = if y < 0 { -y } else { y };
    let digits = if a < 10 {
        "000"@ + decimal(a as nat)
    } else if a < 100 {
        "00"@ + decimal(a as nat)
    } else if a < 1000 {
        seq!['0'] + decimal(a as nat)
    } else {
        decimal(a as nat)
    };
    if 0 <= y <= 9999 {
        digits
    } else if y < 0 {
        seq!['-'] + digits
    } else {
        seq!['+'] + digits
    }
}

/// `YYYY-MM-DD` (chrono's `%Y-%m-%d`).
pub open spec fn date_text(d: Date) -> Seq<char> {
    year_text(d.year as int) + seq!['-'] + decimal2(d.month as nat) + seq!['-'] + decimal2(
        d.day as nat,
    )
}

/// `HH:MM` of a time of day (chrono's `%H:%M`).
pub open spec fn time_text(secs: int) -> Seq<char> {
    decimal2((secs / 3600) as nat) + seq![':'] + decimal2(((secs / 60) % 60) as nat)
}

fn push_year(out: &mut Vec<char>, y: i32)
    ensures
        final(out)@ == old(out)@ + year_text(y as int),
{
    let ghost start = out@;
    let a: u64 = if y < 0 {
        (-(y as i64)) as u64
    } else {
        y as u64
    };
    if y < 0 {
        out.push('-');
    } else if y > 9999 {
        out.push('+');
    }
    let ghost mid = out@;
    if a < 10 {
        push_str(out, "000");
    } else if a < 100 {
        push_str(out, "00");
    } else if a < 1000 {
        out.push('0');
    }
    push_decimal(out, a);
    proof {
        let digits = out@.subrange(mid.len() as int, out@.len() as int);
        assert(out@ =~= mid + digits);
        if a < 10 {
            assert(digits =~= "000"@ + decimal(a as nat));
        } else if a < 100 {
            assert(digits =~= "00"@ + decimal(a as nat));
        } else if a < 1000 {
            assert(digits =~= seq!['0'] + decimal(a as nat));
        } else {
            assert(digits =~= decimal(a as nat));
        }
        assert(out@ =~= start + year_text(y as int));
    }
}

/// The birth date as `YYYY-MM-DD`.
pub fn format_date(d: Date) -> (r: String)
    requires
        d.wf(),
    ensures
        r@ == date_text(d),
{
    let mut out: Vec<char> = Vec::new();
    push_year(&mut out, d.year);
    out.push('-');
    push_decimal2(&mut out, d.month as u64);
    out.push('-');
    push_decimal2(&mut out, d.day as u64);
    proof {
        assert(out@ =~= date_text(d));
    }
    chars_to_string(out.as_slice())
}

/// A time of day as `HH:MM`.
pub fn format_time(secs: u32) -> (r: String)
    ensures
        r@ == time_text(secs as int),
{
    let mut out: Vec<char> = Vec::new();
    push_decimal2(&mut out, (secs / 3600) as u64);
    out.push(':');
    push_decimal2(&mut out, ((secs / 60) % 60) as u64);
    proof {
        assert(out@ =~= time_text(secs as int));
    }
    chars_to_string(out.as_slice())
}

/// The value of a run of ASCII digits.
pub open spec fn digits_value(s: Seq<char>) -> int
    decreases s.len(),
{
    if s.len() == 0 {
        0
    } else {
        digits_value(s.drop_last()) * 10 + (s.last() as int - 48)
    }
}

pub open spec fn all_digits(s: Seq<char>) -> bool {
    forall|i: int| 0 <= i < s.len() ==> '0' <= #[trigger] s[i] <= '9'
}

/// `u32::from_str`: an optional `+`, then at least one ASCII digit, the value fitting `u32`.
pub open spec fn parse_u32_spec(s: Seq<char>) -> Option<int> {
    let body = if s.len() > 0 && s[0] == '+' { s.drop_first() } else { s };
    if body.len() > 0 && all_digits(body) && digits_value(body) <= u32::MAX {
        Some(digits_value(body))
    } else {
        None
    }
}

proof fn lemma_digits_value_mono(s: Seq<char>, k: int)
    requires
        0 <= k <= s.len(),
        all_digits(s),
    ensures
        0 <= digits_value(s.subrange(0, k)) <= digits_value(s),
    decreases s.len() - k,
{
    if k < s.len() {
        lemma_digits_value_mono(s, k + 1);
        assert(s.subrange(0, k + 1).drop_last() =~= s.subrange(0, k));
        assert(s.subrange(0, k + 1).last() == s[k]);
    } else {
        assert(s.subrange(0, k) =~= s);
        lemma_digits_nonneg(s);
    }
}

proof fn lemma_digits_nonneg(s: Seq<char>)
    requires
        all_digits(s),
    ensures
        digits_value(s) >= 0,
    decreases s.len(),
{
    if s.len() > 0 {
        lemma_digits_nonneg(s.drop_last());
    }
}

/// Reads a `u32` as `str::parse::<u32>` does.
pub fn parse_u32(s: &Vec<char>) -> (r: Option<u32>)
    ensures
        r matches Some(v) ==> parse_u32_spec(s@) == Some(v as int),
        r is None <==> parse_u32_spec(s@) is None,
{
    let start: usize = if s.len() > 0 && s[0] == '+' {
        1
    } else {
        0
    };
    let ghost body = if s@.len() > 0 && s@[0] == '+' { s@.drop_first() } else { s@ };
    proof {
        assert(body =~= s@.subrange(start as int, s@.len() as int));
    }
    if start >= s.len() {
        return None;
    }
    let mut value: u64 = 0;
    let mut i: usize = start;
    while i < s.len()
        invariant
            start <= i <= s.len(),
            start < s.len(),
            body == (if s@.len() > 0 && s@[0] == '+' { s@.drop_first() } else { s@ }),
            body == s@.subrange(start as int, s@.len() as int),
            all_digits(s@.subrange(start as int, i as int)),
            value as int == digits_value(s@.subrange(start as int, i as int)),
            value <= u32::MAX,
        decreases s.len() - i,
    {
        let c = s[i];
        if c < '0' || c > '9' {
            proof {
                assert(body[i - start] == c);
                assert(!all_digits(body));
            }
            return None;
        }
        let d: u64 = if c == '0' {
            0
        } else if c == '1' {
            1
        } else if c == '2' {
            2
        } else if c == '3' {
            3
        } else if c == '4' {
            4
        } else if c == '5' {
            5
        } else if c == '6' {
            6
        } else if c == '7' {
            7
        } else if c == '8' {
            8
        } else {
            9
        };
        let ghost pre = s@.subrange(start as int, i as int);
        let ghost next = s@.subrange(start as int, i + 1);
        proof {
            assert(next.drop_last() =~= pre);
            assert(next.last() == c);
            assert(d as int == c as int - 48);
            assert(all_digits(next));
        }
        let nv = value * 10 + d;
        if nv > 4294967295 {
            proof {
                if all_digits(body) {
                    lemma_digits_value_mono(body, (i + 1 - start) as int);
                    assert(body.subrange(0, (i + 1 - start) as int) =~= next);
                    assert(digits_value(body) > u32::MAX);
                }
            }
            return None;
        }
        value = nv;
        i = i + 1;
    }
    Some(value as u32)
}

/// The pixel-art field: empty or no (`n`, `h`, `no`, `hayır`, `hayir`) for a photo;
/// yes (`y`, `e`, `yes`, `evet`) for the default grid; a number from 2 to 256 for that
/// grid. Read after trimming and lower-casing.
pub open spec fn parse_pixel_spec(s: Seq<char>) -> Result<Option<u32>, Seq<char>> {
    let t = str_lower(trim(s));
    if t == ""@ || t == "n"@ || t == "h"@ || t == "no"@ || t == "hayır"@ || t == "hayir"@ {
        Ok(None)
    } else if t == "y"@ || t == "e"@ || t == "yes"@ || t == "evet"@ {
        Ok(Some(DEFAULT_PIXEL_GRID))
    } else {
        match parse_u32_spec(t) {
            Some(g) if 2 <= g <= 256 => Ok(Some(g as u32)),
            _ => Err(t),
        }
    }
}

fn is_word(v: &Vec<char>, w: &str) -> (r: bool)
    ensures
        r == (v@ == w@),
{
    let x = str_chars(w);
    chars_eq(v.as_slice(), x.as_slice())
}

/// Parse the pixel-art field; the error message names the lower-cased value.
pub fn parse_pixel(lang: Lang, s: &str) -> (r: Result<Option<u32>, String>)
    ensures
        r matches Ok(v) ==> parse_pixel_spec(s@) == Ok::<Option<u32>, Seq<char>>(v),
        r matches Err(m) ==> parse_pixel_spec(s@) matches Err(t) && m@ == msg_spec(lang, Msg::Quote)
            + t + msg_spec(lang, Msg::BadPixelSuffix),
{
    let t = str_to_lower(trim_str(s).as_str());
    let v = str_chars(t.as_str());
    if is_word(&v, "") || is_word(&v, "n") || is_word(&v, "h") || is_word(&v, "no") || is_word(
        &v,
        "hayır",
    ) || is_word(&v, "hayir") {
        return Ok(None);
    }
    if is_word(&v, "y") || is_word(&v, "e") || is_word(&v, "yes") || is_word(&v, "evet") {
        return Ok(Some(DEFAULT_PIXEL_GRID));
    }
    match parse_u32(&v) {
        Some(g) => {
            if 2 <= g && g <= 256 {
                return Ok(Some(g));
            }
        },
        None => {},
    }
    let mut out = str_chars(msg(lang, Msg::Quote));
    push_all(&mut out, &v);
    push_str(&mut out, msg(lang, Msg::BadPixelSuffix));
    Err(chars_to_string(out.as_slice()))
}

/// Whether the form passes every check of `validate` against `people`.
pub open spec fn form_accepts(f: FormState, people: Seq<Person>, avatar_readable: bool) -> bool {
    let alias = trim(f.fields[0]@);
    let first = trim(f.fields[1]@);
    let is_self = f.editing matches Some(e) && e@ == alias;
    let avatar = trim(f.fields[6]@);
    let time = trim(f.fields[4]@);
    let zone = trim(f.fields[5]@);
    &&& alias_ok(alias)
    &&& (is_self || !has_alias(people, alias))
    &&& first.len() > 0
    &&& parse_date_spec(f.fields[3]@) is Some
    &&& (time.len() > 0 ==> chrono_time(trim(time), time_format()) is Some)
    &&& (zone.len() > 0 ==> tz_known(trim(zone)))
    &&& (avatar.len() > 0 ==> avatar_readable)
    &&& parse_pixel_spec(f.fields[7]@) is Ok
}

/// `r` is what checking the form `f` against `people` gives (see `FormState::validate`):
/// the first failing check's localized message, or the person and what goes with it.
pub open spec fn validated(
    f: FormState,
    lang: Lang,
    people: Seq<Person>,
    avatar_readable: bool,
    r: Result<FormOutput, String>,
) -> bool {
        let alias = trim(f.fields[0]@);
        let first = trim(f.fields[1]@);
        let is_self = f.editing matches Some(e) && e@ == alias;
        let avatar = trim(f.fields[6]@);
        let time = trim(f.fields[4]@);
        let zone = trim(f.fields[5]@);
        let early = alias_ok(alias) && (is_self || !has_alias(people, alias)) && first.len() > 0;
        let date_ok = parse_date_spec(f.fields[3]@) is Some;
        let time_ok = time.len() > 0 ==> chrono_time(trim(time), time_format()) is Some;
        let zone_ok = zone.len() > 0 ==> tz_known(trim(zone));
        let fields_ok = date_ok && time_ok && zone_ok;
        let image_ok = avatar.len() > 0 ==> avatar_readable;
        &&& r is Ok <==> form_accepts(f, people, avatar_readable)
        &&& form_accepts(f, people, avatar_readable) == (early && fields_ok && image_ok
            && parse_pixel_spec(f.fields[7]@) is Ok)
        &&& early && !date_ok ==> (r matches Err(m) && m@ == msg_spec(lang, Msg::Quote) + trim(
            f.fields[3]@,
        ) + msg_spec(lang, Msg::BadDateSuffix))
        &&& early && date_ok && !time_ok ==> (r matches Err(m) && m@ == msg_spec(lang, Msg::Quote)
            + trim(time) + msg_spec(lang, Msg::BadTimeSuffix))
        &&& early && date_ok && time_ok && !zone_ok ==> (r matches Err(m) && m@ == msg_spec(
            lang,
            Msg::Quote,
        ) + trim(zone) + msg_spec(lang, Msg::BadTzSuffix))
        &&& early && fields_ok && !image_ok ==> (r matches Err(m) && m@ == msg_spec(lang, Msg::BadImagePrefix)
            + avatar + msg_spec(lang, Msg::BadImageSuffix))
        &&& early && fields_ok && image_ok ==> (parse_pixel_spec(f.fields[7]@) matches Err(t) ==> (r matches Err(
            m,
        ) && m@ == msg_spec(lang, Msg::Quote) + t + msg_spec(lang, Msg::BadPixelSuffix)))
        &&& !alias_ok(alias) ==> (r matches Err(m) && m@ == msg_spec(lang, Msg::Quote) + alias
            + msg_spec(lang, Msg::BadAliasSuffix))
        &&& alias_ok(alias) && !is_self && has_alias(people, alias) ==> (r matches Err(m)
            && m@ == msg_spec(lang, Msg::Quote) + alias + msg_spec(lang, Msg::DuplicateSuffix))
        &&& alias_ok(alias) && (is_self || !has_alias(people, alias)) && first.len() == 0
            ==> (r matches Err(m) && m@ == msg_spec(lang, Msg::EmptyName))
        &&& r matches Ok(out) ==> {
            &&& out.person.wf()
            &&& out.person.alias@ == alias
            &&& out.person.first_name@ == first
            &&& (out.person.last_name is Some <==> trim(f.fields[2]@).len() > 0)
            &&& (out.person.last_name matches Some(l) ==> l@ == trim(f.fields[2]@))
            &&& parse_date_spec(f.fields[3]@) == Some(
                (out.person.birth.date.year as int, out.person.birth.date.month as int, out.person.birth.date.day as int),
            )
            &&& out.person.has_time == (time.len() > 0)
            &&& (time.len() > 0 ==> chrono_time(trim(time), time_format()) == Some(out.person.birth.secs as int))
            &&& (time.len() == 0 ==> out.person.birth.secs == 0)
            &&& (out.person.tz is Some <==> zone.len() > 0)
            &&& (out.person.tz matches Some(n) ==> n@ == trim(zone))
            &&& (out.avatar_src is Some <==> avatar.len() > 0)
            &&& (out.avatar_src matches Some(a) ==> a@ == avatar)
            &&& parse_pixel_spec(f.fields[7]@) == Ok::<Option<u32>, Seq<char>>(out.pixel)
            &&& (out.avatar_src is Some ==> out.person.avatar && out.person.pixel == out.pixel is Some)
            &&& (out.avatar_src is None ==> match f.editing {
                Some(e) if has_alias(people, e@) => {
                    let old_p = people[index_of(people, e@)];
                    out.person.avatar == old_p.avatar && out.person.pixel == old_p.pixel
                },
                _ => !out.person.avatar && !out.person.pixel,
            })
            &&& (out.rename_from is Some <==> (f.editing is Some && !is_self))
            &&& (out.rename_from matches Some(o) ==> f.editing matches Some(e) && o@ == e@)
        }
    }

/// What a valid form yields: the person, the image to import (if a path was given),
/// the pixel-art grid for it, and the alias the person had before a rename.
#[derive(Debug)]
pub struct FormOutput {
    pub person: Person,
    pub avatar_src: Option<String>,
    pub pixel: Option<u32>,
    pub rename_from: Option<String>,
}

/// The state of the add / edit form.
#[derive(Clone, Debug, PartialEq, Eq)]
pub struct FormState {
    /// Alias of the person being edited; `None` when adding.
    pub editing: Option<String>,
    pub fields: Vec<String>,
    pub focus: usize,
    pub error: Option<String>,
    /// The person being edited already has a stored avatar.
    pub has_avatar: bool,
}

impl FormState {
    /// Eight fields, the focus on one of them.
    pub open spec fn wf(&self) -> bool {
        self.fields.len() == FIELD_COUNT && self.focus < FIELD_COUNT
    }

    /// An empty form for adding a person.
    pub fn new_add() -> (r: FormState)
        ensures
            r.wf(),
            r.editing is None,
            forall|i: int| 0 <= i < FIELD_COUNT ==> (#[trigger] r.fields[i])@.len() == 0,
            r.focus == 0,
            r.error is None,
            !r.has_avatar,
    {
        let mut fields: Vec<String> = Vec::new();
        let mut i: usize = 0;
        while i < FIELD_COUNT
            invariant
                i <= FIELD_COUNT,
                fields.len() == i,
                forall|k: int| 0 <= k < i ==> (#[trigger] fields[k])@.len() == 0,
            decreases FIELD_COUNT - i,
        {
            fields.push(String::new());
            i = i + 1;
        }
        FormState { editing: None, fields, focus: 0, error: None, has_avatar: false }
    }

    /// A form filled from `p` for editing; the avatar and pixel fields start empty.
    pub fn from_person(p: &Person) -> (r: FormState)
        requires
            p.birth.wf(),
        ensures
            r.wf(),
            r.editing matches Some(a) && a@ == p.alias@,
            r.fields[0]@ == p.alias@,
            r.fields[1]@ == p.first_name@,
            r.fields[2]@ == (match p.last_name {
                Some(l) => l@,
                None => Seq::empty(),
            }),
            r.fields[3]@ == date_text(p.birth.date),
            r.fields[4]@ == (if p.has_time { time_text(p.birth.secs as int) } else { Seq::empty() }),
            r.fields[5]@ == (match p.tz {
                Some(t) => t@,
                None => Seq::empty(),
            }),
            r.fields[6]@.len() == 0,
            r.fields[7]@.len() == 0,
            r.focus == 0,
            r.error is None,
            r.has_avatar == p.avatar,
    {
        let last = match &p.last_name {
            Some(l) => l.clone(),
            None => String::new(),
        };
        let time = if p.has_time {
            format_time(p.birth.secs)
        } else {
            String::new()
        };
        let tz = match &p.tz {
            Some(t) => t.clone(),
            None => String::new(),
        };
        let fields = vec![
            p.alias.clone(),
            p.first_name.clone(),
            last,
            format_date(p.birth.date),
            time,
            tz,
            String::new(),
            String::new(),
        ];
        FormState {
            editing: Some(p.alias.clone()),
            fields,
            focus: 0,
            error: None,
            has_avatar: p.avatar,
        }
    }

    /// Focus the next field, wrapping around after the last.
    pub fn next(&mut self)
        requires
            old(self).wf(),
        ensures
            final(self).wf(),
            final(self).focus == (old(self).focus + 1) % (FIELD_COUNT as int),
            final(self).fields == old(self).fields,
            final(self).error == old(self).error,
            final(self).editing == old(self).editing,
            final(self).has_avatar == old(self).has_avatar,
    {
        self.focus = (self.focus + 1) % FIELD_COUNT;
    }

    /// Focus the previous field, wrapping around before the first.
    pub fn prev(&mut self)
        requires
            old(self).wf(),
        ensures
            final(self).wf(),
            final(self).focus == (old(self).focus + FIELD_COUNT - 1) % (FIELD_COUNT as int),
            final(self).fields == old(self).fields,
            final(self).error == old(self).error,
            final(self).editing == old(self).editing,
            final(self).has_avatar == old(self).has_avatar,
    {
        self.focus = (self.focus + FIELD_COUNT - 1) % FIELD_COUNT;
    }

    /// Types `c` into the focused field and clears the error.
    pub fn input(&mut self, c: char)
        requires
            old(self).wf(),
        ensures
            final(self).wf(),
            final(self).fields@.len() == FIELD_COUNT,
            final(self).fields[old(self).focus as int]@ == old(self).fields[old(self).focus as int]@.push(c),
            forall|i: int| 0 <= i < FIELD_COUNT && i != old(self).focus ==> #[trigger] final(self).fields[i]
                == old(self).fields[i],
            final(self).focus == old(self).focus,
            final(self).error is None,
            final(self).editing == old(self).editing,
            final(self).has_avatar == old(self).has_avatar,
    {
        let mut v = str_chars(self.fields[self.focus].as_str());
        v.push(c);
        let f = self.focus;
        self.fields.set(f, chars_to_string(v.as_slice()));
        self.error = None;
    }

    /// Deletes the last character of the focused field and clears the error.
    pub fn backspace(&mut self)
        requires
            old(self).wf(),
        ensures
            final(self).wf(),
            final(self).fields[old(self).focus as int]@ == (if old(self).fields[old(self).focus as int]@.len() == 0 {
                Seq::empty()
            } else {
                old(self).fields[old(self).focus as int]@.drop_last()
            }),
            forall|i: int| 0 <= i < FIELD_COUNT && i != old(self).focus ==> #[trigger] final(self).fields[i]
                == old(self).fields[i],
            final(self).focus == old(self).focus,
            final(self).error is None,
            final(self).editing == old(self).editing,
            final(self).has_avatar == old(self).has_avatar,
    {
        let mut v = str_chars(self.fields[self.focus].as_str());
        if v.len() > 0 {
            v.pop();
        }
        let f = self.focus;
        self.fields.set(f, chars_to_string(v.as_slice()));
        self.error = None;
    }

    /// Checks every field against the store. `avatar_readable` tells whether the trimmed
    /// avatar path names a readable image (it is only consulted when that path is not
    /// empty). The error is the localized message of the first failing check: alias,
    /// duplicate alias, empty first name, date / time / zone, avatar image, pixel setting.
    pub fn validate(&self, lang: Lang, store: &Store, avatar_readable: bool) -> (r: Result<FormOutput, String>)
        requires
            self.wf(),
        ensures
            validated(*self, lang, store.data.people@, avatar_readable, r),
    {
        let alias = trim_str(self.fields[0].as_str());
        match validate_alias(alias.as_str()) {
            Ok(()) => {},
            Err(e) => {
                return Err(e.message(lang));
            },
        }
        let is_self = match &self.editing {
            Some(e) => crate::text::str_eq(e.as_str(), alias.as_str()),
            None => false,
        };
        if !is_self && store.find(alias.as_str()).is_some() {
            return Err(StoreError::Duplicate(alias).message(lang));
        }
        let first = trim_str(self.fields[1].as_str());
        if str_chars(first.as_str()).len() == 0 {
            return Err(msg(lang, Msg::EmptyName).to_string());
        }
        let last = trim_str(self.fields[2].as_str());
        let time = trim_str(self.fields[4].as_str());
        let tz = trim_str(self.fields[5].as_str());
        let time_opt: Option<&str> = if str_chars(time.as_str()).len() > 0 {
            Some(time.as_str())
        } else {
            None
        };
        let tz_opt: Option<&str> = if str_chars(tz.as_str()).len() > 0 {
            Some(tz.as_str())
        } else {
            None
        };
        let mut person = match build_person(
            alias.as_str(),
            first.as_str(),
            Some(last.as_str()),
            self.fields[3].as_str(),
            time_opt,
            tz_opt,
        ) {
            Ok(p) => p,
            Err(e) => return Err(e.message(lang)),
        };
        let avatar = trim_str(self.fields[6].as_str());
        let avatar_src: Option<String> = if str_chars(avatar.as_str()).len() > 0 {
            Some(avatar)
        } else {
            None
        };
        match &avatar_src {
            Some(src) => {
                if !avatar_readable {
                    return Err(AvatarError::BadImage(src.clone()).message(lang));
                }
            },
            None => {},
        }
        let pixel = match parse_pixel(lang, self.fields[7].as_str()) {
            Ok(p) => p,
            Err(m) => return Err(m),
        };
        let existing: Option<&Person> = match &self.editing {
            Some(e) => store.find(e.as_str()),
            None => None,
        };
        if avatar_src.is_some() {
            person.avatar = true;
            person.pixel = pixel.is_some();
        } else {
            match existing {
                Some(p) => {
                    person.avatar = p.avatar;
                    person.pixel = p.pixel;
                },
                None => {
                    person.avatar = false;
                    person.pixel = false;
                },
            }
        }
        let rename_from = match &self.editing {
            Some(e) => {
                if is_self {
                    None
                } else {
                    Some(e.clone())
                }
            },
            None => None,
        };
        Ok(FormOutput { person, avatar_src, pixel, rename_from })
    }
}

/// Moving the focus forward and then back returns to the same field.
pub proof fn lemma_next_prev(focus: int)
    requires
        0 <= focus < FIELD_COUNT,
    ensures
        (((focus + 1) % (FIELD_COUNT as int)) + FIELD_COUNT - 1) % (FIELD_COUNT as int) == focus,
        ((focus + FIELD_COUNT - 1) % (FIELD_COUNT as int) + 1) % (FIELD_COUNT as int) == focus,
{
}

/// What a key in the open form asks of the caller: Enter submits, nothing else does.
pub open spec fn form_effect(key: Key) -> Effect {
    if key == Key::Enter {
        Effect::Submit
    } else {
        Effect::Nothing
    }
}

/// `mode` is what the view shows after `key` (with Control held when `ctrl`) in the
/// open form `f`: Esc closes it, Enter leaves it as it is (submission is the caller's),
/// Tab / Down and Shift-Tab / Up move the focus round the fields, Backspace deletes the
/// last character of the focused field, a character without Control is appended to it;
/// editing clears the error. Any other key changes nothing.
pub open spec fn form_key_outcome(f: FormState, key: Key, ctrl: bool, mode: Mode) -> bool {
    match key {
        Key::Esc => mode matches Mode::List,
        Key::Tab | Key::Down => mode matches Mode::Form(g) && g.focus == (f.focus + 1) % (FIELD_COUNT as int) && g.fields
            == f.fields && g.editing == f.editing && g.error == f.error && g.has_avatar == f.has_avatar,
        Key::BackTab | Key::Up => mode matches Mode::Form(g) && g.focus == (f.focus + FIELD_COUNT - 1) % (
        FIELD_COUNT as int) && g.fields == f.fields && g.editing == f.editing && g.error == f.error && g.has_avatar
            == f.has_avatar,
        Key::Backspace => mode matches Mode::Form(g) && g.focus == f.focus && g.editing == f.editing && g.has_avatar
            == f.has_avatar && g.error is None && g.fields.len() == FIELD_COUNT && g.fields[f.focus as int]@ == (if f.fields[
            f.focus as int]@.len() == 0 {
            Seq::empty()
        } else {
            f.fields[f.focus as int]@.drop_last()
        }) && (forall|i: int| 0 <= i < FIELD_COUNT && i != f.focus ==> #[trigger] g.fields[i] == f.fields[i]),
        Key::Char(c) => if ctrl {
            mode == Mode::Form(f)
        } else {
            mode matches Mode::Form(g) && g.focus == f.focus && g.editing == f.editing && g.has_avatar == f.has_avatar
                && g.error is None && g.fields.len() == FIELD_COUNT && g.fields[f.focus as int]@ == f.fields[f.focus as int]@.push(
                c,
            ) && (forall|i: int| 0 <= i < FIELD_COUNT && i != f.focus ==> #[trigger] g.fields[i] == f.fields[i])
        },
        _ => mode == Mode::Form(f),
    }
}

/// A key press in the open form: Esc closes it, Enter asks for submission, Tab / Down
/// and Shift-Tab / Up move the focus, Backspace deletes, a character without Control
/// is typed. Outside the form nothing happens.
pub fn handle_key(app: &mut App, key: Key, ctrl: bool) -> (e: Effect)
    requires
        old(app).wf(),
    ensures
        final(app).wf(),
        final(app).store == old(app).store,
        final(app).selected == old(app).selected,
        final(app).should_quit == old(app).should_quit,
        !(old(app).mode matches Mode::Form(_)) ==> *final(app) == *old(app) && e is Nothing,
        (old(app).mode matches Mode::Form(_)) ==> e == form_effect(key),
        old(app).mode matches Mode::Form(f) ==> form_key_outcome(f, key, ctrl, final(app).mode),
{
    let in_form = match &app.mode {
        Mode::Form(_) => true,
        _ => false,
    };
    if !in_form {
        return Effect::Nothing;
    }
    match key {
        Key::Esc => {
            app.cancel();
            Effect::Nothing
        },
        Key::Enter => Effect::Submit,
        _ => {
            match &mut app.mode {
                Mode::Form(f) => match key {
                    Key::Tab | Key::Down => f.next(),
                    Key::BackTab | Key::Up => f.prev(),
                    Key::Backspace => f.backspace(),
                    Key::Char(c) => {
                        if !ctrl {
                            f.input(c);
                        }
                    },
                    _ => {},
                },
                _ => {},
            }
            Effect::Nothing
        },
    }
}

} // verus!
