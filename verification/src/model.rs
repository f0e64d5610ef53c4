//! The people kept in the store, the stored settings, and alias validation.
use vstd::prelude::*;

use crate::calendar::{DAY_SECS, LocalDateTime, is_valid_ymd};
use crate::text::{
    char_alnum, char_is_alphanumeric, char_upper, char_to_upper, chars_to_string, push_all, push_str, str_chars,
};
use crate::zone::{tz_known, tz_parse};

verus! {

/// A person: alias, names, birth moment (local wall-clock time), optional zone name.
#[derive(Clone, Debug, PartialEq, Eq)]
pub struct Person {
    pub alias: String,
    pub first_name: String,
    pub last_name: Option<String>,
    /// Birth as a local date and time of day (midnight when the time is unknown).
    pub birth: LocalDateTime,
    /// Whether the time of day of the birth is known.
    pub has_time: bool,
    /// IANA zone name; `None` means the zone of this machine.
    pub tz: Option<String>,
    /// A stored avatar image exists.
    pub avatar: bool,
    /// The stored avatar is pixel art.
    pub pixel: bool,
}

impl Person {
    /// A usable person: a real birth date and time and a known zone name.
    pub open spec fn wf(&self) -> bool {
        &&& self.birth.wf()
        &&& (self.tz matches Some(n) ==> tz_known(n@))
    }

    /// The alias as characters.
    pub open spec fn alias_view(&self) -> Seq<char> {
        self.alias@
    }

    /// Full name: first name, then the last name when it is not empty.
    pub open spec fn full_name_spec(&self) -> Seq<char> {
        match self.last_name {
            Some(l) if l@.len() > 0 => self.first_name@ + seq![' '] + l@,
            _ => self.first_name@,
        }
    }

    /// Initials: the upper-cased first letters of first and last name.
    pub open spec fn initials_spec(&self) -> Seq<char> {
        let f = if self.first_name@.len() > 0 {
            char_upper(self.first_name@[0])
        } else {
            Seq::empty()
        };
        let l = match self.last_name {
            Some(l) if l@.len() > 0 => char_upper(l@[0]),
            _ => Seq::empty(),
        };
        f + l
    }

    /// Whether `wf` holds: checked on people read back from the store file.
    pub fn is_usable(&self) -> (r: bool)
        ensures
            r == self.wf(),
    {
        let d = self.birth.date;
        if !is_valid_ymd(d.year, d.month, d.day) || self.birth.secs >= DAY_SECS {
            return false;
        }
        match &self.tz {
            Some(n) => tz_parse(n.as_str()).is_some(),
            None => true,
        }
    }

    /// "First Last", or just the first name when there is no last name.
    pub fn full_name(&self) -> (r: String)
        ensures
            r@ == self.full_name_spec(),
    {
        let mut out = str_chars(self.first_name.as_str());
        match &self.last_name {
            Some(l) => {
                let lv = str_chars(l.as_str());
                if lv.len() > 0 {
                    out.push(' ');
                    push_all(&mut out, &lv);
                }
            },
            None => {},
        }
        chars_to_string(out.as_slice())
    }

    /// Uppercased first letters of first and last name, e.g. "AA".
    pub fn initials(&self) -> (r: String)
        ensures
            r@ == self.initials_spec(),
    {
        let mut out: Vec<char> = Vec::new();
        let f = str_chars(self.first_name.as_str());
        if f.len() > 0 {
            let u = char_to_upper(f[0]);
            push_all(&mut out, &u);
        }
        match &self.last_name {
            Some(l) => {
                let lv = str_chars(l.as_str());
                if lv.len() > 0 {
                    let u = char_to_upper(lv[0]);
                    push_all(&mut out, &u);
                }
            },
            None => {},
        }
        proof {
            assert(out@ =~= self.initials_spec());
        }
        chars_to_string(out.as_slice())
    }
}

/// How the list is ordered.
#[derive(Clone, Copy, Debug, PartialEq, Eq, Structural)]
pub enum SortKey {
    Age,
    Alias,
    Birthday,
}

impl SortKey {
    /// The default order: oldest first.
    pub fn default_key() -> (r: SortKey)
        ensures
            r == SortKey::Age,
    {
        SortKey::Age
    }
}

/// How an age is displayed.
#[derive(Clone, Copy, Debug, PartialEq, Eq, Structural)]
pub enum AgeView {
    Calendar,
    Years,
    Months,
    Weeks,
    Days,
    Hours,
}

/// The views in picker order.
pub open spec fn age_view_at(i: int) -> AgeView {
    if i == 0 {
        AgeView::Calendar
    } else if i == 1 {
        AgeView::Years
    } else if i == 2 {
        AgeView::Months
    } else if i == 3 {
        AgeView::Weeks
    } else if i == 4 {
        AgeView::Days
    } else {
        AgeView::Hours
    }
}

impl AgeView {
    /// The default view: calendar breakdown.
    pub fn default_view() -> (r: AgeView)
        ensures
            r == AgeView::Calendar,
    {
        AgeView::Calendar
    }

    /// All views, in picker order.
    pub fn all() -> (r: Vec<AgeView>)
        ensures
            r.len() == 6,
            forall|i: int| 0 <= i < 6 ==> r@[i] == age_view_at(i),
    {
        vec![
            AgeView::Calendar,
            AgeView::Years,
            AgeView::Months,
            AgeView::Weeks,
            AgeView::Days,
            AgeView::Hours,
        ]
    }

    /// Position of a view in picker order.
    pub fn index(self) -> (r: usize)
        ensures
            r < 6,
            age_view_at(r as int) == self,
    {
        match self {
            AgeView::Calendar => 0,
            AgeView::Years => 1,
            AgeView::Months => 2,
            AgeView::Weeks => 3,
            AgeView::Days => 4,
            AgeView::Hours => 5,
        }
    }
}

/// Stored settings.
#[derive(Clone, Debug, PartialEq, Eq)]
pub struct Settings {
    pub lang: Option<String>,
    pub sort: SortKey,
    pub age_view: AgeView,
}

impl Settings {
    /// No language, oldest first, calendar view.
    pub fn default_settings() -> (r: Settings)
        ensures
            r.lang is None,
            r.sort == SortKey::Age,
            r.age_view == AgeView::Calendar,
    {
        Settings { lang: None, sort: SortKey::Age, age_view: AgeView::Calendar }
    }
}

/// The whole contents of the store file.
#[derive(Clone, Debug, PartialEq, Eq)]
pub struct StoreFile {
    pub settings: Settings,
    pub people: Vec<Person>,
}

impl StoreFile {
    /// Default settings and nobody.
    pub fn empty() -> (r: StoreFile)
        ensures
            r.people@.len() == 0,
            r.settings.lang is None,
            r.settings.sort == SortKey::Age,
            r.settings.age_view == AgeView::Calendar,
    {
        StoreFile { settings: Settings::default_settings(), people: Vec::new() }
    }
}

/// A character an alias may hold: a letter or digit of any script, `-`, `_` or a space.
pub open spec fn alias_char_ok(c: char) -> bool {
    c == '-' || c == '_' || c == ' ' || char_alnum(c)
}

/// An alias is non-empty and made of letters and digits (of any script), `-`, `_` and
/// spaces; so it is a single path component under the avatar directory.
pub open spec fn alias_ok(a: Seq<char>) -> bool {
    &&& a.len() > 0
    &&& forall|i: int| 0 <= i < a.len() ==> alias_char_ok(#[trigger] a[i])
}

/// Whether `alias` is usable (see `alias_ok`).
pub fn alias_is_valid(alias: &str) -> (r: bool)
    ensures
        r == alias_ok(alias@),
        r ==> alias@.len() > 0 && forall|i: int|
            0 <= i < alias@.len() ==> {
                let c = #[trigger] alias@[i];
                ||| c == '-' || c == '_' || c == ' '
                ||| 'a' <= c <= 'z' || 'A' <= c <= 'Z' || '0' <= c <= '9'
                ||| c >= '\u{80}'
            },
        (alias@.len() > 0 && forall|i: int|
            0 <= i < alias@.len() ==> {
                let c = #[trigger] alias@[i];
                ||| c == '-' || c == '_' || c == ' '
                ||| 'a' <= c <= 'z' || 'A' <= c <= 'Z' || '0' <= c <= '9'
            }) ==> r,
{
    let v = str_chars(alias);
    if v.len() == 0 {
        return false;
    }
    let mut i: usize = 0;
    while i < v.len()
        invariant
            i <= v.len(),
            v@ == alias@,
            forall|k: int| 0 <= k < i ==> alias_char_ok(#[trigger] v@[k]),
            forall|k: int|
                0 <= k < i ==> {
                    let c = #[trigger] v@[k];
                    ||| c == '-' || c == '_' || c == ' '
                    ||| 'a' <= c <= 'z' || 'A' <= c <= 'Z' || '0' <= c <= '9'
                    ||| c >= '\u{80}'
                },
        decreases v.len() - i,
    {
        let c = v[i];
        if !(c == '-' || c == '_' || c == ' ' || char_is_alphanumeric(c)) {
            return false;
        }
        i = i + 1;
    }
    true
}

} // verus!
