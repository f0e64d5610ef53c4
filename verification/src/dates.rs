//! Reading dates, times of day and time zones typed by the user.
use vstd::prelude::*;

use crate::calendar::{Date, LocalDateTime};
use crate::i18n::{Lang, Msg, msg, msg_spec};
use crate::model::Person;
use crate::text::{chars_to_string, push_str, str_chars, trim, trim_str};
use crate::zone::{tz_known, tz_parse};
use chrono::{Datelike, Timelike};

verus! {

/// A date, time or zone that could not be read; holds the trimmed input.
#[derive(Clone, Debug, PartialEq, Eq)]
pub enum DateError {
    BadDate(String),
    BadTime(String),
    BadTz(String),
}

impl DateError {
    pub open spec fn message_spec(&self, lang: Lang) -> Seq<char> {
        match self {
            DateError::BadDate(v) => msg_spec(lang, Msg::Quote) + v@ + msg_spec(lang, Msg::BadDateSuffix),
            DateError::BadTime(v) => msg_spec(lang, Msg::Quote) + v@ + msg_spec(lang, Msg::BadTimeSuffix),
            DateError::BadTz(v) => msg_spec(lang, Msg::Quote) + v@ + msg_spec(lang, Msg::BadTzSuffix),
        }
    }

    /// The localized message, e.g. `"x" is not a date. Use YYYY-MM-DD or DD.MM.YYYY.`
    pub fn message(&self, lang: Lang) -> (r: String)
        ensures
            r@ == self.message_spec(lang),
    {
        let (v, suffix) = match self {
            DateError::BadDate(v) => (v, Msg::BadDateSuffix),
            DateError::BadTime(v) => (v, Msg::BadTimeSuffix),
            DateError::BadTz(v) => (v, Msg::BadTzSuffix),
        };
        let mut out = str_chars(msg(lang, Msg::Quote));
        push_str(&mut out, v.as_str());
        push_str(&mut out, msg(lang, suffix));
        proof {
            assert(out@ =~= self.message_spec(lang));
        }
        chars_to_string(out.as_slice())
    }
}

/// What `chrono::NaiveDate::parse_from_str(s, fmt)` reads from `s`: year, month, day.
pub uninterp spec fn chrono_date(s: Seq<char>, fmt: Seq<char>) -> Option<(int, int, int)>;

/// What `chrono::NaiveTime::parse_from_str(s, fmt)` reads from `s`: seconds since midnight.
pub uninterp spec fn chrono_time(s: Seq<char>, fmt: Seq<char>) -> Option<int>;

/// `chrono::NaiveDate::parse_from_str`; a parsed date is a real date in chrono's range.
#[verifier::external_body]
pub(crate) fn parse_date_with(s: &str, fmt: &str) -> (r: Option<Date>)
    ensures
        (r is Some) == (chrono_date(s@, fmt@) is Some),
        r matches Some(d) ==> d.wf() && chrono_date(s@, fmt@) == Some(
            (d.year as int, d.month as int, d.day as int),
        ),
{
    chrono::NaiveDate::parse_from_str(s, fmt).ok().map(
        |d| Date { year: d.year(), month: d.month(), day: d.day() },
    )
}

/// `chrono::NaiveTime::parse_from_str`; a parsed time is less than a day after midnight.
#[verifier::external_body]
pub(crate) fn parse_time_with(s: &str, fmt: &str) -> (r: Option<u32>)
    ensures
        (r is Some) == (chrono_time(s@, fmt@) is Some),
        r matches Some(t) ==> t < 86400 && chrono_time(s@, fmt@) == Some(t as int),
{
    chrono::NaiveTime::parse_from_str(s, fmt).ok().map(|t| t.num_seconds_from_midnight())
}

pub open spec fn iso_format() -> Seq<char> {
    "%Y-%m-%d"@
}

pub open spec fn dotted_format() -> Seq<char> {
    "%d.%m.%Y"@
}

pub open spec fn time_format() -> Seq<char> {
    "%H:%M"@
}

/// Reading a date: the trimmed text as `YYYY-MM-DD`, else as `DD.MM.YYYY`.
pub open spec fn parse_date_spec(s: Seq<char>) -> Option<(int, int, int)> {
    let t = trim(s);
    match chrono_date(t, iso_format()) {
        Some(d) => Some(d),
        None => chrono_date(t, dotted_format()),
    }
}

/// Reads `YYYY-MM-DD` or `DD.MM.YYYY`, ignoring surrounding white space.
pub fn parse_date(s: &str) -> (r: Result<Date, DateError>)
    ensures
        r is Ok <==> parse_date_spec(s@) is Some,
        r matches Ok(d) ==> d.wf() && parse_date_spec(s@) == Some(
            (d.year as int, d.month as int, d.day as int),
        ),
        r matches Err(e) ==> e matches DateError::BadDate(v) && v@ == trim(s@),
{
    let t = trim_str(s);
    match parse_date_with(t.as_str(), "%Y-%m-%d") {
        Some(d) => Ok(d),
        None => match parse_date_with(t.as_str(), "%d.%m.%Y") {
            Some(d) => Ok(d),
            None => Err(DateError::BadDate(t)),
        },
    }
}

/// Reads a time of day as `HH:MM`, ignoring surrounding white space; seconds since midnight.
pub fn parse_time(s: &str) -> (r: Result<u32, DateError>)
    ensures
        r is Ok <==> chrono_time(trim(s@), time_format()) is Some,
        r matches Ok(t) ==> t < 86400 && chrono_time(trim(s@), time_format()) == Some(t as int),
        r matches Err(e) ==> e matches DateError::BadTime(v) && v@ == trim(s@),
{
    let t = trim_str(s);
    match parse_time_with(t.as_str(), "%H:%M") {
        Some(x) => Ok(x),
        None => Err(DateError::BadTime(t)),
    }
}

/// Reads an IANA zone name, ignoring surrounding white space.
pub fn parse_tz(s: &str) -> (r: Result<String, DateError>)
    ensures
        r is Ok <==> tz_known(trim(s@)),
        r matches Ok(n) ==> n@ == trim(s@),
        r matches Err(e) ==> e matches DateError::BadTz(v) && v@ == trim(s@),
{
    let t = trim_str(s);
    match tz_parse(t.as_str()) {
        Some(n) => Ok(n),
        None => Err(DateError::BadTz(t)),
    }
}

/// Builds a person from typed fields: the date is required, the time and zone are
/// optional; an empty surname means none. Errors come in field order: date, time, zone.
pub fn build_person(
    alias: &str,
    name: &str,
    surname: Option<&str>,
    birth: &str,
    time: Option<&str>,
    tz: Option<&str>,
) -> (r: Result<Person, DateError>)
    ensures
        r is Ok <==> {
            &&& parse_date_spec(birth@) is Some
            &&& (time matches Some(t) ==> chrono_time(trim(t@), time_format()) is Some)
            &&& (tz matches Some(z) ==> tz_known(trim(z@)))
        },
        r matches Err(e) ==> {
            if !(parse_date_spec(birth@) is Some) {
                e matches DateError::BadDate(v) && v@ == trim(birth@)
            } else if time matches Some(t) && chrono_time(trim(t@), time_format()) is None {
                time matches Some(t) && e matches DateError::BadTime(v) && v@ == trim(t@)
            } else {
                tz matches Some(z) && e matches DateError::BadTz(v) && v@ == trim(z@)
            }
        },
        r matches Ok(p) ==> {
            &&& p.alias@ == alias@
            &&& p.first_name@ == name@
            &&& (p.last_name is Some <==> (surname matches Some(s) && s@.len() > 0))
            &&& (p.last_name matches Some(l) ==> surname matches Some(s) && l@ == s@)
            &&& p.wf()
            &&& Some((p.birth.date.year as int, p.birth.date.month as int, p.birth.date.day as int))
                == parse_date_spec(birth@)
            &&& p.has_time == time is Some
            &&& (time matches Some(t) ==> chrono_time(trim(t@), time_format()) == Some(p.birth.secs as int))
            &&& (time is None ==> p.birth.secs == 0)
            &&& (p.tz is Some <==> tz is Some)
            &&& (p.tz matches Some(n) ==> tz matches Some(z) && n@ == trim(z@) && tz_known(n@))
            &&& !p.avatar
            &&& !p.pixel
        },
{
    let date = match parse_date(birth) {
        Ok(d) => d,
        Err(e) => return Err(e),
    };
    let secs: Option<u32> = match time {
        Some(t) => match parse_time(t) {
            Ok(x) => Some(x),
            Err(e) => return Err(e),
        },
        None => None,
    };
    let zone: Option<String> = match tz {
        Some(z) => match parse_tz(z) {
            Ok(n) => Some(n),
            Err(e) => return Err(e),
        },
        None => None,
    };
    let last_name: Option<String> = match surname {
        Some(s) => {
            if str_chars(s).len() > 0 {
                Some(s.to_string())
            } else {
                None
            }
        },
        None => None,
    };
    Ok(
        Person {
            alias: alias.to_string(),
            first_name: name.to_string(),
            last_name,
            birth: LocalDateTime {
                date,
                secs: match secs {
                    Some(x) => x,
                    None => 0,
                },
            },
            has_time: secs.is_some(),
            tz: zone,
            avatar: false,
            pixel: false,
        },
    )
}

} // verus!
