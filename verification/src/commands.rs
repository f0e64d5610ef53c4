//! The command-line commands' decisions: what `list` prints, how `add` and `edit`
//! check their input and change the store, and when `remove` may go ahead. Reading
//! and writing files and the terminal is the caller's part.
use vstd::prelude::*;

use crate::avatar::AvatarError;
use crate::calendar::Date;
use crate::dates::{DateError, build_person, chrono_time, parse_date, parse_date_spec, parse_time, parse_tz, time_format};
use crate::i18n::{Lang, Msg, msg, msg_spec};
use crate::model::{AgeView, Person, alias_ok};
use crate::output::{row_shows, rows};
use crate::store::{Store, StoreError, has_alias, index_of, validate_alias};
use crate::table::{render_table_checked, render_table_spec, table_fits};
use crate::text::{chars_to_string, push_str, str_chars, str_eq, str_lower, str_to_lower, trim, trim_str};
use crate::zone::{instant_in_range, tz_known};

verus! {

/// Why a command failed.
#[derive(Clone, Debug, PartialEq, Eq)]
pub enum CommandError {
    Store(StoreError),
    Date(DateError),
    Avatar(AvatarError),
    /// `remove` without `--yes` when no terminal can answer the question.
    NeedsTty,
}

impl CommandError {
    pub open spec fn message_spec(&self, lang: Lang) -> Seq<char> {
        match self {
            CommandError::Store(e) => e.message_spec(lang),
            CommandError::Date(e) => e.message_spec(lang),
            CommandError::Avatar(e) => e.message_spec(lang),
            CommandError::NeedsTty => msg_spec(lang, Msg::ConfirmNeedsTty),
        }
    }

    /// The localized message.
    pub fn message(&self, lang: Lang) -> (r: String)
        ensures
            r@ == self.message_spec(lang),
    {
        match self {
            CommandError::Store(e) => e.message(lang),
            CommandError::Date(e) => e.message(lang),
            CommandError::Avatar(e) => e.message(lang),
            CommandError::NeedsTty => msg(lang, Msg::ConfirmNeedsTty).to_string(),
        }
    }
}

/// The text listing: the empty-store hint on its own line, or the people table.
/// `None` only when a cell is too wide to measure (`table_fits` fails).
pub fn list_text(lang: Lang, people: &Vec<Person>, now: i64, view: AgeView) -> (r: Option<String>)
    requires
        forall|i: int| 0 <= i < people.len() ==> (#[trigger] people[i]).wf(),
        instant_in_range(now as int),
    ensures
        people.len() == 0 ==> (r matches Some(t) && t@ == msg_spec(lang, Msg::EmptyStore) + seq!['\n']),
        people.len() > 0 ==> match r {
            Some(t) => exists|rs: Seq<crate::output::Row>|
                #![trigger render_table_spec(lang, rs)]
                rs.len() == people.len() && t@ == render_table_spec(lang, rs) && forall|i: int|
                    0 <= i < rs.len() ==> row_shows(lang, view, people[i], now as int, #[trigger] rs[i]),
            None => exists|rs: Seq<crate::output::Row>|
                #![trigger table_fits(lang, rs)]
                rs.len() == people.len() && !table_fits(lang, rs),
        },
{
    if people.len() == 0 {
        let mut out = str_chars(msg(lang, Msg::EmptyStore));
        out.push('\n');
        return Some(chars_to_string(out.as_slice()));
    }
    let table = rows(lang, people, now, view);
    let r = render_table_checked(lang, &table);
    proof {
        assert(table@.len() == people.len());
        if r is Some {
            assert(render_table_spec(lang, table@) == render_table_spec(lang, table@));
        } else {
            assert(!table_fits(lang, table@));
        }
    }
    r
}

/// Whether an answer to a yes/no question means yes: `y`, `yes`, `e` or `evet`, in any
/// case, with surrounding white space ignored.
pub open spec fn is_yes(line: Seq<char>) -> bool {
    let t = str_lower(trim(line));
    t == "y"@ || t == "yes"@ || t == "e"@ || t == "evet"@
}

/// Reads an answer to a yes/no question.
pub fn confirm_answer(line: &str) -> (r: bool)
    ensures
        r == is_yes(line@),
{
    let t = str_to_lower(trim_str(line).as_str());
    proof {
        reveal_strlit("y");
        reveal_strlit("yes");
        reveal_strlit("e");
        reveal_strlit("evet");
    }
    str_eq(t.as_str(), "y") || str_eq(t.as_str(), "yes") || str_eq(t.as_str(), "e") || str_eq(
        t.as_str(),
        "evet",
    )
}

/// What `remove` does before deleting.
#[derive(Clone, Copy, Debug, PartialEq, Eq, Structural)]
pub enum RemoveStep {
    /// Delete right away.
    Proceed,
    /// Ask on the terminal first.
    Ask,
    /// Refuse: nobody can be asked.
    Refuse,
}

/// `--yes` deletes at once; otherwise ask when standard input is a terminal, else refuse.
pub fn remove_step(yes: bool, stdin_is_tty: bool) -> (r: RemoveStep)
    ensures
        yes ==> r == RemoveStep::Proceed,
        !yes && stdin_is_tty ==> r == RemoveStep::Ask,
        !yes && !stdin_is_tty ==> r == RemoveStep::Refuse,
{
    if yes {
        RemoveStep::Proceed
    } else if stdin_is_tty {
        RemoveStep::Ask
    } else {
        RemoveStep::Refuse
    }
}

/// `prefix` followed by `alias`, e.g. "Added anne".
pub fn done_message(lang: Lang, prefix: Msg, alias: &str) -> (r: String)
    ensures
        r@ == msg_spec(lang, prefix) + alias@,
{
    let mut out = str_chars(msg(lang, prefix));
    push_str(&mut out, alias);
    chars_to_string(out.as_slice())
}

/// The question `remove` asks, e.g. "Remove anne? [y/N]".
pub fn remove_question(lang: Lang, alias: &str) -> (r: String)
    ensures
        r@ == msg_spec(lang, Msg::ConfirmRemovePrefix) + alias@ + msg_spec(lang, Msg::ConfirmRemoveSuffix),
{
    let mut out = str_chars(msg(lang, Msg::ConfirmRemovePrefix));
    push_str(&mut out, alias);
    push_str(&mut out, msg(lang, Msg::ConfirmRemoveSuffix));
    chars_to_string(out.as_slice())
}

/// `p` is the person `build_person` makes from these fields: alias and first name as
/// given, the surname when one is given and not empty, the birth date as read from
/// `birth`, the time of day read from `time` (midnight without one), the trimmed zone,
/// and no avatar.
pub open spec fn built_from(
    p: Person,
    alias: Seq<char>,
    name: Seq<char>,
    surname: Option<&str>,
    birth: Seq<char>,
    time: Option<&str>,
    tz: Option<&str>,
) -> bool {
    &&& p.alias@ == alias
    &&& p.first_name@ == name
    &&& (p.last_name is Some <==> (surname matches Some(s) && s@.len() > 0))
    &&& (p.last_name matches Some(l) ==> surname matches Some(s) && l@ == s@)
    &&& p.wf()
    &&& Some((p.birth.date.year as int, p.birth.date.month as int, p.birth.date.day as int)) == parse_date_spec(birth)
    &&& p.has_time == time is Some
    &&& (time matches Some(t) ==> chrono_time(trim(t@), time_format()) == Some(p.birth.secs as int))
    &&& (time is None ==> p.birth.secs == 0)
    &&& (p.tz is Some <==> tz is Some)
    &&& (p.tz matches Some(n) ==> tz matches Some(z) && n@ == trim(z@) && tz_known(n@))
    &&& !p.avatar
    &&& !p.pixel
}

/// `add`: builds the person from the typed fields (the alias trimmed) and adds it.
/// Returns the trimmed alias. Nothing is added on error.
pub fn add_person(
    store: &mut Store,
    alias: &str,
    name: &str,
    surname: Option<&str>,
    birth: &str,
    time: Option<&str>,
    tz: Option<&str>,
) -> (r: Result<String, CommandError>)
    ensures
        r is Ok <==> {
            &&& parse_date_spec(birth@) is Some
            &&& (time matches Some(t) ==> chrono_time(trim(t@), time_format()) is Some)
            &&& (tz matches Some(z) ==> tz_known(trim(z@)))
            &&& alias_ok(trim(alias@))
            &&& !has_alias(old(store).data.people@, trim(alias@))
        },
        r matches Ok(a) ==> {
            &&& a@ == trim(alias@)
            &&& final(store).data.people@.len() == old(store).data.people@.len() + 1
            &&& final(store).data.people@.drop_last() == old(store).data.people@
            &&& built_from(final(store).data.people@.last(), a@, name@, surname, birth@, time, tz)
        },
        r matches Err(e) ==> (e is Date || e is Store) && *final(store) == *old(store),
{
    let a = trim_str(alias);
    let p = match build_person(a.as_str(), name, surname, birth, time, tz) {
        Ok(p) => p,
        Err(e) => return Err(CommandError::Date(e)),
    };
    let ghost before = store.data.people@;
    match store.add(p) {
        Ok(()) => {
            proof {
                assert(store.data.people@.drop_last() =~= before);
            }
            Ok(a)
        },
        Err(e) => Err(CommandError::Store(e)),
    }
}

/// Records that the person with `alias` now has a stored avatar, pixel art or not.
/// `false` when there is no such person.
pub fn set_avatar(store: &mut Store, alias: &str, pixel: bool) -> (r: bool)
    ensures
        r == has_alias(old(store).data.people@, alias@),
        r ==> {
            let i = index_of(old(store).data.people@, alias@);
            final(store).data.people@ == old(store).data.people@.update(
                i,
                Person { avatar: true, pixel, ..old(store).data.people@[i] },
            )
        },
        !r ==> *final(store) == *old(store),
        final(store).dir == old(store).dir,
        final(store).data.settings == old(store).data.settings,
{
    proof {
        crate::store::lemma_index_of(store.data.people@, alias@);
    }
    match store.position(alias) {
        Some(i) => {
            let ghost before = store.data.people@;
            let mut p = store.data.people.remove(i);
            p.avatar = true;
            p.pixel = pixel;
            store.data.people.insert(i, p);
            proof {
                assert(store.data.people@ =~= before.update(
                    i as int,
                    Person { avatar: true, pixel, ..before[i as int] },
                ));
            }
            true
        },
        None => false,
    }
}

/// The `edit` command's arguments.
#[derive(Clone, Debug)]
pub struct EditRequest {
    pub alias: String,
    pub name: Option<String>,
    pub surname: Option<String>,
    pub birth: Option<String>,
    pub time: Option<String>,
    /// A zone name; the empty text clears the zone.
    pub tz: Option<String>,
    /// Path of a new avatar image.
    pub avatar: Option<String>,
    pub no_avatar: bool,
    /// Pixel-art grid for the new avatar.
    pub pixel: Option<u32>,
    pub rename: Option<String>,
}

/// An edit whose input was checked: what to change.
#[derive(Clone, Debug)]
pub struct EditPlan {
    /// The (trimmed) new alias, if the person is renamed.
    pub rename: Option<String>,
    pub date: Option<Date>,
    /// New time of day, seconds since midnight.
    pub time: Option<u32>,
    /// New zone: `Some(None)` clears it.
    pub tz: Option<Option<String>>,
}

/// A plan whose date, time and zone make a usable person.
pub open spec fn plan_ok(plan: EditPlan) -> bool {
    &&& (plan.date matches Some(d) ==> d.wf())
    &&& (plan.time matches Some(t) ==> t < 86400)
    &&& (plan.tz matches Some(Some(n)) ==> tz_known(n@))
}

/// The alias the person has once `plan` is applied.
pub open spec fn plan_alias(req: EditRequest, plan: EditPlan) -> Seq<char> {
    match plan.rename {
        Some(r) => r@,
        None => req.alias@,
    }
}

/// Whether the date argument is readable.
pub open spec fn date_ok(s: Seq<char>) -> bool {
    parse_date_spec(s) is Some
}

/// Checks every argument of `edit` before anything changes, in this order: the person
/// exists, the date, the time, the zone (an empty zone clears it), the new alias (valid,
/// not taken by someone else), the new avatar image. `probe` is the result of probing
/// the avatar path (only looked at when a path is given).
pub fn check_edit(store: &Store, req: &EditRequest, probe: Result<(), AvatarError>) -> (r: Result<EditPlan, CommandError>)
    ensures
        ({
            let people = store.data.people@;
            let known = has_alias(people, req.alias@);
            let date = req.birth matches Some(b) ==> date_ok(b@);
            let time = req.time matches Some(t) ==> chrono_time(trim(t@), time_format()) is Some;
            let zone = req.tz matches Some(z) ==> (z@.len() == 0 || tz_known(trim(z@)));
            let new_alias = req.rename matches Some(n) ==> alias_ok(trim(n@)) && (trim(n@) == req.alias@
                || !has_alias(people, trim(n@)));
            let image = req.avatar is Some ==> probe is Ok;
            &&& r is Ok <==> known && date && time && zone && new_alias && image
            &&& !known ==> (r matches Err(e) && e == CommandError::Store(StoreError::Unknown(req.alias)))
            &&& known && !date ==> (r matches Err(CommandError::Date(DateError::BadDate(_))))
            &&& known && date && !time ==> (r matches Err(CommandError::Date(DateError::BadTime(_))))
            &&& known && date && time && !zone ==> (r matches Err(CommandError::Date(DateError::BadTz(_))))
            &&& known && date && time && zone && !new_alias ==> (r matches Err(CommandError::Store(e)) && (e is BadAlias
                || e is Duplicate))
            &&& known && date && time && zone && new_alias && !image ==> (r matches Err(CommandError::Avatar(e))
                && probe == Err::<(), AvatarError>(e))
            &&& r matches Ok(plan) ==> {
                &&& plan_ok(plan)
                &&& (plan.rename is Some <==> req.rename is Some)
                &&& (plan.rename matches Some(n) ==> req.rename matches Some(m) && n@ == trim(m@))
                &&& (plan.date is Some <==> req.birth is Some)
                &&& (plan.date matches Some(d) ==> d.wf() && (req.birth matches Some(b)
                    && parse_date_spec(b@) == Some((d.year as int, d.month as int, d.day as int))))
                &&& (plan.time is Some <==> req.time is Some)
                &&& (plan.time matches Some(t) ==> t < 86400 && (req.time matches Some(s) && chrono_time(
                    trim(s@),
                    time_format(),
                ) == Some(t as int)))
                &&& (plan.tz is Some <==> req.tz is Some)
                &&& (plan.tz matches Some(z) ==> req.tz matches Some(s) && match z {
                    Some(n) => n@ == trim(s@) && s@.len() > 0 && tz_known(n@),
                    None => s@.len() == 0,
                })
            }
        }),
{
    if store.find(req.alias.as_str()).is_none() {
        return Err(CommandError::Store(StoreError::Unknown(req.alias.clone())));
    }
    let date = match &req.birth {
        Some(b) => match parse_date(b.as_str()) {
            Ok(d) => Some(d),
            Err(e) => return Err(CommandError::Date(e)),
        },
        None => None,
    };
    let time = match &req.time {
        Some(t) => match parse_time(t.as_str()) {
            Ok(x) => Some(x),
            Err(e) => return Err(CommandError::Date(e)),
        },
        None => None,
    };
    let tz: Option<Option<String>> = match &req.tz {
        Some(z) => {
            if str_chars(z.as_str()).len() == 0 {
                Some(None)
            } else {
                match parse_tz(z.as_str()) {
                    Ok(n) => Some(Some(n)),
                    Err(e) => return Err(CommandError::Date(e)),
                }
            }
        },
        None => None,
    };
    let rename = match &req.rename {
        Some(n) => {
            let t = trim_str(n.as_str());
            match validate_alias(t.as_str()) {
                Ok(()) => {},
                Err(e) => return Err(CommandError::Store(e)),
            }
            if !str_eq(t.as_str(), req.alias.as_str()) && store.find(t.as_str()).is_some() {
                return Err(CommandError::Store(StoreError::Duplicate(t)));
            }
            Some(t)
        },
        None => None,
    };
    if req.avatar.is_some() {
        match probe {
            Ok(()) => {},
            Err(e) => return Err(CommandError::Avatar(e)),
        }
    }
    Ok(EditPlan { rename, date, time, tz })
}

/// The person after an edit: the given fields replaced, the date and time of day
/// changed separately (a new time marks the time as known), the zone set or cleared;
/// `--no-avatar` drops the avatar, a new image sets it (pixel art with a grid).
pub open spec fn edited(p: Person, req: EditRequest, plan: EditPlan) -> Person {
    let first_name = match req.name {
        Some(n) => n,
        None => p.first_name,
    };
    let last_name = match req.surname {
        Some(s) => if s@.len() == 0 { None } else { Some(s) },
        None => p.last_name,
    };
    let date = match plan.date {
        Some(d) => d,
        None => p.birth.date,
    };
    let secs = match plan.time {
        Some(t) => t,
        None => p.birth.secs,
    };
    let has_time = plan.time is Some || p.has_time;
    let tz = match plan.tz {
        Some(z) => z,
        None => p.tz,
    };
    let (avatar, pixel) = if req.avatar is Some {
        (true, req.pixel is Some)
    } else if req.no_avatar {
        (false, false)
    } else {
        (p.avatar, p.pixel)
    };
    Person {
        alias: p.alias,
        first_name,
        last_name,
        birth: crate::calendar::LocalDateTime { date, secs },
        has_time,
        tz,
        avatar,
        pixel,
    }
}

/// Applies a checked edit to the person now called `current` (the caller has renamed
/// them and stored a new avatar image first). `Unknown` when nobody has that alias.
pub fn apply_edit(store: &mut Store, current: &str, req: &EditRequest, plan: &EditPlan) -> (r: Result<(), CommandError>)
    ensures
        r is Ok <==> has_alias(old(store).data.people@, current@),
        r matches Err(e) ==> (e matches CommandError::Store(StoreError::Unknown(a)) && a@ == current@),
        r is Ok ==> {
            let i = index_of(old(store).data.people@, current@);
            let p = old(store).data.people@[i];
            let q = final(store).data.people@[i];
            &&& final(store).data.people@.len() == old(store).data.people@.len()
            &&& forall|k: int|
                0 <= k < old(store).data.people@.len() && k != i ==> #[trigger] final(store).data.people@[k]
                    == old(store).data.people@[k]
            &&& q.alias@ == p.alias@
            &&& q.first_name@ == edited(p, *req, *plan).first_name@
            &&& (q.last_name is Some <==> edited(p, *req, *plan).last_name is Some)
            &&& (q.last_name matches Some(l) ==> edited(p, *req, *plan).last_name matches Some(m) && l@ == m@)
            &&& q.birth == edited(p, *req, *plan).birth
            &&& q.has_time == edited(p, *req, *plan).has_time
            &&& (q.tz is Some <==> edited(p, *req, *plan).tz is Some)
            &&& (q.tz matches Some(z) ==> edited(p, *req, *plan).tz matches Some(n) && z@ == n@)
            &&& q.avatar == edited(p, *req, *plan).avatar
            &&& q.pixel == edited(p, *req, *plan).pixel
            &&& p.wf() && plan_ok(*plan) ==> q.wf()
        },
        r is Err ==> *final(store) == *old(store),
        final(store).dir == old(store).dir,
        final(store).data.settings == old(store).data.settings,
{
    proof {
        crate::store::lemma_index_of(store.data.people@, current@);
    }
    let i = match store.position(current) {
        Some(i) => i,
        None => return Err(CommandError::Store(StoreError::Unknown(current.to_string()))),
    };
    let ghost before = store.data.people@;
    let mut p = store.data.people.remove(i);
    match &req.name {
        Some(n) => {
            p.first_name = n.clone();
        },
        None => {},
    }
    match &req.surname {
        Some(s) => {
            p.last_name = if str_chars(s.as_str()).len() == 0 {
                None
            } else {
                Some(s.clone())
            };
        },
        None => {},
    }
    match plan.date {
        Some(d) => {
            p.birth.date = d;
        },
        None => {},
    }
    match plan.time {
        Some(t) => {
            p.birth.secs = t;
            p.has_time = true;
        },
        None => {},
    }
    match &plan.tz {
        Some(z) => {
            p.tz = match z {
                Some(n) => Some(n.clone()),
                None => None,
            };
        },
        None => {},
    }
    if req.no_avatar {
        p.avatar = false;
        p.pixel = false;
    }
    if req.avatar.is_some() {
        p.avatar = true;
        p.pixel = req.pixel.is_some();
    }
    store.data.people.insert(i, p);
    proof {
        assert forall|k: int| 0 <= k < before.len() && k != i implies #[trigger] store.data.people@[k] == before[k] by {
            if k < i {
                assert(store.data.people@[k] == before[k]);
            } else {
                assert(store.data.people@[k] == before[k]);
            }
        }
    }
    Ok(())
}

} // verus!
