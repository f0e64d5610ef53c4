//! The people store in memory: lookup, adding, removing and renaming by alias.
use vstd::prelude::*;

use crate::i18n::{Lang, Msg, msg, msg_spec};
use crate::model::{Person, StoreFile, alias_is_valid, alias_ok};
use crate::text::{chars_to_string, push_str, str_chars, str_eq};

verus! {

/// Why a store operation failed.
#[derive(Clone, Debug, PartialEq, Eq)]
pub enum StoreError {
    BadAlias(String),
    Duplicate(String),
    Unknown(String),
    Parse { path: String, reason: String },
    Write { path: String, reason: String },
}

impl StoreError {
    pub open spec fn message_spec(&self, lang: Lang) -> Seq<char> {
        let q = msg_spec(lang, Msg::Quote);
        match self {
            StoreError::BadAlias(a) => q + a@ + msg_spec(lang, Msg::BadAliasSuffix),
            StoreError::Duplicate(a) => q + a@ + msg_spec(lang, Msg::DuplicateSuffix),
            StoreError::Unknown(a) => q + a@ + msg_spec(lang, Msg::UnknownSuffix),
            StoreError::Parse { path, reason } => msg_spec(lang, Msg::StoreParsePrefix) + path@
                + msg_spec(lang, Msg::ReasonSeparator) + reason@,
            StoreError::Write { path, reason } => msg_spec(lang, Msg::StoreWritePrefix) + path@
                + msg_spec(lang, Msg::ReasonSeparator) + reason@,
        }
    }

    /// The localized message.
    pub fn message(&self, lang: Lang) -> (r: String)
        ensures
            r@ == self.message_spec(lang),
    {
        let mut out: Vec<char> = Vec::new();
        match self {
            StoreError::BadAlias(a) => {
                push_str(&mut out, msg(lang, Msg::Quote));
                push_str(&mut out, a.as_str());
                push_str(&mut out, msg(lang, Msg::BadAliasSuffix));
            },
            StoreError::Duplicate(a) => {
                push_str(&mut out, msg(lang, Msg::Quote));
                push_str(&mut out, a.as_str());
                push_str(&mut out, msg(lang, Msg::DuplicateSuffix));
            },
            StoreError::Unknown(a) => {
                push_str(&mut out, msg(lang, Msg::Quote));
                push_str(&mut out, a.as_str());
                push_str(&mut out, msg(lang, Msg::UnknownSuffix));
            },
            StoreError::Parse { path, reason } => {
                push_str(&mut out, msg(lang, Msg::StoreParsePrefix));
                push_str(&mut out, path.as_str());
                push_str(&mut out, msg(lang, Msg::ReasonSeparator));
                push_str(&mut out, reason.as_str());
            },
            StoreError::Write { path, reason } => {
                push_str(&mut out, msg(lang, Msg::StoreWritePrefix));
                push_str(&mut out, path.as_str());
                push_str(&mut out, msg(lang, Msg::ReasonSeparator));
                push_str(&mut out, reason.as_str());
            },
        }
        proof {
            assert(out@ =~= self.message_spec(lang));
        }
        chars_to_string(out.as_slice())
    }
}

/// Checks an alias: `Ok` exactly when it is a valid alias, else `BadAlias`.
pub fn validate_alias(alias: &str) -> (r: Result<(), StoreError>)
    ensures
        r is Ok <==> alias_ok(alias@),
        r matches Err(e) ==> e matches StoreError::BadAlias(a) && a@ == alias@,
        r is Ok ==> alias@.len() > 0 && forall|i: int|
            0 <= i < alias@.len() ==> {
                let c = #[trigger] alias@[i];
                ||| c == '-' || c == '_' || c == ' '
                ||| 'a' <= c <= 'z' || 'A' <= c <= 'Z' || '0' <= c <= '9'
                ||| c >= '\u{80}'
            },
        (alias@.len() > 0 && forall|i: int|
            0 <= i < alias@.len() ==> {
                let c = #[trigger] alias@[i];
                ||| c == '-' || c == '_' || c == ' '
                ||| 'a' <= c <= 'z' || 'A' <= c <= 'Z' || '0' <= c <= '9'
            }) ==> r is Ok,
{
    if alias_is_valid(alias) {
        Ok(())
    } else {
        Err(StoreError::BadAlias(alias.to_string()))
    }
}

/// Where the avatar of `alias` is kept in the store directory `dir`.
pub open spec fn avatar_path_spec(dir: Seq<char>, alias: Seq<char>) -> Seq<char> {
    join_spec(join_spec(dir, "avatars"@), alias + ".png"@)
}

/// The file that holds people and settings.
pub open spec fn people_file() -> Seq<char> {
    "people.toml"@
}

/// `base` joined with the relative component `part` (as `Path::join` on Unix).
pub open spec fn join_spec(base: Seq<char>, part: Seq<char>) -> Seq<char> {
    if base.len() == 0 {
        part
    } else if base.last() == '/' {
        base + part
    } else {
        base + seq!['/'] + part
    }
}

fn join_path(base: &str, part: &Vec<char>) -> (r: Vec<char>)
    ensures
        r@ == join_spec(base@, part@),
{
    let mut out = str_chars(base);
    if out.len() > 0 && out[out.len() - 1] != '/' {
        out.push('/');
    }
    crate::text::push_all(&mut out, part);
    proof {
        assert(out@ =~= join_spec(base@, part@));
    }
    out
}

/// Index of the first person with alias `a`, or -1.
pub open spec fn index_of(people: Seq<Person>, a: Seq<char>) -> int
    decreases people.len(),
{
    if people.len() == 0 {
        -1
    } else {
        let rest = index_of(people.drop_last(), a);
        if rest >= 0 {
            rest
        } else if people.last().alias@ == a {
            people.len() - 1
        } else {
            -1
        }
    }
}

/// No two people share an alias.
pub open spec fn aliases_unique(people: Seq<Person>) -> bool {
    forall|i: int, j: int|
        0 <= i < people.len() && 0 <= j < people.len() && i != j ==> (#[trigger] people[i]).alias@
            != (#[trigger] people[j]).alias@
}

pub open spec fn has_alias(people: Seq<Person>, a: Seq<char>) -> bool {
    exists|i: int| 0 <= i < people.len() && (#[trigger] people[i]).alias@ == a
}

pub proof fn lemma_index_of(people: Seq<Person>, a: Seq<char>)
    ensures
        -1 <= index_of(people, a) < people.len(),
        index_of(people, a) >= 0 ==> people[index_of(people, a)].alias@ == a,
        index_of(people, a) >= 0 ==> forall|k: int|
            0 <= k < index_of(people, a) ==> (#[trigger] people[k]).alias@ != a,
        index_of(people, a) == -1 <==> !has_alias(people, a),
    decreases people.len(),
{
    if people.len() > 0 {
        let init = people.drop_last();
        lemma_index_of(init, a);
        if index_of(init, a) >= 0 {
            assert(people[index_of(init, a)] == init[index_of(init, a)]);
            assert forall|k: int| 0 <= k < index_of(people, a) implies (#[trigger] people[k]).alias@ != a by {
                assert(people[k] == init[k]);
            }
        } else {
            assert forall|k: int| 0 <= k < people.len() - 1 implies (#[trigger] people[k]).alias@ != a by {
                assert(people[k] == init[k]);
                if people[k].alias@ == a {
                    assert(has_alias(init, a));
                }
            }
            if has_alias(people, a) {
                let w = choose|i: int| 0 <= i < people.len() && (#[trigger] people[i]).alias@ == a;
                if w < people.len() - 1 {
                    assert(init[w] == people[w]);
                }
            }
        }
    }
}

/// People and settings, with the directory they are kept in.
pub struct Store {
    pub dir: String,
    pub data: StoreFile,
}

impl Store {
    /// An empty store in `dir`.
    pub fn new(dir: String) -> (r: Store)
        ensures
            r.dir@ == dir@,
            r.data.people@.len() == 0,
    {
        Store { dir, data: StoreFile::empty() }
    }

    /// A store in `dir` holding `data`.
    pub fn with_data(dir: String, data: StoreFile) -> (r: Store)
        ensures
            r.dir@ == dir@,
            r.data == data,
    {
        Store { dir, data }
    }

    /// `dir/people.toml`.
    pub fn people_path(&self) -> (r: String)
        ensures
            r@ == join_spec(self.dir@, people_file()),
    {
        let f = str_chars("people.toml");
        chars_to_string(join_path(self.dir.as_str(), &f).as_slice())
    }

    /// `dir/avatars/<alias>.png`.
    pub fn avatar_path(&self, alias: &str) -> (r: String)
        ensures
            r@ == avatar_path_spec(self.dir@, alias@),
    {
        let d = str_chars("avatars");
        let avatars = chars_to_string(join_path(self.dir.as_str(), &d).as_slice());
        let mut file = str_chars(alias);
        push_str(&mut file, ".png");
        chars_to_string(join_path(avatars.as_str(), &file).as_slice())
    }

    /// Index of the person with `alias`, if any (the first one).
    pub fn position(&self, alias: &str) -> (r: Option<usize>)
        ensures
            r matches Some(i) ==> i as int == index_of(self.data.people@, alias@),
            r is None <==> index_of(self.data.people@, alias@) == -1,
    {
        let people = &self.data.people;
        let mut i: usize = 0;
        proof {
            lemma_index_of(people@, alias@);
        }
        while i < people.len()
            invariant
                i <= people.len(),
                people@ == self.data.people@,
                forall|k: int| 0 <= k < i ==> (#[trigger] people@[k]).alias@ != alias@,
            decreases people.len() - i,
        {
            if str_eq(people[i].alias.as_str(), alias) {
                proof {
                    lemma_index_of(people@, alias@);
                    assert(people@[i as int].alias@ == alias@);
                    assert(has_alias(people@, alias@));
                    let j = index_of(people@, alias@);
                    if j < i {
                        assert(people@[j].alias@ != alias@);
                    } else if j > i {
                        assert(people@[i as int].alias@ != alias@);
                    }
                }
                return Some(i);
            }
            i = i + 1;
        }
        proof {
            lemma_index_of(people@, alias@);
            if has_alias(people@, alias@) {
                let w = choose|k: int| 0 <= k < people@.len() && (#[trigger] people@[k]).alias@ == alias@;
                assert(people@[w].alias@ == alias@);
            }
        }
        None
    }

    /// The person with `alias`, if any.
    pub fn find(&self, alias: &str) -> (r: Option<&Person>)
        ensures
            r is None <==> !has_alias(self.data.people@, alias@),
            r matches Some(p) ==> *p == self.data.people@[index_of(self.data.people@, alias@)]
                && p.alias@ == alias@,
    {
        proof {
            lemma_index_of(self.data.people@, alias@);
        }
        match self.position(alias) {
            Some(i) => Some(&self.data.people[i]),
            None => None,
        }
    }

    /// The person with `alias`, for changing in place; what is written through the
    /// reference lands in the store at that person's place.
    pub fn find_mut(&mut self, alias: &str) -> (r: Option<&mut Person>)
        ensures
            r is Some <==> has_alias(old(self).data.people@, alias@),
            r matches Some(p) ==> *p == old(self).data.people@[index_of(old(self).data.people@, alias@)],
            r matches Some(p) ==> final(self).data.people@ == old(self).data.people@.update(
                index_of(old(self).data.people@, alias@),
                *final(p),
            ),
            r is None ==> *final(self) == *old(self),
            final(self).dir == old(self).dir,
            final(self).data.settings == old(self).data.settings,
    {
        proof {
            lemma_index_of(self.data.people@, alias@);
        }
        match self.position(alias) {
            Some(i) => Some(&mut self.data.people[i]),
            None => None,
        }
    }

    /// Adds `p`; its alias must be valid and not taken.
    pub fn add(&mut self, p: Person) -> (r: Result<(), StoreError>)
        ensures
            r is Ok <==> alias_ok(p.alias@) && !has_alias(old(self).data.people@, p.alias@),
            r matches Err(e) ==> if !alias_ok(p.alias@) {
                e matches StoreError::BadAlias(a) && a@ == p.alias@
            } else {
                e matches StoreError::Duplicate(a) && a@ == p.alias@
            },
            r is Ok ==> final(self).data.people@ == old(self).data.people@.push(p),
            r is Err ==> *final(self) == *old(self),
            final(self).dir == old(self).dir,
            final(self).data.settings == old(self).data.settings,
    {
        match validate_alias(p.alias.as_str()) {
            Ok(()) => {},
            Err(e) => return Err(e),
        }
        if self.position(p.alias.as_str()).is_some() {
            proof {
                lemma_index_of(self.data.people@, p.alias@);
            }
            return Err(StoreError::Duplicate(p.alias));
        }
        proof {
            lemma_index_of(self.data.people@, p.alias@);
        }
        self.data.people.push(p);
        Ok(())
    }

    /// Removes the person with `alias` and gives them back. Deleting their avatar file
    /// (when `avatar` is set) is up to the caller.
    pub fn remove(&mut self, alias: &str) -> (r: Result<Person, StoreError>)
        ensures
            r is Ok <==> has_alias(old(self).data.people@, alias@),
            r matches Err(e) ==> e matches StoreError::Unknown(a) && a@ == alias@,
            r matches Ok(p) ==> {
                let i = index_of(old(self).data.people@, alias@);
                &&& p == old(self).data.people@[i]
                &&& final(self).data.people@ == old(self).data.people@.remove(i)
            },
            r is Err ==> *final(self) == *old(self),
            final(self).dir == old(self).dir,
            final(self).data.settings == old(self).data.settings,
    {
        proof {
            lemma_index_of(self.data.people@, alias@);
        }
        match self.position(alias) {
            Some(i) => Ok(self.data.people.remove(i)),
            None => Err(StoreError::Unknown(alias.to_string())),
        }
    }

    /// Whether renaming `from` to `to` is allowed; on success, whether the avatar file
    /// has to move (the person has one and the alias changes).
    pub fn rename_check(&self, from: &str, to: &str) -> (r: Result<bool, StoreError>)
        ensures
            r is Ok <==> {
                &&& alias_ok(to@)
                &&& (from@ == to@ || !has_alias(self.data.people@, to@))
                &&& has_alias(self.data.people@, from@)
            },
            r matches Err(e) ==> if !alias_ok(to@) {
                e matches StoreError::BadAlias(a) && a@ == to@
            } else if from@ != to@ && has_alias(self.data.people@, to@) {
                e matches StoreError::Duplicate(a) && a@ == to@
            } else {
                e matches StoreError::Unknown(a) && a@ == from@
            },
            r matches Ok(m) ==> m == (self.data.people@[index_of(self.data.people@, from@)].avatar
                && from@ != to@),
    {
        match validate_alias(to) {
            Ok(()) => {},
            Err(e) => return Err(e),
        }
        let same = str_eq(from, to);
        if !same && self.find(to).is_some() {
            return Err(StoreError::Duplicate(to.to_string()));
        }
        match self.find(from) {
            Some(p) => Ok(p.avatar && !same),
            None => Err(StoreError::Unknown(from.to_string())),
        }
    }

    /// Renames `from` to `to` (checked as `rename_check`). Moving the avatar file is up
    /// to the caller, before this call.
    pub fn rename(&mut self, from: &str, to: &str) -> (r: Result<(), StoreError>)
        ensures
            r is Ok <==> {
                &&& alias_ok(to@)
                &&& (from@ == to@ || !has_alias(old(self).data.people@, to@))
                &&& has_alias(old(self).data.people@, from@)
            },
            r matches Err(e) ==> if !alias_ok(to@) {
                e matches StoreError::BadAlias(a) && a@ == to@
            } else if from@ != to@ && has_alias(old(self).data.people@, to@) {
                e matches StoreError::Duplicate(a) && a@ == to@
            } else {
                e matches StoreError::Unknown(a) && a@ == from@
            },
            r is Err ==> *final(self) == *old(self),
            r is Ok ==> {
                let i = index_of(old(self).data.people@, from@);
                let old_p = old(self).data.people@[i];
                &&& final(self).data.people@.len() == old(self).data.people@.len()
                &&& final(self).data.people@[i].alias@ == to@
                &&& final(self).data.people@[i] == (Person {
                    alias: final(self).data.people@[i].alias,
                    ..old_p
                })
                &&& forall|k: int|
                    0 <= k < old(self).data.people@.len() && k != i ==> #[trigger] final(self).data.people@[k]
                        == old(self).data.people@[k]
            },
            final(self).dir == old(self).dir,
            final(self).data.settings == old(self).data.settings,
    {
        match self.rename_check(from, to) {
            Ok(_) => {},
            Err(e) => return Err(e),
        }
        proof {
            lemma_index_of(self.data.people@, from@);
        }
        let i = self.position(from).unwrap();
        let mut p = self.data.people.remove(i);
        p.alias = to.to_string();
        self.data.people.insert(i, p);
        Ok(())
    }

    /// Replaces the person at `i` (keeping the list order).
    pub fn replace(&mut self, i: usize, p: Person)
        requires
            i < old(self).data.people.len(),
        ensures
            final(self).data.people@ == old(self).data.people@.update(i as int, p),
            final(self).dir == old(self).dir,
            final(self).data.settings == old(self).data.settings,
    {
        self.data.people.set(i, p);
    }
}

/// Adding keeps aliases unique, and the added person is then found by alias.
pub proof fn lemma_add_then_find(people: Seq<Person>, p: Person)
    requires
        aliases_unique(people),
        !has_alias(people, p.alias@),
    ensures
        aliases_unique(people.push(p)),
        index_of(people.push(p), p.alias@) == people.len(),
        people.push(p)[index_of(people.push(p), p.alias@)] == p,
{
    let q = people.push(p);
    lemma_index_of(people, p.alias@);
    assert forall|i: int, j: int|
        0 <= i < q.len() && 0 <= j < q.len() && i != j implies (#[trigger] q[i]).alias@
            != (#[trigger] q[j]).alias@ by {
        if i < people.len() && j < people.len() {
            assert(q[i] == people[i] && q[j] == people[j]);
        } else if i < people.len() {
            assert(q[i] == people[i]);
        } else {
            assert(q[j] == people[j]);
        }
    }
    assert(q.drop_last() =~= people);
}

/// Removing keeps aliases unique, and the alias is gone afterwards.
pub proof fn lemma_remove_then_absent(people: Seq<Person>, a: Seq<char>)
    requires
        aliases_unique(people),
        has_alias(people, a),
    ensures
        aliases_unique(people.remove(index_of(people, a))),
        !has_alias(people.remove(index_of(people, a)), a),
{
    lemma_index_of(people, a);
    let i = index_of(people, a);
    let q = people.remove(i);
    assert forall|x: int, y: int|
        0 <= x < q.len() && 0 <= y < q.len() && x != y implies (#[trigger] q[x]).alias@
            != (#[trigger] q[y]).alias@ by {
        let ox = if x < i { x } else { x + 1 };
        let oy = if y < i { y } else { y + 1 };
        assert(q[x] == people[ox] && q[y] == people[oy]);
    }
    if has_alias(q, a) {
        let w = choose|k: int| 0 <= k < q.len() && (#[trigger] q[k]).alias@ == a;
        let ow = if w < i { w } else { w + 1 };
        assert(q[w] == people[ow]);
    }
}

/// Renaming keeps aliases unique: the new alias is found, the old one is gone when it
/// changed, and everyone else keeps theirs.
pub proof fn lemma_rename_unique(people: Seq<Person>, i: int, after: Seq<Person>, from: Seq<char>, to: Seq<char>)
    requires
        aliases_unique(people),
        0 <= i < people.len(),
        people[i].alias@ == from,
        from == to || !has_alias(people, to),
        after.len() == people.len(),
        after[i].alias@ == to,
        forall|k: int| 0 <= k < people.len() && k != i ==> #[trigger] after[k] == people[k],
    ensures
        aliases_unique(after),
        has_alias(after, to),
        from != to ==> !has_alias(after, from),
{
    assert forall|x: int, y: int|
        0 <= x < after.len() && 0 <= y < after.len() && x != y implies (#[trigger] after[x]).alias@
            != (#[trigger] after[y]).alias@ by {
        if x != i && y != i {
            assert(after[x] == people[x] && after[y] == people[y]);
        } else if x == i {
            assert(after[y] == people[y]);
            if from != to {
                assert(has_alias(people, after[y].alias@));
            }
        } else {
            assert(after[x] == people[x]);
            if from != to {
                assert(has_alias(people, after[x].alias@));
            }
        }
    }
    assert(after[i].alias@ == to);
    if from != to && has_alias(after, from) {
        let w = choose|k: int| 0 <= k < after.len() && (#[trigger] after[k]).alias@ == from;
        assert(after[w] == people[w]);
    }
}

} // verus!
