//! Ordering the people list by age, alias or next birthday.
use vstd::prelude::*;

use crate::age::{birth_instant, birthday_days_near, days_to_birthday, local_at, next_birthday_days};
use crate::model::{Person, SortKey};
use crate::text::{chars_lt, lemma_seq_lt_asym, lemma_seq_lt_total, lemma_seq_lt_trans, seq_lt, str_chars};
use crate::zone::{instant_in_range, instant_of, naive_as_utc};
use vstd::multiset::Multiset;

verus! {

broadcast use vstd::seq_lib::group_to_multiset_ensures;

/// `(k1, a1)` may come before `(k2, a2)`: smaller key first, ties by alias.
pub open spec fn entry_le(k1: int, a1: Seq<char>, k2: int, a2: Seq<char>) -> bool {
    k1 < k2 || (k1 == k2 && !seq_lt(a2, a1))
}

proof fn lemma_entry_le_trans(k1: int, a1: Seq<char>, k2: int, a2: Seq<char>, k3: int, a3: Seq<char>)
    requires
        entry_le(k1, a1, k2, a2),
        entry_le(k2, a2, k3, a3),
    ensures
        entry_le(k1, a1, k3, a3),
{
    if k1 == k2 && k2 == k3 {
        if seq_lt(a3, a1) {
            lemma_seq_lt_total(a2, a1);
            lemma_seq_lt_total(a3, a2);
            if seq_lt(a1, a2) && seq_lt(a2, a3) {
                lemma_seq_lt_trans(a1, a2, a3);
                lemma_seq_lt_asym(a1, a3);
            }
        }
    }
}

proof fn lemma_entry_le_total(k1: int, a1: Seq<char>, k2: int, a2: Seq<char>)
    ensures
        entry_le(k1, a1, k2, a2) || entry_le(k2, a2, k1, a1),
{
    if k1 == k2 && seq_lt(a2, a1) {
        lemma_seq_lt_asym(a2, a1);
    }
}

/// The sort key of a person: birth instant for `Age`, days to the next birthday for
/// `Birthday`, nothing for `Alias` (which orders by alias alone). Defined for people
/// with a known zone.
pub open spec fn sort_key_of(key: SortKey, p: Person, now: int) -> int {
    match key {
        SortKey::Age => instant_of(Some(p.tz.unwrap()@), p.birth),
        SortKey::Alias => 0,
        SortKey::Birthday => days_to_birthday(p.birth.date, local_at(p.tz.unwrap()@, now).date),
    }
}

/// `people` is in the order `key` asks for.
pub open spec fn sorted_by(people: Seq<Person>, key: SortKey, now: int) -> bool {
    forall|i: int, j: int|
        0 <= i < j < people.len() ==> entry_le(
            sort_key_of(key, #[trigger] people[i], now),
            people[i].alias@,
            sort_key_of(key, #[trigger] people[j], now),
            people[j].alias@,
        )
}

/// `people` is in alias order.
pub open spec fn sorted_by_alias(people: Seq<Person>) -> bool {
    forall|i: int, j: int|
        0 <= i < j < people.len() ==> !seq_lt((#[trigger] people[j]).alias@, (#[trigger] people[i]).alias@)
}

/// `k` is a sort key that `key` gives `p` at instant `now`: the one `sort_key_of`
/// names when `p` has a zone; otherwise (the machine's zone) a birth instant within
/// 25 hours of the birth read as UTC, or the days to the birthday from a local date
/// within a day of `now` read as UTC.
pub open spec fn key_fits(key: SortKey, p: Person, now: int, k: int) -> bool {
    &&& p.tz is Some ==> k == sort_key_of(key, p, now)
    &&& match key {
        SortKey::Age => -90000 < k - naive_as_utc(p.birth) < 90000,
        SortKey::Alias => k == 0,
        SortKey::Birthday => birthday_days_near(p, now, k),
    }
}

/// `people` is in order of the keys `ks`, each a key that `key` gives its person at
/// `now`, ties broken by alias.
pub open spec fn sorted_by_keys(people: Seq<Person>, key: SortKey, now: int, ks: Seq<int>) -> bool {
    &&& ks.len() == people.len()
    &&& forall|i: int| 0 <= i < ks.len() ==> key_fits(key, people[i], now, #[trigger] ks[i])
    &&& forall|i: int, j: int|
        0 <= i < j < ks.len() ==> entry_le(
            #[trigger] ks[i],
            people[i].alias@,
            #[trigger] ks[j],
            people[j].alias@,
        )
}

struct Entry {
    key: i64,
    alias: Vec<char>,
    person: Person,
}

spec fn entry_ok(e: Entry, key: SortKey, now: int) -> bool {
    &&& e.alias@ == e.person.alias@
    &&& key_fits(key, e.person, now, e.key as int)
}

spec fn persons(v: Seq<Entry>) -> Seq<Person> {
    v.map_values(|e: Entry| e.person)
}

fn entry_le_exec(a: &Entry, b: &Entry) -> (r: bool)
    ensures
        r == entry_le(a.key as int, a.alias@, b.key as int, b.alias@),
{
    a.key < b.key || (a.key == b.key && !chars_lt(b.alias.as_slice(), a.alias.as_slice()))
}

fn insertion_sort(v: &mut Vec<Entry>, Ghost(key): Ghost<SortKey>, Ghost(now): Ghost<int>)
    requires
        forall|i: int| 0 <= i < old(v).len() ==> entry_ok(#[trigger] old(v)[i], key, now),
    ensures
        persons(final(v)@).to_multiset() == persons(old(v)@).to_multiset(),
        final(v).len() == old(v).len(),
        forall|i: int| 0 <= i < final(v).len() ==> entry_ok(#[trigger] final(v)[i], key, now),
        forall|i: int, j: int|
            0 <= i < j < final(v).len() ==> entry_le(
                (#[trigger] final(v)[i]).key as int,
                final(v)[i].alias@,
                (#[trigger] final(v)[j]).key as int,
                final(v)[j].alias@,
            ),
{
    let n = v.len();
    let mut i: usize = 1;
    if n == 0 {
        return;
    }
    while i < n
        invariant
            1 <= i <= n,
            v.len() == n,
            persons(v@).to_multiset() == persons(old(v)@).to_multiset(),
            forall|k: int| 0 <= k < v.len() ==> entry_ok(#[trigger] v[k], key, now),
            forall|a: int, b: int|
                0 <= a < b < i ==> entry_le(
                    (#[trigger] v[a]).key as int,
                    v[a].alias@,
                    (#[trigger] v[b]).key as int,
                    v[b].alias@,
                ),
        decreases n - i,
    {
        let ghost before = v@;
        let x = v.remove(i);
        let ghost removed = v@;
        let mut p: usize = i;
        while p > 0 && !entry_le_exec(&v[p - 1], &x)
            invariant
                0 <= p <= i,
                i < n,
                v.len() == n - 1,
                v@ == removed,
                forall|k: int| p <= k < i ==> !entry_le(
                    (#[trigger] v[k]).key as int,
                    v[k].alias@,
                    x.key as int,
                    x.alias@,
                ),
            decreases p,
        {
            p = p - 1;
        }
        v.insert(p, x);
        proof {
            assert(removed == before.remove(i as int));
            assert(v@ == removed.insert(p as int, x));
            assert(persons(removed) =~= persons(before).remove(i as int));
            assert(persons(v@) =~= persons(removed).insert(p as int, x.person));
            assert(persons(before)[i as int] == x.person);
            assert forall|a: int, b: int| 0 <= a < b < i + 1 implies entry_le(
                (#[trigger] v[a]).key as int,
                v[a].alias@,
                (#[trigger] v[b]).key as int,
                v[b].alias@,
            ) by {
                if b < p {
                } else if b == p {
                    if a < p - 1 {
                        lemma_entry_le_trans(
                            v[a].key as int,
                            v[a].alias@,
                            v[p - 1].key as int,
                            v[p - 1].alias@,
                            x.key as int,
                            x.alias@,
                        );
                    }
                } else if a == p {
                    lemma_entry_le_total(
                        removed[b - 1].key as int,
                        removed[b - 1].alias@,
                        x.key as int,
                        x.alias@,
                    );
                } else if a < p {
                } else {
                }
            }
            assert forall|k: int| 0 <= k < v.len() implies entry_ok(#[trigger] v[k], key, now) by {
                if k < p {
                    assert(v[k] == removed[k]);
                } else if k > p {
                    assert(v[k] == removed[k - 1]);
                }
            }
        }
        i = i + 1;
    }
}

/// Orders `people` in place: `Age` puts the earliest birth first, `Birthday` the
/// soonest birthday, and equal keys (and `Alias`) go by alias. People without a zone
/// get their keys from the machine's zone.
pub fn sort_people(people: &mut Vec<Person>, key: SortKey, now: i64)
    requires
        forall|i: int| 0 <= i < old(people).len() ==> (#[trigger] old(people)[i]).wf(),
        instant_in_range(now as int),
    ensures
        final(people)@.to_multiset() == old(people)@.to_multiset(),
        key == SortKey::Alias ==> sorted_by_alias(final(people)@),
        (forall|i: int| 0 <= i < old(people).len() ==> (#[trigger] old(people)[i]).tz is Some)
            ==> sorted_by(final(people)@, key, now as int),
        exists|ks: Seq<int>| sorted_by_keys(final(people)@, key, now as int, ks),
{
    let ghost given = people@;
    let mut entries: Vec<Entry> = Vec::new();
    let ghost mut taken: Seq<Person> = Seq::empty();
    while people.len() > 0
        invariant
            given.to_multiset() == people@.to_multiset().add(persons(entries@).to_multiset()),
            forall|k: int| 0 <= k < people.len() ==> (#[trigger] people[k]).wf(),
            forall|k: int| 0 <= k < entries.len() ==> entry_ok(#[trigger] entries[k], key, now as int),
            instant_in_range(now as int),
        decreases people.len(),
    {
        let ghost before = people@;
        let ghost before_entries = entries@;
        let p = people.pop().unwrap();
        let k: i64 = match key {
            SortKey::Age => birth_instant(&p),
            SortKey::Alias => 0,
            SortKey::Birthday => next_birthday_days(&p, now),
        };
        let alias = str_chars(p.alias.as_str());
        entries.push(Entry { key: k, alias, person: p });
        proof {
            assert(before =~= people@.push(p));
            assert(persons(entries@) =~= persons(before_entries).push(p));
            assert(before.to_multiset() == people@.to_multiset().insert(p));
            assert(persons(entries@).to_multiset() == persons(before_entries).to_multiset().insert(p));
            assert(given.to_multiset() =~= people@.to_multiset().add(
                persons(entries@).to_multiset(),
            ));
        }
    }
    proof {
        assert(people@.to_multiset() =~= Multiset::empty());
        assert(given.to_multiset() =~= persons(entries@).to_multiset());
    }
    insertion_sort(&mut entries, Ghost(key), Ghost(now as int));
    let ghost sorted = entries@;
    let mut out: Vec<Person> = Vec::new();
    let mut idx: usize = 0;
    let n = entries.len();
    while entries.len() > 0
        invariant
            idx + entries.len() == n,
            n == sorted.len(),
            entries@ == sorted.subrange(idx as int, n as int),
            out@ == persons(sorted.subrange(0, idx as int)),
        decreases entries.len(),
    {
        let e = entries.remove(0);
        out.push(e.person);
        proof {
            assert(persons(sorted.subrange(0, idx + 1)) =~= persons(sorted.subrange(0, idx as int)).push(
                sorted[idx as int].person,
            ));
            assert(entries@ =~= sorted.subrange(idx + 1, n as int));
        }
        idx = idx + 1;
    }
    proof {
        assert(sorted.subrange(0, n as int) =~= sorted);
        assert(out@ == persons(sorted));
        let ks = sorted.map_values(|e: Entry| e.key as int);
        assert forall|i: int| 0 <= i < ks.len() implies key_fits(key, out@[i], now as int, #[trigger] ks[i]) by {
            assert(entry_ok(sorted[i], key, now as int));
        }
        assert forall|i: int, j: int| 0 <= i < j < ks.len() implies entry_le(
            #[trigger] ks[i],
            out@[i].alias@,
            #[trigger] ks[j],
            out@[j].alias@,
        ) by {
            assert(entry_ok(sorted[i], key, now as int));
            assert(entry_ok(sorted[j], key, now as int));
        }
        assert(sorted_by_keys(out@, key, now as int, ks));
        assert forall|i: int, j: int| 0 <= i < j < out.len() implies entry_le(
            sort_key_of(key, #[trigger] out@[i], now as int),
            out@[i].alias@,
            sort_key_of(key, #[trigger] out@[j], now as int),
            out@[j].alias@,
        ) || !(out@[i].tz is Some && out@[j].tz is Some) by {
            assert(entry_ok(sorted[i], key, now as int));
            assert(entry_ok(sorted[j], key, now as int));
        }
        if key == SortKey::Alias {
            assert forall|i: int, j: int| 0 <= i < j < out.len() implies !seq_lt(
                (#[trigger] out@[j]).alias@,
                (#[trigger] out@[i]).alias@,
            ) by {
                assert(entry_ok(sorted[i], key, now as int));
                assert(entry_ok(sorted[j], key, now as int));
            }
        }
        if forall|i: int| 0 <= i < given.len() ==> (#[trigger] given[i]).tz is Some {
            assert forall|i: int| 0 <= i < out.len() implies (#[trigger] out@[i]).tz is Some by {
                assert(out@.to_multiset().count(out@[i]) > 0);
                assert(given.to_multiset().count(out@[i]) > 0);
                assert(given.contains(out@[i]));
            }
        }
    }
    *people = out;
}

} // verus!
