//! The interactive view's state: selection, popups, pickers and key handling.
//! Drawing, files and the terminal belong to the caller, which performs the
//! effect each step returns.
use vstd::prelude::*;

use crate::tui::form::{FIELD_COUNT, FormOutput, FormState, validated};
use crate::i18n::{Lang, Msg, code_of, msg, msg_spec, supported_at};
use crate::model::{AgeView, Person, SortKey, age_view_at, alias_ok};
use crate::order::{sort_people, sorted_by_keys};
use crate::output::{sort_label, view_label};
use crate::store::{Store, StoreError, has_alias, index_of};
use crate::zone::instant_in_range;

verus! {

/// The sort orders in picker order.
pub open spec fn sort_at(i: int) -> SortKey {
    if i == 0 {
        SortKey::Age
    } else if i == 1 {
        SortKey::Alias
    } else {
        SortKey::Birthday
    }
}

/// Which setting a picker chooses.
#[derive(Clone, Copy, Debug, PartialEq, Eq, Structural)]
pub enum PickerKind {
    Lang,
    Sort,
    View,
}

/// A small single-choice popup (language / sort / age view).
#[derive(Clone, Debug, PartialEq, Eq)]
pub struct Picker {
    pub kind: PickerKind,
    /// Localized labels, in option order.
    pub items: Vec<String>,
    pub selected: usize,
}

impl Picker {
    pub open spec fn wf(&self) -> bool {
        self.items.len() > 0 && self.selected < self.items.len()
    }

    /// Highlight the previous option (stays on the first).
    pub fn up(&mut self)
        ensures
            final(self).selected == if old(self).selected == 0 { 0 } else { (old(self).selected - 1) as usize },
            final(self).items == old(self).items,
            final(self).kind == old(self).kind,
    {
        self.selected = self.selected.saturating_sub(1);
    }

    /// Highlight the next option (stays on the last).
    pub fn down(&mut self)
        ensures
            final(self).selected == if old(self).selected + 1 < old(self).items.len() {
                (old(self).selected + 1) as usize
            } else {
                old(self).selected
            },
            final(self).items == old(self).items,
            final(self).kind == old(self).kind,
    {
        if self.selected < usize::MAX && self.selected + 1 < self.items.len() {
            self.selected = self.selected + 1;
        }
    }
}

/// What the interactive view shows on top of the list.
#[derive(Clone, Debug)]
pub enum Mode {
    List,
    Form(FormState),
    ConfirmDelete,
    ConfirmRemoveAvatar,
    Error(String),
    Picker(Picker),
}

/// A key press, as far as the view cares.
#[derive(Clone, Copy, Debug, PartialEq, Eq, Structural)]
pub enum Key {
    Char(char),
    Up,
    Down,
    Enter,
    Esc,
    Tab,
    BackTab,
    Backspace,
    Other,
}

/// What the caller has to do after a step.
#[derive(Clone, Debug)]
pub enum Effect {
    /// Nothing outside the state changed.
    Nothing,
    /// Settings changed: save the store.
    Save,
    /// A person was removed: delete their avatar file when `avatar` is set, forget
    /// their cached image, then save.
    Deleted { alias: String, avatar: bool },
    /// A person's avatar was dropped: delete the file, forget the cached image, save.
    AvatarRemoved { alias: String },
    /// The form asks to be submitted: probe the avatar path, then `submit_form`.
    Submit,
}

/// `f` is `o` after choosing the highlighted option of picker `p`: the list shows again
/// and the chosen setting is stored (the language also becomes the current one); the
/// other settings, the current language for the other pickers, and the people (up to
/// re-sorting by a new sort order) stay.
pub open spec fn picker_applied(p: Picker, o: App, f: App) -> bool {
    &&& f.mode matches Mode::List
    &&& match p.kind {
        PickerKind::Lang => {
            &&& f.lang == supported_at(p.selected as int)
            &&& f.store.data.settings.lang matches Some(c) && c@ == code_of(supported_at(p.selected as int))
            &&& f.store.data.settings.sort == o.store.data.settings.sort
            &&& f.store.data.settings.age_view == o.store.data.settings.age_view
            &&& f.store.data.people == o.store.data.people
        },
        PickerKind::Sort => {
            &&& f.store.data.settings.sort == sort_at(p.selected as int)
            &&& f.store.data.settings.lang == o.store.data.settings.lang
            &&& f.store.data.settings.age_view == o.store.data.settings.age_view
            &&& f.lang == o.lang
            &&& f.store.data.people@.to_multiset() == o.store.data.people@.to_multiset()
            &&& exists|ks: Seq<int>| sorted_by_keys(f.store.data.people@, sort_at(p.selected as int), o.now as int, ks)
        },
        PickerKind::View => {
            &&& f.store.data.settings.age_view == age_view_at(if p.selected < 6 { p.selected as int } else { 5 })
            &&& f.store.data.settings.lang == o.store.data.settings.lang
            &&& f.store.data.settings.sort == o.store.data.settings.sort
            &&& f.lang == o.lang
            &&& f.store.data.people == o.store.data.people
        },
    }
}

/// The selection `selected` kept inside a list of `n` people: the last one when it
/// points past the end, 0 for an empty list.
pub open spec fn clamped(selected: int, n: int) -> int {
    if n <= 0 { 0 } else if selected >= n { n - 1 } else { selected }
}

/// The interactive view's state.
pub struct App {
    pub store: Store,
    pub selected: usize,
    pub mode: Mode,
    /// The current instant (Unix seconds).
    pub now: i64,
    pub should_quit: bool,
    pub lang: Lang,
}

/// The selection fits the list: on a person, or 0 for an empty list.
pub open spec fn selection_ok(selected: int, n: int) -> bool {
    if n == 0 { selected == 0 } else { 0 <= selected < n }
}

impl App {
    /// Consistent state: every person usable, the selection on the list, an open form
    /// or picker well formed, the clock in range.
    pub open spec fn wf(&self) -> bool {
        &&& forall|i: int| 0 <= i < self.store.data.people.len() ==> (#[trigger] self.store.data.people[i]).wf()
        &&& selection_ok(self.selected as int, self.store.data.people.len() as int)
        &&& instant_in_range(self.now as int)
        &&& (self.mode matches Mode::Form(f) ==> f.wf())
        &&& (self.mode matches Mode::Picker(p) ==> p.wf())
    }

    /// Opens the view on `store`, sorted by the stored order, the first person selected.
    pub fn new(store: Store, now: i64, lang: Lang) -> (r: App)
        requires
            forall|i: int| 0 <= i < store.data.people.len() ==> (#[trigger] store.data.people[i]).wf(),
            instant_in_range(now as int),
        ensures
            r.wf(),
            r.selected == 0,
            r.mode matches Mode::List,
            !r.should_quit,
            r.lang == lang,
            r.now == now,
            r.store.data.people@.to_multiset() == store.data.people@.to_multiset(),
            r.store.data.settings == store.data.settings,
            exists|ks: Seq<int>| sorted_by_keys(r.store.data.people@, store.data.settings.sort, now as int, ks),
    {
        let mut app = App { store, selected: 0, mode: Mode::List, now, should_quit: false, lang };
        app.resort();
        app.selected = 0;
        app
    }

    /// Re-sorts by the stored order, keeping the selected person selected.
    fn resort(&mut self)
        requires
            forall|i: int| 0 <= i < old(self).store.data.people.len() ==> (#[trigger] old(self).store.data.people[i]).wf(),
            instant_in_range(old(self).now as int),
        ensures
            final(self).store.data.people@.to_multiset() == old(self).store.data.people@.to_multiset(),
            final(self).store.data.people.len() == old(self).store.data.people.len(),
            forall|i: int| 0 <= i < final(self).store.data.people.len() ==> (#[trigger] final(self).store.data.people[i]).wf(),
            selection_ok(final(self).selected as int, final(self).store.data.people.len() as int),
            final(self).store.data.settings == old(self).store.data.settings,
            final(self).store.dir == old(self).store.dir,
            final(self).now == old(self).now,
            final(self).lang == old(self).lang,
            final(self).should_quit == old(self).should_quit,
            final(self).mode == old(self).mode,
            old(self).selected < old(self).store.data.people.len() ==> final(self).store.data.people@[final(self).selected as int].alias@
                == old(self).store.data.people@[old(self).selected as int].alias@,
            exists|ks: Seq<int>|
                sorted_by_keys(final(self).store.data.people@, old(self).store.data.settings.sort, old(self).now as int, ks),
    {
        let key = self.store.data.settings.sort;
        let keep: Option<String> = match self.selected_person() {
            Some(p) => Some(p.alias.clone()),
            None => None,
        };
        let ghost before = self.store.data.people@;
        sort_people(&mut self.store.data.people, key, self.now);
        proof {
            lemma_wf_permutation(before, self.store.data.people@);
            vstd::seq_lib::to_multiset_len(before);
            vstd::seq_lib::to_multiset_len(self.store.data.people@);
        }
        match keep {
            Some(a) => {
                proof {
                    assert(has_alias(before, a@)) by {
                        assert(before[self.selected as int].alias@ == a@);
                    }
                    lemma_has_alias_permutation(before, self.store.data.people@, a@);
                    crate::store::lemma_index_of(self.store.data.people@, a@);
                }
                self.select_alias(a.as_str());
            },
            None => {},
        }
        self.clamp();
    }

    fn clamp(&mut self)
        ensures
            selection_ok(final(self).selected as int, final(self).store.data.people.len() as int),
            final(self).selected == if old(self).store.data.people.len() == 0 {
                0
            } else if old(self).selected >= old(self).store.data.people.len() {
                (old(self).store.data.people.len() - 1) as usize
            } else {
                old(self).selected
            },
            final(self).store == old(self).store,
            final(self).now == old(self).now,
            final(self).lang == old(self).lang,
            final(self).should_quit == old(self).should_quit,
            final(self).mode == old(self).mode,
    {
        let n = self.store.data.people.len();
        if n == 0 {
            self.selected = 0;
        } else if self.selected >= n {
            self.selected = n - 1;
        }
    }

    /// Selects the person with `alias`, if there is one.
    pub fn select_alias(&mut self, alias: &str)
        ensures
            has_alias(old(self).store.data.people@, alias@) ==> final(self).selected as int == index_of(
                old(self).store.data.people@,
                alias@,
            ),
            !has_alias(old(self).store.data.people@, alias@) ==> final(self).selected == old(self).selected,
            final(self).store == old(self).store,
            final(self).now == old(self).now,
            final(self).lang == old(self).lang,
            final(self).should_quit == old(self).should_quit,
            final(self).mode == old(self).mode,
    {
        proof {
            crate::store::lemma_index_of(self.store.data.people@, alias@);
        }
        match self.store.position(alias) {
            Some(i) => {
                self.selected = i;
            },
            None => {},
        }
    }

    /// Everyone, in display order.
    pub fn people(&self) -> (r: &Vec<Person>)
        ensures
            r@ == self.store.data.people@,
    {
        &self.store.data.people
    }

    /// The selected person, if the list is not empty.
    pub fn selected_person(&self) -> (r: Option<&Person>)
        ensures
            self.selected < self.store.data.people.len() ==> r == Some(&self.store.data.people@[self.selected as int]),
            self.selected >= self.store.data.people.len() ==> r is None,
    {
        if self.selected < self.store.data.people.len() {
            Some(&self.store.data.people[self.selected])
        } else {
            None
        }
    }

    /// Advances the clock to `now` and re-sorts (birthdays move).
    pub fn tick(&mut self, now: i64)
        requires
            old(self).wf(),
            instant_in_range(now as int),
        ensures
            final(self).wf(),
            final(self).should_quit == old(self).should_quit,
            final(self).lang == old(self).lang,
            final(self).now == now,
            final(self).store.data.people@.to_multiset() == old(self).store.data.people@.to_multiset(),
            old(self).store.data.people.len() > 0 ==> final(self).store.data.people@[final(self).selected as int].alias@
                == old(self).store.data.people@[old(self).selected as int].alias@,
            exists|ks: Seq<int>|
                sorted_by_keys(final(self).store.data.people@, old(self).store.data.settings.sort, now as int, ks),
    {
        self.now = now;
        self.resort();
    }

    /// Selection one up (stays on the first).
    pub fn move_up(&mut self)
        requires
            old(self).wf(),
        ensures
            final(self).wf(),
            final(self).mode == old(self).mode,
            final(self).should_quit == old(self).should_quit,
            final(self).lang == old(self).lang,
            final(self).now == old(self).now,
            final(self).selected == if old(self).selected == 0 { 0 } else { (old(self).selected - 1) as usize },
            final(self).store == old(self).store,
    {
        self.selected = self.selected.saturating_sub(1);
    }

    /// Selection one down (stays on the last).
    pub fn move_down(&mut self)
        requires
            old(self).wf(),
        ensures
            final(self).wf(),
            final(self).mode == old(self).mode,
            final(self).should_quit == old(self).should_quit,
            final(self).lang == old(self).lang,
            final(self).now == old(self).now,
            final(self).selected == if old(self).selected + 1 < old(self).store.data.people.len() {
                (old(self).selected + 1) as usize
            } else {
                old(self).selected
            },
            final(self).store == old(self).store,
    {
        if self.selected + 1 < self.store.data.people.len() {
            self.selected = self.selected + 1;
        }
    }

    /// Sets the stored sort order and re-sorts, keeping the selected person.
    pub fn set_sort(&mut self, key: SortKey)
        requires
            old(self).wf(),
        ensures
            final(self).wf(),
            final(self).should_quit == old(self).should_quit,
            final(self).now == old(self).now,
            final(self).store.data.settings.sort == key,
            final(self).store.data.people@.to_multiset() == old(self).store.data.people@.to_multiset(),
            old(self).store.data.people.len() > 0 ==> final(self).store.data.people@[final(self).selected as int].alias@
                == old(self).store.data.people@[old(self).selected as int].alias@,
            final(self).mode == old(self).mode,
            final(self).lang == old(self).lang,
            final(self).store.data.settings.lang == old(self).store.data.settings.lang,
            final(self).store.data.settings.age_view == old(self).store.data.settings.age_view,
            exists|ks: Seq<int>| sorted_by_keys(final(self).store.data.people@, key, old(self).now as int, ks),
    {
        self.store.data.settings.sort = key;
        self.resort();
    }

    /// Switches the language and stores its code.
    pub fn set_lang(&mut self, lang: Lang)
        requires
            old(self).wf(),
        ensures
            final(self).wf(),
            final(self).should_quit == old(self).should_quit,
            final(self).now == old(self).now,
            final(self).lang == lang,
            final(self).store.data.settings.lang matches Some(c) && c@ == crate::i18n::code_of(lang),
            final(self).store.data.people == old(self).store.data.people,
            final(self).mode == old(self).mode,
            final(self).selected == old(self).selected,
            final(self).store.data.settings.sort == old(self).store.data.settings.sort,
            final(self).store.data.settings.age_view == old(self).store.data.settings.age_view,
    {
        self.lang = lang;
        self.store.data.settings.lang = Some(crate::i18n::current(lang));
    }

    /// Sets the stored age view.
    pub fn set_view(&mut self, view: AgeView)
        requires
            old(self).wf(),
        ensures
            final(self).wf(),
            final(self).should_quit == old(self).should_quit,
            final(self).now == old(self).now,
            final(self).store.data.settings.age_view == view,
            final(self).store.data.people == old(self).store.data.people,
            final(self).mode == old(self).mode,
            final(self).selected == old(self).selected,
            final(self).lang == old(self).lang,
            final(self).store.data.settings.lang == old(self).store.data.settings.lang,
            final(self).store.data.settings.sort == old(self).store.data.settings.sort,
    {
        self.store.data.settings.age_view = view;
    }

    /// Opens a picker on the current choice.
    pub fn open_picker(&mut self, kind: PickerKind)
        requires
            old(self).wf(),
        ensures
            final(self).wf(),
            final(self).should_quit == old(self).should_quit,
            final(self).lang == old(self).lang,
            final(self).now == old(self).now,
            final(self).mode matches Mode::Picker(p) && p.kind == kind && match kind {
                PickerKind::Lang => p.items.len() == 2 && supported_at(p.selected as int) == old(self).lang,
                PickerKind::Sort => p.items.len() == 3 && sort_at(p.selected as int) == old(self).store.data.settings.sort,
                PickerKind::View => p.items.len() == 6 && age_view_at(p.selected as int) == old(self).store.data.settings.age_view,
            },
            final(self).store == old(self).store,
            final(self).selected == old(self).selected,
    {
        let lang = self.lang;
        let picker = match kind {
            PickerKind::Lang => Picker {
                kind,
                items: vec![
                    msg(lang, Msg::LangEn).to_string(),
                    msg(lang, Msg::LangTr).to_string(),
                ],
                selected: match lang {
                    Lang::En => 0,
                    Lang::Tr => 1,
                },
            },
            PickerKind::Sort => Picker {
                kind,
                items: vec![
                    sort_label(lang, SortKey::Age).to_string(),
                    sort_label(lang, SortKey::Alias).to_string(),
                    sort_label(lang, SortKey::Birthday).to_string(),
                ],
                selected: match self.store.data.settings.sort {
                    SortKey::Age => 0,
                    SortKey::Alias => 1,
                    SortKey::Birthday => 2,
                },
            },
            PickerKind::View => {
                let all = AgeView::all();
                let mut items: Vec<String> = Vec::new();
                let mut i: usize = 0;
                while i < all.len()
                    invariant
                        i <= all.len(),
                        all.len() == 6,
                        items.len() == i,
                    decreases all.len() - i,
                {
                    items.push(view_label(lang, all[i]).to_string());
                    i = i + 1;
                }
                Picker { kind, items, selected: self.store.data.settings.age_view.index() }
            },
        };
        self.mode = Mode::Picker(picker);
    }

    /// Applies the highlighted picker option and returns to the list.
    pub fn confirm_picker(&mut self) -> (e: Effect)
        requires
            old(self).wf(),
        ensures
            final(self).wf(),
            final(self).should_quit == old(self).should_quit,
            final(self).now == old(self).now,
            final(self).mode matches Mode::List || final(self).mode == old(self).mode,
            old(self).mode matches Mode::Picker(p) ==> picker_applied(p, *old(self), *final(self)) && e matches Effect::Save,
            !(old(self).mode matches Mode::Picker(_)) ==> (e matches Effect::Nothing) && final(self).store
                == old(self).store,
    {
        let (kind, i) = match &self.mode {
            Mode::Picker(p) => (p.kind, p.selected),
            _ => return Effect::Nothing,
        };
        self.mode = Mode::List;
        match kind {
            PickerKind::Lang => self.set_lang(if i == 0 { Lang::En } else { Lang::Tr }),
            PickerKind::Sort => self.set_sort(
                if i == 0 {
                    SortKey::Age
                } else if i == 1 {
                    SortKey::Alias
                } else {
                    SortKey::Birthday
                },
            ),
            PickerKind::View => {
                let all = AgeView::all();
                self.set_view(all[if i < 6 { i } else { 5 }]);
            },
        }
        Effect::Save
    }

    /// Asks to delete the selected person (nothing happens on an empty list).
    pub fn begin_delete(&mut self)
        requires
            old(self).wf(),
        ensures
            final(self).wf(),
            final(self).selected == old(self).selected,
            final(self).should_quit == old(self).should_quit,
            final(self).lang == old(self).lang,
            final(self).now == old(self).now,
            old(self).store.data.people.len() > 0 ==> final(self).mode matches Mode::ConfirmDelete,
            old(self).store.data.people.len() == 0 ==> final(self).mode == old(self).mode,
            final(self).store == old(self).store,
    {
        if self.selected_person().is_some() {
            self.mode = Mode::ConfirmDelete;
        }
    }

    /// Deletes the selected person and returns to the list.
    pub fn confirm_delete(&mut self) -> (e: Effect)
        requires
            old(self).wf(),
        ensures
            final(self).wf(),
            final(self).should_quit == old(self).should_quit,
            final(self).lang == old(self).lang,
            final(self).now == old(self).now,
            final(self).mode matches Mode::List,
            old(self).store.data.people.len() > 0 ==> {
                let p = old(self).store.data.people@[old(self).selected as int];
                let i = index_of(old(self).store.data.people@, p.alias@);
                &&& final(self).store.data.people@ == old(self).store.data.people@.remove(i)
                &&& e matches Effect::Deleted { alias, avatar } && alias@ == p.alias@ && avatar == old(self).store.data.people@[i].avatar
            },
            old(self).store.data.people.len() == 0 ==> (e matches Effect::Nothing) && final(self).store == old(self).store,
            final(self).selected == clamped(old(self).selected as int, final(self).store.data.people.len() as int),
    {
        let alias: Option<String> = match self.selected_person() {
            Some(p) => Some(p.alias.clone()),
            None => None,
        };
        let mut effect = Effect::Nothing;
        match alias {
            Some(a) => {
                proof {
                    crate::store::lemma_index_of(self.store.data.people@, a@);
                    assert(has_alias(self.store.data.people@, a@));
                }
                let ghost before = self.store.data.people@;
                match self.store.remove(a.as_str()) {
                    Ok(p) => {
                        effect = Effect::Deleted { alias: a, avatar: p.avatar };
                        proof {
                            assert forall|k: int| 0 <= k < self.store.data.people.len() implies (#[trigger] self.store.data.people[k]).wf() by {
                                let i = index_of(before, p.alias@);
                                if k < i {
                                    assert(self.store.data.people@[k] == before[k]);
                                } else {
                                    assert(self.store.data.people@[k] == before[k + 1]);
                                }
                            }
                        }
                    },
                    Err(_) => {},
                }
            },
            None => {},
        }
        self.mode = Mode::List;
        self.clamp();
        effect
    }

    /// Closes any popup.
    pub fn cancel(&mut self)
        requires
            old(self).wf(),
        ensures
            final(self).wf(),
            final(self).should_quit == old(self).should_quit,
            final(self).lang == old(self).lang,
            final(self).now == old(self).now,
            final(self).mode matches Mode::List,
            final(self).store == old(self).store,
            final(self).selected == old(self).selected,
    {
        self.mode = Mode::List;
    }

    /// Asks before dropping the selected person's avatar; no-op when they have none.
    pub fn begin_remove_avatar(&mut self)
        requires
            old(self).wf(),
        ensures
            final(self).wf(),
            final(self).selected == old(self).selected,
            final(self).should_quit == old(self).should_quit,
            final(self).lang == old(self).lang,
            final(self).now == old(self).now,
            (old(self).store.data.people.len() > 0 && old(self).store.data.people@[old(self).selected as int].avatar)
                ==> final(self).mode matches Mode::ConfirmRemoveAvatar,
            !(old(self).store.data.people.len() > 0 && old(self).store.data.people@[old(self).selected as int].avatar)
                ==> final(self).mode == old(self).mode,
            final(self).store == old(self).store,
    {
        match self.selected_person() {
            Some(p) => {
                if p.avatar {
                    self.mode = Mode::ConfirmRemoveAvatar;
                }
            },
            None => {},
        }
    }

    /// Drops the selected person's avatar (and its pixel-art flag) and returns to the list.
    pub fn confirm_remove_avatar(&mut self) -> (e: Effect)
        requires
            old(self).wf(),
        ensures
            final(self).wf(),
            final(self).should_quit == old(self).should_quit,
            final(self).lang == old(self).lang,
            final(self).now == old(self).now,
            final(self).mode matches Mode::List,
            final(self).selected == old(self).selected,
            final(self).store.data.people.len() == old(self).store.data.people.len(),
            old(self).store.data.people.len() > 0 ==> {
                let i = old(self).selected as int;
                let p = old(self).store.data.people@[i];
                let j = index_of(old(self).store.data.people@, p.alias@);
                &&& e matches Effect::AvatarRemoved { alias } && alias@ == p.alias@
                &&& final(self).store.data.people@ == old(self).store.data.people@.update(
                    j,
                    Person { avatar: false, pixel: false, ..old(self).store.data.people@[j] },
                )
            },
            old(self).store.data.people.len() == 0 ==> (e matches Effect::Nothing) && final(self).store == old(self).store,
    {
        let alias: Option<String> = match self.selected_person() {
            Some(p) => Some(p.alias.clone()),
            None => None,
        };
        let mut effect = Effect::Nothing;
        match alias {
            Some(a) => {
                proof {
                    crate::store::lemma_index_of(self.store.data.people@, a@);
                    assert(has_alias(self.store.data.people@, a@));
                }
                let i = self.store.position(a.as_str()).unwrap();
                let ghost before = self.store.data.people@;
                let mut p = self.store.data.people.remove(i);
                p.avatar = false;
                p.pixel = false;
                self.store.data.people.insert(i, p);
                proof {
                    assert(self.store.data.people@ =~= before.update(
                        i as int,
                        Person { avatar: false, pixel: false, ..before[i as int] },
                    ));
                    assert forall|k: int| 0 <= k < self.store.data.people.len() implies (#[trigger] self.store.data.people[k]).wf() by {
                        if k != i {
                            assert(self.store.data.people@[k] == before[k]);
                        }
                    }
                }
                effect = Effect::AvatarRemoved { alias: a };
            },
            None => {},
        }
        self.mode = Mode::List;
        effect
    }

    /// Opens an empty form to add a person.
    pub fn begin_add(&mut self)
        requires
            old(self).wf(),
        ensures
            final(self).wf(),
            final(self).selected == old(self).selected,
            final(self).should_quit == old(self).should_quit,
            final(self).lang == old(self).lang,
            final(self).now == old(self).now,
            final(self).mode matches Mode::Form(f) && f.editing is None && f.focus == 0,
            final(self).store == old(self).store,
    {
        self.mode = Mode::Form(FormState::new_add());
    }

    /// Opens the form on the selected person (nothing happens on an empty list).
    pub fn begin_edit(&mut self)
        requires
            old(self).wf(),
        ensures
            final(self).wf(),
            final(self).selected == old(self).selected,
            final(self).should_quit == old(self).should_quit,
            final(self).lang == old(self).lang,
            final(self).now == old(self).now,
            old(self).store.data.people.len() > 0 ==> (final(self).mode matches Mode::Form(f) && f.editing
                matches Some(a) && a@ == old(self).store.data.people@[old(self).selected as int].alias@),
            old(self).store.data.people.len() == 0 ==> final(self).mode == old(self).mode,
            final(self).store == old(self).store,
    {
        match self.selected_person() {
            Some(p) => {
                let f = FormState::from_person(p);
                self.mode = Mode::Form(f);
            },
            None => {},
        }
    }

    /// Validates the open form. On failure the form stays open showing the message; on
    /// success the caller imports the image (if any), then calls `apply_form`.
    /// `avatar_readable` is the result of probing the trimmed avatar path.
    pub fn submit_form(&mut self, avatar_readable: bool) -> (r: Option<FormOutput>)
        requires
            old(self).wf(),
        ensures
            final(self).wf(),
            final(self).should_quit == old(self).should_quit,
            final(self).lang == old(self).lang,
            final(self).now == old(self).now,
            final(self).store == old(self).store,
            final(self).selected == old(self).selected,
            !(old(self).mode matches Mode::Form(_)) ==> r is None && final(self).mode == old(self).mode,
            (old(self).mode matches Mode::Form(_)) && r is None ==> (final(self).mode matches Mode::Form(f)
                && f.error is Some),
            r is Some ==> final(self).mode == old(self).mode,
            old(self).mode matches Mode::Form(f) ==> (r is Some <==> crate::tui::form::form_accepts(
                f,
                old(self).store.data.people@,
                avatar_readable,
            )),
            r matches Some(out) ==> out.person.wf(),
            old(self).mode matches Mode::Form(f) ==> exists|res: Result<FormOutput, String>|
                #![trigger validated(f, old(self).lang, old(self).store.data.people@, avatar_readable, res)]
                validated(f, old(self).lang, old(self).store.data.people@, avatar_readable, res) && match res {
                    Ok(out) => r == Some(out) && final(self).mode == old(self).mode,
                    Err(m) => r is None && final(self).mode == Mode::Form(FormState { error: Some(m), ..f }),
                },
    {
        let result = match &self.mode {
            Mode::Form(form) => form.validate(self.lang, &self.store, avatar_readable),
            _ => return None,
        };
        match result {
            Ok(out) => Some(out),
            Err(m) => {
                self.form_error(m);
                None
            },
        }
    }

    /// Shows `message` in the open form.
    pub fn form_error(&mut self, message: String)
        requires
            old(self).wf(),
        ensures
            final(self).wf(),
            final(self).should_quit == old(self).should_quit,
            final(self).lang == old(self).lang,
            final(self).now == old(self).now,
            final(self).store == old(self).store,
            final(self).selected == old(self).selected,
            old(self).mode matches Mode::Form(f) ==> final(self).mode == Mode::Form(
                FormState { error: Some(message), ..f },
            ),
            !(old(self).mode matches Mode::Form(_)) ==> final(self).mode == old(self).mode,
    {
        match &mut self.mode {
            Mode::Form(f) => {
                f.error = Some(message);
            },
            _ => {},
        }
    }

    /// Stores a validated form: renames when the alias changed (the caller has moved the
    /// avatar file as `rename_check` said), replaces the edited person or adds the new
    /// one, then shows the list with that person selected. The caller saves afterwards.
    pub fn apply_form(&mut self, out: FormOutput, editing: bool) -> (r: Result<(), StoreError>)
        requires
            old(self).wf(),
            out.person.wf(),
        ensures
            final(self).wf(),
            final(self).should_quit == old(self).should_quit,
            final(self).lang == old(self).lang,
            final(self).now == old(self).now,
            r is Ok ==> final(self).mode matches Mode::List,
            r is Ok ==> has_alias(final(self).store.data.people@, out.person.alias@),
            r is Ok ==> final(self).store.data.people@[final(self).selected as int].alias@ == out.person.alias@,
            out.rename_from is None && !editing ==> (r is Ok <==> alias_ok(out.person.alias@) && !has_alias(
                old(self).store.data.people@,
                out.person.alias@,
            )),
            r is Ok && out.rename_from is None && !editing ==> final(self).store.data.people@.to_multiset()
                == old(self).store.data.people@.push(out.person).to_multiset(),
            out.rename_from is None && editing ==> (r is Ok <==> has_alias(old(self).store.data.people@, out.person.alias@)),
            r is Ok && out.rename_from is None && editing ==> final(self).store.data.people@.to_multiset()
                == old(self).store.data.people@.update(
                index_of(old(self).store.data.people@, out.person.alias@),
                out.person,
            ).to_multiset(),
            editing ==> (out.rename_from matches Some(from) ==> (r is Ok <==> {
                &&& alias_ok(out.person.alias@)
                &&& (from@ == out.person.alias@ || !has_alias(old(self).store.data.people@, out.person.alias@))
                &&& has_alias(old(self).store.data.people@, from@)
            })),
            (r is Ok && editing) ==> (out.rename_from matches Some(from) ==> final(self).store.data.people@.to_multiset()
                == old(self).store.data.people@.update(
                index_of(old(self).store.data.people@, from@),
                out.person,
            ).to_multiset()),
            r is Err ==> final(self).mode == old(self).mode,
            r is Ok ==> exists|ks: Seq<int>|
                sorted_by_keys(final(self).store.data.people@, old(self).store.data.settings.sort, old(self).now as int, ks),
    {
        let alias = out.person.alias.clone();
        match &out.rename_from {
            Some(old) => {
                let ghost before = self.store.data.people@;
                match self.store.rename(old.as_str(), alias.as_str()) {
                    Ok(()) => {},
                    Err(e) => return Err(e),
                }
                proof {
                    let i = index_of(before, old@);
                    crate::store::lemma_index_of(before, old@);
                    assert forall|k: int| 0 <= k < self.store.data.people.len() implies (#[trigger] self.store.data.people[k]).wf() by {
                        if k != i {
                            assert(self.store.data.people@[k] == before[k]);
                        }
                    }
                }
            },
            None => {},
        }
        let ghost mid = self.store.data.people@;
        if editing {
            proof {
                crate::store::lemma_index_of(mid, alias@);
                if let Some(from) = out.rename_from {
                    let before = old(self).store.data.people@;
                    let i = index_of(before, from@);
                    crate::store::lemma_index_of(before, from@);
                    // The renamed person is the first (and only) one with the new alias.
                    assert(mid[i].alias@ == alias@);
                    assert forall|k: int| 0 <= k < i implies (#[trigger] mid[k]).alias@ != alias@ by {
                        assert(mid[k] == before[k]);
                        if from@ != alias@ {
                            assert(!has_alias(before, alias@));
                        }
                    }
                    assert(has_alias(mid, alias@));
                    assert(index_of(mid, alias@) == i);
                    assert(mid.update(i, out.person) =~= before.update(i, out.person));
                }
            }
            match self.store.position(alias.as_str()) {
                Some(i) => {
                    self.store.replace(i, out.person);
                    proof {
                        assert(self.store.data.people@[i as int].alias@ == alias@);
                        assert forall|k: int| 0 <= k < self.store.data.people.len() implies (#[trigger] self.store.data.people[k]).wf() by {
                            if k != i {
                                assert(self.store.data.people@[k] == mid[k]);
                            }
                        }
                    }
                },
                None => return Err(StoreError::Unknown(alias)),
            }
        } else {
            match self.store.add(out.person) {
                Ok(()) => {},
                Err(e) => return Err(e),
            }
            proof {
                let n = mid.len() as int;
                assert(self.store.data.people@[n].alias@ == alias@);
                assert forall|k: int| 0 <= k < self.store.data.people.len() implies (#[trigger] self.store.data.people[k]).wf() by {
                    if k < n {
                        assert(self.store.data.people@[k] == mid[k]);
                    }
                }
            }
        }
        proof {
            assert(has_alias(self.store.data.people@, alias@));
        }
        self.mode = Mode::List;
        self.clamp();
        let ghost unsorted = self.store.data.people@;
        self.resort();
        proof {
            lemma_has_alias_permutation(unsorted, self.store.data.people@, alias@);
            crate::store::lemma_index_of(self.store.data.people@, alias@);
        }
        self.select_alias(alias.as_str());
        Ok(())
    }
}

/// An alias present in a list is present in any reordering of it.
proof fn lemma_has_alias_permutation(a: Seq<Person>, b: Seq<Person>, alias: Seq<char>)
    requires
        a.to_multiset() == b.to_multiset(),
        has_alias(a, alias),
    ensures
        has_alias(b, alias),
{
    broadcast use vstd::seq_lib::group_to_multiset_ensures;

    let w = choose|i: int| 0 <= i < a.len() && (#[trigger] a[i]).alias@ == alias;
    assert(a.to_multiset().count(a[w]) > 0);
    assert(b.to_multiset().count(a[w]) > 0);
    assert(b.contains(a[w]));
    let k = choose|k: int| 0 <= k < b.len() && b[k] == a[w];
    assert(b[k].alias@ == alias);
}

proof fn lemma_wf_permutation(a: Seq<Person>, b: Seq<Person>)
    requires
        a.to_multiset() == b.to_multiset(),
        forall|i: int| 0 <= i < a.len() ==> (#[trigger] a[i]).wf(),
    ensures
        forall|i: int| 0 <= i < b.len() ==> (#[trigger] b[i]).wf(),
{
    broadcast use vstd::seq_lib::group_to_multiset_ensures;

    assert forall|i: int| 0 <= i < b.len() implies (#[trigger] b[i]).wf() by {
        assert(b.to_multiset().count(b[i]) > 0);
        assert(a.to_multiset().count(b[i]) > 0);
        assert(a.contains(b[i]));
    }
}

} // verus!
