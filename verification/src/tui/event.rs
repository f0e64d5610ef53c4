//! Keys of the interactive view: which key does what in which popup, and one step of
//! the view per key press.
use vstd::prelude::*;

use crate::store::index_of;
use crate::model::Person;
use crate::tui::app::{App, Effect, Key, Mode, PickerKind, clamped, picker_applied};
use crate::tui::form::form_key_outcome;

verus! {

/// What a key press asks of the view.
#[derive(Clone, Copy, Debug, PartialEq, Eq, Structural)]
pub enum Action {
    /// Leave the program.
    Quit,
    MoveUp,
    MoveDown,
    /// Open the empty form.
    Add,
    /// Open the form on the selected person.
    Edit,
    /// Ask before deleting the selected person.
    AskDelete,
    /// Ask before dropping the selected person's avatar.
    AskRemoveAvatar,
    /// Open a picker.
    Pick(PickerKind),
    /// Delete the selected person (answer to the question).
    Delete,
    /// Drop the selected person's avatar (answer to the question).
    RemoveAvatar,
    /// Close the popup.
    Close,
    PickerUp,
    PickerDown,
    /// Apply the highlighted picker option.
    ApplyPicker,
    /// Hand the key to the open form.
    FormKey,
    /// The key means nothing here.
    Ignore,
}

/// Ctrl-C, which quits from everywhere.
pub open spec fn is_ctrl_c(key: Key, ctrl: bool) -> bool {
    ctrl && key == Key::Char('c')
}

/// The key map: what `key` asks in the popup `mode` shows.
pub open spec fn action_spec(mode: Mode, key: Key, ctrl: bool) -> Action {
    if is_ctrl_c(key, ctrl) {
        Action::Quit
    } else {
        match mode {
            Mode::List => match key {
                Key::Up | Key::Char('k') => Action::MoveUp,
                Key::Down | Key::Char('j') => Action::MoveDown,
                Key::Char('a') => Action::Add,
                Key::Char('e') => Action::Edit,
                Key::Char('d') => Action::AskDelete,
                Key::Char('s') => Action::Pick(PickerKind::Sort),
                Key::Char('v') => Action::Pick(PickerKind::View),
                Key::Char('l') => Action::Pick(PickerKind::Lang),
                Key::Char('x') => Action::AskRemoveAvatar,
                Key::Char('q') | Key::Esc => Action::Quit,
                _ => Action::Ignore,
            },
            Mode::ConfirmDelete => match key {
                Key::Char('y') | Key::Char('e') | Key::Enter => Action::Delete,
                Key::Char('n') | Key::Esc | Key::Char('q') => Action::Close,
                _ => Action::Ignore,
            },
            Mode::ConfirmRemoveAvatar => match key {
                Key::Char('y') | Key::Char('e') | Key::Enter => Action::RemoveAvatar,
                Key::Char('n') | Key::Esc | Key::Char('q') => Action::Close,
                _ => Action::Ignore,
            },
            Mode::Error(_) => Action::Close,
            Mode::Picker(_) => match key {
                Key::Up | Key::Char('k') => Action::PickerUp,
                Key::Down | Key::Char('j') => Action::PickerDown,
                Key::Enter => Action::ApplyPicker,
                Key::Esc | Key::Char('q') => Action::Close,
                _ => Action::Ignore,
            },
            Mode::Form(_) => Action::FormKey,
        }
    }
}

/// The list's keys, over every key and either state of Control: `↑`/`k` and `↓`/`j`
/// move, `a` adds, `e` edits the selected person, `d` asks to delete, `x` asks to drop
/// the avatar, `s`, `v` and `l` open the sort, view and language pickers, `q`, `Esc`
/// and Ctrl-C quit; each of these actions comes from those keys alone.
pub proof fn lemma_list_keys(key: Key, ctrl: bool)
    ensures
        ({
            let a = action_spec(Mode::List, key, ctrl);
            &&& a == Action::MoveUp <==> !is_ctrl_c(key, ctrl) && (key == Key::Up || key == Key::Char('k'))
            &&& a == Action::MoveDown <==> !is_ctrl_c(key, ctrl) && (key == Key::Down || key == Key::Char('j'))
            &&& a == Action::Add <==> !is_ctrl_c(key, ctrl) && key == Key::Char('a')
            &&& a == Action::Edit <==> !is_ctrl_c(key, ctrl) && key == Key::Char('e')
            &&& a == Action::AskDelete <==> !is_ctrl_c(key, ctrl) && key == Key::Char('d')
            &&& a == Action::AskRemoveAvatar <==> !is_ctrl_c(key, ctrl) && key == Key::Char('x')
            &&& a == Action::Pick(PickerKind::Sort) <==> !is_ctrl_c(key, ctrl) && key == Key::Char('s')
            &&& a == Action::Pick(PickerKind::View) <==> !is_ctrl_c(key, ctrl) && key == Key::Char('v')
            &&& a == Action::Pick(PickerKind::Lang) <==> !is_ctrl_c(key, ctrl) && key == Key::Char('l')
            &&& a == Action::Quit <==> is_ctrl_c(key, ctrl) || key == Key::Char('q') || key == Key::Esc
        }),
{
}

/// The key map, as `action_spec` states it.
pub fn action_for(mode: &Mode, key: Key, ctrl: bool) -> (a: Action)
    ensures
        a == action_spec(*mode, key, ctrl),
        *mode == Mode::List && key == Key::Up ==> a == Action::MoveUp,
        *mode == Mode::List && key == Key::Down ==> a == Action::MoveDown,
        *mode == Mode::List && key == Key::Char('k') ==> a == Action::MoveUp,
        *mode == Mode::List && key == Key::Char('j') ==> a == Action::MoveDown,
        *mode == Mode::List && key == Key::Char('a') ==> a == Action::Add,
        *mode == Mode::List && key == Key::Char('e') ==> a == Action::Edit,
        *mode == Mode::List && key == Key::Char('d') ==> a == Action::AskDelete,
        *mode == Mode::List && key == Key::Char('s') ==> a == Action::Pick(PickerKind::Sort),
        *mode == Mode::List && key == Key::Char('v') ==> a == Action::Pick(PickerKind::View),
        *mode == Mode::List && key == Key::Char('l') ==> a == Action::Pick(PickerKind::Lang),
        *mode == Mode::List && key == Key::Char('x') ==> a == Action::AskRemoveAvatar,
        *mode == Mode::List && key == Key::Char('q') ==> a == Action::Quit,
        *mode == Mode::List && key == Key::Esc ==> a == Action::Quit,
        ctrl && key == Key::Char('c') ==> a == Action::Quit,
{
    if ctrl && key == Key::Char('c') {
        return Action::Quit;
    }
    match mode {
        Mode::List => match key {
            Key::Up | Key::Char('k') => Action::MoveUp,
            Key::Down | Key::Char('j') => Action::MoveDown,
            Key::Char('a') => Action::Add,
            Key::Char('e') => Action::Edit,
            Key::Char('d') => Action::AskDelete,
            Key::Char('s') => Action::Pick(PickerKind::Sort),
            Key::Char('v') => Action::Pick(PickerKind::View),
            Key::Char('l') => Action::Pick(PickerKind::Lang),
            Key::Char('x') => Action::AskRemoveAvatar,
            Key::Char('q') | Key::Esc => Action::Quit,
            _ => Action::Ignore,
        },
        Mode::ConfirmDelete => match key {
            Key::Char('y') | Key::Char('e') | Key::Enter => Action::Delete,
            Key::Char('n') | Key::Esc | Key::Char('q') => Action::Close,
            _ => Action::Ignore,
        },
        Mode::ConfirmRemoveAvatar => match key {
            Key::Char('y') | Key::Char('e') | Key::Enter => Action::RemoveAvatar,
            Key::Char('n') | Key::Esc | Key::Char('q') => Action::Close,
            _ => Action::Ignore,
        },
        Mode::Error(_) => Action::Close,
        Mode::Picker(_) => match key {
            Key::Up | Key::Char('k') => Action::PickerUp,
            Key::Down | Key::Char('j') => Action::PickerDown,
            Key::Enter => Action::ApplyPicker,
            Key::Esc | Key::Char('q') => Action::Close,
            _ => Action::Ignore,
        },
        Mode::Form(_) => Action::FormKey,
    }
}

/// One step of the view for a key press (`ctrl` tells whether Control was held).
/// The caller performs the returned effect.
pub fn handle_key(app: &mut App, key: Key, ctrl: bool) -> (e: Effect)
    requires
        old(app).wf(),
    ensures
        final(app).wf(),
        ({
            let o = *old(app);
            let f = *final(app);
            let n = o.store.data.people.len();
            match action_spec(o.mode, key, ctrl) {
                Action::Quit => f.should_quit && f.store == o.store && f.mode == o.mode && e is Nothing,
                Action::MoveUp => f.selected == (if o.selected == 0 { 0 } else { (o.selected - 1) as usize })
                    && f.store == o.store && f.mode == o.mode && e is Nothing,
                Action::MoveDown => f.selected == (if o.selected + 1 < n { (o.selected + 1) as usize } else { o.selected })
                    && f.store == o.store && f.mode == o.mode && e is Nothing,
                Action::Add => (f.mode matches Mode::Form(g) && g.editing is None) && f.store == o.store
                    && f.selected == o.selected && e is Nothing,
                Action::Edit => (n > 0 ==> (f.mode matches Mode::Form(g) && g.editing matches Some(a) && a@
                    == o.store.data.people@[o.selected as int].alias@)) && (n == 0 ==> f.mode == o.mode)
                    && f.store == o.store && f.selected == o.selected && e is Nothing,
                Action::AskDelete => (n > 0 ==> f.mode matches Mode::ConfirmDelete) && (n == 0 ==> f.mode
                    == o.mode) && f.store == o.store && f.selected == o.selected && e is Nothing,
                Action::AskRemoveAvatar => ((n > 0 && o.store.data.people@[o.selected as int].avatar) ==> f.mode
                    matches Mode::ConfirmRemoveAvatar) && (!(n > 0 && o.store.data.people@[o.selected as int].avatar)
                    ==> f.mode == o.mode) && f.store == o.store && f.selected == o.selected && e is Nothing,
                Action::Pick(k) => (f.mode matches Mode::Picker(p) && p.kind == k) && f.store == o.store
                    && f.selected == o.selected && e is Nothing,
                Action::Delete => (f.mode matches Mode::List) && (n > 0 ==> {
                    let p = o.store.data.people@[o.selected as int];
                    let i = index_of(o.store.data.people@, p.alias@);
                    &&& f.store.data.people@ == o.store.data.people@.remove(i)
                    &&& e matches Effect::Deleted { alias, avatar } && alias@ == p.alias@ && avatar
                        == o.store.data.people@[i].avatar
                }) && (n == 0 ==> f.store == o.store && e is Nothing) && f.selected == clamped(
                    o.selected as int,
                    f.store.data.people.len() as int,
                ),
                Action::RemoveAvatar => (f.mode matches Mode::List) && f.store.data.people.len() == n && (n > 0
                    ==> {
                    let p = o.store.data.people@[o.selected as int];
                    let j = index_of(o.store.data.people@, p.alias@);
                    &&& e matches Effect::AvatarRemoved { alias } && alias@ == p.alias@
                    &&& f.store.data.people@ == o.store.data.people@.update(
                        j,
                        Person { avatar: false, pixel: false, ..o.store.data.people@[j] },
                    )
                }) && (n == 0 ==> f.store == o.store && e is Nothing) && f.selected == o.selected,
                Action::Close => (f.mode matches Mode::List) && f.store == o.store && f.selected == o.selected
                    && e is Nothing,
                Action::PickerUp => (o.mode matches Mode::Picker(p) && f.mode matches Mode::Picker(q) && q.kind
                    == p.kind && q.items == p.items && q.selected == (if p.selected == 0 { 0 } else { (p.selected
                    - 1) as usize })) && f.store == o.store && e is Nothing,
                Action::PickerDown => (o.mode matches Mode::Picker(p) && f.mode matches Mode::Picker(q) && q.kind
                    == p.kind && q.items == p.items && q.selected == (if p.selected + 1 < p.items.len() {
                    (p.selected + 1) as usize
                } else {
                    p.selected
                })) && f.store == o.store && e is Nothing,
                Action::ApplyPicker => (o.mode matches Mode::Picker(p) && picker_applied(p, o, f)) && e is Save,
                Action::FormKey => (o.mode matches Mode::Form(g) && form_key_outcome(g, key, ctrl, f.mode))
                    && f.store == o.store && f.selected == o.selected && f.should_quit == o.should_quit,
                Action::Ignore => f == o && e is Nothing,
            }
        }),
        action_spec(old(app).mode, key, ctrl) == Action::FormKey ==> e == crate::tui::form::form_effect(key),
{
    match action_for(&app.mode, key, ctrl) {
        Action::Quit => {
            app.should_quit = true;
            Effect::Nothing
        },
        Action::MoveUp => {
            app.move_up();
            Effect::Nothing
        },
        Action::MoveDown => {
            app.move_down();
            Effect::Nothing
        },
        Action::Add => {
            app.begin_add();
            Effect::Nothing
        },
        Action::Edit => {
            app.begin_edit();
            Effect::Nothing
        },
        Action::AskDelete => {
            app.begin_delete();
            Effect::Nothing
        },
        Action::AskRemoveAvatar => {
            app.begin_remove_avatar();
            Effect::Nothing
        },
        Action::Pick(k) => {
            app.open_picker(k);
            Effect::Nothing
        },
        Action::Delete => app.confirm_delete(),
        Action::RemoveAvatar => app.confirm_remove_avatar(),
        Action::Close => {
            app.cancel();
            Effect::Nothing
        },
        Action::PickerUp => {
            match &mut app.mode {
                Mode::Picker(p) => p.up(),
                _ => {},
            }
            Effect::Nothing
        },
        Action::PickerDown => {
            match &mut app.mode {
                Mode::Picker(p) => p.down(),
                _ => {},
            }
            Effect::Nothing
        },
        Action::ApplyPicker => app.confirm_picker(),
        Action::FormKey => crate::tui::form::handle_key(app, key, ctrl),
        Action::Ignore => Effect::Nothing,
    }
}

} // verus!
