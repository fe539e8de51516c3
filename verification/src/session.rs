//! The interactive session: a single-writer state machine.
//!
//! The session owns the decrypted store.  A polling thread (outside this
//! library) turns terminal input into [`Event`] values; the main loop
//! feeds each key to [`Session::handle_key`], which applies exactly one
//! transition and reports what outside work is wanted: nothing, a
//! clipboard copy, or quitting.  Rendering reads the session; it never
//! mutates it.

use vstd::prelude::*;
use crate::display::chars_to_string;
use crate::entry::DatabaseFile;
use crate::store::{
    has_entry, is_first_match, spec_blank_entry, spec_entries_without, spec_field,
    spec_updated_entries,
};

verus! {

/// What the polling thread sends: one input, or a timer tick asking for a
/// redraw.
pub enum Event<I> {
    Input(I),
    Tick,
}

/// Which view is active.
#[derive(Clone, Copy, PartialEq, Eq, Structural, Debug)]
pub enum MenuItem {
    Home,
    PasswordEntries,
    SelctedEntry,
}

/// Whether keys navigate or edit the buffer.
#[derive(Clone, Copy, PartialEq, Eq, Structural, Debug)]
pub enum InputMode {
    Navigation,
    Editing,
}

/// The keys the state machine distinguishes.
#[derive(Clone, Copy, PartialEq, Eq, Structural, Debug)]
pub enum Key {
    Char(char),
    Up,
    Down,
    Left,
    Right,
    Enter,
    Backspace,
    Esc,
    Other,
}

/// What the caller must do after a transition.
pub enum Action {
    /// Nothing beyond redrawing.
    Nothing,
    /// Put this text on the system clipboard.
    Copy(String),
    /// Leave the loop and save the vault.
    Quit,
}

/// The edit-buffer state: the buffer, its cursor, the mode, and the
/// history of committed messages.
pub struct App {
    /// The characters in the edit buffer.
    pub input: Vec<char>,
    /// Current input mode.
    pub input_mode: InputMode,
    /// History of committed messages; only the last one is ever applied.
    pub message: Vec<String>,
    /// Cursor position in `input`, between 0 and the buffer length.
    pub input_index: usize,
}

impl Default for App {
    /// An empty buffer in navigation mode with no history.
    fn default() -> (r: App)
        ensures
            r.input@ == Seq::<char>::empty(),
            r.input_mode == InputMode::Navigation,
            r.message@ == Seq::<String>::empty(),
            r.input_index == 0,
    {
        App { input: Vec::new(), input_mode: InputMode::Navigation, message: Vec::new(), input_index: 0 }
    }
}

/// A cursor into one of the lists, mirroring the terminal widget's
/// selection state.
#[derive(Clone, Copy, PartialEq, Eq, Structural, Debug)]
pub struct ListSelection {
    pub selected: Option<usize>,
}

/// The views of the committed messages.
pub open spec fn messages_view(ms: Seq<String>) -> Seq<Seq<char>> {
    ms.map_values(|m: String| m@)
}

/// Where a downward step lands: one past the selection, wrapping to the
/// top past the last element; frozen on an empty list or no selection.
pub open spec fn spec_wrap_down(sel: Option<usize>, count: usize) -> Option<usize> {
    match sel {
        None => None,
        Some(s) => if count == 0 {
            Some(s)
        } else if s >= (count - 1) as usize {
            Some(0usize)
        } else {
            Some((s + 1) as usize)
        },
    }
}

/// Where an upward step lands: one before the selection, wrapping to the
/// bottom before the first element; frozen on an empty list or no
/// selection.
pub open spec fn spec_wrap_up(sel: Option<usize>, count: usize) -> Option<usize> {
    match sel {
        None => None,
        Some(s) => if count == 0 {
            Some(s)
        } else if s > 0 {
            Some((s - 1) as usize)
        } else {
            Some((count - 1) as usize)
        },
    }
}

/// Move the selection one down in whichever list the active view shows,
/// wrapping at the end.  An empty list is a guarded no-op.
pub fn key_down(
    active_menu_item: MenuItem,
    password_entires_list_state: &mut ListSelection,
    detail_list_state: &mut ListSelection,
    db: &DatabaseFile,
    attribute_count: &usize,
)
    ensures
        active_menu_item == MenuItem::PasswordEntries ==> final(password_entires_list_state).selected == spec_wrap_down(
            old(password_entires_list_state).selected,
            db.entries.len(),
        ) && *final(detail_list_state) == *old(detail_list_state),
        active_menu_item == MenuItem::SelctedEntry ==> final(detail_list_state).selected
            == spec_wrap_down(old(detail_list_state).selected, *attribute_count) && *final(password_entires_list_state) == *old(password_entires_list_state),
        active_menu_item == MenuItem::Home ==> *final(password_entires_list_state) == *old(password_entires_list_state) && *final(detail_list_state) == *old(detail_list_state),
{
    if active_menu_item == MenuItem::PasswordEntries {
        let amount_entries = db.entries.len();
        if amount_entries == 0 {
            return ;
        }
        if let Some(selected) = password_entires_list_state.selected {
            if selected >= amount_entries - 1 {
                password_entires_list_state.selected = Some(0);
            } else {
                password_entires_list_state.selected = Some(selected + 1);
            }
        }
    } else if active_menu_item == MenuItem::SelctedEntry {
        if *attribute_count == 0 {
            return ;
        }
        if let Some(selected) = detail_list_state.selected {
            if selected >= *attribute_count - 1 {
                detail_list_state.selected = Some(0);
            } else {
                detail_list_state.selected = Some(selected + 1);
            }
        }
    }
}

/// Move the selection one up in whichever list the active view shows,
/// wrapping at the start.  An empty list is a guarded no-op.
pub fn key_up(
    active_menu_item: MenuItem,
    password_entires_list_state: &mut ListSelection,
    detail_list_state: &mut ListSelection,
    db: &DatabaseFile,
    attribute_count: &usize,
)
    ensures
        active_menu_item == MenuItem::PasswordEntries ==> final(password_entires_list_state).selected == spec_wrap_up(
            old(password_entires_list_state).selected,
            db.entries.len(),
        ) && *final(detail_list_state) == *old(detail_list_state),
        active_menu_item == MenuItem::SelctedEntry ==> final(detail_list_state).selected
            == spec_wrap_up(old(detail_list_state).selected, *attribute_count) && *final(password_entires_list_state) == *old(password_entires_list_state),
        active_menu_item == MenuItem::Home ==> *final(password_entires_list_state) == *old(password_entires_list_state) && *final(detail_list_state) == *old(detail_list_state),
{
    if active_menu_item == MenuItem::PasswordEntries {
        let amount_entries = db.entries.len();
        if amount_entries == 0 {
            return ;
        }
        if let Some(selected) = password_entires_list_state.selected {
            if selected > 0 {
                password_entires_list_state.selected = Some(selected - 1);
            } else {
                password_entires_list_state.selected = Some(amount_entries - 1);
            }
        }
    } else if active_menu_item == MenuItem::SelctedEntry {
        if *attribute_count == 0 {
            return ;
        }
        if let Some(selected) = detail_list_state.selected {
            if selected > 0 {
                detail_list_state.selected = Some(selected - 1);
            } else {
                detail_list_state.selected = Some(*attribute_count - 1);
            }
        }
    }
}

/// The characters of a string, as a vector.
fn string_chars(s: &str) -> (r: Vec<char>)
    ensures
        r@ == s@,
{
    let n = s.unicode_len();
    let mut out: Vec<char> = Vec::new();
    let mut k: usize = 0;
    while k < n
        invariant
            n == s@.len(),
            0 <= k <= n,
            out@ == s@.take(k as int),
        decreases n - k,
    {
        out.push(s.get_char(k));
        proof {
            assert(out@ =~= s@.take(k + 1));
        }
        k = k + 1;
    }
    proof {
        assert(s@.take(n as int) =~= s@);
    }
    out
}

/// Commit the edit buffer: push it onto the history, apply it to the
/// selected field of the selected entry, and return to navigation mode
/// with an empty buffer.
pub fn key_enter(
    app: &mut App,
    password_entires_list_state: &mut ListSelection,
    detail_list_state: &mut ListSelection,
    db: &mut DatabaseFile,
)
    requires
        old(password_entires_list_state).selected matches Some(ie) && ie < old(db)@.entries.len(),
        old(detail_list_state).selected is Some,
    ensures
        *final(password_entires_list_state) == *old(password_entires_list_state),
        *final(detail_list_state) == *old(detail_list_state),
        final(app).input@ == Seq::<char>::empty(),
        final(app).input_index == 0,
        final(app).input_mode == InputMode::Navigation,
        messages_view(final(app).message@) == messages_view(old(app).message@).push(
            old(app).input@,
        ),
        ({
            let ie = old(password_entires_list_state).selected.unwrap();
            let idx = old(detail_list_state).selected.unwrap();
            let id = old(db)@.entries[ie as int].id;
            exists|i: int|
                #[trigger] is_first_match(old(db)@.entries, id, i) && exists|ts: Seq<char>|
                    final(db)@.entries == #[trigger] spec_updated_entries(
                        old(db)@.entries,
                        i,
                        idx as int,
                        old(app).input@,
                        ts,
                    )
        }),
        final(db)@.config == old(db)@.config,
        final(db)@.last_access == old(db)@.last_access,
        final(db)@.password == old(db)@.password,
{
    let committed = chars_to_string(&app.input);
    app.message.push(committed);
    let index_entries = match password_entires_list_state.selected {
        Some(i) => i,
        None => {
            proof {
                assert(false);
            }
            0
        },
    };
    let index_detail = match detail_list_state.selected {
        Some(i) => i,
        None => {
            proof {
                assert(false);
            }
            0
        },
    };
    let id = db.entries[index_entries].id.clone();
    proof {
        assert(old(db)@.entries[index_entries as int].id == id@);
        assert(has_entry(db@.entries, id@));
    }
    let history = app.message.clone();
    proof {
        assert forall|k: int| 0 <= k < app.message@.len() implies history@[k] == app.message@[k] by {
        }
        assert(history@ =~= app.message@);
        assert(crate::store::applied_message_of(history@) == old(app).input@) by {
            assert(messages_view(history@).last() == old(app).input@);
        }
    }
    db.update_entry(index_detail, id, history);
    app.input = Vec::new();
    app.input_mode = InputMode::Navigation;
    app.input_index = 0;
    proof {
        assert(messages_view(final(app).message@) =~= messages_view(old(app).message@).push(
            old(app).input@,
        ));
    }
}

/// In the detail view, the value of the field the cursor rests on, to be
/// put on the clipboard by the caller; `None` in every other view.
pub fn key_code_c(
    active_menu_item: MenuItem,
    password_entires_list_state: &ListSelection,
    detail_list_state: &ListSelection,
    db: &DatabaseFile,
) -> (r: Option<String>)
    requires
        active_menu_item == MenuItem::SelctedEntry ==> (
        password_entires_list_state.selected matches Some(ie) && ie < db@.entries.len())
            && detail_list_state.selected is Some,
    ensures
        active_menu_item != MenuItem::SelctedEntry ==> r is None,
        active_menu_item == MenuItem::SelctedEntry ==> (r matches Some(s) && s@ == spec_field(
            db@.entries[password_entires_list_state.selected.unwrap() as int],
            detail_list_state.selected.unwrap() as int,
        )),
{
    if active_menu_item != MenuItem::SelctedEntry {
        return None;
    }
    let index_entries = match password_entires_list_state.selected {
        Some(i) => i,
        None => {
            proof {
                assert(false);
            }
            0
        },
    };
    let index_detail = match detail_list_state.selected {
        Some(i) => i,
        None => {
            proof {
                assert(false);
            }
            0
        },
    };
    let e = &db.entries[index_entries];
    let value = if index_detail == 0 {
        e.title.clone()
    } else if index_detail == 1 {
        e.name.clone()
    } else if index_detail == 2 {
        e.value.clone()
    } else if index_detail == 3 {
        e.url.clone()
    } else if index_detail == 4 {
        e.comment.clone()
    } else {
        String::new()
    };
    Some(value)
}

/// How many editable fields the detail view shows.
pub const DETAIL_FIELD_COUNT: usize = 5;

/// One interactive session: the decrypted store and all view state.
pub struct Session {
    pub db: DatabaseFile,
    pub app: App,
    pub active_menu_item: MenuItem,
    pub entry_list: ListSelection,
    pub detail_list: ListSelection,
    pub attribute_count: usize,
    pub show_value: bool,
}


/// The navigation-mode transition relation: what one key does to the
/// session and which action it asks of the caller.
///
/// `h` and `p` switch views and mask the secret again, `a` appends a
/// blank entry and jumps to its detail view with it selected, `s` selects
/// an entry or toggles the mask, `r` removes the selected entry under its
/// guards, `c` asks for a copy of the selected field, `e` seeds the edit
/// buffer from that field with the cursor at its end, `q` asks to quit,
/// the arrows move the cursors with wrap-around, and every other key
/// changes nothing.  Vault metadata and the passphrase are never touched,
/// and only `q` ever asks to quit.
pub open spec fn navigation_step(pre: Session, key: Key, post: Session, r: Action) -> bool {
    &&& post.db@.config == pre.db@.config
    &&& post.db@.password == pre.db@.password
    &&& post.db@.last_access == pre.db@.last_access
    &&& (post.app.input_mode == InputMode::Navigation || (post.app.input_mode
        == InputMode::Editing && key == Key::Char('e')))
    &&& (r is Quit ==> key == Key::Char('q') && post == pre)
    &&& (key == Key::Char('h') ==> post == (Session {
        active_menu_item: MenuItem::Home,
        show_value: false,
        ..pre
    }) && r is Nothing)
    &&& (key == Key::Char('p') ==> post == (Session {
        active_menu_item: MenuItem::PasswordEntries,
        show_value: false,
        ..pre
    }) && r is Nothing)
    &&& (key == Key::Char('q') ==> post == pre && r is Quit)
    &&& (key == Key::Char('a') && pre.active_menu_item == MenuItem::PasswordEntries ==> (exists|
        id: Seq<char>,
        ts: Seq<char>,
    |
        post.db@.entries == pre.db@.entries.push(#[trigger] spec_blank_entry(id, ts)))
        && post.active_menu_item == MenuItem::SelctedEntry && post.entry_list.selected == Some(
        (post.db@.entries.len() - 1) as usize,
    ) && r is Nothing)
    &&& (key == Key::Char('a') && pre.active_menu_item != MenuItem::PasswordEntries ==> post
        == pre && r is Nothing)
    &&& (key == Key::Char('c') ==> post == pre && (pre.active_menu_item == MenuItem::SelctedEntry
        ==> (r matches Action::Copy(s) && s@ == spec_field(
        pre.db@.entries[pre.entry_list.selected.unwrap() as int],
        pre.detail_list.selected.unwrap() as int,
    ))) && (pre.active_menu_item != MenuItem::SelctedEntry ==> r is Nothing))
    &&& (key == Key::Char('r') ==> r is Nothing && post.app == pre.app && (pre.active_menu_item
        == MenuItem::PasswordEntries && pre.db@.entries.len() > 0
        && pre.entry_list.selected.unwrap() < pre.db@.entries.len() ==> post.db@.entries
        == spec_entries_without(
        pre.db@.entries,
        pre.db@.entries[pre.entry_list.selected.unwrap() as int].id,
    )) && (!(pre.active_menu_item == MenuItem::PasswordEntries && pre.db@.entries.len() > 0
        && pre.entry_list.selected.unwrap() < pre.db@.entries.len()) ==> post == pre))
    &&& (key == Key::Char('s') && pre.active_menu_item == MenuItem::PasswordEntries ==> r
        is Nothing && post.db == pre.db && (pre.db@.entries.len() > 0
        && pre.entry_list.selected.unwrap() < pre.db@.entries.len() ==> post == (Session {
        active_menu_item: MenuItem::SelctedEntry,
        ..pre
    })) && (!(pre.db@.entries.len() > 0 && pre.entry_list.selected.unwrap()
        < pre.db@.entries.len()) ==> post == pre))
    &&& (key == Key::Char('s') && pre.active_menu_item == MenuItem::SelctedEntry ==> post == (
    Session { show_value: !pre.show_value, ..pre }) && r is Nothing)
    &&& (key == Key::Char('e') ==> r is Nothing && post.db == pre.db && (pre.active_menu_item
        == MenuItem::SelctedEntry ==> post.app.input_mode == InputMode::Editing && (exists|i: int|
        #[trigger] is_first_match(
            pre.db@.entries,
            pre.db@.entries[pre.entry_list.selected.unwrap() as int].id,
            i,
        ) && post.app.input@ == spec_field(
            pre.db@.entries[i],
            pre.detail_list.selected.unwrap() as int,
        )) && post.app.input_index == post.app.input@.len()) && (pre.active_menu_item
        != MenuItem::SelctedEntry ==> post == pre))
    &&& (key == Key::Down ==> r is Nothing && post.db == pre.db && post.app == pre.app
        && post.entry_list.selected == (if pre.active_menu_item == MenuItem::PasswordEntries {
        spec_wrap_down(pre.entry_list.selected, pre.db.entries.len())
    } else {
        pre.entry_list.selected
    }) && post.detail_list.selected == (if pre.active_menu_item == MenuItem::SelctedEntry {
        spec_wrap_down(pre.detail_list.selected, pre.attribute_count)
    } else {
        pre.detail_list.selected
    }))
    &&& (key == Key::Up ==> r is Nothing && post.db == pre.db && post.app == pre.app
        && post.entry_list.selected == (if pre.active_menu_item == MenuItem::PasswordEntries {
        spec_wrap_up(pre.entry_list.selected, pre.db.entries.len())
    } else {
        pre.entry_list.selected
    }) && post.detail_list.selected == (if pre.active_menu_item == MenuItem::SelctedEntry {
        spec_wrap_up(pre.detail_list.selected, pre.attribute_count)
    } else {
        pre.detail_list.selected
    }))
    &&& ((key == Key::Left || key == Key::Right || key == Key::Enter || key == Key::Backspace
        || key == Key::Esc || key == Key::Other) ==> post == pre && r is Nothing)
    &&& (forall|c: char|
        #![auto]
        key == Key::Char(c) && c != 'a' && c != 'c' && c != 'e' && c != 'h' && c != 'p' && c != 'q'
            && c != 'r' && c != 's' ==> post == pre && r is Nothing)
}

/// The editing-mode transition relation: what one key does to the edit
/// buffer and the store.
///
/// Characters insert at the cursor, Backspace deletes before it, Left and
/// Right move it within the buffer, Enter commits the buffer through the
/// store and returns to navigation, Escape discards the buffer unsaved.
/// The view, the cursors, vault metadata and the passphrase stay as they
/// are, and the caller is never asked to do anything.
pub open spec fn editing_step(pre: Session, key: Key, post: Session, r: Action) -> bool {
    &&& r is Nothing
    &&& post.db@.config == pre.db@.config
    &&& post.db@.password == pre.db@.password
    &&& post.db@.last_access == pre.db@.last_access
    &&& post.active_menu_item == pre.active_menu_item
    &&& post.entry_list == pre.entry_list
    &&& post.detail_list == pre.detail_list
    &&& post.show_value == pre.show_value
    &&& (key == Key::Enter ==> post.app.input_mode == InputMode::Navigation && post.app.input@
        == Seq::<char>::empty() && post.app.input_index == 0 && messages_view(post.app.message@)
        == messages_view(pre.app.message@).push(pre.app.input@) && ({
        let ie = pre.entry_list.selected.unwrap();
        let idx = pre.detail_list.selected.unwrap();
        let id = pre.db@.entries[ie as int].id;
        exists|i: int|
            #[trigger] is_first_match(pre.db@.entries, id, i) && exists|ts: Seq<char>|
                post.db@.entries == #[trigger] spec_updated_entries(
                    pre.db@.entries,
                    i,
                    idx as int,
                    pre.app.input@,
                    ts,
                )
    }))
    &&& (key == Key::Esc ==> post.app.input_mode == InputMode::Navigation && post.app.input@
        == Seq::<char>::empty() && post.app.input_index == 0 && post.app.message
        == pre.app.message && post.db == pre.db)
    &&& (forall|c: char|
        key == Key::Char(c) ==> post.db == pre.db && post.app.input_mode == InputMode::Editing
            && post.app.message == pre.app.message && (pre.app.input@.len() < usize::MAX
            ==> post.app.input@ == pre.app.input@.insert(pre.app.input_index as int, c)
            && post.app.input_index == pre.app.input_index + 1) && (pre.app.input@.len()
            >= usize::MAX ==> post.app == pre.app))
    &&& (key == Key::Backspace ==> post.db == pre.db && post.app.message == pre.app.message
        && post.app.input_mode == InputMode::Editing && (pre.app.input_index > 0
        ==> post.app.input@ == pre.app.input@.remove(pre.app.input_index - 1)
        && post.app.input_index == pre.app.input_index - 1) && (pre.app.input_index == 0
        ==> post.app == pre.app))
    &&& (key == Key::Right ==> post.app.input@ == pre.app.input@ && post.db == pre.db
        && post.app.message == pre.app.message && post.app.input_mode == InputMode::Editing
        && post.app.input_index == (if pre.app.input_index < pre.app.input@.len() {
        (pre.app.input_index + 1) as usize
    } else {
        pre.app.input_index
    }))
    &&& (key == Key::Left ==> post.app.input@ == pre.app.input@ && post.db == pre.db
        && post.app.message == pre.app.message && post.app.input_mode == InputMode::Editing
        && post.app.input_index == (if pre.app.input_index > 0 {
        (pre.app.input_index - 1) as usize
    } else {
        pre.app.input_index
    }))
    &&& ((key == Key::Up || key == Key::Down || key == Key::Other) ==> post == pre)
}

impl Session {
    /// The state the machine keeps in shape: both cursors exist, the edit
    /// cursor stays inside the buffer, the detail view always rests on an
    /// entry inside the store, and editing happens only in the detail
    /// view.
    pub open spec fn wf(self) -> bool {
        &&& self.entry_list.selected is Some
        &&& self.detail_list.selected is Some
        &&& self.app.input_index <= self.app.input@.len()
        &&& self.active_menu_item == MenuItem::SelctedEntry ==> self.entry_list.selected.unwrap()
            < self.db@.entries.len()
        &&& self.app.input_mode == InputMode::Editing ==> self.active_menu_item
            == MenuItem::SelctedEntry
    }

    /// A fresh session over a just-opened store: home view, both cursors
    /// on the first position, secrets masked.
    pub fn new(db: DatabaseFile) -> (s: Session)
        ensures
            s.wf(),
            s.db == db,
            s.active_menu_item == MenuItem::Home,
            s.app.input_mode == InputMode::Navigation,
            s.show_value == false,
            s.entry_list.selected == Some(0usize),
            s.detail_list.selected == Some(0usize),
    {
        Session {
            db,
            app: App::default(),
            active_menu_item: MenuItem::Home,
            entry_list: ListSelection { selected: Some(0) },
            detail_list: ListSelection { selected: Some(0) },
            attribute_count: 0,
            show_value: false,
        }
    }

    /// Apply one key in navigation mode and say what the caller must do.
    ///
    /// The transitions are those of the interactive loop: `h` and `p`
    /// switch views and mask the secret again, `a` creates an entry and
    /// jumps to its detail view, `s` selects or toggles the mask, `r`
    /// removes the selected entry, `c` asks for a clipboard copy, `e`
    /// seeds the edit buffer from the selected field with the cursor at
    /// its end, `q` asks to quit, and the arrows move the cursors with
    /// wrap-around.  Everything is a guarded no-op when its view or
    /// selection does not apply.
    #[verifier::rlimit(100)]
    fn handle_navigation_key(&mut self, key: Key) -> (r: Action)
        requires
            old(self).wf(),
            old(self).app.input_mode == InputMode::Navigation,
        ensures
            final(self).wf(),
            navigation_step(*old(self), key, *final(self), r),
    {
        match key {
            Key::Char(c) => {
                if c == 'a' {
                    if self.active_menu_item == MenuItem::PasswordEntries {
                        self.db.add_empty_entry();
                        self.active_menu_item = MenuItem::SelctedEntry;
                        self.entry_list.selected = Some(self.db.entries.len() - 1);
                    }
                    Action::Nothing
                } else if c == 'c' {
                    match key_code_c(
                        self.active_menu_item,
                        &self.entry_list,
                        &self.detail_list,
                        &self.db,
                    ) {
                        Some(value) => Action::Copy(value),
                        None => Action::Nothing,
                    }
                } else if c == 'e' {
                    if self.active_menu_item == MenuItem::SelctedEntry {
                        self.app.input_mode = InputMode::Editing;
                        let index_entries = match self.entry_list.selected {
                            Some(i) => i,
                            None => {
                                proof {
                                    assert(false);
                                }
                                0
                            },
                        };
                        let index_detail = match self.detail_list.selected {
                            Some(i) => i,
                            None => {
                                proof {
                                    assert(false);
                                }
                                0
                            },
                        };
                        let id = self.db.entries[index_entries].id.clone();
                        proof {
                            assert(has_entry(self.db@.entries, id@));
                        }
                        let value = self.db.get_value_from_selected_detail(index_detail, id);
                        proof {
                            let entries = self.db@.entries;
                            let i0 = choose|i: int|
                                is_first_match(entries, entries[index_entries as int].id, i)
                                    && value@ == spec_field(entries[i], index_detail as int);
                            assert(is_first_match(entries, entries[index_entries as int].id, i0));
                        }
                        self.app.input = string_chars(value.as_str());
                        self.app.input_index = self.app.input.len();
                    }
                    Action::Nothing
                } else if c == 'h' {
                    self.active_menu_item = MenuItem::Home;
                    self.show_value = false;
                    Action::Nothing
                } else if c == 'p' {
                    self.active_menu_item = MenuItem::PasswordEntries;
                    self.show_value = false;
                    Action::Nothing
                } else if c == 'q' {
                    Action::Quit
                } else if c == 'r' {
                    let password_len = self.db.entries.len();
                    let selected_ok = match self.entry_list.selected {
                        Some(i) => i < password_len,
                        None => false,
                    };
                    if self.active_menu_item == MenuItem::PasswordEntries && password_len != 0
                        && selected_ok {
                        let index_entries = match self.entry_list.selected {
                            Some(i) => i,
                            None => {
                                proof {
                                    assert(false);
                                }
                                0
                            },
                        };
                        let id = self.db.entries[index_entries].id.clone();
                        self.db.remove_entry_by_id(id);
                    }
                    Action::Nothing
                } else if c == 's' {
                    if self.active_menu_item == MenuItem::PasswordEntries {
                        let password_len = self.db.entries.len();
                        let selected_ok = match self.entry_list.selected {
                            Some(i) => i < password_len,
                            None => false,
                        };
                        if password_len != 0 && selected_ok {
                            self.active_menu_item = MenuItem::SelctedEntry;
                        }
                    } else if self.active_menu_item == MenuItem::SelctedEntry {
                        self.show_value = !self.show_value;
                    }
                    Action::Nothing
                } else {
                    Action::Nothing
                }
            },
            Key::Down => {
                key_down(
                    self.active_menu_item,
                    &mut self.entry_list,
                    &mut self.detail_list,
                    &self.db,
                    &self.attribute_count,
                );
                Action::Nothing
            },
            Key::Up => {
                key_up(
                    self.active_menu_item,
                    &mut self.entry_list,
                    &mut self.detail_list,
                    &self.db,
                    &self.attribute_count,
                );
                Action::Nothing
            },
            _ => Action::Nothing,
        }
    }

    /// Apply one key in editing mode.
    ///
    /// Characters insert at the cursor, Backspace deletes before it,
    /// Left and Right move it within the buffer, Enter commits the buffer
    /// through the store and returns to navigation, Escape discards the
    /// buffer unsaved.
    fn handle_editing_key(&mut self, key: Key) -> (r: Action)
        requires
            old(self).wf(),
            old(self).app.input_mode == InputMode::Editing,
        ensures
            final(self).wf(),
            editing_step(*old(self), key, *final(self), r),
    {
        match key {
            Key::Enter => {
                key_enter(
                    &mut self.app,
                    &mut self.entry_list,
                    &mut self.detail_list,
                    &mut self.db,
                );
                Action::Nothing
            },
            Key::Esc => {
                self.app.input_mode = InputMode::Navigation;
                self.app.input_index = 0;
                self.app.input = Vec::new();
                Action::Nothing
            },
            Key::Char(c) => {
                if self.app.input.len() < usize::MAX {
                    self.app.input.insert(self.app.input_index, c);
                    self.app.input_index = self.app.input_index + 1;
                }
                Action::Nothing
            },
            Key::Backspace => {
                if self.app.input_index > 0 {
                    self.app.input.remove(self.app.input_index - 1);
                    self.app.input_index = self.app.input_index - 1;
                }
                Action::Nothing
            },
            Key::Right => {
                if self.app.input_index < self.app.input.len() {
                    self.app.input_index = self.app.input_index + 1;
                }
                Action::Nothing
            },
            Key::Left => {
                if self.app.input_index > 0 {
                    self.app.input_index = self.app.input_index - 1;
                }
                Action::Nothing
            },
            _ => Action::Nothing,
        }
    }

    /// Apply one key: dispatch on the input mode.  This is the only
    /// mutation surface of the interactive loop; the caller performs the
    /// returned action and redraws.  The full per-key behaviour is the
    /// ensured [`navigation_step`] or [`editing_step`] relation, depending
    /// on the mode the key arrived in.
    pub fn handle_key(&mut self, key: Key) -> (r: Action)
        requires
            old(self).wf(),
        ensures
            final(self).wf(),
            old(self).app.input_mode == InputMode::Navigation ==> navigation_step(
                *old(self),
                key,
                *final(self),
                r,
            ),
            old(self).app.input_mode == InputMode::Editing ==> editing_step(
                *old(self),
                key,
                *final(self),
                r,
            ),
            final(self).db@.config == old(self).db@.config,
            final(self).db@.password == old(self).db@.password,
            final(self).db@.last_access == old(self).db@.last_access,
            old(self).app.input_mode == InputMode::Editing ==> r is Nothing,
            r is Quit ==> *final(self) == *old(self) && old(self).app.input_mode
                == InputMode::Navigation && key == Key::Char('q'),
    {
        match self.app.input_mode {
            InputMode::Navigation => self.handle_navigation_key(key),
            InputMode::Editing => self.handle_editing_key(key),
        }
    }
}

} // verus!
