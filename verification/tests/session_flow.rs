use vault::display::{
    display_password_correctly, editing_segments, get_menu_for_mode, replace_if_empty,
};
use vault::entry::DatabaseFile;
use vault::session::{Action, App, InputMode, Key, ListSelection, MenuItem, Session};

fn fresh_session() -> Session {
    Session::new(DatabaseFile::new_database(
        "tester".to_owned(),
        "session tests".to_owned(),
        "pw".to_owned(),
    ))
}

fn press(s: &mut Session, key: Key) -> Action {
    s.handle_key(key)
}

#[test]
fn scenario_create_edit_and_read_back() {
    let mut s = fresh_session();
    assert!(matches!(press(&mut s, Key::Char('p')), Action::Nothing));
    assert!(matches!(s.active_menu_item, MenuItem::PasswordEntries));
    assert!(matches!(press(&mut s, Key::Char('a')), Action::Nothing));
    assert!(matches!(s.active_menu_item, MenuItem::SelctedEntry));
    assert_eq!(s.db.entries.len(), 1);
    assert_eq!(s.entry_list.selected, Some(0));
    assert!(matches!(press(&mut s, Key::Char('e')), Action::Nothing));
    assert!(matches!(s.app.input_mode, InputMode::Editing));
    assert_eq!(s.app.input.len(), 0, "a fresh title seeds an empty buffer");
    for c in "abc".chars() {
        press(&mut s, Key::Char(c));
    }
    assert!(matches!(press(&mut s, Key::Enter), Action::Nothing));
    assert!(matches!(s.app.input_mode, InputMode::Navigation));
    let id = s.db.entries[0].id.clone();
    assert_eq!(s.db.get_value_from_selected_detail(0, id), "abc");
}

#[test]
fn quit_only_from_navigation() {
    let mut s = fresh_session();
    assert!(matches!(press(&mut s, Key::Char('q')), Action::Quit));
    press(&mut s, Key::Char('p'));
    press(&mut s, Key::Char('a'));
    press(&mut s, Key::Char('e'));
    assert!(matches!(press(&mut s, Key::Char('q')), Action::Nothing));
    press(&mut s, Key::Esc);
    assert!(matches!(press(&mut s, Key::Char('q')), Action::Quit));
}

#[test]
fn selection_wraps_both_ways() {
    let mut s = fresh_session();
    press(&mut s, Key::Char('p'));
    press(&mut s, Key::Char('a'));
    press(&mut s, Key::Char('p'));
    press(&mut s, Key::Char('a'));
    press(&mut s, Key::Char('p'));
    assert_eq!(s.db.entries.len(), 2);
    s.entry_list = ListSelection { selected: Some(0) };
    press(&mut s, Key::Down);
    assert_eq!(s.entry_list.selected, Some(1));
    press(&mut s, Key::Down);
    assert_eq!(s.entry_list.selected, Some(0), "down past the end wraps to the top");
    press(&mut s, Key::Up);
    assert_eq!(s.entry_list.selected, Some(1), "up past the start wraps to the bottom");
}

#[test]
fn navigation_on_empty_store_changes_nothing() {
    let mut s = fresh_session();
    press(&mut s, Key::Char('p'));
    assert_eq!(s.db.entries.len(), 0);
    press(&mut s, Key::Down);
    assert_eq!(s.entry_list.selected, Some(0));
    press(&mut s, Key::Up);
    assert_eq!(s.entry_list.selected, Some(0));
    assert!(matches!(press(&mut s, Key::Char('s')), Action::Nothing));
    assert!(matches!(s.active_menu_item, MenuItem::PasswordEntries));
    assert!(matches!(press(&mut s, Key::Char('r')), Action::Nothing));
    assert_eq!(s.db.entries.len(), 0);
}

#[test]
fn remove_key_deletes_the_selected_entry() {
    let mut s = fresh_session();
    press(&mut s, Key::Char('p'));
    press(&mut s, Key::Char('a'));
    press(&mut s, Key::Char('p'));
    assert_eq!(s.db.entries.len(), 1);
    press(&mut s, Key::Char('r'));
    assert_eq!(s.db.entries.len(), 0);
    press(&mut s, Key::Char('r'));
    assert_eq!(s.db.entries.len(), 0);
}

#[test]
fn copy_returns_the_selected_field() {
    let mut s = fresh_session();
    press(&mut s, Key::Char('p'));
    press(&mut s, Key::Char('a'));
    press(&mut s, Key::Char('e'));
    for c in "topsecret".chars() {
        press(&mut s, Key::Char(c));
    }
    press(&mut s, Key::Enter);
    match press(&mut s, Key::Char('c')) {
        Action::Copy(text) => assert_eq!(text, "topsecret"),
        _ => panic!("the detail view must offer a copy"),
    }
}

#[test]
fn show_secret_toggles() {
    let mut s = fresh_session();
    press(&mut s, Key::Char('p'));
    press(&mut s, Key::Char('a'));
    assert!(!s.show_value);
    press(&mut s, Key::Char('s'));
    assert!(s.show_value);
    press(&mut s, Key::Char('s'));
    assert!(!s.show_value);
    press(&mut s, Key::Char('h'));
    assert!(!s.show_value, "leaving the view masks the secret again");
}

#[test]
fn editing_cursor_moves_and_deletes() {
    let mut s = fresh_session();
    press(&mut s, Key::Char('p'));
    press(&mut s, Key::Char('a'));
    press(&mut s, Key::Char('e'));
    for c in "abd".chars() {
        press(&mut s, Key::Char(c));
    }
    press(&mut s, Key::Left);
    press(&mut s, Key::Char('c'));
    assert_eq!(s.app.input, vec!['a', 'b', 'c', 'd']);
    press(&mut s, Key::Backspace);
    assert_eq!(s.app.input, vec!['a', 'b', 'd']);
    press(&mut s, Key::Left);
    press(&mut s, Key::Left);
    press(&mut s, Key::Left);
    assert_eq!(s.app.input_index, 0);
    press(&mut s, Key::Backspace);
    assert_eq!(s.app.input, vec!['a', 'b', 'd'], "backspace at the start is a no-op");
    press(&mut s, Key::Esc);
    assert_eq!(s.app.input.len(), 0, "escape discards the buffer");
}

#[test]
fn escape_discards_without_saving() {
    let mut s = fresh_session();
    press(&mut s, Key::Char('p'));
    press(&mut s, Key::Char('a'));
    press(&mut s, Key::Char('e'));
    for c in "draft".chars() {
        press(&mut s, Key::Char(c));
    }
    press(&mut s, Key::Esc);
    let id = s.db.entries[0].id.clone();
    assert_eq!(s.db.get_value_from_selected_detail(0, id), "");
}

#[test]
fn app_default_is_clean() {
    let app = App::default();
    assert_eq!(app.input.len(), 0);
    assert!(matches!(app.input_mode, InputMode::Navigation));
    assert_eq!(app.message.len(), 0);
    assert_eq!(app.input_index, 0);
}

#[test]
fn empty_titles_get_a_placeholder() {
    assert_eq!(replace_if_empty(String::new()), "[[Empty Title]]");
    assert_eq!(replace_if_empty("kept".to_owned()), "kept");
}

#[test]
fn masking_replaces_every_byte() {
    assert_eq!(display_password_correctly("hunter2".to_owned(), &true), "*******");
    assert_eq!(display_password_correctly("hunter2".to_owned(), &false), "hunter2");
    assert_eq!(display_password_correctly(String::new(), &true), "");
    assert_eq!(
        display_password_correctly("\u{e9}\u{2603}".to_owned(), &true),
        "*****",
        "two and three UTF-8 bytes give five stars",
    );
}

#[test]
fn menu_labels_follow_the_view() {
    let home = get_menu_for_mode(&MenuItem::Home);
    assert_eq!(home, vec!["home", "password-entries", "quit"]);
    let list = get_menu_for_mode(&MenuItem::PasswordEntries);
    assert_eq!(
        list,
        vec!["home", "password-entries", "select-entry", "add-entry", "remove-entry", "quit"]
    );
    let detail = get_menu_for_mode(&MenuItem::SelctedEntry);
    assert_eq!(detail.len(), 7);
    assert_eq!(detail[2], "edit-value");
}

#[test]
fn editing_segments_split_around_the_cursor() {
    let buffer: Vec<char> = "abcd".chars().collect();
    let (l, m, r) = editing_segments(&buffer, 1);
    assert_eq!((l.as_str(), m.as_str(), r.as_str()), ("a", "b", "cd"));
    let (l, m, r) = editing_segments(&buffer, 4);
    assert_eq!((l.as_str(), m.as_str(), r.as_str()), ("abcd", "", ""));
    let (l, m, r) = editing_segments(&Vec::new(), 0);
    assert_eq!((l.as_str(), m.as_str(), r.as_str()), ("", "", ""));
}
