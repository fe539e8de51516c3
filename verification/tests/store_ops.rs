use vault::entry::{DatabaseFile, EntryType};

fn fresh_store() -> DatabaseFile {
    DatabaseFile::new_database(
        "author".to_owned(),
        "a store for tests".to_owned(),
        "pw".to_owned(),
    )
}

#[test]
fn new_database_starts_empty() {
    let db = fresh_store();
    assert_eq!(db.entries.len(), 0);
    assert_eq!(db.config.author, "author");
    assert_eq!(db.config.comment, "a store for tests");
    assert_eq!(db.password, "pw");
}

#[test]
fn add_empty_entry_returns_the_new_id() {
    let mut db = fresh_store();
    let id = db.add_empty_entry();
    assert_eq!(id.len(), 36);
    assert_eq!(db.entries.len(), 1);
    assert_eq!(db.entries[0].id, id);
    assert_eq!(db.entries[0].title, "");
    assert_eq!(db.entries[0].name, "");
    assert_eq!(db.entries[0].value, "");
    assert_eq!(db.entries[0].url, "");
    assert_eq!(db.entries[0].comment, "");
    assert!(matches!(db.entries[0].entry_type, EntryType::ClassicPassword));
    assert!(db.entries[0].files.is_empty());
}

#[test]
fn identity_stable_after_updates() {
    let mut db = fresh_store();
    let id = db.add_empty_entry();
    for (idx, text) in [
        (0usize, "a title"),
        (1, "a name"),
        (2, "a secret"),
        (3, "https://example.test"),
        (4, "a comment"),
    ] {
        db.update_entry(idx, id.clone(), vec![text.to_owned()]);
        let found = db.get_entry_by_id(id.clone()).expect("entry stays reachable");
        assert_eq!(found.id, id);
    }
}

#[test]
fn remove_entry_by_id_removes_exactly_one() {
    let mut db = fresh_store();
    let first = db.add_empty_entry();
    let second = db.add_empty_entry();
    let third = db.add_empty_entry();
    assert_eq!(db.entries.len(), 3);
    assert!(db.remove_entry_by_id(second.clone()));
    assert_eq!(db.entries.len(), 2);
    assert!(db.get_entry_by_id(second.clone()).is_none());
    assert_eq!(db.entries[0].id, first);
    assert_eq!(db.entries[1].id, third);
    assert!(!db.remove_entry_by_id(second));
    assert_eq!(db.entries.len(), 2);
}

#[test]
fn remove_on_empty_store_is_a_noop() {
    let mut db = fresh_store();
    assert!(!db.remove_entry_by_id("no-such-id".to_owned()));
    assert_eq!(db.entries.len(), 0);
}

#[test]
fn field_mapping_reads_back_what_was_written() {
    let mut db = fresh_store();
    let id = db.add_empty_entry();
    let written = ["the title", "the name", "the value", "the url", "the comment"];
    for (idx, text) in written.iter().enumerate() {
        db.update_entry(idx, id.clone(), vec![text.to_string()]);
        let read = db.get_value_from_selected_detail(idx, id.clone());
        assert_eq!(&read, text);
    }
    assert_eq!(db.get_value_from_selected_detail(7, id), "");
}

#[test]
fn update_applies_only_the_last_history_element() {
    let mut db = fresh_store();
    let id = db.add_empty_entry();
    db.update_entry(
        0,
        id.clone(),
        vec!["draft one".to_owned(), "draft two".to_owned(), "final".to_owned()],
    );
    assert_eq!(db.get_value_from_selected_detail(0, id), "final");
}

fn stamp_of(db: &DatabaseFile, id: &str) -> String {
    db.get_entry_by_id(id.to_owned()).expect("entry exists").last_modified.clone()
}

#[test]
fn last_modified_moves_forward_on_update() {
    let mut db = fresh_store();
    let id = db.add_empty_entry();
    let before = stamp_of(&db, &id);
    let mut after = before.clone();
    for round in 0..1000 {
        db.update_entry(2, id.clone(), vec![format!("value {}", round)]);
        after = stamp_of(&db, &id);
        if after != before {
            break;
        }
    }
    assert_ne!(after, before, "the stamp never moved");
    let fmt = "%Y-%m-%d %H:%M:%S%.f %z";
    let parsed_before = chrono::DateTime::parse_from_str(&before, fmt);
    let parsed_after = chrono::DateTime::parse_from_str(&after, fmt);
    if let (Ok(t0), Ok(t1)) = (parsed_before, parsed_after) {
        assert!(t1 > t0, "the stamp moved backwards: {} then {}", before, after);
    }
}

#[test]
fn wipe_erases_password_and_values() {
    let mut db = fresh_store();
    let id = db.add_empty_entry();
    db.update_entry(2, id.clone(), vec!["hunter2".to_owned()]);
    db.update_entry(0, id.clone(), vec!["a title".to_owned()]);
    db.wipe();
    assert_eq!(db.password, "");
    assert_eq!(db.entries.len(), 1);
    assert_eq!(db.entries[0].value, "");
    assert_eq!(db.entries[0].title, "a title");
    assert_eq!(db.entries[0].id, id);
}
