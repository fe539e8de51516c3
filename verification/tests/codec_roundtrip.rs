use vault::codec::{parse_store, serialize_store};
use vault::entry::{Config, CustomFile, DatabaseFile, EntryType, PasswordEntry};

fn sample_entry(id: &str) -> PasswordEntry {
    PasswordEntry {
        id: id.to_owned(),
        title: "bank \"main\" account".to_owned(),
        name: "user\\name".to_owned(),
        value: "p@ss,w0rd:{}[]".to_owned(),
        url: "https://bank.example/login".to_owned(),
        comment: "umlauts \u{e4}\u{f6}\u{fc} and a snowman \u{2603}".to_owned(),
        entry_type: EntryType::EnvironmentVariable,
        last_modified: "2024-01-02 03:04:05.678 +00:00".to_owned(),
        files: vec![CustomFile {
            content: "aGVsbG8=".to_owned(),
            comment: "a greeting".to_owned(),
            name: "hello.txt".to_owned(),
        }],
    }
}

fn sample_store() -> DatabaseFile {
    DatabaseFile {
        entries: vec![sample_entry("id-one"), sample_entry("id-two")],
        config: Config { comment: "store \"comment\"".to_owned(), author: "tester".to_owned() },
        last_access: "2024-01-02 03:04:06.000 +00:00".to_owned(),
        password: "never-serialized".to_owned(),
    }
}

fn assert_same_records(a: &DatabaseFile, b: &DatabaseFile) {
    assert_eq!(a.entries.len(), b.entries.len());
    for (x, y) in a.entries.iter().zip(b.entries.iter()) {
        assert_eq!(x.id, y.id);
        assert_eq!(x.title, y.title);
        assert_eq!(x.name, y.name);
        assert_eq!(x.value, y.value);
        assert_eq!(x.url, y.url);
        assert_eq!(x.comment, y.comment);
        assert_eq!(x.last_modified, y.last_modified);
        assert_eq!(x.files.len(), y.files.len());
        for (f, g) in x.files.iter().zip(y.files.iter()) {
            assert_eq!(f.content, g.content);
            assert_eq!(f.comment, g.comment);
            assert_eq!(f.name, g.name);
        }
    }
    assert_eq!(a.config.comment, b.config.comment);
    assert_eq!(a.config.author, b.config.author);
}

#[test]
fn payload_round_trip_keeps_every_record() {
    let db = sample_store();
    let payload = serialize_store(&db);
    let back = parse_store(&payload).expect("the canonical payload parses");
    assert_same_records(&db, &back);
    assert_eq!(back.last_access, db.last_access);
    assert_eq!(back.password, "", "the passphrase is never serialized");
}

#[test]
fn payload_is_readable_json_like_text() {
    let db = sample_store();
    let payload = serialize_store(&db);
    let text = String::from_utf8(payload).expect("the payload is UTF-8");
    assert!(text.starts_with("{\"entries\":["));
    assert!(text.contains("\"id\":\"id-one\""));
    assert!(text.contains("\"author\":\"tester\""));
    assert!(!text.contains("never-serialized"), "the passphrase must not leak");
}

#[test]
fn parser_rejects_noise_and_trailing_bytes() {
    assert!(parse_store(b"junk").is_none());
    assert!(parse_store(b"").is_none());
    let db = sample_store();
    let mut payload = serialize_store(&db);
    payload.push(b' ');
    assert!(parse_store(&payload).is_none(), "trailing bytes are rejected");
}

#[test]
fn parser_rejects_a_changed_byte_shape() {
    let db = sample_store();
    let mut payload = serialize_store(&db);
    payload[0] = b'[';
    assert!(parse_store(&payload).is_none());
}

#[test]
fn empty_store_round_trips() {
    let db = DatabaseFile {
        entries: Vec::new(),
        config: Config { comment: String::new(), author: String::new() },
        last_access: String::new(),
        password: String::new(),
    };
    let payload = serialize_store(&db);
    let back = parse_store(&payload).expect("the empty store parses");
    assert!(back.entries.is_empty());
}
