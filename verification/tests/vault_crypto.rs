use vault::entry::DatabaseFile;
use vault::error::VaultError;
use vault::vault::{encrypt_vault, open_vault};

fn small_store(password: &str) -> DatabaseFile {
    let mut db = DatabaseFile::new_database(
        "tester".to_owned(),
        "crypto tests".to_owned(),
        password.to_owned(),
    );
    let id = db.add_empty_entry();
    db.update_entry(0, id.clone(), vec!["the entry".to_owned()]);
    db.update_entry(2, id, vec!["hunter2".to_owned()]);
    db
}

#[test]
fn encrypt_then_open_returns_the_records() {
    let db = small_store("Secr3t!");
    let file = encrypt_vault(&db).expect("encryption succeeds");
    assert!(file.len() > 51 + 16, "salt, nonce and a tagged payload");
    let back = open_vault(&file, "Secr3t!").expect("the right password opens the vault");
    assert_eq!(back.entries.len(), db.entries.len());
    assert_eq!(back.entries[0].id, db.entries[0].id);
    assert_eq!(back.entries[0].title, "the entry");
    assert_eq!(back.entries[0].value, "hunter2");
    assert_eq!(back.config.author, "tester");
    assert_eq!(back.last_access, db.last_access);
    assert_eq!(back.password, "Secr3t!");
}

#[test]
fn two_encryptions_differ_but_both_open() {
    let db = small_store("Secr3t!");
    let one = encrypt_vault(&db).expect("encryption succeeds");
    let two = encrypt_vault(&db).expect("encryption succeeds");
    assert_ne!(one, two, "fresh salt and nonce every time");
    assert!(open_vault(&one, "Secr3t!").is_ok());
    assert!(open_vault(&two, "Secr3t!").is_ok());
}

#[test]
fn wrong_password_is_rejected() {
    let db = small_store("Secr3t!");
    let file = encrypt_vault(&db).expect("encryption succeeds");
    match open_vault(&file, "wrong") {
        Err(VaultError::AuthenticationFailed) => {},
        other => panic!("a wrong password must fail authentication, got {:?}", other.is_ok()),
    }
}

#[test]
fn flipping_one_ciphertext_byte_breaks_authentication() {
    let db = small_store("Secr3t!");
    let file = encrypt_vault(&db).expect("encryption succeeds");
    let positions = [51, 51 + (file.len() - 51) / 2, file.len() - 1];
    for &pos in positions.iter() {
        let mut broken = file.clone();
        broken[pos] ^= 0x01;
        match open_vault(&broken, "Secr3t!") {
            Err(VaultError::AuthenticationFailed) => {},
            other => panic!(
                "a flipped byte at {} must fail authentication, got ok={}",
                pos,
                other.is_ok()
            ),
        }
    }
}

#[test]
fn truncated_header_is_malformed() {
    match open_vault(&[0u8; 50], "pw") {
        Err(VaultError::MalformedHeader) => {},
        other => panic!("fifty bytes are no vault, got ok={}", other.is_ok()),
    }
}

#[test]
fn error_messages_are_short_diagnostics() {
    assert!(!VaultError::AuthenticationFailed.message().is_empty());
    assert!(!VaultError::MalformedHeader.message().is_empty());
    assert!(!VaultError::InvalidPayload.message().is_empty());
}
