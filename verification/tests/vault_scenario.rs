use vault::entry::DatabaseFile;
use vault::vault::{encrypt_vault, open_vault};

#[test]
fn scenario_v1_save_and_reopen() {
    let mut db = DatabaseFile::new_database(
        "tester".to_owned(),
        "v1".to_owned(),
        "Secr3t!".to_owned(),
    );
    let id = db.add_empty_entry();
    db.update_entry(2, id.clone(), vec!["hunter2".to_owned()]);
    let file = encrypt_vault(&db).expect("saving v1 succeeds");
    let reopened = open_vault(&file, "Secr3t!").expect("the right password reopens v1");
    assert_eq!(reopened.get_value_from_selected_detail(2, id), "hunter2");
    assert!(open_vault(&file, "wrong").is_err(), "a wrong password must not open v1");
}
