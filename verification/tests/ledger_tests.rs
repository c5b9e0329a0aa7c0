use debeon::ledger::{
    backup_file_name, list_backups, restore_plan, restore_content, snapshot_content, snapshot_plan,
};
use debeon::SettingsError;

#[test]
fn backup_names_follow_the_convention() {
    assert_eq!(backup_file_name("20240102_030405"), "backup_20240102_030405.json");
}

#[test]
fn snapshot_of_missing_file_is_a_no_op() {
    assert_eq!(snapshot_plan(false, "20240102_030405"), None);
}

#[test]
fn snapshot_of_existing_file_is_named() {
    assert_eq!(
        snapshot_plan(true, "20240102_030405"),
        Some("backup_20240102_030405.json".to_string())
    );
}

#[test]
fn snapshot_then_restore_is_byte_identical() {
    let live = "{\n  \"a\": 1\n}";
    let stored = snapshot_content(live);
    let restored = restore_content(&stored);
    assert_eq!(restored, live);
}

#[test]
fn restore_requires_the_named_snapshot() {
    let available = vec![
        "backup_20240101_000000.json".to_string(),
        "backup_20240202_000000.json".to_string(),
    ];
    assert_eq!(restore_plan("backup_20240202_000000.json", &available), Ok(1));
    assert_eq!(
        restore_plan("backup_20230101_000000.json", &available),
        Err(SettingsError::NotFound)
    );
}

#[test]
fn listing_is_filtered_and_newest_first() {
    let entries = vec![
        "backup_20240101_000000.json".to_string(),
        "notes.txt".to_string(),
        "backup_20240301_000000.json".to_string(),
        "backup_20240201_000000.json".to_string(),
    ];
    let listed = list_backups(&entries);
    assert_eq!(
        listed,
        vec![
            "backup_20240301_000000.json".to_string(),
            "backup_20240201_000000.json".to_string(),
            "backup_20240101_000000.json".to_string(),
        ]
    );
}

#[test]
fn listing_of_empty_directory_is_empty() {
    let listed = list_backups(&Vec::new());
    assert!(listed.is_empty());
}

#[test]
fn error_labels() {
    assert_eq!(SettingsError::NotFound.label(), "not found");
    assert_eq!(SettingsError::Unreachable.label(), "unreachable");
    assert_eq!(SettingsError::Malformed.label(), "malformed");
    assert_eq!(SettingsError::IoFailure.label(), "io failure");
}
