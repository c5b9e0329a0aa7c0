use debeon::detector::{
    detect_channel, is_client_binary, records_from_scan, select_primary, RobloxDetector, ScanEntry,
};
use debeon::models::RobloxInstallation;

fn record(path: &str, modified: &str) -> RobloxInstallation {
    RobloxInstallation {
        path: path.to_string(),
        version: "v".to_string(),
        channel: "Unknown".to_string(),
        last_modified: modified.to_string(),
    }
}

fn entry(file_name: &str, full_path: &str, parent_path: &str, parent_name: &str, modified: &str) -> ScanEntry {
    ScanEntry {
        file_name: file_name.to_string(),
        full_path: full_path.to_string(),
        parent_path: parent_path.to_string(),
        parent_name: parent_name.to_string(),
        modified: modified.to_string(),
    }
}

#[test]
fn selection_picks_greatest_timestamp() {
    let a = record("a", "2024-01-01 10:00:00");
    let b = record("b", "2024-03-01 10:00:00");
    let c = record("c", "2024-02-01 10:00:00");
    let v1 = vec![a.clone(), b.clone(), c.clone()];
    let v2 = vec![c.clone(), a.clone(), b.clone()];
    let v3 = vec![b.clone(), c.clone(), a.clone()];
    assert_eq!(v1[select_primary(&v1).unwrap()].path, "b");
    assert_eq!(v2[select_primary(&v2).unwrap()].path, "b");
    assert_eq!(v3[select_primary(&v3).unwrap()].path, "b");
}

#[test]
fn selection_on_empty_list_is_none() {
    // No search root existed, discovery found nothing: an empty record list
    // is a valid outcome, and selecting a primary on top of it reports the
    // absence rather than an installation.
    let empty: Vec<RobloxInstallation> = Vec::new();
    assert!(select_primary(&empty).is_none());
}

#[test]
fn scan_of_nothing_yields_no_records() {
    let records = records_from_scan(&Vec::new());
    assert!(records.is_empty());
}

#[test]
fn scan_keeps_only_client_binaries() {
    let entries = vec![
        entry("readme.txt", "/r/v1/readme.txt", "/r/v1", "v1", "2024-01-01 00:00:00"),
        entry(
            "RobloxPlayerBeta.exe",
            "/r/version-abc/RobloxPlayerBeta.exe",
            "/r/version-abc",
            "version-abc",
            "2024-01-02 00:00:00",
        ),
        entry(
            "RobloxStudioBeta.exe",
            "/r/studio-1/RobloxStudioBeta.exe",
            "/r/studio-1",
            "studio-1",
            "2024-01-03 00:00:00",
        ),
    ];
    let records = records_from_scan(&entries);
    assert_eq!(records.len(), 2);
    assert_eq!(records[0].path, "/r/version-abc");
    assert_eq!(records[0].version, "version-abc");
    assert_eq!(records[0].channel, "Player");
    assert_eq!(records[0].last_modified, "2024-01-02 00:00:00");
    assert_eq!(records[1].path, "/r/studio-1");
    assert_eq!(records[1].channel, "Studio");
}

#[test]
fn channel_detection_is_case_insensitive() {
    assert_eq!(detect_channel("C:\\Apps\\STUDIO\\x.exe"), "Studio");
    assert_eq!(detect_channel("/opt/RobloxPlayer/bin"), "Player");
    assert_eq!(detect_channel("/opt/roblox/v1"), "Unknown");
    // A path mentioning both words tags as Studio: that test comes first.
    assert_eq!(detect_channel("/studio/player"), "Studio");
}

#[test]
fn client_binary_names() {
    assert!(is_client_binary("RobloxPlayerBeta.exe"));
    assert!(is_client_binary("RobloxStudioBeta.exe"));
    assert!(!is_client_binary("robloxplayerbeta.exe"));
    assert!(!is_client_binary("Other.exe"));
}

#[test]
fn detector_assembles_roots_in_order() {
    let d = RobloxDetector::new(
        Some("/home/u/.local/share/Roblox".to_string()),
        Some("/home/u/.config/Roblox".to_string()),
        Some("D:\\Registry\\Roblox".to_string()),
    );
    assert_eq!(
        d.search_paths,
        vec![
            "/home/u/.local/share/Roblox".to_string(),
            "/home/u/.config/Roblox".to_string(),
            "C:\\Program Files (x86)\\Roblox".to_string(),
            "C:\\Program Files\\Roblox".to_string(),
            "D:\\Registry\\Roblox".to_string(),
        ]
    );
    let bare = RobloxDetector::new(None, None, None);
    assert_eq!(bare.search_paths.len(), 2);
}
