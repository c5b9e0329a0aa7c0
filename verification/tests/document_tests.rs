use debeon::document::SettingsDoc;
use debeon::scalar::ScalarValue;
use debeon::store::reencode_flag_value;

fn int_val(n: i64) -> ScalarValue {
    ScalarValue::Int(n)
}

#[test]
fn empty_document_has_no_keys() {
    let d = SettingsDoc::empty();
    assert!(!d.has_key("a"));
    assert!(d.lookup("a").is_none());
}

#[test]
fn with_entry_inserts_and_overwrites() {
    let d = SettingsDoc::empty();
    let d = d.with_entry("a", int_val(1));
    let d = d.with_entry("b", ScalarValue::Bool(true));
    let d = d.with_entry("a", int_val(2));
    assert!(d.has_key("a"));
    assert!(d.has_key("b"));
    assert!(!d.has_key("c"));
    match d.lookup("a") {
        Some(ScalarValue::Int(n)) => assert_eq!(*n, 2),
        other => panic!("unexpected value: {:?}", other.is_some()),
    }
    assert_eq!(d.entries.len(), 2);
}

#[test]
fn merge_overwrites_touched_and_keeps_untouched() {
    let base = SettingsDoc::empty()
        .with_entry("a", int_val(1))
        .with_entry("b", int_val(2));
    let partial = SettingsDoc::empty()
        .with_entry("b", int_val(20))
        .with_entry("c", int_val(30));
    let merged = base.merged_with(&partial);
    assert_eq!(merged.entries.len(), 3);
    match merged.lookup("a") {
        Some(ScalarValue::Int(n)) => assert_eq!(*n, 1),
        _ => panic!("key a lost"),
    }
    match merged.lookup("b") {
        Some(ScalarValue::Int(n)) => assert_eq!(*n, 20),
        _ => panic!("key b not overwritten"),
    }
    match merged.lookup("c") {
        Some(ScalarValue::Int(n)) => assert_eq!(*n, 30),
        _ => panic!("key c not inserted"),
    }
}

#[test]
fn dup_copies_all_entries() {
    let d = SettingsDoc::empty()
        .with_entry("a", ScalarValue::Str("x".to_string()))
        .with_entry("b", int_val(7));
    let copy = d.dup();
    assert_eq!(copy.entries.len(), 2);
    assert!(copy.has_key("a"));
    assert!(copy.has_key("b"));
}

#[test]
fn numeric_overlay_values_are_canonicalized() {
    // The stored number is the canonical JSON reading, not the spelling the
    // caller used.
    assert_eq!(reencode_flag_value("1e3"), "1000.0");
    assert_eq!(reencode_flag_value("2.50"), "2.5");
}
