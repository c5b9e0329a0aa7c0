use debeon::store::{apply_flags_text, read_flags_text, reencode_flag_value};

fn flags(pairs: &[(&str, &str)]) -> Vec<(String, String)> {
    pairs.iter().map(|(k, v)| (k.to_string(), v.to_string())).collect()
}

fn parsed(text: &str) -> serde_json::Map<String, serde_json::Value> {
    match serde_json::from_str::<serde_json::Value>(text).unwrap() {
        serde_json::Value::Object(m) => m,
        other => panic!("not an object: {}", other),
    }
}

#[test]
fn reencode_preserves_integer_form() {
    assert_eq!(reencode_flag_value("42"), "42");
    assert_eq!(reencode_flag_value("-7"), "-7");
    assert_eq!(reencode_flag_value("0"), "0");
}

#[test]
fn reencode_preserves_boolean_form() {
    assert_eq!(reencode_flag_value("true"), "true");
    assert_eq!(reencode_flag_value("false"), "false");
}

#[test]
fn reencode_preserves_string_form() {
    assert_eq!(reencode_flag_value("hello"), "hello");
    assert_eq!(reencode_flag_value(""), "");
    assert_eq!(reencode_flag_value("True"), "True");
}

#[test]
fn whitespace_padded_numerics_stay_strings() {
    // Neither the integer nor the numeric reading accepts padding, so a
    // padded value is stored verbatim and survives the round trip.
    assert_eq!(reencode_flag_value(" 5"), " 5");
    assert_eq!(reencode_flag_value("1.5 "), "1.5 ");
    assert_eq!(reencode_flag_value("\t7"), "\t7");
}

#[test]
fn reencode_number_form_is_stable() {
    // A non-integer numeric value keeps its number type across a second
    // apply-and-read cycle, even where the canonical text differs.
    let once = reencode_flag_value("1.5");
    assert_eq!(once, "1.5");
    let twice = reencode_flag_value(&once);
    assert_eq!(once, twice);
}

#[test]
fn overlay_round_trip_through_file_text() {
    let m = flags(&[("a", "42"), ("b", "true"), ("c", "1.5"), ("d", "hello")]);
    let text = apply_flags_text(None, &m);
    let back = read_flags_text(Some(&text)).unwrap();
    let lookup = |k: &str| -> String {
        back.iter().find(|(key, _)| key == k).map(|(_, v)| v.clone()).unwrap()
    };
    assert_eq!(lookup("a"), "42");
    assert_eq!(lookup("b"), "true");
    assert_eq!(lookup("c"), "1.5");
    assert_eq!(lookup("d"), "hello");
    assert_eq!(back.len(), 4);
}

#[test]
fn coercion_types_in_written_json() {
    let m = flags(&[("i", "123"), ("f", "2.25"), ("t", "true"), ("s", "12x")]);
    let text = apply_flags_text(None, &m);
    let obj = parsed(&text);
    assert_eq!(obj["i"].as_i64(), Some(123));
    assert_eq!(obj["f"].as_f64(), Some(2.25));
    assert_eq!(obj["t"].as_bool(), Some(true));
    assert_eq!(obj["s"].as_str(), Some("12x"));
}

#[test]
fn merge_preserves_untouched_keys() {
    // Document with {A, B}; a write touching {B, C} yields exactly
    // {A unchanged, B new, C new}.
    let current = r#"{"A": 1, "B": 2}"#;
    let m = flags(&[("B", "20"), ("C", "30")]);
    let text = apply_flags_text(Some(current), &m);
    let obj = parsed(&text);
    assert_eq!(obj.len(), 3);
    assert_eq!(obj["A"].as_i64(), Some(1));
    assert_eq!(obj["B"].as_i64(), Some(20));
    assert_eq!(obj["C"].as_i64(), Some(30));
}

#[test]
fn merge_is_idempotent() {
    let current = r#"{"A": 1, "B": "x"}"#;
    let m = flags(&[("B", "true"), ("C", "9")]);
    let once = apply_flags_text(Some(current), &m);
    let twice = apply_flags_text(Some(&once), &m);
    assert_eq!(once, twice);
}

#[test]
fn overlay_changes_value_type_and_keeps_other_keys() {
    // An overlay value parseable as an integer replaces a string value with
    // an integer while an untouched key stays untouched.
    let current = r#"{"quality-override": 1, "SomeUnknownKey": "x"}"#;
    let m = flags(&[("SomeUnknownKey", "42")]);
    let text = apply_flags_text(Some(current), &m);
    let obj = parsed(&text);
    assert_eq!(obj.len(), 2);
    assert_eq!(obj["quality-override"].as_i64(), Some(1));
    assert_eq!(obj["SomeUnknownKey"].as_i64(), Some(42));
    assert!(!obj["SomeUnknownKey"].is_string());
}

#[test]
fn unreadable_current_file_recovers_as_empty_on_merge() {
    let m = flags(&[("k", "1")]);
    let text = apply_flags_text(Some("this is not json"), &m);
    let obj = parsed(&text);
    assert_eq!(obj.len(), 1);
    assert_eq!(obj["k"].as_i64(), Some(1));
}

#[test]
fn read_flags_absent_file_is_empty() {
    assert_eq!(read_flags_text(None).unwrap(), Vec::new());
}

#[test]
fn read_flags_malformed_file_is_an_error() {
    assert!(read_flags_text(Some("{oops")).is_err());
}

#[test]
fn read_flags_non_object_root_reads_empty() {
    assert_eq!(read_flags_text(Some("[1, 2]")).unwrap(), Vec::new());
}

#[test]
fn read_flags_skips_non_scalar_values() {
    let current = r#"{"a": 1, "b": {"nested": true}, "c": [1], "d": "x"}"#;
    let back = read_flags_text(Some(current)).unwrap();
    let keys: Vec<&str> = back.iter().map(|(k, _)| k.as_str()).collect();
    assert_eq!(keys, vec!["a", "d"]);
}
