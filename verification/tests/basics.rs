use headmaster::controllers::ingress::connect::read_secret_json;
use headmaster::settings::{claim_default, ingress_enabled, InvalidSetting};
use headmaster::table::Table;
use headmaster::text;
use headmaster::time::{after, Timestamp};
use headmaster::{field_manager, finalizer, json, labels};
use serde_json::Value;

fn v(text: &str) -> Value {
    serde_json::from_str(text).unwrap()
}

#[test]
fn names_of_a_deployment() {
    assert_eq!(
        finalizer("ops"),
        "headmaster.potatonode.github.io/cleanup-ops"
    );
    assert_eq!(field_manager("ops"), "headmaster-ops");
    assert_eq!(
        labels::managed_by_selector(),
        "app.kubernetes.io/managed-by=headmaster"
    );
}

#[test]
fn settings_have_few_values() {
    assert_eq!(ingress_enabled(None), Ok(true));
    assert_eq!(ingress_enabled(Some("true")), Ok(true));
    assert_eq!(ingress_enabled(Some("false")), Ok(false));
    assert_eq!(ingress_enabled(Some("TRUE")), Err(InvalidSetting));
    assert_eq!(claim_default(None), Ok(None));
    assert_eq!(claim_default(Some("force")), Ok(Some(true)));
    assert_eq!(claim_default(Some("false")), Ok(Some(false)));
    assert_eq!(claim_default(Some("true")), Err(InvalidSetting));
}

#[test]
fn spans_end() {
    let at = |second: i64, nanosecond: i32| Timestamp { second, nanosecond };
    assert_eq!(after(at(100, 0), 600), 700);
    assert_eq!(after(at(100, 999_999_999), 1), 101);
    assert_eq!(after(at(100, 0), u64::MAX), i64::MAX);
    assert_eq!(after(at(-5, -500_000_000), 10), 4);
    assert_eq!(after(at(-5, 0), 5), 0);
    assert_eq!(after(at(-5, -1), 5), i64::MAX);
}

#[test]
fn text_pieces() {
    assert_eq!(text::trim("\u{a0} \t a b \u{3000}\n"), "a b");
    assert_eq!(text::trim(" \n "), "");
    assert_eq!(text::replace("a*/b*/", "*/", "* /"), "a* /b* /");
    assert_eq!(text::replace("aaa", "aa", "b"), "ba");
    assert_eq!(text::split("a,b,,c", ','), vec!["a", "b", "", "c"]);
    assert_eq!(text::count_bytes("é€𝄞a"), 10);
    assert_eq!(text::shorten("aé", 2), "a");
    assert_eq!(text::shorten("aé", 3), "aé");
    assert!(text::is_before("a", "b"));
    assert!(text::is_before("a", "aa"));
    assert!(!text::is_before("b", "aa"));
    assert!(text::is_before("\u{ffff}", "\u{10000}"));
    assert!(text::contains_text("banana", "nan"));
    assert!(!text::contains_text("banana", "nab"));
    assert_eq!(text::decimal_of(0), "0");
    assert_eq!(text::decimal_of(u64::MAX), "18446744073709551615");
}

#[test]
fn numbers_as_std_reads_them() {
    for s in [
        "0", "007", "+7", "", "+", "-1", " 1", "1 ", "1_000", "18446744073709551615",
        "18446744073709551616", "99999999999999999999999", "٣",
    ] {
        assert_eq!(text::parse_number(s), s.parse::<u64>().ok(), "{s:?}");
    }
}

#[test]
fn table_keeps_its_keys_in_order() {
    let mut table: Table<u8> = Table::new();
    for (key, value) in [("b", 1), ("a", 2), ("c", 3), ("a", 4)] {
        table.insert(key.to_string(), value);
    }
    assert_eq!(table.keys(), vec!["a", "b", "c"]);
    assert_eq!(table.get("a"), Some(&4));
    assert_eq!(table.len(), 3);
    assert_eq!(table.remove("b"), Some(1));
    assert_eq!(table.remove("b"), None);
    assert!(!table.contains_key("b"));
    assert_eq!(table.entry(1), (&"c".to_string(), &3));
    table.replace(1, 9);
    assert_eq!(table.get("c"), Some(&9));
}

#[test]
fn values_are_compared_by_what_they_hold() {
    for (a, b) in [
        ("null", "null"),
        ("null", "false"),
        ("1", "1"),
        ("1", "1.0"),
        ("\"a\"", "\"a\""),
        ("[1, 2]", "[1, 2]"),
        ("[1, 2]", "[2, 1]"),
        ("[1]", "[1, 1]"),
        (r#"{"a": 1, "b": [{}]}"#, r#"{"b": [{}], "a": 1}"#),
        (r#"{"a": 1}"#, r#"{"a": 1, "b": 2}"#),
        (r#"{"a": 1}"#, r#"{"b": 1}"#),
        (r#"{"a": {"x": null}}"#, r#"{"a": {"x": 0}}"#),
    ] {
        assert_eq!(json::equal(&v(a), &v(b)), v(a) == v(b), "{a} {b}");
    }
}

#[test]
fn objects_over_objects() {
    assert_eq!(
        json::overlay(v(r#"{"a": 1, "b": 2}"#), &v(r#"{"b": 3, "c": 4}"#)),
        v(r#"{"a": 1, "b": 3, "c": 4}"#)
    );
}

#[test]
fn secret_entries_may_list_texts() {
    assert_eq!(
        read_secret_json(Some(br#"["100.64.0.1", "fd7a::1"]"#.to_vec())),
        Some(vec!["100.64.0.1".to_string(), "fd7a::1".to_string()])
    );
    assert_eq!(read_secret_json(Some(b"[1]".to_vec())), None);
    assert_eq!(read_secret_json(Some(b"".to_vec())), None);
    assert_eq!(read_secret_json(None), None);
}
