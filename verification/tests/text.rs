//! Texts, label sets and JSON documents.

use caravan::command::{CommandIntent, CommandSpec};
use caravan::github::evidence::hash_of;
use caravan::github::commands::encode_path_segment;
use caravan::json::{Decode, Entries, JsonForm, Members};
use caravan::model::{LabelSet, PrNumber};
use caravan::text::{
    decimal_text, diagnostic_excerpt, eq_ignore_case, fnv1a64, hex_text, join, lines, lowercase,
    parse_unsigned, signed_text, sort_texts, split_once, starts_with, text_contains, text_less,
    trim, words,
};

fn owned(rows: &[&str]) -> Vec<String> {
    rows.iter().map(|row| (*row).to_owned()).collect()
}

#[test]
fn numbers_are_written_in_decimal_and_hexadecimal() {
    assert_eq!(decimal_text(0), "0");
    assert_eq!(decimal_text(u64::MAX), u64::MAX.to_string());
    assert_eq!(signed_text(-12), "-12");
    assert_eq!(signed_text(i32::MIN), i32::MIN.to_string());
    assert_eq!(hex_text(255, 2), "ff");
    assert_eq!(hex_text(10, 4), "000a");
    assert_eq!(PrNumber(42).to_text(), "42");
}

#[test]
fn an_unsigned_number_is_read_or_refused() {
    assert_eq!(parse_unsigned("0"), Some(0));
    assert_eq!(parse_unsigned("+17"), Some(17));
    assert_eq!(parse_unsigned("18446744073709551615"), Some(u64::MAX));
    assert_eq!(parse_unsigned("18446744073709551616"), None);
    for refused in ["", "+", "-1", " 1", "1a"] {
        assert_eq!(parse_unsigned(refused), None, "{refused}");
        assert_eq!(parse_unsigned(refused), refused.parse::<u64>().ok());
    }
}

#[test]
fn texts_are_trimmed_split_and_joined() {
    assert_eq!(trim("  a b\n"), "a b");
    assert_eq!(words(" a  b\tc\n"), owned(&["a", "b", "c"]));
    assert_eq!(lines("a\r\nb\n\nc"), owned(&["a", "b", "", "c"]));
    assert_eq!(join(&owned(&["a", "b"]), ", "), "a, b");
    assert_eq!(
        split_once("name: value: more", ":"),
        Some(("name".to_owned(), " value: more".to_owned()))
    );
    assert_eq!(split_once("name", ":"), None);
    assert!(starts_with("caravan-parked", "caravan"));
    assert!(text_contains("HTTP 404", "404"));
    assert!(!text_contains("HTTP 403", "404"));
}

#[test]
fn texts_are_ordered_as_code_points() {
    assert!(text_less("a", "ab"));
    assert!(text_less("Z", "a"));
    assert!(!text_less("a", "a"));
    assert_eq!(sort_texts(&owned(&["b", "a", "b"])), owned(&["a", "b", "b"]));
    assert!(eq_ignore_case("X-GitHub-Request-Id", "x-github-request-id"));
    assert_eq!(lowercase("HTTP"), "http");
}

#[test]
fn a_diagnostic_is_cut_to_a_bounded_excerpt() {
    assert_eq!(diagnostic_excerpt("short"), "short");
    let long = "x".repeat(10_000);
    let edge = "x".repeat(4_096);
    assert_eq!(
        diagnostic_excerpt(&long),
        format!("{edge}\n...[1808 bytes omitted]...\n{edge}")
    );
}

#[test]
fn a_hash_is_that_of_the_bytes() {
    assert_eq!(fnv1a64(b""), "cbf29ce484222325");
    assert_eq!(fnv1a64(b"a"), "af63dc4c8601ec8c");
    assert_eq!(fnv1a64(b"foobar"), "85944171f73967e8");
}

#[test]
fn a_path_segment_keeps_only_unreserved_bytes() {
    assert_eq!(encode_path_segment("release/next"), "release%2Fnext");
    assert_eq!(encode_path_segment("a-b_c.d~e"), "a-b_c.d~e");
    assert_eq!(encode_path_segment("a b"), "a%20b");
    assert_eq!(encode_path_segment("\u{e9}"), "%C3%A9");
}

#[test]
fn a_label_set_is_ordered_and_holds_each_label_once() {
    let mut set = LabelSet::from_list(&owned(&["b", "a", "b"]));
    assert_eq!(set.to_list(), owned(&["a", "b"]));
    set.insert("ab");
    assert_eq!(set.to_list(), owned(&["a", "ab", "b"]));
    set.remove("a");
    assert_eq!(set.len(), 2);
    assert!(set.contains("ab") && !set.contains("a"));
    let small = LabelSet::from_list(&owned(&["b"]));
    assert!(small.is_subset(&set) && !set.is_subset(&small));
    assert!(LabelSet::from_list(&owned(&["z"])).is_disjoint(&set));
}

#[test]
fn an_object_keeps_the_order_of_its_entries() {
    let value = Entries::new()
        .with("z", 1u64.to_json())
        .with("a", vec!["x".to_owned(), "y".to_owned()].to_json())
        .with_unless_null("gone", None::<String>.to_json())
        .with("flag", true.to_json())
        .with("z", 2u64.to_json())
        .object();
    assert_eq!(value.to_string(), r#"{"z":2,"a":["x","y"],"flag":true}"#);
}

#[test]
fn every_member_of_an_object_is_read_in_order() {
    let value: serde_json::Value = serde_json::from_str(r#"{"b":1,"a":2}"#).unwrap();
    let members = Members::<u64>::decode(&value).unwrap();
    assert_eq!(members.list, vec![("b".to_owned(), 1), ("a".to_owned(), 2)]);
    let mixed: serde_json::Value = serde_json::from_str(r#"{"b":1,"a":"x"}"#).unwrap();
    assert!(Members::<u64>::decode(&mixed).is_none());
    assert!(Members::<u64>::decode(&serde_json::Value::Null).is_none());
}

#[test]
fn a_document_is_hashed_by_its_compact_text() {
    let value = Entries::new().with("a", 1u64.to_json()).object();
    assert_eq!(hash_of(&value), fnv1a64(br#"{"a":1}"#));
}

#[test]
fn a_command_shows_its_words_and_infers_writes_from_its_method() {
    let read = CommandSpec::gh(vec!["api", "--method", "GET", "repos/o/r"]);
    assert_eq!(read.display(), "gh api --method GET repos/o/r");
    assert_eq!(read.inferred_write_intent(), None);
    let write = CommandSpec::gh(vec!["api", "--method", "DELETE", "repos/o/r"]).provider_write();
    assert_eq!(write.intent(), CommandIntent::ProviderWrite);
    assert_eq!(
        write.inferred_write_intent(),
        Some(CommandIntent::ProviderWrite)
    );
    assert_eq!(
        CommandSpec::gh(vec!["pr", "merge", "12"]).inferred_write_intent(),
        None
    );
}
