use mboitata::text::{
    contains_str, ends_with_str, join_strings, parse_u16, replace_str, sort_dedup,
    split_str, starts_with_str, usize_to_string,
};
use mboitata::map_stage::clean_source_name;

#[test]
fn substring_search() {
    assert!(contains_str("application/javascript", "javascript"));
    assert!(!contains_str("text/css", "javascript"));
    assert!(contains_str("anything", ""));
    assert!(starts_with_str("image/png", "image/"));
    assert!(ends_with_str("style.css", "css"));
}

#[test]
fn split_and_join_round_trip() {
    let parts = split_str("/a//b/c", '/');
    assert_eq!(parts, vec!["", "a", "", "b", "c"]);
    assert_eq!(join_strings(&parts, "/"), "/a//b/c");
}

#[test]
fn port_parsing_follows_u16_rules() {
    assert_eq!(parse_u16("8080"), Some(8080));
    assert_eq!(parse_u16("+80"), Some(80));
    assert_eq!(parse_u16("65535"), Some(65535));
    assert_eq!(parse_u16("65536"), None);
    assert_eq!(parse_u16(""), None);
    assert_eq!(parse_u16("+"), None);
    assert_eq!(parse_u16("8a"), None);
}

#[test]
fn decimal_rendering() {
    assert_eq!(usize_to_string(0), "0");
    assert_eq!(usize_to_string(42), "42");
    assert_eq!(usize_to_string(1000), "1000");
}

#[test]
fn replace_is_left_to_right_and_non_overlapping() {
    assert_eq!(replace_str("a..b..c", "..", ""), "abc");
    assert_eq!(replace_str("///", "//", "/"), "//");
    assert_eq!(replace_str("webpack://src", "webpack://", ""), "src");
}

#[test]
fn sort_dedup_orders_and_removes_duplicates() {
    let items = vec!["b".to_string(), "a".to_string(), "b".to_string(), "aa".to_string()];
    assert_eq!(sort_dedup(&items), vec!["a".to_string(), "aa".to_string(), "b".to_string()]);
}

#[test]
fn source_names_are_cleaned() {
    assert_eq!(clean_source_name("webpack:///src/a.js"), "/sourcemap/src/a.js");
    assert_eq!(clean_source_name("webpack://pkg/../x.js"), "/sourcemap/pkg/x.js");
    assert_eq!(clean_source_name("plain.js"), "/sourcemap/plain.js");
}
