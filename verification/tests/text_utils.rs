//! Tests of the text helpers: line splitting, character equality, decimal
//! strings and padding, and path joining.

use yt_backup::text::{decimal_string, join_path, padded_decimal, split_lines, str_eq};

#[test]
fn split_lines_on_newline() {
    assert_eq!(split_lines("a\nb"), vec!["a".to_string(), "b".to_string()]);
}

#[test]
fn split_lines_keeps_trailing_empty_line() {
    assert_eq!(
        split_lines("a\n"),
        vec!["a".to_string(), "".to_string()]
    );
    assert_eq!(split_lines(""), vec!["".to_string()]);
}

#[test]
fn split_lines_keeps_inner_empty_lines() {
    assert_eq!(
        split_lines("a\n\nb"),
        vec!["a".to_string(), "".to_string(), "b".to_string()]
    );
}

#[test]
fn str_eq_compares_characters() {
    assert!(str_eq("abc", "abc"));
    assert!(!str_eq("abc", "abd"));
    assert!(!str_eq("abc", "ab"));
    assert!(str_eq("動画", "動画"));
    assert!(!str_eq("動画", "動面"));
}

#[test]
fn decimal_strings() {
    assert_eq!(decimal_string(0), "0");
    assert_eq!(decimal_string(7), "7");
    assert_eq!(decimal_string(42), "42");
    assert_eq!(decimal_string(1234567), "1234567");
}

#[test]
fn padded_decimals() {
    assert_eq!(padded_decimal(7, 3), "007");
    assert_eq!(padded_decimal(42, 3), "042");
    assert_eq!(padded_decimal(123, 3), "123");
    assert_eq!(padded_decimal(1234, 3), "1234");
    assert_eq!(padded_decimal(0, 4), "0000");
}

#[test]
fn join_path_uses_one_separator() {
    assert_eq!(join_path("root", "child"), "root/child");
    assert_eq!(join_path("", "x"), "/x");
}
