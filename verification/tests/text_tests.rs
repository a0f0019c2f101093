use droid_view::text::{
    chars_of, contains_str, parse_i32, parse_u16, parse_u32, split_lines, split_on,
    split_whitespace, str_eq, string_of_chars, trim_str, u32_to_string, u64_to_string,
};

#[test]
fn chars_round_trip() {
    let v = chars_of("hello world");
    assert_eq!(v.len(), 11);
    let s = string_of_chars(&v);
    assert_eq!(s, "hello world");
}

#[test]
fn split_on_keeps_empty_parts() {
    let parts = split_on("a\tb\t\tc", '\t');
    assert_eq!(parts, vec!["a", "b", "", "c"]);
    let parts = split_on("", ':');
    assert_eq!(parts, vec![""]);
    let parts = split_on("x:", ':');
    assert_eq!(parts, vec!["x", ""]);
}

#[test]
fn lines_drop_final_newline() {
    assert_eq!(split_lines("a\nb\n"), vec!["a", "b"]);
    assert_eq!(split_lines("a\nb"), vec!["a", "b"]);
    assert_eq!(split_lines(""), Vec::<String>::new());
    assert_eq!(split_lines("\n"), vec![""]);
}

#[test]
fn lines_strip_carriage_returns() {
    assert_eq!(split_lines("a\r\nb\r\n"), vec!["a", "b"]);
    // A bare trailing carriage return without a newline is kept.
    assert_eq!(split_lines("a\r"), vec!["a\r"]);
}

#[test]
fn whitespace_tokens() {
    assert_eq!(split_whitespace("  one  two\tthree\n"), vec!["one", "two", "three"]);
    assert_eq!(split_whitespace(""), Vec::<String>::new());
    assert_eq!(split_whitespace("   "), Vec::<String>::new());
}

#[test]
fn trim_both_ends() {
    assert_eq!(trim_str("  padded \t"), "padded");
    assert_eq!(trim_str("solid"), "solid");
    assert_eq!(trim_str(" \n "), "");
}

#[test]
fn parse_u32_as_std() {
    assert_eq!(parse_u32("0"), Some(0));
    assert_eq!(parse_u32("+8"), Some(8));
    assert_eq!(parse_u32("4294967295"), Some(4294967295));
    assert_eq!(parse_u32("4294967296"), None);
    assert_eq!(parse_u32(""), None);
    assert_eq!(parse_u32("+"), None);
    assert_eq!(parse_u32(" 1"), None);
    assert_eq!(parse_u32("1x"), None);
}

#[test]
fn parse_u16_as_std() {
    assert_eq!(parse_u16("5555"), Some(5555));
    assert_eq!(parse_u16("65535"), Some(65535));
    assert_eq!(parse_u16("65536"), None);
    assert_eq!(parse_u16("-1"), None);
}

#[test]
fn parse_i32_as_std() {
    assert_eq!(parse_i32("-5"), Some(-5));
    assert_eq!(parse_i32("+7"), Some(7));
    assert_eq!(parse_i32("2147483647"), Some(2147483647));
    assert_eq!(parse_i32("2147483648"), None);
    assert_eq!(parse_i32("-2147483648"), Some(-2147483648));
    assert_eq!(parse_i32("-2147483649"), None);
    assert_eq!(parse_i32("-"), None);
}

#[test]
fn decimal_strings() {
    assert_eq!(u64_to_string(0), "0");
    assert_eq!(u64_to_string(10), "10");
    assert_eq!(u64_to_string(18446744073709551615), "18446744073709551615");
    assert_eq!(u32_to_string(1080), "1080");
}

#[test]
fn substring_search() {
    assert!(contains_str("connection refused by host", "refused"));
    assert!(!contains_str("ok", "refused"));
    assert!(contains_str("anything", ""));
    assert!(contains_str("aaab", "aab"));
}

#[test]
fn string_equality() {
    assert!(str_eq("device", "device"));
    assert!(!str_eq("device", "devices"));
    assert!(!str_eq("Device", "device"));
}
