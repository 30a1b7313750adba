use git_prompt::text::{parse_u64, split_lines, split_ws, str_eq, u64_to_string};

#[test]
fn split_ws_drops_all_whitespace() {
    let toks = split_ws("  a  bb\tc ");
    assert_eq!(toks, vec!["a", "bb", "c"]);
}

#[test]
fn split_ws_empty_and_blank() {
    assert!(split_ws("").is_empty());
    assert!(split_ws(" \t ").is_empty());
}

#[test]
fn split_lines_plain() {
    assert_eq!(split_lines("a\nb\nc"), vec!["a", "b", "c"]);
}

#[test]
fn split_lines_trailing_newline_adds_no_line() {
    assert_eq!(split_lines("a\nb\n"), vec!["a", "b"]);
}

#[test]
fn split_lines_keeps_empty_lines() {
    assert_eq!(split_lines("a\n\nb"), vec!["a", "", "b"]);
}

#[test]
fn split_lines_strips_carriage_return_before_newline_only() {
    assert_eq!(split_lines("a\r\nb\r"), vec!["a", "b\r"]);
}

#[test]
fn parse_u64_accepts_digits() {
    assert_eq!(parse_u64("0"), Some(0));
    assert_eq!(parse_u64("42"), Some(42));
    assert_eq!(parse_u64("007"), Some(7));
    assert_eq!(parse_u64("18446744073709551615"), Some(u64::MAX));
}

#[test]
fn parse_u64_rejects_bad_input() {
    assert_eq!(parse_u64(""), None);
    assert_eq!(parse_u64("-1"), None);
    assert_eq!(parse_u64("1x"), None);
    assert_eq!(parse_u64("18446744073709551616"), None);
}

#[test]
fn u64_to_string_writes_decimal() {
    assert_eq!(u64_to_string(0), "0");
    assert_eq!(u64_to_string(9), "9");
    assert_eq!(u64_to_string(10), "10");
    assert_eq!(u64_to_string(u64::MAX), "18446744073709551615");
}

#[test]
fn str_eq_compares_contents() {
    assert!(str_eq("", ""));
    assert!(str_eq("branch.oid", "branch.oid"));
    assert!(!str_eq("branch.oid", "branch.head"));
    assert!(!str_eq("a", "ab"));
}
