use memx::text::{
    chars_of, contains_str, parse_u16, parse_usize, push_decimal, sort_chars, to_lower, to_upper,
    trim_chars,
};

fn chars(s: &str) -> Vec<char> {
    s.chars().collect()
}

#[test]
fn characters_are_copied_in_order() {
    assert_eq!(chars_of("a你b"), vec!['a', '你', 'b']);
    assert!(chars_of("").is_empty());
}

#[test]
fn trimming_uses_unicode_whitespace() {
    let v = chars_of("\u{3000} hi \t\n");
    assert_eq!(trim_chars(&v), chars("hi"));
}

#[test]
fn ascii_case_changes_only_ascii_letters() {
    assert_eq!(to_upper(&chars_of("abc-é")), chars("ABC-é"));
    assert_eq!(to_lower(&chars_of("ABC-É")), chars("abc-É"));
}

#[test]
fn unsigned_parsing_follows_from_str() {
    assert_eq!(parse_usize("42"), Some(42));
    assert_eq!(parse_usize("+7"), Some(7));
    assert_eq!(parse_usize(""), None);
    assert_eq!(parse_usize(" 1"), None);
    assert_eq!(parse_u16("65535"), Some(65535));
    assert_eq!(parse_u16("65536"), None);
}

#[test]
fn decimal_rendering() {
    let mut out = Vec::new();
    push_decimal(&mut out, 0);
    out.push(' ');
    push_decimal(&mut out, 1024);
    out.push(' ');
    push_decimal(&mut out, u64::MAX);
    assert_eq!(out, chars("0 1024 18446744073709551615"));
}

#[test]
fn substrings_are_found() {
    assert!(contains_str("search_content TEXT", "search_content"));
    assert!(!contains_str("content", "search_content"));
    assert!(contains_str("abc", ""));
}

#[test]
fn sorting_orders_by_characters() {
    let v = vec![chars_of("release"), chars_of("operations"), chars_of("Ops")];
    assert_eq!(sort_chars(&v), vec![chars("Ops"), chars("operations"), chars("release")]);
}
