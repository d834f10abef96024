use ai_agent::text::{
    chars_of, decimal_string, eq_ignore_ascii_case_str, is_white_space_char, join_strings, lex_less,
    pad_left_string, replace_all_string, sort_strings, str_equal, take_chars, trim_string,
};

#[test]
fn replace_all_replaces_every_occurrence_left_to_right() {
    assert_eq!(replace_all_string("a{x}b{x}", "{x}", "Z"), "aZbZ");
    assert_eq!(replace_all_string("aaa", "aa", "b"), "ba");
    assert_eq!(replace_all_string("no match", "{x}", "Z"), "no match");
    assert_eq!(replace_all_string("{x}", "{x}", "{x}{x}"), "{x}{x}");
}

#[test]
fn decimal_and_padding_match_format() {
    assert_eq!(decimal_string(0), "0");
    assert_eq!(decimal_string(1234), format!("{}", 1234));
    assert_eq!(pad_left_string("7", 4), format!("{:>4}", "7"));
    assert_eq!(pad_left_string("12345", 4), "12345");
}

#[test]
fn join_matches_std_join() {
    let parts = vec!["a".to_string(), "b".to_string(), "c".to_string()];
    assert_eq!(join_strings(&parts, ", "), parts.join(", "));
    assert_eq!(join_strings(&Vec::new(), "x"), "");
}

#[test]
fn trim_and_case_and_prefix() {
    assert_eq!(trim_string("  a b \n\u{3000}"), "a b");
    assert_eq!(trim_string("   "), "");
    assert!(eq_ignore_ascii_case_str("SkIp", "SKIP"));
    assert!(!eq_ignore_ascii_case_str("SKIPS", "SKIP"));
    assert_eq!(take_chars("héllo", 2), "hé");
    assert_eq!(take_chars("ab", 10), "ab");
    assert!(is_white_space_char('\u{2028}'));
    assert!(!is_white_space_char('x'));
    assert!(str_equal("abc", "abc"));
    assert_eq!(chars_of("中文"), vec!['中', '文']);
}

#[test]
fn strings_sort_as_std_orders_them() {
    let v = vec!["b".to_string(), "a".to_string(), "B".to_string(), "ab".to_string()];
    let mut expected = v.clone();
    expected.sort();
    assert_eq!(sort_strings(v), expected);
    assert!(lex_less("a", "ab"));
    assert!(!lex_less("b", "ab"));
}
