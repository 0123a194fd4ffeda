use forge_engine::text::{
    contains_str, contains_str_ci, find_sub, normalize_whitespace, replace_str, str_eq,
    trim_str, u64_to_string,
};

#[test]
fn trimming_removes_surrounding_whitespace_only() {
    assert_eq!(trim_str("  a b \t\r\n"), "a b");
    assert_eq!(trim_str(""), "");
    assert_eq!(trim_str(" \n "), "");
    assert_eq!(trim_str("x"), "x");
}

#[test]
fn string_equality_compares_characters() {
    assert!(str_eq("abc", "abc"));
    assert!(!str_eq("abc", "abd"));
    assert!(!str_eq("abc", "ab"));
    assert!(str_eq("", ""));
}

#[test]
fn substring_search_finds_the_first_occurrence() {
    assert_eq!(find_sub("abcabc", "bc"), Some(1));
    assert_eq!(find_sub("abc", "cd"), None);
    assert_eq!(find_sub("abc", ""), Some(0));
    assert!(contains_str("hello world", "o w"));
    assert!(!contains_str("hello", "World"));
    assert!(contains_str_ci("Hello World", "hello"));
    assert!(!contains_str_ci("Hello World", "worlds"));
}

#[test]
fn replacement_rewrites_every_occurrence_left_to_right() {
    assert_eq!(replace_str("a.b.a", "a", "xy"), "xy.b.xy");
    assert_eq!(replace_str("aaa", "aa", "b"), "ba");
    assert_eq!(replace_str("abc", "z", "y"), "abc");
    assert_eq!(replace_str("abc", "", "y"), "abc");
}

#[test]
fn numbers_format_in_decimal() {
    assert_eq!(u64_to_string(0), "0");
    assert_eq!(u64_to_string(7), "7");
    assert_eq!(u64_to_string(604), "604");
    assert_eq!(u64_to_string(u64::MAX), "18446744073709551615");
}

#[test]
fn whitespace_normalization_collapses_runs() {
    assert_eq!(normalize_whitespace("  a   b \n c "), "a b c");
    assert_eq!(normalize_whitespace("   "), "");
    assert_eq!(normalize_whitespace("one"), "one");
}
