use screen_recorder::text::{
    chars_contain, contains_fold_lower, parse_decimal, str_contains, str_ends_with, str_eq,
    str_to_chars, trim_chars,
};

#[test]
fn substring_search_is_exact() {
    assert!(str_contains("hardware session", "session"));
    assert!(str_contains("abc", ""));
    assert!(!str_contains("abc", "abcd"));
    assert!(!str_contains("abab", "aba ") );
    let hay = str_to_chars("xxabyy");
    let needle = str_to_chars("ab");
    assert!(chars_contain(&hay, &needle));
}

#[test]
fn case_folding_search_ignores_ascii_case() {
    assert!(contains_fold_lower("A WARNING appeared", "warning"));
    assert!(contains_fold_lower("ErRoR", "error"));
    assert!(!contains_fold_lower("warming", "warning"));
}

#[test]
fn suffix_test_is_exact() {
    assert!(str_ends_with("clip.mp4", ".mp4"));
    assert!(!str_ends_with("clip.mp4x", ".mp4"));
    assert!(!str_ends_with("mp4", ".mp4"));
    assert!(str_ends_with("anything", ""));
}

#[test]
fn string_equality_by_characters() {
    assert!(str_eq("abc", "abc"));
    assert!(!str_eq("abc", "abd"));
    assert!(!str_eq("abc", "ab"));
}

#[test]
fn trimming_strips_ascii_whitespace() {
    let v = str_to_chars("  \t padded name \r\n");
    let trimmed: String = trim_chars(&v).into_iter().collect();
    assert_eq!(trimmed, "padded name");
    let empty = trim_chars(&str_to_chars("   "));
    assert!(empty.is_empty());
}

#[test]
fn decimal_parsing_accepts_exactly_numerals() {
    assert_eq!(parse_decimal(&str_to_chars("0")), Some(0));
    assert_eq!(parse_decimal(&str_to_chars("0042")), Some(42));
    assert_eq!(parse_decimal(&str_to_chars("")), None);
    assert_eq!(parse_decimal(&str_to_chars("12x")), None);
    assert_eq!(parse_decimal(&str_to_chars("-3")), None);
    assert_eq!(
        parse_decimal(&str_to_chars("999999999999999999999999999")),
        None
    );
}
