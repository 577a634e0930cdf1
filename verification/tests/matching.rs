use minipat::compiler::build_patterns;
use minipat::matcher::match_alphanumeric;
use minipat::matcher::match_digit;
use minipat::matcher::match_group;
use minipat::matcher::match_literal;
use minipat::matcher::match_pattern;
use minipat::matcher::match_tokens;
use minipat::pattern::str_to_chars;
use minipat::pattern::CompileError;

#[test]
fn literal_pattern_is_substring_search() {
    assert_eq!(match_pattern("hello world", "lo wo"), Ok(true));
    assert_eq!(match_pattern("hello world", "low"), Ok(false));
    assert_eq!(match_pattern("abc", "abc"), Ok(true));
    assert_eq!(match_pattern("ab", "abc"), Ok(false));
}

#[test]
fn anchored_pattern_must_consume_the_whole_line() {
    assert_eq!(match_pattern("abc", "^abc"), Ok(true));
    assert_eq!(match_pattern("abcd", "^abc"), Ok(false));
    assert_eq!(match_pattern("xabc", "^abc"), Ok(false));
}

#[test]
fn unanchored_pattern_matches_anywhere() {
    assert_eq!(match_pattern("xxabcxx", "abc"), Ok(true));
    assert_eq!(match_pattern("abX", "abc"), Ok(false));
}

#[test]
fn digit_class_needs_one_digit_somewhere() {
    assert_eq!(match_pattern("a1b", "\\d"), Ok(true));
    assert_eq!(match_pattern("abc", "\\d"), Ok(false));
    assert_eq!(match_pattern("", "\\d"), Ok(false));
}

#[test]
fn group_needs_one_member_somewhere() {
    assert_eq!(match_pattern("xbz", "[abc]"), Ok(true));
    assert_eq!(match_pattern("xyz", "[abc]"), Ok(false));
}

#[test]
fn negated_group_needs_one_non_member_somewhere() {
    assert_eq!(match_pattern("abc", "[^abc]"), Ok(false));
    assert_eq!(match_pattern("abz", "[^abc]"), Ok(true));
}

#[test]
fn malformed_patterns_report_their_error() {
    assert_eq!(match_pattern("abc", "\\"), Err(CompileError::TruncatedEscape));
    assert_eq!(match_pattern("abc", "\\z"), Err(CompileError::InvalidEscape));
    assert_eq!(
        match_pattern("abc", "[abc"),
        Err(CompileError::UnterminatedGroup)
    );
}

#[test]
fn compiling_twice_matches_identically() {
    let inputs = ["", "a", "a1b", "xxabcxx", "^", "\\", "[x]"];
    for pattern in ["abc", "^a\\dz", "[^q]\\w", "a^b"] {
        let first = build_patterns(pattern).unwrap();
        let second = build_patterns(pattern).unwrap();
        for input in inputs {
            let line = str_to_chars(input);
            assert_eq!(match_tokens(&first, &line), match_tokens(&second, &line));
        }
    }
}

#[test]
fn alphanumeric_class_follows_the_host() {
    assert_eq!(match_pattern("foo", "\\w"), Ok(true));
    assert_eq!(match_pattern("!!!", "\\w"), Ok(false));
    assert_eq!(match_pattern("--7--", "\\w"), Ok(true));
    assert_eq!(match_pattern("\u{e9}", "\\w"), Ok(true));
}

#[test]
fn escaped_backslash_matches_a_backslash() {
    assert_eq!(match_pattern("a\\b", "\\\\"), Ok(true));
    assert_eq!(match_pattern("ab", "\\\\"), Ok(false));
}

#[test]
fn caret_elsewhere_matches_a_literal_caret() {
    assert_eq!(match_pattern("xa^bz", "a^b"), Ok(true));
    assert_eq!(match_pattern("ab", "a^b"), Ok(false));
}

#[test]
fn empty_pattern_matches_any_line() {
    assert_eq!(match_pattern("", ""), Ok(true));
    assert_eq!(match_pattern("abc", ""), Ok(true));
}

#[test]
fn bare_anchor_matches_only_the_empty_line() {
    assert_eq!(match_pattern("", "^"), Ok(true));
    assert_eq!(match_pattern("a", "^"), Ok(false));
}

#[test]
fn empty_group_matches_nothing() {
    assert_eq!(match_pattern("abc", "[]"), Ok(false));
    assert_eq!(match_pattern("", "[]"), Ok(false));
}

#[test]
fn negated_empty_group_needs_any_character() {
    assert_eq!(match_pattern("a", "[^]"), Ok(true));
    assert_eq!(match_pattern("", "[^]"), Ok(false));
}

#[test]
fn negated_group_never_matches_without_input_left() {
    assert_eq!(match_pattern("b", "b[^a]"), Ok(false));
    assert_eq!(match_pattern("bc", "b[^a]"), Ok(true));
}

#[test]
fn anchored_classes_consume_exactly() {
    assert_eq!(match_pattern("a1", "^a\\d"), Ok(true));
    assert_eq!(match_pattern("a1x", "^a\\d"), Ok(false));
    assert_eq!(match_pattern("ab", "^a[^c]"), Ok(true));
    assert_eq!(match_pattern("abz", "^a[^c]"), Ok(false));
}

#[test]
fn offsets_count_characters_not_bytes() {
    assert_eq!(match_pattern("\u{e9}\u{e9}a1", "a\\d"), Ok(true));
    assert_eq!(match_pattern("\u{e9}a", "^\u{e9}a"), Ok(true));
    assert_eq!(match_pattern("\u{e9}", "[\u{e9}x]"), Ok(true));
}

#[test]
fn match_tokens_runs_a_compiled_sequence() {
    let tokens = build_patterns("b[^a]\\d").unwrap();
    assert!(match_tokens(&tokens, &str_to_chars("xbz7q")));
    assert!(!match_tokens(&tokens, &str_to_chars("baz7")));
}

#[test]
fn match_literal_tests_one_position() {
    let line = str_to_chars("abc");
    assert!(match_literal(&line, 0, 'a'));
    assert!(!match_literal(&line, 1, 'a'));
    assert!(!match_literal(&line, 3, 'c'));
}

#[test]
fn match_digit_tests_one_position() {
    let line = str_to_chars("a1");
    assert!(!match_digit(&line, 0));
    assert!(match_digit(&line, 1));
    assert!(!match_digit(&line, 2));
}

#[test]
fn match_alphanumeric_tests_one_position() {
    let line = str_to_chars("a!7");
    assert!(match_alphanumeric(&line, 0));
    assert!(!match_alphanumeric(&line, 1));
    assert!(match_alphanumeric(&line, 2));
    assert!(!match_alphanumeric(&line, 3));
}

#[test]
fn match_group_tests_membership_at_one_position() {
    let line = str_to_chars("xy");
    let group = str_to_chars("ayz");
    assert!(!match_group(&line, 0, &group));
    assert!(match_group(&line, 1, &group));
    assert!(!match_group(&line, 2, &group));
}
