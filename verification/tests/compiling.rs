use minipat::compiler::build_group_pattern;
use minipat::compiler::build_patterns;
use minipat::pattern::str_to_chars;
use minipat::pattern::CompileError;
use minipat::pattern::Pattern;

#[test]
fn literal_pattern_compiles_to_literals() {
    let tokens = build_patterns("abc").unwrap();
    assert_eq!(
        tokens,
        vec![
            Pattern::Literal('a'),
            Pattern::Literal('b'),
            Pattern::Literal('c'),
        ]
    );
}

#[test]
fn escapes_compile_to_classes() {
    let tokens = build_patterns("\\d\\w\\\\").unwrap();
    assert_eq!(
        tokens,
        vec![Pattern::Digit, Pattern::Alphanumeric, Pattern::Literal('\\')]
    );
}

#[test]
fn leading_caret_compiles_to_anchor() {
    let tokens = build_patterns("^ab").unwrap();
    assert_eq!(
        tokens,
        vec![
            Pattern::StartOfLine,
            Pattern::Literal('a'),
            Pattern::Literal('b'),
        ]
    );
}

#[test]
fn caret_elsewhere_is_a_literal() {
    let tokens = build_patterns("a^b").unwrap();
    assert_eq!(
        tokens,
        vec![
            Pattern::Literal('a'),
            Pattern::Literal('^'),
            Pattern::Literal('b'),
        ]
    );
}

#[test]
fn group_compiles_with_members() {
    let tokens = build_patterns("[abc]").unwrap();
    assert_eq!(tokens, vec![Pattern::Group(true, vec!['a', 'b', 'c'])]);
}

#[test]
fn negated_group_compiles_with_members() {
    let tokens = build_patterns("[^ab]").unwrap();
    assert_eq!(tokens, vec![Pattern::Group(false, vec!['a', 'b'])]);
}

#[test]
fn empty_group_compiles() {
    let tokens = build_patterns("[]").unwrap();
    assert_eq!(tokens, vec![Pattern::Group(true, vec![])]);
}

#[test]
fn negated_empty_group_compiles() {
    let tokens = build_patterns("[^]").unwrap();
    assert_eq!(tokens, vec![Pattern::Group(false, vec![])]);
}

#[test]
fn group_members_are_verbatim() {
    let tokens = build_patterns("[a^b\\]").unwrap();
    assert_eq!(tokens, vec![Pattern::Group(true, vec!['a', '^', 'b', '\\'])]);
}

#[test]
fn trailing_backslash_is_truncated_escape() {
    assert_eq!(build_patterns("\\"), Err(CompileError::TruncatedEscape));
    assert_eq!(build_patterns("ab\\"), Err(CompileError::TruncatedEscape));
}

#[test]
fn unknown_escape_is_invalid_escape() {
    assert_eq!(build_patterns("\\x"), Err(CompileError::InvalidEscape));
    assert_eq!(build_patterns("a\\q"), Err(CompileError::InvalidEscape));
}

#[test]
fn unclosed_group_is_unterminated_group() {
    assert_eq!(build_patterns("[abc"), Err(CompileError::UnterminatedGroup));
    assert_eq!(build_patterns("[^"), Err(CompileError::UnterminatedGroup));
    assert_eq!(build_patterns("a["), Err(CompileError::UnterminatedGroup));
}

#[test]
fn empty_pattern_compiles_to_nothing() {
    let tokens = build_patterns("").unwrap();
    assert_eq!(tokens, vec![]);
}

#[test]
fn build_group_pattern_reads_up_to_close() {
    let chars = str_to_chars("ab]x");
    let (positive, members, next) = build_group_pattern(&chars, 0).unwrap();
    assert!(positive);
    assert_eq!(members, vec!['a', 'b']);
    assert_eq!(next, 3);
}

#[test]
fn build_group_pattern_consumes_leading_caret() {
    let chars = str_to_chars("^ab]");
    let (positive, members, next) = build_group_pattern(&chars, 0).unwrap();
    assert!(!positive);
    assert_eq!(members, vec!['a', 'b']);
    assert_eq!(next, 4);
}

#[test]
fn build_group_pattern_without_close_fails() {
    let chars = str_to_chars("abc");
    assert_eq!(
        build_group_pattern(&chars, 0),
        Err(CompileError::UnterminatedGroup)
    );
}

#[test]
fn compiling_twice_gives_the_same_tokens() {
    for pattern in ["abc", "^a\\d[xy]z", "[^q]\\w\\\\", ""] {
        let first = build_patterns(pattern).unwrap();
        let second = build_patterns(pattern).unwrap();
        assert_eq!(first, second);
    }
}

#[test]
fn str_to_chars_iterates_by_character() {
    assert_eq!(str_to_chars("h\u{e9}llo"), vec!['h', '\u{e9}', 'l', 'l', 'o']);
    assert_eq!(str_to_chars(""), Vec::<char>::new());
}
