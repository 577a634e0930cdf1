//! The token vocabulary: compiled patterns, compile errors, and the
//! single-character tests the matcher applies.

use vstd::prelude::*;
use vstd::string::StrSliceExecFns;

verus! {

/// The ways compiling a pattern can fail.
#[derive(Clone, Copy, Debug, PartialEq, Eq, Structural)]
pub enum CompileError {
    /// A backslash stands as the final character of the pattern.
    TruncatedEscape,
    /// A backslash is followed by a character other than `d`, `w` or `\`.
    InvalidEscape,
    /// A `[` is never closed by a matching `]`.
    UnterminatedGroup,
}

/// One compiled unit of a pattern: a test of a single input character, or
/// the start-of-line marker.
#[derive(Debug, PartialEq)]
pub enum Pattern {
    /// Accepts exactly the character held.
    Literal(char),
    /// Accepts any decimal digit.
    Digit,
    /// Accepts any alphanumeric character.
    Alphanumeric,
    /// Accepts membership in the listed characters when the flag is true,
    /// non-membership when it is false.
    Group(bool, Vec<char>),
    /// Consumes nothing; as the first token it anchors the match to the
    /// start of the line and demands that the whole line be consumed.
    StartOfLine,
}

/// The mathematical model of a compiled token: as `Pattern`, with the group
/// members abstracted to a sequence of characters.
pub enum SpecPattern {
    Literal(char),
    Digit,
    Alphanumeric,
    Group(bool, Seq<char>),
    StartOfLine,
}

impl View for Pattern {
    type V = SpecPattern;

    open spec fn view(&self) -> SpecPattern {
        match self {
            Pattern::Literal(c) => SpecPattern::Literal(*c),
            Pattern::Digit => SpecPattern::Digit,
            Pattern::Alphanumeric => SpecPattern::Alphanumeric,
            Pattern::Group(positive, members) => SpecPattern::Group(*positive, members@),
            Pattern::StartOfLine => SpecPattern::StartOfLine,
        }
    }
}

impl DeepView for Pattern {
    type V = SpecPattern;

    open spec fn deep_view(&self) -> SpecPattern {
        self.view()
    }
}

/// Whether `c` is a decimal digit, the class `\d` tests for.
pub open spec fn is_digit_char(c: char) -> bool {
    '0' <= c && c <= '9'
}

/// What `char::is_alphanumeric` returns: a function of the character alone.
pub uninterp spec fn is_alnum_char(c: char) -> bool;

/// Relies on char::is_alphanumeric: whether the character counts as a
/// letter or a digit under the host's definition of alphanumeric.
#[verifier::external_body]
pub(crate) fn alnum_char(c: char) -> (r: bool)
    ensures
        r == is_alnum_char(c),
{
    c.is_alphanumeric()
}

/// Whether one consuming token accepts the character `c`.  `StartOfLine`
/// consumes no character, so no character is accepted by it.
pub open spec fn token_accepts(t: SpecPattern, c: char) -> bool {
    match t {
        SpecPattern::Literal(l) => c == l,
        SpecPattern::Digit => is_digit_char(c),
        SpecPattern::Alphanumeric => is_alnum_char(c),
        SpecPattern::Group(positive, members) => members.contains(c) == positive,
        SpecPattern::StartOfLine => false,
    }
}

/// The characters of `s`, materialized so that positions are explicit.
#[verifier::loop_isolation(false)]
pub fn str_to_chars(s: &str) -> (r: Vec<char>)
    ensures
        r@ == s@,
{
    let n = s.unicode_len();
    let mut r: Vec<char> = Vec::new();
    let mut i: usize = 0;
    while i < n
        invariant
            n == s@.len(),
            i <= n,
            r@.len() == i,
            forall|j: int| 0 <= j < i ==> r@[j] == s@[j],
        decreases n - i,
    {
        let c = s.get_char(i);
        r.push(c);
        i += 1;
    }
    assert(r@ =~= s@);
    r
}

} // verus!
