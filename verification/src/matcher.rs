//! The matcher: walks an input line trying to align a compiled token
//! sequence, anchored at the start of the line or at every offset.

use vstd::prelude::*;

use crate::compiler::build_patterns;
use crate::compiler::spec_compile;
use crate::pattern::alnum_char;
use crate::pattern::is_alnum_char;
use crate::pattern::is_digit_char;
use crate::pattern::str_to_chars;
use crate::pattern::token_accepts;
use crate::pattern::CompileError;
use crate::pattern::Pattern;
use crate::pattern::SpecPattern;

verus! {

/// The tokens from `ti` on align with the input from `ci` on: each
/// consuming token accepts the next character in turn.  Input may remain
/// once the tokens are exhausted.
pub open spec fn spec_matches_from(ts: Seq<SpecPattern>, input: Seq<char>, ti: int, ci: int) -> bool
    decreases ts.len() - ti,
{
    if ti >= ts.len() {
        true
    } else if ts[ti] is StartOfLine {
        spec_matches_from(ts, input, ti + 1, ci)
    } else if 0 <= ci < input.len() && token_accepts(ts[ti], input[ci]) {
        spec_matches_from(ts, input, ti + 1, ci + 1)
    } else {
        false
    }
}

/// As `spec_matches_from`, and the walk ends exactly at the end of the
/// input: no character is left unconsumed.
pub open spec fn spec_matches_exact(ts: Seq<SpecPattern>, input: Seq<char>, ti: int, ci: int) -> bool
    decreases ts.len() - ti,
{
    if ti >= ts.len() {
        ci == input.len()
    } else if ts[ti] is StartOfLine {
        spec_matches_exact(ts, input, ti + 1, ci)
    } else if 0 <= ci < input.len() && token_accepts(ts[ti], input[ci]) {
        spec_matches_exact(ts, input, ti + 1, ci + 1)
    } else {
        false
    }
}

/// What a whole token sequence means against a whole input line: anchored
/// sequences must align at offset 0 and consume the entire line; all other
/// sequences match if they align at some offset, leftovers allowed.
pub open spec fn spec_matches(ts: Seq<SpecPattern>, input: Seq<char>) -> bool {
    if ts.len() > 0 && ts[0] is StartOfLine {
        spec_matches_exact(ts, input, 1, 0)
    } else {
        exists|i: int| 0 <= i <= input.len() && spec_matches_from(ts, input, 0, i)
    }
}

/// Whether the character at `pos` exists and equals `literal`.
pub fn match_literal(input: &Vec<char>, pos: usize, literal: char) -> (r: bool)
    ensures
        r == (pos < input@.len() && input@[pos as int] == literal),
{
    pos < input.len() && input[pos] == literal
}

/// Whether the character at `pos` exists and is a decimal digit.
pub fn match_digit(input: &Vec<char>, pos: usize) -> (r: bool)
    ensures
        r == (pos < input@.len() && is_digit_char(input@[pos as int])),
{
    if pos < input.len() {
        let c = input[pos];
        '0' <= c && c <= '9'
    } else {
        false
    }
}

/// Whether the character at `pos` exists and is alphanumeric.
pub fn match_alphanumeric(input: &Vec<char>, pos: usize) -> (r: bool)
    ensures
        r == (pos < input@.len() && is_alnum_char(input@[pos as int])),
{
    if pos < input.len() {
        alnum_char(input[pos])
    } else {
        false
    }
}

/// Whether the character at `pos` exists and is one of the group members.
#[verifier::loop_isolation(false)]
pub fn match_group(input: &Vec<char>, pos: usize, group: &Vec<char>) -> (r: bool)
    ensures
        r == (pos < input@.len() && group@.contains(input@[pos as int])),
{
    if pos < input.len() {
        let c = input[pos];
        let mut k: usize = 0;
        while k < group.len()
            invariant
                k <= group@.len(),
                c == input@[pos as int],
                forall|j: int| 0 <= j < k ==> group@[j] != c,
            decreases group@.len() - k,
        {
            if group[k] == c {
                assert(group@[k as int] == c);
                return true;
            }
            k += 1;
        }
        false
    } else {
        false
    }
}

/// Whether the token consumes the character at `pos`: the character exists
/// and the token accepts it.
fn token_matches_at(t: &Pattern, input: &Vec<char>, pos: usize) -> (r: bool)
    ensures
        r == (pos < input@.len() && token_accepts(t@, input@[pos as int])),
{
    match t {
        Pattern::Literal(l) => match_literal(input, pos, *l),
        Pattern::Digit => match_digit(input, pos),
        Pattern::Alphanumeric => match_alphanumeric(input, pos),
        Pattern::Group(positive, members) => {
            let present = pos < input.len();
            let member = match_group(input, pos, members);
            present && (member == *positive)
        },
        Pattern::StartOfLine => false,
    }
}

/// One alignment attempt: the tokens from `ti` on against the input from
/// `ci` on, input allowed to remain.
#[verifier::loop_isolation(false)]
fn match_from(patterns: &Vec<Pattern>, ti: usize, input: &Vec<char>, ci: usize) -> (r: bool)
    requires
        ti <= patterns@.len(),
        ci <= input@.len(),
    ensures
        r == spec_matches_from(patterns.deep_view(), input@, ti as int, ci as int),
{
    let ghost ts = patterns.deep_view();
    let ghost ti0 = ti as int;
    let ghost ci0 = ci as int;
    let mut ti = ti;
    let mut ci = ci;
    while ti < patterns.len()
        invariant
            ti <= patterns@.len(),
            ci <= input@.len(),
            ts == patterns.deep_view(),
            spec_matches_from(ts, input@, ti0, ci0) == spec_matches_from(
                ts,
                input@,
                ti as int,
                ci as int,
            ),
        decreases patterns@.len() - ti,
    {
        assert(ts[ti as int] == patterns@[ti as int].deep_view());
        match &patterns[ti] {
            Pattern::StartOfLine => {
                ti += 1;
            },
            t => {
                if token_matches_at(t, input, ci) {
                    assert(ci < input.len());
                    ti += 1;
                    ci += 1;
                } else {
                    assert(!spec_matches_from(ts, input@, ti as int, ci as int));
                    return false;
                }
            },
        }
    }
    true
}

/// One anchored alignment attempt: as `match_from`, and the input must be
/// consumed to its end.
#[verifier::loop_isolation(false)]
fn match_exact(patterns: &Vec<Pattern>, ti: usize, input: &Vec<char>, ci: usize) -> (r: bool)
    requires
        ti <= patterns@.len(),
        ci <= input@.len(),
    ensures
        r == spec_matches_exact(patterns.deep_view(), input@, ti as int, ci as int),
{
    let ghost ts = patterns.deep_view();
    let ghost ti0 = ti as int;
    let ghost ci0 = ci as int;
    let mut ti = ti;
    let mut ci = ci;
    while ti < patterns.len()
        invariant
            ti <= patterns@.len(),
            ci <= input@.len(),
            ts == patterns.deep_view(),
            spec_matches_exact(ts, input@, ti0, ci0) == spec_matches_exact(
                ts,
                input@,
                ti as int,
                ci as int,
            ),
        decreases patterns@.len() - ti,
    {
        assert(ts[ti as int] == patterns@[ti as int].deep_view());
        match &patterns[ti] {
            Pattern::StartOfLine => {
                ti += 1;
            },
            t => {
                if token_matches_at(t, input, ci) {
                    assert(ci < input.len());
                    ti += 1;
                    ci += 1;
                } else {
                    assert(!spec_matches_exact(ts, input@, ti as int, ci as int));
                    return false;
                }
            },
        }
    }
    ci == input.len()
}

/// Whether the token is the start-of-line marker.
fn is_start_anchor(t: &Pattern) -> (r: bool)
    ensures
        r == (t@ is StartOfLine),
{
    match t {
        Pattern::StartOfLine => true,
        _ => false,
    }
}

/// Runs the compiled token sequence against the input line.  An anchored
/// sequence is tried at offset 0 only and must consume the whole line; any
/// other sequence is tried at every offset in ascending order.
#[verifier::loop_isolation(false)]
pub fn match_tokens(patterns: &Vec<Pattern>, input: &Vec<char>) -> (r: bool)
    ensures
        r == spec_matches(patterns.deep_view(), input@),
{
    let ghost ts = patterns.deep_view();
    if patterns.len() > 0 && is_start_anchor(&patterns[0]) {
        assert(ts[0] == patterns@[0].deep_view());
        match_exact(patterns, 1, input, 0)
    } else {
        assert(patterns@.len() > 0 ==> ts[0] == patterns@[0].deep_view());
        let n = input.len();
        let mut i: usize = 0;
        while i < n
            invariant
                i <= n,
                n == input@.len(),
                ts == patterns.deep_view(),
                forall|j: int| 0 <= j < i ==> !spec_matches_from(ts, input@, 0, j),
            decreases n - i,
        {
            if match_from(patterns, 0, input, i) {
                return true;
            }
            i += 1;
        }
        match_from(patterns, 0, input, n)
    }
}

/// Compiles the pattern and, when it is well formed, runs it against the
/// input line; a malformed pattern is reported as the compile error and no
/// matching is attempted.
pub fn match_pattern(input_line: &str, pattern: &str) -> (r: Result<bool, CompileError>)
    ensures
        (match spec_compile(pattern@) {
            Ok(ts) => r matches Ok(b) && b == spec_matches(ts, input_line@),
            Err(e) => r matches Err(e2) && e2 == e,
        }),
{
    match build_patterns(pattern) {
        Ok(patterns) => {
            let input = str_to_chars(input_line);
            Ok(match_tokens(&patterns, &input))
        },
        Err(e) => Err(e),
    }
}

} // verus!
