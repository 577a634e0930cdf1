//! The pattern compiler: one left-to-right pass over a pattern string that
//! yields the token sequence, or a compile error for a malformed pattern.

use vstd::prelude::*;

use crate::pattern::str_to_chars;
use crate::pattern::CompileError;
use crate::pattern::Pattern;
use crate::pattern::SpecPattern;

verus! {

/// The position of the first `]` at or after `i` in `p`, if there is one.
pub open spec fn find_close(p: Seq<char>, i: int) -> Option<int>
    decreases p.len() - i,
{
    if i < 0 || i >= p.len() {
        None
    } else if p[i] == ']' {
        Some(i)
    } else {
        find_close(p, i + 1)
    }
}

/// A found `]` lies between the start of the search and the end of the
/// pattern.
pub proof fn lemma_find_close_some(p: Seq<char>, i: int)
    ensures
        find_close(p, i) matches Some(close) ==> i <= close < p.len() && p[close] == ']',
    decreases p.len() - i,
{
    if 0 <= i < p.len() && p[i] != ']' {
        lemma_find_close_some(p, i + 1);
    }
}

/// Prefixes one token to a compile result, keeping an error as it is.
pub open spec fn prepend(
    t: SpecPattern,
    rest: Result<Seq<SpecPattern>, CompileError>,
) -> Result<Seq<SpecPattern>, CompileError> {
    match rest {
        Ok(ts) => Ok(seq![t] + ts),
        Err(e) => Err(e),
    }
}

/// The tokens the pattern compiles to from position `i` on.  `^` emits the
/// start-of-line marker only at position 0; elsewhere it is an ordinary
/// literal.  A backslash escapes `d`, `w` or `\`; a `[` opens a character
/// group, negated by a leading `^`, whose members run verbatim up to the
/// matching `]`.
pub open spec fn spec_compile_from(p: Seq<char>, i: int) -> Result<Seq<SpecPattern>, CompileError>
    decreases p.len() - i,
    via spec_compile_from_decreases
{
    if i < 0 || i >= p.len() {
        Ok(Seq::empty())
    } else if p[i] == '\\' {
        if i + 1 >= p.len() {
            Err(CompileError::TruncatedEscape)
        } else if p[i + 1] == 'd' {
            prepend(SpecPattern::Digit, spec_compile_from(p, i + 2))
        } else if p[i + 1] == 'w' {
            prepend(SpecPattern::Alphanumeric, spec_compile_from(p, i + 2))
        } else if p[i + 1] == '\\' {
            prepend(SpecPattern::Literal('\\'), spec_compile_from(p, i + 2))
        } else {
            Err(CompileError::InvalidEscape)
        }
    } else if p[i] == '[' {
        match find_close(p, i + 1) {
            None => Err(CompileError::UnterminatedGroup),
            Some(close) => {
                let negated = i + 1 < close && p[i + 1] == '^';
                let start = if negated {
                    i + 2
                } else {
                    i + 1
                };
                prepend(
                    SpecPattern::Group(!negated, p.subrange(start, close)),
                    spec_compile_from(p, close + 1),
                )
            },
        }
    } else if p[i] == '^' && i == 0 {
        prepend(SpecPattern::StartOfLine, spec_compile_from(p, i + 1))
    } else {
        prepend(SpecPattern::Literal(p[i]), spec_compile_from(p, i + 1))
    }
}

#[via_fn]
proof fn spec_compile_from_decreases(p: Seq<char>, i: int) {
    if 0 <= i < p.len() && p[i] == '[' {
        lemma_find_close_some(p, i + 1);
    }
}

/// The whole pattern's compile result.
pub open spec fn spec_compile(p: Seq<char>) -> Result<Seq<SpecPattern>, CompileError> {
    spec_compile_from(p, 0)
}

/// Collects the body of a character group.  `start` is the position just
/// after the opening `[`; a leading `^` negates the group, and every
/// character up to the matching `]` is a member, verbatim.  A group that
/// the pattern never closes is the unterminated-group error.
#[verifier::loop_isolation(false)]
pub fn build_group_pattern(pattern: &Vec<char>, start: usize) -> (r: Result<
    (bool, Vec<char>, usize),
    CompileError,
>)
    requires
        start <= pattern@.len(),
    ensures
        (match find_close(pattern@, start as int) {
            Some(close) => (r matches Ok(t) && {
                let negated = (start as int) < close && pattern@[start as int] == '^';
                &&& t.0 == !negated
                &&& t.1@ == pattern@.subrange(
                    if negated {
                        start as int + 1
                    } else {
                        start as int
                    },
                    close,
                )
                &&& t.2 as int == close + 1
            }),
            None => r matches Err(e) && e == CompileError::UnterminatedGroup,
        }),
        r matches Ok(t) ==> (start as int) < t.2 <= pattern@.len(),
{
    let ghost p = pattern@;
    let ghost s0 = start as int;
    let mut positive = true;
    let mut i = start;
    if i < pattern.len() && pattern[i] == '^' {
        positive = false;
        assert(find_close(p, s0) == find_close(p, s0 + 1));
        i += 1;
    }
    let ghost body = i as int;
    let mut members: Vec<char> = Vec::new();
    proof {
        assert(members@ =~= p.subrange(body, body));
    }
    while i < pattern.len()
        invariant
            p == pattern@,
            body <= i <= p.len(),
            body == (if s0 < p.len() && p[s0] == '^' {
                s0 + 1
            } else {
                s0
            }),
            find_close(p, s0) == find_close(p, i as int),
            members@ == p.subrange(body, i as int),
            positive == (body == s0),
        decreases p.len() - i,
    {
        let c = pattern[i];
        if c == ']' {
            assert(find_close(p, i as int) == Some(i as int));
            return Ok((positive, members, i + 1));
        }
        assert(find_close(p, i as int) == find_close(p, i as int + 1));
        proof {
            assert(p.subrange(body, i as int + 1) =~= p.subrange(body, i as int).push(p[i as int]));
        }
        members.push(c);
        i += 1;
    }
    assert(find_close(p, i as int) is None);
    Err(CompileError::UnterminatedGroup)
}

/// Compiles the pattern string into its token sequence, or reports the
/// first malformation found: a truncated escape, an invalid escape target,
/// or an unterminated group.
#[verifier::loop_isolation(false)]
pub fn build_patterns(pattern: &str) -> (r: Result<Vec<Pattern>, CompileError>)
    ensures
        (match spec_compile(pattern@) {
            Ok(ts) => r matches Ok(v) && v.deep_view() == ts,
            Err(e) => r matches Err(e2) && e2 == e,
        }),
{
    let chars = str_to_chars(pattern);
    let ghost p = pattern@;
    let mut tokens: Vec<Pattern> = Vec::new();
    let mut i: usize = 0;
    while i < chars.len()
        invariant
            chars@ == p,
            i <= p.len(),
            (match spec_compile_from(p, i as int) {
                Ok(rest) => spec_compile(p) == Ok::<Seq<SpecPattern>, CompileError>(
                    tokens.deep_view() + rest,
                ),
                Err(e) => spec_compile(p) == Err::<Seq<SpecPattern>, CompileError>(e),
            }),
        decreases p.len() - i,
    {
        let ghost dv0 = tokens.deep_view();
        let c = chars[i];
        if c == '\\' {
            if i + 1 >= chars.len() {
                assert(spec_compile_from(p, i as int) == Err::<Seq<SpecPattern>, CompileError>(
                    CompileError::TruncatedEscape,
                ));
                return Err(CompileError::TruncatedEscape);
            }
            let d = chars[i + 1];
            if d == 'd' {
                assert(spec_compile_from(p, i as int) == prepend(
                    SpecPattern::Digit,
                    spec_compile_from(p, i as int + 2),
                ));
                push_token(&mut tokens, Pattern::Digit);
                proof {
                    lemma_extend(p, dv0, SpecPattern::Digit, tokens.deep_view(), i as int + 2);
                }
                i += 2;
            } else if d == 'w' {
                assert(spec_compile_from(p, i as int) == prepend(
                    SpecPattern::Alphanumeric,
                    spec_compile_from(p, i as int + 2),
                ));
                push_token(&mut tokens, Pattern::Alphanumeric);
                proof {
                    lemma_extend(
                        p,
                        dv0,
                        SpecPattern::Alphanumeric,
                        tokens.deep_view(),
                        i as int + 2,
                    );
                }
                i += 2;
            } else if d == '\\' {
                assert(spec_compile_from(p, i as int) == prepend(
                    SpecPattern::Literal('\\'),
                    spec_compile_from(p, i as int + 2),
                ));
                push_token(&mut tokens, Pattern::Literal('\\'));
                proof {
                    lemma_extend(
                        p,
                        dv0,
                        SpecPattern::Literal('\\'),
                        tokens.deep_view(),
                        i as int + 2,
                    );
                }
                i += 2;
            } else {
                assert(spec_compile_from(p, i as int) == Err::<Seq<SpecPattern>, CompileError>(
                    CompileError::InvalidEscape,
                ));
                return Err(CompileError::InvalidEscape);
            }
        } else if c == '[' {
            match build_group_pattern(&chars, i + 1) {
                Ok((positive, members, next)) => {
                    let ghost mseq = members@;
                    let ghost close = next as int - 1;
                    let ghost negated = i as int + 1 < close && p[i as int + 1] == '^';
                    assert(spec_compile_from(p, i as int) == prepend(
                        SpecPattern::Group(!negated, mseq),
                        spec_compile_from(p, close + 1),
                    ));
                    push_token(&mut tokens, Pattern::Group(positive, members));
                    proof {
                        lemma_extend(
                            p,
                            dv0,
                            SpecPattern::Group(!negated, mseq),
                            tokens.deep_view(),
                            close + 1,
                        );
                    }
                    i = next;
                },
                Err(e) => {
                    assert(spec_compile_from(p, i as int) == Err::<Seq<SpecPattern>, CompileError>(
                        e,
                    ));
                    return Err(e);
                },
            }
        } else if c == '^' && i == 0 {
            assert(spec_compile_from(p, i as int) == prepend(
                SpecPattern::StartOfLine,
                spec_compile_from(p, i as int + 1),
            ));
            push_token(&mut tokens, Pattern::StartOfLine);
            proof {
                lemma_extend(p, dv0, SpecPattern::StartOfLine, tokens.deep_view(), i as int + 1);
            }
            i += 1;
        } else {
            assert(spec_compile_from(p, i as int) == prepend(
                SpecPattern::Literal(c),
                spec_compile_from(p, i as int + 1),
            ));
            push_token(&mut tokens, Pattern::Literal(c));
            proof {
                lemma_extend(p, dv0, SpecPattern::Literal(c), tokens.deep_view(), i as int + 1);
            }
            i += 1;
        }
    }
    assert(spec_compile_from(p, i as int) == Ok::<Seq<SpecPattern>, CompileError>(Seq::empty()));
    proof {
        assert(tokens.deep_view() + Seq::<SpecPattern>::empty() =~= tokens.deep_view());
    }
    Ok(tokens)
}

/// Appends one token, stated over the deep views so that callers reason
/// about the abstract token sequence alone.
fn push_token(tokens: &mut Vec<Pattern>, t: Pattern)
    ensures
        final(tokens).deep_view() == old(tokens).deep_view().push(t@),
{
    let ghost dv0 = tokens.deep_view();
    let ghost tv = t@;
    tokens.push(t);
    proof {
        assert(tokens.deep_view() =~= dv0.push(tv));
    }
}

/// Carries the compile invariant over the push of one token: what remains
/// to compile from `rest_at` on, prefixed with the tokens built so far and
/// the new token, is still the whole pattern's compile result.
proof fn lemma_extend(
    p: Seq<char>,
    dv0: Seq<SpecPattern>,
    t: SpecPattern,
    dv1: Seq<SpecPattern>,
    rest_at: int,
)
    requires
        dv1 == dv0.push(t),
        (match prepend(t, spec_compile_from(p, rest_at)) {
            Ok(all) => spec_compile(p) == Ok::<Seq<SpecPattern>, CompileError>(dv0 + all),
            Err(e) => spec_compile(p) == Err::<Seq<SpecPattern>, CompileError>(e),
        }),
    ensures
        (match spec_compile_from(p, rest_at) {
            Ok(rest) => spec_compile(p) == Ok::<Seq<SpecPattern>, CompileError>(dv1 + rest),
            Err(e) => spec_compile(p) == Err::<Seq<SpecPattern>, CompileError>(e),
        }),
{
    match spec_compile_from(p, rest_at) {
        Ok(rest) => {
            assert(dv0 + (seq![t] + rest) =~= dv1 + rest);
        },
        Err(_) => {},
    }
}

} // verus!
