//! Properties of the engine as a whole, proved from the contracts of the
//! compiler and the matcher.

use vstd::prelude::*;

use crate::compiler::spec_compile;
use crate::matcher::spec_matches;
use crate::matcher::spec_matches_exact;
use crate::matcher::spec_matches_from;
use crate::pattern::token_accepts;
use crate::pattern::CompileError;
use crate::pattern::SpecPattern;

verus! {

/// Every token of `ts` from position `ti` on is a literal.
pub open spec fn all_literals_from(ts: Seq<SpecPattern>, ti: int) -> bool {
    forall|k: int| ti <= k < ts.len() ==> ts[k] is Literal
}

/// The text spelled by a sequence of literal tokens.
pub open spec fn literal_text(ts: Seq<SpecPattern>) -> Seq<char> {
    Seq::new(ts.len(), |k: int| ts[k]->Literal_0)
}

/// The text `needle` stands in `hay` starting at position `i`.
pub open spec fn occurs_at(hay: Seq<char>, needle: Seq<char>, i: int) -> bool {
    0 <= i && i + needle.len() <= hay.len() && hay.subrange(i, i + needle.len() as int) == needle
}

/// A walk over literal tokens succeeds exactly when the input, from `ci`
/// on, continues with the literals' characters.
proof fn lemma_literal_walk(ts: Seq<SpecPattern>, input: Seq<char>, ti: int, ci: int)
    requires
        0 <= ti <= ts.len(),
        0 <= ci <= input.len(),
        all_literals_from(ts, ti),
    ensures
        spec_matches_from(ts, input, ti, ci) <==> (ci + (ts.len() - ti) <= input.len() && (forall|
            k: int,
        |
            ti <= k < ts.len() ==> input[ci + (k - ti)] == ts[k]->Literal_0)),
    decreases ts.len() - ti,
{
    if ti < ts.len() {
        if ci < input.len() && token_accepts(ts[ti], input[ci]) {
            lemma_literal_walk(ts, input, ti + 1, ci + 1);
        } else if ci < input.len() {
            assert(input[ci + (ti - ti)] != ts[ti]->Literal_0);
        }
    }
}

/// An anchored walk over literal tokens succeeds exactly when the input,
/// from `ci` on, is precisely the literals' characters.
proof fn lemma_literal_walk_exact(ts: Seq<SpecPattern>, input: Seq<char>, ti: int, ci: int)
    requires
        0 <= ti <= ts.len(),
        0 <= ci <= input.len(),
        all_literals_from(ts, ti),
    ensures
        spec_matches_exact(ts, input, ti, ci) <==> (ci + (ts.len() - ti) == input.len() && (forall|
            k: int,
        |
            ti <= k < ts.len() ==> input[ci + (k - ti)] == ts[k]->Literal_0)),
    decreases ts.len() - ti,
{
    if ti < ts.len() {
        if ci < input.len() && token_accepts(ts[ti], input[ci]) {
            lemma_literal_walk_exact(ts, input, ti + 1, ci + 1);
        } else if ci < input.len() {
            assert(input[ci + (ti - ti)] != ts[ti]->Literal_0);
        }
    }
}

/// A token sequence of literals alone matches an input line exactly when
/// the text it spells occurs in the line as a contiguous run: matching is
/// plain substring search.
pub proof fn lemma_literals_match_is_substring(ts: Seq<SpecPattern>, input: Seq<char>)
    requires
        all_literals_from(ts, 0),
    ensures
        spec_matches(ts, input) <==> (exists|i: int| occurs_at(input, literal_text(ts), i)),
{
    if spec_matches(ts, input) {
        let i = choose|i: int| 0 <= i <= input.len() && spec_matches_from(ts, input, 0, i);
        lemma_literal_walk(ts, input, 0, i);
        assert(input.subrange(i, i + ts.len() as int) =~= literal_text(ts));
        assert(occurs_at(input, literal_text(ts), i));
    }
    if exists|i: int| occurs_at(input, literal_text(ts), i) {
        let i = choose|i: int| occurs_at(input, literal_text(ts), i);
        lemma_literal_walk(ts, input, 0, i);
        assert forall|k: int| 0 <= k < ts.len() implies input[i + k] == ts[k]->Literal_0 by {
            assert(input.subrange(i, i + ts.len() as int)[k] == input[i + k]);
            assert(literal_text(ts)[k] == ts[k]->Literal_0);
        }
        assert(spec_matches_from(ts, input, 0, i));
        assert(0 <= i <= input.len());
    }
}

/// An anchored token sequence whose remaining tokens are literals alone
/// matches an input line exactly when the line is precisely the text those
/// literals spell: matching is string equality.
pub proof fn lemma_anchored_literals_match_is_equality(ts: Seq<SpecPattern>, input: Seq<char>)
    requires
        ts.len() > 0,
        ts[0] is StartOfLine,
        all_literals_from(ts, 1),
    ensures
        spec_matches(ts, input) <==> input == literal_text(ts.subrange(1, ts.len() as int)),
{
    let tail = ts.subrange(1, ts.len() as int);
    lemma_literal_walk_exact(ts, input, 1, 0);
    if spec_matches(ts, input) {
        assert(input =~= literal_text(tail));
    }
    if input == literal_text(tail) {
        assert forall|k: int| 1 <= k < ts.len() implies input[k - 1] == ts[k]->Literal_0 by {
            assert(literal_text(tail)[k - 1] == tail[k - 1]->Literal_0);
            assert(tail[k - 1] == ts[k]);
        }
        assert(spec_matches_exact(ts, input, 1, 0));
    }
}

/// A pattern compiled to a single consuming token matches an input line
/// exactly when some character of the line is accepted by that token: one
/// digit-class token demands a digit somewhere, one positive group a
/// member somewhere, one negated group a non-member somewhere.
pub proof fn lemma_single_token_match(t: SpecPattern, input: Seq<char>)
    requires
        !(t is StartOfLine),
    ensures
        spec_matches(seq![t], input) <==> (exists|i: int|
            0 <= i < input.len() && token_accepts(t, input[i])),
{
    let ts = seq![t];
    assert forall|i: int| 0 <= i <= input.len() implies spec_matches_from(ts, input, 0, i) == (i
        < input.len() && token_accepts(t, input[i])) by {
        assert(spec_matches_from(ts, input, 1, i + 1));
        assert(spec_matches_from(ts, input, 1, i));
    }
    if spec_matches(ts, input) {
        let i = choose|i: int| 0 <= i <= input.len() && spec_matches_from(ts, input, 0, i);
        assert(0 <= i < input.len() && token_accepts(t, input[i]));
    }
    if exists|i: int| 0 <= i < input.len() && token_accepts(t, input[i]) {
        let i = choose|i: int| 0 <= i < input.len() && token_accepts(t, input[i]);
        assert(spec_matches_from(ts, input, 0, i));
    }
}

/// Compiling a pattern is deterministic: two successful compiles of the
/// same pattern yield the same token sequence, so they produce identical
/// match results on every input.
pub proof fn lemma_compile_deterministic(
    p: Seq<char>,
    ts1: Seq<SpecPattern>,
    ts2: Seq<SpecPattern>,
    input: Seq<char>,
)
    requires
        spec_compile(p) == Ok::<Seq<SpecPattern>, CompileError>(ts1),
        spec_compile(p) == Ok::<Seq<SpecPattern>, CompileError>(ts2),
    ensures
        ts1 == ts2,
        spec_matches(ts1, input) == spec_matches(ts2, input),
{
}

} // verus!
