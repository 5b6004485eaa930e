//! The laws of the backtracking discipline, stated over the spec-level
//! meaning of the combinators and proved for every buffer and offset.
//!
//! Two further laws live elsewhere, in the contracts themselves: every
//! combinator keeps its offsets inside the buffer (the proof obligation
//! `lemma_result_bounds` of [`crate::parsers::parser::Parser`], discharged
//! by each combinator), and the validate-only interpreter is the
//! value-producing one with the value erased (the `ensures` of
//! [`crate::parsers::execution::Parsable::parse_only`], stated against the
//! same `result_spec` as `execute`).

use vstd::prelude::*;

use crate::parsers::basic::{Fail, Return, Try};
use crate::parsers::flow::{Or, Repeat};
use crate::parsers::literal::{delimited_string_spec, string_body_end, Span, DOUBLE_QUOTE_BYTE};
use crate::parsers::monadic::{FMap, Transform};
use crate::parsers::parser::Parser;
use crate::parsers::response::{spec_reject, spec_success};

verus! {

/// Alternation backtracks over a non-consuming failure: alternating the
/// always-failing parser with a pure value succeeds with that value at the
/// starting offset, consuming nothing, on every buffer.
pub proof fn lemma_or_backtracks<A: DeepView>(c: Or<Fail, Return<A>, A>, s: Seq<u8>, o: int)
    ensures
        c.result_spec(s, o) == spec_success(c.1.0.deep_view(), o, false),
{
}

/// Consumption commits: when the first branch fails having consumed input,
/// the alternation propagates that failure as-is and the second branch is
/// never consulted, whatever it would have produced.
pub proof fn lemma_or_commits<A: DeepView, E: Parser<A>, R: Parser<A>>(
    c: Or<E, R, A>,
    s: Seq<u8>,
    o: int,
)
    requires
        c.0.result_spec(s, o).v is None,
        c.0.result_spec(s, o).c,
    ensures
        c.result_spec(s, o) == spec_reject::<A::V>(c.0.result_spec(s, o).o, true),
{
}

/// The backtrack wrapper rolls a failure back completely: whenever the
/// wrapped parser fails, the wrapper fails at the original offset with
/// nothing consumed, whatever offset and consumption the failure reported.
pub proof fn lemma_try_rolls_back<A: DeepView, E: Parser<A>>(c: Try<E, A>, s: Seq<u8>, o: int)
    requires
        c.0.result_spec(s, o).v is None,
    ensures
        c.result_spec(s, o) == spec_reject::<A::V>(o, false),
{
}

/// The backtrack wrapper is invisible on success: a success of the wrapped
/// parser passes through unchanged.
pub proof fn lemma_try_passes_success<A: DeepView, E: Parser<A>>(c: Try<E, A>, s: Seq<u8>, o: int)
    requires
        c.0.result_spec(s, o).v is Some,
    ensures
        c.result_spec(s, o) == c.0.result_spec(s, o),
{
}

/// Zero-allowed repetition never fails: it produces the collected sequence,
/// empty where the first attempt already failed.
pub proof fn lemma_optrep_succeeds<A: DeepView, E: Parser<A>>(c: Repeat<E, A>, s: Seq<u8>, o: int)
    requires
        c.0 == true,
    ensures
        c.result_spec(s, o).v is Some,
{
}

/// One-or-more repetition rejects exactly where its sub-parser rejects the
/// first attempt: at the starting offset, with nothing consumed.
pub proof fn lemma_rep_rejects_empty<A: DeepView, E: Parser<A>>(c: Repeat<E, A>, s: Seq<u8>, o: int)
    requires
        c.0 == false,
        c.1.result_spec(s, o).v is None,
    ensures
        c.result_spec(s, o) == spec_reject::<Seq<A::V>>(o, false),
{
}

/// Mapping preserves a failure exactly: when the sub-parser fails, the
/// mapped parser fails at the same offset with the same consumed flag,
/// whatever the transform.
pub proof fn lemma_fmap_keeps_failure<A, B, E, T>(c: FMap<E, A, B, T>, s: Seq<u8>, o: int) where
    A: DeepView,
    B: DeepView,
    E: Parser<A>,
    T: Transform<A, B>,

    requires
        c.0.result_spec(s, o).v is None,
    ensures
        c.result_spec(s, o) == spec_reject::<B::V>(c.0.result_spec(s, o).o, c.0.result_spec(s, o).c),
{
}

/// A delimited string whose body scan runs to the end of the buffer — the
/// buffer ends before an unescaped closing quote — is rejected at the end
/// of the buffer with input consumed, never silently accepted as a partial
/// string.
pub proof fn lemma_unterminated_string_rejects(s: Seq<u8>, o: int)
    requires
        0 <= o < s.len(),
        s[o] == DOUBLE_QUOTE_BYTE,
        string_body_end(s, o + 1) == s.len(),
    ensures
        delimited_string_spec(s, o) == spec_reject::<Span>(s.len() as int, true),
{
}

/// In particular, mapping the always-failing parser fails exactly as the
/// always-failing parser does: at the starting offset, consuming nothing.
pub proof fn lemma_fmap_of_fail<A, B, T>(c: FMap<Fail, A, B, T>, s: Seq<u8>, o: int) where
    A: DeepView,
    B: DeepView,
    T: Transform<A, B>,

    ensures
        c.result_spec(s, o) == spec_reject::<B::V>(o, false),
{
}

} // verus!
