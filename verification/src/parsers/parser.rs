//! The parser contract: every combinator denotes a mathematical function
//! from a buffer and a starting offset to a spec-level response.

use vstd::prelude::*;

use crate::parsers::response::SpecResponse;

verus! {

/// A parsing rule producing values of type `A`.
///
/// `result_spec` is the mathematical meaning of the combinator: what one
/// invocation against buffer `s` at offset `o` produces, over the value
/// domain `A::V`. The executable interpreters of
/// [`crate::parsers::execution`] are proved against it.
pub trait Parser<A: DeepView> {
    /// The outcome of running this combinator against `s` at offset `o`.
    spec fn result_spec(&self, s: Seq<u8>, o: int) -> SpecResponse<A::V>;

    /// Offsets stay inside the buffer: starting inside the buffer, the
    /// offset reached — on success and on failure alike — is at least the
    /// starting offset and at most the buffer length. The zero-width reset
    /// of lookahead and the rollback of the backtrack wrapper return
    /// exactly to the starting offset, never before it.
    proof fn lemma_result_bounds(&self, s: Seq<u8>, o: int)
        requires
            0 <= o <= s.len(),
        ensures
            o <= self.result_spec(s, o).o <= s.len(),
    ;
}

} // verus!
