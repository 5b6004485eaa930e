//! The dual interpreter contract: a value-producing execution and a
//! validate-only execution, both proved against the same spec-level meaning.

use vstd::prelude::*;

use crate::parsers::parser::Parser;
use crate::parsers::response::{agrees_erased, Response};

verus! {

/// Value-producing execution of a combinator.
pub trait Executable<A: DeepView>: Parser<A> {
    /// Runs the combinator against `s` at offset `o` and materialises the
    /// produced value. The response realises `result_spec` exactly.
    fn execute(&self, s: &[u8], o: usize) -> (r: Response<A>)
        requires
            o <= s@.len(),
        ensures
            r.agrees_with(self.result_spec(s@, o as int)),
    ;
}

/// Validate-only execution of a combinator.
///
/// Behaviourally equivalent to [`Executable::execute`] with the value
/// erased: it advances the offset and the consumed flag identically and
/// succeeds exactly when the value-producing execution would, but skips
/// materialising the value.
pub trait Parsable<A: DeepView>: Parser<A> {
    /// Runs the combinator against `s` at offset `o`, discarding the value.
    fn parse_only(&self, s: &[u8], o: usize) -> (r: Response<()>)
        requires
            o <= s@.len(),
        ensures
            agrees_erased(r, self.result_spec(s@, o as int)),
    ;
}

} // verus!
