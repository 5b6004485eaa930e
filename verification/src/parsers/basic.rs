//! Leaf combinators and modifier combinators: the always-succeed and
//! always-fail parsers, the single-byte reader, end-of-stream, the
//! backtrack-forcing wrapper, zero-width lookahead, the predicate filter,
//! and the deferred-delegation wrapper.

use core::marker::PhantomData;

use vstd::prelude::*;

use crate::parsers::execution::{Executable, Parsable};
use crate::parsers::parser::Parser;
use crate::parsers::response::{response, spec_reject, spec_success, Response, SpecResponse};

verus! {

// -------------------------------------------------------------------------
// Parser type definition
// -------------------------------------------------------------------------

/// Always succeeds with a copy of the stored value, consuming nothing.
pub struct Return<E>(pub E);

/// Builds the always-succeeding combinator around `v`.
#[inline]
pub fn pure<A>(v: A) -> (r: Return<A>)
    ensures
        r.0 == v,
{
    Return(v)
}

// -------------------------------------------------------------------------

/// Always fails at the starting offset, consuming nothing.
pub struct Fail();

/// Builds the always-failing combinator.
#[inline]
pub fn fail() -> (r: Fail)
{
    Fail()
}

/// Builds the always-failing combinator.
#[inline]
pub fn fails() -> (r: Fail)
{
    Fail()
}

// -------------------------------------------------------------------------

/// Reads the byte at the current offset; fails without consuming at end of
/// buffer.
pub struct Any();

/// Builds the single-byte reader.
#[inline]
pub fn any() -> (r: Any)
{
    Any()
}

// -------------------------------------------------------------------------

/// Succeeds exactly at the end of the buffer, consuming nothing.
pub struct Eos();

/// Builds the end-of-stream combinator.
#[inline]
pub fn eos() -> (r: Eos)
{
    Eos()
}

// -------------------------------------------------------------------------

/// Backtrack-forcing wrapper: a failure of the sub-parser, committed or not,
/// becomes a failure at the original offset with nothing consumed; a success
/// passes through unchanged. This is the only way to obtain unlimited
/// backtracking across consumed input.
pub struct Try<E, A>(pub E, pub PhantomData<A>);

/// Wraps `p` so that its failures roll back to the starting offset.
#[inline]
pub fn do_try<E, A>(p: E) -> (r: Try<E, A>) where A: DeepView, E: Parser<A>
    ensures
        r.0 == p,
{
    Try(p, PhantomData)
}

// -------------------------------------------------------------------------

/// Zero-width lookahead: on success the produced value is kept but the
/// offset is reset to the starting offset; the sub-parser's consumed flag is
/// reported unchanged, on success and on failure alike. A failure keeps the
/// sub-parser's failing offset.
pub struct Lookahead<E, A>(pub E, pub PhantomData<A>);

/// Wraps `p` as a zero-width probe.
#[inline]
pub fn lookahead<E, A>(p: E) -> (r: Lookahead<E, A>) where A: DeepView, E: Parser<A>
    ensures
        r.0 == p,
{
    Lookahead(p, PhantomData)
}

// -------------------------------------------------------------------------

/// A decidable test on produced values: the executable test returns exactly
/// what the spec-level predicate says of the value's mathematical view.
pub trait Predicate<A: DeepView> {
    /// What the predicate holds of a value, stated over its view.
    spec fn test_spec(&self, a: A::V) -> bool;

    /// Runs the test.
    fn test(&self, a: &A) -> (r: bool)
        ensures
            r == self.test_spec(a.deep_view()),
    ;
}

/// Accepts exactly the stored byte.
pub struct ByteIs(pub u8);

/// Accepts every byte but the stored one.
pub struct ByteNot(pub u8);

/// Accepts every value.
pub struct AlwaysTrue();

/// Rejects every value.
pub struct AlwaysFalse();

impl Predicate<u8> for ByteIs {
    open spec fn test_spec(&self, a: u8) -> bool {
        a == self.0
    }

    fn test(&self, a: &u8) -> (r: bool) {
        *a == self.0
    }
}

impl Predicate<u8> for ByteNot {
    open spec fn test_spec(&self, a: u8) -> bool {
        a != self.0
    }

    fn test(&self, a: &u8) -> (r: bool) {
        *a != self.0
    }
}

impl<A: DeepView> Predicate<A> for AlwaysTrue {
    open spec fn test_spec(&self, a: A::V) -> bool {
        true
    }

    fn test(&self, _a: &A) -> (r: bool) {
        true
    }
}

impl<A: DeepView> Predicate<A> for AlwaysFalse {
    open spec fn test_spec(&self, a: A::V) -> bool {
        false
    }

    fn test(&self, _a: &A) -> (r: bool) {
        false
    }
}

// -------------------------------------------------------------------------

/// Predicate filter: runs the sub-parser, then rejects the produced value
/// when the predicate refuses it. The rejection keeps the sub-parser's
/// post-match offset and consumed flag, so it is committed whenever the
/// sub-parser consumed input; wrap the sub-parser in [`Try`] first for a
/// backtrackable filter.
pub struct Satisfy<E, A, P>(pub E, pub P, pub PhantomData<A>);

/// Builds the filter of `p` by predicate `f`.
#[inline]
pub fn satisfy<E, A, P>(p: E, f: P) -> (r: Satisfy<E, A, P>) where
    A: DeepView,
    E: Parser<A>,
    P: Predicate<A>,

    ensures
        r.0 == p,
        r.1 == f,
{
    Satisfy(p, f, PhantomData)
}

/// Method-style construction of [`Satisfy`].
pub trait SatisfyOperation<A, P>: Sized where A: DeepView, P: Predicate<A> {
    /// Filters the produced value through `f`.
    fn satisfy(self, f: P) -> (r: Satisfy<Self, A, P>)
        ensures
            r.0 == self,
            r.1 == f,
    ;

    /// Filters the produced value through `f`.
    fn filter(self, f: P) -> (r: Satisfy<Self, A, P>)
        ensures
            r.0 == self,
            r.1 == f,
    ;
}

impl<E, A, P> SatisfyOperation<A, P> for E where A: DeepView, E: Parser<A>, P: Predicate<A> {
    #[inline]
    fn satisfy(self, f: P) -> (r: Satisfy<E, A, P>) {
        satisfy(self, f)
    }

    #[inline]
    fn filter(self, f: P) -> (r: Satisfy<E, A, P>) {
        satisfy(self, f)
    }
}

// -------------------------------------------------------------------------

/// Deferred delegation point: evaluation is handed to the stored sub-parser
/// on every invocation. Grammars that refer to themselves would need
/// run-time dispatch through function values, which this engine does not
/// model; the wrapper is kept as the explicit place where such deferral
/// happens.
pub struct Lazy<E, A>(pub E, pub PhantomData<A>);

/// Wraps `p` as a deferred delegation point.
#[inline]
pub fn lazy<E, A>(p: E) -> (r: Lazy<E, A>) where A: DeepView, E: Parser<A>
    ensures
        r.0 == p,
{
    Lazy(p, PhantomData)
}

// -------------------------------------------------------------------------
// Parser execution
// -------------------------------------------------------------------------

impl<A: DeepView> Parser<A> for Return<A> {
    open spec fn result_spec(&self, s: Seq<u8>, o: int) -> SpecResponse<A::V> {
        spec_success(self.0.deep_view(), o, false)
    }

    proof fn lemma_result_bounds(&self, s: Seq<u8>, o: int) {
    }
}

impl<A: DeepView + Copy> Executable<A> for Return<A> {
    #[inline]
    fn execute(&self, _s: &[u8], o: usize) -> (r: Response<A>) {
        let Return(v) = self;

        response(Some(*v), o, false)
    }
}

impl<A: DeepView> Parsable<A> for Return<A> {
    #[inline]
    fn parse_only(&self, _s: &[u8], o: usize) -> (r: Response<()>) {
        response(Some(()), o, false)
    }
}

// -------------------------------------------------------------------------

impl<A: DeepView> Parser<A> for Fail {
    open spec fn result_spec(&self, s: Seq<u8>, o: int) -> SpecResponse<A::V> {
        spec_reject(o, false)
    }

    proof fn lemma_result_bounds(&self, s: Seq<u8>, o: int) {
    }
}

impl<A: DeepView> Executable<A> for Fail {
    #[inline]
    fn execute(&self, _s: &[u8], o: usize) -> (r: Response<A>) {
        response(None, o, false)
    }
}

impl<A: DeepView> Parsable<A> for Fail {
    #[inline]
    fn parse_only(&self, _s: &[u8], o: usize) -> (r: Response<()>) {
        response(None, o, false)
    }
}

// -------------------------------------------------------------------------

impl Parser<u8> for Any {
    open spec fn result_spec(&self, s: Seq<u8>, o: int) -> SpecResponse<u8> {
        if o < s.len() {
            spec_success(s[o], o + 1, true)
        } else {
            spec_reject(o, false)
        }
    }

    proof fn lemma_result_bounds(&self, s: Seq<u8>, o: int) {
    }
}

impl Executable<u8> for Any {
    #[inline]
    fn execute(&self, s: &[u8], o: usize) -> (r: Response<u8>) {
        if o < s.len() {
            return response(Some(s[o]), o + 1, true);
        }

        response(None, o, false)
    }
}

impl Parsable<u8> for Any {
    #[inline]
    fn parse_only(&self, s: &[u8], o: usize) -> (r: Response<()>) {
        if o < s.len() {
            return response(Some(()), o + 1, true);
        }

        response(None, o, false)
    }
}

// -------------------------------------------------------------------------

impl Parser<()> for Eos {
    open spec fn result_spec(&self, s: Seq<u8>, o: int) -> SpecResponse<()> {
        if o < s.len() {
            spec_reject(o, false)
        } else {
            spec_success((), o, false)
        }
    }

    proof fn lemma_result_bounds(&self, s: Seq<u8>, o: int) {
    }
}

impl Executable<()> for Eos {
    #[inline]
    fn execute(&self, s: &[u8], o: usize) -> (r: Response<()>) {
        self.parse_only(s, o)
    }
}

impl Parsable<()> for Eos {
    #[inline]
    fn parse_only(&self, s: &[u8], o: usize) -> (r: Response<()>) {
        if o < s.len() {
            return response(None, o, false);
        }

        response(Some(()), o, false)
    }
}

// -------------------------------------------------------------------------

impl<A: DeepView, E: Parser<A>> Parser<A> for Try<E, A> {
    open spec fn result_spec(&self, s: Seq<u8>, o: int) -> SpecResponse<A::V> {
        let r = self.0.result_spec(s, o);
        match r.v {
            None => spec_reject(o, false),
            Some(_) => r,
        }
    }

    proof fn lemma_result_bounds(&self, s: Seq<u8>, o: int) {
        self.0.lemma_result_bounds(s, o);
    }
}

impl<A: DeepView, E: Executable<A>> Executable<A> for Try<E, A> {
    fn execute(&self, s: &[u8], o: usize) -> (r: Response<A>) {
        let Try(p, _) = self;
        let r = p.execute(s, o);

        match r.v {
            None => response(None, o, false),
            _ => r,
        }
    }
}

impl<A: DeepView, E: Parsable<A>> Parsable<A> for Try<E, A> {
    fn parse_only(&self, s: &[u8], o: usize) -> (r: Response<()>) {
        let Try(p, _) = self;
        let r = p.parse_only(s, o);

        match r.v {
            None => response(None, o, false),
            _ => r,
        }
    }
}

// -------------------------------------------------------------------------

impl<A: DeepView, E: Parser<A>> Parser<A> for Lookahead<E, A> {
    open spec fn result_spec(&self, s: Seq<u8>, o: int) -> SpecResponse<A::V> {
        let r = self.0.result_spec(s, o);
        match r.v {
            Some(v) => spec_success(v, o, r.c),
            None => spec_reject(r.o, r.c),
        }
    }

    proof fn lemma_result_bounds(&self, s: Seq<u8>, o: int) {
        self.0.lemma_result_bounds(s, o);
    }
}

impl<A: DeepView, E: Executable<A>> Executable<A> for Lookahead<E, A> {
    fn execute(&self, s: &[u8], o: usize) -> (r: Response<A>) {
        let Lookahead(p, _) = self;
        let r = p.execute(s, o);

        match r.v {
            Some(v) => response(Some(v), o, r.c),
            _ => response(None, r.o, r.c),
        }
    }
}

// -------------------------------------------------------------------------

impl<A: DeepView, E: Parser<A>, P: Predicate<A>> Parser<A> for Satisfy<E, A, P> {
    open spec fn result_spec(&self, s: Seq<u8>, o: int) -> SpecResponse<A::V> {
        let r = self.0.result_spec(s, o);
        match r.v {
            Some(a) => if self.1.test_spec(a) {
                r
            } else {
                spec_reject(r.o, r.c)
            },
            None => r,
        }
    }

    proof fn lemma_result_bounds(&self, s: Seq<u8>, o: int) {
        self.0.lemma_result_bounds(s, o);
    }
}

impl<A: DeepView, E: Executable<A>, P: Predicate<A>> Executable<A> for Satisfy<E, A, P> {
    fn execute(&self, s: &[u8], o: usize) -> (r: Response<A>) {
        let Satisfy(p, c, _) = self;
        let r = p.execute(s, o);

        match r.v {
            Some(a) => {
                if c.test(&a) {
                    response(Some(a), r.o, r.c)
                } else {
                    response(None, r.o, r.c)
                }
            },
            _ => response(None, r.o, r.c),
        }
    }
}

impl<A: DeepView, E: Executable<A>, P: Predicate<A>> Parsable<A> for Satisfy<E, A, P> {
    fn parse_only(&self, s: &[u8], o: usize) -> (r: Response<()>) {
        let Satisfy(p, c, _) = self;
        let r = p.execute(s, o);

        match r.v {
            Some(a) => {
                if c.test(&a) {
                    response(Some(()), r.o, r.c)
                } else {
                    response(None, r.o, r.c)
                }
            },
            _ => response(None, r.o, r.c),
        }
    }
}

// -------------------------------------------------------------------------

impl<A: DeepView, E: Parser<A>> Parser<A> for Lazy<E, A> {
    open spec fn result_spec(&self, s: Seq<u8>, o: int) -> SpecResponse<A::V> {
        self.0.result_spec(s, o)
    }

    proof fn lemma_result_bounds(&self, s: Seq<u8>, o: int) {
        self.0.lemma_result_bounds(s, o);
    }
}

impl<A: DeepView, E: Executable<A>> Executable<A> for Lazy<E, A> {
    #[inline]
    fn execute(&self, s: &[u8], o: usize) -> (r: Response<A>) {
        let Lazy(p, _) = self;

        p.execute(s, o)
    }
}

impl<A: DeepView, E: Parsable<A>> Parsable<A> for Lazy<E, A> {
    #[inline]
    fn parse_only(&self, s: &[u8], o: usize) -> (r: Response<()>) {
        let Lazy(p, _) = self;

        p.parse_only(s, o)
    }
}

} // verus!
