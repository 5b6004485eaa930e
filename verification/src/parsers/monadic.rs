//! Monadic combinators: the pure value transform (map) and data-dependent
//! sequencing (bind), together with the verified function values they apply.

use core::marker::PhantomData;

use vstd::prelude::*;

use crate::parsers::basic::Fail;
use crate::parsers::basic::fail;
use crate::parsers::basic::Return;
use crate::parsers::execution::{Executable, Parsable};
use crate::parsers::parser::Parser;
use crate::parsers::response::{response, spec_reject, spec_success, Response, SpecResponse};

verus! {

// -------------------------------------------------------------------------
// Function values
// -------------------------------------------------------------------------

/// A pure transform of produced values: the executable application returns
/// exactly what the spec-level function says over the views.
pub trait Transform<A: DeepView, B: DeepView> {
    /// The transform's meaning, over the value domains.
    spec fn apply_spec(&self, a: A::V) -> B::V;

    /// Applies the transform.
    fn apply(&self, a: A) -> (r: B)
        ensures
            r.deep_view() == self.apply_spec(a.deep_view()),
    ;
}

/// A continuation from produced values to the next parser to run: the
/// executable application builds exactly the parser the spec-level function
/// names.
pub trait Continuation<A: DeepView, R> {
    /// The continuation's meaning: which parser follows a value.
    spec fn apply_spec(&self, a: A::V) -> R;

    /// Builds the next parser.
    fn apply(&self, a: A) -> (r: R)
        ensures
            r == self.apply_spec(a.deep_view()),
    ;
}

/// Projects the left component of a produced pair.
pub struct First();

/// Projects the right component of a produced pair.
pub struct Second();

impl<A: DeepView, B: DeepView> Transform<(A, B), A> for First {
    open spec fn apply_spec(&self, a: (A::V, B::V)) -> A::V {
        a.0
    }

    fn apply(&self, a: (A, B)) -> (r: A) {
        a.0
    }
}

impl<A: DeepView, B: DeepView> Transform<(A, B), B> for Second {
    open spec fn apply_spec(&self, a: (A::V, B::V)) -> B::V {
        a.1
    }

    fn apply(&self, a: (A, B)) -> (r: B) {
        a.1
    }
}

/// Reads a produced byte as a character.
pub struct ByteAsChar();

impl Transform<u8, char> for ByteAsChar {
    open spec fn apply_spec(&self, a: u8) -> char {
        a as char
    }

    fn apply(&self, a: u8) -> (r: char) {
        a as char
    }
}

/// The decimal digits of `n`, most significant first, without sign or
/// leading zeroes.
pub open spec fn decimal_chars(n: nat) -> Seq<char>
    decreases n,
{
    if n < 10 {
        seq![decimal_digit(n)]
    } else {
        decimal_chars(n / 10).push(decimal_digit(n % 10))
    }
}

/// The character for one decimal digit.
pub open spec fn decimal_digit(d: nat) -> char {
    if d == 0 { '0' }
    else if d == 1 { '1' }
    else if d == 2 { '2' }
    else if d == 3 { '3' }
    else if d == 4 { '4' }
    else if d == 5 { '5' }
    else if d == 6 { '6' }
    else if d == 7 { '7' }
    else if d == 8 { '8' }
    else { '9' }
}

/// Relies on std's decimal formatting of `u32` (`ToString::to_string`): the
/// result is the number's base-ten digits, most significant first, with no
/// sign and no leading zeroes.
#[verifier::external_body]
fn u32_decimal(a: u32) -> (r: String)
    ensures
        r@ == decimal_chars(a as nat),
{
    a.to_string()
}

/// Renders a produced `u32` as its decimal text.
pub struct ToDecimalString();

impl Transform<u32, String> for ToDecimalString {
    open spec fn apply_spec(&self, a: u32) -> Seq<char> {
        decimal_chars(a as nat)
    }

    fn apply(&self, a: u32) -> (r: String) {
        u32_decimal(a)
    }
}

/// Continues with the successor of the produced number, wrapping at the
/// numeric boundary.
pub struct Increment();

impl Continuation<u32, Return<u32>> for Increment {
    open spec fn apply_spec(&self, a: u32) -> Return<u32> {
        Return(a.wrapping_add(1))
    }

    fn apply(&self, a: u32) -> (r: Return<u32>) {
        Return(a.wrapping_add(1))
    }
}

/// Continues with the always-failing parser, whatever was produced.
pub struct ToFail();

impl<A: DeepView> Continuation<A, Fail> for ToFail {
    open spec fn apply_spec(&self, a: A::V) -> Fail {
        Fail()
    }

    fn apply(&self, _a: A) -> (r: Fail) {
        fail()
    }
}

// -------------------------------------------------------------------------
// Parser type definition
// -------------------------------------------------------------------------

/// Pure value transform: runs the sub-parser and, on success, applies the
/// transform to the value, keeping offset and consumed flag; a failure
/// passes through unchanged.
pub struct FMap<E, A, B, T>(pub E, pub T, pub PhantomData<(A, B)>);

/// Builds the transform of `p` by `f`.
#[inline]
pub fn fmap<E, A, B, T>(f: T, p: E) -> (r: FMap<E, A, B, T>) where
    A: DeepView,
    B: DeepView,
    E: Parser<A>,
    T: Transform<A, B>,

    ensures
        r.0 == p,
        r.1 == f,
{
    FMap(p, f, PhantomData)
}

/// Method-style construction of [`FMap`].
pub trait FMapOperation<A, B, T>: Sized where
    A: DeepView,
    B: DeepView,
    T: Transform<A, B>,
 {
    /// Transforms the produced value through `f`.
    fn fmap(self, f: T) -> (r: FMap<Self, A, B, T>)
        ensures
            r.0 == self,
            r.1 == f,
    ;

    /// Transforms the produced value through `f`.
    fn map(self, f: T) -> (r: FMap<Self, A, B, T>)
        ensures
            r.0 == self,
            r.1 == f,
    ;
}

impl<E, A, B, T> FMapOperation<A, B, T> for E where
    A: DeepView,
    B: DeepView,
    E: Parser<A>,
    T: Transform<A, B>,
 {
    #[inline]
    fn fmap(self, f: T) -> (r: FMap<E, A, B, T>) {
        FMap(self, f, PhantomData)
    }

    #[inline]
    fn map(self, f: T) -> (r: FMap<E, A, B, T>) {
        FMap(self, f, PhantomData)
    }
}

// -------------------------------------------------------------------------

/// Data-dependent sequencing: runs the sub-parser and, on success, asks the
/// continuation for the next parser and runs it at the reached offset; the
/// consumed flags of both stages are combined. A failure of either stage
/// propagates with the flags accumulated so far.
pub struct Bind<E, A, R, B, F>(pub E, pub F, pub PhantomData<(A, R, B)>);

/// Builds the data-dependent sequence of `p` and `f`.
#[inline]
pub fn bind<E, A, R, B, F>(f: F, p: E) -> (r: Bind<E, A, R, B, F>) where
    A: DeepView,
    B: DeepView,
    E: Parser<A>,
    R: Parser<B>,
    F: Continuation<A, R>,

    ensures
        r.0 == p,
        r.1 == f,
{
    Bind(p, f, PhantomData)
}

/// Method-style construction of [`Bind`].
pub trait BindOperation<A, R, B, F>: Sized where
    A: DeepView,
    B: DeepView,
    R: Parser<B>,
    F: Continuation<A, R>,
 {
    /// Sequences `f` after the produced value.
    fn bind(self, f: F) -> (r: Bind<Self, A, R, B, F>)
        ensures
            r.0 == self,
            r.1 == f,
    ;

    /// Sequences `f` after the produced value.
    fn flat_map(self, f: F) -> (r: Bind<Self, A, R, B, F>)
        ensures
            r.0 == self,
            r.1 == f,
    ;
}

impl<E, A, R, B, F> BindOperation<A, R, B, F> for E where
    A: DeepView,
    B: DeepView,
    E: Parser<A>,
    R: Parser<B>,
    F: Continuation<A, R>,
 {
    #[inline]
    fn bind(self, f: F) -> (r: Bind<E, A, R, B, F>) {
        Bind(self, f, PhantomData)
    }

    #[inline]
    fn flat_map(self, f: F) -> (r: Bind<E, A, R, B, F>) {
        Bind(self, f, PhantomData)
    }
}

// -------------------------------------------------------------------------
// Parser execution
// -------------------------------------------------------------------------

impl<A, B, E, T> Parser<B> for FMap<E, A, B, T> where
    A: DeepView,
    B: DeepView,
    E: Parser<A>,
    T: Transform<A, B>,
 {
    open spec fn result_spec(&self, s: Seq<u8>, o: int) -> SpecResponse<B::V> {
        let r = self.0.result_spec(s, o);
        match r.v {
            Some(a) => spec_success(self.1.apply_spec(a), r.o, r.c),
            None => spec_reject(r.o, r.c),
        }
    }

    proof fn lemma_result_bounds(&self, s: Seq<u8>, o: int) {
        self.0.lemma_result_bounds(s, o);
    }
}

impl<A, B, E, T> Executable<B> for FMap<E, A, B, T> where
    A: DeepView,
    B: DeepView,
    E: Executable<A>,
    T: Transform<A, B>,
 {
    fn execute(&self, s: &[u8], o: usize) -> (r: Response<B>) {
        let FMap(parser, function, _) = self;
        let result = parser.execute(s, o);

        match result.v {
            Some(value) => response(Some(function.apply(value)), result.o, result.c),
            _ => response(None, result.o, result.c),
        }
    }
}

impl<A, B, E, T> Parsable<B> for FMap<E, A, B, T> where
    A: DeepView,
    B: DeepView,
    E: Parsable<A>,
    T: Transform<A, B>,
 {
    fn parse_only(&self, s: &[u8], o: usize) -> (r: Response<()>) {
        let FMap(parser, _, _) = self;
        let result = parser.parse_only(s, o);

        match result.v {
            Some(_) => response(Some(()), result.o, result.c),
            _ => response(None, result.o, result.c),
        }
    }
}

// -------------------------------------------------------------------------

impl<A, R, B, E, F> Parser<B> for Bind<E, A, R, B, F> where
    A: DeepView,
    B: DeepView,
    E: Parser<A>,
    R: Parser<B>,
    F: Continuation<A, R>,
 {
    open spec fn result_spec(&self, s: Seq<u8>, o: int) -> SpecResponse<B::V> {
        let r1 = self.0.result_spec(s, o);
        match r1.v {
            Some(a1) => {
                let r2 = self.1.apply_spec(a1).result_spec(s, r1.o);
                match r2.v {
                    Some(a2) => spec_success(a2, r2.o, r1.c || r2.c),
                    None => spec_reject(r2.o, r1.c || r2.c),
                }
            },
            None => spec_reject(r1.o, r1.c),
        }
    }

    proof fn lemma_result_bounds(&self, s: Seq<u8>, o: int) {
        self.0.lemma_result_bounds(s, o);
        let r1 = self.0.result_spec(s, o);
        if r1.v is Some {
            self.1.apply_spec(r1.v->Some_0).lemma_result_bounds(s, r1.o);
        }
    }
}

impl<A, R, B, E, F> Executable<B> for Bind<E, A, R, B, F> where
    A: DeepView,
    B: DeepView,
    E: Executable<A>,
    R: Executable<B>,
    F: Continuation<A, R>,
 {
    fn execute(&self, s: &[u8], o: usize) -> (r: Response<B>) {
        let Bind(p, f, _) = self;
        let r1 = p.execute(s, o);

        match r1.v {
            Some(a1) => {
                proof {
                    p.lemma_result_bounds(s@, o as int);
                }
                let r2 = f.apply(a1).execute(s, r1.o);

                match r2.v {
                    Some(a2) => response(Some(a2), r2.o, r1.c || r2.c),
                    _ => response(None, r2.o, r1.c || r2.c),
                }
            },
            _ => response(None, r1.o, r1.c),
        }
    }
}

} // verus!
