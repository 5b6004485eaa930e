//! Structural combinators: ordered alternation, ordered sequencing,
//! optional occurrence, bounded/unbounded repetition, the whitespace-class
//! skipper, and the derived take-while / take-one utilities.

use core::marker::PhantomData;

use vstd::prelude::*;

use crate::parsers::basic::{satisfy, Any, Predicate, Satisfy, Try};
use crate::parsers::execution::{Executable, Parsable};
use crate::parsers::monadic::{First, FMap, Second};
use crate::parsers::parser::Parser;
use crate::parsers::response::{response, spec_reject, spec_success, Response, SpecResponse};

verus! {

// -------------------------------------------------------------------------
// Parser type definition
// -------------------------------------------------------------------------

/// Ordered alternation with the consumption-commits rule: the second branch
/// is attempted only when the first fails without having consumed input; a
/// committed failure of the first branch is propagated as-is.
pub struct Or<E, R, A>(pub E, pub R, pub PhantomData<A>);

/// Builds the alternation of `p1` and `p2`.
#[inline]
pub fn or<E, R, A>(p1: E, p2: R) -> (r: Or<E, R, A>) where
    A: DeepView,
    E: Parser<A>,
    R: Parser<A>,

    ensures
        r.0 == p1,
        r.1 == p2,
{
    Or(p1, p2, PhantomData)
}

/// Method-style construction of [`Or`].
pub trait OrOperation<R, A>: Sized where A: DeepView, R: Parser<A> {
    /// Alternates `self` with `a`.
    fn or(self, a: R) -> (r: Or<Self, R, A>)
        ensures
            r.0 == self,
            r.1 == a,
    ;
}

impl<E, R, A> OrOperation<R, A> for E where A: DeepView, E: Parser<A>, R: Parser<A> {
    #[inline]
    fn or(self, a: R) -> (r: Or<E, R, A>) {
        Or(self, a, PhantomData)
    }
}

// -------------------------------------------------------------------------

/// Ordered sequencing: runs the first combinator, then the second at the
/// reached offset, producing the pair of values; the consumed flags of the
/// two runs are combined, on success and on failure of the second run alike.
pub struct And<E, A, R, B>(pub E, pub R, pub PhantomData<(A, B)>);

/// Builds the sequence of `p1` and `p2`.
#[inline]
pub fn and<E, A, R, B>(p1: E, p2: R) -> (r: And<E, A, R, B>) where
    A: DeepView,
    B: DeepView,
    E: Parser<A>,
    R: Parser<B>,

    ensures
        r.0 == p1,
        r.1 == p2,
{
    And(p1, p2, PhantomData)
}

/// Method-style construction of [`And`] and its two projections.
pub trait AndOperation<A, R, B>: Sized where A: DeepView, B: DeepView, R: Parser<B> {
    /// Sequences `self` before `b`, producing the pair of values.
    fn then(self, b: R) -> (r: And<Self, A, R, B>)
        ensures
            r.0 == self,
            r.1 == b,
    ;

    /// Sequences `self` before `b`, keeping the left value.
    fn then_left(self, b: R) -> (r: FMap<And<Self, A, R, B>, (A, B), A, First>)
        ensures
            r.0.0 == self,
            r.0.1 == b,
    ;

    /// Sequences `self` before `b`, keeping the right value.
    fn then_right(self, b: R) -> (r: FMap<And<Self, A, R, B>, (A, B), B, Second>)
        ensures
            r.0.0 == self,
            r.0.1 == b,
    ;
}

impl<E, A, R, B> AndOperation<A, R, B> for E where
    A: DeepView,
    B: DeepView,
    E: Parser<A>,
    R: Parser<B>,
 {
    #[inline]
    fn then(self, b: R) -> (r: And<E, A, R, B>) {
        And(self, b, PhantomData)
    }

    #[inline]
    fn then_left(self, b: R) -> (r: FMap<And<E, A, R, B>, (A, B), A, First>) {
        FMap(And(self, b, PhantomData), First(), PhantomData)
    }

    #[inline]
    fn then_right(self, b: R) -> (r: FMap<And<E, A, R, B>, (A, B), B, Second>) {
        FMap(And(self, b, PhantomData), Second(), PhantomData)
    }
}

// -------------------------------------------------------------------------

/// Optional occurrence: a success is wrapped in a present optional; a
/// failure without consumption becomes a success with an absent optional at
/// the original offset; a committed failure propagates as reported.
pub struct Opt<E, A>(pub E, pub PhantomData<A>);

/// Builds the optional occurrence of `p`.
#[inline]
pub fn opt<E, A>(p: E) -> (r: Opt<E, A>) where A: DeepView, E: Parser<A>
    ensures
        r.0 == p,
{
    Opt(p, PhantomData)
}

// -------------------------------------------------------------------------

/// Repetition: runs the sub-parser as long as it succeeds and advances,
/// collecting the values in parse order and combining the consumed flags.
/// With `allow_zero` (the first field) the empty run succeeds; without it,
/// at least one element is required. A success of the sub-parser that does
/// not advance the offset ends the run, so that repetition of a
/// non-consuming parser terminates.
pub struct Repeat<E, A>(pub bool, pub E, pub PhantomData<A>);

/// Builds the zero-or-more repetition of `p`.
#[inline]
pub fn optrep<E, A>(p: E) -> (r: Repeat<E, A>) where A: DeepView, E: Parser<A>
    ensures
        r.0 == true,
        r.1 == p,
{
    Repeat(true, p, PhantomData)
}

/// Builds the one-or-more repetition of `p`.
#[inline]
pub fn rep<E, A>(p: E) -> (r: Repeat<E, A>) where A: DeepView, E: Parser<A>
    ensures
        r.0 == false,
        r.1 == p,
{
    Repeat(false, p, PhantomData)
}

/// Method-style construction of [`Opt`] and [`Repeat`].
pub trait RepeatOperation<A>: Sized where A: DeepView {
    /// The optional occurrence of `self`.
    fn opt(self) -> (r: Opt<Self, A>)
        ensures
            r.0 == self,
    ;

    /// The one-or-more repetition of `self`.
    fn rep(self) -> (r: Repeat<Self, A>)
        ensures
            r.0 == false,
            r.1 == self,
    ;

    /// The zero-or-more repetition of `self`.
    fn optrep(self) -> (r: Repeat<Self, A>)
        ensures
            r.0 == true,
            r.1 == self,
    ;
}

impl<E, A> RepeatOperation<A> for E where A: DeepView, E: Parser<A> {
    #[inline]
    fn opt(self) -> (r: Opt<E, A>) {
        Opt(self, PhantomData)
    }

    #[inline]
    fn rep(self) -> (r: Repeat<E, A>) {
        Repeat(false, self, PhantomData)
    }

    #[inline]
    fn optrep(self) -> (r: Repeat<E, A>) {
        Repeat(true, self, PhantomData)
    }
}

// -------------------------------------------------------------------------

/// Zero-or-more repetition of a non-committing single-byte filter.
pub type TakeWhile<P> = Repeat<Satisfy<Any, u8, P>, u8>;

/// Collects leading bytes accepted by `f`, never failing and never
/// committing on the byte that stops the run.
#[inline]
pub fn take_while<P: Predicate<u8>>(f: P) -> (r: TakeWhile<P>)
    ensures
        r.0 == true,
        r.1.0 == (Any()),
        r.1.1 == f,
{
    Repeat(true, satisfy(Any(), f), PhantomData)
}

/// A non-committing single-byte filter.
pub type TakeOne<P> = Try<Satisfy<Any, u8, P>, u8>;

/// Reads one byte accepted by `f`, rolling back without consumption when
/// the next byte is refused or the buffer is exhausted.
#[inline]
pub fn take_one<P: Predicate<u8>>(f: P) -> (r: TakeOne<P>)
    ensures
        r.0.0 == (Any()),
        r.0.1 == f,
{
    Try(satisfy(Any(), f), PhantomData)
}

// -------------------------------------------------------------------------

/// Whitespace-class skipper: advances past every leading byte that belongs
/// to the stored character set, always succeeds, and never reports
/// consumption, so surrounding alternation stays backtrackable across the
/// skipped run.
pub struct Skip(pub String);

/// Builds the skipper over the bytes of `s`.
#[inline]
pub fn skip(s: String) -> (r: Skip)
    ensures
        r.0 == s,
{
    Skip(s)
}

/// Whether `s` holds `b` at offset `o`, byte for byte.
pub open spec fn matches_at(s: Seq<u8>, o: int, b: Seq<u8>) -> bool {
    &&& o + b.len() <= s.len()
    &&& forall|i: int| 0 <= i < b.len() ==> s[o + i] == b[i]
}

/// The first offset at or after `o` whose byte is outside `cs` (or the end
/// of the buffer).
pub open spec fn skip_end(cs: Seq<u8>, s: Seq<u8>, o: int) -> int
    decreases s.len() - o,
{
    if o < s.len() && cs.contains(s[o]) {
        skip_end(cs, s, o + 1)
    } else {
        o
    }
}

proof fn lemma_skip_end_bounds(cs: Seq<u8>, s: Seq<u8>, o: int)
    requires
        0 <= o <= s.len(),
    ensures
        o <= skip_end(cs, s, o) <= s.len(),
    decreases s.len() - o,
{
    if o < s.len() && cs.contains(s[o]) {
        lemma_skip_end_bounds(cs, s, o + 1);
    }
}

/// Whether the slice holds the byte.
fn contains_byte(bytes: &[u8], b: u8) -> (r: bool)
    ensures
        r == bytes@.contains(b),
{
    let mut i: usize = 0;
    while i < bytes.len()
        invariant
            0 <= i <= bytes@.len(),
            forall|j: int| 0 <= j < i ==> bytes@[j] != b,
        decreases bytes@.len() - i,
    {
        if bytes[i] == b {
            return true;
        }
        i = i + 1;
    }
    false
}

// -------------------------------------------------------------------------
// Parser execution
// -------------------------------------------------------------------------

impl<A: DeepView, E: Parser<A>, R: Parser<A>> Parser<A> for Or<E, R, A> {
    open spec fn result_spec(&self, s: Seq<u8>, o: int) -> SpecResponse<A::V> {
        let r = self.0.result_spec(s, o);
        match r.v {
            Some(_) => r,
            None => if r.c {
                spec_reject(r.o, r.c)
            } else {
                self.1.result_spec(s, o)
            },
        }
    }

    proof fn lemma_result_bounds(&self, s: Seq<u8>, o: int) {
        self.0.lemma_result_bounds(s, o);
        self.1.lemma_result_bounds(s, o);
    }
}

impl<A: DeepView, E: Executable<A>, R: Executable<A>> Executable<A> for Or<E, R, A> {
    fn execute(&self, s: &[u8], o: usize) -> (r: Response<A>) {
        let Or(p1, p2, _) = self;
        let r = p1.execute(s, o);

        match r.v {
            Some(_) => r,
            _ => {
                if r.c {
                    response(None, r.o, r.c)
                } else {
                    p2.execute(s, o)
                }
            },
        }
    }
}

impl<A: DeepView, E: Parsable<A>, R: Parsable<A>> Parsable<A> for Or<E, R, A> {
    fn parse_only(&self, s: &[u8], o: usize) -> (r: Response<()>) {
        let Or(p1, p2, _) = self;
        let r = p1.parse_only(s, o);

        match r.v {
            Some(_) => r,
            _ => {
                if r.c {
                    response(None, r.o, r.c)
                } else {
                    p2.parse_only(s, o)
                }
            },
        }
    }
}

// -------------------------------------------------------------------------

impl<A, R, B, E> Parser<(A, B)> for And<E, A, R, B> where
    A: DeepView,
    B: DeepView,
    E: Parser<A>,
    R: Parser<B>,
 {
    open spec fn result_spec(&self, s: Seq<u8>, o: int) -> SpecResponse<(A::V, B::V)> {
        let r1 = self.0.result_spec(s, o);
        match r1.v {
            Some(a1) => {
                let r2 = self.1.result_spec(s, r1.o);
                match r2.v {
                    Some(a2) => spec_success((a1, a2), r2.o, r1.c || r2.c),
                    None => spec_reject(r2.o, r1.c || r2.c),
                }
            },
            None => spec_reject(r1.o, r1.c),
        }
    }

    proof fn lemma_result_bounds(&self, s: Seq<u8>, o: int) {
        self.0.lemma_result_bounds(s, o);
        let r1 = self.0.result_spec(s, o);
        if r1.v is Some {
            self.1.lemma_result_bounds(s, r1.o);
        }
    }
}

impl<A, R, B, E> Executable<(A, B)> for And<E, A, R, B> where
    A: DeepView,
    B: DeepView,
    E: Executable<A>,
    R: Executable<B>,
 {
    fn execute(&self, s: &[u8], o: usize) -> (r: Response<(A, B)>) {
        let And(p1, p2, _) = self;
        let r1 = p1.execute(s, o);

        match r1.v {
            Some(a1) => {
                proof {
                    p1.lemma_result_bounds(s@, o as int);
                }
                let r2 = p2.execute(s, r1.o);

                match r2.v {
                    Some(a2) => response(Some((a1, a2)), r2.o, r1.c || r2.c),
                    _ => response(None, r2.o, r1.c || r2.c),
                }
            },
            _ => response(None, r1.o, r1.c),
        }
    }
}

impl<A, R, B, E> Parsable<(A, B)> for And<E, A, R, B> where
    A: DeepView,
    B: DeepView,
    E: Parsable<A>,
    R: Parsable<B>,
 {
    fn parse_only(&self, s: &[u8], o: usize) -> (r: Response<()>) {
        let And(p1, p2, _) = self;
        let r1 = p1.parse_only(s, o);

        match r1.v {
            Some(_) => {
                proof {
                    p1.lemma_result_bounds(s@, o as int);
                }
                let r2 = p2.parse_only(s, r1.o);

                match r2.v {
                    Some(_) => response(Some(()), r2.o, r1.c || r2.c),
                    _ => response(None, r2.o, r1.c || r2.c),
                }
            },
            _ => response(None, r1.o, r1.c),
        }
    }
}

// -------------------------------------------------------------------------

impl<A: DeepView, E: Parser<A>> Parser<Option<A>> for Opt<E, A> {
    open spec fn result_spec(&self, s: Seq<u8>, o: int) -> SpecResponse<Option<A::V>> {
        let r = self.0.result_spec(s, o);
        match r.v {
            Some(v) => spec_success(Some(v), r.o, r.c),
            None => if !r.c {
                spec_success(None, o, false)
            } else {
                spec_reject(r.o, r.c)
            },
        }
    }

    proof fn lemma_result_bounds(&self, s: Seq<u8>, o: int) {
        self.0.lemma_result_bounds(s, o);
    }
}

impl<A: DeepView, E: Executable<A>> Executable<Option<A>> for Opt<E, A> {
    fn execute(&self, s: &[u8], o: usize) -> (r: Response<Option<A>>) {
        let Opt(p, _) = self;
        let result = p.execute(s, o);

        match result.v {
            Some(value) => response(Some(Some(value)), result.o, result.c),
            None => {
                if !result.c {
                    response(Some(None), o, false)
                } else {
                    response(None, result.o, result.c)
                }
            },
        }
    }
}

impl<A: DeepView, E: Parsable<A>> Parsable<Option<A>> for Opt<E, A> {
    fn parse_only(&self, s: &[u8], o: usize) -> (r: Response<()>) {
        let Opt(p, _) = self;
        let result = p.parse_only(s, o);

        match result.v {
            Some(_) => response(Some(()), result.o, result.c),
            None => {
                if !result.c {
                    response(Some(()), o, false)
                } else {
                    response(None, result.o, result.c)
                }
            },
        }
    }
}

// -------------------------------------------------------------------------

/// One maximal run of the repeated sub-parser starting at `o`: the values
/// collected in parse order, the offset after the last collected value, and
/// the combined consumed flag of the collected attempts. The run ends at
/// the first failure or at the first success that does not advance.
pub open spec fn repeat_scan<A: DeepView, E: Parser<A>>(p: E, s: Seq<u8>, o: int) -> (Seq<
    A::V,
>, int, bool)
    decreases s.len() - o,
{
    let r = p.result_spec(s, o);
    match r.v {
        Some(a) => if o < r.o && r.o <= s.len() {
            let rest = repeat_scan(p, s, r.o);
            (seq![a] + rest.0, rest.1, r.c || rest.2)
        } else {
            (Seq::empty(), o, false)
        },
        None => (Seq::empty(), o, false),
    }
}

/// The run of a repetition stays inside the buffer.
pub proof fn lemma_repeat_scan_bounds<A: DeepView, E: Parser<A>>(p: E, s: Seq<u8>, o: int)
    requires
        0 <= o <= s.len(),
    ensures
        o <= repeat_scan(p, s, o).1 <= s.len(),
    decreases s.len() - o,
{
    let r = p.result_spec(s, o);
    if r.v is Some && o < r.o && r.o <= s.len() {
        lemma_repeat_scan_bounds(p, s, r.o);
    }
}

impl<A: DeepView, E: Parser<A>> Parser<Vec<A>> for Repeat<E, A> {
    open spec fn result_spec(&self, s: Seq<u8>, o: int) -> SpecResponse<Seq<A::V>> {
        let scan = repeat_scan(self.1, s, o);
        if self.0 || scan.0.len() > 0 {
            spec_success(scan.0, scan.1, scan.2)
        } else {
            spec_reject(scan.1, scan.2)
        }
    }

    proof fn lemma_result_bounds(&self, s: Seq<u8>, o: int) {
        lemma_repeat_scan_bounds(self.1, s, o);
    }
}

impl<A: DeepView, E: Executable<A>> Executable<Vec<A>> for Repeat<E, A> {
    fn execute(&self, s: &[u8], o: usize) -> (r: Response<Vec<A>>) {
        let Repeat(allow_zero, p, _) = self;

        let mut values: Vec<A> = Vec::new();
        let mut offset: usize = o;
        let mut consumed: bool = false;

        loop
            invariant
                *allow_zero == self.0,
                *p == self.1,
                o <= offset <= s@.len(),
                values.deep_view().len() == 0 <==> offset == o,
                repeat_scan(*p, s@, o as int).0 == values.deep_view() + repeat_scan(
                    *p,
                    s@,
                    offset as int,
                ).0,
                repeat_scan(*p, s@, o as int).1 == repeat_scan(*p, s@, offset as int).1,
                repeat_scan(*p, s@, o as int).2 == (consumed || repeat_scan(
                    *p,
                    s@,
                    offset as int,
                ).2),
            decreases s@.len() - offset,
        {
            let result = p.execute(s, offset);
            proof {
                p.lemma_result_bounds(s@, offset as int);
            }
            let ghost tail = repeat_scan(*p, s@, offset as int);

            match result.v {
                Some(a) => {
                    if result.o > offset {
                        proof {
                            let rest = repeat_scan(*p, s@, result.o as int);
                            assert(tail.0 == seq![a.deep_view()] + rest.0);
                            assert(values.deep_view() + tail.0 =~= values.deep_view().push(
                                a.deep_view(),
                            ) + rest.0);
                        }
                        let ghost before = values.deep_view();
                        values.push(a);
                        proof {
                            assert(values.deep_view() =~= before.push(a.deep_view()));
                        }
                        offset = result.o;
                        consumed = consumed || result.c;
                    } else {
                        proof {
                            assert(tail.0 =~= Seq::<A::V>::empty());
                            assert(tail.1 == offset as int);
                            assert(tail.2 == false);
                            assert(repeat_scan(*p, s@, o as int).0 =~= values.deep_view());
                        }
                        if *allow_zero || offset > o {
                            return response(Some(values), offset, consumed);
                        }

                        return response(None, offset, consumed);
                    }
                },
                _ => {
                    proof {
                        assert(tail.0 =~= Seq::<A::V>::empty());
                        assert(tail.1 == offset as int);
                        assert(tail.2 == false);
                        assert(repeat_scan(*p, s@, o as int).0 =~= values.deep_view());
                    }
                    if *allow_zero || offset > o {
                        return response(Some(values), offset, consumed);
                    }

                    return response(None, offset, consumed);
                },
            }
        }
    }
}

impl<A: DeepView, E: Parsable<A>> Parsable<Vec<A>> for Repeat<E, A> {
    fn parse_only(&self, s: &[u8], o: usize) -> (r: Response<()>) {
        let Repeat(allow_zero, p, _) = self;

        let mut offset: usize = o;
        let mut consumed: bool = false;

        loop
            invariant
                *allow_zero == self.0,
                *p == self.1,
                o <= offset <= s@.len(),
                offset > o ==> repeat_scan(*p, s@, o as int).0.len() > 0,
                repeat_scan(*p, s@, o as int).1 == repeat_scan(*p, s@, offset as int).1,
                repeat_scan(*p, s@, o as int).2 == (consumed || repeat_scan(
                    *p,
                    s@,
                    offset as int,
                ).2),
            decreases s@.len() - offset,
        {
            let result = p.parse_only(s, offset);
            proof {
                p.lemma_result_bounds(s@, offset as int);
            }
            let ghost tail = repeat_scan(*p, s@, offset as int);

            match result.v {
                Some(_) => {
                    if result.o > offset {
                        proof {
                            if offset == o {
                                assert(repeat_scan(*p, s@, o as int).0.len() > 0);
                            }
                        }
                        offset = result.o;
                        consumed = consumed || result.c;
                    } else {
                        proof {
                            assert(tail.0 =~= Seq::<A::V>::empty());
                            assert(tail.1 == offset as int);
                            assert(tail.2 == false);
                            if offset == o {
                                assert(repeat_scan(*p, s@, o as int).0.len() == 0);
                            }
                        }
                        if *allow_zero || offset > o {
                            return response(Some(()), offset, consumed);
                        }

                        return response(None, offset, consumed);
                    }
                },
                _ => {
                    proof {
                        assert(tail.0 =~= Seq::<A::V>::empty());
                        assert(tail.1 == offset as int);
                        assert(tail.2 == false);
                        if offset == o {
                            assert(repeat_scan(*p, s@, o as int).0.len() == 0);
                        }
                    }
                    if *allow_zero || offset > o {
                        return response(Some(()), offset, consumed);
                    }

                    return response(None, offset, consumed);
                },
            }
        }
    }
}

// -------------------------------------------------------------------------

impl Parser<()> for Skip {
    open spec fn result_spec(&self, s: Seq<u8>, o: int) -> SpecResponse<()> {
        spec_success((), skip_end(vstd::utf8::encode_utf8(self.0@), s, o), false)
    }

    proof fn lemma_result_bounds(&self, s: Seq<u8>, o: int) {
        lemma_skip_end_bounds(vstd::utf8::encode_utf8(self.0@), s, o);
    }
}

impl Executable<()> for Skip {
    #[inline]
    fn execute(&self, s: &[u8], o: usize) -> (r: Response<()>) {
        self.parse_only(s, o)
    }
}

impl Parsable<()> for Skip {
    fn parse_only(&self, s: &[u8], o: usize) -> (r: Response<()>) {
        let Skip(chars) = self;
        let bytes: &[u8] = chars.as_str().as_bytes();
        let ghost cs = vstd::utf8::encode_utf8(self.0@);
        let mut n: usize = o;

        loop
            invariant
                o <= n <= s@.len(),
                bytes@ == cs,
                skip_end(cs, s@, o as int) == skip_end(cs, s@, n as int),
            ensures
                o <= n <= s@.len(),
                skip_end(cs, s@, o as int) == n as int,
            decreases s@.len() - n,
        {
            if n >= s.len() {
                break;
            }
            if !contains_byte(bytes, s[n]) {
                break;
            }
            n = n + 1;
        }

        response(Some(()), n, false)
    }
}

} // verus!
