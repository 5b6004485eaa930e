//! The outcome of one combinator invocation: an optional produced value, the
//! offset reached, and a flag recording whether the attempt consumed input.

use vstd::prelude::*;

verus! {

/// Result of executing a combinator against a buffer.
///
/// `v` is `None` for a reject and `Some(value)` for a success. `o` is an
/// offset into the original buffer, meaningful on success and on failure
/// (where it marks the furthest point reached). `c` records whether the
/// attempt advanced past the starting offset at least once, even through
/// failure; the backtracking discipline rests on it.
pub struct Response<A> {
    pub v: Option<A>,
    pub o: usize,
    pub c: bool,
}

/// Ghost counterpart of [`Response`]: the same three fields over the
/// mathematical value domain of the produced type.
pub ghost struct SpecResponse<V> {
    pub v: Option<V>,
    pub o: int,
    pub c: bool,
}

/// A successful spec-level outcome.
pub open spec fn spec_success<V>(v: V, o: int, c: bool) -> SpecResponse<V> {
    SpecResponse { v: Some(v), o, c }
}

/// A rejecting spec-level outcome.
pub open spec fn spec_reject<V>(o: int, c: bool) -> SpecResponse<V> {
    SpecResponse { v: None, o, c }
}

impl<A: DeepView> Response<A> {
    /// The executable response realises the spec-level outcome: same offset,
    /// same consumed flag, and the produced value (if any) has the stated
    /// mathematical view.
    pub open spec fn agrees_with(self, sr: SpecResponse<A::V>) -> bool {
        &&& self.o == sr.o
        &&& self.c == sr.c
        &&& self.v.deep_view() == sr.v
    }

}

/// The validate-only response realises the spec-level outcome with the value
/// erased: same offset, same consumed flag, success exactly when the spec
/// succeeds.
pub open spec fn agrees_erased<V>(r: Response<()>, sr: SpecResponse<V>) -> bool {
    &&& r.o == sr.o
    &&& r.c == sr.c
    &&& r.v is Some <==> sr.v is Some
}

/// Builds a response from its three fields.
#[inline]
pub fn response<A>(v: Option<A>, o: usize, c: bool) -> (r: Response<A>)
    ensures
        r.v == v,
        r.o == o,
        r.c == c,
{
    Response { v, o, c }
}

pub trait FoldResponse<A, B> {
    /// Collapses the response through one of two continuations, passed by
    /// reference: `success` on a produced value, `reject` on a failure.
    fn fold_fn<F: Fn(A, usize, bool) -> B, G: Fn(usize, bool) -> B>(
        self,
        success: &F,
        reject: &G,
    ) -> (r: B)
        requires
            (match self.resp_view().0 {
                Some(a) => call_requires(*success, (a, self.resp_view().1, self.resp_view().2)),
                None => call_requires(*reject, (self.resp_view().1, self.resp_view().2)),
            }),
        ensures
            (match self.resp_view().0 {
                Some(a) => call_ensures(*success, (a, self.resp_view().1, self.resp_view().2), r),
                None => call_ensures(*reject, (self.resp_view().1, self.resp_view().2), r),
            }),
    ;

    /// Collapses the response through one of two continuations taken by
    /// value.
    fn fold<F: Fn(A, usize, bool) -> B, G: Fn(usize, bool) -> B>(
        self,
        success: F,
        reject: G,
    ) -> (r: B)
        requires
            (match self.resp_view().0 {
                Some(a) => call_requires(success, (a, self.resp_view().1, self.resp_view().2)),
                None => call_requires(reject, (self.resp_view().1, self.resp_view().2)),
            }),
        ensures
            (match self.resp_view().0 {
                Some(a) => call_ensures(success, (a, self.resp_view().1, self.resp_view().2), r),
                None => call_ensures(reject, (self.resp_view().1, self.resp_view().2), r),
            }),
    ;

    /// The three fields the fold dispatches on.
    spec fn resp_view(&self) -> (Option<A>, usize, bool);
}

pub trait FMapResponse<A, B> {
    /// Applies a pure transform to the produced value, keeping offset and
    /// consumed flag; a failure passes through unchanged.
    fn fmap<F: Fn(A) -> B>(self, f: F) -> (r: Response<B>)
        requires
            (match self.resp_view().0 {
                Some(a) => call_requires(f, (a,)),
                None => true,
            }),
        ensures
            r.o == self.resp_view().1,
            r.c == self.resp_view().2,
            (match self.resp_view().0 {
                Some(a) => r.v matches Some(b) && call_ensures(f, (a,), b),
                None => r.v is None,
            }),
    ;

    /// The three fields the transform dispatches on.
    spec fn resp_view(&self) -> (Option<A>, usize, bool);
}

impl<A, B> FoldResponse<A, B> for Response<A> {
    open spec fn resp_view(&self) -> (Option<A>, usize, bool) {
        (self.v, self.o, self.c)
    }

    fn fold_fn<F: Fn(A, usize, bool) -> B, G: Fn(usize, bool) -> B>(
        self,
        success: &F,
        reject: &G,
    ) -> (r: B) {
        match self.v {
            Some(a) => success(a, self.o, self.c),
            None => reject(self.o, self.c),
        }
    }

    fn fold<F: Fn(A, usize, bool) -> B, G: Fn(usize, bool) -> B>(
        self,
        success: F,
        reject: G,
    ) -> (r: B) {
        self.fold_fn(&success, &reject)
    }
}

impl<A, B> FMapResponse<A, B> for Response<A> {
    open spec fn resp_view(&self) -> (Option<A>, usize, bool) {
        (self.v, self.o, self.c)
    }

    fn fmap<F: Fn(A) -> B>(self, f: F) -> (r: Response<B>) {
        match self.v {
            Some(a) => response(Some(f(a)), self.o, self.c),
            None => response(None, self.o, self.c),
        }
    }
}

} // verus!
