//! Literal combinators and hand-rolled literal scanners: byte, character,
//! character-range and string matchers, and the direct scans for signed
//! decimal floats and delimited strings/characters, which return offset
//! ranges into the original buffer instead of allocated copies.

use core::ops::Range;

use vstd::prelude::*;

use crate::parsers::execution::{Executable, Parsable};
use crate::parsers::flow::{matches_at, Or, OrOperation};
use crate::parsers::parser::Parser;
use crate::parsers::response::{response, spec_reject, spec_success, Response, SpecResponse};

verus! {


/// The byte values the scanners test against.
pub const PLUS_BYTE: u8 = 43;

pub const MINUS_BYTE: u8 = 45;

pub const DOT_BYTE: u8 = 46;

pub const DOUBLE_QUOTE_BYTE: u8 = 34;

pub const BACKSLASH_BYTE: u8 = 92;

pub const SINGLE_QUOTE_BYTE: u8 = 39;

pub const ZERO_BYTE: u8 = 48;

pub const NINE_BYTE: u8 = 57;

// -------------------------------------------------------------------------
// Parser type definition
// -------------------------------------------------------------------------

/// A half-open range of offsets into the buffer a scanner ran on: the
/// zero-copy stand-in for the matched bytes.
#[derive(Clone, Copy, PartialEq, Eq, Structural, Debug)]
pub struct Span {
    pub start: usize,
    pub end: usize,
}

impl DeepView for Span {
    type V = Span;

    open spec fn deep_view(&self) -> Span {
        *self
    }
}

/// Signed decimal float scanner: an optional leading sign, one or more
/// digits, then optionally a dot followed by one or more digits. Produces
/// the matched range.
pub struct Float();

/// Builds the float scanner.
pub fn float() -> (r: Float)
{
    Float()
}

/// Quote-delimited string scanner with backslash escapes. Produces the
/// range strictly between the quotes.
pub struct DelimitedString();

/// Builds the delimited-string scanner.
pub fn delimited_string() -> (r: DelimitedString)
{
    DelimitedString()
}

/// Single-quote-delimited character scanner: exactly one payload byte or
/// one escaped quote between the quotes.
pub struct DelimitedChar();

/// Builds the delimited-character scanner.
pub fn delimited_char() -> (r: DelimitedChar)
{
    DelimitedChar()
}

/// The ASCII-digit range matcher.
pub fn digit() -> (r: Range<char>)
    ensures
        r.start == '0',
        r.end == '9',
{
    '0'..'9'
}

/// The ASCII-letter matcher, lower case first.
pub fn letter() -> (r: Or<Range<char>, Range<char>, char>)
    ensures
        r.0.start == 'a',
        r.0.end == 'z',
        r.1.start == 'A',
        r.1.end == 'Z',
{
    ('a'..'z').or('A'..'Z')
}

// -------------------------------------------------------------------------
// Parser execution
// -------------------------------------------------------------------------

impl Parser<u8> for u8 {
    open spec fn result_spec(&self, s: Seq<u8>, o: int) -> SpecResponse<u8> {
        if o < s.len() && s[o] == *self {
            spec_success(s[o], o + 1, true)
        } else {
            spec_reject(o, false)
        }
    }

    proof fn lemma_result_bounds(&self, s: Seq<u8>, o: int) {
    }
}

impl Executable<u8> for u8 {
    fn execute(&self, s: &[u8], o: usize) -> (r: Response<u8>) {
        if o < s.len() {
            let value = s[o];
            if *self == value {
                return response(Some(value), o + 1, true);
            }
        }

        response(None, o, false)
    }
}

impl Parsable<u8> for u8 {
    fn parse_only(&self, s: &[u8], o: usize) -> (r: Response<()>) {
        if o < s.len() && *self == s[o] {
            return response(Some(()), o + 1, true);
        }

        response(None, o, false)
    }
}

// -------------------------------------------------------------------------

impl Parser<char> for char {
    open spec fn result_spec(&self, s: Seq<u8>, o: int) -> SpecResponse<char> {
        if o < s.len() && (s[o] as char) == *self {
            spec_success(s[o] as char, o + 1, true)
        } else {
            spec_reject(o, false)
        }
    }

    proof fn lemma_result_bounds(&self, s: Seq<u8>, o: int) {
    }
}

impl Executable<char> for char {
    fn execute(&self, s: &[u8], o: usize) -> (r: Response<char>) {
        if o < s.len() {
            let value = s[o];
            if *self == value as char {
                return response(Some(value as char), o + 1, true);
            }
        }

        response(None, o, false)
    }
}

impl Parsable<char> for char {
    fn parse_only(&self, s: &[u8], o: usize) -> (r: Response<()>) {
        if o < s.len() && *self == s[o] as char {
            return response(Some(()), o + 1, true);
        }

        response(None, o, false)
    }
}

// -------------------------------------------------------------------------

/// Whether the byte, read as a character, falls in the inclusive range.
pub open spec fn in_char_range(rg: Range<char>, b: u8) -> bool {
    rg.start as u32 <= (b as char) as u32 && (b as char) as u32 <= rg.end as u32
}

impl Parser<char> for Range<char> {
    open spec fn result_spec(&self, s: Seq<u8>, o: int) -> SpecResponse<char> {
        if o < s.len() && in_char_range(*self, s[o]) {
            spec_success(s[o] as char, o + 1, true)
        } else {
            spec_reject(o, false)
        }
    }

    proof fn lemma_result_bounds(&self, s: Seq<u8>, o: int) {
    }
}

impl Executable<char> for Range<char> {
    fn execute(&self, s: &[u8], o: usize) -> (r: Response<char>) {
        if o < s.len() {
            let c = s[o] as char;
            if self.start as u32 <= c as u32 && c as u32 <= self.end as u32 {
                return response(Some(c), o + 1, true);
            }
        }

        response(None, o, false)
    }
}

impl Parsable<char> for Range<char> {
    fn parse_only(&self, s: &[u8], o: usize) -> (r: Response<()>) {
        if o < s.len() {
            let c = s[o] as char;
            if self.start as u32 <= c as u32 && c as u32 <= self.end as u32 {
                return response(Some(()), o + 1, true);
            }
        }

        response(None, o, false)
    }
}

// -------------------------------------------------------------------------

impl Parser<String> for String {
    open spec fn result_spec(&self, s: Seq<u8>, o: int) -> SpecResponse<Seq<char>> {
        let b = vstd::utf8::encode_utf8(self@);
        if matches_at(s, o, b) {
            spec_success(self@, o + b.len(), b.len() > 0)
        } else {
            spec_reject(o, false)
        }
    }

    proof fn lemma_result_bounds(&self, s: Seq<u8>, o: int) {
    }
}

impl Executable<String> for String {
    fn execute(&self, s: &[u8], o: usize) -> (r: Response<String>) {
        let r = self.parse_only(s, o);

        match r.v {
            Some(_) => response(Some(self.clone()), r.o, r.c),
            _ => response(None, r.o, r.c),
        }
    }
}

impl Parsable<String> for String {
    fn parse_only(&self, s: &[u8], o: usize) -> (r: Response<()>) {
        let b: &[u8] = self.as_str().as_bytes();

        if b.len() > s.len() - o {
            return response(None, o, false);
        }

        let mut i: usize = 0;
        while i < b.len()
            invariant
                b@ == vstd::utf8::encode_utf8(self@),
                0 <= i <= b@.len(),
                o + b@.len() <= s@.len(),
                forall|j: int| 0 <= j < i ==> s@[o + j] == b@[j],
            decreases b@.len() - i,
        {
            if s[o + i] != b[i] {
                return response(None, o, false);
            }
            i = i + 1;
        }

        response(Some(()), o + b.len(), b.len() > 0)
    }
}

// -------------------------------------------------------------------------

/// Whether the byte is an ASCII decimal digit.
pub open spec fn is_digit_byte(b: u8) -> bool {
    ZERO_BYTE <= b <= NINE_BYTE
}

/// The first offset at or after `o` whose byte is not a digit (or the end
/// of the buffer).
pub open spec fn digits_end(s: Seq<u8>, o: int) -> int
    decreases s.len() - o,
{
    if o < s.len() && is_digit_byte(s[o]) {
        digits_end(s, o + 1)
    } else {
        o
    }
}

proof fn lemma_digits_end_bounds(s: Seq<u8>, o: int)
    requires
        0 <= o <= s.len(),
    ensures
        o <= digits_end(s, o) <= s.len(),
    decreases s.len() - o,
{
    if o < s.len() && is_digit_byte(s[o]) {
        lemma_digits_end_bounds(s, o + 1);
    }
}

/// The meaning of the float scanner: an optional sign, one or more digits,
/// then optionally a dot followed by one or more digits. With no digit
/// after the sign position the scan rejects at that position, consuming
/// exactly when a sign was read; a dot not followed by a digit is a
/// committed rejection past the dot.
pub open spec fn float_spec(s: Seq<u8>, o: int) -> SpecResponse<Span> {
    let o1 = if o < s.len() && (s[o] == PLUS_BYTE || s[o] == MINUS_BYTE) {
        o + 1
    } else {
        o
    };
    let d1 = digits_end(s, o1);
    if d1 == o1 {
        spec_reject(o1, o1 > o)
    } else if d1 < s.len() && s[d1] == DOT_BYTE {
        let d2 = digits_end(s, d1 + 1);
        if d2 == d1 + 1 {
            spec_reject(d1 + 1, true)
        } else {
            spec_success(Span { start: o as usize, end: d2 as usize }, d2, true)
        }
    } else {
        spec_success(Span { start: o as usize, end: d1 as usize }, d1, true)
    }
}

/// Scans past the digits starting at `o`.
fn scan_digits(s: &[u8], o: usize) -> (r: usize)
    requires
        o <= s@.len(),
    ensures
        r as int == digits_end(s@, o as int),
        o <= r <= s@.len(),
{
    let mut n: usize = o;

    loop
        invariant
            o <= n <= s@.len(),
            digits_end(s@, o as int) == digits_end(s@, n as int),
        ensures
            o <= n <= s@.len(),
            digits_end(s@, o as int) == n as int,
        decreases s@.len() - n,
    {
        if n >= s.len() {
            break;
        }
        let b = s[n];
        if b < ZERO_BYTE || b > NINE_BYTE {
            break;
        }
        n = n + 1;
    }

    n
}

impl Parser<Span> for Float {
    open spec fn result_spec(&self, s: Seq<u8>, o: int) -> SpecResponse<Span> {
        float_spec(s, o)
    }

    proof fn lemma_result_bounds(&self, s: Seq<u8>, o: int) {
        let o1 = if o < s.len() && (s[o] == PLUS_BYTE || s[o] == MINUS_BYTE) {
            o + 1
        } else {
            o
        };
        lemma_digits_end_bounds(s, o1);
        let d1 = digits_end(s, o1);
        if d1 > o1 && d1 < s.len() && s[d1] == DOT_BYTE {
            lemma_digits_end_bounds(s, d1 + 1);
        }
    }
}

impl Executable<Span> for Float {
    fn execute(&self, s: &[u8], o: usize) -> (r: Response<Span>) {
        let mut p: usize = o;
        if p < s.len() && (s[p] == PLUS_BYTE || s[p] == MINUS_BYTE) {
            p = p + 1;
        }

        let d1 = scan_digits(s, p);
        if d1 == p {
            return response(None, p, p > o);
        }

        if d1 < s.len() && s[d1] == DOT_BYTE {
            let d2 = scan_digits(s, d1 + 1);
            if d2 == d1 + 1 {
                return response(None, d1 + 1, true);
            }
            return response(Some(Span { start: o, end: d2 }), d2, true);
        }

        response(Some(Span { start: o, end: d1 }), d1, true)
    }
}

impl Parsable<Span> for Float {
    fn parse_only(&self, s: &[u8], o: usize) -> (r: Response<()>) {
        let r = self.execute(s, o);

        match r.v {
            Some(_) => response(Some(()), r.o, r.c),
            _ => response(None, r.o, r.c),
        }
    }
}

// -------------------------------------------------------------------------

/// The offset of the first unescaped closing quote at or after `o`, or the
/// end of the buffer when no such quote exists. A backslash consumes the
/// byte after it; a trailing backslash consumes the buffer's last byte, so
/// the scan still ends exactly at the end of the buffer.
pub open spec fn string_body_end(s: Seq<u8>, o: int) -> int
    decreases s.len() - o,
{
    if o >= s.len() {
        o
    } else if s[o] == DOUBLE_QUOTE_BYTE {
        o
    } else if s[o] == BACKSLASH_BYTE {
        if o + 1 < s.len() {
            string_body_end(s, o + 2)
        } else {
            o + 1
        }
    } else {
        string_body_end(s, o + 1)
    }
}

proof fn lemma_string_body_end_bounds(s: Seq<u8>, o: int)
    requires
        0 <= o <= s.len(),
    ensures
        o <= string_body_end(s, o) <= s.len(),
    decreases s.len() - o,
{
    if o < s.len() && s[o] != DOUBLE_QUOTE_BYTE {
        if s[o] == BACKSLASH_BYTE {
            if o + 1 < s.len() {
                lemma_string_body_end_bounds(s, o + 2);
            }
        } else {
            lemma_string_body_end_bounds(s, o + 1);
        }
    }
}

/// The meaning of the delimited-string scanner: an opening quote, a body in
/// which a backslash escapes exactly the next byte, and an unescaped
/// closing quote. The produced range excludes both quotes. A buffer that
/// ends before the closing quote is a committed rejection at the end of
/// the buffer.
pub open spec fn delimited_string_spec(s: Seq<u8>, o: int) -> SpecResponse<Span> {
    if o < s.len() && s[o] == DOUBLE_QUOTE_BYTE {
        let e = string_body_end(s, o + 1);
        if e < s.len() && s[e] == DOUBLE_QUOTE_BYTE {
            spec_success(Span { start: (o + 1) as usize, end: e as usize }, e + 1, true)
        } else {
            spec_reject(e, true)
        }
    } else {
        spec_reject(o, false)
    }
}

impl Parser<Span> for DelimitedString {
    open spec fn result_spec(&self, s: Seq<u8>, o: int) -> SpecResponse<Span> {
        delimited_string_spec(s, o)
    }

    proof fn lemma_result_bounds(&self, s: Seq<u8>, o: int) {
        if o < s.len() && s[o] == DOUBLE_QUOTE_BYTE {
            lemma_string_body_end_bounds(s, o + 1);
        }
    }
}

impl Executable<Span> for DelimitedString {
    fn execute(&self, s: &[u8], o: usize) -> (r: Response<Span>) {
        if o >= s.len() || s[o] != DOUBLE_QUOTE_BYTE {
            return response(None, o, false);
        }

        let mut n: usize = o + 1;

        loop
            invariant
                o + 1 <= n <= s@.len(),
                string_body_end(s@, o + 1) == string_body_end(s@, n as int),
            ensures
                o + 1 <= n <= s@.len(),
                string_body_end(s@, o + 1) == n as int,
            decreases s@.len() - n,
        {
            if n >= s.len() {
                break;
            }
            let b = s[n];
            if b == DOUBLE_QUOTE_BYTE {
                break;
            }
            if b == BACKSLASH_BYTE {
                if n + 1 < s.len() {
                    n = n + 2;
                } else {
                    n = n + 1;
                    break;
                }
            } else {
                n = n + 1;
            }
        }

        if n < s.len() && s[n] == DOUBLE_QUOTE_BYTE {
            response(Some(Span { start: o + 1, end: n }), n + 1, true)
        } else {
            response(None, n, true)
        }
    }
}

impl Parsable<Span> for DelimitedString {
    fn parse_only(&self, s: &[u8], o: usize) -> (r: Response<()>) {
        let r = self.execute(s, o);

        match r.v {
            Some(_) => response(Some(()), r.o, r.c),
            _ => response(None, r.o, r.c),
        }
    }
}

// -------------------------------------------------------------------------

/// The meaning of the delimited-character scanner: an opening single quote,
/// then either the two bytes of an escaped quote or one byte that is not a
/// quote, then a closing single quote. Once the opening quote is read,
/// every rejection is committed.
pub open spec fn delimited_char_spec(s: Seq<u8>, o: int) -> SpecResponse<char> {
    if o < s.len() && s[o] == SINGLE_QUOTE_BYTE {
        if o + 2 < s.len() && s[o + 1] == BACKSLASH_BYTE && s[o + 2] == SINGLE_QUOTE_BYTE {
            if o + 3 < s.len() && s[o + 3] == SINGLE_QUOTE_BYTE {
                spec_success('\'', o + 4, true)
            } else {
                spec_reject(o + 3, true)
            }
        } else if o + 1 < s.len() && s[o + 1] != SINGLE_QUOTE_BYTE {
            if o + 2 < s.len() && s[o + 2] == SINGLE_QUOTE_BYTE {
                spec_success(s[o + 1] as char, o + 3, true)
            } else {
                spec_reject(o + 2, true)
            }
        } else {
            spec_reject(o + 1, true)
        }
    } else {
        spec_reject(o, false)
    }
}

impl Parser<char> for DelimitedChar {
    open spec fn result_spec(&self, s: Seq<u8>, o: int) -> SpecResponse<char> {
        delimited_char_spec(s, o)
    }

    proof fn lemma_result_bounds(&self, s: Seq<u8>, o: int) {
    }
}

impl Executable<char> for DelimitedChar {
    fn execute(&self, s: &[u8], o: usize) -> (r: Response<char>) {
        if o >= s.len() || s[o] != SINGLE_QUOTE_BYTE {
            return response(None, o, false);
        }

        let rem = s.len() - o;
        if rem > 2 && s[o + 1] == BACKSLASH_BYTE && s[o + 2] == SINGLE_QUOTE_BYTE {
            if rem > 3 && s[o + 3] == SINGLE_QUOTE_BYTE {
                return response(Some('\''), o + 4, true);
            }
            return response(None, o + 3, true);
        }

        if rem > 1 && s[o + 1] != SINGLE_QUOTE_BYTE {
            if rem > 2 && s[o + 2] == SINGLE_QUOTE_BYTE {
                return response(Some(s[o + 1] as char), o + 3, true);
            }
            return response(None, o + 2, true);
        }

        response(None, o + 1, true)
    }
}

impl Parsable<char> for DelimitedChar {
    fn parse_only(&self, s: &[u8], o: usize) -> (r: Response<()>) {
        let r = self.execute(s, o);

        match r.v {
            Some(_) => response(Some(()), r.o, r.c),
            _ => response(None, r.o, r.c),
        }
    }
}

} // verus!
