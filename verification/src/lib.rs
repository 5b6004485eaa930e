//! Parser-combinator engine over byte buffers.
//!
//! A parser is an immutable value built by composing leaf, modifier, monadic
//! and structural combinators; executing it against a buffer and a starting
//! offset yields a [`parsers::response::Response`]: an optional value, the
//! offset reached, and a flag recording whether any input was consumed.
//! The consumed flag drives the backtracking discipline: a failure that
//! consumed input commits the surrounding alternation, unless the attempt
//! was wrapped in a backtrack-forcing combinator.

pub mod parsers;
