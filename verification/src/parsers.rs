//! The combinator engine: result model, interpreter contracts, leaf,
//! modifier, monadic and structural combinators, literal scanners, and the
//! laws the engine obeys.

pub mod basic;
pub mod execution;
pub mod flow;
pub mod laws;
pub mod literal;
pub mod monadic;
pub mod parser;
pub mod response;
