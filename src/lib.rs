//! A small parser-combinator toolkit over string slices, verified with Verus.
//!
//! A parser consumes a prefix of its input and yields the remaining input and
//! a value, or fails without consuming anything. Results use nom's
//! `IResult` shape, `Result<(I, O), nom::Err<E>>`.

pub mod keywords;
pub mod literal;
pub mod nom_types;
pub mod parser;
