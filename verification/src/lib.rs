//! typeward: a parser combinator library whose parsers are composed in the type system.
pub mod text;
pub mod error;
pub mod input;
pub mod parse;
pub mod token;
pub mod combinators;
pub mod literals;
pub mod primitives;
pub mod collections;
pub mod laws;
pub mod laws_determinism;
