//! A small expression language in prefix form: a tokenizer, a parser and an
//! evaluator over one flat table of variables.
//!
//! A line is cut into tokens ([`lexer`]), the first expression on it is
//! parsed ([`parser`]) and evaluated ([`interpreter`]); [`session`] does the
//! three in a row. What each of them computes is defined as a mathematical
//! function ([`lexer::tokens_of`], [`parser::parsed`], [`semantics::run`]),
//! and the contracts of the executable functions say that they compute it.
//! [`laws`] holds what is proved of these functions as a whole.
//!
//! Numbers are doubles, carried as their bit patterns. Rounding arithmetic,
//! the reading of numeric literals and the writing of numbers are handed in
//! by the caller ([`number`], [`render`]).

pub mod error;
pub mod expr;
pub mod interpreter;
pub mod laws;
pub mod lexer;
pub mod number;
pub mod parser;
pub mod render;
pub mod semantics;
pub mod session;
pub mod text;
