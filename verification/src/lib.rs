//! A small front end for an expression language: a lexer from characters to
//! tokens and a recursive-descent parser from tokens to a syntax tree.
//!
//! The language has integer literals, identifiers, addition and a trailing
//! binding clause, as in `x + 1, where x = 2`.
//!
//! - [`lexical`] and [`grammar`] define the language: what the tokens of a
//!   character sequence are, and what the tree of a token sequence is.
//! - [`tokenizer`] and [`parser`] hold the code that computes them.
//! - [`error`] holds the structured error of the parser.

pub mod error;
pub mod grammar;
pub mod lexical;
pub mod parser;
pub mod tokenizer;
