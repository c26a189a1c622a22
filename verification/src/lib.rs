//! Lexical scanner for a plain-text musical shorthand.
//!
//! A line of shorthand mixes one-character symbols for note lengths and rests with
//! free-form chord names. The scanner cuts such a text into a flat sequence of
//! [`Token`]s that always ends in [`Token::EndOfInput`].

pub mod grammar;
pub mod laws;
pub mod lexer;
pub mod string_specs;
pub mod tokens;

pub use lexer::{Lexer, LexerState};
pub use tokens::{DurationKind, RestKind, Token, TokenView};
