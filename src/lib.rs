//! A line scanner for a small expression language: keywords, operators,
//! delimiters, identifiers and integer literals.

pub mod classify;
pub mod laws;
pub mod lexer;
pub mod scan;
pub mod token;

pub use lexer::{tokenize, Lexer};
pub use token::{Token, TokenView};
