//! A lexical analyser for a small C-like language: it turns source text into
//! a flat sequence of classified tokens.
//!
//! The behaviour of the scanner is given by the spec functions of `grammar`,
//! and every executable function is proved against them.
pub mod grammar;
pub mod laws;
pub mod lexer;
pub mod token;

pub use lexer::Lexer;
pub use token::{Token, TokenView};
