//! Lexical front end for a small Monkey-style language.
//!
//! The scanner in [`lexer`] owns a cursor over an input string and turns it
//! into a stream of classified tokens on demand; [`ast`] holds the first
//! pieces of the syntax-tree layer that consumes that stream.

pub mod ast;
pub mod lexer;
