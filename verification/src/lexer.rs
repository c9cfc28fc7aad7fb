//! The scanner and its specification.
//!
//! [`token`] defines the token taxonomy, [`scan`] gives the mathematical
//! model of scanning (one token at a given cursor position), [`lexer`] holds
//! the executable scanner proved against that model, and [`stream`] states
//! and proves the stream-level laws (termination, idempotent end-of-input,
//! whitespace transparency).

pub mod lexer;
pub mod scan;
pub mod stream;
pub mod token;

pub use lexer::Lexer;
pub use token::Token;
pub use token::TokenType;
