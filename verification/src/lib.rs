//! Lexical scanner for a small programming language.
//!
//! The scanner turns UTF-8 source text into a sequence of classified tokens.
//! Each token borrows the exact slice of the input it was read from, so
//! concatenating the text of every token reproduces the input unchanged.
//! Malformed input never stops a scan: a character that matches no rule
//! becomes a one-character `Illegal` token and scanning continues.

pub mod laws;
pub mod lexer;
pub mod rules;
pub mod token;
pub mod unicode;

pub use lexer::Lexer;
pub use lexer::tokenize;
pub use token::SyntaxError;
pub use token::Token;
pub use token::TokenKind;
