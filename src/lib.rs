//! A tokenizer for a small indentation-sensitive scripting language.
//!
//! The whole input is scanned left to right by a fixed, ordered set of token
//! rules; the result is either the complete token list or a single error.
pub mod classify;
pub mod laws;
pub mod lexer;
pub mod number;
pub mod rules;
pub mod text;
pub mod token;

pub use lexer::lexer;
pub use token::{LexError, SpecLexError, SpecToken, Token};
