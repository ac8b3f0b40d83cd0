//! A one-pass lexical analyser for a small programming language.

pub mod laws;
pub mod lexer;
pub mod model;
pub mod token;

pub use crate::lexer::Lexer;
pub use crate::token::{LexError, Token, TokenType};
