//! Lexer for the Newton language: turns source text into typed, located tokens.
//!
//! Offsets everywhere in this crate count characters (Unicode scalar values),
//! never bytes.

use vstd::prelude::*;

pub mod chars;
pub mod grammar;
pub mod lexer;
pub mod span;
pub mod token;

pub use lexer::Lexer;
pub use span::Span;
pub use token::{ErrorKind, LexError, Token, TokenModel, Type};
