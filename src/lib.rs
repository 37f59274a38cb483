use vstd::prelude::*;

pub mod laws;
pub mod lexer;
pub mod model;
pub mod token;

pub use lexer::Lexer;
pub use token::{LexError, Lexeme, Token};
