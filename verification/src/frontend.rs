//! The front end: tokens, the lexer, the syntax tree and the parser.

pub mod token;
pub mod lexer;
pub mod signature;
pub mod ast;
pub mod parser;
pub mod laws;
