//! Source text to tokens, and the syntax tree.
pub mod ast;
pub mod lexer;
pub mod model;
pub mod token;
pub mod parser;
