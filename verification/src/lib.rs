//! The front end of a structured pseudocode language: a lexer, the syntax tree
//! with its pretty-printer, and a precedence-climbing parser.
//!
//! What each function does is stated in its contract, over the views of the
//! tokens and of the tree. What holds of several functions together, such as
//! that a printed program is parsed back as it was, is stated and proved in
//! the modules of the lexer and of the parser.

pub mod lexer;
pub mod parser;
pub mod syntax;
