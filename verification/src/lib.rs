//! Lexical analysis and parsing of one line of integer arithmetic.
//!
//! [`analysis`] turns text into positioned tokens and diagnostics;
//! [`parser`] folds those tokens into a left-leaning syntax tree;
//! [`lexer`] is a cursor that hands out every token with the text it
//! was read from, blanks and bad characters included.

pub mod analysis;
pub mod lexer;
pub mod parser;
