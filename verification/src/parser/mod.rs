//! The syntax tree and the parser that builds it.

pub mod ast;
pub mod parser;
pub mod theorems;

pub use self::ast::Syntax;
pub use self::parser::{parse, Parser, ParserError};
