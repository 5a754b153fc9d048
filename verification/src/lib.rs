//! Front end of the Meri language: source spans, tokens, a lexer and a
//! recursive-descent parser, each stated over mathematical models and proved.

pub mod ast;
pub mod chars;
pub mod lexer;
pub mod lexer_laws;
pub mod number;
pub mod parser;
pub mod span;
pub mod text;
pub mod token;
