//! Front end of a small expression-oriented language: a lexer turning source
//! characters into tokens, and a recursive-descent parser turning tokens into
//! abstract syntax trees for function definitions and applications.

pub mod ast;
pub mod function;
pub mod laws;
pub mod lexer;
pub mod parser;
pub mod text;
pub mod token;
mod trusted;
