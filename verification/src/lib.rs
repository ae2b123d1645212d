//! A lexer and recursive-descent parser for a single SQL `INSERT` statement.
//!
//! [`parser::Lexer`] cuts a text into tokens and [`parser::Parser`] builds an
//! [`ast::Query`] from them, reading one token ahead. What the two compute is
//! defined by the functions of [`scan`] and [`grammar`] on sequences of
//! characters and of tokens, and the executable code is proved to compute
//! exactly that. [`theorems`] states what follows for all inputs.

pub mod ast;
pub mod error;
pub mod grammar;
pub mod lemmas;
pub mod lexer;
pub mod parser;
pub mod scan;
pub mod spelling;
pub mod text;
pub mod theorems;
pub mod token;
