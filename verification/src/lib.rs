//! A small statically-typed expression language: lexer, parser and evaluator.

pub mod ast;
pub mod error;
pub mod lexer;
pub mod text;
pub mod grammar;
pub mod parser;
pub mod runtime;
pub mod semantics;
