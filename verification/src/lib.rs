//! A small dynamically typed scripting language: a lexer, a precedence
//! climbing parser and a tree-walking evaluator, each stated against a
//! mathematical model and proved to follow it.

pub mod ast;
pub mod error;
pub mod expression;
pub mod grammar;
pub mod interpret;
pub mod laws;
pub mod lexer;
pub mod lexical;
pub mod operators;
pub mod passes;
pub mod progress;
pub mod render;
pub mod scanning;
pub mod semantics;
pub mod soundness;
pub mod state;
pub mod statement;
pub mod token;
pub mod value;
