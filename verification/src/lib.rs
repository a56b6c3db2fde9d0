//! A small programming-language front end and tree-walking evaluator:
//! a lexer turns source text into tokens, a recursive-descent parser turns
//! tokens into an abstract syntax tree, and an evaluator executes that tree
//! against a variable environment, producing values or structured errors.
//!
//! Every executable function is specified against a mathematical model:
//! the lexer and parser against specification-level twins over sequences,
//! and the evaluator against a step-bounded specification interpreter.

pub mod ast;
pub mod env;
pub mod error;
pub mod grammar;
pub mod laws;
pub mod module;
pub mod parser;
pub mod semantics;
pub mod shell;
pub mod stdlib;
pub mod token;
