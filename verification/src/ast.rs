//! The abstract syntax tree: expressions, statements, declarations, and
//! the runtime value model.

pub mod declaration;
pub mod expression;
pub mod statement;
