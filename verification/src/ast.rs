//! The abstract syntax tree, and the mathematical values that its nodes
//! stand for.

pub mod expr;
pub mod ident;
pub mod stmt;
