//! A front end and evaluator core for the Lox language: scanning, Pratt
//! parsing, static name resolution and the bytecode operation codec, each
//! stated over a mathematical model and proved against it.

pub mod span;
pub mod text;
pub mod token;
pub mod lexer;
pub mod ast;
pub mod error;
pub mod precedence;
pub mod grammar;
pub mod parser;
pub mod resolution;
pub mod resolver;
pub mod resolution_laws;
pub mod lexer_laws;
pub mod runtime;
pub mod bytecode;
pub mod naming;
pub mod resolution_binding;
pub mod resolution_frames;
pub mod resolution_super;
pub mod grammar_laws;
pub mod grammar_unbound;
