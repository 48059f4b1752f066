//! The bytecode operations and their encoding.

pub mod codec;
pub mod executor;
pub mod operation;
pub mod string;
pub mod writer;
