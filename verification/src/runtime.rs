//! The runtime data model of the tree-walking evaluator: values, frames,
//! globals, classes and instances, and the rules that say what an operation
//! on given values is. Arithmetic on numbers is the host's: a number is
//! carried here as the 64 bits of its IEEE-754 double.

pub mod environment;
pub mod error;
pub mod heap;
pub mod machine;
pub mod rules;
pub mod value;
