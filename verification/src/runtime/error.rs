//! What can go wrong while a program runs.

use vstd::prelude::*;
use crate::runtime::value::{SpecValue, Value};
use crate::span::Span;

verus! {

#[derive(Debug, PartialEq, Eq)]
pub enum RuntimeError {
    /// An operand of the wrong kind.
    TypeError { span: Span, expected: &'static str, found: &'static str },
    /// A global that was never defined.
    UndefinedVariable { name: String },
    /// A property that the instance and its class do not have.
    UndefinedField { field: String },
    /// A property of a value that is no instance.
    InvalidFieldTarget { target_type: &'static str, field: String },
    /// A call of a value that is neither a function nor a class.
    NotCallable { target: Value, span: Span },
    /// A call with the wrong number of arguments.
    ArgumentsNotMatch { expected: u8, got: usize, span: Span },
    /// Not an error: `return` on its way to the call that it ends.
    Return(Span, Value),
    /// `return` with a value in an initializer.
    ReturnInConstructor(Span),
    /// A superclass that is no class.
    InvalidSuperClass(Span),
    /// A variable whose target names no slot of the frames: the program was
    /// not resolved, or not as it stands.
    BadTarget(Span),
    /// The evaluator was handed a value that it had not asked for, or none
    /// where it had asked for one.
    Stuck,
}

/// The mathematical value of a [`RuntimeError`].
pub enum SpecRuntimeError {
    TypeError { span: Span, expected: Seq<char>, found: Seq<char> },
    UndefinedVariable { name: Seq<char> },
    UndefinedField { field: Seq<char> },
    InvalidFieldTarget { target_type: Seq<char>, field: Seq<char> },
    NotCallable { target: SpecValue, span: Span },
    ArgumentsNotMatch { expected: u8, got: usize, span: Span },
    Return(Span, SpecValue),
    ReturnInConstructor(Span),
    InvalidSuperClass(Span),
    BadTarget(Span),
    Stuck,
}

impl View for RuntimeError {
    type V = SpecRuntimeError;

    open spec fn view(&self) -> SpecRuntimeError {
        match self {
            RuntimeError::TypeError { span, expected, found } => SpecRuntimeError::TypeError {
                span: *span,
                expected: expected@,
                found: found@,
            },
            RuntimeError::UndefinedVariable { name } => SpecRuntimeError::UndefinedVariable {
                name: name@,
            },
            RuntimeError::UndefinedField { field } => SpecRuntimeError::UndefinedField {
                field: field@,
            },
            RuntimeError::InvalidFieldTarget {
                target_type,
                field,
            } => SpecRuntimeError::InvalidFieldTarget {
                target_type: target_type@,
                field: field@,
            },
            RuntimeError::NotCallable { target, span } => SpecRuntimeError::NotCallable {
                target: target@,
                span: *span,
            },
            RuntimeError::ArgumentsNotMatch {
                expected,
                got,
                span,
            } => SpecRuntimeError::ArgumentsNotMatch { expected: *expected, got: *got, span: *span },
            RuntimeError::Return(span, value) => SpecRuntimeError::Return(*span, value@),
            RuntimeError::ReturnInConstructor(span) => SpecRuntimeError::ReturnInConstructor(
                *span,
            ),
            RuntimeError::InvalidSuperClass(span) => SpecRuntimeError::InvalidSuperClass(*span),
            RuntimeError::BadTarget(span) => SpecRuntimeError::BadTarget(*span),
            RuntimeError::Stuck => SpecRuntimeError::Stuck,
        }
    }
}

impl RuntimeError {
    /// The error for a value of the wrong kind where `expected` was wanted.
    pub fn type_error(span: Span, expected: &'static str, found: &Value) -> (r: RuntimeError)
        ensures
            r@ == (SpecRuntimeError::TypeError {
                span,
                expected: expected@,
                found: found@.kind().name(),
            }),
    {
        RuntimeError::TypeError { span, expected, found: found.kind_name() }
    }
}

} // verus!
