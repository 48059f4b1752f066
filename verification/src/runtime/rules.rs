//! The rules of the operators: what an operation on values of given kinds
//! is. Where the operation is arithmetic on two numbers, the rule names it
//! and the host computes it.

use vstd::prelude::*;
use crate::ast::expr::{BinaryOp, UnaryOp};
use crate::runtime::error::{RuntimeError, SpecRuntimeError};
use crate::runtime::heap::{Heap, SpecHeap};
use crate::runtime::value::{NativeId, Number, SpecValue, Value};
use crate::span::Span;

verus! {

/// What a binary operator does once both operands are known.
#[derive(Debug, Clone, Copy, PartialEq, Eq, Structural)]
pub enum BinaryAction {
    /// Arithmetic or comparison of two numbers: the host computes it.
    Numeric(BinaryOp, Number, Number),
    /// The left operand, a string, followed by the text of the right.
    ConcatRight,
    /// The text of the left operand followed by the right, a string.
    ConcatLeft,
    /// The result is this truth value.
    Truth(bool),
    /// The result is the left operand: the right one need not be known.
    LeftOperand,
    /// The result is the right operand.
    RightOperand,
}

/// Whether the two native functions have one name.
pub open spec fn same_native(h: SpecHeap, a: NativeId, b: NativeId) -> bool {
    a == b || (a < h.natives.len() && b < h.natives.len() && h.natives[a as int].name
        == h.natives[b as int].name)
}

/// Whether two values are the same: values of different kinds never are;
/// strings and truth values are the same if their contents are, and nil is
/// the same as nil; native functions are the same if their names are; and
/// functions, classes and instances are the same if they are one object.
///
/// Two numbers are the same here if their bits are, which is not the
/// equality of the doubles that they stand for (a zero and its negative
/// differ in a bit, and a value that is no number is not equal to itself):
/// the equality of two numbers is the host's to decide, and the machine
/// asks the host for it.
pub open spec fn same_value(h: SpecHeap, a: SpecValue, b: SpecValue) -> bool {
    match (a, b) {
        (SpecValue::Number(x), SpecValue::Number(y)) => x.bits == y.bits,
        (SpecValue::String(x), SpecValue::String(y)) => x == y,
        (SpecValue::Bool(x), SpecValue::Bool(y)) => x == y,
        (SpecValue::Nil, SpecValue::Nil) => true,
        (SpecValue::NativeFunction(x), SpecValue::NativeFunction(y)) => same_native(h, x, y),
        (SpecValue::Function(x), SpecValue::Function(y)) => x == y,
        (SpecValue::Class(x), SpecValue::Class(y)) => x == y,
        (SpecValue::Instance(x), SpecValue::Instance(y)) => x == y,
        _ => false,
    }
}

/// What `operator` does on the operands `left` and `right`, or the error
/// that it is.
///
/// - `+` adds two numbers; if either side is a string, the other is turned
///   into text and the two are joined. Anything else is a type error that
///   points at the offending operand.
/// - `-`, `*`, `/` and the comparisons take two numbers.
/// - `==` and `!=` are defined for every pair of values. Of two numbers the
///   host decides; other values are the same as [`same_value`] says.
/// - `and` and `or` give one of their operands, not a truth value: the left
///   one if it decides, the right one otherwise.
pub open spec fn binary_action(
    h: SpecHeap,
    operator: BinaryOp,
    left: SpecValue,
    right: SpecValue,
    left_span: Span,
    right_span: Span,
) -> Result<BinaryAction, SpecRuntimeError> {
    match operator {
        BinaryOp::Plus => match (left, right) {
            (SpecValue::Number(a), SpecValue::Number(b)) => Ok(
                BinaryAction::Numeric(operator, a, b),
            ),
            (SpecValue::String(_), _) => Ok(BinaryAction::ConcatRight),
            (_, SpecValue::String(_)) => Ok(BinaryAction::ConcatLeft),
            (_, SpecValue::Number(_)) => Err(
                SpecRuntimeError::TypeError {
                    span: left_span,
                    expected: "number"@,
                    found: left.kind().name(),
                },
            ),
            (SpecValue::Number(_), _) => Err(
                SpecRuntimeError::TypeError {
                    span: right_span,
                    expected: "number or string"@,
                    found: right.kind().name(),
                },
            ),
            _ => Err(
                SpecRuntimeError::TypeError {
                    span: left_span,
                    expected: "number or string"@,
                    found: left.kind().name(),
                },
            ),
        },
        BinaryOp::Equal | BinaryOp::NotEqual => match (left, right) {
            (SpecValue::Number(a), SpecValue::Number(b)) => Ok(
                BinaryAction::Numeric(operator, a, b),
            ),
            _ => Ok(BinaryAction::Truth(same_value(h, left, right) == (operator == BinaryOp::Equal))),
        },
        BinaryOp::And | BinaryOp::Or => Ok(
            if short_circuits(operator, left) {
                BinaryAction::LeftOperand
            } else {
                BinaryAction::RightOperand
            },
        ),
        _ => match left {
            SpecValue::Number(a) => match right {
                SpecValue::Number(b) => Ok(BinaryAction::Numeric(operator, a, b)),
                _ => Err(
                    SpecRuntimeError::TypeError {
                        span: right_span,
                        expected: "number"@,
                        found: right.kind().name(),
                    },
                ),
            },
            _ => Err(
                SpecRuntimeError::TypeError {
                    span: left_span,
                    expected: "number"@,
                    found: left.kind().name(),
                },
            ),
        },
    }
}

/// Whether a logical operator is decided by its left operand alone: `and`
/// by a false one, `or` by a true one. The result is then that operand.
pub open spec fn short_circuits(operator: BinaryOp, left: SpecValue) -> bool {
    match operator {
        BinaryOp::And => !left.truthy(),
        BinaryOp::Or => left.truthy(),
        _ => false,
    }
}

/// Whether a logical operator is decided by its left operand alone.
pub fn decide_short_circuit(operator: BinaryOp, left: &Value) -> (r: bool)
    ensures
        r == short_circuits(operator, left@),
{
    match operator {
        BinaryOp::And => !left.as_bool(),
        BinaryOp::Or => left.as_bool(),
        _ => false,
    }
}

/// Whether two values are the same. Two numbers are compared by their
/// bits; whether the doubles are equal is the host's to decide.
pub fn values_equal(h: &Heap, a: &Value, b: &Value) -> (r: bool)
    ensures
        r == same_value(h@, a@, b@),
{
    match (a, b) {
        (Value::Number(x), Value::Number(y)) => x.bits == y.bits,
        (Value::String(x), Value::String(y)) => {
            let r = *x == *y;
            r
        },
        (Value::Bool(x), Value::Bool(y)) => *x == *y,
        (Value::Nil, Value::Nil) => true,
        (Value::NativeFunction(x), Value::NativeFunction(y)) => {
            if *x == *y {
                true
            } else if *x < h.natives.len() && *y < h.natives.len() {
                let r = h.natives[*x].name == h.natives[*y].name;
                r
            } else {
                false
            }
        },
        (Value::Function(x), Value::Function(y)) => *x == *y,
        (Value::Class(x), Value::Class(y)) => *x == *y,
        (Value::Instance(x), Value::Instance(y)) => *x == *y,
        _ => false,
    }
}

/// What `operator` does on the operands `left` and `right`.
pub fn decide_binary(
    h: &Heap,
    operator: BinaryOp,
    left: &Value,
    right: &Value,
    left_span: Span,
    right_span: Span,
) -> (r: Result<BinaryAction, RuntimeError>)
    ensures
        match r {
            Ok(action) => binary_action(h@, operator, left@, right@, left_span, right_span) == Ok::<
                BinaryAction,
                SpecRuntimeError,
            >(action),
            Err(e) => binary_action(h@, operator, left@, right@, left_span, right_span) == Err::<
                BinaryAction,
                SpecRuntimeError,
            >(e@),
        },
{
    match operator {
        BinaryOp::Plus => match (left, right) {
            (Value::Number(a), Value::Number(b)) => Ok(BinaryAction::Numeric(operator, *a, *b)),
            (Value::String(_), _) => Ok(BinaryAction::ConcatRight),
            (_, Value::String(_)) => Ok(BinaryAction::ConcatLeft),
            (_, Value::Number(_)) => Err(RuntimeError::type_error(left_span, "number", left)),
            (Value::Number(_), _) => Err(
                RuntimeError::type_error(right_span, "number or string", right),
            ),
            _ => Err(RuntimeError::type_error(left_span, "number or string", left)),
        },
        BinaryOp::Equal | BinaryOp::NotEqual => match (left, right) {
            (Value::Number(a), Value::Number(b)) => Ok(BinaryAction::Numeric(operator, *a, *b)),
            _ => {
                let same = values_equal(h, left, right);
                let wanted = match operator {
                    BinaryOp::Equal => true,
                    _ => false,
                };
                Ok(BinaryAction::Truth(same == wanted))
            },
        },
        BinaryOp::And | BinaryOp::Or => Ok(
            if decide_short_circuit(operator, left) {
                BinaryAction::LeftOperand
            } else {
                BinaryAction::RightOperand
            },
        ),
        _ => match left {
            Value::Number(a) => match right {
                Value::Number(b) => Ok(BinaryAction::Numeric(operator, *a, *b)),
                _ => Err(RuntimeError::type_error(right_span, "number", right)),
            },
            _ => Err(RuntimeError::type_error(left_span, "number", left)),
        },
    }
}

/// What a prefix operator does once its operand is known.
#[derive(Debug, Clone, Copy, PartialEq, Eq, Structural)]
pub enum UnaryAction {
    /// The negation of a number: the host computes it.
    Negate(Number),
    /// The result is this truth value.
    Truth(bool),
}

/// What `operator` does on `operand`: `-` takes a number, `!` gives the
/// negation of the truthiness of any value.
pub open spec fn unary_action(operator: UnaryOp, operand: SpecValue, span: Span) -> Result<
    UnaryAction,
    SpecRuntimeError,
> {
    match operator {
        UnaryOp::Negative => match operand {
            SpecValue::Number(n) => Ok(UnaryAction::Negate(n)),
            _ => Err(
                SpecRuntimeError::TypeError {
                    span,
                    expected: "number"@,
                    found: operand.kind().name(),
                },
            ),
        },
        UnaryOp::Not => Ok(UnaryAction::Truth(!operand.truthy())),
    }
}

/// What `operator` does on `operand`.
pub fn decide_unary(operator: UnaryOp, operand: &Value, span: Span) -> (r: Result<
    UnaryAction,
    RuntimeError,
>)
    ensures
        match r {
            Ok(action) => unary_action(operator, operand@, span) == Ok::<
                UnaryAction,
                SpecRuntimeError,
            >(action),
            Err(e) => unary_action(operator, operand@, span) == Err::<
                UnaryAction,
                SpecRuntimeError,
            >(e@),
        },
{
    match operator {
        UnaryOp::Negative => match operand {
            Value::Number(n) => Ok(UnaryAction::Negate(*n)),
            _ => Err(RuntimeError::type_error(span, "number", operand)),
        },
        UnaryOp::Not => Ok(UnaryAction::Truth(!operand.as_bool())),
    }
}

} // verus!
