//! The steps of the machine that evaluate expressions.

use vstd::prelude::*;
use vstd::string::*;
use crate::ast::expr::{
    expr_view, Assign, BinaryExpr, BinaryOp, Expr, FnCall, Get, Lit, SetField, Ternary, UnaryExpr,
};
use crate::runtime::environment::global_defined;
use crate::runtime::error::{RuntimeError, SpecRuntimeError};
use crate::runtime::heap::{field_read, super_bound, SpecHeap, SpecInstance};
use crate::runtime::machine::{
    asks, fails, goes, outcome, text_of, var_assigned, var_read, Action, Machine, SpecAction,
    SpecMachine, Stepped, Task,
};
use crate::runtime::rules::{
    binary_action, decide_binary, decide_short_circuit, decide_unary, short_circuits,
    unary_action, BinaryAction, UnaryAction,
};
use crate::runtime::value::{SpecValue, Value};

verus! {

/// Whether the operator is `and` or `or`.
pub open spec fn is_logical(op: BinaryOp) -> bool {
    op == BinaryOp::And || op == BinaryOp::Or
}

/// Whether the operator takes two numbers and checks the left one before
/// the right one is evaluated: all but `+`, `==`, `!=` and the logical ones.
pub open spec fn checks_left(op: BinaryOp) -> bool {
    !is_logical(op) && op != BinaryOp::Plus && op != BinaryOp::Equal && op != BinaryOp::NotEqual
}

/// Evaluating an expression: a literal or a variable leaves its value; any
/// other expression leaves the tasks that evaluate its operands, in the
/// order in which they are written, and then apply it.
#[verifier::opaque]
pub open spec fn on_eval<'a>(m: SpecMachine<'a>, e: &'a Expr) -> Stepped<'a> {
    match *e {
        Expr::Literal(l) => match l.value {
            Lit::Number(text) => asks(m, SpecAction::Number(text@)),
            Lit::String(s) => goes(m.with_value(SpecValue::String(s@))),
            Lit::Bool(b) => goes(m.with_value(SpecValue::Bool(b))),
            Lit::Nil => goes(m.with_value(SpecValue::Nil)),
        },
        Expr::Var(v) => match var_read(m, v@) {
            Ok(value) => goes(m.with_value(value)),
            Err(e) => fails(m, e),
        },
        Expr::Group(g) => goes(m.with_task(Task::Eval(&g.expr))),
        Expr::Unary(u) => goes(m.with_task(Task::Unary(&*u)).with_task(Task::Eval(&u.operand))),
        Expr::Binary(b) => if is_logical(b.operator) {
            goes(m.with_task(Task::Logical(&*b)).with_task(Task::Eval(&b.left)))
        } else if checks_left(b.operator) {
            goes(
                m.with_task(Task::Binary(&*b)).with_task(Task::Eval(&b.right)).with_task(
                    Task::NumberCheck(&b.left),
                ).with_task(Task::Eval(&b.left)),
            )
        } else {
            goes(
                m.with_task(Task::Binary(&*b)).with_task(Task::Eval(&b.right)).with_task(
                    Task::Eval(&b.left),
                ),
            )
        },
        Expr::Ternary(t) => goes(
            m.with_task(Task::Choose(&*t)).with_task(Task::Eval(&t.condition)),
        ),
        Expr::Assign(a) => goes(m.with_task(Task::Assign(&*a)).with_task(Task::Eval(&a.value))),
        Expr::FnCall(c) => goes(
            m.with_task(Task::Arguments(&*c, 0)).with_task(Task::Eval(&c.callee)),
        ),
        Expr::Get(g) => goes(m.with_task(Task::GetField(&*g)).with_task(Task::Eval(&g.object))),
        Expr::SetField(s) => goes(
            m.with_task(Task::SetTarget(&*s)).with_task(Task::Eval(&s.target.object)),
        ),
        Expr::Super(s) => match m.frame {
            Some(f) => match super_bound(m.heap, f, s.var@, s.method.name@) {
                (h, Ok(function)) => goes(m.with_heap(h).with_value(SpecValue::Function(function))),
                (h, Err(e)) => fails(m, e),
            },
            None => fails(m, SpecRuntimeError::BadTarget(s.var.ident.span)),
        },
    }
}

/// Applying a prefix operator to the value on top.
#[verifier::opaque]
pub open spec fn on_unary<'a>(m: SpecMachine<'a>, u: &'a UnaryExpr) -> Stepped<'a> {
    if m.values.len() == 0 {
        fails(m, SpecRuntimeError::Stuck)
    } else {
        let m1 = m.dropped(1);
        match unary_action(u.operator, m.value(0), expr_view(u.operand).span()) {
            Ok(UnaryAction::Negate(n)) => asks(m1, SpecAction::Negate(n)),
            Ok(UnaryAction::Truth(b)) => goes(m1.with_value(SpecValue::Bool(b))),
            Err(e) => fails(m1, e),
        }
    }
}

/// Checking that the value on top, that of `e`, is a number.
#[verifier::opaque]
pub open spec fn on_number_check<'a>(m: SpecMachine<'a>, e: &'a Expr) -> Stepped<'a> {
    if m.values.len() == 0 {
        fails(m, SpecRuntimeError::Stuck)
    } else {
        match m.value(0) {
            SpecValue::Number(_) => goes(m),
            v => fails(
                m,
                SpecRuntimeError::TypeError {
                    span: expr_view(*e).span(),
                    expected: "number"@,
                    found: v.kind().name(),
                },
            ),
        }
    }
}

/// Applying a binary operator to the two values on top, the right operand
/// topmost. Arithmetic on numbers and the text of a number are asked of the
/// host.
#[verifier::opaque]
pub open spec fn on_binary<'a>(m: SpecMachine<'a>, b: &'a BinaryExpr) -> Stepped<'a> {
    if m.values.len() < 2 {
        fails(m, SpecRuntimeError::Stuck)
    } else {
        let right = m.value(0);
        let left = m.value(1);
        let m2 = m.dropped(2);
        match binary_action(
            m.heap,
            b.operator,
            left,
            right,
            expr_view(b.left).span(),
            expr_view(b.right).span(),
        ) {
            Err(e) => fails(m2, e),
            Ok(BinaryAction::Numeric(op, x, y)) => asks(m2, SpecAction::Arith(op, x, y)),
            Ok(BinaryAction::Truth(t)) => goes(m2.with_value(SpecValue::Bool(t))),
            Ok(BinaryAction::ConcatRight) => match right {
                SpecValue::Number(n) => asks(
                    m2.with_value(left).with_task(Task::Concat),
                    SpecAction::Format(n),
                ),
                _ => goes(
                    m2.with_value(
                        SpecValue::String(text_of(m.heap, left) + text_of(m.heap, right)),
                    ),
                ),
            },
            Ok(BinaryAction::ConcatLeft) => match left {
                SpecValue::Number(n) => asks(
                    m2.with_value(right).with_task(Task::ConcatReversed),
                    SpecAction::Format(n),
                ),
                _ => goes(
                    m2.with_value(
                        SpecValue::String(text_of(m.heap, left) + text_of(m.heap, right)),
                    ),
                ),
            },
            Ok(_) => fails(m2, SpecRuntimeError::Stuck),
        }
    }
}

/// Joining the two strings on top: the one below, then the topmost; or,
/// `reversed`, the topmost, then the one below.
#[verifier::opaque]
pub open spec fn on_concat<'a>(m: SpecMachine<'a>, reversed: bool) -> Stepped<'a> {
    if m.values.len() < 2 {
        fails(m, SpecRuntimeError::Stuck)
    } else {
        match (m.value(1), m.value(0)) {
            (SpecValue::String(below), SpecValue::String(top)) => goes(
                m.dropped(2).with_value(
                    SpecValue::String(
                        if reversed {
                            top + below
                        } else {
                            below + top
                        },
                    ),
                ),
            ),
            _ => fails(m.dropped(2), SpecRuntimeError::Stuck),
        }
    }
}

/// Deciding `and` or `or` by the left operand, which is on top: it stays as
/// the value, or it goes and the right operand is evaluated.
#[verifier::opaque]
pub open spec fn on_logical<'a>(m: SpecMachine<'a>, b: &'a BinaryExpr) -> Stepped<'a> {
    if m.values.len() == 0 {
        fails(m, SpecRuntimeError::Stuck)
    } else if short_circuits(b.operator, m.value(0)) {
        goes(m)
    } else {
        goes(m.dropped(1).with_task(Task::Eval(&b.right)))
    }
}

/// Choosing a branch of a conditional by the condition, which is on top.
#[verifier::opaque]
pub open spec fn on_choose<'a>(m: SpecMachine<'a>, t: &'a Ternary) -> Stepped<'a> {
    if m.values.len() == 0 {
        fails(m, SpecRuntimeError::Stuck)
    } else {
        goes(
            m.dropped(1).with_task(
                Task::Eval(
                    if m.value(0).truthy() {
                        &t.truthy
                    } else {
                        &t.falsy
                    },
                ),
            ),
        )
    }
}

/// Assigning the value on top to a variable; the value stays.
#[verifier::opaque]
pub open spec fn on_assign<'a>(m: SpecMachine<'a>, a: &'a Assign) -> Stepped<'a> {
    if m.values.len() == 0 {
        fails(m, SpecRuntimeError::Stuck)
    } else {
        match var_assigned(m, a.var@, m.value(0)) {
            Ok(m2) => goes(m2),
            Err(e) => fails(m, e),
        }
    }
}

/// Evaluating the arguments of a call from the `i`th on, and then calling.
#[verifier::opaque]
pub open spec fn on_arguments<'a>(m: SpecMachine<'a>, c: &'a FnCall, i: usize) -> Stepped<'a> {
    if i < c.arguments@.len() {
        goes(
            m.with_task(Task::Arguments(c, (i + 1) as usize)).with_task(
                Task::Eval(&c.arguments@[i as int]),
            ),
        )
    } else {
        goes(m.with_task(Task::Call(c)))
    }
}

/// Reading a property of the object on top, which must be an instance.
#[verifier::opaque]
pub open spec fn on_get_field<'a>(m: SpecMachine<'a>, g: &'a Get) -> Stepped<'a> {
    if m.values.len() == 0 {
        fails(m, SpecRuntimeError::Stuck)
    } else {
        let m1 = m.dropped(1);
        match m.value(0) {
            SpecValue::Instance(i) => match field_read(m.heap, i, g.field.name@) {
                (h, Ok(v)) => goes(m1.with_heap(h).with_value(v)),
                (h, Err(e)) => fails(m1, e),
            },
            v => fails(
                m1,
                SpecRuntimeError::InvalidFieldTarget {
                    target_type: v.kind().name(),
                    field: g.field.name@,
                },
            ),
        }
    }
}

/// Checking that the object of an assignment to a property, which is on
/// top, is an instance, before the value is evaluated.
#[verifier::opaque]
pub open spec fn on_set_target<'a>(m: SpecMachine<'a>, s: &'a SetField) -> Stepped<'a> {
    if m.values.len() == 0 {
        fails(m, SpecRuntimeError::Stuck)
    } else {
        match m.value(0) {
            SpecValue::Instance(_) => goes(
                m.with_task(Task::SetValue(s)).with_task(Task::Eval(&s.value)),
            ),
            v => fails(
                m,
                SpecRuntimeError::InvalidFieldTarget {
                    target_type: v.kind().name(),
                    field: s.target.field.name@,
                },
            ),
        }
    }
}

/// Writing the value on top to a property of the instance below it; the
/// value stays.
#[verifier::opaque]
pub open spec fn on_set_value<'a>(m: SpecMachine<'a>, s: &'a SetField) -> Stepped<'a> {
    if m.values.len() < 2 {
        fails(m, SpecRuntimeError::Stuck)
    } else {
        let v = m.value(0);
        let m2 = m.dropped(2);
        match m.value(1) {
            SpecValue::Instance(i) => if i < m.heap.instances.len() {
                goes(
                    m2.with_heap(
                        SpecHeap {
                            instances: m.heap.instances.update(
                                i as int,
                                SpecInstance {
                                    class: m.heap.instances[i as int].class,
                                    fields: global_defined(
                                        m.heap.instances[i as int].fields,
                                        s.target.field.name@,
                                        v,
                                    ),
                                },
                            ),
                            ..m.heap
                        },
                    ).with_value(v),
                )
            } else {
                fails(m2, SpecRuntimeError::Stuck)
            },
            _ => fails(m2, SpecRuntimeError::Stuck),
        }
    }
}

impl<'a> Machine<'a> {
    pub(crate) fn eval(&mut self, e: &'a Expr) -> (r: Option<Action>)
        ensures
            (final(self)@, outcome(r)) == on_eval(old(self)@, e),
    {
        reveal(on_eval);
        match e {
            Expr::Literal(l) => match &l.value {
                Lit::Number(text) => Some(Action::Number(text.clone())),
                Lit::String(s) => {
                    self.push_value(Value::String(s.clone()));
                    None
                },
                Lit::Bool(b) => {
                    self.push_value(Value::Bool(*b));
                    None
                },
                Lit::Nil => {
                    self.push_value(Value::Nil);
                    None
                },
            },
            Expr::Var(v) => match self.get_var(v) {
                Ok(value) => {
                    self.push_value(value);
                    None
                },
                Err(e) => self.fail(e),
            },
            Expr::Group(g) => {
                self.push_task(Task::Eval(&g.expr));
                None
            },
            Expr::Unary(u) => {
                self.push_task(Task::Unary(u));
                self.push_task(Task::Eval(&u.operand));
                None
            },
            Expr::Binary(b) => {
                match b.operator {
                    BinaryOp::And | BinaryOp::Or => {
                        self.push_task(Task::Logical(b));
                        self.push_task(Task::Eval(&b.left));
                    },
                    BinaryOp::Plus | BinaryOp::Equal | BinaryOp::NotEqual => {
                        self.push_task(Task::Binary(b));
                        self.push_task(Task::Eval(&b.right));
                        self.push_task(Task::Eval(&b.left));
                    },
                    _ => {
                        self.push_task(Task::Binary(b));
                        self.push_task(Task::Eval(&b.right));
                        self.push_task(Task::NumberCheck(&b.left));
                        self.push_task(Task::Eval(&b.left));
                    },
                }
                None
            },
            Expr::Ternary(t) => {
                self.push_task(Task::Choose(t));
                self.push_task(Task::Eval(&t.condition));
                None
            },
            Expr::Assign(a) => {
                self.push_task(Task::Assign(a));
                self.push_task(Task::Eval(&a.value));
                None
            },
            Expr::FnCall(c) => {
                self.push_task(Task::Arguments(c, 0));
                self.push_task(Task::Eval(&c.callee));
                None
            },
            Expr::Get(g) => {
                self.push_task(Task::GetField(g));
                self.push_task(Task::Eval(&g.object));
                None
            },
            Expr::SetField(s) => {
                self.push_task(Task::SetTarget(s));
                self.push_task(Task::Eval(&s.target.object));
                None
            },
            Expr::Super(s) => match self.frame {
                Some(f) => match self.heap.super_method(f, &s.var, &s.method.name) {
                    Ok(function) => {
                        self.push_value(Value::Function(function));
                        None
                    },
                    Err(e) => self.fail(e),
                },
                None => self.fail(RuntimeError::BadTarget(s.var.ident.span)),
            },
        }
    }

    pub(crate) fn unary(&mut self, u: &'a UnaryExpr) -> (r: Option<Action>)
        ensures
            (final(self)@, outcome(r)) == on_unary(old(self)@, u),
    {
        reveal(on_unary);
        match self.pop_value() {
            None => self.fail(RuntimeError::Stuck),
            Some(v) => match decide_unary(u.operator, &v, u.operand.get_span()) {
                Ok(UnaryAction::Negate(n)) => Some(Action::Negate(n)),
                Ok(UnaryAction::Truth(b)) => {
                    self.push_value(Value::Bool(b));
                    None
                },
                Err(e) => self.fail(e),
            },
        }
    }

    pub(crate) fn number_check(&mut self, e: &'a Expr) -> (r: Option<Action>)
        ensures
            (final(self)@, outcome(r)) == on_number_check(old(self)@, e),
    {
        reveal(on_number_check);
        let error = match self.peek(0) {
            None => RuntimeError::Stuck,
            Some(Value::Number(_)) => {
                return None;
            },
            Some(v) => RuntimeError::type_error(e.get_span(), "number", v),
        };
        self.fail(error)
    }

    pub(crate) fn binary(&mut self, b: &'a BinaryExpr) -> (r: Option<Action>)
        ensures
            (final(self)@, outcome(r)) == on_binary(old(self)@, b),
    {
        reveal(on_binary);
        let ghost before = self@;
        if self.values.len() < 2 {
            return self.fail(RuntimeError::Stuck);
        }
        let right = match self.pop_value() {
            Some(v) => v,
            None => {
                return self.fail(RuntimeError::Stuck);
            },
        };
        let left = match self.pop_value() {
            Some(v) => v,
            None => {
                return self.fail(RuntimeError::Stuck);
            },
        };
        assert(self@ == before.dropped(2)) by {
            assert(before.dropped(1).dropped(1).values =~= before.dropped(2).values);
        }
        assert(left@ == before.value(1));
        match decide_binary(
            &self.heap,
            b.operator,
            &left,
            &right,
            b.left.get_span(),
            b.right.get_span(),
        ) {
            Err(e) => self.fail(e),
            Ok(BinaryAction::Numeric(op, x, y)) => Some(Action::Arith(op, x, y)),
            Ok(BinaryAction::Truth(t)) => {
                self.push_value(Value::Bool(t));
                None
            },
            Ok(BinaryAction::ConcatRight) => match right {
                Value::Number(n) => {
                    self.push_value(left);
                    self.push_task(Task::Concat);
                    Some(Action::Format(n))
                },
                _ => {
                    let mut s = self.text(&left);
                    let t = self.text(&right);
                    s.append(t.as_str());
                    self.push_value(Value::String(s));
                    None
                },
            },
            Ok(BinaryAction::ConcatLeft) => match left {
                Value::Number(n) => {
                    self.push_value(right);
                    self.push_task(Task::ConcatReversed);
                    Some(Action::Format(n))
                },
                _ => {
                    let mut s = self.text(&left);
                    let t = self.text(&right);
                    s.append(t.as_str());
                    self.push_value(Value::String(s));
                    None
                },
            },
            Ok(_) => self.fail(RuntimeError::Stuck),
        }
    }

    pub(crate) fn concat(&mut self, reversed: bool) -> (r: Option<Action>)
        ensures
            (final(self)@, outcome(r)) == on_concat(old(self)@, reversed),
    {
        reveal(on_concat);
        let ghost before = self@;
        if self.values.len() < 2 {
            return self.fail(RuntimeError::Stuck);
        }
        let top = match self.pop_value() {
            Some(v) => v,
            None => {
                return self.fail(RuntimeError::Stuck);
            },
        };
        let below = match self.pop_value() {
            Some(v) => v,
            None => {
                return self.fail(RuntimeError::Stuck);
            },
        };
        assert(self@ == before.dropped(2)) by {
            assert(before.dropped(1).dropped(1).values =~= before.dropped(2).values);
        }
        assert(below@ == before.value(1));
        match (below, top) {
            (Value::String(below), Value::String(top)) => {
                let joined = if reversed {
                    top.concat(below.as_str())
                } else {
                    below.concat(top.as_str())
                };
                self.push_value(Value::String(joined));
                None
            },
            _ => self.fail(RuntimeError::Stuck),
        }
    }

    pub(crate) fn logical(&mut self, b: &'a BinaryExpr) -> (r: Option<Action>)
        ensures
            (final(self)@, outcome(r)) == on_logical(old(self)@, b),
    {
        reveal(on_logical);
        let decided = match self.peek(0) {
            None => {
                return self.fail(RuntimeError::Stuck);
            },
            Some(left) => decide_short_circuit(b.operator, left),
        };
        if !decided {
            let _ = self.pop_value();
            self.push_task(Task::Eval(&b.right));
        }
        None
    }

    pub(crate) fn pick(&mut self, t: &'a Ternary) -> (r: Option<Action>)
        ensures
            (final(self)@, outcome(r)) == on_choose(old(self)@, t),
    {
        reveal(on_choose);
        match self.pop_value() {
            None => self.fail(RuntimeError::Stuck),
            Some(condition) => {
                if condition.as_bool() {
                    self.push_task(Task::Eval(&t.truthy));
                } else {
                    self.push_task(Task::Eval(&t.falsy));
                }
                None
            },
        }
    }

    pub(crate) fn assign(&mut self, a: &'a Assign) -> (r: Option<Action>)
        ensures
            (final(self)@, outcome(r)) == on_assign(old(self)@, a),
    {
        reveal(on_assign);
        let value = match self.peek(0) {
            None => {
                return self.fail(RuntimeError::Stuck);
            },
            Some(v) => v.clone(),
        };
        match self.set_var(&a.var, value) {
            Ok(_) => None,
            Err(e) => self.fail(e),
        }
    }

    pub(crate) fn arguments(&mut self, c: &'a FnCall, i: usize) -> (r: Option<Action>)
        ensures
            (final(self)@, outcome(r)) == on_arguments(old(self)@, c, i),
    {
        reveal(on_arguments);
        if i < c.arguments.len() {
            self.push_task(Task::Arguments(c, i + 1));
            self.push_task(Task::Eval(&c.arguments[i]));
        } else {
            self.push_task(Task::Call(c));
        }
        None
    }

    pub(crate) fn get_field(&mut self, g: &'a Get) -> (r: Option<Action>)
        ensures
            (final(self)@, outcome(r)) == on_get_field(old(self)@, g),
    {
        reveal(on_get_field);
        match self.pop_value() {
            None => self.fail(RuntimeError::Stuck),
            Some(Value::Instance(i)) => match self.heap.get_field(i, &g.field.name) {
                Ok(v) => {
                    self.push_value(v);
                    None
                },
                Err(e) => self.fail(e),
            },
            Some(v) => self.fail(
                RuntimeError::InvalidFieldTarget {
                    target_type: v.kind_name(),
                    field: g.field.name.clone(),
                },
            ),
        }
    }

    pub(crate) fn set_target(&mut self, s: &'a SetField) -> (r: Option<Action>)
        ensures
            (final(self)@, outcome(r)) == on_set_target(old(self)@, s),
    {
        reveal(on_set_target);
        let error = match self.peek(0) {
            None => RuntimeError::Stuck,
            Some(Value::Instance(_)) => {
                self.push_task(Task::SetValue(s));
                self.push_task(Task::Eval(&s.value));
                return None;
            },
            Some(v) => RuntimeError::InvalidFieldTarget {
                target_type: v.kind_name(),
                field: s.target.field.name.clone(),
            },
        };
        self.fail(error)
    }

    pub(crate) fn set_value(&mut self, s: &'a SetField) -> (r: Option<Action>)
        ensures
            (final(self)@, outcome(r)) == on_set_value(old(self)@, s),
    {
        reveal(on_set_value);
        let ghost before = self@;
        if self.values.len() < 2 {
            return self.fail(RuntimeError::Stuck);
        }
        let value = match self.pop_value() {
            Some(v) => v,
            None => {
                return self.fail(RuntimeError::Stuck);
            },
        };
        let object = match self.pop_value() {
            Some(v) => v,
            None => {
                return self.fail(RuntimeError::Stuck);
            },
        };
        assert(self@ == before.dropped(2)) by {
            assert(before.dropped(1).dropped(1).values =~= before.dropped(2).values);
        }
        assert(object@ == before.value(1));
        match object {
            Value::Instance(i) => {
                if self.heap.set_field(i, &s.target.field.name, value.clone()) {
                    self.push_value(value);
                    None
                } else {
                    self.fail(RuntimeError::Stuck)
                }
            },
            _ => self.fail(RuntimeError::Stuck),
        }
    }
}

} // verus!
