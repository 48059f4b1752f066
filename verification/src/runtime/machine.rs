//! The evaluator, as a machine that the host drives.
//!
//! The machine walks a resolved program with a stack of tasks and a stack
//! of values. It does everything itself but what needs the doubles that the
//! numbers stand for, the clock, or the output: for those it stops with an
//! [`Action`], the host does what the action asks, and hands the result back
//! when it runs the machine again.

use vstd::prelude::*;
use vstd::string::*;
use crate::ast::expr::{Assign, BinaryExpr, BinaryOp, Expr, FnCall, Get, SetField, Ternary, UnaryExpr};
use crate::ast::ident::{SpecVariable, Variable};
use crate::ast::stmt::{If, Statement, While};
use crate::runtime::environment::{global_defined, global_value, read, slot, written, GlobalEnvironment};
use crate::runtime::error::{RuntimeError, SpecRuntimeError};
use crate::runtime::heap::{Heap, SpecHeap};
use crate::runtime::value::{
    values_view, FrameId, InstanceId, NativeId, Number, SpecValue, Value,
};
use crate::span::Span;

pub mod eval;
pub mod exec;
pub mod frames;
pub mod run;

verus! {

/// What the machine has yet to do. A task that takes values takes them from
/// the top of the stack of values, where the tasks before it left them.
#[derive(Debug, Clone, Copy)]
pub enum Task<'a> {
    /// Run the statement.
    Exec(&'a Statement),
    /// Run the statements from the given one on.
    Statements(&'a Vec<Statement>, usize),
    /// Evaluate the expression and leave its value.
    Eval(&'a Expr),
    /// Drop a value.
    Discard,
    /// Print a value.
    Print,
    /// Print a string.
    PrintText,
    /// Define the variable as a value.
    Define(&'a Variable),
    /// Run one branch of the `if`, as the condition says.
    Branch(&'a If),
    /// Run the body of the `while` and come back, if the condition says so.
    Loop(&'a While),
    /// Make the frame current again: the end of a block.
    Restore(Option<FrameId>),
    /// Return a value from the function that is running.
    Return(Span),
    /// The end of a call: make the frame current again and leave the value
    /// of the call, which for a call of a class is the new instance.
    Boundary(Option<FrameId>, Option<InstanceId>),
    /// Check that the value of the expression is a number.
    NumberCheck(&'a Expr),
    /// Apply the operator to two values.
    Binary(&'a BinaryExpr),
    /// Decide `and` or `or` by the left operand, or evaluate the right one.
    Logical(&'a BinaryExpr),
    /// Join two strings, the second of which is on top.
    Concat,
    /// Join two strings, the first of which is on top.
    ConcatReversed,
    /// Apply the prefix operator to a value.
    Unary(&'a UnaryExpr),
    /// Evaluate one branch of the conditional, as the condition says.
    Choose(&'a Ternary),
    /// Assign a value to the variable and leave the value.
    Assign(&'a Assign),
    /// Evaluate the arguments of the call from the given one on.
    Arguments(&'a FnCall, usize),
    /// Call the callee with the arguments.
    Call(&'a FnCall),
    /// Read the property of an object.
    GetField(&'a Get),
    /// Check that the object of an assignment to a property is an instance.
    SetTarget(&'a SetField),
    /// Write the property of an object and leave the value.
    SetValue(&'a SetField),
}

/// What the machine asks of the host.
#[derive(Debug, PartialEq, Eq)]
pub enum Action {
    /// The number that the text of a literal spells. The host hands back
    /// that number.
    Number(String),
    /// Arithmetic or a comparison on two numbers. The host hands back the
    /// number or the truth value.
    Arith(BinaryOp, Number, Number),
    /// The negation of a number. The host hands back the number.
    Negate(Number),
    /// The text of a number. The host hands back the string.
    Format(Number),
    /// A line of output. The host hands nothing back.
    Print(String),
    /// A call of a native function. The host hands back its value.
    Native(NativeId, Vec<Value>),
    /// The program has ended, well or with an error.
    Finished(Result<(), RuntimeError>),
    /// The machine has used the steps that it was given. The host hands
    /// nothing back.
    Yield,
}

/// The mathematical value of an [`Action`].
pub enum SpecAction {
    Number(Seq<char>),
    Arith(BinaryOp, Number, Number),
    Negate(Number),
    Format(Number),
    Print(Seq<char>),
    Native(NativeId, Seq<SpecValue>),
    Finished(Result<(), SpecRuntimeError>),
    Yield,
}

impl View for Action {
    type V = SpecAction;

    open spec fn view(&self) -> SpecAction {
        match self {
            Action::Number(text) => SpecAction::Number(text@),
            Action::Arith(op, a, b) => SpecAction::Arith(*op, *a, *b),
            Action::Negate(n) => SpecAction::Negate(*n),
            Action::Format(n) => SpecAction::Format(*n),
            Action::Print(text) => SpecAction::Print(text@),
            Action::Native(id, arguments) => SpecAction::Native(*id, values_view(arguments@)),
            Action::Finished(r) => SpecAction::Finished(
                match r {
                    Ok(_) => Ok(()),
                    Err(e) => Err(e@),
                },
            ),
            Action::Yield => SpecAction::Yield,
        }
    }
}

/// The value of what a step gives: an action, or nothing if the machine can
/// go on by itself.
pub open spec fn outcome(r: Option<Action>) -> Option<SpecAction> {
    match r {
        Some(a) => Some(a@),
        None => None,
    }
}

/// The machine.
pub struct Machine<'a> {
    pub heap: Heap<'a>,
    pub globals: GlobalEnvironment,
    pub frame: Option<FrameId>,
    pub tasks: Vec<Task<'a>>,
    pub values: Vec<Value>,
}

/// The mathematical value of a [`Machine`].
pub struct SpecMachine<'a> {
    pub heap: SpecHeap,
    pub globals: Seq<(Seq<char>, SpecValue)>,
    pub frame: Option<FrameId>,
    pub tasks: Seq<Task<'a>>,
    pub values: Seq<SpecValue>,
}

impl<'a> View for Machine<'a> {
    type V = SpecMachine<'a>;

    open spec fn view(&self) -> SpecMachine<'a> {
        SpecMachine {
            heap: self.heap@,
            globals: self.globals@,
            frame: self.frame,
            tasks: self.tasks@,
            values: values_view(self.values@),
        }
    }
}

impl<'a> SpecMachine<'a> {
    pub open spec fn with_value(self, v: SpecValue) -> SpecMachine<'a> {
        SpecMachine { values: self.values.push(v), ..self }
    }

    pub open spec fn with_task(self, t: Task<'a>) -> SpecMachine<'a> {
        SpecMachine { tasks: self.tasks.push(t), ..self }
    }

    pub open spec fn with_heap(self, heap: SpecHeap) -> SpecMachine<'a> {
        SpecMachine { heap, ..self }
    }

    pub open spec fn with_frame(self, frame: Option<FrameId>) -> SpecMachine<'a> {
        SpecMachine { frame, ..self }
    }

    /// Without the topmost `n` values.
    pub open spec fn dropped(self, n: int) -> SpecMachine<'a> {
        SpecMachine { values: self.values.take(self.values.len() - n), ..self }
    }

    /// The value that is `depth` below the top of the stack.
    pub open spec fn value(self, depth: int) -> SpecValue {
        self.values[self.values.len() - 1 - depth]
    }
}

/// A step: the machine after it, and the action that it stops with, if it
/// stops.
pub type Stepped<'a> = (SpecMachine<'a>, Option<SpecAction>);

/// The machine goes on.
pub open spec fn goes<'a>(m: SpecMachine<'a>) -> Stepped<'a> {
    (m, None)
}

/// The machine stops and asks the host.
pub open spec fn asks<'a>(m: SpecMachine<'a>, a: SpecAction) -> Stepped<'a> {
    (m, Some(a))
}

/// The frame that was current outside of every block and call that the
/// tasks from `i` on have yet to leave: the one that the first of them
/// that ends a block or a call makes current again, or `frame` if none
/// does.
pub open spec fn outer_frame<'a>(tasks: Seq<Task<'a>>, i: int, frame: Option<FrameId>) -> Option<
    FrameId,
>
    decreases tasks.len() - i,
{
    if !(0 <= i < tasks.len()) {
        frame
    } else {
        match tasks[i] {
            Task::Restore(f) => f,
            Task::Boundary(f, _) => f,
            _ => outer_frame(tasks, i + 1, frame),
        }
    }
}

/// The program ends with an error: the machine has nothing left to do, and
/// every block and call that was under way is left, so that the frame that
/// was current outside of them all is current again.
pub open spec fn fails<'a>(m: SpecMachine<'a>, e: SpecRuntimeError) -> Stepped<'a> {
    (
        SpecMachine { tasks: Seq::empty(), frame: outer_frame(m.tasks, 0, m.frame), ..m },
        Some(SpecAction::Finished(Err(e))),
    )
}

/// The text of a value that is no number: a string is its contents, a truth
/// value `true` or `false`, nil `nil`, and a function, a class or an
/// instance is shown by its name.
pub open spec fn text_of(h: SpecHeap, v: SpecValue) -> Seq<char> {
    match v {
        SpecValue::Number(_) => Seq::empty(),
        SpecValue::String(s) => s,
        SpecValue::Bool(b) => if b {
            "true"@
        } else {
            "false"@
        },
        SpecValue::Nil => "nil"@,
        SpecValue::NativeFunction(n) => "<native function "@ + (if n < h.natives.len() {
            h.natives[n as int].name
        } else {
            Seq::empty()
        }) + ">"@,
        SpecValue::Function(f) => "<function "@ + (if f < h.functions.len() {
            h.functions[f as int].declaration.var.ident.name@
        } else {
            Seq::empty()
        }) + ">"@,
        SpecValue::Class(c) => "<class "@ + class_name(h, c) + ">"@,
        SpecValue::Instance(i) => "<"@ + (if i < h.instances.len() {
            class_name(h, h.instances[i as int].class)
        } else {
            Seq::empty()
        }) + " instance>"@,
    }
}

/// The name of a class.
pub open spec fn class_name(h: SpecHeap, c: usize) -> Seq<char> {
    if c < h.classes.len() {
        h.classes[c as int].name
    } else {
        Seq::empty()
    }
}

/// The value of a variable: that of its slot, or that of the global of its
/// name if the resolver left it unbound.
pub open spec fn var_read<'a>(m: SpecMachine<'a>, var: SpecVariable) -> Result<
    SpecValue,
    SpecRuntimeError,
> {
    match var.target {
        Some(t) => match m.frame {
            Some(f) => match read(m.heap.frames, f, t) {
                Some(v) => Ok(v),
                None => Err(SpecRuntimeError::BadTarget(var.ident.span)),
            },
            None => Err(SpecRuntimeError::BadTarget(var.ident.span)),
        },
        None => match global_value(m.globals, var.ident.name) {
            Some(v) => Ok(v),
            None => Err(SpecRuntimeError::UndefinedVariable { name: var.ident.name }),
        },
    }
}

/// The machine after a value is written to a slot.
pub open spec fn slot_written<'a>(
    m: SpecMachine<'a>,
    var: SpecVariable,
    value: SpecValue,
) -> Result<SpecMachine<'a>, SpecRuntimeError> {
    match (var.target, m.frame) {
        (Some(t), Some(f)) => if slot(m.heap.frames, f, t) is Some {
            Ok(m.with_heap(SpecHeap { frames: written(m.heap.frames, f, t, value), ..m.heap }))
        } else {
            Err(SpecRuntimeError::BadTarget(var.ident.span))
        },
        _ => Err(SpecRuntimeError::BadTarget(var.ident.span)),
    }
}

/// The machine after a variable is declared with a value: in its slot, or as
/// a global if the resolver left it unbound.
pub open spec fn var_declared<'a>(
    m: SpecMachine<'a>,
    var: SpecVariable,
    value: SpecValue,
) -> Result<SpecMachine<'a>, SpecRuntimeError> {
    match var.target {
        Some(_) => slot_written(m, var, value),
        None => Ok(SpecMachine { globals: global_defined(m.globals, var.ident.name, value), ..m }),
    }
}

/// The machine after a variable is assigned a value: in its slot, or as the
/// global of its name, which must be defined.
pub open spec fn var_assigned<'a>(
    m: SpecMachine<'a>,
    var: SpecVariable,
    value: SpecValue,
) -> Result<SpecMachine<'a>, SpecRuntimeError> {
    match var.target {
        Some(_) => slot_written(m, var, value),
        None => if global_value(m.globals, var.ident.name) is Some {
            Ok(SpecMachine { globals: global_defined(m.globals, var.ident.name, value), ..m })
        } else {
            Err(SpecRuntimeError::UndefinedVariable { name: var.ident.name })
        },
    }
}

impl<'a> Machine<'a> {
    /// A machine that is to run `program`, with no globals.
    pub fn new(program: &'a Vec<Statement>) -> (r: Self)
        ensures
            r@.tasks == seq![Task::Statements(program, 0)],
            r@.values == Seq::<SpecValue>::empty(),
            r@.frame is None,
            r@.globals == Seq::<(Seq<char>, SpecValue)>::empty(),
            r@.heap == (SpecHeap {
                frames: Seq::empty(),
                natives: Seq::empty(),
                functions: Seq::empty(),
                classes: Seq::empty(),
                instances: Seq::empty(),
            }),
    {
        let mut tasks: Vec<Task<'a>> = Vec::new();
        tasks.push(Task::Statements(program, 0));
        let r = Machine {
            heap: Heap::new(),
            globals: GlobalEnvironment::new(),
            frame: None,
            tasks,
            values: Vec::new(),
        };
        assert(r@.tasks =~= seq![Task::Statements(program, 0)]);
        assert(r@.values =~= Seq::<SpecValue>::empty());
        r
    }

    /// Leaves a value on the stack.
    pub fn push_value(&mut self, v: Value)
        ensures
            final(self)@ == old(self)@.with_value(v@),
    {
        let ghost before = self@;
        self.values.push(v);
        assert(self@.values =~= before.values.push(v@));
    }

    /// Takes the topmost value.
    pub fn pop_value(&mut self) -> (r: Option<Value>)
        ensures
            match r {
                Some(v) => old(self)@.values.len() > 0 && v@ == old(self)@.value(0) && final(self)@
                    == old(self)@.dropped(1),
                None => old(self)@.values.len() == 0 && final(self)@ == old(self)@,
            },
    {
        let ghost before = self@;
        let r = self.values.pop();
        assert(self@.values =~= before.values.take(self.values@.len() as int));
        r
    }

    /// The value that is `depth` below the top.
    pub fn peek(&self, depth: usize) -> (r: Option<&Value>)
        ensures
            match r {
                Some(v) => depth < self@.values.len() && v@ == self@.value(depth as int),
                None => depth >= self@.values.len(),
            },
    {
        if depth < self.values.len() {
            Some(&self.values[self.values.len() - 1 - depth])
        } else {
            None
        }
    }

    /// Adds a task, which is the next to be done.
    pub fn push_task(&mut self, t: Task<'a>)
        ensures
            final(self)@ == old(self)@.with_task(t),
    {
        self.tasks.push(t);
    }

    /// The frame that was current outside of every block and call that is
    /// under way.
    pub(crate) fn outer(&self) -> (r: Option<FrameId>)
        ensures
            r == outer_frame(self@.tasks, 0, self@.frame),
    {
        let mut i: usize = 0;
        while i < self.tasks.len()
            invariant
                i <= self.tasks@.len(),
                outer_frame(self@.tasks, 0, self@.frame) == outer_frame(
                    self@.tasks,
                    i as int,
                    self@.frame,
                ),
            decreases self.tasks@.len() - i,
        {
            match self.tasks[i] {
                Task::Restore(f) => {
                    return f;
                },
                Task::Boundary(f, _) => {
                    return f;
                },
                _ => {},
            }
            i += 1;
        }
        self.frame
    }

    /// Ends the program with an error, and leaves every block and call
    /// that was under way.
    pub fn fail(&mut self, e: RuntimeError) -> (r: Option<Action>)
        ensures
            (final(self)@, outcome(r)) == fails(old(self)@, e@),
    {
        self.frame = self.outer();
        self.tasks.clear();
        assert(self@.tasks =~= Seq::empty());
        Some(Action::Finished(Err(e)))
    }

    /// The text of a value that is no number.
    pub fn text(&self, v: &Value) -> (r: String)
        ensures
            r@ == text_of(self.heap@, v@),
    {
        match v {
            Value::Number(_) => String::new(),
            Value::String(s) => s.clone(),
            Value::Bool(b) => if *b {
                String::from_str("true")
            } else {
                String::from_str("false")
            },
            Value::Nil => String::from_str("nil"),
            Value::NativeFunction(n) => {
                let mut s = String::from_str("<native function ");
                if *n < self.heap.natives.len() {
                    s.append(self.heap.natives[*n].name.as_str());
                } else {
                    assert(s@ + Seq::<char>::empty() =~= s@);
                }
                s.append(">");
                s
            },
            Value::Function(f) => {
                let mut s = String::from_str("<function ");
                if *f < self.heap.functions.len() {
                    s.append(self.heap.functions[*f].declaration.var.ident.name.as_str());
                } else {
                    assert(s@ + Seq::<char>::empty() =~= s@);
                }
                s.append(">");
                s
            },
            Value::Class(c) => {
                let mut s = String::from_str("<class ");
                self.append_class_name(&mut s, *c);
                s.append(">");
                s
            },
            Value::Instance(i) => {
                let mut s = String::from_str("<");
                if *i < self.heap.instances.len() {
                    self.append_class_name(&mut s, self.heap.instances[*i].class);
                } else {
                    assert(s@ + Seq::<char>::empty() =~= s@);
                }
                s.append(" instance>");
                s
            },
        }
    }

    /// Appends the name of a class.
    fn append_class_name(&self, s: &mut String, c: usize)
        ensures
            final(s)@ == old(s)@ + class_name(self.heap@, c),
    {
        if c < self.heap.classes.len() {
            s.append(self.heap.classes[c].name.as_str());
        } else {
            assert(s@ + Seq::<char>::empty() =~= s@);
        }
    }

    /// The value of a variable.
    pub fn get_var(&self, var: &Variable) -> (r: Result<Value, RuntimeError>)
        ensures
            match r {
                Ok(v) => var_read(self@, var@) == Ok::<SpecValue, SpecRuntimeError>(v@),
                Err(e) => var_read(self@, var@) == Err::<SpecValue, SpecRuntimeError>(e@),
            },
    {
        match var.target {
            Some(t) => match self.frame {
                Some(f) => match self.heap.environment.get(f, t) {
                    Some(v) => Ok(v),
                    None => Err(RuntimeError::BadTarget(var.ident.span)),
                },
                None => Err(RuntimeError::BadTarget(var.ident.span)),
            },
            None => self.globals.get(&var.ident.name),
        }
    }

    /// Writes a value to the slot of a variable.
    fn write_slot(&mut self, var: &Variable, value: Value) -> (r: Result<(), RuntimeError>)
        ensures
            match r {
                Ok(_) => slot_written(old(self)@, var@, value@) == Ok::<
                    SpecMachine<'a>,
                    SpecRuntimeError,
                >(final(self)@),
                Err(e) => slot_written(old(self)@, var@, value@) == Err::<
                    SpecMachine<'a>,
                    SpecRuntimeError,
                >(e@) && final(self)@ == old(self)@,
            },
    {
        match (var.target, self.frame) {
            (Some(t), Some(f)) => {
                if self.heap.environment.assign(f, t, value) {
                    Ok(())
                } else {
                    Err(RuntimeError::BadTarget(var.ident.span))
                }
            },
            _ => Err(RuntimeError::BadTarget(var.ident.span)),
        }
    }

    /// Declares a variable with a value.
    pub fn declare_var(&mut self, var: &Variable, value: Value) -> (r: Result<(), RuntimeError>)
        ensures
            match r {
                Ok(_) => var_declared(old(self)@, var@, value@) == Ok::<
                    SpecMachine<'a>,
                    SpecRuntimeError,
                >(final(self)@),
                Err(e) => var_declared(old(self)@, var@, value@) == Err::<
                    SpecMachine<'a>,
                    SpecRuntimeError,
                >(e@) && final(self)@ == old(self)@,
            },
    {
        match var.target {
            Some(_) => self.write_slot(var, value),
            None => {
                self.globals.define(&var.ident.name, value);
                Ok(())
            },
        }
    }

    /// Assigns a value to a variable.
    pub fn set_var(&mut self, var: &Variable, value: Value) -> (r: Result<(), RuntimeError>)
        ensures
            match r {
                Ok(_) => var_assigned(old(self)@, var@, value@) == Ok::<
                    SpecMachine<'a>,
                    SpecRuntimeError,
                >(final(self)@),
                Err(e) => var_assigned(old(self)@, var@, value@) == Err::<
                    SpecMachine<'a>,
                    SpecRuntimeError,
                >(e@) && final(self)@ == old(self)@,
            },
    {
        match var.target {
            Some(_) => self.write_slot(var, value),
            None => self.globals.assign(&var.ident.name, value),
        }
    }
}

} // verus!
