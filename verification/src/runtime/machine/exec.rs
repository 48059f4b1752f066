//! The steps of the machine that run statements and calls.

use vstd::prelude::*;
use vstd::string::*;
use crate::ast::expr::{expr_view, FnCall};
use crate::ast::ident::Variable;
use crate::ast::stmt::{ClassDecl, FnDecl, If, Statement, While};
use crate::runtime::environment::SpecFrame;
use crate::runtime::error::{RuntimeError, SpecRuntimeError};
use crate::runtime::heap::{
    call_checked, class_made, function_added, function_entered, method, method_bound, SpecHeap,
    SpecInstance,
};
use crate::runtime::machine::{
    asks, fails, goes, outcome, text_of, var_declared, var_read, Action, Machine, SpecAction,
    SpecMachine, Stepped, Task,
};
use crate::runtime::value::{
    values_view, ClassId, FrameId, FunctionId, InstanceId, SpecValue, Value,
};
use crate::span::Span;

verus! {

/// Declaring a variable with a value and going on.
pub open spec fn declares<'a>(m: SpecMachine<'a>, var: &'a Variable, value: SpecValue) -> Stepped<
    'a,
> {
    match var_declared(m, var@, value) {
        Ok(m2) => goes(m2),
        Err(e) => fails(m, e),
    }
}

/// The superclass that a class declaration names, if it names one: the
/// value of the variable, which must be a class.
pub open spec fn super_class_of<'a>(m: SpecMachine<'a>, c: &'a ClassDecl) -> Result<
    Option<ClassId>,
    SpecRuntimeError,
> {
    match c.super_class {
        Some(sv) => match var_read(m, sv@) {
            Ok(SpecValue::Class(sc)) => Ok(Some(sc)),
            Ok(_) => Err(SpecRuntimeError::InvalidSuperClass(sv.ident.span)),
            Err(e) => Err(e),
        },
        None => Ok(None),
    }
}

/// Running a statement.
///
/// - `print`, an expression statement, `if`, `while`, `return` and a
///   declaration with an initializer leave the tasks that evaluate the
///   expression and then do the rest.
/// - A block gets a frame of its own, enclosed by the current one, which is
///   current again after the block.
/// - A function declaration makes a function value that closes over the
///   current frame, and declares the name.
/// - A class declaration makes the class, with the value of the superclass
///   if it names one, and declares the name.
#[verifier::opaque]
pub open spec fn on_exec<'a>(m: SpecMachine<'a>, s: &'a Statement) -> Stepped<'a> {
    match *s {
        Statement::Print(p) => goes(m.with_task(Task::Print).with_task(Task::Eval(&p.expr))),
        Statement::Expression(e) => goes(
            m.with_task(Task::Discard).with_task(Task::Eval(&e.expr)),
        ),
        Statement::Var(v) => match v.initializer {
            Some(e) => goes(m.with_task(Task::Define(&v.var)).with_task(Task::Eval(&e))),
            None => declares(m, &v.var, SpecValue::Nil),
        },
        Statement::Block(b) => goes(
            SpecMachine {
                heap: SpecHeap {
                    frames: m.heap.frames.push(
                        SpecFrame {
                            values: Seq::new(b.num_of_locals as nat, |i: int| SpecValue::Nil),
                            enclosing: m.frame,
                        },
                    ),
                    ..m.heap
                },
                frame: Some(m.heap.frames.len() as usize),
                tasks: m.tasks.push(Task::Restore(m.frame)).push(
                    Task::Statements(&b.statements, 0),
                ),
                ..m
            },
        ),
        Statement::If(i) => goes(m.with_task(Task::Branch(&*i)).with_task(Task::Eval(&i.condition))),
        Statement::While(w) => goes(
            m.with_task(Task::Loop(&*w)).with_task(Task::Eval(&w.condition)),
        ),
        Statement::FnDecl(f) => declares(
            m.with_heap(function_added(m.heap, *f, m.frame)),
            &f.var,
            SpecValue::Function(m.heap.functions.len() as usize),
        ),
        Statement::Return(r) => match r.expr {
            Some(e) => goes(m.with_task(Task::Return(r.span)).with_task(Task::Eval(&e))),
            None => goes(m.with_value(SpecValue::Nil).with_task(Task::Return(r.span))),
        },
        Statement::ClassDecl(c) => match super_class_of(m, &*c) {
            Err(e) => fails(m, e),
            Ok(sc) => declares(
                m.with_heap(class_made(m.heap, c.var.ident.name@, c.methods@, sc, m.frame)),
                &c.var,
                SpecValue::Class(m.heap.classes.len() as usize),
            ),
        },
    }
}

/// Running the statements of a list from the `i`th on.
#[verifier::opaque]
pub open spec fn on_statements<'a>(m: SpecMachine<'a>, list: &'a Vec<Statement>, i: usize) -> Stepped<
    'a,
> {
    if i < list@.len() {
        goes(
            m.with_task(Task::Statements(list, (i + 1) as usize)).with_task(
                Task::Exec(&list@[i as int]),
            ),
        )
    } else {
        goes(m)
    }
}

/// Defining a variable as the value on top.
#[verifier::opaque]
pub open spec fn on_define<'a>(m: SpecMachine<'a>, var: &'a Variable) -> Stepped<'a> {
    if m.values.len() == 0 {
        fails(m, SpecRuntimeError::Stuck)
    } else {
        declares(m.dropped(1), var, m.value(0))
    }
}

/// Dropping the value on top.
#[verifier::opaque]
pub open spec fn on_discard<'a>(m: SpecMachine<'a>) -> Stepped<'a> {
    if m.values.len() == 0 {
        fails(m, SpecRuntimeError::Stuck)
    } else {
        goes(m.dropped(1))
    }
}

/// Printing the value on top: the text of a number is asked of the host
/// first.
#[verifier::opaque]
pub open spec fn on_print<'a>(m: SpecMachine<'a>) -> Stepped<'a> {
    if m.values.len() == 0 {
        fails(m, SpecRuntimeError::Stuck)
    } else {
        match m.value(0) {
            SpecValue::Number(n) => asks(
                m.dropped(1).with_task(Task::PrintText),
                SpecAction::Format(n),
            ),
            v => asks(m.dropped(1), SpecAction::Print(text_of(m.heap, v))),
        }
    }
}

/// Printing the string on top.
#[verifier::opaque]
pub open spec fn on_print_text<'a>(m: SpecMachine<'a>) -> Stepped<'a> {
    if m.values.len() == 0 {
        fails(m, SpecRuntimeError::Stuck)
    } else {
        match m.value(0) {
            SpecValue::String(s) => asks(m.dropped(1), SpecAction::Print(s)),
            _ => fails(m.dropped(1), SpecRuntimeError::Stuck),
        }
    }
}

/// Running a branch of an `if` by the condition, which is on top.
#[verifier::opaque]
pub open spec fn on_branch<'a>(m: SpecMachine<'a>, i: &'a If) -> Stepped<'a> {
    if m.values.len() == 0 {
        fails(m, SpecRuntimeError::Stuck)
    } else if m.value(0).truthy() {
        goes(m.dropped(1).with_task(Task::Exec(&i.then_branch)))
    } else {
        match i.else_branch {
            Some(e) => goes(m.dropped(1).with_task(Task::Exec(&e))),
            None => goes(m.dropped(1)),
        }
    }
}

/// Running the body of a `while` and coming back to the condition, if the
/// condition, which is on top, says so.
#[verifier::opaque]
pub open spec fn on_loop<'a>(m: SpecMachine<'a>, w: &'a While) -> Stepped<'a> {
    if m.values.len() == 0 {
        fails(m, SpecRuntimeError::Stuck)
    } else if m.value(0).truthy() {
        goes(
            m.dropped(1).with_task(Task::Loop(w)).with_task(Task::Eval(&w.condition)).with_task(
                Task::Exec(&w.body),
            ),
        )
    } else {
        goes(m.dropped(1))
    }
}

/// The end of a call that ran to the end of the body: the frame of the
/// caller is current again, and the value is nil, or the instance if a
/// class was called.
#[verifier::opaque]
pub open spec fn on_boundary<'a>(
    m: SpecMachine<'a>,
    restore: Option<FrameId>,
    instance: Option<InstanceId>,
) -> Stepped<'a> {
    goes(
        m.with_frame(restore).with_value(
            match instance {
                Some(i) => SpecValue::Instance(i),
                None => SpecValue::Nil,
            },
        ),
    )
}

/// The place of the last call boundary among the first `n` tasks.
pub open spec fn boundary_at<'a>(tasks: Seq<Task<'a>>, n: nat) -> Option<nat>
    decreases n,
{
    if n == 0 || n > tasks.len() {
        None
    } else if tasks[n - 1] is Boundary {
        Some((n - 1) as nat)
    } else {
        boundary_at(tasks, (n - 1) as nat)
    }
}

/// Returning the value on top: the tasks of the running function go, the
/// frame of the caller is current again, and the value is that of the call.
/// From an initializer only nil is returned, and the value of the call is
/// the instance. With no function running, the program ends with the
/// `return` as its error.
#[verifier::opaque]
pub open spec fn on_return<'a>(m: SpecMachine<'a>, span: Span) -> Stepped<'a> {
    if m.values.len() == 0 {
        fails(m, SpecRuntimeError::Stuck)
    } else {
        let v = m.value(0);
        let m1 = m.dropped(1);
        match boundary_at(m.tasks, m.tasks.len()) {
            None => fails(m1, SpecRuntimeError::Return(span, v)),
            Some(k) => match m.tasks[k as int] {
                Task::Boundary(restore, instance) => {
                    let m2 = SpecMachine { tasks: m.tasks.take(k as int), frame: restore, ..m1 };
                    match instance {
                        Some(i) => if v is Nil {
                            goes(m2.with_value(SpecValue::Instance(i)))
                        } else {
                            fails(m2, SpecRuntimeError::ReturnInConstructor(span))
                        },
                        None => goes(m2.with_value(v)),
                    }
                },
                _ => fails(m1, SpecRuntimeError::Stuck),
            },
        }
    }
}

/// Entering a function with the arguments: its frame is current, and its
/// body is run up to the boundary of the call.
pub open spec fn enters<'a>(
    m: SpecMachine<'a>,
    function: FunctionId,
    arguments: Seq<SpecValue>,
    instance: Option<InstanceId>,
    span: Span,
) -> Stepped<'a> {
    match function_entered(m.heap, function, arguments) {
        (h, Some(frame)) => goes(
            SpecMachine {
                heap: h,
                frame: Some(frame),
                tasks: m.tasks.push(Task::Boundary(m.frame, instance)).push(
                    Task::Statements(&m.heap.functions[function as int].declaration.body, 0),
                ),
                ..m
            },
        ),
        (h, None) => fails(m.with_heap(h), SpecRuntimeError::BadTarget(span)),
    }
}

/// Calling a class with the arguments: a new instance, and its `init`
/// method, if the class has one, bound to it and entered.
pub open spec fn constructs<'a>(
    m: SpecMachine<'a>,
    class: ClassId,
    arguments: Seq<SpecValue>,
    span: Span,
) -> Stepped<'a> {
    let instance = m.heap.instances.len() as usize;
    let h1 = SpecHeap {
        instances: m.heap.instances.push(SpecInstance { class, fields: Seq::empty() }),
        ..m.heap
    };
    match method(h1.classes, class, "init"@) {
        None => goes(m.with_heap(h1).with_value(SpecValue::Instance(instance))),
        Some(init) => match method_bound(h1, instance, init) {
            (h2, Some(bound)) => enters(m.with_heap(h2), bound, arguments, Some(instance), span),
            _ => fails(m.with_heap(h1), SpecRuntimeError::BadTarget(span)),
        },
    }
}

/// Calling: the arguments are on top, in order, and the callee is below
/// them. The callee must be callable with as many arguments. A native
/// function is asked of the host, a function is entered, a class is
/// constructed.
#[verifier::opaque]
pub open spec fn on_call<'a>(m: SpecMachine<'a>, c: &'a FnCall) -> Stepped<'a> {
    let n = c.arguments@.len();
    if m.values.len() < n + 1 {
        fails(m, SpecRuntimeError::Stuck)
    } else {
        let arguments = m.values.skip(m.values.len() - n);
        let callee = m.value(n as int);
        let m1 = m.dropped(n as int + 1);
        let span = expr_view(c.callee).span();
        match call_checked(m.heap, callee, n as usize, span) {
            Err(e) => fails(m1, e),
            Ok(_) => match callee {
                SpecValue::NativeFunction(id) => asks(m1, SpecAction::Native(id, arguments)),
                SpecValue::Function(f) => enters(m1, f, arguments, None, span),
                SpecValue::Class(class) => constructs(m1, class, arguments, span),
                _ => fails(m1, SpecRuntimeError::Stuck),
            },
        }
    }
}

impl<'a> Machine<'a> {
    /// Declares a variable with a value and goes on.
    fn declare(&mut self, var: &'a Variable, value: Value) -> (r: Option<Action>)
        ensures
            (final(self)@, outcome(r)) == declares(old(self)@, var, value@),
    {
        match self.declare_var(var, value) {
            Ok(_) => None,
            Err(e) => self.fail(e),
        }
    }

    /// The superclass that a class declaration names.
    fn super_class(&self, c: &'a ClassDecl) -> (r: Result<Option<ClassId>, RuntimeError>)
        ensures
            match r {
                Ok(sc) => super_class_of(self@, c) == Ok::<Option<ClassId>, SpecRuntimeError>(sc),
                Err(e) => super_class_of(self@, c) == Err::<Option<ClassId>, SpecRuntimeError>(e@),
            },
    {
        match &c.super_class {
            Some(sv) => match self.get_var(sv) {
                Ok(Value::Class(sc)) => Ok(Some(sc)),
                Ok(_) => Err(RuntimeError::InvalidSuperClass(sv.ident.span)),
                Err(e) => Err(e),
            },
            None => Ok(None),
        }
    }

    pub(crate) fn exec(&mut self, s: &'a Statement) -> (r: Option<Action>)
        ensures
            (final(self)@, outcome(r)) == on_exec(old(self)@, s),
    {
        reveal(on_exec);
        match s {
            Statement::Print(p) => {
                self.push_task(Task::Print);
                self.push_task(Task::Eval(&p.expr));
                None
            },
            Statement::Expression(e) => {
                self.push_task(Task::Discard);
                self.push_task(Task::Eval(&e.expr));
                None
            },
            Statement::Var(v) => match &v.initializer {
                Some(e) => {
                    self.push_task(Task::Define(&v.var));
                    self.push_task(Task::Eval(e));
                    None
                },
                None => self.declare(&v.var, Value::Nil),
            },
            Statement::Block(b) => {
                let previous = self.frame;
                let frame = self.heap.environment.push_frame(b.num_of_locals, previous);
                self.frame = Some(frame);
                self.tasks.push(Task::Restore(previous));
                self.tasks.push(Task::Statements(&b.statements, 0));
                None
            },
            Statement::If(i) => {
                self.push_task(Task::Branch(i));
                self.push_task(Task::Eval(&i.condition));
                None
            },
            Statement::While(w) => {
                self.push_task(Task::Loop(w));
                self.push_task(Task::Eval(&w.condition));
                None
            },
            Statement::FnDecl(f) => {
                let id = self.heap.add_function(f, self.frame);
                self.declare(&f.var, Value::Function(id))
            },
            Statement::Return(r) => {
                match &r.expr {
                    Some(e) => {
                        self.push_task(Task::Return(r.span));
                        self.push_task(Task::Eval(e));
                    },
                    None => {
                        self.push_value(Value::Nil);
                        self.push_task(Task::Return(r.span));
                    },
                }
                None
            },
            Statement::ClassDecl(c) => match self.super_class(c) {
                Err(e) => self.fail(e),
                Ok(sc) => {
                    let id = self.heap.new_class(c, sc, self.frame);
                    self.declare(&c.var, Value::Class(id))
                },
            },
        }
    }

    pub(crate) fn statements(&mut self, list: &'a Vec<Statement>, i: usize) -> (r: Option<Action>)
        ensures
            (final(self)@, outcome(r)) == on_statements(old(self)@, list, i),
    {
        reveal(on_statements);
        if i < list.len() {
            self.push_task(Task::Statements(list, i + 1));
            self.push_task(Task::Exec(&list[i]));
        }
        None
    }

    pub(crate) fn define(&mut self, var: &'a Variable) -> (r: Option<Action>)
        ensures
            (final(self)@, outcome(r)) == on_define(old(self)@, var),
    {
        reveal(on_define);
        match self.pop_value() {
            None => self.fail(RuntimeError::Stuck),
            Some(v) => self.declare(var, v),
        }
    }

    pub(crate) fn discard(&mut self) -> (r: Option<Action>)
        ensures
            (final(self)@, outcome(r)) == on_discard(old(self)@),
    {
        reveal(on_discard);
        match self.pop_value() {
            None => self.fail(RuntimeError::Stuck),
            Some(_) => None,
        }
    }

    pub(crate) fn print(&mut self) -> (r: Option<Action>)
        ensures
            (final(self)@, outcome(r)) == on_print(old(self)@),
    {
        reveal(on_print);
        match self.pop_value() {
            None => self.fail(RuntimeError::Stuck),
            Some(Value::Number(n)) => {
                self.push_task(Task::PrintText);
                Some(Action::Format(n))
            },
            Some(v) => Some(Action::Print(self.text(&v))),
        }
    }

    pub(crate) fn print_text(&mut self) -> (r: Option<Action>)
        ensures
            (final(self)@, outcome(r)) == on_print_text(old(self)@),
    {
        reveal(on_print_text);
        match self.pop_value() {
            None => self.fail(RuntimeError::Stuck),
            Some(Value::String(s)) => Some(Action::Print(s)),
            Some(_) => self.fail(RuntimeError::Stuck),
        }
    }

    pub(crate) fn branch(&mut self, i: &'a If) -> (r: Option<Action>)
        ensures
            (final(self)@, outcome(r)) == on_branch(old(self)@, i),
    {
        reveal(on_branch);
        match self.pop_value() {
            None => self.fail(RuntimeError::Stuck),
            Some(condition) => {
                if condition.as_bool() {
                    self.push_task(Task::Exec(&i.then_branch));
                } else {
                    match &i.else_branch {
                        Some(e) => {
                            self.push_task(Task::Exec(e));
                        },
                        None => {},
                    }
                }
                None
            },
        }
    }

    pub(crate) fn repeat(&mut self, w: &'a While) -> (r: Option<Action>)
        ensures
            (final(self)@, outcome(r)) == on_loop(old(self)@, w),
    {
        reveal(on_loop);
        match self.pop_value() {
            None => self.fail(RuntimeError::Stuck),
            Some(condition) => {
                if condition.as_bool() {
                    self.push_task(Task::Loop(w));
                    self.push_task(Task::Eval(&w.condition));
                    self.push_task(Task::Exec(&w.body));
                }
                None
            },
        }
    }

    pub(crate) fn boundary(&mut self, restore: Option<FrameId>, instance: Option<InstanceId>) -> (r:
        Option<Action>)
        ensures
            (final(self)@, outcome(r)) == on_boundary(old(self)@, restore, instance),
    {
        reveal(on_boundary);
        self.frame = restore;
        self.push_value(
            match instance {
                Some(i) => Value::Instance(i),
                None => Value::Nil,
            },
        );
        None
    }

    /// Takes the tasks of the running function off, the boundary of its call
    /// included, and gives the boundary.
    #[verifier::loop_isolation(false)]
    fn unwind(&mut self) -> (r: Option<(Option<FrameId>, Option<InstanceId>)>)
        ensures
            final(self).heap == old(self).heap,
            final(self).globals == old(self).globals,
            final(self).frame == old(self).frame,
            final(self).values == old(self).values,
            match boundary_at(old(self).tasks@, old(self).tasks@.len()) {
                None => r is None && final(self).tasks@ == Seq::<Task<'a>>::empty(),
                Some(k) => r matches Some(b) && old(self).tasks@[k as int] == Task::Boundary(
                    b.0,
                    b.1,
                ) && final(self).tasks@ == old(self).tasks@.take(k as int),
            },
    {
        let ghost tasks = self.tasks@;
        loop
            invariant
                self.heap == old(self).heap,
                self.globals == old(self).globals,
                self.frame == old(self).frame,
                self.values == old(self).values,
                self.tasks@ == tasks.take(self.tasks@.len() as int),
                self.tasks@.len() <= tasks.len(),
                boundary_at(tasks, tasks.len()) == boundary_at(tasks, self.tasks@.len()),
            decreases self.tasks@.len(),
        {
            let ghost n = self.tasks@.len();
            match self.tasks.pop() {
                None => {
                    assert(self.tasks@ =~= Seq::<Task<'a>>::empty());
                    return None;
                },
                Some(Task::Boundary(restore, instance)) => {
                    assert(self.tasks@ =~= tasks.take(n - 1));
                    return Some((restore, instance));
                },
                Some(_) => {
                    assert(self.tasks@ =~= tasks.take(n - 1));
                },
            }
        }
    }

    pub(crate) fn leave(&mut self, span: Span) -> (r: Option<Action>)
        ensures
            (final(self)@, outcome(r)) == on_return(old(self)@, span),
    {
        reveal(on_return);
        let v = match self.pop_value() {
            None => {
                return self.fail(RuntimeError::Stuck);
            },
            Some(v) => v,
        };
        let outer = self.outer();
        match self.unwind() {
            None => {
                self.frame = outer;
                self.fail(RuntimeError::Return(span, v))
            },
            Some((restore, instance)) => {
                self.frame = restore;
                match instance {
                    Some(i) => match v {
                        Value::Nil => {
                            self.push_value(Value::Instance(i));
                            None
                        },
                        _ => self.fail(RuntimeError::ReturnInConstructor(span)),
                    },
                    None => {
                        self.push_value(v);
                        None
                    },
                }
            },
        }
    }

    /// Enters a function with the arguments.
    fn enter(
        &mut self,
        function: FunctionId,
        arguments: &Vec<Value>,
        instance: Option<InstanceId>,
        span: Span,
    ) -> (r: Option<Action>)
        ensures
            (final(self)@, outcome(r)) == enters(
                old(self)@,
                function,
                values_view(arguments@),
                instance,
                span,
            ),
    {
        let previous = self.frame;
        match self.heap.enter_function(function, arguments) {
            Some(frame) => {
                let body = &self.heap.functions[function].declaration.body;
                self.frame = Some(frame);
                self.tasks.push(Task::Boundary(previous, instance));
                self.tasks.push(Task::Statements(body, 0));
                None
            },
            None => self.fail(RuntimeError::BadTarget(span)),
        }
    }

    /// Calls a class with the arguments.
    fn construct(&mut self, class: ClassId, arguments: &Vec<Value>, span: Span) -> (r: Option<
        Action,
    >)
        ensures
            (final(self)@, outcome(r)) == constructs(
                old(self)@,
                class,
                values_view(arguments@),
                span,
            ),
    {
        let instance = self.heap.instantiate(class);
        let name = String::from_str("init");
        match self.heap.get_method(class, &name) {
            None => {
                self.push_value(Value::Instance(instance));
                None
            },
            Some(init) => match self.heap.bind_method(instance, init) {
                Some(bound) => self.enter(bound, arguments, Some(instance), span),
                None => self.fail(RuntimeError::BadTarget(span)),
            },
        }
    }

    pub(crate) fn call(&mut self, c: &'a FnCall) -> (r: Option<Action>)
        ensures
            (final(self)@, outcome(r)) == on_call(old(self)@, c),
    {
        reveal(on_call);
        let ghost before = self@;
        let n = c.arguments.len();
        if self.values.len() <= n {
            return self.fail(RuntimeError::Stuck);
        }
        let at = self.values.len() - n;
        let arguments = self.values.split_off(at);
        assert(values_view(arguments@) =~= before.values.skip(before.values.len() - n));
        assert(self@.values =~= before.values.take(at as int));
        let callee = match self.pop_value() {
            Some(v) => v,
            None => {
                return self.fail(RuntimeError::Stuck);
            },
        };
        assert(self@ == before.dropped(n as int + 1)) by {
            assert(self@.values =~= before.dropped(n as int + 1).values);
        }
        assert(callee@ == before.value(n as int));
        let span = c.callee.get_span();
        match self.heap.check_call(&callee, n, span) {
            Err(e) => self.fail(e),
            Ok(_) => match callee {
                Value::NativeFunction(id) => Some(Action::Native(id, arguments)),
                Value::Function(f) => self.enter(f, &arguments, None, span),
                Value::Class(class) => self.construct(class, &arguments, span),
                _ => self.fail(RuntimeError::Stuck),
            },
        }
    }
}

} // verus!
