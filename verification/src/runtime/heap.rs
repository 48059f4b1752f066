//! Functions, classes and instances.
//!
//! Function values, classes and instances are shared, and instances change
//! while they are shared. They live in one heap with the frames and are
//! named by their place in it. Nothing is ever taken out of the heap.

use vstd::prelude::*;
use vstd::string::*;
use crate::ast::ident::{IdentTarget, SpecVariable, Variable};
use crate::ast::stmt::{vars_view, ClassDecl, FnDecl};
use crate::runtime::environment::{
    global_value, read, slot, written, Environment, GlobalEnvironment, SpecFrame,
};
use crate::runtime::error::{RuntimeError, SpecRuntimeError};
use crate::runtime::value::{
    values_view, ClassId, FrameId, FunctionId, InstanceId, NativeId, SpecValue, Value,
};
use crate::span::Span;

verus! {

/// A function of the host.
pub struct NativeFunction {
    pub name: String,
    pub arity: u8,
}

/// The mathematical value of a [`NativeFunction`].
pub struct SpecNativeFunction {
    pub name: Seq<char>,
    pub arity: u8,
}

impl View for NativeFunction {
    type V = SpecNativeFunction;

    open spec fn view(&self) -> SpecNativeFunction {
        SpecNativeFunction { name: self.name@, arity: self.arity }
    }
}

/// A function value: a declaration with the frame that was current where it
/// was declared.
pub struct Function<'a> {
    pub declaration: &'a FnDecl,
    pub closure: Option<FrameId>,
}

/// The mathematical value of a [`Function`]: the declaration itself, and
/// the frame.
pub struct SpecFunction {
    pub declaration: FnDecl,
    pub closure: Option<FrameId>,
}

impl<'a> View for Function<'a> {
    type V = SpecFunction;

    open spec fn view(&self) -> SpecFunction {
        SpecFunction { declaration: *self.declaration, closure: self.closure }
    }
}

/// A method of a class: its name and the function that it is.
pub struct Method {
    pub name: String,
    pub function: FunctionId,
}

/// A class: its name, its superclass and its own methods, in the order in
/// which they were declared.
pub struct Class {
    pub name: String,
    pub super_class: Option<ClassId>,
    pub methods: Vec<Method>,
}

/// The mathematical value of a [`Class`].
pub struct SpecClass {
    pub name: Seq<char>,
    pub super_class: Option<ClassId>,
    pub methods: Seq<(Seq<char>, FunctionId)>,
}

impl View for Class {
    type V = SpecClass;

    open spec fn view(&self) -> SpecClass {
        SpecClass {
            name: self.name@,
            super_class: self.super_class,
            methods: Seq::new(
                self.methods@.len(),
                |i: int| (self.methods@[i].name@, self.methods@[i].function),
            ),
        }
    }
}

/// An instance: its class and its own fields.
pub struct Instance {
    pub class: ClassId,
    pub fields: GlobalEnvironment,
}

/// The mathematical value of an [`Instance`].
pub struct SpecInstance {
    pub class: ClassId,
    pub fields: Seq<(Seq<char>, SpecValue)>,
}

impl View for Instance {
    type V = SpecInstance;

    open spec fn view(&self) -> SpecInstance {
        SpecInstance { class: self.class, fields: self.fields@ }
    }
}

/// The mathematical value of a [`Heap`].
pub struct SpecHeap {
    pub frames: Seq<SpecFrame>,
    pub natives: Seq<SpecNativeFunction>,
    pub functions: Seq<SpecFunction>,
    pub classes: Seq<SpecClass>,
    pub instances: Seq<SpecInstance>,
}

/// The function of the last of the first `n` entries that is named `name`:
/// a method declared later replaces one of the same name declared earlier.
pub open spec fn last_named(entries: Seq<(Seq<char>, FunctionId)>, name: Seq<char>, n: nat) -> Option<
    FunctionId,
>
    decreases n,
{
    if n == 0 || n > entries.len() {
        None
    } else if entries[n - 1].0 == name {
        Some(entries[n - 1].1)
    } else {
        last_named(entries, name, (n - 1) as nat)
    }
}

/// The method `name` of `class`: its own, or else that of its superclass,
/// and so on up at most `fuel` superclasses.
pub open spec fn find_method(classes: Seq<SpecClass>, class: ClassId, name: Seq<char>, fuel: nat) -> Option<
    FunctionId,
>
    decreases fuel,
{
    if class >= classes.len() {
        None
    } else {
        let c = classes[class as int];
        match last_named(c.methods, name, c.methods.len()) {
            Some(f) => Some(f),
            None => match c.super_class {
                Some(s) => if fuel > 0 {
                    find_method(classes, s, name, (fuel - 1) as nat)
                } else {
                    None
                },
                None => None,
            },
        }
    }
}

/// The method `name` of `class`: its own, or else the one that it inherits.
pub open spec fn method(classes: Seq<SpecClass>, class: ClassId, name: Seq<char>) -> Option<
    FunctionId,
> {
    find_method(classes, class, name, classes.len())
}

/// The number of parameters.
pub open spec fn param_count(f: SpecFunction) -> usize {
    f.declaration.params@.len() as usize
}

/// A number of arguments as an error shows it: 255 stands for any number
/// from 255 on.
pub open spec fn shown(n: usize) -> u8 {
    if n >= 255 {
        255
    } else {
        n as u8
    }
}

/// The number of arguments that `callee` takes: that of a native function
/// is given, that of a function is the number of its parameters, that of a
/// class is that of its `init` method, or 0 if it has none. `None` if
/// `callee` cannot be called.
pub open spec fn arity(h: SpecHeap, callee: SpecValue) -> Option<usize> {
    match callee {
        SpecValue::NativeFunction(n) => if n < h.natives.len() {
            Some(h.natives[n as int].arity as usize)
        } else {
            None
        },
        SpecValue::Function(f) => if f < h.functions.len() {
            Some(param_count(h.functions[f as int]))
        } else {
            None
        },
        SpecValue::Class(c) => if c < h.classes.len() {
            match method(h.classes, c, "init"@) {
                Some(f) => if f < h.functions.len() {
                    Some(param_count(h.functions[f as int]))
                } else {
                    Some(0)
                },
                None => Some(0),
            }
        } else {
            None
        },
        _ => None,
    }
}

/// Whether `callee` can be called with `got` arguments, and the error if
/// not: it takes exactly as many arguments as [`arity`] says.
pub open spec fn call_checked(h: SpecHeap, callee: SpecValue, got: usize, span: Span) -> Result<
    (),
    SpecRuntimeError,
> {
    match arity(h, callee) {
        None => Err(SpecRuntimeError::NotCallable { target: callee, span }),
        Some(expected) => if got != expected {
            Err(SpecRuntimeError::ArgumentsNotMatch { expected: shown(expected), got, span })
        } else {
            Ok(())
        },
    }
}

/// The heap after a function value is made.
pub open spec fn function_added(h: SpecHeap, declaration: FnDecl, closure: Option<FrameId>) -> SpecHeap {
    SpecHeap { functions: h.functions.push(SpecFunction { declaration, closure }), ..h }
}

/// The heap after a class is made from its declaration. With a superclass,
/// a frame of one slot that holds the superclass is made first, enclosed by
/// `environment`, and the methods close over that frame; without, they close
/// over `environment`.
pub open spec fn class_made(
    h: SpecHeap,
    name: Seq<char>,
    methods: Seq<FnDecl>,
    super_class: Option<ClassId>,
    environment: Option<FrameId>,
) -> SpecHeap {
    let (frames, closure) = match super_class {
        Some(sc) => (
            h.frames.push(SpecFrame { values: seq![SpecValue::Class(sc)], enclosing: environment }),
            Some(h.frames.len() as usize),
        ),
        None => (h.frames, environment),
    };
    SpecHeap {
        frames,
        functions: h.functions + Seq::new(
            methods.len(),
            |i: int| SpecFunction { declaration: methods[i], closure },
        ),
        classes: h.classes.push(
            SpecClass {
                name,
                super_class,
                methods: Seq::new(
                    methods.len(),
                    |i: int| (methods[i].var.ident.name@, (h.functions.len() + i) as usize),
                ),
            },
        ),
        ..h
    }
}

/// The heap after `method` is bound to `instance`, and the function that
/// the bound method is: the same declaration, closing over a new frame of
/// one slot that holds the instance as `this` and is enclosed by the frame
/// that the method closes over. Nothing happens if there is no such
/// function.
pub open spec fn method_bound(h: SpecHeap, instance: InstanceId, method: FunctionId) -> (
    SpecHeap,
    Option<FunctionId>,
) {
    if method >= h.functions.len() {
        (h, None)
    } else {
        let m = h.functions[method as int];
        (
            SpecHeap {
                frames: h.frames.push(
                    SpecFrame { values: seq![SpecValue::Instance(instance)], enclosing: m.closure },
                ),
                functions: h.functions.push(
                    SpecFunction {
                        declaration: m.declaration,
                        closure: Some(h.frames.len() as usize),
                    },
                ),
                ..h
            },
            Some(h.functions.len() as usize),
        )
    }
}

/// Reading the property `name` of `instance`: a field of the instance, or
/// else a method of its class, bound to the instance.
pub open spec fn field_read(h: SpecHeap, instance: InstanceId, name: Seq<char>) -> (
    SpecHeap,
    Result<SpecValue, SpecRuntimeError>,
) {
    if instance >= h.instances.len() {
        (h, Err(SpecRuntimeError::UndefinedField { field: name }))
    } else {
        let i = h.instances[instance as int];
        match global_value(i.fields, name) {
            Some(v) => (h, Ok(v)),
            None => match method(h.classes, i.class, name) {
                Some(m) => match method_bound(h, instance, m) {
                    (h2, Some(f)) => (h2, Ok(SpecValue::Function(f))),
                    _ => (h, Err(SpecRuntimeError::UndefinedField { field: name })),
                },
                None => (h, Err(SpecRuntimeError::UndefinedField { field: name })),
            },
        }
    }
}

/// Binds the parameters `i..n` to the arguments, in order, in the frames
/// reached from `frame`. Stops at the first parameter that has no target or
/// whose target names no slot, and says whether all were bound.
pub open spec fn params_bound(
    frames: Seq<SpecFrame>,
    frame: FrameId,
    params: Seq<SpecVariable>,
    arguments: Seq<SpecValue>,
    i: nat,
    n: nat,
) -> (Seq<SpecFrame>, bool)
    decreases n - i,
{
    if i >= n || i >= params.len() || i >= arguments.len() {
        (frames, true)
    } else {
        match params[i as int].target {
            Some(t) => if slot(frames, frame, t) is Some {
                params_bound(
                    written(frames, frame, t, arguments[i as int]),
                    frame,
                    params,
                    arguments,
                    i + 1,
                    n,
                )
            } else {
                (frames, false)
            },
            None => (frames, false),
        }
    }
}

/// The smaller of two lengths.
pub open spec fn shorter(a: nat, b: nat) -> nat {
    if a <= b {
        a
    } else {
        b
    }
}

/// Entering `function` with `arguments`: a frame with the slots of the
/// function, enclosed by the frame that the function closes over, in which
/// each parameter holds its argument. `None` if there is no such function
/// or a parameter could not be bound.
pub open spec fn function_entered(h: SpecHeap, function: FunctionId, arguments: Seq<SpecValue>) -> (
    SpecHeap,
    Option<FrameId>,
) {
    if function >= h.functions.len() {
        (h, None)
    } else {
        let f = h.functions[function as int];
        let frame = h.frames.len() as usize;
        let frames = h.frames.push(
            SpecFrame {
                values: Seq::new(f.declaration.num_of_locals as nat, |i: int| SpecValue::Nil),
                enclosing: f.closure,
            },
        );
        let (bound, ok) = params_bound(
            frames,
            frame,
            vars_view(f.declaration.params@),
            arguments,
            0,
            shorter(f.declaration.params@.len(), arguments.len()),
        );
        (SpecHeap { frames: bound, ..h }, if ok {
            Some(frame)
        } else {
            None
        })
    }
}

/// `super.name` from `frame`: the method `name` of the class that the
/// target of `super` names, bound to the instance that `this` names, which
/// is in slot 0 of the frame one link nearer than `super`.
pub open spec fn super_bound(
    h: SpecHeap,
    frame: FrameId,
    var: SpecVariable,
    name: Seq<char>,
) -> (SpecHeap, Result<FunctionId, SpecRuntimeError>) {
    let invalid = Err::<FunctionId, SpecRuntimeError>(
        SpecRuntimeError::InvalidSuperClass(var.ident.span),
    );
    match var.target {
        None => (h, Err(SpecRuntimeError::UndefinedVariable { name: var.ident.name })),
        Some(t) => match read(h.frames, frame, t) {
            Some(SpecValue::Class(sc)) => match method(h.classes, sc, name) {
                None => (h, Err(SpecRuntimeError::UndefinedField { field: name })),
                Some(m) => if t.scope_count == 0 {
                    (h, invalid)
                } else {
                    match read(
                        h.frames,
                        frame,
                        IdentTarget { scope_count: (t.scope_count - 1) as u16, index: 0 },
                    ) {
                        Some(SpecValue::Instance(this)) => match method_bound(h, this, m) {
                            (h2, Some(f)) => (h2, Ok(f)),
                            _ => (h, invalid),
                        },
                        _ => (h, invalid),
                    }
                },
            },
            _ => (h, invalid),
        },
    }
}

/// The heap of a run.
pub struct Heap<'a> {
    pub environment: Environment,
    pub natives: Vec<NativeFunction>,
    pub functions: Vec<Function<'a>>,
    pub classes: Vec<Class>,
    pub instances: Vec<Instance>,
}

impl<'a> View for Heap<'a> {
    type V = SpecHeap;

    open spec fn view(&self) -> SpecHeap {
        SpecHeap {
            frames: self.environment@,
            natives: Seq::new(self.natives@.len(), |i: int| self.natives@[i]@),
            functions: Seq::new(self.functions@.len(), |i: int| self.functions@[i]@),
            classes: Seq::new(self.classes@.len(), |i: int| self.classes@[i]@),
            instances: Seq::new(self.instances@.len(), |i: int| self.instances@[i]@),
        }
    }
}

impl<'a> Heap<'a> {
    /// An empty heap.
    pub fn new() -> (r: Self)
        ensures
            r@ == (SpecHeap {
                frames: Seq::empty(),
                natives: Seq::empty(),
                functions: Seq::empty(),
                classes: Seq::empty(),
                instances: Seq::empty(),
            }),
    {
        let r = Heap {
            environment: Environment::new(),
            natives: Vec::new(),
            functions: Vec::new(),
            classes: Vec::new(),
            instances: Vec::new(),
        };
        assert(r@.natives =~= Seq::empty());
        assert(r@.functions =~= Seq::empty());
        assert(r@.classes =~= Seq::empty());
        assert(r@.instances =~= Seq::empty());
        r
    }

    /// Makes a native function known.
    pub fn add_native(&mut self, name: &str, arity: u8) -> (r: NativeId)
        ensures
            r == old(self)@.natives.len(),
            final(self)@ == (SpecHeap {
                natives: old(self)@.natives.push(SpecNativeFunction { name: name@, arity }),
                ..old(self)@
            }),
    {
        let ghost before = self@;
        let id = self.natives.len();
        self.natives.push(NativeFunction { name: String::from_str(name), arity });
        assert(self@.natives =~= before.natives.push(SpecNativeFunction { name: name@, arity }));
        assert(self@.functions =~= before.functions);
        assert(self@.classes =~= before.classes);
        assert(self@.instances =~= before.instances);
        id
    }

    /// Makes a function value of `declaration` that closes over `closure`.
    pub fn add_function(&mut self, declaration: &'a FnDecl, closure: Option<FrameId>) -> (r:
        FunctionId)
        ensures
            r == old(self)@.functions.len(),
            final(self)@ == function_added(old(self)@, *declaration, closure),
    {
        let ghost before = self@;
        let id = self.functions.len();
        self.functions.push(Function { declaration, closure });
        assert(self@.functions =~= before.functions.push(
            SpecFunction { declaration: *declaration, closure },
        ));
        assert(self@.natives =~= before.natives);
        assert(self@.classes =~= before.classes);
        assert(self@.instances =~= before.instances);
        id
    }

    /// Makes the class that `class` declares.
    pub fn new_class(
        &mut self,
        class: &'a ClassDecl,
        super_class: Option<ClassId>,
        environment: Option<FrameId>,
    ) -> (r: ClassId)
        ensures
            r == old(self)@.classes.len(),
            final(self)@ == class_made(
                old(self)@,
                class.var.ident.name@,
                class.methods@,
                super_class,
                environment,
            ),
    {
        let ghost before = self@;
        let ghost ms = class.methods@;
        let closure = match super_class {
            Some(sc) => {
                let frame = self.environment.push_frame(1, environment);
                let target = IdentTarget { scope_count: 0, index: 0 };
                proof {
                    reveal_with_fuel(crate::runtime::environment::ancestor, 2);
                }
                let _ = self.environment.assign(frame, target, Value::Class(sc));
                assert(self.environment@ =~= before.frames.push(
                    SpecFrame { values: seq![SpecValue::Class(sc)], enclosing: environment },
                )) by {
                    assert(self.environment@[frame as int].values =~= seq![SpecValue::Class(sc)]);
                }
                Some(frame)
            },
            None => environment,
        };
        let ghost frames = self.environment@;
        let base = self.functions.len();
        let n = class.methods.len();
        let mut methods: Vec<Method> = Vec::new();
        let mut i: usize = 0;
        while i < n
            invariant
                i <= n,
                n == class.methods@.len(),
                ms == class.methods@,
                base == before.functions.len(),
                self.environment@ == frames,
                self.functions@.len() == base + i,
                methods@.len() == i,
                self@.natives == before.natives,
                self@.classes == before.classes,
                self@.instances == before.instances,
                self@.functions == before.functions + Seq::new(
                    i as nat,
                    |j: int| SpecFunction { declaration: ms[j], closure },
                ),
                forall|j: int|
                    0 <= j < i ==> (#[trigger] methods@[j]).name@ == ms[j].var.ident.name@
                        && methods@[j].function == (base + j) as usize,
            decreases n - i,
        {
            let method = &class.methods[i];
            assert(*method == ms[i as int]);
            let ghost now = self@;
            let id = self.functions.len();
            self.functions.push(Function { declaration: method, closure });
            methods.push(Method { name: method.var.ident.name.clone(), function: id });
            assert(self@.natives =~= now.natives);
            assert(self@.classes =~= now.classes);
            assert(self@.instances =~= now.instances);
            assert(self@.functions =~= now.functions.push(
                SpecFunction { declaration: ms[i as int], closure },
            ));
            assert(self@.functions =~= before.functions + Seq::new(
                (i + 1) as nat,
                |j: int| SpecFunction { declaration: ms[j], closure },
            ));
            i += 1;
        }
        let ghost now = self@;
        let id = self.classes.len();
        let made = Class { name: class.var.ident.name.clone(), super_class, methods };
        assert(made@.methods =~= Seq::new(
            ms.len(),
            |j: int| (ms[j].var.ident.name@, (before.functions.len() + j) as usize),
        ));
        self.classes.push(made);
        assert(self@.natives =~= now.natives);
        assert(self@.functions =~= now.functions);
        assert(self@.instances =~= now.instances);
        assert(self@.classes =~= before.classes.push(made@));
        id
    }

    /// The method `name` that `class` declares itself.
    #[verifier::loop_isolation(false)]
    fn own_method(&self, class: ClassId, name: &String) -> (r: Option<FunctionId>)
        requires
            class < self@.classes.len(),
        ensures
            r == last_named(
                self@.classes[class as int].methods,
                name@,
                self@.classes[class as int].methods.len(),
            ),
    {
        let c = &self.classes[class];
        assert(self@.classes[class as int] == c@);
        let mut n = c.methods.len();
        while n > 0
            invariant
                n <= c.methods@.len(),
                c@.methods.len() == c.methods@.len(),
                last_named(c@.methods, name@, c@.methods.len()) == last_named(
                    c@.methods,
                    name@,
                    n as nat,
                ),
            decreases n,
        {
            assert(c@.methods[n - 1] == (c.methods@[n - 1].name@, c.methods@[n - 1].function));
            if c.methods[n - 1].name == *name {
                return Some(c.methods[n - 1].function);
            }
            n = n - 1;
        }
        None
    }

    /// The method `name` of `class`: its own, or else the one that it
    /// inherits.
    #[verifier::loop_isolation(false)]
    pub fn get_method(&self, class: ClassId, name: &String) -> (r: Option<FunctionId>)
        ensures
            r == method(self@.classes, class, name@),
    {
        let mut current = class;
        let mut fuel = self.classes.len();
        loop
            invariant
                method(self@.classes, class, name@) == find_method(
                    self@.classes,
                    current,
                    name@,
                    fuel as nat,
                ),
            decreases fuel,
        {
            if current >= self.classes.len() {
                return None;
            }
            match self.own_method(current, name) {
                Some(f) => {
                    return Some(f);
                },
                None => {},
            }
            assert(self@.classes[current as int] == self.classes@[current as int]@);
            match self.classes[current].super_class {
                Some(s) => {
                    if fuel == 0 {
                        return None;
                    }
                    current = s;
                    fuel = fuel - 1;
                },
                None => {
                    return None;
                },
            }
        }
    }

    /// The number of arguments that `callee` takes; `None` if it cannot be
    /// called.
    pub fn arity(&self, callee: &Value) -> (r: Option<usize>)
        ensures
            r == arity(self@, callee@),
    {
        match callee {
            Value::NativeFunction(n) => {
                if *n < self.natives.len() {
                    Some(self.natives[*n].arity as usize)
                } else {
                    None
                }
            },
            Value::Function(f) => {
                if *f < self.functions.len() {
                    Some(self.param_count(*f))
                } else {
                    None
                }
            },
            Value::Class(c) => {
                if *c < self.classes.len() {
                    let init = String::from_str("init");
                    match self.get_method(*c, &init) {
                        Some(f) => {
                            if f < self.functions.len() {
                                Some(self.param_count(f))
                            } else {
                                Some(0)
                            }
                        },
                        None => Some(0),
                    }
                } else {
                    None
                }
            },
            _ => None,
        }
    }

    /// The number of parameters of `function`.
    fn param_count(&self, function: FunctionId) -> (r: usize)
        requires
            function < self@.functions.len(),
        ensures
            r == param_count(self@.functions[function as int]),
    {
        let f = &self.functions[function];
        assert(f@ == self@.functions[function as int]);
        f.declaration.params.len()
    }

    /// Checks that `callee` can be called with `got` arguments.
    pub fn check_call(&self, callee: &Value, got: usize, span: Span) -> (r: Result<
        (),
        RuntimeError,
    >)
        ensures
            match r {
                Ok(_) => call_checked(self@, callee@, got, span) is Ok,
                Err(e) => call_checked(self@, callee@, got, span) == Err::<(), SpecRuntimeError>(
                    e@,
                ),
            },
    {
        match self.arity(callee) {
            None => Err(RuntimeError::NotCallable { target: callee.clone(), span }),
            Some(expected) => {
                if got != expected {
                    let expected: u8 = if expected >= 255 {
                        255
                    } else {
                        expected as u8
                    };
                    Err(RuntimeError::ArgumentsNotMatch { expected, got, span })
                } else {
                    Ok(())
                }
            },
        }
    }

    /// Makes an instance of `class` with no fields.
    pub fn instantiate(&mut self, class: ClassId) -> (r: InstanceId)
        ensures
            r == old(self)@.instances.len(),
            final(self)@ == (SpecHeap {
                instances: old(self)@.instances.push(
                    SpecInstance { class, fields: Seq::empty() },
                ),
                ..old(self)@
            }),
    {
        let ghost before = self@;
        let id = self.instances.len();
        let instance = Instance { class, fields: GlobalEnvironment::new() };
        self.instances.push(instance);
        assert(self@.instances =~= before.instances.push(
            SpecInstance { class, fields: Seq::empty() },
        ));
        assert(self@.natives =~= before.natives);
        assert(self@.functions =~= before.functions);
        assert(self@.classes =~= before.classes);
        id
    }

    /// Binds `method` to `instance`.
    pub fn bind_method(&mut self, instance: InstanceId, method: FunctionId) -> (r: Option<
        FunctionId,
    >)
        ensures
            (final(self)@, r) == method_bound(old(self)@, instance, method),
    {
        let ghost before = self@;
        if method >= self.functions.len() {
            return None;
        }
        let declaration = self.functions[method].declaration;
        let enclosing = self.functions[method].closure;
        assert(before.functions[method as int] == self.functions@[method as int]@);
        let frame = self.environment.push_frame(1, enclosing);
        proof {
            reveal_with_fuel(crate::runtime::environment::ancestor, 2);
        }
        let _ = self.environment.assign(
            frame,
            IdentTarget { scope_count: 0, index: 0 },
            Value::Instance(instance),
        );
        assert(self.environment@ =~= before.frames.push(
            SpecFrame { values: seq![SpecValue::Instance(instance)], enclosing },
        )) by {
            assert(self.environment@[frame as int].values =~= seq![SpecValue::Instance(instance)]);
        }
        let id = self.functions.len();
        self.functions.push(Function { declaration, closure: Some(frame) });
        assert(self@.functions =~= before.functions.push(
            SpecFunction { declaration: *declaration, closure: Some(frame) },
        ));
        assert(self@.natives =~= before.natives);
        assert(self@.classes =~= before.classes);
        assert(self@.instances =~= before.instances);
        Some(id)
    }

    /// Reads the property `field` of `instance`: a field of the instance, or
    /// else a method of its class, bound to the instance.
    pub fn get_field(&mut self, instance: InstanceId, field: &String) -> (r: Result<
        Value,
        RuntimeError,
    >)
        ensures
            match r {
                Ok(v) => (final(self)@, Ok::<SpecValue, SpecRuntimeError>(v@)) == field_read(
                    old(self)@,
                    instance,
                    field@,
                ),
                Err(e) => (final(self)@, Err::<SpecValue, SpecRuntimeError>(e@)) == field_read(
                    old(self)@,
                    instance,
                    field@,
                ),
            },
    {
        if instance >= self.instances.len() {
            return Err(RuntimeError::UndefinedField { field: field.clone() });
        }
        assert(self@.instances[instance as int] == self.instances@[instance as int]@);
        match self.instances[instance].fields.get(field) {
            Ok(v) => Ok(v),
            Err(_) => {
                let class = self.instances[instance].class;
                match self.get_method(class, field) {
                    Some(m) => match self.bind_method(instance, m) {
                        Some(f) => Ok(Value::Function(f)),
                        None => Err(RuntimeError::UndefinedField { field: field.clone() }),
                    },
                    None => Err(RuntimeError::UndefinedField { field: field.clone() }),
                }
            },
        }
    }

    /// Writes the field `field` of `instance`, which it then has whether or
    /// not it had it before. Says whether there is such an instance.
    pub fn set_field(&mut self, instance: InstanceId, field: &String, value: Value) -> (r: bool)
        ensures
            r == (instance < old(self)@.instances.len()),
            r ==> final(self)@ == (SpecHeap {
                instances: old(self)@.instances.update(
                    instance as int,
                    SpecInstance {
                        class: old(self)@.instances[instance as int].class,
                        fields: crate::runtime::environment::global_defined(
                            old(self)@.instances[instance as int].fields,
                            field@,
                            value@,
                        ),
                    },
                ),
                ..old(self)@
            }),
            !r ==> final(self)@ == old(self)@,
    {
        let ghost before = self@;
        if instance >= self.instances.len() {
            return false;
        }
        assert(before.instances[instance as int] == self.instances@[instance as int]@);
        let mut taken = Instance { class: 0, fields: GlobalEnvironment::new() };
        core::mem::swap(&mut taken, &mut self.instances[instance]);
        taken.fields.define(field, value);
        core::mem::swap(&mut taken, &mut self.instances[instance]);
        assert(self@.instances =~= before.instances.update(
            instance as int,
            SpecInstance {
                class: before.instances[instance as int].class,
                fields: crate::runtime::environment::global_defined(
                    before.instances[instance as int].fields,
                    field@,
                    value@,
                ),
            },
        ));
        assert(self@.natives =~= before.natives);
        assert(self@.functions =~= before.functions);
        assert(self@.classes =~= before.classes);
        true
    }

    /// Enters `function` with `arguments`: makes its frame and binds its
    /// parameters. `None` if there is no such function or a parameter could
    /// not be bound.
    #[verifier::loop_isolation(false)]
    pub fn enter_function(&mut self, function: FunctionId, arguments: &Vec<Value>) -> (r: Option<
        FrameId,
    >)
        ensures
            (final(self)@, r) == function_entered(old(self)@, function, values_view(arguments@)),
    {
        let ghost before = self@;
        if function >= self.functions.len() {
            return None;
        }
        let declaration = self.functions[function].declaration;
        let closure = self.functions[function].closure;
        assert(before.functions[function as int] == self.functions@[function as int]@);
        let frame = self.environment.push_frame(declaration.num_of_locals, closure);
        let ghost frames0 = self.environment@;
        let ghost ps = vars_view(declaration.params@);
        let ghost args = values_view(arguments@);
        let n = if declaration.params.len() <= arguments.len() {
            declaration.params.len()
        } else {
            arguments.len()
        };
        let mut i: usize = 0;
        while i < n
            invariant
                i <= n,
                n <= declaration.params@.len(),
                n <= arguments@.len(),
                ps == vars_view(declaration.params@),
                args == values_view(arguments@),
                self@.natives == before.natives,
                self@.functions == before.functions,
                self@.classes == before.classes,
                self@.instances == before.instances,
                params_bound(frames0, frame, ps, args, 0, n as nat) == params_bound(
                    self.environment@,
                    frame,
                    ps,
                    args,
                    i as nat,
                    n as nat,
                ),
            decreases n - i,
        {
            assert(ps[i as int] == declaration.params@[i as int]@);
            assert(args[i as int] == arguments@[i as int]@);
            match declaration.params[i].target {
                Some(target) => {
                    if !self.environment.assign(frame, target, arguments[i].clone()) {
                        return None;
                    }
                },
                None => {
                    return None;
                },
            }
            i += 1;
        }
        Some(frame)
    }

    /// `super.method` from `frame`: the method of the superclass, bound to
    /// the instance that `this` names.
    pub fn super_method(&mut self, frame: FrameId, var: &Variable, method: &String) -> (r: Result<
        FunctionId,
        RuntimeError,
    >)
        ensures
            match r {
                Ok(f) => (final(self)@, Ok::<FunctionId, SpecRuntimeError>(f)) == super_bound(
                    old(self)@,
                    frame,
                    var@,
                    method@,
                ),
                Err(e) => (final(self)@, Err::<FunctionId, SpecRuntimeError>(e@)) == super_bound(
                    old(self)@,
                    frame,
                    var@,
                    method@,
                ),
            },
    {
        let span = var.ident.span;
        let target = match var.target {
            Some(t) => t,
            None => {
                return Err(RuntimeError::UndefinedVariable { name: var.ident.name.clone() });
            },
        };
        let super_class = match self.environment.get(frame, target) {
            Some(Value::Class(sc)) => sc,
            _ => {
                return Err(RuntimeError::InvalidSuperClass(span));
            },
        };
        let found = match self.get_method(super_class, method) {
            Some(m) => m,
            None => {
                return Err(RuntimeError::UndefinedField { field: method.clone() });
            },
        };
        if target.scope_count == 0 {
            return Err(RuntimeError::InvalidSuperClass(span));
        }
        let this = match self.environment.get(
            frame,
            IdentTarget { scope_count: target.scope_count - 1, index: 0 },
        ) {
            Some(Value::Instance(i)) => i,
            _ => {
                return Err(RuntimeError::InvalidSuperClass(span));
            },
        };
        match self.bind_method(this, found) {
            Some(f) => Ok(f),
            None => Err(RuntimeError::InvalidSuperClass(span)),
        }
    }
}

} // verus!
