//! Values.

use vstd::prelude::*;
use vstd::string::*;

verus! {

/// A frame of the environment, by its place in the environment.
pub type FrameId = usize;

/// A function value, by its place in the heap.
pub type FunctionId = usize;

/// A class, by its place in the heap.
pub type ClassId = usize;

/// An instance, by its place in the heap.
pub type InstanceId = usize;

/// A native function, by its place in the heap.
pub type NativeId = usize;

/// A number: the bits of an IEEE-754 double.
#[derive(Debug, Clone, Copy, PartialEq, Eq, Structural)]
pub struct Number {
    pub bits: u64,
}

/// A value. Functions, classes and instances are shared: the value names
/// the one that it stands for, and two such values are the same exactly when
/// they name the same one.
#[derive(Debug, PartialEq, Eq)]
pub enum Value {
    Number(Number),
    String(String),
    Bool(bool),
    Nil,
    NativeFunction(NativeId),
    Function(FunctionId),
    Class(ClassId),
    Instance(InstanceId),
}

/// The mathematical value of a [`Value`].
pub enum SpecValue {
    Number(Number),
    String(Seq<char>),
    Bool(bool),
    Nil,
    NativeFunction(NativeId),
    Function(FunctionId),
    Class(ClassId),
    Instance(InstanceId),
}

/// The kinds of values.
#[derive(Debug, Clone, Copy, PartialEq, Eq, Structural)]
pub enum ValueKind {
    Number,
    String,
    Bool,
    Nil,
    NativeFunction,
    Function,
    Class,
    Instance,
}

impl ValueKind {
    /// How the kind is named in a diagnostic.
    pub open spec fn name(self) -> Seq<char> {
        match self {
            ValueKind::Number => "number"@,
            ValueKind::String => "string"@,
            ValueKind::Bool => "bool"@,
            ValueKind::Nil => "nil"@,
            ValueKind::NativeFunction => "native function"@,
            ValueKind::Function => "function"@,
            ValueKind::Class => "class"@,
            ValueKind::Instance => "instance"@,
        }
    }

    /// How the kind is named in a diagnostic.
    pub fn as_str(self) -> (r: &'static str)
        ensures
            r@ == self.name(),
    {
        match self {
            ValueKind::Number => "number",
            ValueKind::String => "string",
            ValueKind::Bool => "bool",
            ValueKind::Nil => "nil",
            ValueKind::NativeFunction => "native function",
            ValueKind::Function => "function",
            ValueKind::Class => "class",
            ValueKind::Instance => "instance",
        }
    }
}

impl SpecValue {
    pub open spec fn kind(self) -> ValueKind {
        match self {
            SpecValue::Number(_) => ValueKind::Number,
            SpecValue::String(_) => ValueKind::String,
            SpecValue::Bool(_) => ValueKind::Bool,
            SpecValue::Nil => ValueKind::Nil,
            SpecValue::NativeFunction(_) => ValueKind::NativeFunction,
            SpecValue::Function(_) => ValueKind::Function,
            SpecValue::Class(_) => ValueKind::Class,
            SpecValue::Instance(_) => ValueKind::Instance,
        }
    }

    /// Truthiness: `nil` and `false` are false, every other value is true,
    /// the number 0 and the empty string included.
    pub open spec fn truthy(self) -> bool {
        match self {
            SpecValue::Nil => false,
            SpecValue::Bool(b) => b,
            _ => true,
        }
    }
}

impl View for Value {
    type V = SpecValue;

    open spec fn view(&self) -> SpecValue {
        match self {
            Value::Number(n) => SpecValue::Number(*n),
            Value::String(s) => SpecValue::String(s@),
            Value::Bool(b) => SpecValue::Bool(*b),
            Value::Nil => SpecValue::Nil,
            Value::NativeFunction(f) => SpecValue::NativeFunction(*f),
            Value::Function(f) => SpecValue::Function(*f),
            Value::Class(c) => SpecValue::Class(*c),
            Value::Instance(i) => SpecValue::Instance(*i),
        }
    }
}

impl Clone for Value {
    fn clone(&self) -> (r: Self)
        ensures
            r == *self,
    {
        match self {
            Value::Number(n) => Value::Number(*n),
            Value::String(s) => Value::String(s.clone()),
            Value::Bool(b) => Value::Bool(*b),
            Value::Nil => Value::Nil,
            Value::NativeFunction(f) => Value::NativeFunction(*f),
            Value::Function(f) => Value::Function(*f),
            Value::Class(c) => Value::Class(*c),
            Value::Instance(i) => Value::Instance(*i),
        }
    }
}

impl Value {
    /// The kind of the value.
    pub fn kind(&self) -> (r: ValueKind)
        ensures
            r == self@.kind(),
    {
        match self {
            Value::Number(_) => ValueKind::Number,
            Value::String(_) => ValueKind::String,
            Value::Bool(_) => ValueKind::Bool,
            Value::Nil => ValueKind::Nil,
            Value::NativeFunction(_) => ValueKind::NativeFunction,
            Value::Function(_) => ValueKind::Function,
            Value::Class(_) => ValueKind::Class,
            Value::Instance(_) => ValueKind::Instance,
        }
    }

    /// Truthiness: `nil` and `false` are false, every other value is true.
    pub fn as_bool(&self) -> (r: bool)
        ensures
            r == self@.truthy(),
    {
        match self {
            Value::Nil => false,
            Value::Bool(b) => *b,
            _ => true,
        }
    }

    /// The name of the kind of the value.
    pub fn kind_name(&self) -> (r: &'static str)
        ensures
            r@ == self@.kind().name(),
    {
        self.kind().as_str()
    }
}

/// The value of each value of `values`, in order.
pub open spec fn values_view(values: Seq<Value>) -> Seq<SpecValue> {
    values.map_values(|v: Value| v@)
}

} // verus!
