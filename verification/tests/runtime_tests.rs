use lox::ast::expr::{BinaryOp, UnaryOp};
use lox::ast::ident::IdentTarget;
use lox::ast::stmt::Statement;
use lox::parser::parse;
use lox::resolver::Resolver;
use lox::runtime::environment::{Environment, GlobalEnvironment};
use lox::runtime::error::RuntimeError;
use lox::runtime::heap::Heap;
use lox::runtime::rules::{
    decide_binary, decide_short_circuit, decide_unary, values_equal, BinaryAction, UnaryAction,
};
use lox::runtime::value::{Number, Value, ValueKind};
use lox::span::Span;

fn number(x: f64) -> Value {
    Value::Number(Number { bits: x.to_bits() })
}

fn text(s: &str) -> Value {
    Value::String(s.to_string())
}

fn at(scope_count: u16, index: u16) -> IdentTarget {
    IdentTarget { scope_count, index }
}

const L: Span = Span { start: 0, end: 1 };
const R: Span = Span { start: 4, end: 5 };

#[test]
fn truthiness() {
    assert!(!Value::Nil.as_bool());
    assert!(!Value::Bool(false).as_bool());
    assert!(Value::Bool(true).as_bool());
    assert!(number(0.0).as_bool());
    assert!(text("").as_bool());
    assert!(Value::Instance(0).as_bool());
}

#[test]
fn kinds_and_their_names() {
    assert_eq!(number(1.0).kind_name(), "number");
    assert_eq!(text("a").kind_name(), "string");
    assert_eq!(Value::Bool(true).kind_name(), "bool");
    assert_eq!(Value::Nil.kind_name(), "nil");
    assert_eq!(Value::NativeFunction(0).kind_name(), "native function");
    assert_eq!(Value::Function(0).kind_name(), "function");
    assert_eq!(Value::Class(0).kind_name(), "class");
    assert_eq!(Value::Instance(0).kind_name(), "instance");
    assert_eq!(Value::Class(3).kind(), ValueKind::Class);
}

#[test]
fn plus() {
    let one = Number { bits: 1f64.to_bits() };
    let two = Number { bits: 2f64.to_bits() };
    assert_eq!(
        decide_binary(&Heap::new(), BinaryOp::Plus, &number(1.0), &number(2.0), L, R),
        Ok(BinaryAction::Numeric(BinaryOp::Plus, one, two))
    );
    assert_eq!(
        decide_binary(&Heap::new(), BinaryOp::Plus, &text("a"), &number(2.0), L, R),
        Ok(BinaryAction::ConcatRight)
    );
    assert_eq!(
        decide_binary(&Heap::new(), BinaryOp::Plus, &Value::Nil, &text("a"), L, R),
        Ok(BinaryAction::ConcatLeft)
    );
    assert_eq!(
        decide_binary(&Heap::new(), BinaryOp::Plus, &Value::Nil, &number(2.0), L, R),
        Err(RuntimeError::TypeError { span: L, expected: "number", found: "nil" })
    );
    assert_eq!(
        decide_binary(&Heap::new(), BinaryOp::Plus, &number(2.0), &Value::Bool(true), L, R),
        Err(RuntimeError::TypeError { span: R, expected: "number or string", found: "bool" })
    );
    assert_eq!(
        decide_binary(&Heap::new(), BinaryOp::Plus, &Value::Nil, &Value::Bool(true), L, R),
        Err(RuntimeError::TypeError { span: L, expected: "number or string", found: "nil" })
    );
}

#[test]
fn arithmetic_and_comparison_take_numbers() {
    let one = Number { bits: 1f64.to_bits() };
    for op in [BinaryOp::Minus, BinaryOp::Multiply, BinaryOp::Divide, BinaryOp::Less, BinaryOp::GreaterEqual] {
        assert_eq!(
            decide_binary(&Heap::new(), op, &number(1.0), &number(1.0), L, R),
            Ok(BinaryAction::Numeric(op, one, one))
        );
        assert_eq!(
            decide_binary(&Heap::new(), op, &text("a"), &number(1.0), L, R),
            Err(RuntimeError::TypeError { span: L, expected: "number", found: "string" })
        );
        assert_eq!(
            decide_binary(&Heap::new(), op, &number(1.0), &Value::Nil, L, R),
            Err(RuntimeError::TypeError { span: R, expected: "number", found: "nil" })
        );
    }
}

#[test]
fn equality() {
    assert_eq!(
        decide_binary(&Heap::new(), BinaryOp::Equal, &text("a"), &text("a"), L, R),
        Ok(BinaryAction::Truth(true))
    );
    assert_eq!(
        decide_binary(&Heap::new(), BinaryOp::NotEqual, &text("a"), &text("a"), L, R),
        Ok(BinaryAction::Truth(false))
    );
    assert_eq!(
        decide_binary(&Heap::new(), BinaryOp::Equal, &Value::Nil, &Value::Bool(false), L, R),
        Ok(BinaryAction::Truth(false))
    );
    assert_eq!(
        decide_binary(&Heap::new(), BinaryOp::NotEqual, &Value::Instance(1), &Value::Instance(2), L, R),
        Ok(BinaryAction::Truth(true))
    );
    assert!(values_equal(&Heap::new(), &Value::Class(1), &Value::Class(1)));
    assert!(!values_equal(&Heap::new(), &Value::Class(1), &Value::Function(1)));
    assert!(values_equal(&Heap::new(), &Value::Nil, &Value::Nil));
}

#[test]
fn logical_operators_give_an_operand() {
    assert!(decide_short_circuit(BinaryOp::Or, &text("hello")));
    assert!(!decide_short_circuit(BinaryOp::Or, &Value::Nil));
    assert!(!decide_short_circuit(BinaryOp::And, &number(0.0)));
    assert!(decide_short_circuit(BinaryOp::And, &Value::Bool(false)));
    assert_eq!(
        decide_binary(&Heap::new(), BinaryOp::And, &number(0.0), &text("never"), L, R),
        Ok(BinaryAction::RightOperand)
    );
    assert_eq!(
        decide_binary(&Heap::new(), BinaryOp::Or, &text("hello"), &Value::Nil, L, R),
        Ok(BinaryAction::LeftOperand)
    );
}

#[test]
fn prefix_operator_rules() {
    let one = Number { bits: 1f64.to_bits() };
    assert_eq!(decide_unary(UnaryOp::Negative, &number(1.0), L), Ok(UnaryAction::Negate(one)));
    assert_eq!(
        decide_unary(UnaryOp::Negative, &text("a"), L),
        Err(RuntimeError::TypeError { span: L, expected: "number", found: "string" })
    );
    assert_eq!(decide_unary(UnaryOp::Not, &Value::Nil, L), Ok(UnaryAction::Truth(true)));
    assert_eq!(decide_unary(UnaryOp::Not, &number(0.0), L), Ok(UnaryAction::Truth(false)));
}

#[test]
fn frames() {
    let mut env = Environment::new();
    let outer = env.push_frame(2, None);
    let inner = env.push_frame(1, Some(outer));
    assert_eq!((outer, inner, env.len()), (0, 1, 2));
    assert_eq!(env.get(inner, at(0, 0)), Some(Value::Nil));
    assert!(env.assign(inner, at(1, 1), number(3.0)));
    assert!(env.assign(inner, at(0, 0), text("x")));
    assert_eq!(env.get(outer, at(0, 1)), Some(number(3.0)));
    assert_eq!(env.get(inner, at(1, 1)), Some(number(3.0)));
    assert_eq!(env.get(inner, at(0, 0)), Some(text("x")));
    assert_eq!(env.get(outer, at(0, 0)), Some(Value::Nil));
    assert_eq!(env.get(inner, at(0, 1)), None);
    assert_eq!(env.get(inner, at(2, 0)), None);
    assert_eq!(env.get(7, at(0, 0)), None);
    assert!(!env.assign(outer, at(1, 0), Value::Nil));
    assert!(!env.assign(outer, at(0, 2), Value::Nil));
}

#[test]
fn globals() {
    let mut globals = GlobalEnvironment::new();
    let a = "a".to_string();
    let b = "b".to_string();
    assert_eq!(globals.get(&a), Err(RuntimeError::UndefinedVariable { name: a.clone() }));
    assert_eq!(
        globals.assign(&a, Value::Nil),
        Err(RuntimeError::UndefinedVariable { name: a.clone() })
    );
    globals.define(&a, number(1.0));
    globals.define(&b, number(2.0));
    assert_eq!(globals.get(&a), Ok(number(1.0)));
    globals.define(&a, text("again"));
    assert_eq!(globals.get(&a), Ok(text("again")));
    assert_eq!(globals.assign(&b, Value::Bool(true)), Ok(()));
    assert_eq!(globals.get(&b), Ok(Value::Bool(true)));
}

fn classes(src: &str) -> Vec<Statement> {
    let mut ast = parse(src).expect("parses");
    assert!(Resolver::new().resolve(&mut ast).is_none());
    ast
}

#[test]
fn methods_are_found_up_the_chain() {
    let ast = classes("class A { m() {} n(x) {} } class B < A { m(a, b) {} init(a, b, c) {} }");
    let (a_decl, b_decl) = match (&ast[0], &ast[1]) {
        (Statement::ClassDecl(a), Statement::ClassDecl(b)) => (a, b),
        other => panic!("{:?}", other),
    };
    let mut heap = Heap::new();
    let a = heap.new_class(a_decl, None, None);
    let b = heap.new_class(b_decl, Some(a), None);
    assert_eq!((a, b), (0, 1));
    let m = "m".to_string();
    let n = "n".to_string();
    let q = "q".to_string();
    assert_eq!(heap.get_method(a, &m), Some(0));
    assert_eq!(heap.get_method(a, &n), Some(1));
    assert_eq!(heap.get_method(b, &m), Some(2));
    assert_eq!(heap.get_method(b, &n), Some(1));
    assert_eq!(heap.get_method(b, &q), None);
    assert_eq!(heap.get_method(9, &m), None);
    assert_eq!(heap.arity(&Value::Class(a)), Some(0));
    assert_eq!(heap.arity(&Value::Class(b)), Some(3));
    assert_eq!(heap.arity(&Value::Function(1)), Some(1));
    assert_eq!(heap.arity(&Value::Function(2)), Some(2));
    assert_eq!(heap.arity(&Value::Nil), None);
    assert_eq!(heap.arity(&Value::Function(99)), None);
    assert_eq!(heap.environment.len(), 1);
    assert_eq!(heap.environment.get(0, at(0, 0)), Some(Value::Class(a)));
    assert_eq!(heap.functions[0].closure, None);
    assert_eq!(heap.functions[2].closure, Some(0));
}

#[test]
fn calls_are_checked() {
    let ast = classes("fun f(a, b) {}");
    let f_decl = match &ast[0] {
        Statement::FnDecl(f) => f,
        other => panic!("{:?}", other),
    };
    let mut heap = Heap::new();
    let clock = heap.add_native("clock", 0);
    let f = heap.add_function(f_decl, None);
    assert_eq!(heap.check_call(&Value::NativeFunction(clock), 0, L), Ok(()));
    assert_eq!(heap.check_call(&Value::Function(f), 2, L), Ok(()));
    assert_eq!(
        heap.check_call(&Value::Function(f), 1, L),
        Err(RuntimeError::ArgumentsNotMatch { expected: 2, got: 1, span: L })
    );
    assert_eq!(
        heap.check_call(&text("f"), 0, L),
        Err(RuntimeError::NotCallable { target: text("f"), span: L })
    );
}

#[test]
fn entering_a_function_binds_its_parameters() {
    let ast = classes("fun f(a, b) { var c; }");
    let f_decl = match &ast[0] {
        Statement::FnDecl(f) => f,
        other => panic!("{:?}", other),
    };
    let mut heap = Heap::new();
    let outer = heap.environment.push_frame(1, None);
    let f = heap.add_function(f_decl, Some(outer));
    let frame = heap.enter_function(f, &vec![number(1.0), text("two")]).expect("enters");
    assert_eq!(frame, 1);
    assert_eq!(heap.environment.get(frame, at(0, 0)), Some(number(1.0)));
    assert_eq!(heap.environment.get(frame, at(0, 1)), Some(text("two")));
    assert_eq!(heap.environment.get(frame, at(0, 2)), Some(Value::Nil));
    assert_eq!(heap.environment.get(frame, at(0, 3)), None);
    assert_eq!(heap.environment.get(frame, at(1, 0)), Some(Value::Nil));
    assert_eq!(heap.enter_function(9, &vec![]), None);
}

#[test]
fn an_unresolved_function_cannot_be_entered() {
    let ast = parse("fun f(a) {}").expect("parses");
    let f_decl = match &ast[0] {
        Statement::FnDecl(f) => f,
        other => panic!("{:?}", other),
    };
    let mut heap = Heap::new();
    let f = heap.add_function(f_decl, None);
    assert_eq!(heap.enter_function(f, &vec![Value::Nil]), None);
}

#[test]
fn fields_and_bound_methods() {
    let ast = classes("class A { m() {} }");
    let a_decl = match &ast[0] {
        Statement::ClassDecl(a) => a,
        other => panic!("{:?}", other),
    };
    let mut heap = Heap::new();
    let a = heap.new_class(a_decl, None, None);
    let i = heap.instantiate(a);
    let x = "x".to_string();
    let m = "m".to_string();
    assert_eq!(
        heap.get_field(i, &x),
        Err(RuntimeError::UndefinedField { field: x.clone() })
    );
    assert!(heap.set_field(i, &x, number(3.0)));
    assert_eq!(heap.get_field(i, &x), Ok(number(3.0)));
    assert!(heap.set_field(i, &x, number(4.0)));
    assert_eq!(heap.get_field(i, &x), Ok(number(4.0)));
    assert!(!heap.set_field(7, &x, Value::Nil));
    let bound = match heap.get_field(i, &m) {
        Ok(Value::Function(f)) => f,
        other => panic!("{:?}", other),
    };
    assert_eq!(bound, 1);
    let this = heap.functions[bound].closure.expect("closes over this");
    assert_eq!(heap.environment.get(this, at(0, 0)), Some(Value::Instance(i)));
    assert!(heap.set_field(i, &m, Value::Nil));
    assert_eq!(heap.get_field(i, &m), Ok(Value::Nil));
}

#[test]
fn super_is_bound_to_this() {
    let ast = classes("class A { m() {} } class B < A { m() { super.m; } }");
    let (a_decl, b_decl) = match (&ast[0], &ast[1]) {
        (Statement::ClassDecl(a), Statement::ClassDecl(b)) => (a, b),
        other => panic!("{:?}", other),
    };
    let super_expr = match &b_decl.methods[0].body[0] {
        Statement::Expression(e) => match &e.expr {
            lox::ast::expr::Expr::Super(s) => s,
            other => panic!("{:?}", other),
        },
        other => panic!("{:?}", other),
    };
    let mut heap = Heap::new();
    let a = heap.new_class(a_decl, None, None);
    let b = heap.new_class(b_decl, Some(a), None);
    let i = heap.instantiate(b);
    let m = "m".to_string();
    let method = heap.get_method(b, &m).expect("has m");
    let bound = heap.bind_method(i, method).expect("binds");
    let frame = heap.enter_function(bound, &vec![]).expect("enters");
    let found = heap.super_method(frame, &super_expr.var, &m).expect("finds");
    assert_eq!(heap.functions[found].declaration, &a_decl.methods[0]);
    let this = heap.functions[found].closure.expect("closes over this");
    assert_eq!(heap.environment.get(this, at(0, 0)), Some(Value::Instance(i)));
    let missing = "missing".to_string();
    assert_eq!(
        heap.super_method(frame, &super_expr.var, &missing),
        Err(RuntimeError::UndefinedField { field: missing.clone() })
    );
    assert_eq!(
        heap.super_method(0, &super_expr.var, &m),
        Err(RuntimeError::InvalidSuperClass(super_expr.var.ident.span))
    );
}

#[test]
fn native_functions_are_the_same_by_name() {
    let mut heap = Heap::new();
    let a = heap.add_native("clock", 0);
    let b = heap.add_native("clock", 0);
    let c = heap.add_native("now", 0);
    assert_ne!(a, b);
    assert!(values_equal(&heap, &Value::NativeFunction(a), &Value::NativeFunction(a)));
    assert!(values_equal(&heap, &Value::NativeFunction(a), &Value::NativeFunction(b)));
    assert!(!values_equal(&heap, &Value::NativeFunction(a), &Value::NativeFunction(c)));
    assert!(!values_equal(&heap, &Value::NativeFunction(a), &Value::Function(a)));
    assert_eq!(
        decide_binary(
            &heap,
            BinaryOp::Equal,
            &Value::NativeFunction(a),
            &Value::NativeFunction(b),
            L,
            R
        ),
        Ok(BinaryAction::Truth(true))
    );
    assert_eq!(
        decide_binary(
            &heap,
            BinaryOp::NotEqual,
            &Value::NativeFunction(b),
            &Value::NativeFunction(c),
            L,
            R
        ),
        Ok(BinaryAction::Truth(true))
    );
}

#[test]
fn the_arity_is_the_number_of_parameters_however_many() {
    let ast = classes("fun f(a, b) {}");
    let mut f_decl = match ast.into_iter().next() {
        Some(Statement::FnDecl(f)) => f,
        other => panic!("{:?}", other),
    };
    let one = f_decl.params[0].clone();
    while f_decl.params.len() < 256 {
        f_decl.params.push(one.clone());
    }
    let mut heap = Heap::new();
    let f = heap.add_function(&f_decl, None);
    assert_eq!(heap.arity(&Value::Function(f)), Some(256));
    assert_eq!(heap.check_call(&Value::Function(f), 256, L), Ok(()));
    assert_eq!(
        heap.check_call(&Value::Function(f), 0, L),
        Err(RuntimeError::ArgumentsNotMatch { expected: 255, got: 0, span: L })
    );
}

#[test]
fn globals_keep_one_value_for_a_name() {
    let mut globals = GlobalEnvironment::new();
    let a = "a".to_string();
    let b = "b".to_string();
    globals.define(&a, Value::Bool(true));
    globals.define(&b, Value::Nil);
    globals.define(&a, Value::Bool(false));
    assert_eq!(globals.get(&a), Ok(Value::Bool(false)));
    assert_eq!(globals.get(&b), Ok(Value::Nil));
    assert_eq!(globals.assign(&a, Value::Nil), Ok(()));
    assert_eq!(globals.get(&a), Ok(Value::Nil));
}
