use lox::ast::expr::BinaryOp;
use lox::parser::parse;
use lox::resolver::Resolver;
use lox::runtime::error::RuntimeError;
use lox::runtime::machine::{Action, Machine};
use lox::runtime::value::{Number, Value};
use lox::span::Span;

fn number(x: f64) -> Value {
    Value::Number(Number { bits: x.to_bits() })
}

fn double(n: Number) -> f64 {
    f64::from_bits(n.bits)
}

fn arith(op: BinaryOp, a: Number, b: Number) -> Value {
    let (a, b) = (double(a), double(b));
    match op {
        BinaryOp::Plus => number(a + b),
        BinaryOp::Minus => number(a - b),
        BinaryOp::Multiply => number(a * b),
        BinaryOp::Divide => number(a / b),
        BinaryOp::Equal => Value::Bool(a == b),
        BinaryOp::NotEqual => Value::Bool(a != b),
        BinaryOp::Greater => Value::Bool(a > b),
        BinaryOp::GreaterEqual => Value::Bool(a >= b),
        BinaryOp::Less => Value::Bool(a < b),
        BinaryOp::LessEqual => Value::Bool(a <= b),
        BinaryOp::And | BinaryOp::Or => unreachable!(),
    }
}

fn run_with(src: &str, fuel: u64) -> (Vec<String>, Result<(), RuntimeError>) {
    let mut ast = parse(src).expect("parses");
    let _ = Resolver::new().resolve(&mut ast);
    let mut machine = Machine::new(&ast);
    let clock = machine.heap.add_native("clock", 0);
    machine.globals.define(&"clock".to_string(), Value::NativeFunction(clock));
    let mut given: Option<Value> = None;
    let mut out = vec![];
    let mut rounds = 0;
    loop {
        rounds += 1;
        assert!(rounds < 1_000_000, "does not end");
        match machine.run(given.take(), fuel) {
            Action::Number(text) => given = Some(number(text.parse::<f64>().expect("a number"))),
            Action::Arith(op, a, b) => given = Some(arith(op, a, b)),
            Action::Negate(n) => given = Some(number(-double(n))),
            Action::Format(n) => given = Some(Value::String(format!("{}", double(n)))),
            Action::Print(text) => out.push(text),
            Action::Native(id, arguments) => {
                assert_eq!(id, clock);
                assert!(arguments.is_empty());
                given = Some(number(12.5));
            }
            Action::Finished(r) => return (out, r),
            Action::Yield => {}
        }
    }
}

fn run(src: &str) -> (Vec<String>, Result<(), RuntimeError>) {
    run_with(src, 1000)
}

fn prints(src: &str) -> Vec<String> {
    let (out, r) = run(src);
    assert_eq!(r, Ok(()));
    out
}

fn fails(src: &str) -> RuntimeError {
    run(src).1.expect_err("fails")
}

#[test]
fn arithmetic() {
    assert_eq!(prints("print 1 + 2 * 3;"), ["7"]);
    assert_eq!(prints("print (1 + 2) * 3 - 4 / 8;"), ["8.5"]);
    assert_eq!(prints("print -3 + 1;"), ["-2"]);
    assert_eq!(prints("print 1.50;"), ["1.5"]);
}

#[test]
fn logical_operators_give_the_operand() {
    assert_eq!(prints("print nil or \"hello\";"), ["hello"]);
    assert_eq!(prints("print 0 and \"never\";"), ["never"]);
    assert_eq!(prints("print false and 1;"), ["false"]);
    assert_eq!(prints("print 1 or 2;"), ["1"]);
    assert_eq!(prints("print nil and f();"), ["nil"]);
}

#[test]
fn closures_capture() {
    let src = "fun counter() { var n = 0; fun tick() { n = n + 1; return n; } return tick; } \
               var c = counter(); print c(); print c(); print c();";
    assert_eq!(prints(src), ["1", "2", "3"]);
}

#[test]
fn two_closures_have_frames_of_their_own() {
    let src = "fun counter() { var n = 0; fun tick() { n = n + 1; return n; } return tick; } \
               var a = counter(); var b = counter(); print a(); print a(); print b();";
    assert_eq!(prints(src), ["1", "2", "1"]);
}

#[test]
fn classes_and_inheritance() {
    let src = "class A { greet() { print \"A\"; } } \
               class B < A { greet() { super.greet(); print \"B\"; } } \
               B().greet();";
    assert_eq!(prints(src), ["A", "B"]);
}

#[test]
fn constructor_with_init() {
    let src = "class Point { init(x, y) { this.x = x; this.y = y; } } \
               var p = Point(3, 4); print p.x + p.y;";
    assert_eq!(prints(src), ["7"]);
}

#[test]
fn value_returned_from_init() {
    let e = fails("class Bad { init() { return 1; } } Bad();");
    assert!(matches!(e, RuntimeError::ReturnInConstructor(_)));
}

#[test]
fn bare_return_from_init_gives_the_instance() {
    let src = "class A { init() { this.x = 1; return; this.x = 2; } } print A().x;";
    assert_eq!(prints(src), ["1"]);
}

#[test]
fn inherited_methods_and_init() {
    let src = "class A { init(n) { this.n = n; } get() { return this.n; } } \
               class B < A { twice() { return this.get() * 2; } } \
               var b = B(21); print b.twice(); print b.get();";
    assert_eq!(prints(src), ["42", "21"]);
}

#[test]
fn local_classes() {
    let src = "{ class A { m() { return \"a\"; } } class B < A {} print B().m(); }";
    assert_eq!(prints(src), ["a"]);
}

#[test]
fn bound_methods_keep_this() {
    let src = "class A { init(n) { this.n = n; } get() { return this.n; } } \
               var m = A(5).get; print m();";
    assert_eq!(prints(src), ["5"]);
}

#[test]
fn strings_are_joined() {
    assert_eq!(prints("print \"a\" + \"b\";"), ["ab"]);
    assert_eq!(prints("print \"a\" + 1.5;"), ["a1.5"]);
    assert_eq!(prints("print 2 + \"b\";"), ["2b"]);
    assert_eq!(prints("print \"a\" + nil + true;"), ["aniltrue"]);
    assert_eq!(prints("print nil + \"b\";"), ["nilb"]);
}

#[test]
fn values_are_shown() {
    let src = "fun f() {} class A {} print f; print A; print A(); print clock; print nil; print true; print \"s\";";
    assert_eq!(
        prints(src),
        ["<function f>", "<class A>", "<A instance>", "<native function clock>", "nil", "true", "s"]
    );
}

#[test]
fn equality_as_it_runs() {
    assert_eq!(prints("print 1 == 1; print 1 != 1; print 1 == 2;"), ["true", "false", "false"]);
    assert_eq!(prints("print \"a\" == \"a\"; print nil == nil; print nil == false;"), ["true", "true", "false"]);
    assert_eq!(prints("print 1 == \"1\"; print 1 != nil;"), ["false", "true"]);
    assert_eq!(prints("class A {} var a = A(); print a == a; print a == A(); print A == A;"), ["true", "false", "true"]);
}

#[test]
fn comparison() {
    assert_eq!(prints("print 1 < 2; print 2 <= 2; print 1 > 2; print 2 >= 3;"), ["true", "true", "false", "false"]);
}

#[test]
fn not_and_truthiness() {
    assert_eq!(prints("print !nil; print !0; print !\"\"; print !false;"), ["true", "false", "false", "true"]);
    assert_eq!(prints("print 0 ? \"yes\" : \"no\"; print nil ? 1 : 2;"), ["yes", "2"]);
}

#[test]
fn control_flow() {
    assert_eq!(prints("if (1 < 2) print \"a\"; else print \"b\";"), ["a"]);
    assert_eq!(prints("if (1 > 2) print \"a\"; else print \"b\";"), ["b"]);
    assert_eq!(prints("if (nil) print \"a\";"), Vec::<String>::new());
    assert_eq!(prints("var i = 0; while (i < 3) { print i; i = i + 1; }"), ["0", "1", "2"]);
    assert_eq!(prints("for (var i = 0; i < 3; i = i + 1) print i;"), ["0", "1", "2"]);
    assert_eq!(prints("{ for (var i = 3; i > 0; i = i - 1) { var j = i * 2; print j; } }"), ["6", "4", "2"]);
}

#[test]
fn blocks_have_frames_of_their_own() {
    let src = "var a = \"global\"; { var a = \"outer\"; { var a = \"inner\"; print a; } print a; } print a;";
    assert_eq!(prints(src), ["inner", "outer", "global"]);
}

#[test]
fn recursion() {
    let src = "fun fib(n) { if (n < 2) return n; return fib(n - 1) + fib(n - 2); } print fib(15);";
    assert_eq!(prints(src), ["610"]);
}

#[test]
fn return_from_inside_blocks_restores_the_frame() {
    let src = "fun f(n) { var i = 0; while (true) { { if (i == n) return i; } i = i + 1; } } \
               { var a = 1; print f(3); print a; }";
    assert_eq!(prints(src), ["3", "1"]);
}

#[test]
fn a_function_without_return_gives_nil() {
    assert_eq!(prints("fun f() {} print f();"), ["nil"]);
}

#[test]
fn assignment_gives_the_value() {
    assert_eq!(prints("var a; var b; a = b = 2; print a + b; print a = 5;"), ["4", "5"]);
    assert_eq!(prints("class A {} var a = A(); print a.x = 3; print a.x;"), ["3", "3"]);
}

#[test]
fn native_functions() {
    assert_eq!(prints("print clock();"), ["12.5"]);
}

#[test]
fn undefined_variable() {
    assert_eq!(fails("print a;"), RuntimeError::UndefinedVariable { name: "a".to_string() });
    assert_eq!(fails("a = 1;"), RuntimeError::UndefinedVariable { name: "a".to_string() });
}

#[test]
fn type_errors_point_at_the_operand() {
    assert_eq!(
        fails("1 - \"a\";"),
        RuntimeError::TypeError { span: Span { start: 4, end: 7 }, expected: "number", found: "string" }
    );
    assert_eq!(
        fails("nil * 2;"),
        RuntimeError::TypeError { span: Span { start: 0, end: 3 }, expected: "number", found: "nil" }
    );
    assert_eq!(
        fails("-true;"),
        RuntimeError::TypeError { span: Span { start: 1, end: 5 }, expected: "number", found: "bool" }
    );
    assert_eq!(
        fails("1 + nil;"),
        RuntimeError::TypeError {
            span: Span { start: 4, end: 7 },
            expected: "number or string",
            found: "nil"
        }
    );
    assert_eq!(
        fails("nil + 1;"),
        RuntimeError::TypeError { span: Span { start: 0, end: 3 }, expected: "number", found: "nil" }
    );
}

#[test]
fn the_left_operand_is_checked_before_the_right_is_evaluated() {
    let (out, r) = run("fun f() { print \"called\"; return 1; } nil < f();");
    assert!(out.is_empty());
    assert!(matches!(r, Err(RuntimeError::TypeError { .. })));
    let (out, r) = run("fun f() { print \"called\"; return 1; } nil + f();");
    assert_eq!(out, ["called"]);
    assert!(matches!(r, Err(RuntimeError::TypeError { .. })));
}

#[test]
fn calls_are_checked_as_they_run() {
    assert_eq!(
        fails("\"f\"();"),
        RuntimeError::NotCallable {
            target: Value::String("f".to_string()),
            span: Span { start: 0, end: 3 }
        }
    );
    assert_eq!(
        fails("fun f(a) {} f();"),
        RuntimeError::ArgumentsNotMatch { expected: 1, got: 0, span: Span { start: 12, end: 13 } }
    );
    assert_eq!(
        fails("class A { init(a) {} } A(1, 2);"),
        RuntimeError::ArgumentsNotMatch { expected: 1, got: 2, span: Span { start: 23, end: 24 } }
    );
}

#[test]
fn properties_need_an_instance() {
    assert_eq!(
        fails("var a = 1; a.x;"),
        RuntimeError::InvalidFieldTarget { target_type: "number", field: "x".to_string() }
    );
    assert_eq!(
        fails("var a = nil; a.x = 1;"),
        RuntimeError::InvalidFieldTarget { target_type: "nil", field: "x".to_string() }
    );
    assert_eq!(
        fails("class A {} A().x;"),
        RuntimeError::UndefinedField { field: "x".to_string() }
    );
}

#[test]
fn the_object_is_checked_before_the_value_is_evaluated() {
    let (out, r) = run("fun f() { print \"called\"; return 1; } var a = 1; a.x = f();");
    assert!(out.is_empty());
    assert!(matches!(r, Err(RuntimeError::InvalidFieldTarget { .. })));
}

#[test]
fn the_superclass_must_be_a_class() {
    let e = fails("var A = 1; class B < A {}");
    assert_eq!(e, RuntimeError::InvalidSuperClass(Span { start: 21, end: 22 }));
}

#[test]
fn a_missing_method_of_the_superclass() {
    let e = fails("class A {} class B < A { m() { super.n(); } } B().m();");
    assert_eq!(e, RuntimeError::UndefinedField { field: "n".to_string() });
}

#[test]
fn return_outside_of_a_function_ends_the_program() {
    let (out, r) = run("print 1; return 2; print 3;");
    assert_eq!(out, ["1"]);
    assert_eq!(r, Err(RuntimeError::Return(Span { start: 9, end: 15 }, number(2.0))));
}

#[test]
fn the_run_ends_at_the_first_error() {
    let (out, r) = run("print 1; print a; print 2;");
    assert_eq!(out, ["1"]);
    assert!(r.is_err());
}

#[test]
fn the_machine_yields_when_its_steps_are_used_up() {
    let src = "var i = 0; var s = 0; while (i < 50) { s = s + i; i = i + 1; } print s;";
    assert_eq!(run_with(src, 1), (vec!["1225".to_string()], Ok(())));
    assert_eq!(run_with(src, 7), (vec!["1225".to_string()], Ok(())));
    let ast = parse("while (true) {}").expect("parses");
    let mut machine = Machine::new(&ast);
    for _ in 0..10 {
        assert_eq!(machine.run(None, 100), Action::Yield);
    }
    assert_eq!(machine.step(), None);
}

#[test]
fn an_unasked_value_stays_on_the_stack() {
    let ast = parse("").expect("parses");
    let mut machine = Machine::new(&ast);
    assert_eq!(machine.run(Some(Value::Nil), 10), Action::Finished(Ok(())));
    assert_eq!(machine.values, vec![Value::Nil]);
}

#[test]
fn a_missing_value_ends_the_program() {
    let ast = parse("print 1;").expect("parses");
    let mut machine = Machine::new(&ast);
    assert_eq!(machine.run(None, 10), Action::Number("1".to_string()));
    assert_eq!(machine.run(None, 10), Action::Finished(Err(RuntimeError::Stuck)));
    assert_eq!(machine.run(None, 10), Action::Finished(Ok(())));
}

#[test]
fn an_unresolved_local_is_a_bad_target() {
    let mut ast = parse("{ var a = 1; print a; }").expect("parses");
    let _ = Resolver::new().resolve(&mut ast);
    if let lox::ast::stmt::Statement::Block(b) = &mut ast[0] {
        b.num_of_locals = 0;
    }
    let mut machine = Machine::new(&ast);
    assert_eq!(machine.run(None, 100), Action::Number("1".to_string()));
    assert_eq!(
        machine.run(Some(number(1.0)), 100),
        Action::Finished(Err(RuntimeError::BadTarget(Span { start: 6, end: 7 })))
    );
}

fn frame_after(src: &str) -> (Option<usize>, Result<(), RuntimeError>) {
    let mut ast = parse(src).expect("parses");
    let _ = Resolver::new().resolve(&mut ast);
    let mut machine = Machine::new(&ast);
    let before = machine.frame;
    let mut given: Option<Value> = None;
    loop {
        match machine.run(given.take(), 1000) {
            Action::Number(text) => given = Some(number(text.parse::<f64>().expect("a number"))),
            Action::Arith(op, a, b) => given = Some(arith(op, a, b)),
            Action::Negate(n) => given = Some(number(-double(n))),
            Action::Format(n) => given = Some(Value::String(format!("{}", double(n)))),
            Action::Print(_) | Action::Yield => {}
            Action::Native(_, _) => given = Some(Value::Nil),
            Action::Finished(r) => {
                assert_eq!(machine.frame, before);
                assert!(machine.tasks.is_empty());
                return (machine.frame, r);
            }
        }
    }
}

#[test]
fn the_frame_is_current_again_after_an_error_in_a_block() {
    let (frame, r) = frame_after("{ var a = 1; { var b = 2; print missing; } }");
    assert_eq!(frame, None);
    assert_eq!(r, Err(RuntimeError::UndefinedVariable { name: "missing".to_string() }));
}

#[test]
fn the_frame_is_current_again_after_an_error_in_a_call() {
    let src = "fun f(x) { { var y = x; return y + nil; } } { var a = 1; f(a); }";
    let (frame, r) = frame_after(src);
    assert_eq!(frame, None);
    assert!(matches!(r, Err(RuntimeError::TypeError { .. })));
}

#[test]
fn the_frame_is_current_again_after_a_run_that_ends_well() {
    let (frame, r) = frame_after("fun f(x) { { return x; } } { var a = 1; f(a); }");
    assert_eq!(frame, None);
    assert_eq!(r, Ok(()));
}

#[test]
fn native_functions_of_one_name_are_equal() {
    assert_eq!(prints("print clock == clock; var c = clock; print c != clock;"), ["true", "false"]);
}

#[test]
fn a_machine_that_failed_can_run_another_program_from_the_top() {
    let mut ast = parse("{ var a = 1; { print a + nil; } }").expect("parses");
    let _ = Resolver::new().resolve(&mut ast);
    let mut machine = Machine::new(&ast);
    let mut given: Option<Value> = None;
    let r = loop {
        match machine.run(given.take(), 3) {
            Action::Number(text) => given = Some(number(text.parse::<f64>().expect("a number"))),
            Action::Finished(r) => break r,
            Action::Yield => {}
            other => panic!("{:?}", other),
        }
    };
    assert!(matches!(r, Err(RuntimeError::TypeError { .. })));
    assert_eq!(machine.frame, None);
    assert!(machine.tasks.is_empty());
    assert_eq!(machine.run(None, 1), Action::Finished(Ok(())));
}
