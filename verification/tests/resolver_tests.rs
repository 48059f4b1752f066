use lox::ast::expr::Expr;
use lox::ast::ident::IdentTarget;
use lox::ast::stmt::Statement;
use lox::error::ResolverError;
use lox::parser::parse;
use lox::resolver::Resolver;
use lox::span::Span;

fn resolved(src: &str) -> (Vec<Statement>, Option<Vec<ResolverError>>) {
    let mut ast = parse(src).expect("parses");
    let errors = Resolver::new().resolve(&mut ast);
    (ast, errors)
}

fn target(scope_count: u16, index: u16) -> Option<IdentTarget> {
    Some(IdentTarget { scope_count, index })
}

fn printed(s: &Statement) -> Option<IdentTarget> {
    match s {
        Statement::Print(p) => match &p.expr {
            Expr::Var(v) => v.target,
            other => panic!("{:?}", other),
        },
        other => panic!("{:?}", other),
    }
}

#[test]
fn globals_stay_unbound() {
    let (ast, errors) = resolved("var a = 1; print a; print b;");
    assert!(errors.is_none());
    assert!(matches!(&ast[0], Statement::Var(v) if v.var.target.is_none()));
    assert_eq!(printed(&ast[1]), None);
    assert_eq!(printed(&ast[2]), None);
}

#[test]
fn locals_are_bound_to_slots() {
    let (ast, errors) = resolved("{ var a; var b; print b; { var c; print a; print c; print g; } }");
    assert!(errors.is_none());
    let outer = match &ast[0] {
        Statement::Block(b) => b,
        other => panic!("{:?}", other),
    };
    assert_eq!(outer.num_of_locals, 2);
    assert!(matches!(&outer.statements[0], Statement::Var(v) if v.var.target == target(0, 0)));
    assert!(matches!(&outer.statements[1], Statement::Var(v) if v.var.target == target(0, 1)));
    assert_eq!(printed(&outer.statements[2]), target(0, 1));
    let inner = match &outer.statements[3] {
        Statement::Block(b) => b,
        other => panic!("{:?}", other),
    };
    assert_eq!(inner.num_of_locals, 1);
    assert_eq!(printed(&inner.statements[1]), target(1, 0));
    assert_eq!(printed(&inner.statements[2]), target(0, 0));
    assert_eq!(printed(&inner.statements[3]), None);
}

#[test]
fn parameters_and_locals_share_the_frame_of_the_function() {
    let (ast, errors) = resolved("fun f(a, b) { var c; print a; print c; f; }");
    assert!(errors.is_none());
    let f = match &ast[0] {
        Statement::FnDecl(f) => f,
        other => panic!("{:?}", other),
    };
    assert_eq!(f.num_of_locals, 3);
    assert_eq!(f.params[0].target, target(0, 0));
    assert_eq!(f.params[1].target, target(0, 1));
    assert!(f.var.target.is_none());
    assert_eq!(printed(&f.body[1]), target(0, 0));
    assert_eq!(printed(&f.body[2]), target(0, 2));
}

#[test]
fn a_closure_reaches_the_frame_around_it() {
    let (ast, errors) = resolved("fun counter() { var n = 0; fun tick() { n = n + 1; return n; } return tick; }");
    assert!(errors.is_none());
    let counter = match &ast[0] {
        Statement::FnDecl(f) => f,
        other => panic!("{:?}", other),
    };
    assert_eq!(counter.num_of_locals, 2);
    let tick = match &counter.body[1] {
        Statement::FnDecl(f) => f,
        other => panic!("{:?}", other),
    };
    assert_eq!(tick.var.target, target(0, 1));
    assert_eq!(tick.num_of_locals, 0);
    match &tick.body[0] {
        Statement::Expression(e) => match &e.expr {
            Expr::Assign(a) => assert_eq!(a.var.target, target(1, 0)),
            other => panic!("{:?}", other),
        },
        other => panic!("{:?}", other),
    }
}

#[test]
fn redefinition_is_reported() {
    let (_, errors) = resolved("{ var a; var a; }");
    assert_eq!(
        errors,
        Some(vec![ResolverError::RedefineVar {
            pos: Span { start: 13, end: 14 },
            name: "a".to_string(),
            defined_at: Span { start: 6, end: 7 },
        }])
    );
}

#[test]
fn redefinition_does_not_count_twice() {
    let (ast, errors) = resolved("{ var a; var a; var b; }");
    assert!(errors.is_some());
    assert!(matches!(&ast[0], Statement::Block(b) if b.num_of_locals == 2));
}

#[test]
fn return_outside_of_a_function() {
    let (_, errors) = resolved("return 1;");
    assert_eq!(errors, Some(vec![ResolverError::InvalidReturn(Span { start: 0, end: 6 })]));
}

#[test]
fn return_of_a_value_in_an_initializer() {
    let (_, errors) = resolved("class A { init() { return 1; } }");
    assert!(matches!(errors.as_deref(), Some([ResolverError::ReturnInConstructor(_)])));
    let (_, bare) = resolved("class A { init() { return; } }");
    assert!(bare.is_none());
    let (_, method) = resolved("class A { m() { return 1; } }");
    assert!(method.is_none());
}

#[test]
fn this_outside_of_a_function() {
    let (_, errors) = resolved("print this;");
    assert_eq!(errors, Some(vec![ResolverError::InvalidThis(Span { start: 6, end: 10 })]));
}

#[test]
fn super_outside_of_a_class() {
    let (_, errors) = resolved("super.m();");
    assert!(matches!(errors.as_deref(), Some([ResolverError::InvalidSuper(_)])));
}

#[test]
fn super_without_a_superclass() {
    let (_, errors) = resolved("class A { m() { super.m(); } }");
    assert!(matches!(errors.as_deref(), Some([ResolverError::NotSubClass(_)])));
}

fn method_body(ast: &[Statement], class: usize, method: usize) -> &Vec<Statement> {
    match &ast[class] {
        Statement::ClassDecl(c) => &c.methods[method].body,
        other => panic!("{:?}", other),
    }
}

#[test]
fn this_and_super_are_bound_in_methods() {
    let (ast, errors) =
        resolved("class A { m() {} } class B < A { m() { super.m; print this; { print this; } } }");
    assert!(errors.is_none());
    let body = method_body(&ast, 1, 0);
    match &body[0] {
        Statement::Expression(e) => match &e.expr {
            Expr::Super(s) => assert_eq!(s.var.target, target(2, 0)),
            other => panic!("{:?}", other),
        },
        other => panic!("{:?}", other),
    }
    assert_eq!(printed(&body[1]), target(1, 0));
    match &body[2] {
        Statement::Block(b) => assert_eq!(printed(&b.statements[0]), target(2, 0)),
        other => panic!("{:?}", other),
    }
}

#[test]
fn the_superclass_is_looked_up_before_the_scope_of_super_opens() {
    let (ast, errors) = resolved("{ class A {} class B < A {} }");
    assert!(errors.is_none());
    let block = match &ast[0] {
        Statement::Block(b) => b,
        other => panic!("{:?}", other),
    };
    assert_eq!(block.num_of_locals, 2);
    match &block.statements[1] {
        Statement::ClassDecl(c) => {
            assert_eq!(c.var.target, target(0, 1));
            assert_eq!(c.super_class.as_ref().unwrap().target, target(0, 0));
        }
        other => panic!("{:?}", other),
    }
}

#[test]
fn the_whole_program_is_walked_after_an_error() {
    let (ast, errors) = resolved("return; { var a; print a; }");
    assert_eq!(errors.map(|e| e.len()), Some(1));
    match &ast[1] {
        Statement::Block(b) => {
            assert_eq!(b.num_of_locals, 1);
            assert_eq!(printed(&b.statements[1]), target(0, 0));
        }
        other => panic!("{:?}", other),
    }
}

#[test]
fn resolving_again_changes_nothing() {
    let src = "var g; fun f(a) { var b = a; { var c = b + g; print c; } return b; } \
               class A { init(x) { this.x = x; } } class B < A { m() { return super.init; } } \
               { var a; var a; }";
    let mut once = parse(src).expect("parses");
    let first = Resolver::new().resolve(&mut once);
    let mut twice = parse(src).expect("parses");
    let _ = Resolver::new().resolve(&mut twice);
    let second = Resolver::new().resolve(&mut twice);
    assert_eq!(once, twice);
    assert_eq!(first, second);
}

#[test]
fn the_resolver_gives_its_errors_away() {
    let mut resolver = Resolver::new();
    let mut bad = parse("return;").expect("parses");
    assert!(resolver.resolve(&mut bad).is_some());
    let mut good = parse("print 1;").expect("parses");
    assert!(resolver.resolve(&mut good).is_none());
}
