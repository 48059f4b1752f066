use lox::ast::expr::{BinaryOp, Expr, Lit, UnaryOp};
use lox::ast::stmt::Statement;
use lox::error::ParserError;
use lox::parser::parse;
use lox::precedence::{Fixity, Operator};
use lox::span::Span;
use lox::token::{Keyword, TokenType};

fn expression(src: &str) -> Expr {
    let mut ast = parse(src).expect("parses");
    assert_eq!(ast.len(), 1);
    match ast.remove(0) {
        Statement::Expression(e) => e.expr,
        other => panic!("not an expression statement: {:?}", other),
    }
}

fn shape(e: &Expr) -> String {
    match e {
        Expr::Binary(b) => format!("({:?} {} {})", b.operator, shape(&b.left), shape(&b.right)),
        Expr::Unary(u) => format!("({:?} {})", u.operator, shape(&u.operand)),
        Expr::Group(g) => format!("[{}]", shape(&g.expr)),
        Expr::Literal(l) => match &l.value {
            Lit::Number(n) => n.clone(),
            Lit::String(s) => format!("{:?}", s),
            Lit::Bool(b) => format!("{}", b),
            Lit::Nil => "nil".to_string(),
        },
        Expr::Ternary(t) => {
            format!("({} ? {} : {})", shape(&t.condition), shape(&t.truthy), shape(&t.falsy))
        }
        Expr::Assign(a) => format!("({} = {})", a.var.ident.name, shape(&a.value)),
        Expr::Var(v) => v.ident.name.clone(),
        Expr::FnCall(c) => {
            let args: Vec<String> = c.arguments.iter().map(shape).collect();
            format!("{}({})", shape(&c.callee), args.join(", "))
        }
        Expr::Get(g) => format!("{}.{}", shape(&g.object), g.field.name),
        Expr::SetField(s) => {
            format!("({}.{} = {})", shape(&s.target.object), s.target.field.name, shape(&s.value))
        }
        Expr::Super(s) => format!("super.{}", s.method.name),
    }
}

#[test]
fn multiplication_binds_tighter_than_addition() {
    assert_eq!(shape(&expression("1 + 2 * 3;")), "(Plus 1 (Multiply 2 3))");
    assert_eq!(shape(&expression("1 * 2 + 3;")), "(Plus (Multiply 1 2) 3)");
}

#[test]
fn binary_operators_associate_to_the_left() {
    assert_eq!(shape(&expression("1 - 2 - 3;")), "(Minus (Minus 1 2) 3)");
    assert_eq!(shape(&expression("a == b != c;")), "(NotEqual (Equal a b) c)");
    assert_eq!(shape(&expression("a < b >= c;")), "(GreaterEqual (Less a b) c)");
}

#[test]
fn logical_operators() {
    assert_eq!(shape(&expression("a or b and c;")), "(Or a (And b c))");
    assert_eq!(shape(&expression("a and b == c;")), "(And a (Equal b c))");
}

#[test]
fn assignment_associates_to_the_right() {
    assert_eq!(shape(&expression("a = b = c;")), "(a = (b = c))");
    assert_eq!(shape(&expression("a.b = c + 1;")), "(a.b = (Plus c 1))");
}

#[test]
fn ternary_associates_to_the_right() {
    assert_eq!(shape(&expression("a ? b : c ? d : e;")), "(a ? b : (c ? d : e))");
    assert_eq!(shape(&expression("a = b ? c : d;")), "(a = (b ? c : d))");
}

#[test]
fn prefix_operators() {
    assert_eq!(shape(&expression("-a * b;")), "(Multiply (Negative a) b)");
    assert_eq!(shape(&expression("!!a;")), "(Not (Not a))");
    assert_eq!(shape(&expression("-a.b;")), "(Negative a.b)");
}

#[test]
fn calls_and_properties() {
    assert_eq!(shape(&expression("f(1, g(2))(3).x.y;")), "f(1, g(2))(3).x.y");
    assert_eq!(shape(&expression("f();")), "f()");
    assert_eq!(shape(&expression("(a + b) * c;")), "(Multiply [(Plus a b)] c)");
    assert_eq!(shape(&expression("super.m(this);")), "super.m(this)");
}

#[test]
fn spans_compose() {
    let e = expression("ab + f(1)\n;");
    assert_eq!(e.get_span(), Span { start: 0, end: 9 });
    let g = expression(" (1) ;");
    assert_eq!(g.get_span(), Span { start: 1, end: 4 });
}

#[test]
fn literal_expressions() {
    assert_eq!(shape(&expression("nil;")), "nil");
    assert_eq!(shape(&expression("true;")), "true");
    assert_eq!(shape(&expression("\"a b\";")), "\"a b\"");
    assert_eq!(shape(&expression("1.25;")), "1.25");
}

#[test]
fn statements() {
    let ast = parse("var a; var b = 1; print a; { a = 2; } if (a) b; else a; while (a) b; return; return 1;")
        .expect("parses");
    assert_eq!(ast.len(), 8);
    assert!(matches!(&ast[0], Statement::Var(v) if v.var.ident.name == "a" && v.initializer.is_none()));
    assert!(matches!(&ast[1], Statement::Var(v) if v.initializer.is_some()));
    assert!(matches!(&ast[2], Statement::Print(_)));
    assert!(matches!(&ast[3], Statement::Block(b) if b.statements.len() == 1 && b.num_of_locals == 0));
    assert!(matches!(&ast[4], Statement::If(i) if i.else_branch.is_some()));
    assert!(matches!(&ast[5], Statement::While(_)));
    assert!(matches!(&ast[6], Statement::Return(r) if r.expr.is_none()));
    assert!(matches!(&ast[7], Statement::Return(r) if r.expr.is_some()));
}

#[test]
fn functions_and_classes() {
    let ast = parse("fun f(a, b) { return a; } class A {} class B < A { init(x) {} m() {} }")
        .expect("parses");
    assert_eq!(ast.len(), 3);
    match &ast[0] {
        Statement::FnDecl(f) => {
            assert_eq!(f.var.ident.name, "f");
            assert_eq!(f.params.len(), 2);
            assert_eq!(f.body.len(), 1);
            assert_eq!(f.num_of_locals, 0);
            assert!(f.var.target.is_none());
        }
        other => panic!("{:?}", other),
    }
    match &ast[2] {
        Statement::ClassDecl(c) => {
            assert_eq!(c.var.ident.name, "B");
            assert_eq!(c.super_class.as_ref().map(|s| s.ident.name.as_str()), Some("A"));
            assert_eq!(c.methods.len(), 2);
            assert_eq!(c.methods[0].var.ident.name, "init");
        }
        other => panic!("{:?}", other),
    }
}

#[test]
fn for_is_rewritten_to_while() {
    let ast = parse("for (var i = 0; i < 3; i = i + 1) print i;").expect("parses");
    assert_eq!(ast.len(), 1);
    let outer = match &ast[0] {
        Statement::Block(b) => b,
        other => panic!("{:?}", other),
    };
    assert_eq!(outer.statements.len(), 2);
    assert!(matches!(&outer.statements[0], Statement::Var(_)));
    let inner = match &outer.statements[1] {
        Statement::While(w) => w,
        other => panic!("{:?}", other),
    };
    assert_eq!(shape(&inner.condition), "(Less i 3)");
    match &inner.body {
        Statement::Block(b) => {
            assert_eq!(b.statements.len(), 2);
            assert!(matches!(&b.statements[0], Statement::Print(_)));
            assert!(matches!(&b.statements[1], Statement::Expression(_)));
        }
        other => panic!("{:?}", other),
    }
}

#[test]
fn for_without_clauses() {
    let ast = parse("for (;;) print 1;").expect("parses");
    match &ast[0] {
        Statement::While(w) => {
            assert_eq!(shape(&w.condition), "true");
            assert_eq!(w.condition.get_span(), Span::dummy());
            assert!(matches!(&w.body, Statement::Print(_)));
        }
        other => panic!("{:?}", other),
    }
}

fn many_parameters(n: usize) -> String {
    let names: Vec<String> = (0..n).map(|i| format!("p{}", i)).collect();
    format!("fun f({}) {{}}", names.join(", "))
}

#[test]
fn two_hundred_and_fifty_five_parameters_are_accepted() {
    let ast = parse(&many_parameters(255)).expect("parses");
    assert!(matches!(&ast[0], Statement::FnDecl(f) if f.params.len() == 255));
}

#[test]
fn two_hundred_and_fifty_six_parameters_are_too_many() {
    let errors = parse(&many_parameters(256)).expect_err("fails");
    assert_eq!(errors.len(), 1);
    assert!(matches!(errors[0], ParserError::TooManyParameters(_)));
}

#[test]
fn invalid_left_value() {
    let errors = parse("1 + 2 = 3;").expect_err("fails");
    assert_eq!(errors, vec![ParserError::InvalidLeftValue(Span { start: 0, end: 5 })]);
}

#[test]
fn missing_semicolon() {
    let errors = parse("print 1").expect_err("fails");
    assert_eq!(
        errors,
        vec![ParserError::UnexpectedToken(TokenType::Eof, Span { start: 7, end: 7 })]
    );
}

#[test]
fn expression_expected() {
    let errors = parse("print ;").expect_err("fails");
    assert_eq!(
        errors,
        vec![ParserError::ExpectStructure {
            expected: "expression",
            found: TokenType::Semicolon,
            span: Span { start: 6, end: 7 },
        }]
    );
}

#[test]
fn identifier_expected() {
    let errors = parse("var 1;").expect_err("fails");
    assert!(matches!(
        &errors[0],
        ParserError::ExpectStructure { expected: "identifier", .. }
    ));
}

#[test]
fn keyword_where_an_expression_starts() {
    let errors = parse("1 + else;").expect_err("fails");
    assert_eq!(
        errors[0],
        ParserError::UnexpectedToken(TokenType::Keyword(Keyword::Else), Span { start: 4, end: 8 })
    );
}

#[test]
fn recovery_goes_on_after_an_error() {
    let errors = parse("var = 1; print 2 print 3; var 4;").expect_err("fails");
    assert_eq!(errors.len(), 3);
}

#[test]
fn unclosed_block_ends() {
    let errors = parse("{ print 1;").expect_err("fails");
    assert_eq!(
        errors,
        vec![ParserError::UnexpectedToken(TokenType::Eof, Span { start: 10, end: 10 })]
    );
}

#[test]
fn errors_inside_a_block_are_recorded() {
    let errors = parse("{ print ; print 1; }").expect_err("fails");
    assert_eq!(errors.len(), 1);
}

#[test]
fn operator_table() {
    assert_eq!(Operator::Lowest.precedence(), 0);
    assert_eq!(Operator::Assign.precedence(), 2);
    assert_eq!(Operator::Ternary.precedence(), 4);
    assert_eq!(Operator::Or.precedence(), 9);
    assert_eq!(Operator::And.precedence(), 10);
    assert_eq!(Operator::Equal.precedence(), 11);
    assert_eq!(Operator::Less.precedence(), 11);
    assert_eq!(Operator::Plus.precedence(), 12);
    assert_eq!(Operator::Multiply.precedence(), 13);
    assert_eq!(Operator::Prefix.precedence(), 14);
    assert_eq!(Operator::FnCall.precedence(), 15);
    assert_eq!(Operator::Dot.precedence(), 15);
    assert_eq!(Operator::Assign.fixity(), Fixity::Right);
    assert_eq!(Operator::Ternary.fixity(), Fixity::Right);
    assert_eq!(Operator::Plus.fixity(), Fixity::Left);
    assert!(Operator::Multiply.is_precedent_than(Operator::Plus));
    assert!(!Operator::Plus.is_precedent_than(Operator::Plus));
    assert!(Operator::Assign.is_precedent_than(Operator::Assign));
    assert!(!Operator::Plus.is_precedent_than(Operator::Multiply));
    assert_eq!(Operator::from_token(&TokenType::Question), Some(Operator::Ternary));
    assert_eq!(Operator::from_token(&TokenType::Semicolon), None);
    assert_eq!(BinaryOp::from_token(&TokenType::Star), Some(BinaryOp::Multiply));
    assert_eq!(BinaryOp::from_token(&TokenType::Bang), None);
    assert_eq!(UnaryOp::from_token(&TokenType::Bang), Some(UnaryOp::Not));
    assert_eq!(UnaryOp::from_token(&TokenType::Minus), Some(UnaryOp::Negative));
}
