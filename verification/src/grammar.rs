//! The grammar: what the parser makes of a sequence of tokens.
//!
//! Every function here takes the tokens `t` and the index `p` of the next
//! token, and says what is parsed from there, how many tokens that takes,
//! and which diagnostics are recorded on the way. Reading past the last token
//! gives end of input again and takes nothing.

use vstd::prelude::*;
use crate::ast::expr::{BinaryOp, SpecExpr, SpecLit, UnaryOp};
use crate::ast::ident::{SpecIdent, SpecVariable};
use crate::ast::stmt::{SpecFnDecl, SpecStmt};
use crate::error::SpecParserError;
use crate::precedence::Operator;
use crate::span::Span;
use crate::token::{Keyword, SpecLiteral, SpecToken, SpecTokenType};

verus! {

/// The outcome of parsing a construct that records no diagnostics of its
/// own: the construct or the error that ended it, and the number of tokens
/// taken.
pub struct Step<T> {
    pub result: Result<T, SpecParserError>,
    pub used: nat,
}

/// The outcome of parsing a statement: the statement or the error that ended
/// it, the number of tokens taken, and the diagnostics recorded meanwhile.
pub struct Parsed<T> {
    pub result: Result<T, SpecParserError>,
    pub used: nat,
    pub errors: Seq<SpecParserError>,
}

/// The outcome of parsing a run of declarations with error recovery.
pub struct Items {
    pub stmts: Seq<SpecStmt>,
    pub used: nat,
    pub errors: Seq<SpecParserError>,
}

pub open spec fn stop<T>(e: SpecParserError, p: int, q: int) -> Step<T> {
    Step { result: Err(e), used: (q - p) as nat }
}

pub open spec fn go<T>(v: T, p: int, q: int) -> Step<T> {
    Step { result: Ok(v), used: (q - p) as nat }
}

pub open spec fn fail<T>(e: SpecParserError, p: int, q: int, errors: Seq<SpecParserError>) -> Parsed<
    T,
> {
    Parsed { result: Err(e), used: (q - p) as nat, errors }
}

pub open spec fn done<T>(v: T, p: int, q: int, errors: Seq<SpecParserError>) -> Parsed<T> {
    Parsed { result: Ok(v), used: (q - p) as nat, errors }
}

/// The end-of-input token that is read past the last token.
pub open spec fn eof_token(t: Seq<SpecToken>) -> SpecToken {
    SpecToken {
        token_type: SpecTokenType::Eof,
        span: if t.len() > 0 {
            t.last().span
        } else {
            Span::spec_dummy()
        },
    }
}

/// The token at index `p`.
pub open spec fn peek(t: Seq<SpecToken>, p: int) -> SpecToken {
    if 0 <= p < t.len() {
        t[p]
    } else {
        eof_token(t)
    }
}

/// The number of tokens that taking the token at `p` takes: one, or none
/// past the end.
pub open spec fn step(t: Seq<SpecToken>, p: int) -> nat {
    if 0 <= p < t.len() {
        1
    } else {
        0
    }
}

/// The number of tokens from index `p` to the end.
pub open spec fn remaining(t: Seq<SpecToken>, p: int) -> nat {
    if p <= t.len() {
        (t.len() - p) as nat
    } else {
        0
    }
}

/// Whether a construct that took `used` tokens from index `p` moved forward.
/// Every construct that is parsed in a loop does; the loops of this grammar
/// end where one would not.
pub open spec fn advances(t: Seq<SpecToken>, p: int, used: nat) -> bool {
    0 <= p < t.len() && used >= 1
}

/// Takes the next token, which must be `expected`; yields its span.
pub open spec fn sp_eat(t: Seq<SpecToken>, p: int, expected: SpecTokenType) -> Step<Span> {
    let tok = peek(t, p);
    Step {
        result: if tok.token_type == expected {
            Ok(tok.span)
        } else {
            Err(SpecParserError::UnexpectedToken(tok.token_type, tok.span))
        },
        used: step(t, p),
    }
}

/// Takes the next token, which must be an identifier.
pub open spec fn sp_identifier(t: Seq<SpecToken>, p: int) -> Step<SpecIdent> {
    let tok = peek(t, p);
    Step {
        result: match tok.token_type {
            SpecTokenType::Identifier(name) => Ok(SpecIdent { name, span: tok.span }),
            other => Err(
                SpecParserError::ExpectStructure {
                    expected: "identifier"@,
                    found: other,
                    span: tok.span,
                },
            ),
        },
        used: step(t, p),
    }
}

/// Whether a statement can start with this token: recovery stops before it.
pub open spec fn starts_statement(token_type: SpecTokenType) -> bool {
    match token_type {
        SpecTokenType::Keyword(kw) => kw == Keyword::Class || kw == Keyword::For || kw
            == Keyword::Fun || kw == Keyword::If || kw == Keyword::Print || kw == Keyword::Return
            || kw == Keyword::Var || kw == Keyword::While,
        _ => false,
    }
}

/// The number of tokens that recovery discards from `p`: up to and including
/// the next semicolon, or up to the next token that starts a statement, or
/// up to the end of input.
pub open spec fn sync_used(t: Seq<SpecToken>, p: int) -> nat
    decreases remaining(t, p),
{
    let token_type = peek(t, p).token_type;
    if token_type is Eof || starts_statement(token_type) {
        0
    } else if token_type is Semicolon {
        1
    } else {
        1 + sync_used(t, p + 1)
    }
}

/// A parameter list after its first token was seen not to be `)`:
/// identifiers separated by commas, appended to `acc`.
pub open spec fn sp_params(t: Seq<SpecToken>, p: int, acc: Seq<SpecVariable>) -> Step<
    Seq<SpecVariable>,
>
    decreases remaining(t, p),
{
    let id = sp_identifier(t, p);
    match id.result {
        Err(e) => stop(e, p, p + id.used),
        Ok(ident) => {
            let acc2 = acc.push(SpecVariable::from_ident(ident));
            if peek(t, p + 1).token_type is Comma {
                let rest = sp_params(t, p + 2, acc2);
                Step { result: rest.result, used: 2 + rest.used }
            } else {
                go(acc2, p, p + 1)
            }
        },
    }
}

/// The literal expression of the given value.
pub open spec fn lit(value: SpecLit, span: Span) -> SpecExpr {
    SpecExpr::Literal { span, value }
}

/// A whole expression.
pub open spec fn sp_expression(t: Seq<SpecToken>, p: int) -> Step<SpecExpr>
    decreases remaining(t, p), 4nat,
{
    sp_expr_precedence(t, p, Operator::Lowest)
}

/// An operand with all the operators after it that bind tighter than `op`:
/// a prefix form, then as many infix forms as take it.
pub open spec fn sp_expr_precedence(t: Seq<SpecToken>, p: int, op: Operator) -> Step<SpecExpr>
    decreases remaining(t, p), 3nat,
{
    let pre = sp_prefix(t, p);
    match pre.result {
        Err(e) => pre,
        Ok(left) => {
            let rest = sp_infix(t, p + pre.used, op, left);
            Step { result: rest.result, used: pre.used + rest.used }
        },
    }
}

/// A prefix form: a literal, `this`, `super.name`, a parenthesised
/// expression, a prefix operator with its operand, or a variable.
pub open spec fn sp_prefix(t: Seq<SpecToken>, p: int) -> Step<SpecExpr>
    decreases remaining(t, p), 2nat,
{
    let tok = peek(t, p);
    let q1 = p + step(t, p);
    match tok.token_type {
        SpecTokenType::Keyword(kw) => {
            if kw == Keyword::False {
                go(lit(SpecLit::Bool(false), tok.span), p, q1)
            } else if kw == Keyword::True {
                go(lit(SpecLit::Bool(true), tok.span), p, q1)
            } else if kw == Keyword::Nil {
                go(lit(SpecLit::Nil, tok.span), p, q1)
            } else if kw == Keyword::This {
                go(SpecExpr::Var(SpecVariable::from_name("this"@, tok.span)), p, q1)
            } else if kw == Keyword::Super {
                let dot = sp_eat(t, q1, SpecTokenType::Dot);
                match dot.result {
                    Err(e) => stop(e, p, q1 + dot.used),
                    Ok(_) => {
                        let id = sp_identifier(t, q1 + dot.used);
                        match id.result {
                            Err(e) => stop(e, p, q1 + dot.used + id.used),
                            Ok(method) => go(
                                SpecExpr::Super {
                                    var: SpecVariable::from_name("super"@, tok.span),
                                    method,
                                },
                                p,
                                q1 + dot.used + id.used,
                            ),
                        }
                    },
                }
            } else {
                stop(SpecParserError::UnexpectedToken(tok.token_type, tok.span), p, q1)
            }
        },
        SpecTokenType::LeftParen => {
            let inner = sp_expression(t, p + 1);
            match inner.result {
                Err(e) => stop(e, p, p + 1 + inner.used),
                Ok(grouped) => {
                    let close = sp_eat(t, p + 1 + inner.used, SpecTokenType::RightParen);
                    match close.result {
                        Err(e) => stop(e, p, p + 1 + inner.used + close.used),
                        Ok(span) => go(
                            SpecExpr::Group {
                                span: Span { start: tok.span.start, end: span.end },
                                expr: Box::new(grouped),
                            },
                            p,
                            p + 1 + inner.used + close.used,
                        ),
                    }
                },
            }
        },
        SpecTokenType::Literal(SpecLiteral::String(s)) => go(
            lit(SpecLit::String(s), tok.span),
            p,
            q1,
        ),
        SpecTokenType::Literal(SpecLiteral::Number(n)) => go(
            lit(SpecLit::Number(n), tok.span),
            p,
            q1,
        ),
        SpecTokenType::Bang | SpecTokenType::Minus => {
            let operand = sp_expr_precedence(t, p + 1, Operator::Prefix);
            match operand.result {
                Err(e) => stop(e, p, p + 1 + operand.used),
                Ok(e) => go(
                    SpecExpr::Unary {
                        op_span: tok.span,
                        operator: if tok.token_type is Bang {
                            UnaryOp::Not
                        } else {
                            UnaryOp::Negative
                        },
                        operand: Box::new(e),
                    },
                    p,
                    p + 1 + operand.used,
                ),
            }
        },
        SpecTokenType::Identifier(name) => go(
            SpecExpr::Var(SpecVariable::from_name(name, tok.span)),
            p,
            q1,
        ),
        other => stop(
            SpecParserError::ExpectStructure {
                expected: "expression"@,
                found: other,
                span: tok.span,
            },
            p,
            q1,
        ),
    }
}

/// The infix forms after the operand `left`, as long as the next token is an
/// operator that takes it above the floor `floor`. Each form becomes the
/// operand of the next.
pub open spec fn sp_infix(t: Seq<SpecToken>, p: int, floor: Operator, left: SpecExpr) -> Step<
    SpecExpr,
>
    decreases remaining(t, p), 1nat,
{
    let tok = peek(t, p);
    match Operator::of_token(tok.token_type) {
        None => go(left, p, p),
        Some(next_op) => {
            if !next_op.spec_is_precedent_than(floor) {
                go(left, p, p)
            } else {
                let form = sp_infix_form(t, p + 1, tok, next_op, left);
                match form.result {
                    Err(e) => stop(e, p, p + 1 + form.used),
                    Ok(expr) => {
                        let rest = sp_infix(t, p + 1 + form.used, floor, expr);
                        Step { result: rest.result, used: 1 + form.used + rest.used }
                    },
                }
            }
        },
    }
}

/// One infix form after its operator: `tok` is the operator token, which
/// writes `next_op`; `q` is the index of the token after it, and `left` is
/// the left operand.
///
/// - `?`: an expression, `:`, and an operand above the ternary floor.
/// - `=`: `left` must be a variable or a property; the value is an operand
///   above the assignment floor, so assignment associates to the right.
/// - `(`: the arguments and `)`.
/// - `.`: the name of a property.
/// - a binary operator: its right operand, above the operator's own floor.
pub open spec fn sp_infix_form(
    t: Seq<SpecToken>,
    q: int,
    tok: SpecToken,
    next_op: Operator,
    left: SpecExpr,
) -> Step<SpecExpr>
    decreases remaining(t, q), 7nat,
{
    match next_op {
        Operator::Ternary => {
            let a = sp_expression(t, q);
            match a.result {
                Err(e) => stop(e, q, q + a.used),
                Ok(truthy) => {
                    let colon = sp_eat(t, q + a.used, SpecTokenType::Colon);
                    match colon.result {
                        Err(e) => stop(e, q, q + a.used + colon.used),
                        Ok(_) => {
                            let b = sp_expr_precedence(t, q + a.used + colon.used, next_op);
                            match b.result {
                                Err(e) => stop(e, q, q + a.used + colon.used + b.used),
                                Ok(falsy) => go(
                                    SpecExpr::Ternary {
                                        condition: Box::new(left),
                                        truthy: Box::new(truthy),
                                        falsy: Box::new(falsy),
                                    },
                                    q,
                                    q + a.used + colon.used + b.used,
                                ),
                            }
                        },
                    }
                },
            }
        },
        Operator::Assign => match left {
            SpecExpr::Var(var) => {
                let v = sp_expr_precedence(t, q, next_op);
                match v.result {
                    Err(e) => stop(e, q, q + v.used),
                    Ok(value) => go(SpecExpr::Assign { var, value: Box::new(value) }, q, q + v.used),
                }
            },
            SpecExpr::Get { object, field } => {
                let v = sp_expr_precedence(t, q, next_op);
                match v.result {
                    Err(e) => stop(e, q, q + v.used),
                    Ok(value) => go(
                        SpecExpr::SetField { object, field, value: Box::new(value) },
                        q,
                        q + v.used,
                    ),
                }
            },
            _ => stop(SpecParserError::InvalidLeftValue(left.span()), q, q),
        },
        Operator::FnCall => sp_fn_call(t, q, left),
        Operator::Dot => {
            let id = sp_identifier(t, q);
            match id.result {
                Err(e) => stop(e, q, q + id.used),
                Ok(field) => go(SpecExpr::Get { object: Box::new(left), field }, q, q + id.used),
            }
        },
        _ => match BinaryOp::of_token(tok.token_type) {
            None => stop(SpecParserError::UnexpectedToken(tok.token_type, tok.span), q, q),
            Some(operator) => {
                let r = sp_expr_precedence(t, q, next_op);
                match r.result {
                    Err(e) => stop(e, q, q + r.used),
                    Ok(right) => go(
                        SpecExpr::Binary {
                            operator,
                            left: Box::new(left),
                            right: Box::new(right),
                        },
                        q,
                        q + r.used,
                    ),
                }
            },
        },
    }
}

/// A call of `callee`, after its `(`: the arguments, separated by commas,
/// and the `)`, whose end is the end of the call.
pub open spec fn sp_fn_call(t: Seq<SpecToken>, q: int, callee: SpecExpr) -> Step<SpecExpr>
    decreases remaining(t, q), 6nat,
{
    let args = if peek(t, q).token_type is RightParen {
        go(Seq::empty(), q, q)
    } else {
        sp_args(t, q, Seq::empty())
    };
    match args.result {
        Err(e) => stop(e, q, q + args.used),
        Ok(arguments) => {
            let close = sp_eat(t, q + args.used, SpecTokenType::RightParen);
            match close.result {
                Err(e) => stop(e, q, q + args.used + close.used),
                Ok(span) => go(
                    SpecExpr::FnCall { callee: Box::new(callee), arguments, end: span.end },
                    q,
                    q + args.used + close.used,
                ),
            }
        },
    }
}

/// The arguments of a call after the first token was seen not to be `)`:
/// expressions separated by commas, appended to `acc`.
pub open spec fn sp_args(t: Seq<SpecToken>, p: int, acc: Seq<SpecExpr>) -> Step<Seq<SpecExpr>>
    decreases remaining(t, p), 5nat,
{
    let e = sp_expression(t, p);
    match e.result {
        Err(err) => stop(err, p, p + e.used),
        Ok(arg) => {
            if peek(t, p + e.used).token_type is Comma {
                let rest = sp_args(t, p + e.used + 1, acc.push(arg));
                Step { result: rest.result, used: e.used + 1 + rest.used }
            } else {
                go(acc.push(arg), p, p + e.used)
            }
        },
    }
}

/// Takes the `;` that ends a statement parsed from `p` to `q`.
#[verifier::opaque]
pub open spec fn end_statement(t: Seq<SpecToken>, p: int, q: int, stmt: SpecStmt) -> Parsed<
    SpecStmt,
> {
    let semi = sp_eat(t, q, SpecTokenType::Semicolon);
    match semi.result {
        Err(e) => fail(e, p, q + semi.used, Seq::empty()),
        Ok(_) => done(stmt, p, q + semi.used, Seq::empty()),
    }
}

/// `var name ( = expression )? ;`
#[verifier::opaque]
pub open spec fn sp_var_decl(t: Seq<SpecToken>, p: int) -> Parsed<SpecStmt> {
    let q1 = p + step(t, p);
    let tok = peek(t, q1);
    let q2 = q1 + step(t, q1);
    match tok.token_type {
        SpecTokenType::Identifier(name) => {
            let var = SpecVariable::from_name(name, tok.span);
            if peek(t, q2).token_type is Equal {
                let init = sp_expression(t, q2 + 1);
                match init.result {
                    Err(e) => fail(e, p, q2 + 1 + init.used, Seq::empty()),
                    Ok(v) => end_statement(
                        t,
                        p,
                        q2 + 1 + init.used,
                        SpecStmt::Var { var, initializer: Some(v) },
                    ),
                }
            } else {
                end_statement(t, p, q2, SpecStmt::Var { var, initializer: None })
            }
        },
        other => fail(
            SpecParserError::ExpectStructure {
                expected: "identifier"@,
                found: other,
                span: tok.span,
            },
            p,
            q2,
            Seq::empty(),
        ),
    }
}

/// `print expression ;`
#[verifier::opaque]
pub open spec fn sp_print(t: Seq<SpecToken>, p: int) -> Parsed<SpecStmt> {
    let q1 = p + step(t, p);
    let e = sp_expression(t, q1);
    match e.result {
        Err(err) => fail(err, p, q1 + e.used, Seq::empty()),
        Ok(expr) => end_statement(t, p, q1 + e.used, SpecStmt::Print(expr)),
    }
}

/// `expression ;`
#[verifier::opaque]
pub open spec fn sp_expression_statement(t: Seq<SpecToken>, p: int) -> Parsed<SpecStmt> {
    let e = sp_expression(t, p);
    match e.result {
        Err(err) => fail(err, p, p + e.used, Seq::empty()),
        Ok(expr) => end_statement(t, p, p + e.used, SpecStmt::Expression(expr)),
    }
}

/// `return expression? ;`
#[verifier::opaque]
pub open spec fn sp_return(t: Seq<SpecToken>, p: int) -> Parsed<SpecStmt> {
    let tok = peek(t, p);
    let q1 = p + step(t, p);
    if peek(t, q1).token_type is Semicolon {
        end_statement(t, p, q1, SpecStmt::Return { span: tok.span, expr: None })
    } else {
        let e = sp_expression(t, q1);
        match e.result {
            Err(err) => fail(err, p, q1 + e.used, Seq::empty()),
            Ok(expr) => end_statement(
                t,
                p,
                q1 + e.used,
                SpecStmt::Return { span: tok.span, expr: Some(expr) },
            ),
        }
    }
}

/// The block of the given statements, with no slot counted yet.
pub open spec fn new_block(statements: Seq<SpecStmt>) -> SpecStmt {
    SpecStmt::Block { statements, num_of_locals: 0 }
}

/// What a `for` statement is rewritten to: the loop runs `body` and then the
/// increment while the condition holds (always, if there is none), after the
/// initializer has run once in a block of its own.
pub open spec fn desugar_for(
    initializer: Option<SpecStmt>,
    condition: Option<SpecExpr>,
    increment: Option<SpecExpr>,
    body: SpecStmt,
) -> SpecStmt {
    let inner = SpecStmt::While {
        condition: match condition {
            Some(c) => c,
            None => lit(SpecLit::Bool(true), Span::spec_dummy()),
        },
        body: Box::new(
            match increment {
                Some(inc) => new_block(seq![body, SpecStmt::Expression(inc)]),
                None => body,
            },
        ),
    };
    match initializer {
        Some(init) => new_block(seq![init, inner]),
        None => inner,
    }
}

/// A declaration: `var`, `fun`, `class`, or a statement.
pub open spec fn sp_declaration(t: Seq<SpecToken>, p: int) -> Parsed<SpecStmt>
    decreases remaining(t, p), 7nat,
{
    match peek(t, p).token_type {
        SpecTokenType::Keyword(kw) => {
            if kw == Keyword::Var {
                sp_var_decl(t, p)
            } else if kw == Keyword::Fun {
                let f = sp_function(t, p + 1);
                Parsed {
                    result: match f.result {
                        Ok(decl) => Ok(SpecStmt::FnDecl(decl)),
                        Err(e) => Err(e),
                    },
                    used: 1 + f.used,
                    errors: f.errors,
                }
            } else if kw == Keyword::Class {
                sp_class(t, p)
            } else {
                sp_statement(t, p)
            }
        },
        _ => sp_statement(t, p),
    }
}

/// A statement: `print`, a block, `if`, `while`, `for`, `return`, or an
/// expression statement.
pub open spec fn sp_statement(t: Seq<SpecToken>, p: int) -> Parsed<SpecStmt>
    decreases remaining(t, p), 6nat,
{
    match peek(t, p).token_type {
        SpecTokenType::Keyword(kw) => {
            if kw == Keyword::Print {
                sp_print(t, p)
            } else if kw == Keyword::If {
                sp_if(t, p)
            } else if kw == Keyword::While {
                sp_while(t, p)
            } else if kw == Keyword::For {
                sp_for(t, p)
            } else if kw == Keyword::Return {
                sp_return(t, p)
            } else {
                sp_expression_statement(t, p)
            }
        },
        SpecTokenType::LeftBrace => {
            let b = sp_block(t, p);
            Parsed {
                result: match b.result {
                    Ok(stmts) => Ok(new_block(stmts)),
                    Err(e) => Err(e),
                },
                used: b.used,
                errors: b.errors,
            }
        },
        _ => sp_expression_statement(t, p),
    }
}

/// `( expression )` after a keyword at `p`: the condition of `if` or `while`.
#[verifier::opaque]
pub open spec fn sp_condition(t: Seq<SpecToken>, p: int) -> Step<SpecExpr> {
    let q1 = p + step(t, p);
    let open = sp_eat(t, q1, SpecTokenType::LeftParen);
    match open.result {
        Err(e) => stop(e, p, q1 + open.used),
        Ok(_) => {
            let c = sp_expression(t, q1 + open.used);
            match c.result {
                Err(e) => stop(e, p, q1 + open.used + c.used),
                Ok(condition) => {
                    let close = sp_eat(t, q1 + open.used + c.used, SpecTokenType::RightParen);
                    match close.result {
                        Err(e) => stop(e, p, q1 + open.used + c.used + close.used),
                        Ok(_) => go(condition, p, q1 + open.used + c.used + close.used),
                    }
                },
            }
        },
    }
}

/// `if ( expression ) statement ( else statement )?`
pub open spec fn sp_if(t: Seq<SpecToken>, p: int) -> Parsed<SpecStmt>
    decreases remaining(t, p), 5nat,
{
    proof {
        reveal(sp_condition);
    }
    let c = sp_condition(t, p);
    match c.result {
        Err(e) => fail(e, p, p + c.used, Seq::empty()),
        Ok(condition) => {
            let th = sp_statement(t, p + c.used);
            match th.result {
                Err(e) => fail(e, p, p + c.used + th.used, th.errors),
                Ok(then_branch) => {
                    let q = p + c.used + th.used;
                    if peek(t, q).token_type == SpecTokenType::Keyword(Keyword::Else) {
                        let el = sp_statement(t, q + 1);
                        match el.result {
                            Err(e) => fail(e, p, q + 1 + el.used, th.errors + el.errors),
                            Ok(else_branch) => done(
                                SpecStmt::If {
                                    condition,
                                    then_branch: Box::new(then_branch),
                                    else_branch: Some(Box::new(else_branch)),
                                },
                                p,
                                q + 1 + el.used,
                                th.errors + el.errors,
                            ),
                        }
                    } else {
                        done(
                            SpecStmt::If {
                                condition,
                                then_branch: Box::new(then_branch),
                                else_branch: None,
                            },
                            p,
                            q,
                            th.errors,
                        )
                    }
                },
            }
        },
    }
}

/// `while ( expression ) statement`
pub open spec fn sp_while(t: Seq<SpecToken>, p: int) -> Parsed<SpecStmt>
    decreases remaining(t, p), 5nat,
{
    proof {
        reveal(sp_condition);
    }
    let c = sp_condition(t, p);
    match c.result {
        Err(e) => fail(e, p, p + c.used, Seq::empty()),
        Ok(condition) => {
            let b = sp_statement(t, p + c.used);
            match b.result {
                Err(e) => fail(e, p, p + c.used + b.used, b.errors),
                Ok(body) => done(
                    SpecStmt::While { condition, body: Box::new(body) },
                    p,
                    p + c.used + b.used,
                    b.errors,
                ),
            }
        },
    }
}

/// The initializer of a `for` statement, at `p`: `;`, a variable
/// declaration, or an expression statement.
#[verifier::opaque]
pub open spec fn sp_for_init(t: Seq<SpecToken>, p: int) -> Parsed<Option<SpecStmt>> {
    let token_type = peek(t, p).token_type;
    if token_type is Semicolon {
        done(None, p, p + 1, Seq::empty())
    } else {
        let s = if token_type == SpecTokenType::Keyword(Keyword::Var) {
            sp_var_decl(t, p)
        } else {
            sp_expression_statement(t, p)
        };
        Parsed {
            result: match s.result {
                Ok(stmt) => Ok(Some(stmt)),
                Err(e) => Err(e),
            },
            used: s.used,
            errors: s.errors,
        }
    }
}

/// An optional expression at `p`, absent if the token there is `closer`.
#[verifier::opaque]
pub open spec fn sp_for_clause(t: Seq<SpecToken>, p: int, closer: SpecTokenType) -> Step<
    Option<SpecExpr>,
> {
    if peek(t, p).token_type == closer {
        go(None, p, p)
    } else {
        let e = sp_expression(t, p);
        Step {
            result: match e.result {
                Ok(expr) => Ok(Some(expr)),
                Err(err) => Err(err),
            },
            used: e.used,
        }
    }
}

/// `( initializer condition? ; increment? )` after `for` at `p`.
#[verifier::opaque]
pub open spec fn sp_for_header(t: Seq<SpecToken>, p: int) -> Step<
    (Option<SpecStmt>, Option<SpecExpr>, Option<SpecExpr>),
> {
    let q1 = p + step(t, p);
    let open = sp_eat(t, q1, SpecTokenType::LeftParen);
    match open.result {
        Err(e) => stop(e, p, q1 + open.used),
        Ok(_) => {
            let q2 = q1 + open.used;
            let init = sp_for_init(t, q2);
            match init.result {
                Err(e) => stop(e, p, q2 + init.used),
                Ok(initializer) => {
                    let q3 = q2 + init.used;
                    let cond = sp_for_clause(t, q3, SpecTokenType::Semicolon);
                    match cond.result {
                        Err(e) => stop(e, p, q3 + cond.used),
                        Ok(condition) => {
                            let q4 = q3 + cond.used;
                            let semi = sp_eat(t, q4, SpecTokenType::Semicolon);
                            match semi.result {
                                Err(e) => stop(e, p, q4 + semi.used),
                                Ok(_) => {
                                    let q5 = q4 + semi.used;
                                    let inc = sp_for_clause(t, q5, SpecTokenType::RightParen);
                                    match inc.result {
                                        Err(e) => stop(e, p, q5 + inc.used),
                                        Ok(increment) => {
                                            let q6 = q5 + inc.used;
                                            let close = sp_eat(t, q6, SpecTokenType::RightParen);
                                            match close.result {
                                                Err(e) => stop(e, p, q6 + close.used),
                                                Ok(_) => go(
                                                    (initializer, condition, increment),
                                                    p,
                                                    q6 + close.used,
                                                ),
                                            }
                                        },
                                    }
                                },
                            }
                        },
                    }
                },
            }
        },
    }
}

/// `for ( initializer condition? ; increment? ) statement`, rewritten by
/// [`desugar_for`].
pub open spec fn sp_for(t: Seq<SpecToken>, p: int) -> Parsed<SpecStmt>
    decreases remaining(t, p), 5nat,
{
    proof {
        reveal(sp_for_header);
    }
    let h = sp_for_header(t, p);
    match h.result {
        Err(e) => fail(e, p, p + h.used, Seq::empty()),
        Ok(header) => {
            let b = sp_statement(t, p + h.used);
            match b.result {
                Err(e) => fail(e, p, p + h.used + b.used, b.errors),
                Ok(body) => done(
                    desugar_for(header.0, header.1, header.2, body),
                    p,
                    p + h.used + b.used,
                    b.errors,
                ),
            }
        },
    }
}

/// `name ( parameters? )` at `p`: the head of a function or method. The
/// third component is the span of the parenthesised list.
#[verifier::opaque]
pub open spec fn sp_fn_head(t: Seq<SpecToken>, p: int) -> Step<
    (SpecIdent, Seq<SpecVariable>, Span),
> {
    let id = sp_identifier(t, p);
    match id.result {
        Err(e) => stop(e, p, p + id.used),
        Ok(ident) => {
            let q1 = p + id.used;
            let open = sp_eat(t, q1, SpecTokenType::LeftParen);
            match open.result {
                Err(e) => stop(e, p, q1 + open.used),
                Ok(start) => {
                    let q2 = q1 + open.used;
                    let params = if peek(t, q2).token_type is RightParen {
                        go(Seq::empty(), q2, q2)
                    } else {
                        sp_params(t, q2, Seq::empty())
                    };
                    match params.result {
                        Err(e) => stop(e, p, q2 + params.used),
                        Ok(parameters) => {
                            let q3 = q2 + params.used;
                            let close = sp_eat(t, q3, SpecTokenType::RightParen);
                            match close.result {
                                Err(e) => stop(e, p, q3 + close.used),
                                Ok(end) => go(
                                    (ident, parameters, start.spec_extends_with(end)),
                                    p,
                                    q3 + close.used,
                                ),
                            }
                        },
                    }
                },
            }
        },
    }
}

/// The diagnostic for a parameter list that is too long, if it is.
pub open spec fn params_check(parameters: Seq<SpecVariable>, span: Span) -> Seq<SpecParserError> {
    if parameters.len() > 255 {
        seq![SpecParserError::TooManyParameters(span)]
    } else {
        Seq::empty()
    }
}

/// `name ( parameters? ) block`: a function or method, after `fun` if any.
/// More than 255 parameters are recorded as a diagnostic; parsing goes on.
pub open spec fn sp_function(t: Seq<SpecToken>, p: int) -> Parsed<SpecFnDecl>
    decreases remaining(t, p), 5nat,
{
    proof {
        reveal(sp_fn_head);
    }
    let h = sp_fn_head(t, p);
    match h.result {
        Err(e) => fail(e, p, p + h.used, Seq::empty()),
        Ok(head) => {
            let errs = params_check(head.1, head.2);
            let b = sp_block(t, p + h.used);
            match b.result {
                Err(e) => fail(e, p, p + h.used + b.used, errs + b.errors),
                Ok(body) => done(
                    SpecFnDecl {
                        var: SpecVariable::from_ident(head.0),
                        params: head.1,
                        body,
                        num_of_locals: 0,
                    },
                    p,
                    p + h.used + b.used,
                    errs + b.errors,
                ),
            }
        },
    }
}

/// `class name ( < name )? {` at `p`: the head of a class declaration.
#[verifier::opaque]
pub open spec fn sp_class_head(t: Seq<SpecToken>, p: int) -> Step<(SpecIdent, Option<SpecIdent>)> {
    let q1 = p + step(t, p);
    let id = sp_identifier(t, q1);
    match id.result {
        Err(e) => stop(e, p, q1 + id.used),
        Ok(ident) => {
            let q2 = q1 + id.used;
            let sup = if peek(t, q2).token_type is Less {
                let s = sp_identifier(t, q2 + 1);
                Step {
                    result: match s.result {
                        Ok(name) => Ok(Some(name)),
                        Err(e) => Err(e),
                    },
                    used: 1 + s.used,
                }
            } else {
                go(None, q2, q2)
            };
            match sup.result {
                Err(e) => stop(e, p, q2 + sup.used),
                Ok(super_class) => {
                    let q3 = q2 + sup.used;
                    let open = sp_eat(t, q3, SpecTokenType::LeftBrace);
                    match open.result {
                        Err(e) => stop(e, p, q3 + open.used),
                        Ok(_) => go((ident, super_class), p, q3 + open.used),
                    }
                },
            }
        },
    }
}

/// `class name ( < name )? { method* }`
pub open spec fn sp_class(t: Seq<SpecToken>, p: int) -> Parsed<SpecStmt>
    decreases remaining(t, p), 5nat,
{
    proof {
        reveal(sp_class_head);
    }
    let h = sp_class_head(t, p);
    match h.result {
        Err(e) => fail(e, p, p + h.used, Seq::empty()),
        Ok(head) => {
            let m = sp_methods(t, p + h.used, Seq::empty());
            match m.result {
                Err(e) => fail(e, p, p + h.used + m.used, m.errors),
                Ok(methods) => {
                    let q = p + h.used + m.used;
                    let close = sp_eat(t, q, SpecTokenType::RightBrace);
                    match close.result {
                        Err(e) => fail(e, p, q + close.used, m.errors),
                        Ok(_) => done(
                            SpecStmt::ClassDecl {
                                var: SpecVariable::from_ident(head.0),
                                super_class: match head.1 {
                                    Some(s) => Some(SpecVariable::from_ident(s)),
                                    None => None,
                                },
                                methods,
                            },
                            p,
                            q + close.used,
                            m.errors,
                        ),
                    }
                },
            }
        },
    }
}

/// The methods of a class body, up to its `}`, appended to `acc`.
pub open spec fn sp_methods(t: Seq<SpecToken>, p: int, acc: Seq<SpecFnDecl>) -> Parsed<
    Seq<SpecFnDecl>,
>
    decreases remaining(t, p), 6nat,
{
    if peek(t, p).token_type is RightBrace {
        done(acc, p, p, Seq::empty())
    } else {
        let f = sp_function(t, p);
        match f.result {
            Err(e) => fail(e, p, p + f.used, f.errors),
            Ok(method) => {
                if !advances(t, p, f.used) {
                    done(acc.push(method), p, p, f.errors)
                } else {
                    let rest = sp_methods(t, p + f.used, acc.push(method));
                    Parsed {
                        result: rest.result,
                        used: f.used + rest.used,
                        errors: f.errors + rest.errors,
                    }
                }
            },
        }
    }
}

/// A block: the token at `p`, which opens it, then declarations up to the
/// `}`. A declaration that fails is recorded and skipped.
pub open spec fn sp_block(t: Seq<SpecToken>, p: int) -> Parsed<Seq<SpecStmt>>
    decreases remaining(t, p), 5nat,
{
    if !(0 <= p < t.len()) {
        let tok = eof_token(t);
        fail(SpecParserError::UnexpectedToken(tok.token_type, tok.span), p, p, Seq::empty())
    } else {
        let items = sp_items(t, p + 1, true, Seq::empty(), Seq::empty());
        let q = p + 1 + items.used;
        let close = sp_eat(t, q, SpecTokenType::RightBrace);
        match close.result {
            Err(e) => fail(e, p, q + close.used, items.errors),
            Ok(_) => done(items.stmts, p, q + close.used, items.errors),
        }
    }
}

/// A run of declarations with error recovery: up to the end of input, and
/// inside a block up to its `}`. The statements are appended to `acc`. A
/// declaration that fails leaves its error in the diagnostics, after `errs`,
/// and parsing resumes where [`sync_used`] says.
pub open spec fn sp_items(
    t: Seq<SpecToken>,
    p: int,
    in_block: bool,
    acc: Seq<SpecStmt>,
    errs: Seq<SpecParserError>,
) -> Items
    decreases remaining(t, p), 8nat,
{
    let token_type = peek(t, p).token_type;
    if token_type is Eof || (in_block && token_type is RightBrace) {
        Items { stmts: acc, used: 0, errors: errs }
    } else {
        let d = sp_declaration(t, p);
        if !advances(t, p, d.used) {
            Items { stmts: acc, used: 0, errors: errs }
        } else {
            match d.result {
                Ok(stmt) => {
                    let rest = sp_items(t, p + d.used, in_block, acc.push(stmt), errs + d.errors);
                    Items { stmts: rest.stmts, used: d.used + rest.used, errors: rest.errors }
                },
                Err(e) => {
                    let skipped = sync_used(t, p + d.used);
                    let rest = sp_items(
                        t,
                        p + d.used + skipped,
                        in_block,
                        acc,
                        (errs + d.errors).push(e),
                    );
                    Items {
                        stmts: rest.stmts,
                        used: d.used + skipped + rest.used,
                        errors: rest.errors,
                    }
                },
            }
        }
    }
}

/// The program that a sequence of tokens spells: its statements, or, if any
/// diagnostic was recorded, all the diagnostics in the order they arose.
pub open spec fn sp_parse(t: Seq<SpecToken>) -> Result<Seq<SpecStmt>, Seq<SpecParserError>> {
    let items = sp_items(t, 0, false, Seq::empty(), Seq::empty());
    if items.errors.len() > 0 {
        Err(items.errors)
    } else {
        Ok(items.stmts)
    }
}

} // verus!
