//! Every program that the parser makes has no variable bound: binding is
//! the resolver's work. With the resolver this gives that, in a program
//! that comes from a source text and resolves without a diagnostic, a
//! variable is bound if and only if a local of its name is in sight.

use vstd::prelude::*;
use crate::ast::expr::SpecExpr;
use crate::ast::ident::SpecVariable;
use crate::ast::stmt::{SpecFnDecl, SpecStmt};
use crate::grammar::{
    advances, desugar_for, end_statement, peek, remaining, sp_args, sp_block, sp_class,
    sp_class_head, sp_condition, sp_declaration, sp_expr_precedence, sp_expression,
    sp_expression_statement, sp_fn_call, sp_fn_head, sp_for, sp_for_clause, sp_for_header,
    sp_for_init, sp_function, sp_identifier, sp_if, sp_infix, sp_infix_form, sp_items, sp_methods,
    sp_params, sp_parse, sp_prefix, sp_print, sp_return, sp_statement, sp_var_decl, sp_while,
    step, sync_used,
};
use crate::lexer::token_stream;
use crate::precedence::Operator;
use crate::resolution::{res_program, SpecResolver};
use crate::resolution_binding::{
    expr_unbound, exprs_unbound, fn_unbound, fns_unbound, lemma_binds_of_program, stmt_unbound,
    stmts_settled, stmts_unbound, unbound,
};
use crate::token::{Keyword, SpecToken, SpecTokenType};

verus! {

/// That no variable of the first expressions is bound depends on them
/// alone.
pub proof fn lemma_exprs_unbound_same(a: Seq<SpecExpr>, b: Seq<SpecExpr>, n: nat)
    requires
        n <= a.len(),
        n <= b.len(),
        forall|i: int| 0 <= i < n ==> a[i] == b[i],
        exprs_unbound(a, n),
    ensures
        exprs_unbound(b, n),
    decreases n,
{
    if n > 0 {
        lemma_exprs_unbound_same(a, b, (n - 1) as nat);
    }
}

pub proof fn lemma_stmts_unbound_same(a: Seq<SpecStmt>, b: Seq<SpecStmt>, n: nat)
    requires
        n <= a.len(),
        n <= b.len(),
        forall|i: int| 0 <= i < n ==> a[i] == b[i],
        stmts_unbound(a, n),
    ensures
        stmts_unbound(b, n),
    decreases n,
{
    if n > 0 {
        lemma_stmts_unbound_same(a, b, (n - 1) as nat);
    }
}

pub proof fn lemma_fns_unbound_same(a: Seq<SpecFnDecl>, b: Seq<SpecFnDecl>, n: nat)
    requires
        n <= a.len(),
        n <= b.len(),
        forall|i: int| 0 <= i < n ==> a[i] == b[i],
        fns_unbound(a, n),
    ensures
        fns_unbound(b, n),
    decreases n,
{
    if n > 0 {
        lemma_fns_unbound_same(a, b, (n - 1) as nat);
    }
}

/// No variable of a whole expression that the parser makes is bound.
pub proof fn lemma_expression_unbound(t: Seq<SpecToken>, p: int)
    ensures
        sp_expression(t, p).result matches Ok(e) ==> expr_unbound(e),
    decreases remaining(t, p), 4nat,
{
    lemma_expr_precedence_unbound(t, p, Operator::Lowest);
}

pub proof fn lemma_expr_precedence_unbound(t: Seq<SpecToken>, p: int, op: Operator)
    ensures
        sp_expr_precedence(t, p, op).result matches Ok(e) ==> expr_unbound(e),
    decreases remaining(t, p), 3nat,
{
    lemma_prefix_unbound(t, p);
    let pre = sp_prefix(t, p);
    match pre.result {
        Ok(left) => {
            lemma_infix_unbound(t, p + pre.used, op, left);
        },
        Err(_) => {},
    }
}

pub proof fn lemma_prefix_unbound(t: Seq<SpecToken>, p: int)
    ensures
        sp_prefix(t, p).result matches Ok(e) ==> expr_unbound(e),
    decreases remaining(t, p), 2nat,
{
    let tok = peek(t, p);
    let q1 = p + step(t, p);
    match tok.token_type {
        SpecTokenType::Keyword(kw) => {},
        SpecTokenType::LeftParen => {
            lemma_expression_unbound(t, p + 1);
        },
        SpecTokenType::Bang | SpecTokenType::Minus => {
            lemma_expr_precedence_unbound(t, p + 1, Operator::Prefix);
        },
        _ => {},
    }
}

pub proof fn lemma_infix_unbound(t: Seq<SpecToken>, p: int, floor: Operator, left: SpecExpr)
    requires
        expr_unbound(left),
    ensures
        sp_infix(t, p, floor, left).result matches Ok(e) ==> expr_unbound(e),
    decreases remaining(t, p), 1nat,
{
    let tok = peek(t, p);
    match Operator::of_token(tok.token_type) {
        None => {},
        Some(next_op) => {
            if next_op.spec_is_precedent_than(floor) {
                lemma_infix_form_unbound(t, p + 1, tok, next_op, left);
                let form = sp_infix_form(t, p + 1, tok, next_op, left);
                match form.result {
                    Ok(expr) => {
                        lemma_infix_unbound(t, p + 1 + form.used, floor, expr);
                    },
                    Err(_) => {},
                }
            }
        },
    }
}

pub proof fn lemma_infix_form_unbound(
    t: Seq<SpecToken>,
    q: int,
    tok: SpecToken,
    next_op: Operator,
    left: SpecExpr,
)
    requires
        expr_unbound(left),
    ensures
        sp_infix_form(t, q, tok, next_op, left).result matches Ok(e) ==> expr_unbound(e),
    decreases remaining(t, q), 7nat,
{
    match next_op {
        Operator::Ternary => {
            lemma_expression_unbound(t, q);
            let a = sp_expression(t, q);
            let colon = crate::grammar::sp_eat(t, q + a.used, SpecTokenType::Colon);
            lemma_expr_precedence_unbound(t, q + a.used + colon.used, next_op);
        },
        Operator::Assign => {
            lemma_expr_precedence_unbound(t, q, next_op);
        },
        Operator::FnCall => {
            lemma_fn_call_unbound(t, q, left);
        },
        Operator::Dot => {},
        _ => {
            lemma_expr_precedence_unbound(t, q, next_op);
        },
    }
}

pub proof fn lemma_fn_call_unbound(t: Seq<SpecToken>, q: int, callee: SpecExpr)
    requires
        expr_unbound(callee),
    ensures
        sp_fn_call(t, q, callee).result matches Ok(e) ==> expr_unbound(e),
    decreases remaining(t, q), 6nat,
{
    let args = if peek(t, q).token_type is RightParen {
        crate::grammar::go(Seq::<SpecExpr>::empty(), q, q)
    } else {
        lemma_args_unbound(t, q, Seq::empty());
        sp_args(t, q, Seq::empty())
    };
    match args.result {
        Ok(arguments) => {
            assert(exprs_unbound(arguments, arguments.len()));
            let close = crate::grammar::sp_eat(t, q + args.used, SpecTokenType::RightParen);
            match close.result {
                Ok(span) => {
                    let call = SpecExpr::FnCall {
                        callee: Box::new(callee),
                        arguments,
                        end: span.end,
                    };
                    assert(expr_unbound(call));
                },
                Err(_) => {},
            }
        },
        Err(_) => {},
    }
}

pub proof fn lemma_args_unbound(t: Seq<SpecToken>, p: int, acc: Seq<SpecExpr>)
    requires
        exprs_unbound(acc, acc.len()),
    ensures
        sp_args(t, p, acc).result matches Ok(args) ==> exprs_unbound(args, args.len()),
    decreases remaining(t, p), 5nat,
{
    lemma_expression_unbound(t, p);
    let e = sp_expression(t, p);
    match e.result {
        Ok(arg) => {
            let acc2 = acc.push(arg);
            lemma_exprs_unbound_same(acc, acc2, acc.len());
            assert(exprs_unbound(acc2, acc2.len()));
            if peek(t, p + e.used).token_type is Comma {
                lemma_args_unbound(t, p + e.used + 1, acc2);
            }
        },
        Err(_) => {},
    }
}

pub proof fn lemma_var_decl_unbound(t: Seq<SpecToken>, p: int)
    ensures
        sp_var_decl(t, p).result matches Ok(s) ==> stmt_unbound(s),
{
    reveal(sp_var_decl);
    reveal(end_statement);
    let q1 = p + step(t, p);
    let q2 = q1 + step(t, q1);
    lemma_expression_unbound(t, q2 + 1);
}

pub proof fn lemma_print_unbound(t: Seq<SpecToken>, p: int)
    ensures
        sp_print(t, p).result matches Ok(s) ==> stmt_unbound(s),
{
    reveal(sp_print);
    reveal(end_statement);
    lemma_expression_unbound(t, p + step(t, p));
}

pub proof fn lemma_expression_statement_unbound(t: Seq<SpecToken>, p: int)
    ensures
        sp_expression_statement(t, p).result matches Ok(s) ==> stmt_unbound(s),
{
    reveal(sp_expression_statement);
    reveal(end_statement);
    lemma_expression_unbound(t, p);
}

pub proof fn lemma_return_unbound(t: Seq<SpecToken>, p: int)
    ensures
        sp_return(t, p).result matches Ok(s) ==> stmt_unbound(s),
{
    reveal(sp_return);
    reveal(end_statement);
    lemma_expression_unbound(t, p + step(t, p));
}

pub proof fn lemma_condition_unbound(t: Seq<SpecToken>, p: int)
    ensures
        sp_condition(t, p).result matches Ok(e) ==> expr_unbound(e),
{
    reveal(sp_condition);
    let q1 = p + step(t, p);
    let open = crate::grammar::sp_eat(t, q1, SpecTokenType::LeftParen);
    lemma_expression_unbound(t, q1 + open.used);
}

pub proof fn lemma_for_header_unbound(t: Seq<SpecToken>, p: int)
    ensures
        sp_for_header(t, p).result matches Ok(h) ==> (h.0 matches Some(s) ==> stmt_unbound(s)) && (
        h.1 matches Some(e) ==> expr_unbound(e)) && (h.2 matches Some(e) ==> expr_unbound(e)),
{
    reveal(sp_for_header);
    reveal(sp_for_init);
    reveal(sp_for_clause);
    let q1 = p + step(t, p);
    let open = crate::grammar::sp_eat(t, q1, SpecTokenType::LeftParen);
    let q2 = q1 + open.used;
    lemma_var_decl_unbound(t, q2);
    lemma_expression_statement_unbound(t, q2);
    let init = sp_for_init(t, q2);
    let q3 = q2 + init.used;
    lemma_expression_unbound(t, q3);
    let cond = sp_for_clause(t, q3, SpecTokenType::Semicolon);
    let q4 = q3 + cond.used;
    let semi = crate::grammar::sp_eat(t, q4, SpecTokenType::Semicolon);
    let q5 = q4 + semi.used;
    lemma_expression_unbound(t, q5);
}

/// No variable of what a `for` statement is rewritten to is bound if none
/// of its parts is.
pub proof fn lemma_desugar_unbound(
    initializer: Option<SpecStmt>,
    condition: Option<SpecExpr>,
    increment: Option<SpecExpr>,
    body: SpecStmt,
)
    requires
        initializer matches Some(s) ==> stmt_unbound(s),
        condition matches Some(e) ==> expr_unbound(e),
        increment matches Some(e) ==> expr_unbound(e),
        stmt_unbound(body),
    ensures
        stmt_unbound(desugar_for(initializer, condition, increment, body)),
{
    let test = match condition {
        Some(c) => c,
        None => crate::grammar::lit(crate::ast::expr::SpecLit::Bool(true), crate::span::Span::spec_dummy()),
    };
    assert(expr_unbound(test));
    let repeated = match increment {
        Some(inc) => {
            let list = seq![body, SpecStmt::Expression(inc)];
            assert(list[0] == body && list[1] == SpecStmt::Expression(inc));
            assert(stmt_unbound(list[1]));
            assert(stmts_unbound(list, 0));
            assert(stmts_unbound(list, 1));
            assert(stmts_unbound(list, 2));
            let block = crate::grammar::new_block(list);
            assert(stmt_unbound(block));
            block
        },
        None => body,
    };
    assert(stmt_unbound(repeated));
    let inner = SpecStmt::While { condition: test, body: Box::new(repeated) };
    assert(stmt_unbound(inner));
    match initializer {
        Some(init) => {
            let list = seq![init, inner];
            assert(list[0] == init && list[1] == inner);
            assert(stmts_unbound(list, 0));
            assert(stmts_unbound(list, 1));
            assert(stmts_unbound(list, 2));
            assert(stmt_unbound(crate::grammar::new_block(list)));
        },
        None => {},
    }
}

/// No parameter that the parser takes is bound.
pub proof fn lemma_params_unbound(t: Seq<SpecToken>, p: int, acc: Seq<SpecVariable>)
    requires
        forall|i: int| 0 <= i < acc.len() ==> unbound(#[trigger] acc[i]),
    ensures
        sp_params(t, p, acc).result matches Ok(ps) ==> forall|i: int|
            0 <= i < ps.len() ==> unbound(#[trigger] ps[i]),
    decreases remaining(t, p),
{
    match sp_identifier(t, p).result {
        Ok(ident) => {
            let acc2 = acc.push(SpecVariable::from_ident(ident));
            assert forall|i: int| 0 <= i < acc2.len() implies unbound(#[trigger] acc2[i]) by {
                if i < acc.len() {
                    assert(acc2[i] == acc[i]);
                }
            }
            if peek(t, p + 1).token_type is Comma {
                lemma_params_unbound(t, p + 2, acc2);
            }
        },
        Err(_) => {},
    }
}

pub proof fn lemma_fn_head_unbound(t: Seq<SpecToken>, p: int)
    ensures
        sp_fn_head(t, p).result matches Ok(h) ==> forall|i: int|
            0 <= i < h.1.len() ==> unbound(#[trigger] h.1[i]),
{
    reveal(sp_fn_head);
    let id = sp_identifier(t, p);
    let q1 = p + id.used;
    let open = crate::grammar::sp_eat(t, q1, SpecTokenType::LeftParen);
    let q2 = q1 + open.used;
    lemma_params_unbound(t, q2, Seq::empty());
}

/// No variable of a declaration that the parser makes is bound.
pub proof fn lemma_declaration_unbound(t: Seq<SpecToken>, p: int)
    ensures
        sp_declaration(t, p).result matches Ok(s) ==> stmt_unbound(s),
    decreases remaining(t, p), 7nat,
{
    lemma_var_decl_unbound(t, p);
    match peek(t, p).token_type {
        SpecTokenType::Keyword(kw) => {
            if kw == Keyword::Var {
            } else if kw == Keyword::Fun {
                lemma_function_unbound(t, p + 1);
            } else if kw == Keyword::Class {
                lemma_class_unbound(t, p);
            } else {
                lemma_statement_unbound(t, p);
            }
        },
        _ => {
            lemma_statement_unbound(t, p);
        },
    }
}

/// No variable of a statement that the parser makes is bound.
pub proof fn lemma_statement_unbound(t: Seq<SpecToken>, p: int)
    ensures
        sp_statement(t, p).result matches Ok(s) ==> stmt_unbound(s),
    decreases remaining(t, p), 6nat,
{
    lemma_print_unbound(t, p);
    lemma_return_unbound(t, p);
    lemma_expression_statement_unbound(t, p);
    match peek(t, p).token_type {
        SpecTokenType::Keyword(kw) => {
            if kw == Keyword::If {
                lemma_if_unbound(t, p);
            } else if kw == Keyword::While {
                lemma_while_unbound(t, p);
            } else if kw == Keyword::For {
                lemma_for_unbound(t, p);
            }
        },
        SpecTokenType::LeftBrace => {
            lemma_block_unbound(t, p);
        },
        _ => {},
    }
}

pub proof fn lemma_if_unbound(t: Seq<SpecToken>, p: int)
    ensures
        sp_if(t, p).result matches Ok(s) ==> stmt_unbound(s),
    decreases remaining(t, p), 5nat,
{
    reveal(sp_condition);
    lemma_condition_unbound(t, p);
    let c = sp_condition(t, p);
    match c.result {
        Ok(condition) => {
            lemma_statement_unbound(t, p + c.used);
            let th = sp_statement(t, p + c.used);
            match th.result {
                Ok(then_branch) => {
                    let q = p + c.used + th.used;
                    if peek(t, q).token_type == SpecTokenType::Keyword(Keyword::Else) {
                        lemma_statement_unbound(t, q + 1);
                    }
                },
                Err(_) => {},
            }
        },
        Err(_) => {},
    }
}

pub proof fn lemma_while_unbound(t: Seq<SpecToken>, p: int)
    ensures
        sp_while(t, p).result matches Ok(s) ==> stmt_unbound(s),
    decreases remaining(t, p), 5nat,
{
    reveal(sp_condition);
    lemma_condition_unbound(t, p);
    let c = sp_condition(t, p);
    match c.result {
        Ok(condition) => {
            lemma_statement_unbound(t, p + c.used);
        },
        Err(_) => {},
    }
}

pub proof fn lemma_for_unbound(t: Seq<SpecToken>, p: int)
    ensures
        sp_for(t, p).result matches Ok(s) ==> stmt_unbound(s),
    decreases remaining(t, p), 5nat,
{
    reveal(sp_for_header);
    lemma_for_header_unbound(t, p);
    let h = sp_for_header(t, p);
    match h.result {
        Ok(header) => {
            lemma_statement_unbound(t, p + h.used);
            let b = sp_statement(t, p + h.used);
            match b.result {
                Ok(body) => {
                    lemma_desugar_unbound(header.0, header.1, header.2, body);
                },
                Err(_) => {},
            }
        },
        Err(_) => {},
    }
}

pub proof fn lemma_function_unbound(t: Seq<SpecToken>, p: int)
    ensures
        sp_function(t, p).result matches Ok(f) ==> fn_unbound(f),
    decreases remaining(t, p), 5nat,
{
    reveal(sp_fn_head);
    lemma_fn_head_unbound(t, p);
    let h = sp_fn_head(t, p);
    match h.result {
        Ok(head) => {
            lemma_block_unbound(t, p + h.used);
        },
        Err(_) => {},
    }
}

pub proof fn lemma_class_unbound(t: Seq<SpecToken>, p: int)
    ensures
        sp_class(t, p).result matches Ok(s) ==> stmt_unbound(s),
    decreases remaining(t, p), 5nat,
{
    reveal(sp_class_head);
    let h = sp_class_head(t, p);
    match h.result {
        Ok(head) => {
            lemma_methods_unbound(t, p + h.used, Seq::empty());
        },
        Err(_) => {},
    }
}

pub proof fn lemma_methods_unbound(t: Seq<SpecToken>, p: int, acc: Seq<SpecFnDecl>)
    requires
        fns_unbound(acc, acc.len()),
    ensures
        sp_methods(t, p, acc).result matches Ok(ms) ==> fns_unbound(ms, ms.len()),
    decreases remaining(t, p), 6nat,
{
    if !(peek(t, p).token_type is RightBrace) {
        lemma_function_unbound(t, p);
        let f = sp_function(t, p);
        match f.result {
            Ok(method) => {
                let acc2 = acc.push(method);
                lemma_fns_unbound_same(acc, acc2, acc.len());
                assert(fns_unbound(acc2, acc2.len()));
                if advances(t, p, f.used) {
                    lemma_methods_unbound(t, p + f.used, acc2);
                }
            },
            Err(_) => {},
        }
    }
}

pub proof fn lemma_block_unbound(t: Seq<SpecToken>, p: int)
    ensures
        sp_block(t, p).result matches Ok(ss) ==> stmts_unbound(ss, ss.len()),
    decreases remaining(t, p), 5nat,
{
    if 0 <= p < t.len() {
        lemma_items_unbound(t, p + 1, true, Seq::empty(), Seq::empty());
    }
}

pub proof fn lemma_items_unbound(
    t: Seq<SpecToken>,
    p: int,
    in_block: bool,
    acc: Seq<SpecStmt>,
    errs: Seq<crate::error::SpecParserError>,
)
    requires
        stmts_unbound(acc, acc.len()),
    ensures
        stmts_unbound(
            sp_items(t, p, in_block, acc, errs).stmts,
            sp_items(t, p, in_block, acc, errs).stmts.len(),
        ),
    decreases remaining(t, p), 8nat,
{
    let token_type = peek(t, p).token_type;
    if !(token_type is Eof || (in_block && token_type is RightBrace)) {
        lemma_declaration_unbound(t, p);
        let d = sp_declaration(t, p);
        if advances(t, p, d.used) {
            match d.result {
                Ok(stmt) => {
                    let acc2 = acc.push(stmt);
                    lemma_stmts_unbound_same(acc, acc2, acc.len());
                    assert(stmts_unbound(acc2, acc2.len()));
                    lemma_items_unbound(t, p + d.used, in_block, acc2, errs + d.errors);
                },
                Err(e) => {
                    lemma_items_unbound(
                        t,
                        p + d.used + sync_used(t, p + d.used),
                        in_block,
                        acc,
                        (errs + d.errors).push(e),
                    );
                },
            }
        }
    }
}

/// In a program that the parser makes, whatever the tokens, no variable is
/// bound.
pub proof fn lemma_parsed_is_unbound(t: Seq<SpecToken>)
    ensures
        sp_parse(t) matches Ok(ast) ==> stmts_unbound(ast, ast.len()),
{
    lemma_items_unbound(t, 0, false, Seq::empty(), Seq::empty());
}

/// Whatever the source text: if it parses, and the program resolves without
/// a diagnostic, then a variable of the program is bound if and only if a
/// local of its name is in sight where the variable stands, and it is bound
/// to the slot of that name in the innermost frame that has it. A variable
/// that is not bound names a global.
pub proof fn lemma_binds_of_source(s: Seq<char>)
    ensures
        sp_parse(token_stream(s, 0)) matches Ok(ast) ==> (res_program(
            SpecResolver::fresh(),
            ast,
        ).2 is None ==> stmts_settled(
            true,
            Seq::empty(),
            res_program(SpecResolver::fresh(), ast).1,
            ast.len(),
        )),
{
    lemma_parsed_is_unbound(token_stream(s, 0));
    match sp_parse(token_stream(s, 0)) {
        Ok(ast) => {
            lemma_binds_of_program(ast);
        },
        Err(_) => {},
    }
}

} // verus!
