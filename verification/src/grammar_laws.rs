//! What holds of every program that the parser makes of a source text:
//! nothing in it declares the name `super`, and every `super` in it is
//! unbound. With the resolver this gives that `super` is always bound at
//! least one scope out.

use vstd::prelude::*;
use crate::ast::expr::SpecExpr;
use crate::ast::ident::SpecVariable;
use crate::ast::stmt::{SpecFnDecl, SpecStmt};
use crate::grammar::{
    advances, desugar_for, end_statement, peek, remaining, sp_args, sp_block, sp_class,
    sp_class_head, sp_condition, sp_declaration, sp_expr_precedence, sp_expression,
    sp_expression_statement, sp_fn_call, sp_fn_head, sp_for, sp_for_clause, sp_for_header,
    sp_for_init, sp_function, sp_identifier, sp_if, sp_infix, sp_infix_form, sp_items, sp_methods,
    sp_params, sp_parse, sp_prefix, sp_print, sp_return, sp_statement, sp_var_decl, sp_while,
    step, sync_used,
};
use crate::lexer::{scan_string, spec_next_token, token_stream};
use crate::precedence::Operator;
use crate::resolution::{res_stmts, SpecResolver};
use crate::resolution_super::{
    expr_plain, exprs_plain, fn_plain, fns_plain, lemma_super_is_far, stmt_plain, stmts_far,
    stmts_plain,
};
use crate::token::{Keyword, SpecToken, SpecTokenType};

verus! {

/// No identifier among the tokens is spelled `super`.
pub open spec fn tokens_ok(t: Seq<SpecToken>) -> bool {
    forall|i: int|
        0 <= i < t.len() ==> ((#[trigger] t[i]).token_type matches SpecTokenType::Identifier(name)
            ==> name != "super"@)
}

/// The body of a string never scans as an identifier.
pub proof fn lemma_scan_string_kind(s: Seq<char>, i: int, acc: Seq<char>)
    ensures
        !(scan_string(s, i, acc).0 is Identifier),
    decreases s.len() - i,
{
    if 0 <= i < s.len() && s[i] != '"' {
        if s[i] == '\\' {
            if i + 1 < s.len() {
                match crate::lexer::unescape(s[i + 1]) {
                    Some(c) => lemma_scan_string_kind(s, i + 2, acc.push(c)),
                    None => {},
                }
            }
        } else {
            lemma_scan_string_kind(s, i + 1, acc.push(s[i]));
        }
    }
}

/// The scanner yields `super` as a keyword, never as an identifier.
pub proof fn lemma_token_ok(s: Seq<char>, i: int)
    ensures
        spec_next_token(s, i).0.token_type matches SpecTokenType::Identifier(name) ==> name
            != "super"@,
{
    match crate::lexer::skip_trivia(s, i) {
        crate::lexer::Trivia::Token(j) => {
            if j < s.len() {
                lemma_scan_string_kind(s, j + 1, Seq::empty());
            }
        },
        crate::lexer::Trivia::OpenComment(_) => {},
    }
}

/// No identifier among the tokens of a source text is spelled `super`.
pub proof fn lemma_stream_ok(s: Seq<char>, i: int)
    ensures
        tokens_ok(token_stream(s, i)),
    decreases s.len() - i,
{
    let (token, next) = spec_next_token(s, i);
    lemma_token_ok(s, i);
    if !(token.token_type is Eof || !(0 <= i)) {
        crate::lexer::lemma_next_token_advances(s, i);
        lemma_stream_ok(s, next);
        let rest = token_stream(s, next);
        let all = token_stream(s, i);
        assert(all =~= seq![token] + rest);
        assert forall|k: int| 0 <= k < all.len() implies ((#[trigger] all[k]).token_type matches SpecTokenType::Identifier(
            name,
        ) ==> name != "super"@) by {
            if k > 0 {
                assert(all[k] == rest[k - 1]);
            }
        }
    }
}

/// An identifier that the parser takes is not spelled `super`.
pub proof fn lemma_identifier(t: Seq<SpecToken>, p: int)
    requires
        tokens_ok(t),
    ensures
        sp_identifier(t, p).result matches Ok(id) ==> id.name != "super"@,
{
}

/// No parameter is named `super`.
pub proof fn lemma_params(t: Seq<SpecToken>, p: int, acc: Seq<SpecVariable>)
    requires
        tokens_ok(t),
        forall|i: int| 0 <= i < acc.len() ==> (#[trigger] acc[i]).ident.name != "super"@,
    ensures
        sp_params(t, p, acc).result matches Ok(ps) ==> forall|i: int|
            0 <= i < ps.len() ==> (#[trigger] ps[i]).ident.name != "super"@,
    decreases remaining(t, p),
{
    lemma_identifier(t, p);
    match sp_identifier(t, p).result {
        Ok(ident) => {
            let acc2 = acc.push(SpecVariable::from_ident(ident));
            assert forall|i: int| 0 <= i < acc2.len() implies (#[trigger] acc2[i]).ident.name
                != "super"@ by {
                if i < acc.len() {
                    assert(acc2[i] == acc[i]);
                }
            }
            if peek(t, p + 1).token_type is Comma {
                lemma_params(t, p + 2, acc2);
            }
        },
        Err(_) => {},
    }
}

/// What is plain of the first expressions stays plain when more are looked
/// at.
pub proof fn lemma_exprs_plain_same(a: Seq<SpecExpr>, b: Seq<SpecExpr>, n: nat)
    requires
        n <= a.len(),
        n <= b.len(),
        forall|i: int| 0 <= i < n ==> a[i] == b[i],
        exprs_plain(a, n),
    ensures
        exprs_plain(b, n),
    decreases n,
{
    if n > 0 {
        lemma_exprs_plain_same(a, b, (n - 1) as nat);
    }
}

pub proof fn lemma_stmts_plain_same(a: Seq<SpecStmt>, b: Seq<SpecStmt>, n: nat)
    requires
        n <= a.len(),
        n <= b.len(),
        forall|i: int| 0 <= i < n ==> a[i] == b[i],
        stmts_plain(a, n),
    ensures
        stmts_plain(b, n),
    decreases n,
{
    if n > 0 {
        lemma_stmts_plain_same(a, b, (n - 1) as nat);
    }
}

pub proof fn lemma_fns_plain_same(a: Seq<SpecFnDecl>, b: Seq<SpecFnDecl>, n: nat)
    requires
        n <= a.len(),
        n <= b.len(),
        forall|i: int| 0 <= i < n ==> a[i] == b[i],
        fns_plain(a, n),
    ensures
        fns_plain(b, n),
    decreases n,
{
    if n > 0 {
        lemma_fns_plain_same(a, b, (n - 1) as nat);
    }
}

/// A whole expression that the parser makes is plain.
pub proof fn lemma_expression(t: Seq<SpecToken>, p: int)
    requires
        tokens_ok(t),
    ensures
        sp_expression(t, p).result matches Ok(e) ==> expr_plain(e),
    decreases remaining(t, p), 4nat,
{
    lemma_expr_precedence(t, p, Operator::Lowest);
}

pub proof fn lemma_expr_precedence(t: Seq<SpecToken>, p: int, op: Operator)
    requires
        tokens_ok(t),
    ensures
        sp_expr_precedence(t, p, op).result matches Ok(e) ==> expr_plain(e),
    decreases remaining(t, p), 3nat,
{
    lemma_prefix(t, p);
    let pre = sp_prefix(t, p);
    match pre.result {
        Ok(left) => {
            lemma_infix(t, p + pre.used, op, left);
        },
        Err(_) => {},
    }
}

pub proof fn lemma_prefix(t: Seq<SpecToken>, p: int)
    requires
        tokens_ok(t),
    ensures
        sp_prefix(t, p).result matches Ok(e) ==> expr_plain(e),
    decreases remaining(t, p), 2nat,
{
    let tok = peek(t, p);
    let q1 = p + step(t, p);
    match tok.token_type {
        SpecTokenType::Keyword(kw) => {},
        SpecTokenType::LeftParen => {
            lemma_expression(t, p + 1);
        },
        SpecTokenType::Bang | SpecTokenType::Minus => {
            lemma_expr_precedence(t, p + 1, Operator::Prefix);
        },
        _ => {},
    }
}

pub proof fn lemma_infix(t: Seq<SpecToken>, p: int, floor: Operator, left: SpecExpr)
    requires
        tokens_ok(t),
        expr_plain(left),
    ensures
        sp_infix(t, p, floor, left).result matches Ok(e) ==> expr_plain(e),
    decreases remaining(t, p), 1nat,
{
    let tok = peek(t, p);
    match Operator::of_token(tok.token_type) {
        None => {},
        Some(next_op) => {
            if next_op.spec_is_precedent_than(floor) {
                lemma_infix_form(t, p + 1, tok, next_op, left);
                let form = sp_infix_form(t, p + 1, tok, next_op, left);
                match form.result {
                    Ok(expr) => {
                        lemma_infix(t, p + 1 + form.used, floor, expr);
                    },
                    Err(_) => {},
                }
            }
        },
    }
}

pub proof fn lemma_infix_form(
    t: Seq<SpecToken>,
    q: int,
    tok: SpecToken,
    next_op: Operator,
    left: SpecExpr,
)
    requires
        tokens_ok(t),
        expr_plain(left),
    ensures
        sp_infix_form(t, q, tok, next_op, left).result matches Ok(e) ==> expr_plain(e),
    decreases remaining(t, q), 7nat,
{
    match next_op {
        Operator::Ternary => {
            lemma_expression(t, q);
            let a = sp_expression(t, q);
            let colon = crate::grammar::sp_eat(t, q + a.used, SpecTokenType::Colon);
            lemma_expr_precedence(t, q + a.used + colon.used, next_op);
        },
        Operator::Assign => {
            lemma_expr_precedence(t, q, next_op);
        },
        Operator::FnCall => {
            lemma_fn_call(t, q, left);
        },
        Operator::Dot => {},
        _ => {
            lemma_expr_precedence(t, q, next_op);
        },
    }
}

pub proof fn lemma_fn_call(t: Seq<SpecToken>, q: int, callee: SpecExpr)
    requires
        tokens_ok(t),
        expr_plain(callee),
    ensures
        sp_fn_call(t, q, callee).result matches Ok(e) ==> expr_plain(e),
    decreases remaining(t, q), 6nat,
{
    let args = if peek(t, q).token_type is RightParen {
        crate::grammar::go(Seq::<SpecExpr>::empty(), q, q)
    } else {
        lemma_args(t, q, Seq::empty());
        sp_args(t, q, Seq::empty())
    };
    match args.result {
        Ok(arguments) => {
            assert(exprs_plain(arguments, arguments.len()));
            let close = crate::grammar::sp_eat(t, q + args.used, SpecTokenType::RightParen);
            match close.result {
                Ok(span) => {
                    let call = SpecExpr::FnCall {
                        callee: Box::new(callee),
                        arguments,
                        end: span.end,
                    };
                    assert(expr_plain(call));
                },
                Err(_) => {},
            }
        },
        Err(_) => {},
    }
}

pub proof fn lemma_args(t: Seq<SpecToken>, p: int, acc: Seq<SpecExpr>)
    requires
        tokens_ok(t),
        exprs_plain(acc, acc.len()),
    ensures
        sp_args(t, p, acc).result matches Ok(args) ==> exprs_plain(args, args.len()),
    decreases remaining(t, p), 5nat,
{
    lemma_expression(t, p);
    let e = sp_expression(t, p);
    match e.result {
        Ok(arg) => {
            let acc2 = acc.push(arg);
            lemma_exprs_plain_same(acc, acc2, acc.len());
            assert(exprs_plain(acc2, acc2.len()));
            if peek(t, p + e.used).token_type is Comma {
                lemma_args(t, p + e.used + 1, acc2);
            }
        },
        Err(_) => {},
    }
}

pub proof fn lemma_var_decl(t: Seq<SpecToken>, p: int)
    requires
        tokens_ok(t),
    ensures
        sp_var_decl(t, p).result matches Ok(s) ==> stmt_plain(s),
{
    reveal(sp_var_decl);
    reveal(end_statement);
    let q1 = p + step(t, p);
    let q2 = q1 + step(t, q1);
    lemma_expression(t, q2 + 1);
}

pub proof fn lemma_print(t: Seq<SpecToken>, p: int)
    requires
        tokens_ok(t),
    ensures
        sp_print(t, p).result matches Ok(s) ==> stmt_plain(s),
{
    reveal(sp_print);
    reveal(end_statement);
    lemma_expression(t, p + step(t, p));
}

pub proof fn lemma_expression_statement(t: Seq<SpecToken>, p: int)
    requires
        tokens_ok(t),
    ensures
        sp_expression_statement(t, p).result matches Ok(s) ==> stmt_plain(s),
{
    reveal(sp_expression_statement);
    reveal(end_statement);
    lemma_expression(t, p);
}

pub proof fn lemma_return(t: Seq<SpecToken>, p: int)
    requires
        tokens_ok(t),
    ensures
        sp_return(t, p).result matches Ok(s) ==> stmt_plain(s),
{
    reveal(sp_return);
    reveal(end_statement);
    lemma_expression(t, p + step(t, p));
}

pub proof fn lemma_condition(t: Seq<SpecToken>, p: int)
    requires
        tokens_ok(t),
    ensures
        sp_condition(t, p).result matches Ok(e) ==> expr_plain(e),
{
    reveal(sp_condition);
    let q1 = p + step(t, p);
    let open = crate::grammar::sp_eat(t, q1, SpecTokenType::LeftParen);
    lemma_expression(t, q1 + open.used);
}

pub proof fn lemma_for_header(t: Seq<SpecToken>, p: int)
    requires
        tokens_ok(t),
    ensures
        sp_for_header(t, p).result matches Ok(h) ==> (h.0 matches Some(s) ==> stmt_plain(s)) && (
        h.1 matches Some(e) ==> expr_plain(e)) && (h.2 matches Some(e) ==> expr_plain(e)),
{
    reveal(sp_for_header);
    reveal(sp_for_init);
    reveal(sp_for_clause);
    let q1 = p + step(t, p);
    let open = crate::grammar::sp_eat(t, q1, SpecTokenType::LeftParen);
    let q2 = q1 + open.used;
    lemma_var_decl(t, q2);
    lemma_expression_statement(t, q2);
    let init = sp_for_init(t, q2);
    let q3 = q2 + init.used;
    lemma_expression(t, q3);
    let cond = sp_for_clause(t, q3, SpecTokenType::Semicolon);
    let q4 = q3 + cond.used;
    let semi = crate::grammar::sp_eat(t, q4, SpecTokenType::Semicolon);
    let q5 = q4 + semi.used;
    lemma_expression(t, q5);
}

/// What a `for` statement is rewritten to is plain if its parts are.
pub proof fn lemma_desugar(
    initializer: Option<SpecStmt>,
    condition: Option<SpecExpr>,
    increment: Option<SpecExpr>,
    body: SpecStmt,
)
    requires
        initializer matches Some(s) ==> stmt_plain(s),
        condition matches Some(e) ==> expr_plain(e),
        increment matches Some(e) ==> expr_plain(e),
        stmt_plain(body),
    ensures
        stmt_plain(desugar_for(initializer, condition, increment, body)),
{
    let test = match condition {
        Some(c) => c,
        None => crate::grammar::lit(crate::ast::expr::SpecLit::Bool(true), crate::span::Span::spec_dummy()),
    };
    assert(expr_plain(test));
    let repeated = match increment {
        Some(inc) => {
            let list = seq![body, SpecStmt::Expression(inc)];
            assert(list[0] == body && list[1] == SpecStmt::Expression(inc));
            assert(stmt_plain(list[1]));
            assert(stmts_plain(list, 0));
            assert(stmts_plain(list, 1));
            assert(stmts_plain(list, 2));
            let block = crate::grammar::new_block(list);
            assert(stmt_plain(block));
            block
        },
        None => body,
    };
    assert(stmt_plain(repeated));
    let inner = SpecStmt::While { condition: test, body: Box::new(repeated) };
    assert(stmt_plain(inner));
    match initializer {
        Some(init) => {
            let list = seq![init, inner];
            assert(list[0] == init && list[1] == inner);
            assert(stmts_plain(list, 0));
            assert(stmts_plain(list, 1));
            assert(stmts_plain(list, 2));
            assert(stmt_plain(crate::grammar::new_block(list)));
        },
        None => {},
    }
}

pub proof fn lemma_fn_head(t: Seq<SpecToken>, p: int)
    requires
        tokens_ok(t),
    ensures
        sp_fn_head(t, p).result matches Ok(h) ==> h.0.name != "super"@ && forall|i: int|
            0 <= i < h.1.len() ==> (#[trigger] h.1[i]).ident.name != "super"@,
{
    reveal(sp_fn_head);
    lemma_identifier(t, p);
    let id = sp_identifier(t, p);
    let q1 = p + id.used;
    let open = crate::grammar::sp_eat(t, q1, SpecTokenType::LeftParen);
    let q2 = q1 + open.used;
    lemma_params(t, q2, Seq::empty());
}

pub proof fn lemma_class_head(t: Seq<SpecToken>, p: int)
    requires
        tokens_ok(t),
    ensures
        sp_class_head(t, p).result matches Ok(h) ==> h.0.name != "super"@,
{
    reveal(sp_class_head);
    lemma_identifier(t, p + step(t, p));
}

/// A declaration that the parser makes is plain.
pub proof fn lemma_declaration(t: Seq<SpecToken>, p: int)
    requires
        tokens_ok(t),
    ensures
        sp_declaration(t, p).result matches Ok(s) ==> stmt_plain(s),
    decreases remaining(t, p), 7nat,
{
    lemma_var_decl(t, p);
    match peek(t, p).token_type {
        SpecTokenType::Keyword(kw) => {
            if kw == Keyword::Var {
            } else if kw == Keyword::Fun {
                lemma_function(t, p + 1);
            } else if kw == Keyword::Class {
                lemma_class(t, p);
            } else {
                lemma_statement(t, p);
            }
        },
        _ => {
            lemma_statement(t, p);
        },
    }
}

/// A statement that the parser makes is plain.
pub proof fn lemma_statement(t: Seq<SpecToken>, p: int)
    requires
        tokens_ok(t),
    ensures
        sp_statement(t, p).result matches Ok(s) ==> stmt_plain(s),
    decreases remaining(t, p), 6nat,
{
    lemma_print(t, p);
    lemma_return(t, p);
    lemma_expression_statement(t, p);
    match peek(t, p).token_type {
        SpecTokenType::Keyword(kw) => {
            if kw == Keyword::If {
                lemma_if(t, p);
            } else if kw == Keyword::While {
                lemma_while(t, p);
            } else if kw == Keyword::For {
                lemma_for(t, p);
            }
        },
        SpecTokenType::LeftBrace => {
            lemma_block(t, p);
        },
        _ => {},
    }
}

pub proof fn lemma_if(t: Seq<SpecToken>, p: int)
    requires
        tokens_ok(t),
    ensures
        sp_if(t, p).result matches Ok(s) ==> stmt_plain(s),
    decreases remaining(t, p), 5nat,
{
    reveal(sp_condition);
    lemma_condition(t, p);
    let c = sp_condition(t, p);
    match c.result {
        Ok(condition) => {
            lemma_statement(t, p + c.used);
            let th = sp_statement(t, p + c.used);
            match th.result {
                Ok(then_branch) => {
                    let q = p + c.used + th.used;
                    if peek(t, q).token_type == SpecTokenType::Keyword(Keyword::Else) {
                        lemma_statement(t, q + 1);
                    }
                },
                Err(_) => {},
            }
        },
        Err(_) => {},
    }
}

pub proof fn lemma_while(t: Seq<SpecToken>, p: int)
    requires
        tokens_ok(t),
    ensures
        sp_while(t, p).result matches Ok(s) ==> stmt_plain(s),
    decreases remaining(t, p), 5nat,
{
    reveal(sp_condition);
    lemma_condition(t, p);
    let c = sp_condition(t, p);
    match c.result {
        Ok(condition) => {
            lemma_statement(t, p + c.used);
        },
        Err(_) => {},
    }
}

pub proof fn lemma_for(t: Seq<SpecToken>, p: int)
    requires
        tokens_ok(t),
    ensures
        sp_for(t, p).result matches Ok(s) ==> stmt_plain(s),
    decreases remaining(t, p), 5nat,
{
    reveal(sp_for_header);
    lemma_for_header(t, p);
    let h = sp_for_header(t, p);
    match h.result {
        Ok(header) => {
            lemma_statement(t, p + h.used);
            let b = sp_statement(t, p + h.used);
            match b.result {
                Ok(body) => {
                    lemma_desugar(header.0, header.1, header.2, body);
                },
                Err(_) => {},
            }
        },
        Err(_) => {},
    }
}

pub proof fn lemma_function(t: Seq<SpecToken>, p: int)
    requires
        tokens_ok(t),
    ensures
        sp_function(t, p).result matches Ok(f) ==> fn_plain(f),
    decreases remaining(t, p), 5nat,
{
    reveal(sp_fn_head);
    lemma_fn_head(t, p);
    let h = sp_fn_head(t, p);
    match h.result {
        Ok(head) => {
            lemma_block(t, p + h.used);
        },
        Err(_) => {},
    }
}

pub proof fn lemma_class(t: Seq<SpecToken>, p: int)
    requires
        tokens_ok(t),
    ensures
        sp_class(t, p).result matches Ok(s) ==> stmt_plain(s),
    decreases remaining(t, p), 5nat,
{
    reveal(sp_class_head);
    lemma_class_head(t, p);
    let h = sp_class_head(t, p);
    match h.result {
        Ok(head) => {
            lemma_methods(t, p + h.used, Seq::empty());
        },
        Err(_) => {},
    }
}

pub proof fn lemma_methods(t: Seq<SpecToken>, p: int, acc: Seq<SpecFnDecl>)
    requires
        tokens_ok(t),
        fns_plain(acc, acc.len()),
    ensures
        sp_methods(t, p, acc).result matches Ok(ms) ==> fns_plain(ms, ms.len()),
    decreases remaining(t, p), 6nat,
{
    if !(peek(t, p).token_type is RightBrace) {
        lemma_function(t, p);
        let f = sp_function(t, p);
        match f.result {
            Ok(method) => {
                let acc2 = acc.push(method);
                lemma_fns_plain_same(acc, acc2, acc.len());
                assert(fns_plain(acc2, acc2.len()));
                if advances(t, p, f.used) {
                    lemma_methods(t, p + f.used, acc2);
                }
            },
            Err(_) => {},
        }
    }
}

pub proof fn lemma_block(t: Seq<SpecToken>, p: int)
    requires
        tokens_ok(t),
    ensures
        sp_block(t, p).result matches Ok(ss) ==> stmts_plain(ss, ss.len()),
    decreases remaining(t, p), 5nat,
{
    if 0 <= p < t.len() {
        lemma_items(t, p + 1, true, Seq::empty(), Seq::empty());
    }
}

pub proof fn lemma_items(
    t: Seq<SpecToken>,
    p: int,
    in_block: bool,
    acc: Seq<SpecStmt>,
    errs: Seq<crate::error::SpecParserError>,
)
    requires
        tokens_ok(t),
        stmts_plain(acc, acc.len()),
    ensures
        stmts_plain(
            sp_items(t, p, in_block, acc, errs).stmts,
            sp_items(t, p, in_block, acc, errs).stmts.len(),
        ),
    decreases remaining(t, p), 8nat,
{
    let token_type = peek(t, p).token_type;
    if !(token_type is Eof || (in_block && token_type is RightBrace)) {
        lemma_declaration(t, p);
        let d = sp_declaration(t, p);
        if advances(t, p, d.used) {
            match d.result {
                Ok(stmt) => {
                    let acc2 = acc.push(stmt);
                    lemma_stmts_plain_same(acc, acc2, acc.len());
                    assert(stmts_plain(acc2, acc2.len()));
                    lemma_items(t, p + d.used, in_block, acc2, errs + d.errors);
                },
                Err(e) => {
                    lemma_items(
                        t,
                        p + d.used + sync_used(t, p + d.used),
                        in_block,
                        acc,
                        (errs + d.errors).push(e),
                    );
                },
            }
        }
    }
}

/// In a program that the parser makes of tokens none of which is an
/// identifier spelled `super`, nothing declares the name `super` and every
/// `super` is unbound.
pub proof fn lemma_parsed_is_plain(t: Seq<SpecToken>)
    requires
        tokens_ok(t),
    ensures
        sp_parse(t) matches Ok(ast) ==> stmts_plain(ast, ast.len()),
{
    lemma_items(t, 0, false, Seq::empty(), Seq::empty());
}

/// Whatever the source text: if it parses, then in the program resolved by
/// a resolver that has seen nothing, every `super` that is bound is bound
/// at least one scope out of the scope that it stands in.
pub proof fn lemma_super_of_source(s: Seq<char>)
    ensures
        sp_parse(token_stream(s, 0)) matches Ok(ast) ==> stmts_far(
            res_stmts(SpecResolver::fresh(), ast, ast.len()).1,
            ast.len(),
        ),
{
    lemma_stream_ok(s, 0);
    lemma_parsed_is_plain(token_stream(s, 0));
    match sp_parse(token_stream(s, 0)) {
        Ok(ast) => {
            lemma_super_is_far(ast);
        },
        Err(_) => {},
    }
}

} // verus!
