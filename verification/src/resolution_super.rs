//! `super` is bound at least one scope out, proved of
//! [`crate::resolution`] for programs that declare nothing named `super`,
//! as no program that the parser makes does.

use vstd::prelude::*;
use crate::ast::expr::SpecExpr;
use crate::ast::ident::SpecVariable;
use crate::ast::stmt::{SpecFnDecl, SpecStmt};
use crate::resolution::{access, access_from, declare, find, method_type, res_expr, res_exprs, res_function, res_methods, res_params, res_stmt, res_stmts, start_class_scope, start_scope, ClassType, FunctionType, SpecResolver, VariableStatus};
use crate::resolution_frames::{add_name, add_names, declares, lemma_access_frame, lemma_declare_frame, lemma_expr_frame, lemma_exprs_frame, lemma_find_names, lemma_methods_frame, lemma_params_frame, lemma_start_class_scope, lemma_start_scope, lemma_stmt_frame, lemma_stmts_frame, params_in, sound, top};
use crate::resolution_laws::names;

verus! {

/// The names hold no `super`.
pub open spec fn free(ns: Seq<Seq<char>>) -> bool {
    !ns.contains("super"@)
}

/// Every `super` in the expression is unbound, and is named `super`.
pub open spec fn expr_plain(e: SpecExpr) -> bool
    decreases e, 0nat,
{
    match e {
        SpecExpr::Binary { left, right, .. } => expr_plain(*left) && expr_plain(*right),
        SpecExpr::Unary { operand, .. } => expr_plain(*operand),
        SpecExpr::Group { expr, .. } => expr_plain(*expr),
        SpecExpr::Literal { .. } => true,
        SpecExpr::Ternary { condition, truthy, falsy } => expr_plain(*condition) && expr_plain(
            *truthy,
        ) && expr_plain(*falsy),
        SpecExpr::Assign { value, .. } => expr_plain(*value),
        SpecExpr::Var(_) => true,
        SpecExpr::FnCall { callee, arguments, .. } => expr_plain(*callee) && exprs_plain(
            arguments,
            arguments.len(),
        ),
        SpecExpr::Get { object, .. } => expr_plain(*object),
        SpecExpr::SetField { object, value, .. } => expr_plain(*object) && expr_plain(*value),
        SpecExpr::Super { var, .. } => var.target is None && var.ident.name == "super"@,
    }
}

pub open spec fn exprs_plain(es: Seq<SpecExpr>, n: nat) -> bool
    decreases es, n,
{
    if n == 0 || n > es.len() {
        true
    } else {
        exprs_plain(es, (n - 1) as nat) && expr_plain(es[n - 1])
    }
}

/// Every `super` in the statement is unbound, and nothing in it declares
/// the name `super`.
pub open spec fn stmt_plain(s: SpecStmt) -> bool
    decreases s, 0nat,
{
    match s {
        SpecStmt::Print(e) => expr_plain(e),
        SpecStmt::Expression(e) => expr_plain(e),
        SpecStmt::Var { var, initializer } => var.ident.name != "super"@ && match initializer {
            Some(e) => expr_plain(e),
            None => true,
        },
        SpecStmt::Block { statements, .. } => stmts_plain(statements, statements.len()),
        SpecStmt::If { condition, then_branch, else_branch } => expr_plain(condition)
            && stmt_plain(*then_branch) && match else_branch {
            Some(e) => stmt_plain(*e),
            None => true,
        },
        SpecStmt::While { condition, body } => expr_plain(condition) && stmt_plain(*body),
        SpecStmt::FnDecl(f) => fn_plain(f),
        SpecStmt::Return { expr, .. } => match expr {
            Some(e) => expr_plain(e),
            None => true,
        },
        SpecStmt::ClassDecl { var, methods, .. } => var.ident.name != "super"@ && fns_plain(
            methods,
            methods.len(),
        ),
    }
}

pub open spec fn stmts_plain(ss: Seq<SpecStmt>, n: nat) -> bool
    decreases ss, n,
{
    if n == 0 || n > ss.len() {
        true
    } else {
        stmts_plain(ss, (n - 1) as nat) && stmt_plain(ss[n - 1])
    }
}

pub open spec fn fn_plain(f: SpecFnDecl) -> bool
    decreases f, 0nat,
{
    f.var.ident.name != "super"@ && (forall|i: int|
        0 <= i < f.params.len() ==> (#[trigger] f.params[i]).ident.name != "super"@) && stmts_plain(
        f.body,
        f.body.len(),
    )
}

pub open spec fn fns_plain(fs: Seq<SpecFnDecl>, n: nat) -> bool
    decreases fs, n,
{
    if n == 0 || n > fs.len() {
        true
    } else {
        fns_plain(fs, (n - 1) as nat) && fn_plain(fs[n - 1])
    }
}

/// Every `super` in the expression that is bound is bound at least one
/// scope out.
pub open spec fn expr_far(e: SpecExpr) -> bool
    decreases e, 0nat,
{
    match e {
        SpecExpr::Binary { left, right, .. } => expr_far(*left) && expr_far(*right),
        SpecExpr::Unary { operand, .. } => expr_far(*operand),
        SpecExpr::Group { expr, .. } => expr_far(*expr),
        SpecExpr::Literal { .. } => true,
        SpecExpr::Ternary { condition, truthy, falsy } => expr_far(*condition) && expr_far(
            *truthy,
        ) && expr_far(*falsy),
        SpecExpr::Assign { value, .. } => expr_far(*value),
        SpecExpr::Var(_) => true,
        SpecExpr::FnCall { callee, arguments, .. } => expr_far(*callee) && exprs_far(
            arguments,
            arguments.len(),
        ),
        SpecExpr::Get { object, .. } => expr_far(*object),
        SpecExpr::SetField { object, value, .. } => expr_far(*object) && expr_far(*value),
        SpecExpr::Super { var, .. } => match var.target {
            Some(t) => t.scope_count >= 1,
            None => true,
        },
    }
}

pub open spec fn exprs_far(es: Seq<SpecExpr>, n: nat) -> bool
    decreases es, n,
{
    if n == 0 || n > es.len() {
        true
    } else {
        exprs_far(es, (n - 1) as nat) && expr_far(es[n - 1])
    }
}

/// Every `super` in the statement that is bound is bound at least one scope
/// out.
pub open spec fn stmt_far(s: SpecStmt) -> bool
    decreases s, 0nat,
{
    match s {
        SpecStmt::Print(e) => expr_far(e),
        SpecStmt::Expression(e) => expr_far(e),
        SpecStmt::Var { initializer, .. } => match initializer {
            Some(e) => expr_far(e),
            None => true,
        },
        SpecStmt::Block { statements, .. } => stmts_far(statements, statements.len()),
        SpecStmt::If { condition, then_branch, else_branch } => expr_far(condition) && stmt_far(
            *then_branch,
        ) && match else_branch {
            Some(e) => stmt_far(*e),
            None => true,
        },
        SpecStmt::While { condition, body } => expr_far(condition) && stmt_far(*body),
        SpecStmt::FnDecl(f) => fn_far(f),
        SpecStmt::Return { expr, .. } => match expr {
            Some(e) => expr_far(e),
            None => true,
        },
        SpecStmt::ClassDecl { methods, .. } => fns_far(methods, methods.len()),
    }
}

pub open spec fn stmts_far(ss: Seq<SpecStmt>, n: nat) -> bool
    decreases ss, n,
{
    if n == 0 || n > ss.len() {
        true
    } else {
        stmts_far(ss, (n - 1) as nat) && stmt_far(ss[n - 1])
    }
}

pub open spec fn fn_far(f: SpecFnDecl) -> bool
    decreases f, 0nat,
{
    stmts_far(f.body, f.body.len())
}

pub open spec fn fns_far(fs: Seq<SpecFnDecl>, n: nat) -> bool
    decreases fs, n,
{
    if n == 0 || n > fs.len() {
        true
    } else {
        fns_far(fs, (n - 1) as nat) && fn_far(fs[n - 1])
    }
}

/// A lookup that starts at least one scope out binds at least one scope
/// out.
pub proof fn lemma_access_from_far(
    st: SpecResolver,
    var: SpecVariable,
    status: VariableStatus,
    k: int,
)
    requires
        1 <= k,
        var.target is None,
    ensures
        access_from(st, var, status, k).1.target matches Some(t) ==> t.scope_count >= 1,
    decreases st.scopes.len() - k,
{
    if k < st.scopes.len() {
        let at = st.scopes.len() - 1 - k;
        if find(st.scopes[at], var.ident.name) is None {
            lemma_access_from_far(st, var, status, k + 1);
        }
    }
}

/// A lookup of a name that the innermost scope does not have binds at
/// least one scope out.
pub proof fn lemma_access_far(st: SpecResolver, var: SpecVariable, status: VariableStatus)
    requires
        var.target is None,
        !top(st).contains(var.ident.name),
    ensures
        access(st, var, status).1.target matches Some(t) ==> t.scope_count >= 1,
{
    reveal(access);
    if st.scopes.len() > 0 {
        lemma_find_names(st.scopes.last(), var.ident.name);
        assert(st.scopes[st.scopes.len() - 1 - 0] == st.scopes.last());
        lemma_access_from_far(st, var, status, 1);
    }
}

/// Declaring names other than `super` leaves the names free of it.
pub proof fn lemma_add_names_free(ns: Seq<Seq<char>>, xs: Seq<Seq<char>>, n: nat)
    requires
        free(ns),
        n <= xs.len(),
        forall|i: int| 0 <= i < n ==> xs[i] != "super"@,
    ensures
        free(add_names(ns, xs, n)),
    decreases n,
{
    if n > 0 {
        lemma_add_names_free(ns, xs, (n - 1) as nat);
        let before = add_names(ns, xs, (n - 1) as nat);
        let after = add_name(before, xs[n - 1]);
        if after.contains("super"@) {
            let i = choose|i: int| 0 <= i < after.len() && after[i] == "super"@;
            if i < before.len() {
                assert(before[i] == "super"@);
            }
        }
    }
}

/// A statement that is plain declares no `super`.
pub proof fn lemma_declares_free(s: SpecStmt)
    requires
        stmt_plain(s),
    ensures
        forall|i: int| 0 <= i < declares(s).len() ==> declares(s)[i] != "super"@,
    decreases s,
{
    match s {
        SpecStmt::If { then_branch, else_branch, .. } => {
            lemma_declares_free(*then_branch);
            let a = declares(*then_branch);
            match else_branch {
                Some(e) => {
                    lemma_declares_free(*e);
                    let b = declares(*e);
                    assert(declares(s) == a + b);
                    assert forall|i: int| 0 <= i < (a + b).len() implies (a + b)[i] != "super"@ by {
                        if i < a.len() {
                            assert((a + b)[i] == a[i]);
                        } else {
                            assert((a + b)[i] == b[i - a.len()]);
                        }
                    }
                },
                None => {
                    assert(a + Seq::<Seq<char>>::empty() =~= a);
                    assert(declares(s) == a);
                },
            }
        },
        SpecStmt::While { body, .. } => {
            lemma_declares_free(*body);
            assert(declares(s) == declares(*body));
        },
        SpecStmt::Var { var, .. } => {
            assert(declares(s) == seq![var.ident.name]);
        },
        SpecStmt::FnDecl(f) => {
            reveal_with_fuel(stmt_plain, 2);
            assert(fn_plain(f));
            assert(declares(s) == seq![f.var.ident.name]);
        },
        SpecStmt::ClassDecl { var, .. } => {
            assert(declares(s) == seq![var.ident.name]);
        },
        _ => {
            assert(declares(s) =~= Seq::<Seq<char>>::empty());
        },
    }
}

/// An unbound `super` is not bound in the scope that it stands in.
pub proof fn lemma_plain_exprs_are_far(es: Seq<SpecExpr>, n: nat)
    requires
        n <= es.len(),
        exprs_plain(es, n),
    ensures
        exprs_far(es, n),
    decreases es, n,
{
    if n > 0 {
        lemma_plain_exprs_are_far(es, (n - 1) as nat);
        lemma_plain_is_far(es[n - 1]);
    }
}

/// An unbound `super` is not bound in the scope that it stands in.
pub proof fn lemma_plain_is_far(e: SpecExpr)
    requires
        expr_plain(e),
    ensures
        expr_far(e),
    decreases e, 0nat,
{
    match e {
        SpecExpr::Binary { left, right, .. } => {
            lemma_plain_is_far(*left);
            lemma_plain_is_far(*right);
        },
        SpecExpr::Unary { operand, .. } => {
            lemma_plain_is_far(*operand);
        },
        SpecExpr::Group { expr, .. } => {
            lemma_plain_is_far(*expr);
        },
        SpecExpr::Ternary { condition, truthy, falsy } => {
            lemma_plain_is_far(*condition);
            lemma_plain_is_far(*truthy);
            lemma_plain_is_far(*falsy);
        },
        SpecExpr::Assign { value, .. } => {
            lemma_plain_is_far(*value);
        },
        SpecExpr::FnCall { callee, arguments, .. } => {
            lemma_plain_is_far(*callee);
            lemma_plain_exprs_are_far(arguments, arguments.len());
        },
        SpecExpr::Get { object, .. } => {
            lemma_plain_is_far(*object);
        },
        SpecExpr::SetField { object, value, .. } => {
            lemma_plain_is_far(*object);
            lemma_plain_is_far(*value);
        },
        _ => {},
    }
}

/// The parameters of a plain function leave its frame free of `super`.
pub proof fn lemma_params_free(ps: Seq<SpecVariable>, n: nat)
    requires
        n <= ps.len(),
        forall|i: int| 0 <= i < ps.len() ==> (#[trigger] ps[i]).ident.name != "super"@,
    ensures
        free(params_in(ps, n)),
    decreases n,
{
    if n > 0 {
        lemma_params_free(ps, (n - 1) as nat);
        let before = params_in(ps, (n - 1) as nat);
        let after = add_name(before, ps[n - 1].ident.name);
        if after.contains("super"@) {
            let i = choose|i: int| 0 <= i < after.len() && after[i] == "super"@;
            if i < before.len() {
                assert(before[i] == "super"@);
            }
        }
    }
}

/// What is far of the first expressions stays far when more are looked at.
pub proof fn lemma_exprs_far_same(a: Seq<SpecExpr>, b: Seq<SpecExpr>, n: nat)
    requires
        n <= a.len(),
        n <= b.len(),
        forall|i: int| 0 <= i < n ==> a[i] == b[i],
        exprs_far(a, n),
    ensures
        exprs_far(b, n),
    decreases n,
{
    if n > 0 {
        lemma_exprs_far_same(a, b, (n - 1) as nat);
    }
}

pub proof fn lemma_stmts_far_same(a: Seq<SpecStmt>, b: Seq<SpecStmt>, n: nat)
    requires
        n <= a.len(),
        n <= b.len(),
        forall|i: int| 0 <= i < n ==> a[i] == b[i],
        stmts_far(a, n),
    ensures
        stmts_far(b, n),
    decreases n,
{
    if n > 0 {
        lemma_stmts_far_same(a, b, (n - 1) as nat);
    }
}

pub proof fn lemma_fns_far_same(a: Seq<SpecFnDecl>, b: Seq<SpecFnDecl>, n: nat)
    requires
        n <= a.len(),
        n <= b.len(),
        forall|i: int| 0 <= i < n ==> a[i] == b[i],
        fns_far(a, n),
    ensures
        fns_far(b, n),
    decreases n,
{
    if n > 0 {
        lemma_fns_far_same(a, b, (n - 1) as nat);
    }
}

pub proof fn lemma_exprs_far(st: SpecResolver, es: Seq<SpecExpr>, n: nat)
    requires
        sound(st),
        free(top(st)),
        n <= es.len(),
        exprs_plain(es, n),
    ensures
        exprs_far(res_exprs(st, es, n).1, n),
        res_exprs(st, es, n).1.len() == n,
    decreases es, n,
{
    if n > 0 {
        let m = (n - 1) as nat;
        lemma_exprs_far(st, es, m);
        lemma_exprs_frame(st, es, m);
        lemma_expr_far(res_exprs(st, es, m).0, es[n - 1]);
        lemma_exprs_far_same(res_exprs(st, es, m).1, res_exprs(st, es, n).1, m);
    }
}

/// Resolving a plain expression where the innermost scope has no `super`
/// binds every `super` at least one scope out.
pub proof fn lemma_expr_far(st: SpecResolver, e: SpecExpr)
    requires
        sound(st),
        free(top(st)),
        expr_plain(e),
    ensures
        expr_far(res_expr(st, e).1),
    decreases e, 0nat,
{
    match e {
        SpecExpr::Binary { operator, left, right } => {
            lemma_expr_far(st, *left);
            lemma_expr_frame(st, *left);
            lemma_expr_far(res_expr(st, *left).0, *right);
        },
        SpecExpr::Unary { op_span, operator, operand } => {
            lemma_expr_far(st, *operand);
        },
        SpecExpr::Group { span, expr } => {
            lemma_expr_far(st, *expr);
        },
        SpecExpr::Literal { .. } => {},
        SpecExpr::Ternary { condition, truthy, falsy } => {
            lemma_expr_far(st, *condition);
            lemma_expr_frame(st, *condition);
            let st1 = res_expr(st, *condition).0;
            lemma_expr_far(st1, *truthy);
            lemma_expr_frame(st1, *truthy);
            lemma_expr_far(res_expr(st1, *truthy).0, *falsy);
        },
        SpecExpr::Assign { var, value } => {
            lemma_expr_far(st, *value);
        },
        SpecExpr::Var(var) => {},
        SpecExpr::FnCall { callee, arguments, end } => {
            lemma_expr_far(st, *callee);
            lemma_expr_frame(st, *callee);
            lemma_exprs_far(res_expr(st, *callee).0, arguments, arguments.len());
        },
        SpecExpr::Get { object, field } => {
            lemma_expr_far(st, *object);
        },
        SpecExpr::SetField { object, field, value } => {
            lemma_expr_far(st, *object);
            lemma_expr_frame(st, *object);
            lemma_expr_far(res_expr(st, *object).0, *value);
        },
        SpecExpr::Super { var, method } => {
            if st.class_type is SubClass {
                lemma_access_far(st, var, VariableStatus::Used);
            }
        },
    }
}

pub proof fn lemma_stmts_far(st: SpecResolver, ss: Seq<SpecStmt>, n: nat)
    requires
        sound(st),
        free(top(st)),
        n <= ss.len(),
        stmts_plain(ss, n),
    ensures
        stmts_far(res_stmts(st, ss, n).1, n),
        free(top(res_stmts(st, ss, n).0)),
        res_stmts(st, ss, n).1.len() == n,
    decreases ss, n,
{
    lemma_stmts_frame(st, ss, n);
    if n > 0 {
        let m = (n - 1) as nat;
        lemma_stmts_far(st, ss, m);
        lemma_stmts_frame(st, ss, m);
        let st1 = res_stmts(st, ss, m).0;
        lemma_stmt_far(st1, ss[n - 1]);
        lemma_stmts_far_same(res_stmts(st, ss, m).1, res_stmts(st, ss, n).1, m);
    }
}

pub proof fn lemma_function_far(st: SpecResolver, f: SpecFnDecl)
    requires
        sound(st),
        fn_plain(f),
    ensures
        fn_far(res_function(st, f).1),
    decreases f, 0nat,
{
    lemma_start_scope(st);
    let st1 = start_scope(st);
    lemma_params_frame(st1, f.params, f.params.len());
    lemma_params_free(f.params, f.params.len());
    let st2 = res_params(st1, f.params, f.params.len()).0;
    lemma_stmts_far(st2, f.body, f.body.len());
}

pub proof fn lemma_methods_far(st: SpecResolver, ms: Seq<SpecFnDecl>, n: nat)
    requires
        sound(st),
        n <= ms.len(),
        fns_plain(ms, n),
    ensures
        fns_far(res_methods(st, ms, n).1, n),
        res_methods(st, ms, n).1.len() == n,
    decreases ms, n,
{
    lemma_methods_frame(st, ms, n);
    if n > 0 {
        let m = (n - 1) as nat;
        lemma_methods_far(st, ms, m);
        lemma_methods_frame(st, ms, m);
        let st1 = res_methods(st, ms, m).0;
        let method = ms[n - 1];
        lemma_function_far(st1.with_function(method_type(method.var.ident.name)), method);
        lemma_methods_frame(st, ms, n);
        lemma_fns_far_same(res_methods(st, ms, m).1, res_methods(st, ms, n).1, m);
    }
}

/// Resolving a plain statement where the innermost scope has no `super`
/// binds every `super` at least one scope out, and leaves the innermost
/// scope without `super`.
pub proof fn lemma_stmt_far(st: SpecResolver, s: SpecStmt)
    requires
        sound(st),
        free(top(st)),
        stmt_plain(s),
    ensures
        stmt_far(res_stmt(st, s).1),
        free(top(res_stmt(st, s).0)),
    decreases s, 0nat,
{
    lemma_stmt_frame(st, s);
    lemma_declares_free(s);
    lemma_add_names_free(top(st), declares(s), declares(s).len());
    match s {
        SpecStmt::Print(e) => {
            lemma_expr_far(st, e);
        },
        SpecStmt::Expression(e) => {
            lemma_expr_far(st, e);
        },
        SpecStmt::Var { var, initializer } => {
            lemma_declare_frame(st, var, false);
            let st1 = declare(st, var, false).0;
            lemma_add_names_free(top(st), seq![var.ident.name], 1);
            match initializer {
                Some(e) => {
                    lemma_expr_far(st1, e);
                },
                None => {},
            }
        },
        SpecStmt::Block { statements, num_of_locals } => {
            lemma_start_scope(st);
            lemma_stmts_far(start_scope(st), statements, statements.len());
        },
        SpecStmt::If { condition, then_branch, else_branch } => {
            lemma_expr_far(st, condition);
            lemma_expr_frame(st, condition);
            let st1 = res_expr(st, condition).0;
            lemma_stmt_far(st1, *then_branch);
            lemma_stmt_frame(st1, *then_branch);
            match else_branch {
                Some(e) => {
                    lemma_stmt_far(res_stmt(st1, *then_branch).0, *e);
                },
                None => {},
            }
        },
        SpecStmt::While { condition, body } => {
            lemma_expr_far(st, condition);
            lemma_expr_frame(st, condition);
            lemma_stmt_far(res_expr(st, condition).0, *body);
        },
        SpecStmt::FnDecl(f) => {
            lemma_declare_frame(st, f.var, true);
            let st1 = declare(st, f.var, true).0;
            lemma_function_far(st1.with_function(FunctionType::Function), f);
            let f2 = res_function(st1.with_function(FunctionType::Function), f).1;
            let renamed = SpecFnDecl { var: declare(st, f.var, true).1, ..f2 };
            assert(fn_far(f2));
            assert(fn_far(renamed));
            assert(res_stmt(st, s).1 == SpecStmt::FnDecl(renamed));
        },
        SpecStmt::Return { span, expr } => {
            if !(st.function_type is Outside) {
                match expr {
                    Some(e) => {
                        let st1 = if st.function_type is Initializer {
                            st.with_error(
                                crate::error::SpecResolverError::ReturnInConstructor(span),
                            )
                        } else {
                            st
                        };
                        lemma_expr_far(st1, e);
                    },
                    None => {},
                }
            } else {
                match expr {
                    Some(e) => {
                        lemma_plain_is_far(e);
                    },
                    None => {},
                }
            }
        },
        SpecStmt::ClassDecl { var, super_class, methods } => {
            lemma_declare_frame(st, var, true);
            let st1 = declare(st, var, true).0;
            match super_class {
                Some(sv) => {
                    lemma_access_frame(st1, sv, VariableStatus::Used);
                    let a = access(st1, sv, VariableStatus::Used).0;
                    lemma_start_class_scope(a, sv.ident.span, true);
                    let st2 = start_class_scope(a, sv.ident.span, true).with_class(
                        ClassType::SubClass,
                    );
                    lemma_start_class_scope(st2, var.ident.span, false);
                    let st3 = start_class_scope(st2, var.ident.span, false);
                    lemma_methods_far(st3, methods, methods.len());
                },
                None => {
                    let st2 = st1.with_class(ClassType::Class);
                    lemma_start_class_scope(st2, var.ident.span, false);
                    let st3 = start_class_scope(st2, var.ident.span, false);
                    lemma_methods_far(st3, methods, methods.len());
                },
            }
        },
    }
}

/// In a program that declares nothing named `super` and comes from the
/// parser with every `super` unbound, resolved by a resolver that has
/// seen nothing, every `super` that is bound is bound at least one scope
/// out of the scope that it stands in.
pub proof fn lemma_super_is_far(ast: Seq<SpecStmt>)
    requires
        stmts_plain(ast, ast.len()),
    ensures
        stmts_far(res_stmts(SpecResolver::fresh(), ast, ast.len()).1, ast.len()),
{
    lemma_stmts_far(SpecResolver::fresh(), ast, ast.len());
}

} // verus!
