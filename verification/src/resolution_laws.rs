//! What holds of name resolution, proved of [`crate::resolution`].

use vstd::prelude::*;
use crate::ast::expr::SpecExpr;
use crate::ast::ident::SpecVariable;
use crate::ast::stmt::{SpecFnDecl, SpecStmt};
use crate::resolution::{access, access_from, bound, declare, end_scope, find, find_from, mark, method_type, res_expr, res_exprs, res_function, res_methods, res_params, res_program, res_stmt, res_stmts, res_var, scope_declare, start_class_scope, start_scope, ClassType, FunctionType, SpecResolver, SpecVarInfo, VariableStatus, MAX_LOCALS};

verus! {

/// `find_from` gives the first slot at or after `i` that holds the name.
pub proof fn lemma_find_from(scope: Seq<SpecVarInfo>, name: Seq<char>, i: int)
    requires
        0 <= i,
    ensures
        match find_from(scope, name, i) {
            Some(j) => i <= j < scope.len() && scope[j].name == name && forall|k: int|
                i <= k < j ==> (#[trigger] scope[k]).name != name,
            None => forall|k: int| i <= k < scope.len() ==> (#[trigger] scope[k]).name != name,
        },
    decreases scope.len() - i,
{
    if i < scope.len() && scope[i].name != name {
        lemma_find_from(scope, name, i + 1);
    }
}

/// What declaring does depends on the identifier of the variable alone, and
/// the variable comes back bound by its identifier or as it was.
pub proof fn lemma_declare_ident(st: SpecResolver, a: SpecVariable, b: SpecVariable, init: bool)
    requires
        a.ident == b.ident,
    ensures
        declare(st, a, init).0 == declare(st, b, init).0,
        declare(st, a, init).1.ident == a.ident,
        declare(st, a, init).1 == declare(st, b, init).1 || (declare(st, a, init).1 == a
            && declare(st, b, init).1 == b),
{
    reveal(declare);
}

/// What a lookup does depends on the identifier of the variable alone, and
/// the variable comes back bound by its identifier or as it was.
pub proof fn lemma_access_from_ident(
    st: SpecResolver,
    a: SpecVariable,
    b: SpecVariable,
    status: VariableStatus,
    k: int,
)
    requires
        a.ident == b.ident,
    ensures
        access_from(st, a, status, k).0 == access_from(st, b, status, k).0,
        access_from(st, a, status, k).1.ident == a.ident,
        access_from(st, a, status, k).1 == access_from(st, b, status, k).1 || (access_from(
            st,
            a,
            status,
            k,
        ).1 == a && access_from(st, b, status, k).1 == b),
    decreases st.scopes.len() - k,
{
    if 0 <= k < st.scopes.len() {
        let at = st.scopes.len() - 1 - k;
        if find(st.scopes[at], a.ident.name) is None {
            lemma_access_from_ident(st, a, b, status, k + 1);
        }
    }
}

/// What a lookup does depends on the identifier of the variable alone, and
/// the variable comes back bound by its identifier or as it was.
pub proof fn lemma_access_ident(
    st: SpecResolver,
    a: SpecVariable,
    b: SpecVariable,
    status: VariableStatus,
)
    requires
        a.ident == b.ident,
    ensures
        access(st, a, status).0 == access(st, b, status).0,
        access(st, a, status).1.ident == a.ident,
        access(st, a, status).1 == access(st, b, status).1 || (access(st, a, status).1 == a
            && access(st, b, status).1 == b),
{
    reveal(access);
    lemma_access_from_ident(st, a, b, status, 0);
}

/// Declaring a variable that was declared from the same state changes
/// nothing more.
pub proof fn lemma_declare_twice(st: SpecResolver, v: SpecVariable, init: bool)
    ensures
        declare(st, declare(st, v, init).1, init) == declare(st, v, init),
        declare(st, v, init).1.ident == v.ident,
{
    lemma_declare_ident(st, v, v, init);
    lemma_declare_ident(st, v, declare(st, v, init).1, init);
}

/// Looking up a variable that was looked up from the same state changes
/// nothing more.
pub proof fn lemma_access_twice(st: SpecResolver, v: SpecVariable, status: VariableStatus)
    ensures
        access(st, access(st, v, status).1, status) == access(st, v, status),
        access(st, v, status).1.ident == v.ident,
{
    lemma_access_ident(st, v, v, status);
    lemma_access_ident(st, v, access(st, v, status).1, status);
}

/// A lookup binds the variable to the innermost scope that has its name:
/// the target tells how many scopes out that is and which slot it is.
/// A variable whose name no scope has stays as it was, and so does the
/// state: the name is a global.
pub proof fn lemma_access_binds(
    st: SpecResolver,
    var: SpecVariable,
    status: VariableStatus,
    k: int,
)
    requires
        0 <= k,
        st.scopes.len() <= MAX_LOCALS,
        forall|j: int| 0 <= j < st.scopes.len() ==> (#[trigger] st.scopes[j]).len() <= MAX_LOCALS,
    ensures
        ({
            let out = access_from(st, var, status, k);
            let n = st.scopes.len();
            if exists|d: int| k <= d < n && find(#[trigger] st.scopes[n - 1 - d], var.ident.name) is Some {
                &&& out.1.target matches Some(t)
                &&& k <= t.scope_count < n
                &&& find(st.scopes[n - 1 - t.scope_count], var.ident.name) == Some(t.index as int)
                &&& forall|d: int|
                    k <= d < t.scope_count ==> find(
                        #[trigger] st.scopes[n - 1 - d],
                        var.ident.name,
                    ) is None
            } else {
                out == (st, var)
            }
        }),
    decreases st.scopes.len() - k,
{
    let n = st.scopes.len();
    if k < n {
        let at = n - 1 - k;
        match find(st.scopes[at], var.ident.name) {
            Some(i) => {
                lemma_find_from(st.scopes[at], var.ident.name, 0);
                assert(k <= k < n && find(st.scopes[n - 1 - k], var.ident.name) is Some);
            },
            None => {
                lemma_access_binds(st, var, status, k + 1);
                if exists|d: int| k <= d < n && find(#[trigger] st.scopes[n - 1 - d], var.ident.name) is Some {
                    let d = choose|d: int| k <= d < n && find(#[trigger] st.scopes[n - 1 - d], var.ident.name) is Some;
                    assert(k + 1 <= d < n && find(st.scopes[n - 1 - d], var.ident.name) is Some);
                    let t = access_from(st, var, status, k + 1).1.target->0;
                    assert forall|d: int| k <= d < t.scope_count implies find(
                        #[trigger] st.scopes[n - 1 - d],
                        var.ident.name,
                    ) is None by {
                        if d == k {
                        }
                    }
                } else {
                    assert forall|d: int| k + 1 <= d < n implies !(find(
                        #[trigger] st.scopes[n - 1 - d],
                        var.ident.name,
                    ) is Some) by {
                    }
                }
            },
        }
    }
}

/// `super` in a subclass, when the innermost scope has no `super` of its
/// own, is bound at least one scope out.
pub proof fn lemma_super_skips_a_scope(st: SpecResolver, var: SpecVariable)
    requires
        st.class_type is SubClass,
        var.ident.name == "super"@,
        st.scopes.len() <= MAX_LOCALS,
        forall|j: int| 0 <= j < st.scopes.len() ==> (#[trigger] st.scopes[j]).len() <= MAX_LOCALS,
        st.scopes.len() > 0 ==> find(st.scopes.last(), "super"@) is None,
        var.target is None,
    ensures
        access(st, var, VariableStatus::Used).1.target matches Some(t) ==> t.scope_count >= 1,
{
    reveal(access);
    lemma_access_binds(st, var, VariableStatus::Used, 0);
    let n = st.scopes.len();
    let out = access_from(st, var, VariableStatus::Used, 0);
    if out.1.target is Some {
        let t = out.1.target->0;
        if exists|d: int| 0 <= d < n && find(#[trigger] st.scopes[n - 1 - d], var.ident.name) is Some {
            if t.scope_count == 0 {
                assert(st.scopes[n - 1 - 0] == st.scopes.last());
            }
        }
    }
}

/// No two slots of the scope hold the same name.
pub open spec fn distinct_names(scope: Seq<SpecVarInfo>) -> bool {
    forall|i: int, j: int|
        0 <= i < j < scope.len() ==> (#[trigger] scope[i]).name != (#[trigger] scope[j]).name
}

/// The names of a scope, in the order of their slots.
pub open spec fn names(scope: Seq<SpecVarInfo>) -> Seq<Seq<char>> {
    scope.map_values(|info: SpecVarInfo| info.name)
}

/// Declaring keeps the names of a scope distinct, and adds the name exactly
/// when the scope did not have it and had room.
pub proof fn lemma_scope_declare_distinct(
    scope: Seq<SpecVarInfo>,
    name: Seq<char>,
    span: crate::span::Span,
    initialized: bool,
)
    requires
        distinct_names(scope),
    ensures
        distinct_names(scope_declare(scope, name, span, initialized).0),
        names(scope_declare(scope, name, span, initialized).0) == if find(scope, name) is None
            && scope.len() < MAX_LOCALS {
            names(scope).push(name)
        } else {
            names(scope)
        },
{
    reveal(scope_declare);
    lemma_find_from(scope, name, 0);
    let out = scope_declare(scope, name, span, initialized).0;
    if find(scope, name) is None && scope.len() < MAX_LOCALS {
        assert(names(out) =~= names(scope).push(name));
    }
}

/// Setting a status keeps the names of a scope.
pub proof fn lemma_mark_names(scope: Seq<SpecVarInfo>, i: int, status: VariableStatus)
    requires
        0 <= i < scope.len(),
        distinct_names(scope),
    ensures
        names(mark(scope, i, status)) == names(scope),
        distinct_names(mark(scope, i, status)),
{
    assert(names(mark(scope, i, status)) =~= names(scope));
}

/// The count that closing a scope gives is the number of the distinct names
/// declared in it.
pub proof fn lemma_end_scope_counts(st: SpecResolver)
    requires
        st.scopes.len() > 0,
        st.scopes.last().len() <= MAX_LOCALS,
        distinct_names(st.scopes.last()),
    ensures
        end_scope(st).1 == names(st.scopes.last()).to_set().len(),
        end_scope(st).1 == st.scopes.last().len(),
        end_scope(st).0.scopes == st.scopes.drop_last(),
{
    reveal(end_scope);
    let ns = names(st.scopes.last());
    assert(ns.no_duplicates()) by {
        assert forall|i: int, j: int| 0 <= i < ns.len() && 0 <= j < ns.len() && i != j implies ns[i]
            != ns[j] by {
            if i < j {
                assert(st.scopes.last()[i].name != st.scopes.last()[j].name);
            } else {
                assert(st.scopes.last()[j].name != st.scopes.last()[i].name);
            }
        }
    }
    ns.unique_seq_to_set();
}

/// Resolving gives as many expressions as it was asked for, and a shorter
/// run gives the start of a longer one.
pub proof fn lemma_res_exprs_len(st: SpecResolver, es: Seq<SpecExpr>, n: nat)
    requires
        n <= es.len(),
    ensures
        res_exprs(st, es, n).1.len() == n,
        n > 0 ==> res_exprs(st, es, n).1.take(n - 1) == res_exprs(st, es, (n - 1) as nat).1,
    decreases n,
{
    if n > 0 {
        lemma_res_exprs_len(st, es, (n - 1) as nat);
        assert(res_exprs(st, es, n).1.take(n - 1) =~= res_exprs(st, es, (n - 1) as nat).1);
    }
}

pub proof fn lemma_res_stmts_len(st: SpecResolver, ss: Seq<SpecStmt>, n: nat)
    requires
        n <= ss.len(),
    ensures
        res_stmts(st, ss, n).1.len() == n,
        n > 0 ==> res_stmts(st, ss, n).1.take(n - 1) == res_stmts(st, ss, (n - 1) as nat).1,
    decreases n,
{
    if n > 0 {
        lemma_res_stmts_len(st, ss, (n - 1) as nat);
        assert(res_stmts(st, ss, n).1.take(n - 1) =~= res_stmts(st, ss, (n - 1) as nat).1);
    }
}

pub proof fn lemma_res_methods_len(st: SpecResolver, ms: Seq<SpecFnDecl>, n: nat)
    requires
        n <= ms.len(),
    ensures
        res_methods(st, ms, n).1.len() == n,
        n > 0 ==> res_methods(st, ms, n).1.take(n - 1) == res_methods(st, ms, (n - 1) as nat).1,
    decreases n,
{
    if n > 0 {
        lemma_res_methods_len(st, ms, (n - 1) as nat);
        assert(res_methods(st, ms, n).1.take(n - 1) =~= res_methods(st, ms, (n - 1) as nat).1);
    }
}

pub proof fn lemma_res_params_len(st: SpecResolver, ps: Seq<SpecVariable>, n: nat)
    requires
        n <= ps.len(),
    ensures
        res_params(st, ps, n).1.len() == n,
        n > 0 ==> res_params(st, ps, n).1.take(n - 1) == res_params(st, ps, (n - 1) as nat).1,
    decreases n,
{
    if n > 0 {
        lemma_res_params_len(st, ps, (n - 1) as nat);
        assert(res_params(st, ps, n).1.take(n - 1) =~= res_params(st, ps, (n - 1) as nat).1);
    }
}

/// Declaring parameters that were declared from the same state changes
/// nothing more.
pub proof fn lemma_params_twice(
    st: SpecResolver,
    ps: Seq<SpecVariable>,
    out: Seq<SpecVariable>,
    n: nat,
)
    requires
        n <= ps.len(),
        n <= out.len(),
        out.take(n as int) == res_params(st, ps, n).1,
    ensures
        res_params(st, out, n) == res_params(st, ps, n),
    decreases n,
{
    if n > 0 {
        let m = (n - 1) as nat;
        lemma_res_params_len(st, ps, n);
        assert(out.take(m as int) =~= out.take(n as int).take(m as int));
        lemma_params_twice(st, ps, out, m);
        let st1 = res_params(st, ps, m).0;
        assert(out[n - 1] == out.take(n as int)[n - 1]);
        lemma_declare_twice(st1, ps[n - 1], true);
    }
}

/// Resolving expressions that were resolved from the same state changes
/// nothing more.
pub proof fn lemma_exprs_twice(st: SpecResolver, es: Seq<SpecExpr>, out: Seq<SpecExpr>, n: nat)
    requires
        n <= es.len(),
        n <= out.len(),
        out.take(n as int) == res_exprs(st, es, n).1,
    ensures
        res_exprs(st, out, n) == res_exprs(st, es, n),
    decreases es, n,
{
    if n > 0 {
        let m = (n - 1) as nat;
        lemma_res_exprs_len(st, es, n);
        assert(out.take(m as int) =~= out.take(n as int).take(m as int));
        lemma_exprs_twice(st, es, out, m);
        let st1 = res_exprs(st, es, m).0;
        assert(out[n - 1] == out.take(n as int)[n - 1]);
        lemma_expr_twice(st1, es[n - 1]);
    }
}

/// Resolving an expression that was resolved from the same state changes
/// nothing more.
pub proof fn lemma_expr_twice(st: SpecResolver, e: SpecExpr)
    ensures
        res_expr(st, res_expr(st, e).1) == res_expr(st, e),
    decreases e, 0nat,
{
    match e {
        SpecExpr::Binary { operator, left, right } => {
            lemma_expr_twice(st, *left);
            lemma_expr_twice(res_expr(st, *left).0, *right);
        },
        SpecExpr::Unary { op_span, operator, operand } => {
            lemma_expr_twice(st, *operand);
        },
        SpecExpr::Group { span, expr } => {
            lemma_expr_twice(st, *expr);
        },
        SpecExpr::Literal { .. } => {},
        SpecExpr::Ternary { condition, truthy, falsy } => {
            lemma_expr_twice(st, *condition);
            let st1 = res_expr(st, *condition).0;
            lemma_expr_twice(st1, *truthy);
            lemma_expr_twice(res_expr(st1, *truthy).0, *falsy);
        },
        SpecExpr::Assign { var, value } => {
            lemma_expr_twice(st, *value);
            lemma_access_twice(res_expr(st, *value).0, var, VariableStatus::Initialized);
        },
        SpecExpr::Var(var) => {
            lemma_var_twice(st, var);
        },
        SpecExpr::FnCall { callee, arguments, end } => {
            lemma_expr_twice(st, *callee);
            let st1 = res_expr(st, *callee).0;
            let out = res_exprs(st1, arguments, arguments.len()).1;
            lemma_res_exprs_len(st1, arguments, arguments.len());
            assert(out.take(arguments.len() as int) =~= out);
            lemma_exprs_twice(st1, arguments, out, arguments.len());
        },
        SpecExpr::Get { object, field } => {
            lemma_expr_twice(st, *object);
        },
        SpecExpr::SetField { object, field, value } => {
            lemma_expr_twice(st, *object);
            lemma_expr_twice(res_expr(st, *object).0, *value);
        },
        SpecExpr::Super { var, method } => {
            lemma_access_twice(st, var, VariableStatus::Used);
        },
    }
}

/// Resolving a read that was resolved from the same state changes nothing
/// more.
pub proof fn lemma_var_twice(st: SpecResolver, var: SpecVariable)
    ensures
        res_var(st, res_var(st, var).1) == res_var(st, var),
        res_var(st, var).1.ident == var.ident,
{
    let st1 = if var.ident.name == "this"@ && st.function_type is Outside {
        st.with_error(crate::error::SpecResolverError::InvalidThis(var.ident.span))
    } else {
        st
    };
    lemma_access_twice(st1, var, VariableStatus::Used);
}

/// Resolving statements that were resolved from the same state changes
/// nothing more.
pub proof fn lemma_stmts_twice(st: SpecResolver, ss: Seq<SpecStmt>, out: Seq<SpecStmt>, n: nat)
    requires
        n <= ss.len(),
        n <= out.len(),
        out.take(n as int) == res_stmts(st, ss, n).1,
    ensures
        res_stmts(st, out, n) == res_stmts(st, ss, n),
    decreases ss, n,
{
    if n > 0 {
        let m = (n - 1) as nat;
        lemma_res_stmts_len(st, ss, n);
        assert(out.take(m as int) =~= out.take(n as int).take(m as int));
        lemma_stmts_twice(st, ss, out, m);
        let st1 = res_stmts(st, ss, m).0;
        assert(out[n - 1] == out.take(n as int)[n - 1]);
        lemma_stmt_twice(st1, ss[n - 1]);
    }
}

/// Resolving a function that was resolved from the same state changes
/// nothing more, whatever its name is bound to.
pub proof fn lemma_function_twice(st: SpecResolver, f: SpecFnDecl, v: SpecVariable)
    ensures
        res_function(st, SpecFnDecl { var: v, ..res_function(st, f).1 }) == (
            res_function(st, f).0,
            SpecFnDecl { var: v, ..res_function(st, f).1 },
        ),
        res_function(st, f).1.var == f.var,
    decreases f, 0nat,
{
    let st1 = start_scope(st);
    let (st2, params) = res_params(st1, f.params, f.params.len());
    let (st3, body) = res_stmts(st2, f.body, f.body.len());
    lemma_res_params_len(st1, f.params, f.params.len());
    assert(params.take(f.params.len() as int) =~= params);
    lemma_params_twice(st1, f.params, params, f.params.len());
    lemma_res_stmts_len(st2, f.body, f.body.len());
    assert(body.take(f.body.len() as int) =~= body);
    lemma_stmts_twice(st2, f.body, body, f.body.len());
}

/// Resolving methods that were resolved from the same state changes nothing
/// more.
pub proof fn lemma_methods_twice(
    st: SpecResolver,
    ms: Seq<SpecFnDecl>,
    out: Seq<SpecFnDecl>,
    n: nat,
)
    requires
        n <= ms.len(),
        n <= out.len(),
        out.take(n as int) == res_methods(st, ms, n).1,
    ensures
        res_methods(st, out, n) == res_methods(st, ms, n),
    decreases ms, n,
{
    if n > 0 {
        let m = (n - 1) as nat;
        lemma_res_methods_len(st, ms, n);
        assert(out.take(m as int) =~= out.take(n as int).take(m as int));
        lemma_methods_twice(st, ms, out, m);
        let st1 = res_methods(st, ms, m).0;
        assert(out[n - 1] == out.take(n as int)[n - 1]);
        let method = ms[n - 1];
        let st2 = st1.with_function(method_type(method.var.ident.name));
        lemma_function_twice(st2, method, method.var);
        assert(SpecFnDecl { var: method.var, ..res_function(st2, method).1 } == res_function(
            st2,
            method,
        ).1);
    }
}

/// Resolving a statement that was resolved from the same state changes
/// nothing more.
pub proof fn lemma_stmt_twice(st: SpecResolver, s: SpecStmt)
    ensures
        res_stmt(st, res_stmt(st, s).1) == res_stmt(st, s),
    decreases s, 0nat,
{
    match s {
        SpecStmt::Print(e) => {
            lemma_expr_twice(st, e);
        },
        SpecStmt::Expression(e) => {
            lemma_expr_twice(st, e);
        },
        SpecStmt::Var { var, initializer } => {
            lemma_declare_twice(st, var, false);
            let (st1, var1) = declare(st, var, false);
            match initializer {
                Some(e) => {
                    lemma_expr_twice(st1, e);
                    let st2 = res_expr(st1, e).0;
                    let var3 = access(st2, var1, VariableStatus::Initialized).1;
                    lemma_access_twice(st2, var1, VariableStatus::Initialized);
                    lemma_declare_ident(st, var, var3, false);
                    let var1b = declare(st, var3, false).1;
                    lemma_access_ident(st2, var1, var1b, VariableStatus::Initialized);
                    lemma_access_ident(st2, var1, var1, VariableStatus::Initialized);
                },
                None => {},
            }
        },
        SpecStmt::Block { statements, num_of_locals } => {
            let st1 = start_scope(st);
            let out = res_stmts(st1, statements, statements.len()).1;
            lemma_res_stmts_len(st1, statements, statements.len());
            assert(out.take(statements.len() as int) =~= out);
            lemma_stmts_twice(st1, statements, out, statements.len());
        },
        SpecStmt::If { condition, then_branch, else_branch } => {
            lemma_expr_twice(st, condition);
            let st1 = res_expr(st, condition).0;
            lemma_stmt_twice(st1, *then_branch);
            match else_branch {
                Some(e) => {
                    lemma_stmt_twice(res_stmt(st1, *then_branch).0, *e);
                },
                None => {},
            }
        },
        SpecStmt::While { condition, body } => {
            lemma_expr_twice(st, condition);
            lemma_stmt_twice(res_expr(st, condition).0, *body);
        },
        SpecStmt::FnDecl(f) => {
            lemma_declare_twice(st, f.var, true);
            let (st1, var1) = declare(st, f.var, true);
            lemma_function_twice(st1.with_function(FunctionType::Function), f, var1);
        },
        SpecStmt::Return { span, expr } => {
            if !(st.function_type is Outside) {
                match expr {
                    Some(e) => {
                        let st1 = if st.function_type is Initializer {
                            st.with_error(
                                crate::error::SpecResolverError::ReturnInConstructor(span),
                            )
                        } else {
                            st
                        };
                        lemma_expr_twice(st1, e);
                    },
                    None => {},
                }
            }
        },
        SpecStmt::ClassDecl { var, super_class, methods } => {
            lemma_declare_twice(st, var, true);
            let (st1, var1) = declare(st, var, true);
            let st2 = match super_class {
                Some(sv) => {
                    lemma_access_twice(st1, sv, VariableStatus::Used);
                    start_class_scope(
                        access(st1, sv, VariableStatus::Used).0,
                        sv.ident.span,
                        true,
                    ).with_class(ClassType::SubClass)
                },
                None => st1.with_class(ClassType::Class),
            };
            let st3 = start_class_scope(st2, var.ident.span, false);
            let out = res_methods(st3, methods, methods.len()).1;
            lemma_res_methods_len(st3, methods, methods.len());
            assert(out.take(methods.len() as int) =~= out);
            lemma_methods_twice(st3, methods, out, methods.len());
        },
    }
}

/// Resolving is idempotent: a program that was resolved from some state of
/// the resolver, resolved again from that state, comes out the same, with
/// the same targets and slot counts, and with the same diagnostics and no
/// more. A program that resolved without diagnostics resolves again
/// without any.
pub proof fn lemma_resolve_idempotent(st: SpecResolver, ast: Seq<SpecStmt>)
    ensures
        res_program(st, res_program(st, ast).1) == res_program(st, ast),
{
    reveal(res_program);
    let out = res_stmts(st, ast, ast.len()).1;
    lemma_res_stmts_len(st, ast, ast.len());
    assert(out.take(ast.len() as int) =~= out);
    lemma_stmts_twice(st, ast, out, ast.len());
}

} // verus!
