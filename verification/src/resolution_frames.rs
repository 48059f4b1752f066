//! The slot counts that resolution fills in are the numbers of the distinct
//! names declared in each frame, proved of [`crate::resolution`].

use vstd::prelude::*;
use crate::ast::expr::SpecExpr;
use crate::ast::ident::SpecVariable;
use crate::ast::stmt::{SpecFnDecl, SpecStmt};
use crate::resolution::{access, access_from, declare, end_scope, find, method_type, res_expr, res_exprs, res_function, res_methods, res_params, res_stmt, res_stmts, res_var, scope_declare, start_class_scope, start_scope, ClassType, FunctionType, SpecResolver, SpecVarInfo, VariableStatus, MAX_LOCALS};
use crate::resolution_laws::{
    distinct_names, lemma_access_ident, lemma_declare_ident, lemma_find_from, lemma_mark_names,
    lemma_scope_declare_distinct, names,
};

verus! {

/// The names of a frame after `name` is declared in it: it is added unless
/// the frame has it already or is full.
pub open spec fn add_name(ns: Seq<Seq<char>>, name: Seq<char>) -> Seq<Seq<char>> {
    if ns.contains(name) || ns.len() >= MAX_LOCALS {
        ns
    } else {
        ns.push(name)
    }
}

/// The names that a statement declares in the frame that it stands in, in
/// order: that of a variable, function or class declaration, and those of
/// the branches of an `if` and of the body of a `while`. What a block
/// declares, it declares in its own frame.
pub open spec fn declares(s: SpecStmt) -> Seq<Seq<char>>
    decreases s,
{
    match s {
        SpecStmt::Var { var, .. } => seq![var.ident.name],
        SpecStmt::FnDecl(f) => seq![f.var.ident.name],
        SpecStmt::ClassDecl { var, .. } => seq![var.ident.name],
        SpecStmt::If { then_branch, else_branch, .. } => declares(*then_branch) + match else_branch {
            Some(e) => declares(*e),
            None => Seq::empty(),
        },
        SpecStmt::While { body, .. } => declares(*body),
        _ => Seq::empty(),
    }
}

/// The names of a frame that had the names `ns` after the first `n` of the
/// names `xs` are declared in it.
pub open spec fn add_names(ns: Seq<Seq<char>>, xs: Seq<Seq<char>>, n: nat) -> Seq<Seq<char>>
    decreases n,
{
    if n == 0 || n > xs.len() {
        ns
    } else {
        add_name(add_names(ns, xs, (n - 1) as nat), xs[n - 1])
    }
}

/// The names of a frame that had the names `ns` after the names `xs` are
/// declared in it.
pub open spec fn add_all(ns: Seq<Seq<char>>, xs: Seq<Seq<char>>) -> Seq<Seq<char>> {
    add_names(ns, xs, xs.len())
}

/// The names of a frame that had the names `ns` after the first `n`
/// statements of `ss` have declared theirs.
pub open spec fn declared_in(ns: Seq<Seq<char>>, ss: Seq<SpecStmt>, n: nat) -> Seq<Seq<char>>
    decreases n,
{
    if n == 0 || n > ss.len() {
        ns
    } else {
        add_all(declared_in(ns, ss, (n - 1) as nat), declares(ss[n - 1]))
    }
}

/// Declaring names one list after the other is declaring the lists joined.
pub proof fn lemma_add_names_joined(
    ns: Seq<Seq<char>>,
    a: Seq<Seq<char>>,
    b: Seq<Seq<char>>,
    n: nat,
)
    requires
        n <= b.len(),
    ensures
        add_names(ns, a + b, a.len() + n) == add_names(add_all(ns, a), b, n),
    decreases n,
{
    if n == 0 {
        lemma_add_names_prefix(ns, a, a + b, a.len());
    } else {
        lemma_add_names_joined(ns, a, b, (n - 1) as nat);
        assert((a + b)[a.len() + n - 1] == b[n - 1]);
    }
}

/// Declaring the first names of a list looks at those names alone.
pub proof fn lemma_add_names_prefix(
    ns: Seq<Seq<char>>,
    a: Seq<Seq<char>>,
    b: Seq<Seq<char>>,
    n: nat,
)
    requires
        n <= a.len(),
        n <= b.len(),
        forall|i: int| 0 <= i < n ==> a[i] == b[i],
    ensures
        add_names(ns, a, n) == add_names(ns, b, n),
    decreases n,
{
    if n > 0 {
        lemma_add_names_prefix(ns, a, b, (n - 1) as nat);
    }
}

/// Declaring names one list after the other is declaring the lists joined.
pub proof fn lemma_add_all_joined(ns: Seq<Seq<char>>, a: Seq<Seq<char>>, b: Seq<Seq<char>>)
    ensures
        add_all(ns, a + b) == add_all(add_all(ns, a), b),
{
    lemma_add_names_joined(ns, a, b, b.len());
}

/// Declaring one name.
pub proof fn lemma_add_one(ns: Seq<Seq<char>>, name: Seq<char>)
    ensures
        add_all(ns, seq![name]) == add_name(ns, name),
        add_all(ns, Seq::empty()) == ns,
{
    reveal_with_fuel(add_names, 2);
}

/// The names of the frame of a function after its first `n` parameters.
pub open spec fn params_in(ps: Seq<SpecVariable>, n: nat) -> Seq<Seq<char>>
    decreases n,
{
    if n == 0 || n > ps.len() {
        Seq::empty()
    } else {
        add_name(params_in(ps, (n - 1) as nat), ps[n - 1].ident.name)
    }
}

/// The count of every block and function of the first `n` statements is
/// right.
pub open spec fn all_counted(ss: Seq<SpecStmt>, n: nat) -> bool
    decreases ss, n,
{
    if n == 0 || n > ss.len() {
        true
    } else {
        all_counted(ss, (n - 1) as nat) && counted(ss[n - 1])
    }
}

/// The count of every one of the first `n` functions, and of every block
/// and function in them, is right.
pub open spec fn fns_counted(fs: Seq<SpecFnDecl>, n: nat) -> bool
    decreases fs, n,
{
    if n == 0 || n > fs.len() {
        true
    } else {
        fns_counted(fs, (n - 1) as nat) && fn_counted(fs[n - 1])
    }
}

/// The count of the function is the number of the distinct names of its
/// parameters and of the declarations that stand directly in its body, and
/// the count of every block and function in its body is right.
pub open spec fn fn_counted(f: SpecFnDecl) -> bool
    decreases f, 0nat,
{
    f.num_of_locals == declared_in(params_in(f.params, f.params.len()), f.body, f.body.len()).len()
        && all_counted(f.body, f.body.len())
}

/// The count of every block in the statement is the number of the distinct
/// names that the declarations standing directly in the block declare, and
/// the count of every function in it is right.
pub open spec fn counted(s: SpecStmt) -> bool
    decreases s, 0nat,
{
    match s {
        SpecStmt::Block { statements, num_of_locals } => num_of_locals == declared_in(
            Seq::empty(),
            statements,
            statements.len(),
        ).len() && all_counted(statements, statements.len()),
        SpecStmt::If { then_branch, else_branch, .. } => counted(*then_branch) && match else_branch {
            Some(e) => counted(*e),
            None => true,
        },
        SpecStmt::While { body, .. } => counted(*body),
        SpecStmt::FnDecl(f) => fn_counted(f),
        SpecStmt::ClassDecl { methods, .. } => fns_counted(methods, methods.len()),
        _ => true,
    }
}

/// Every scope has distinct names and room for its count.
pub open spec fn sound(st: SpecResolver) -> bool {
    forall|i: int|
        0 <= i < st.scopes.len() ==> distinct_names(#[trigger] st.scopes[i]) && st.scopes[i].len()
            <= MAX_LOCALS
}

/// The two states have the same kinds of class and function around them and
/// as many scopes, with the same names in each but the innermost.
pub open spec fn agrees(a: SpecResolver, b: SpecResolver) -> bool {
    &&& a.scopes.len() == b.scopes.len()
    &&& a.class_type == b.class_type
    &&& a.function_type == b.function_type
    &&& forall|i: int|
        0 <= i < a.scopes.len() - 1 ==> names(#[trigger] a.scopes[i]) == names(b.scopes[i])
}

/// The names of the innermost scope.
pub open spec fn top(st: SpecResolver) -> Seq<Seq<char>> {
    if st.scopes.len() == 0 {
        Seq::empty()
    } else {
        names(st.scopes.last())
    }
}

/// The two states agree, in the names of the innermost scope too.
pub open spec fn same_names(a: SpecResolver, b: SpecResolver) -> bool {
    agrees(a, b) && top(a) == top(b)
}

/// The names of the innermost scope after names are declared there, if
/// there is a scope.
pub open spec fn top_with(st: SpecResolver, xs: Seq<Seq<char>>) -> Seq<Seq<char>> {
    if st.scopes.len() == 0 {
        top(st)
    } else {
        add_all(top(st), xs)
    }
}

/// A scope has a name exactly when its names hold it.
pub proof fn lemma_find_names(scope: Seq<SpecVarInfo>, name: Seq<char>)
    ensures
        find(scope, name) is Some <==> names(scope).contains(name),
{
    lemma_find_from(scope, name, 0);
    if find(scope, name) is Some {
        let i = find(scope, name)->0;
        assert(names(scope)[i] == name);
    } else {
        if names(scope).contains(name) {
            let i = choose|i: int| 0 <= i < names(scope).len() && names(scope)[i] == name;
            assert(scope[i].name == name);
        }
    }
}

/// A lookup keeps the names of all the scopes.
pub proof fn lemma_access_from_frame(
    st: SpecResolver,
    var: SpecVariable,
    status: VariableStatus,
    k: int,
)
    requires
        sound(st),
        0 <= k,
    ensures
        sound(access_from(st, var, status, k).0),
        same_names(st, access_from(st, var, status, k).0),
    decreases st.scopes.len() - k,
{
    if k < st.scopes.len() {
        let at = st.scopes.len() - 1 - k;
        match find(st.scopes[at], var.ident.name) {
            Some(i) => {
                lemma_find_from(st.scopes[at], var.ident.name, 0);
                if !(k > MAX_LOCALS || i >= MAX_LOCALS) {
                    lemma_mark_names(st.scopes[at], i, status);
                    let out = access_from(st, var, status, k).0;
                    assert forall|j: int| 0 <= j < out.scopes.len() implies distinct_names(
                        #[trigger] out.scopes[j],
                    ) && out.scopes[j].len() <= MAX_LOCALS && names(out.scopes[j]) == names(
                        st.scopes[j],
                    ) by {
                        if j != at {
                            assert(out.scopes[j] == st.scopes[j]);
                        }
                    }
                    assert(names(out.scopes.last()) == names(st.scopes.last()));
                }
            },
            None => {
                lemma_access_from_frame(st, var, status, k + 1);
            },
        }
    }
}

/// A lookup keeps the names of all the scopes.
pub proof fn lemma_access_frame(st: SpecResolver, var: SpecVariable, status: VariableStatus)
    requires
        sound(st),
    ensures
        sound(access(st, var, status).0),
        same_names(st, access(st, var, status).0),
        access(st, var, status).1.ident == var.ident,
{
    reveal(access);
    lemma_access_from_frame(st, var, status, 0);
    lemma_access_ident(st, var, var, status);
}

/// A declaration adds its name to the innermost scope and keeps the others.
pub proof fn lemma_declare_frame(st: SpecResolver, var: SpecVariable, init: bool)
    requires
        sound(st),
    ensures
        sound(declare(st, var, init).0),
        agrees(st, declare(st, var, init).0),
        top(declare(st, var, init).0) == top_with(st, seq![var.ident.name]),
        declare(st, var, init).1.ident == var.ident,
{
    reveal(declare);
    lemma_declare_ident(st, var, var, init);
    lemma_add_one(top(st), var.ident.name);
    if st.scopes.len() > 0 {
        let t = st.scopes.len() - 1;
        let scope = st.scopes[t];
        lemma_scope_declare_distinct(scope, var.ident.name, var.ident.span, init);
        lemma_find_names(scope, var.ident.name);
        reveal(scope_declare);
        let out = declare(st, var, init).0;
        assert forall|j: int| 0 <= j < out.scopes.len() implies distinct_names(
            #[trigger] out.scopes[j],
        ) && out.scopes[j].len() <= MAX_LOCALS by {
            if j != t {
                assert(out.scopes[j] == st.scopes[j]);
            }
        }
        assert forall|j: int| 0 <= j < st.scopes.len() - 1 implies names(
            #[trigger] st.scopes[j],
        ) == names(out.scopes[j]) by {
            assert(out.scopes[j] == st.scopes[j]);
        }
        assert(out.scopes.last() == out.scopes[t]);
    }
}

/// Opening a scope adds an empty one.
pub proof fn lemma_start_scope(st: SpecResolver)
    requires
        sound(st),
    ensures
        sound(start_scope(st)),
        start_scope(st).scopes == st.scopes.push(Seq::empty()),
        start_scope(st).class_type == st.class_type,
        start_scope(st).function_type == st.function_type,
        top(start_scope(st)) == Seq::<Seq<char>>::empty(),
{
    reveal(start_scope);
    assert(names(Seq::<SpecVarInfo>::empty()) =~= Seq::<Seq<char>>::empty());
}

/// Opening the scope of `super` or `this` adds a scope of one name.
pub proof fn lemma_start_class_scope(st: SpecResolver, span: crate::span::Span, is_super: bool)
    requires
        sound(st),
    ensures
        sound(start_class_scope(st, span, is_super)),
        start_class_scope(st, span, is_super).scopes.len() == st.scopes.len() + 1,
        start_class_scope(st, span, is_super).scopes.drop_last() == st.scopes,
        start_class_scope(st, span, is_super).class_type == st.class_type,
        start_class_scope(st, span, is_super).function_type == st.function_type,
{
    reveal(start_class_scope);
    let out = start_class_scope(st, span, is_super);
    assert(out.scopes.drop_last() =~= st.scopes);
    assert forall|j: int| 0 <= j < out.scopes.len() implies distinct_names(
        #[trigger] out.scopes[j],
    ) && out.scopes[j].len() <= MAX_LOCALS by {
        if j < st.scopes.len() {
            assert(out.scopes[j] == st.scopes[j]);
        }
    }
}

/// Closing a scope takes the innermost one away and gives the number of its
/// names.
pub proof fn lemma_end_scope(st: SpecResolver)
    requires
        sound(st),
        st.scopes.len() > 0,
    ensures
        sound(end_scope(st).0),
        end_scope(st).0.scopes == st.scopes.drop_last(),
        end_scope(st).0.class_type == st.class_type,
        end_scope(st).0.function_type == st.function_type,
        end_scope(st).1 == top(st).len(),
{
    reveal(end_scope);
    let out = end_scope(st).0;
    assert forall|j: int| 0 <= j < out.scopes.len() implies distinct_names(
        #[trigger] out.scopes[j],
    ) && out.scopes[j].len() <= MAX_LOCALS by {
        assert(out.scopes[j] == st.scopes[j]);
    }
}

/// What was opened on top of `base` and has kept its names since is closed
/// again: the state below has the names of `base`.
pub proof fn lemma_closed(base: SpecResolver, opened: SpecResolver, now: SpecResolver)
    requires
        sound(now),
        opened.scopes.len() == base.scopes.len() + 1,
        opened.scopes.drop_last() == base.scopes,
        same_names(opened, now),
    ensures
        sound(end_scope(now).0),
        end_scope(now).0.scopes.len() == base.scopes.len(),
        forall|i: int|
            0 <= i < base.scopes.len() ==> names(#[trigger] base.scopes[i]) == names(
                end_scope(now).0.scopes[i],
            ),
        end_scope(now).0.class_type == now.class_type,
        end_scope(now).0.function_type == now.function_type,
        end_scope(now).1 == top(now).len(),
{
    lemma_end_scope(now);
    let out = end_scope(now).0;
    assert forall|i: int| 0 <= i < base.scopes.len() implies names(#[trigger] base.scopes[i])
        == names(out.scopes[i]) by {
        assert(base.scopes[i] == opened.scopes[i]);
        assert(names(opened.scopes[i]) == names(now.scopes[i]));
        assert(out.scopes[i] == now.scopes[i]);
    }
}

/// States with the same names in every scope, scope by scope.
pub open spec fn pointwise(a: SpecResolver, b: SpecResolver) -> bool {
    &&& a.scopes.len() == b.scopes.len()
    &&& forall|i: int| 0 <= i < a.scopes.len() ==> names(#[trigger] a.scopes[i]) == names(b.scopes[i])
}

/// The same names scope by scope are the same names.
pub proof fn lemma_pointwise(a: SpecResolver, b: SpecResolver)
    requires
        pointwise(a, b),
        a.class_type == b.class_type,
        a.function_type == b.function_type,
    ensures
        same_names(a, b),
{
    if a.scopes.len() > 0 {
        assert(names(a.scopes[a.scopes.len() - 1]) == names(b.scopes[a.scopes.len() - 1]));
    }
}

/// The same names are the same names scope by scope.
pub proof fn lemma_pointwise_of(a: SpecResolver, b: SpecResolver)
    requires
        same_names(a, b),
    ensures
        pointwise(a, b),
{
    assert forall|i: int| 0 <= i < a.scopes.len() implies names(#[trigger] a.scopes[i]) == names(
        b.scopes[i],
    ) by {
        if i == a.scopes.len() - 1 {
            assert(a.scopes[i] == a.scopes.last());
            assert(b.scopes[i] == b.scopes.last());
        }
    }
}

/// Resolving expressions keeps the names of all the scopes.
pub proof fn lemma_exprs_frame(st: SpecResolver, es: Seq<SpecExpr>, n: nat)
    requires
        sound(st),
        n <= es.len(),
    ensures
        sound(res_exprs(st, es, n).0),
        same_names(st, res_exprs(st, es, n).0),
    decreases es, n,
{
    if n > 0 {
        lemma_exprs_frame(st, es, (n - 1) as nat);
        lemma_expr_frame(res_exprs(st, es, (n - 1) as nat).0, es[n - 1]);
    }
}

/// Resolving an expression keeps the names of all the scopes.
pub proof fn lemma_expr_frame(st: SpecResolver, e: SpecExpr)
    requires
        sound(st),
    ensures
        sound(res_expr(st, e).0),
        same_names(st, res_expr(st, e).0),
    decreases e, 0nat,
{
    match e {
        SpecExpr::Binary { operator, left, right } => {
            lemma_expr_frame(st, *left);
            lemma_expr_frame(res_expr(st, *left).0, *right);
        },
        SpecExpr::Unary { op_span, operator, operand } => {
            lemma_expr_frame(st, *operand);
        },
        SpecExpr::Group { span, expr } => {
            lemma_expr_frame(st, *expr);
        },
        SpecExpr::Literal { .. } => {},
        SpecExpr::Ternary { condition, truthy, falsy } => {
            lemma_expr_frame(st, *condition);
            let st1 = res_expr(st, *condition).0;
            lemma_expr_frame(st1, *truthy);
            lemma_expr_frame(res_expr(st1, *truthy).0, *falsy);
        },
        SpecExpr::Assign { var, value } => {
            lemma_expr_frame(st, *value);
            lemma_access_frame(res_expr(st, *value).0, var, VariableStatus::Initialized);
        },
        SpecExpr::Var(var) => {
            lemma_var_frame(st, var);
        },
        SpecExpr::FnCall { callee, arguments, end } => {
            lemma_expr_frame(st, *callee);
            lemma_exprs_frame(res_expr(st, *callee).0, arguments, arguments.len());
        },
        SpecExpr::Get { object, field } => {
            lemma_expr_frame(st, *object);
        },
        SpecExpr::SetField { object, field, value } => {
            lemma_expr_frame(st, *object);
            lemma_expr_frame(res_expr(st, *object).0, *value);
        },
        SpecExpr::Super { var, method } => {
            lemma_access_frame(st, var, VariableStatus::Used);
        },
    }
}

/// Resolving a read keeps the names of all the scopes.
pub proof fn lemma_var_frame(st: SpecResolver, var: SpecVariable)
    requires
        sound(st),
    ensures
        sound(res_var(st, var).0),
        same_names(st, res_var(st, var).0),
{
    let st1 = if var.ident.name == "this"@ && st.function_type is Outside {
        st.with_error(crate::error::SpecResolverError::InvalidThis(var.ident.span))
    } else {
        st
    };
    lemma_access_frame(st1, var, VariableStatus::Used);
}

/// Declaring the parameters adds their names to the innermost scope.
pub proof fn lemma_params_frame(st: SpecResolver, ps: Seq<SpecVariable>, n: nat)
    requires
        sound(st),
        st.scopes.len() > 0,
        top(st) == Seq::<Seq<char>>::empty(),
        n <= ps.len(),
    ensures
        sound(res_params(st, ps, n).0),
        agrees(st, res_params(st, ps, n).0),
        top(res_params(st, ps, n).0) == params_in(ps, n),
        res_params(st, ps, n).1.len() == n,
        params_in(res_params(st, ps, n).1, n) == params_in(ps, n),
    decreases n,
{
    if n > 0 {
        let m = (n - 1) as nat;
        lemma_params_frame(st, ps, m);
        let st1 = res_params(st, ps, m).0;
        lemma_declare_frame(st1, ps[n - 1], true);
        lemma_add_one(top(st1), ps[n - 1].ident.name);
        let out = res_params(st, ps, n).1;
        let before = res_params(st, ps, m).1;
        lemma_params_in_same(out, before, m);
    }
}

/// The names of parameters depend on their identifiers alone.
pub proof fn lemma_params_in_same(a: Seq<SpecVariable>, b: Seq<SpecVariable>, n: nat)
    requires
        n <= a.len(),
        n <= b.len(),
        forall|i: int| 0 <= i < n ==> a[i].ident == b[i].ident,
    ensures
        params_in(a, n) == params_in(b, n),
    decreases n,
{
    if n > 0 {
        lemma_params_in_same(a, b, (n - 1) as nat);
    }
}

/// The names that statements declare depend on the names that each
/// declares alone.
pub proof fn lemma_declared_in_same(ns: Seq<Seq<char>>, a: Seq<SpecStmt>, b: Seq<SpecStmt>, n: nat)
    requires
        n <= a.len(),
        n <= b.len(),
        forall|i: int| 0 <= i < n ==> declares(a[i]) == declares(b[i]),
    ensures
        declared_in(ns, a, n) == declared_in(ns, b, n),
    decreases n,
{
    if n > 0 {
        lemma_declared_in_same(ns, a, b, (n - 1) as nat);
    }
}

/// What is counted of the first statements stays counted when more are
/// looked at, and the other way round.
pub proof fn lemma_all_counted_same(a: Seq<SpecStmt>, b: Seq<SpecStmt>, n: nat)
    requires
        n <= a.len(),
        n <= b.len(),
        forall|i: int| 0 <= i < n ==> a[i] == b[i],
        all_counted(a, n),
    ensures
        all_counted(b, n),
    decreases n,
{
    if n > 0 {
        lemma_all_counted_same(a, b, (n - 1) as nat);
    }
}

pub proof fn lemma_fns_counted_same(a: Seq<SpecFnDecl>, b: Seq<SpecFnDecl>, n: nat)
    requires
        n <= a.len(),
        n <= b.len(),
        forall|i: int| 0 <= i < n ==> a[i] == b[i],
        fns_counted(a, n),
    ensures
        fns_counted(b, n),
    decreases n,
{
    if n > 0 {
        lemma_fns_counted_same(a, b, (n - 1) as nat);
    }
}

/// Resolving statements adds the names that they declare to the innermost
/// scope, keeps the names of the others, and counts every block and
/// function in them rightly.
pub proof fn lemma_stmts_frame(st: SpecResolver, ss: Seq<SpecStmt>, n: nat)
    requires
        sound(st),
        n <= ss.len(),
    ensures
        sound(res_stmts(st, ss, n).0),
        agrees(st, res_stmts(st, ss, n).0),
        st.scopes.len() > 0 ==> top(res_stmts(st, ss, n).0) == declared_in(top(st), ss, n),
        res_stmts(st, ss, n).1.len() == n,
        all_counted(res_stmts(st, ss, n).1, n),
        forall|i: int|
            0 <= i < n ==> declares(#[trigger] res_stmts(st, ss, n).1[i]) == declares(ss[i]),
    decreases ss, n,
{
    if n > 0 {
        let m = (n - 1) as nat;
        lemma_stmts_frame(st, ss, m);
        let st1 = res_stmts(st, ss, m).0;
        lemma_stmt_frame(st1, ss[n - 1]);
        let before = res_stmts(st, ss, m).1;
        let out = res_stmts(st, ss, n).1;
        lemma_all_counted_same(before, out, m);
        assert(out[n - 1] == res_stmt(st1, ss[n - 1]).1);
        assert forall|i: int| 0 <= i < n implies declares(#[trigger] out[i]) == declares(
            ss[i],
        ) by {
            if i < m {
                assert(out[i] == before[i]);
            }
        }
    }
}

/// Resolving a function keeps the names of all the scopes and counts the
/// function rightly.
pub proof fn lemma_function_frame(st: SpecResolver, f: SpecFnDecl)
    requires
        sound(st),
    ensures
        sound(res_function(st, f).0),
        same_names(st, res_function(st, f).0),
        fn_counted(res_function(st, f).1),
        res_function(st, f).1.var == f.var,
    decreases f, 0nat,
{
    lemma_start_scope(st);
    let st1 = start_scope(st);
    lemma_params_frame(st1, f.params, f.params.len());
    let (st2, params) = res_params(st1, f.params, f.params.len());
    lemma_stmts_frame(st2, f.body, f.body.len());
    let (st3, body) = res_stmts(st2, f.body, f.body.len());
    lemma_end_scope(st3);
    let st4 = end_scope(st3).0;
    lemma_declared_in_same(params_in(params, params.len()), body, f.body, f.body.len());
    assert(st1.scopes.drop_last() =~= st.scopes);
    assert forall|i: int| 0 <= i < st.scopes.len() implies names(#[trigger] st.scopes[i]) == names(
        st4.scopes[i],
    ) by {
        assert(st.scopes[i] == st1.scopes[i]);
        assert(names(st1.scopes[i]) == names(st2.scopes[i]));
        assert(names(st2.scopes[i]) == names(st3.scopes[i]));
        assert(st4.scopes[i] == st3.scopes[i]);
    }
    lemma_pointwise(st, st4);
}

/// Resolving methods keeps the names of all the scopes and counts every
/// method rightly.
pub proof fn lemma_methods_frame(st: SpecResolver, ms: Seq<SpecFnDecl>, n: nat)
    requires
        sound(st),
        n <= ms.len(),
    ensures
        sound(res_methods(st, ms, n).0),
        same_names(st, res_methods(st, ms, n).0),
        res_methods(st, ms, n).1.len() == n,
        fns_counted(res_methods(st, ms, n).1, n),
    decreases ms, n,
{
    if n > 0 {
        let m = (n - 1) as nat;
        lemma_methods_frame(st, ms, m);
        let st1 = res_methods(st, ms, m).0;
        let method = ms[n - 1];
        let st2 = st1.with_function(method_type(method.var.ident.name));
        lemma_function_frame(st2, method);
        lemma_fns_counted_same(res_methods(st, ms, m).1, res_methods(st, ms, n).1, m);
    }
}

/// Resolving a statement adds the name that it declares to the innermost
/// scope, keeps the names of the others, and counts every block and
/// function in it rightly.
pub proof fn lemma_stmt_frame(st: SpecResolver, s: SpecStmt)
    requires
        sound(st),
    ensures
        sound(res_stmt(st, s).0),
        agrees(st, res_stmt(st, s).0),
        top(res_stmt(st, s).0) == top_with(st, declares(s)),
        counted(res_stmt(st, s).1),
        declares(res_stmt(st, s).1) == declares(s),
    decreases s, 0nat,
{
    lemma_add_one(top(st), Seq::empty());
    match s {
        SpecStmt::Print(e) => {
            lemma_expr_frame(st, e);
        },
        SpecStmt::Expression(e) => {
            lemma_expr_frame(st, e);
        },
        SpecStmt::Var { var, initializer } => {
            lemma_declare_frame(st, var, false);
            let (st1, var1) = declare(st, var, false);
            match initializer {
                Some(e) => {
                    lemma_expr_frame(st1, e);
                    lemma_access_frame(res_expr(st1, e).0, var1, VariableStatus::Initialized);
                },
                None => {},
            }
        },
        SpecStmt::Block { statements, num_of_locals } => {
            lemma_start_scope(st);
            let st1 = start_scope(st);
            lemma_stmts_frame(st1, statements, statements.len());
            let (st2, out) = res_stmts(st1, statements, statements.len());
            lemma_end_scope(st2);
            let st3 = end_scope(st2).0;
            lemma_declared_in_same(Seq::empty(), out, statements, statements.len());
            assert(res_stmt(st, s).1 == (SpecStmt::Block {
                statements: out,
                num_of_locals: end_scope(st2).1,
            }));
            assert(counted(res_stmt(st, s).1));
            assert forall|i: int| 0 <= i < st.scopes.len() implies names(
                #[trigger] st.scopes[i],
            ) == names(st3.scopes[i]) by {
                assert(st.scopes[i] == st1.scopes[i]);
                assert(names(st1.scopes[i]) == names(st2.scopes[i]));
                assert(st3.scopes[i] == st2.scopes[i]);
            }
            lemma_pointwise(st, st3);
        },
        SpecStmt::If { condition, then_branch, else_branch } => {
            lemma_expr_frame(st, condition);
            let st1 = res_expr(st, condition).0;
            lemma_stmt_frame(st1, *then_branch);
            let st2 = res_stmt(st1, *then_branch).0;
            match else_branch {
                Some(e) => {
                    lemma_stmt_frame(st2, *e);
                    lemma_add_all_joined(top(st), declares(*then_branch), declares(*e));
                },
                None => {
                    assert(declares(*then_branch) + Seq::<Seq<char>>::empty() =~= declares(
                        *then_branch,
                    ));
                },
            }
        },
        SpecStmt::While { condition, body } => {
            lemma_expr_frame(st, condition);
            lemma_stmt_frame(res_expr(st, condition).0, *body);
        },
        SpecStmt::FnDecl(f) => {
            lemma_declare_frame(st, f.var, true);
            let (st1, var1) = declare(st, f.var, true);
            lemma_function_frame(st1.with_function(FunctionType::Function), f);
            let f2 = res_function(st1.with_function(FunctionType::Function), f).1;
            let renamed = SpecFnDecl { var: var1, ..f2 };
            assert(fn_counted(f2));
            assert(fn_counted(renamed));
            assert(res_stmt(st, s).1 == SpecStmt::FnDecl(renamed));
        },
        SpecStmt::Return { span, expr } => {
            if !(st.function_type is Outside) {
                match expr {
                    Some(e) => {
                        let st1 = if st.function_type is Initializer {
                            st.with_error(
                                crate::error::SpecResolverError::ReturnInConstructor(span),
                            )
                        } else {
                            st
                        };
                        lemma_expr_frame(st1, e);
                    },
                    None => {},
                }
            }
        },
        SpecStmt::ClassDecl { var, super_class, methods } => {
            lemma_declare_frame(st, var, true);
            let (st1, var1) = declare(st, var, true);
            match super_class {
                Some(sv) => {
                    lemma_access_frame(st1, sv, VariableStatus::Used);
                    let a = access(st1, sv, VariableStatus::Used).0;
                    lemma_start_class_scope(a, sv.ident.span, true);
                    let b = start_class_scope(a, sv.ident.span, true);
                    let st2 = b.with_class(ClassType::SubClass);
                    lemma_start_class_scope(st2, var.ident.span, false);
                    let st3 = start_class_scope(st2, var.ident.span, false);
                    lemma_methods_frame(st3, methods, methods.len());
                    let st4 = res_methods(st3, methods, methods.len()).0;
                    lemma_closed(st2, st3, st4);
                    let st5 = end_scope(st4).0;
                    lemma_pointwise(st2, st5);
                    lemma_closed(a, st2, st5);
                    let st6 = end_scope(st5).0;
                    lemma_pointwise_of(st1, a);
                    let out = st6.with_class(st1.class_type);
                    assert forall|i: int| 0 <= i < st1.scopes.len() implies names(
                        #[trigger] st1.scopes[i],
                    ) == names(out.scopes[i]) by {
                        assert(names(st1.scopes[i]) == names(a.scopes[i]));
                        assert(names(a.scopes[i]) == names(st6.scopes[i]));
                    }
                    lemma_pointwise(st1, out);
                    assert(counted(res_stmt(st, s).1));
                },
                None => {
                    let st2 = st1.with_class(ClassType::Class);
                    lemma_start_class_scope(st2, var.ident.span, false);
                    let st3 = start_class_scope(st2, var.ident.span, false);
                    lemma_methods_frame(st3, methods, methods.len());
                    let st4 = res_methods(st3, methods, methods.len()).0;
                    lemma_closed(st2, st3, st4);
                    let st5 = end_scope(st4).0;
                    let out = st5.with_class(st1.class_type);
                    assert forall|i: int| 0 <= i < st1.scopes.len() implies names(
                        #[trigger] st1.scopes[i],
                    ) == names(out.scopes[i]) by {
                        assert(st1.scopes[i] == st2.scopes[i]);
                        assert(names(st2.scopes[i]) == names(st5.scopes[i]));
                    }
                    lemma_pointwise(st1, out);
                    assert(counted(res_stmt(st, s).1));
                },
            }
        },
    }
}

/// After resolution, the count of every block is the number of the distinct
/// names that the declarations standing directly in it declare, and the
/// count of every function is that number for its parameters and the
/// declarations standing directly in its body. A frame holds 65,535 names
/// at most: a declaration beyond that is reported and not counted.
pub proof fn lemma_counts(st: SpecResolver, ast: Seq<SpecStmt>)
    requires
        sound(st),
    ensures
        all_counted(res_stmts(st, ast, ast.len()).1, ast.len()),
{
    lemma_stmts_frame(st, ast, ast.len());
}

/// A program resolved by a resolver that has seen nothing has every count
/// right.
pub proof fn lemma_counts_of_program(ast: Seq<SpecStmt>)
    ensures
        all_counted(
            crate::resolution::res_program(SpecResolver::fresh(), ast).1,
            ast.len(),
        ),
{
    lemma_counts(SpecResolver::fresh(), ast);
}

/// Declaring names keeps the names of a frame distinct.
pub proof fn lemma_add_names_distinct(ns: Seq<Seq<char>>, xs: Seq<Seq<char>>, n: nat)
    requires
        ns.no_duplicates(),
        n <= xs.len(),
    ensures
        add_names(ns, xs, n).no_duplicates(),
    decreases n,
{
    if n > 0 {
        lemma_add_names_distinct(ns, xs, (n - 1) as nat);
    }
}

/// The names that a frame ends with are distinct: their number is the
/// number of different names among them.
pub proof fn lemma_declared_in_distinct(ns: Seq<Seq<char>>, ss: Seq<SpecStmt>, n: nat)
    requires
        ns.no_duplicates(),
        n <= ss.len(),
    ensures
        declared_in(ns, ss, n).no_duplicates(),
        declared_in(ns, ss, n).len() == declared_in(ns, ss, n).to_set().len(),
    decreases n,
{
    if n > 0 {
        lemma_declared_in_distinct(ns, ss, (n - 1) as nat);
        lemma_add_names_distinct(
            declared_in(ns, ss, (n - 1) as nat),
            declares(ss[n - 1]),
            declares(ss[n - 1]).len(),
        );
    }
    declared_in(ns, ss, n).unique_seq_to_set();
}

} // verus!
