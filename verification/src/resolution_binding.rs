//! A program that resolves without a diagnostic has every variable bound by
//! the rules of lexical scope, proved of [`crate::resolution`].
//!
//! The rules are stated here on the resolved tree alone, over the names that
//! are in sight at each place: a variable whose name is in sight is bound
//! to the slot of that name in the innermost frame that has it, and so a
//! variable left unbound names a global. Where no variable was bound
//! before, as in every program that the parser makes, the converse holds
//! too: a variable is bound only if its name is in sight.

use vstd::prelude::*;
use crate::ast::expr::SpecExpr;
use crate::ast::ident::{IdentTarget, SpecVariable};
use crate::ast::stmt::{SpecFnDecl, SpecStmt};
use crate::resolution::{access, access_from, declare, end_scope, find, method_type, res_expr, res_exprs, res_function, res_methods, res_params, res_program, res_stmt, res_stmts, res_var, scope_declare, start_class_scope, start_scope, ClassType, FunctionType, SpecResolver, SpecVarInfo, VariableStatus, MAX_LOCALS};
use crate::resolution_frames::{add_all, agrees, declared_in, declares, lemma_access_frame, lemma_declare_frame, lemma_declared_in_same, lemma_expr_frame, lemma_exprs_frame, lemma_find_names, lemma_methods_frame, lemma_params_frame, lemma_params_in_same, lemma_pointwise_of, lemma_start_class_scope, lemma_start_scope, lemma_stmt_frame, lemma_stmts_frame, params_in, same_names, sound, top, top_with};
use crate::resolution_laws::{lemma_find_from, names};

verus! {

/// The names in sight: those of each frame, outermost frame first, in the
/// order of their slots.
pub type Sight = Seq<Seq<Seq<char>>>;

/// The names of the scopes of a resolver.
pub open spec fn frames(st: SpecResolver) -> Sight {
    st.scopes.map_values(|scope: Seq<SpecVarInfo>| names(scope))
}

/// The names in sight with those of the innermost frame replaced, if there
/// is a frame.
pub open spec fn set_top(env: Sight, ns: Seq<Seq<char>>) -> Sight {
    if env.len() == 0 {
        env
    } else {
        env.update(env.len() - 1, ns)
    }
}

/// The names in sight after `xs` are declared in the innermost frame, if
/// there is a frame.
pub open spec fn with_top(env: Sight, xs: Seq<Seq<char>>) -> Sight {
    if env.len() == 0 {
        env
    } else {
        env.update(env.len() - 1, add_all(env.last(), xs))
    }
}

/// The names in sight after the first `n` statements of `ss` have declared
/// theirs in the innermost frame, if there is a frame.
pub open spec fn after(env: Sight, ss: Seq<SpecStmt>, n: nat) -> Sight {
    if env.len() == 0 {
        env
    } else {
        env.update(env.len() - 1, declared_in(env.last(), ss, n))
    }
}

/// Some frame has the name.
pub open spec fn visible(env: Sight, name: Seq<char>) -> bool {
    exists|k: int| 0 <= k < env.len() && (#[trigger] env[k]).contains(name)
}

/// The target is the slot of `name` in the innermost frame that has it.
pub open spec fn points_at(env: Sight, name: Seq<char>, t: IdentTarget) -> bool {
    &&& t.scope_count < env.len()
    &&& t.index < env[env.len() - 1 - t.scope_count].len()
    &&& env[env.len() - 1 - t.scope_count][t.index as int] == name
    &&& forall|j: int|
        0 <= j < t.scope_count ==> !(#[trigger] env[env.len() - 1 - j]).contains(name)
}

/// A variable whose name is in sight is bound, to the slot of its name in
/// the innermost frame that has it. So a variable that is not bound names a
/// global. With `exact`, a variable whose name is not in sight is not
/// bound, too: the variable is bound if and only if its name is in sight.
pub open spec fn var_settled(exact: bool, env: Sight, var: SpecVariable) -> bool {
    if visible(env, var.ident.name) {
        var.target matches Some(t) && points_at(env, var.ident.name, t)
    } else {
        exact ==> var.target is None
    }
}

/// What a lookup of `var` among the names in sight gives: the variable
/// bound to the slot of its name in the innermost frame that has it, or the
/// variable as it was if no frame has its name.
pub open spec fn looked_up(env: Sight, var: SpecVariable, out: SpecVariable) -> bool {
    if visible(env, var.ident.name) {
        out.ident == var.ident && (out.target matches Some(t) && points_at(
            env,
            var.ident.name,
            t,
        ))
    } else {
        out == var
    }
}

/// The variable is not bound.
pub open spec fn unbound(var: SpecVariable) -> bool {
    var.target is None
}

/// No variable of the expression is bound.
pub open spec fn expr_unbound(e: SpecExpr) -> bool
    decreases e, 0nat,
{
    match e {
        SpecExpr::Binary { left, right, .. } => expr_unbound(*left) && expr_unbound(*right),
        SpecExpr::Unary { operand, .. } => expr_unbound(*operand),
        SpecExpr::Group { expr, .. } => expr_unbound(*expr),
        SpecExpr::Literal { .. } => true,
        SpecExpr::Ternary { condition, truthy, falsy } => expr_unbound(*condition)
            && expr_unbound(*truthy) && expr_unbound(*falsy),
        SpecExpr::Assign { var, value } => expr_unbound(*value) && unbound(var),
        SpecExpr::Var(var) => unbound(var),
        SpecExpr::FnCall { callee, arguments, .. } => expr_unbound(*callee) && exprs_unbound(
            arguments,
            arguments.len(),
        ),
        SpecExpr::Get { object, .. } => expr_unbound(*object),
        SpecExpr::SetField { object, value, .. } => expr_unbound(*object) && expr_unbound(*value),
        SpecExpr::Super { var, .. } => unbound(var),
    }
}

/// No variable of the first `n` expressions is bound.
pub open spec fn exprs_unbound(es: Seq<SpecExpr>, n: nat) -> bool
    decreases es, n,
{
    if n == 0 || n > es.len() {
        true
    } else {
        exprs_unbound(es, (n - 1) as nat) && expr_unbound(es[n - 1])
    }
}

/// No variable of the first `n` statements is bound.
pub open spec fn stmts_unbound(ss: Seq<SpecStmt>, n: nat) -> bool
    decreases ss, n,
{
    if n == 0 || n > ss.len() {
        true
    } else {
        stmts_unbound(ss, (n - 1) as nat) && stmt_unbound(ss[n - 1])
    }
}

/// Neither the name of the function, nor a parameter, nor a variable of
/// its body is bound.
pub open spec fn fn_unbound(f: SpecFnDecl) -> bool
    decreases f, 0nat,
{
    unbound(f.var) && (forall|i: int| 0 <= i < f.params.len() ==> unbound(#[trigger] f.params[i]))
        && stmts_unbound(f.body, f.body.len())
}

/// No variable of the first `n` functions is bound.
pub open spec fn fns_unbound(fs: Seq<SpecFnDecl>, n: nat) -> bool
    decreases fs, n,
{
    if n == 0 || n > fs.len() {
        true
    } else {
        fns_unbound(fs, (n - 1) as nat) && fn_unbound(fs[n - 1])
    }
}

/// No variable of the statement is bound: it is as the parser makes it.
pub open spec fn stmt_unbound(s: SpecStmt) -> bool
    decreases s, 0nat,
{
    match s {
        SpecStmt::Print(e) => expr_unbound(e),
        SpecStmt::Expression(e) => expr_unbound(e),
        SpecStmt::Var { var, initializer } => unbound(var) && match initializer {
            Some(e) => expr_unbound(e),
            None => true,
        },
        SpecStmt::Block { statements, .. } => stmts_unbound(statements, statements.len()),
        SpecStmt::If { condition, then_branch, else_branch } => expr_unbound(condition)
            && stmt_unbound(*then_branch) && match else_branch {
            Some(e) => stmt_unbound(*e),
            None => true,
        },
        SpecStmt::While { condition, body } => expr_unbound(condition) && stmt_unbound(*body),
        SpecStmt::FnDecl(f) => fn_unbound(f),
        SpecStmt::Return { expr, .. } => match expr {
            Some(e) => expr_unbound(e),
            None => true,
        },
        SpecStmt::ClassDecl { var, super_class, methods } => unbound(var) && match super_class {
            Some(sv) => unbound(sv),
            None => true,
        } && fns_unbound(methods, methods.len()),
    }
}

/// Every variable of the expression is settled.
pub open spec fn expr_settled(exact: bool, env: Sight, e: SpecExpr) -> bool
    decreases e, 0nat,
{
    match e {
        SpecExpr::Binary { left, right, .. } => expr_settled(exact, env, *left) && expr_settled(exact, 
            env,
            *right,
        ),
        SpecExpr::Unary { operand, .. } => expr_settled(exact, env, *operand),
        SpecExpr::Group { expr, .. } => expr_settled(exact, env, *expr),
        SpecExpr::Literal { .. } => true,
        SpecExpr::Ternary { condition, truthy, falsy } => expr_settled(exact, env, *condition)
            && expr_settled(exact, env, *truthy) && expr_settled(exact, env, *falsy),
        SpecExpr::Assign { var, value } => expr_settled(exact, env, *value) && var_settled(exact, env, var),
        SpecExpr::Var(var) => var_settled(exact, env, var),
        SpecExpr::FnCall { callee, arguments, .. } => expr_settled(exact, env, *callee) && exprs_settled(exact, 
            env,
            arguments,
            arguments.len(),
        ),
        SpecExpr::Get { object, .. } => expr_settled(exact, env, *object),
        SpecExpr::SetField { object, value, .. } => expr_settled(exact, env, *object) && expr_settled(exact, 
            env,
            *value,
        ),
        SpecExpr::Super { var, .. } => var_settled(exact, env, var),
    }
}

/// Every variable of the first `n` expressions is settled.
pub open spec fn exprs_settled(exact: bool, env: Sight, es: Seq<SpecExpr>, n: nat) -> bool
    decreases es, n,
{
    if n == 0 || n > es.len() {
        true
    } else {
        exprs_settled(exact, env, es, (n - 1) as nat) && expr_settled(exact, env, es[n - 1])
    }
}

/// Each of the first `n` parameters is settled in the frame of the function
/// as it is once that parameter is declared. `env` holds the names in sight
/// around the function.
pub open spec fn params_settled(exact: bool, env: Sight, ps: Seq<SpecVariable>, n: nat) -> bool
    decreases n,
{
    if n == 0 || n > ps.len() {
        true
    } else {
        params_settled(exact, env, ps, (n - 1) as nat) && var_settled(exact, 
            env.push(params_in(ps, n)),
            ps[n - 1],
        )
    }
}

/// Every variable of the first `n` statements is settled, each statement
/// seeing the names that those before it have declared.
pub open spec fn stmts_settled(exact: bool, env: Sight, ss: Seq<SpecStmt>, n: nat) -> bool
    decreases ss, n,
{
    if n == 0 || n > ss.len() {
        true
    } else {
        stmts_settled(exact, env, ss, (n - 1) as nat) && stmt_settled(exact, 
            after(env, ss, (n - 1) as nat),
            ss[n - 1],
        )
    }
}

/// Every variable of the function is settled: the parameters and the body
/// see a frame of their own, which starts with the parameters.
pub open spec fn fn_settled(exact: bool, env: Sight, f: SpecFnDecl) -> bool
    decreases f, 0nat,
{
    params_settled(exact, env, f.params, f.params.len()) && stmts_settled(exact, 
        env.push(params_in(f.params, f.params.len())),
        f.body,
        f.body.len(),
    )
}

/// Every variable of the first `n` functions is settled.
pub open spec fn fns_settled(exact: bool, env: Sight, fs: Seq<SpecFnDecl>, n: nat) -> bool
    decreases fs, n,
{
    if n == 0 || n > fs.len() {
        true
    } else {
        fns_settled(exact, env, fs, (n - 1) as nat) && fn_settled(exact, env, fs[n - 1])
    }
}

/// Every variable of the statement is settled.
///
/// - A declared name is in sight from its declaration on, in its own
///   initializer too.
/// - A block sees a frame of its own.
/// - What the first branch of an `if` declares, the second sees.
/// - The methods of a class see a frame that holds `this`, and around it,
///   where the class has a superclass, a frame that holds `super`.
pub open spec fn stmt_settled(exact: bool, env: Sight, s: SpecStmt) -> bool
    decreases s, 0nat,
{
    match s {
        SpecStmt::Print(e) => expr_settled(exact, env, e),
        SpecStmt::Expression(e) => expr_settled(exact, env, e),
        SpecStmt::Var { var, initializer } => {
            let env1 = with_top(env, seq![var.ident.name]);
            var_settled(exact, env1, var) && match initializer {
                Some(e) => expr_settled(exact, env1, e),
                None => true,
            }
        },
        SpecStmt::Block { statements, .. } => stmts_settled(exact, 
            env.push(Seq::empty()),
            statements,
            statements.len(),
        ),
        SpecStmt::If { condition, then_branch, else_branch } => expr_settled(exact, env, condition)
            && stmt_settled(exact, env, *then_branch) && match else_branch {
            Some(e) => stmt_settled(exact, with_top(env, declares(*then_branch)), *e),
            None => true,
        },
        SpecStmt::While { condition, body } => expr_settled(exact, env, condition) && stmt_settled(exact, 
            env,
            *body,
        ),
        SpecStmt::FnDecl(f) => {
            let env1 = with_top(env, seq![f.var.ident.name]);
            var_settled(exact, env1, f.var) && fn_settled(exact, env1, f)
        },
        SpecStmt::Return { expr, .. } => match expr {
            Some(e) => expr_settled(exact, env, e),
            None => true,
        },
        SpecStmt::ClassDecl { var, super_class, methods } => {
            let env1 = with_top(env, seq![var.ident.name]);
            var_settled(exact, env1, var) && match super_class {
                Some(sv) => var_settled(exact, env1, sv) && fns_settled(exact, 
                    env1.push(seq!["super"@]).push(seq!["this"@]),
                    methods,
                    methods.len(),
                ),
                None => fns_settled(exact, env1.push(seq!["this"@]), methods, methods.len()),
            }
        },
    }
}

/// States with the same names have the same names in sight.
pub proof fn lemma_frames_same(a: SpecResolver, b: SpecResolver)
    requires
        same_names(a, b),
    ensures
        frames(a) == frames(b),
{
    lemma_pointwise_of(a, b);
    assert(frames(a) =~= frames(b));
}

/// A state that differs from another in the names of the innermost scope
/// alone has those names in sight in the innermost frame.
pub proof fn lemma_frames_top(a: SpecResolver, b: SpecResolver, ns: Seq<Seq<char>>)
    requires
        agrees(a, b),
        a.scopes.len() > 0 ==> top(b) == ns,
    ensures
        frames(b) == set_top(frames(a), ns),
{
    assert(frames(b) =~= set_top(frames(a), ns));
}

/// A new scope is a new frame.
pub proof fn lemma_frames_pushed(a: SpecResolver, b: SpecResolver)
    requires
        b.scopes.len() == a.scopes.len() + 1,
        b.scopes.drop_last() == a.scopes,
    ensures
        frames(b) == frames(a).push(names(b.scopes.last())),
{
    assert forall|i: int| 0 <= i < a.scopes.len() implies frames(b)[i] == frames(a)[i] by {
        assert(b.scopes.drop_last()[i] == b.scopes[i]);
    }
    assert(frames(b) =~= frames(a).push(names(b.scopes.last())));
}

/// A lookup that reports nothing binds the variable if its name is in sight
/// and leaves it as it was if not.
pub proof fn lemma_access_from_settles(
    st: SpecResolver,
    var: SpecVariable,
    status: VariableStatus,
    k: int,
)
    requires
        0 <= k,
        forall|j: int|
            0 <= j < k && j < st.scopes.len() ==> !(#[trigger] frames(st)[st.scopes.len() - 1
                - j]).contains(var.ident.name),
    ensures
        access_from(st, var, status, k).0.errors.len() >= st.errors.len(),
        access_from(st, var, status, k).0.errors.len() == st.errors.len() ==> looked_up(
            frames(st),
            var,
            access_from(st, var, status, k).1,
        ),
    decreases st.scopes.len() - k,
{
    let env = frames(st);
    let name = var.ident.name;
    if k < st.scopes.len() {
        let at = st.scopes.len() - 1 - k;
        lemma_find_from(st.scopes[at], name, 0);
        lemma_find_names(st.scopes[at], name);
        match find(st.scopes[at], name) {
            Some(i) => {
                if !(k > MAX_LOCALS || i >= MAX_LOCALS) {
                    let t = IdentTarget { scope_count: k as u16, index: i as u16 };
                    assert(access_from(st, var, status, k).1.target == Some(t));
                    assert(env[at][i] == name);
                    assert(env[at].contains(name));
                    assert(points_at(env, name, t));
                }
            },
            None => {
                assert(!env[at].contains(name));
                lemma_access_from_settles(st, var, status, k + 1);
            },
        }
    } else {
        assert forall|j: int| 0 <= j < env.len() implies !(#[trigger] env[j]).contains(name) by {
            assert(env[j] == env[st.scopes.len() - 1 - (st.scopes.len() - 1 - j)]);
        }
    }
}

/// A lookup that reports nothing binds the variable if its name is in sight
/// and leaves it as it was if not.
pub proof fn lemma_access_settles(st: SpecResolver, var: SpecVariable, status: VariableStatus)
    ensures
        access(st, var, status).0.errors.len() >= st.errors.len(),
        access(st, var, status).0.errors.len() == st.errors.len() ==> looked_up(
            frames(st),
            var,
            access(st, var, status).1,
        ),
{
    reveal(access);
    lemma_access_from_settles(st, var, status, 0);
}

/// A read that reports nothing binds the variable if its name is in sight
/// and leaves it as it was if not.
pub proof fn lemma_var_settles(st: SpecResolver, var: SpecVariable)
    ensures
        res_var(st, var).0.errors.len() >= st.errors.len(),
        res_var(st, var).0.errors.len() == st.errors.len() ==> looked_up(
            frames(st),
            var,
            res_var(st, var).1,
        ),
{
    let st1 = if var.ident.name == "this"@ && st.function_type is Outside {
        st.with_error(crate::error::SpecResolverError::InvalidThis(var.ident.span))
    } else {
        st
    };
    lemma_access_settles(st1, var, VariableStatus::Used);
    assert(frames(st1) == frames(st));
}

/// A declaration that reports nothing binds the variable to its name among
/// the names in sight after it, or leaves it as it was if no frame is open.
pub proof fn lemma_declare_settles(st: SpecResolver, var: SpecVariable, init: bool)
    requires
        sound(st),
    ensures
        declare(st, var, init).0.errors.len() >= st.errors.len(),
        declare(st, var, init).0.errors.len() == st.errors.len() ==> looked_up(
            frames(declare(st, var, init).0),
            var,
            declare(st, var, init).1,
        ),
        frames(declare(st, var, init).0) == with_top(frames(st), seq![var.ident.name]),
{
    lemma_declare_frame(st, var, init);
    let out = declare(st, var, init).0;
    lemma_frames_top(st, out, top_with(st, seq![var.ident.name]));
    reveal(declare);
    reveal(scope_declare);
    if st.scopes.len() > 0 {
        assert(frames(st).last() == top(st));
        let at = st.scopes.len() - 1;
        let scope = st.scopes[at];
        if out.errors.len() == st.errors.len() {
            let t = IdentTarget { scope_count: 0, index: scope.len() as u16 };
            assert(declare(st, var, init).1.target == Some(t));
            assert(out.scopes[at][scope.len() as int].name == var.ident.name);
            assert(frames(out)[at][scope.len() as int] == var.ident.name);
            assert(frames(out)[at].contains(var.ident.name));
            assert(points_at(frames(out), var.ident.name, t));
        }
    } else {
        assert(!visible(frames(out), var.ident.name));
    }
}

/// Whether the first expressions are settled depends on them alone.
pub proof fn lemma_exprs_settled_same(exact: bool, env: Sight, a: Seq<SpecExpr>, b: Seq<SpecExpr>, n: nat)
    requires
        n <= a.len(),
        n <= b.len(),
        forall|i: int| 0 <= i < n ==> a[i] == b[i],
    ensures
        exprs_settled(exact, env, a, n) == exprs_settled(exact, env, b, n),
    decreases n,
{
    if n > 0 {
        lemma_exprs_settled_same(exact, env, a, b, (n - 1) as nat);
    }
}

/// Expressions that resolve with nothing reported are settled.
pub proof fn lemma_exprs_settle(exact: bool, st: SpecResolver, es: Seq<SpecExpr>, n: nat)
    requires
        exact ==> exprs_unbound(es, n),
        sound(st),
        n <= es.len(),
    ensures
        res_exprs(st, es, n).0.errors.len() >= st.errors.len(),
        res_exprs(st, es, n).1.len() == n,
        res_exprs(st, es, n).0.errors.len() == st.errors.len() ==> exprs_settled(exact, 
            frames(st),
            res_exprs(st, es, n).1,
            n,
        ),
    decreases es, n,
{
    if n > 0 {
        let m = (n - 1) as nat;
        lemma_exprs_settle(exact, st, es, m);
        lemma_exprs_frame(st, es, m);
        let (st1, before) = res_exprs(st, es, m);
        lemma_frames_same(st, st1);
        lemma_expr_settles(exact, st1, es[n - 1]);
        let out = res_exprs(st, es, n).1;
        lemma_exprs_settled_same(exact, frames(st), before, out, m);
    }
}

/// An expression that resolves with nothing reported is settled.
pub proof fn lemma_expr_settles(exact: bool, st: SpecResolver, e: SpecExpr)
    requires
        exact ==> expr_unbound(e),
        sound(st),
    ensures
        res_expr(st, e).0.errors.len() >= st.errors.len(),
        res_expr(st, e).0.errors.len() == st.errors.len() ==> expr_settled(exact, 
            frames(st),
            res_expr(st, e).1,
        ),
    decreases e, 0nat,
{
    match e {
        SpecExpr::Binary { operator, left, right } => {
            lemma_expr_settles(exact, st, *left);
            lemma_expr_frame(st, *left);
            let st1 = res_expr(st, *left).0;
            lemma_frames_same(st, st1);
            lemma_expr_settles(exact, st1, *right);
        },
        SpecExpr::Unary { op_span, operator, operand } => {
            lemma_expr_settles(exact, st, *operand);
        },
        SpecExpr::Group { span, expr } => {
            lemma_expr_settles(exact, st, *expr);
        },
        SpecExpr::Literal { .. } => {},
        SpecExpr::Ternary { condition, truthy, falsy } => {
            lemma_expr_settles(exact, st, *condition);
            lemma_expr_frame(st, *condition);
            let st1 = res_expr(st, *condition).0;
            lemma_frames_same(st, st1);
            lemma_expr_settles(exact, st1, *truthy);
            lemma_expr_frame(st1, *truthy);
            let st2 = res_expr(st1, *truthy).0;
            lemma_frames_same(st1, st2);
            lemma_expr_settles(exact, st2, *falsy);
        },
        SpecExpr::Assign { var, value } => {
            lemma_expr_settles(exact, st, *value);
            lemma_expr_frame(st, *value);
            let st1 = res_expr(st, *value).0;
            lemma_frames_same(st, st1);
            lemma_access_settles(st1, var, VariableStatus::Initialized);
        },
        SpecExpr::Var(var) => {
            lemma_var_settles(st, var);
        },
        SpecExpr::FnCall { callee, arguments, end } => {
            lemma_expr_settles(exact, st, *callee);
            lemma_expr_frame(st, *callee);
            let st1 = res_expr(st, *callee).0;
            lemma_frames_same(st, st1);
            lemma_exprs_settle(exact, st1, arguments, arguments.len());
        },
        SpecExpr::Get { object, field } => {
            lemma_expr_settles(exact, st, *object);
        },
        SpecExpr::SetField { object, field, value } => {
            lemma_expr_settles(exact, st, *object);
            lemma_expr_frame(st, *object);
            let st1 = res_expr(st, *object).0;
            lemma_frames_same(st, st1);
            lemma_expr_settles(exact, st1, *value);
        },
        SpecExpr::Super { var, method } => {
            lemma_access_settles(st, var, VariableStatus::Used);
        },
    }
}

/// A state that has declared names in the innermost scope of another has
/// them in sight in the innermost frame.
pub proof fn lemma_frames_declared(a: SpecResolver, b: SpecResolver, xs: Seq<Seq<char>>)
    requires
        agrees(a, b),
        top(b) == top_with(a, xs),
    ensures
        frames(b) == with_top(frames(a), xs),
{
    assert(frames(b) =~= with_top(frames(a), xs));
}

/// Whether the first parameters are settled depends on them alone.
pub proof fn lemma_params_settled_same(exact: bool, env: Sight,
    a: Seq<SpecVariable>,
    b: Seq<SpecVariable>,
    n: nat,
)
    requires
        n <= a.len(),
        n <= b.len(),
        forall|i: int| 0 <= i < n ==> a[i] == b[i],
    ensures
        params_settled(exact, env, a, n) == params_settled(exact, env, b, n),
    decreases n,
{
    if n > 0 {
        lemma_params_settled_same(exact, env, a, b, (n - 1) as nat);
        lemma_params_in_same(a, b, n);
    }
}

/// Whether the first statements are settled depends on them alone.
pub proof fn lemma_stmts_settled_same(exact: bool, env: Sight, a: Seq<SpecStmt>, b: Seq<SpecStmt>, n: nat)
    requires
        n <= a.len(),
        n <= b.len(),
        forall|i: int| 0 <= i < n ==> a[i] == b[i],
    ensures
        stmts_settled(exact, env, a, n) == stmts_settled(exact, env, b, n),
    decreases n,
{
    if n > 0 {
        let m = (n - 1) as nat;
        lemma_stmts_settled_same(exact, env, a, b, m);
        if env.len() > 0 {
            lemma_declared_in_same(env.last(), a, b, m);
        }
    }
}

/// Whether the first functions are settled depends on them alone.
pub proof fn lemma_fns_settled_same(exact: bool, env: Sight, a: Seq<SpecFnDecl>, b: Seq<SpecFnDecl>, n: nat)
    requires
        n <= a.len(),
        n <= b.len(),
        forall|i: int| 0 <= i < n ==> a[i] == b[i],
    ensures
        fns_settled(exact, env, a, n) == fns_settled(exact, env, b, n),
    decreases n,
{
    if n > 0 {
        lemma_fns_settled_same(exact, env, a, b, (n - 1) as nat);
    }
}

/// Parameters that are declared with nothing reported are settled.
pub proof fn lemma_params_settle(exact: bool, st: SpecResolver, ps: Seq<SpecVariable>, n: nat)
    requires
        exact ==> forall|i: int| 0 <= i < n ==> unbound(#[trigger] ps[i]),
        sound(st),
        st.scopes.len() > 0,
        top(st) == Seq::<Seq<char>>::empty(),
        n <= ps.len(),
    ensures
        res_params(st, ps, n).0.errors.len() >= st.errors.len(),
        res_params(st, ps, n).0.errors.len() == st.errors.len() ==> params_settled(exact, 
            frames(st).drop_last(),
            res_params(st, ps, n).1,
            n,
        ),
    decreases n,
{
    if n > 0 {
        let m = (n - 1) as nat;
        lemma_params_settle(exact, st, ps, m);
        lemma_params_frame(st, ps, m);
        lemma_params_frame(st, ps, n);
        let (st1, before) = res_params(st, ps, m);
        lemma_declare_settles(st1, ps[n - 1], true);
        let (st2, out) = res_params(st, ps, n);
        let env = frames(st).drop_last();
        lemma_frames_top(st, st2, params_in(ps, n));
        assert(frames(st2) =~= env.push(params_in(out, n)));
        lemma_params_settled_same(exact, env, before, out, m);
    }
}

/// Statements that resolve with nothing reported are settled.
pub proof fn lemma_stmts_settle(exact: bool, st: SpecResolver, ss: Seq<SpecStmt>, n: nat)
    requires
        exact ==> stmts_unbound(ss, n),
        sound(st),
        n <= ss.len(),
    ensures
        res_stmts(st, ss, n).0.errors.len() >= st.errors.len(),
        res_stmts(st, ss, n).0.errors.len() == st.errors.len() ==> stmts_settled(exact, 
            frames(st),
            res_stmts(st, ss, n).1,
            n,
        ),
    decreases ss, n,
{
    if n > 0 {
        let m = (n - 1) as nat;
        lemma_stmts_settle(exact, st, ss, m);
        lemma_stmts_frame(st, ss, m);
        lemma_stmts_frame(st, ss, n);
        let (st1, before) = res_stmts(st, ss, m);
        lemma_stmt_settles(exact, st1, ss[n - 1]);
        let out = res_stmts(st, ss, n).1;
        assert(out[n - 1] == res_stmt(st1, ss[n - 1]).1);
        lemma_frames_top(st, st1, declared_in(top(st), ss, m));
        if st.scopes.len() > 0 {
            assert(frames(st).last() == top(st));
            lemma_declared_in_same(top(st), out, ss, m);
        }
        assert(frames(st1) == after(frames(st), out, m));
        lemma_stmts_settled_same(exact, frames(st), before, out, m);
    }
}

/// A function that resolves with nothing reported is settled.
pub proof fn lemma_function_settles(exact: bool, st: SpecResolver, f: SpecFnDecl)
    requires
        exact ==> fn_unbound(f),
        sound(st),
    ensures
        res_function(st, f).0.errors.len() >= st.errors.len(),
        res_function(st, f).0.errors.len() == st.errors.len() ==> fn_settled(exact, 
            frames(st),
            res_function(st, f).1,
        ),
    decreases f, 0nat,
{
    reveal(start_scope);
    reveal(end_scope);
    lemma_start_scope(st);
    let st1 = start_scope(st);
    assert(st1.scopes.drop_last() =~= st.scopes);
    lemma_frames_pushed(st, st1);
    assert(frames(st1).drop_last() =~= frames(st));
    lemma_params_settle(exact, st1, f.params, f.params.len());
    lemma_params_frame(st1, f.params, f.params.len());
    let (st2, params) = res_params(st1, f.params, f.params.len());
    lemma_frames_top(st1, st2, params_in(f.params, f.params.len()));
    assert(frames(st2) =~= frames(st).push(params_in(params, params.len())));
    lemma_stmts_settle(exact, st2, f.body, f.body.len());
    lemma_stmts_frame(st2, f.body, f.body.len());
}

/// Methods that resolve with nothing reported are settled.
pub proof fn lemma_methods_settle(exact: bool, st: SpecResolver, ms: Seq<SpecFnDecl>, n: nat)
    requires
        exact ==> fns_unbound(ms, n),
        sound(st),
        n <= ms.len(),
    ensures
        res_methods(st, ms, n).0.errors.len() >= st.errors.len(),
        res_methods(st, ms, n).1.len() == n,
        res_methods(st, ms, n).0.errors.len() == st.errors.len() ==> fns_settled(exact, 
            frames(st),
            res_methods(st, ms, n).1,
            n,
        ),
    decreases ms, n,
{
    if n > 0 {
        let m = (n - 1) as nat;
        lemma_methods_settle(exact, st, ms, m);
        lemma_methods_frame(st, ms, m);
        let (st1, before) = res_methods(st, ms, m);
        lemma_frames_same(st, st1);
        let method = ms[n - 1];
        let st2 = st1.with_function(method_type(method.var.ident.name));
        assert(frames(st2) == frames(st1));
        lemma_function_settles(exact, st2, method);
        let out = res_methods(st, ms, n).1;
        lemma_fns_settled_same(exact, frames(st), before, out, m);
    }
}

/// A statement that resolves with nothing reported is settled.
pub proof fn lemma_stmt_settles(exact: bool, st: SpecResolver, s: SpecStmt)
    requires
        exact ==> stmt_unbound(s),
        sound(st),
    ensures
        res_stmt(st, s).0.errors.len() >= st.errors.len(),
        res_stmt(st, s).0.errors.len() == st.errors.len() ==> stmt_settled(exact, 
            frames(st),
            res_stmt(st, s).1,
        ),
    decreases s, 0nat,
{
    let env = frames(st);
    match s {
        SpecStmt::Print(e) => {
            lemma_expr_settles(exact, st, e);
        },
        SpecStmt::Expression(e) => {
            lemma_expr_settles(exact, st, e);
        },
        SpecStmt::Var { var, initializer } => {
            lemma_declare_settles(st, var, false);
            lemma_declare_frame(st, var, false);
            let (st1, var1) = declare(st, var, false);
            match initializer {
                Some(e) => {
                    lemma_expr_settles(exact, st1, e);
                    lemma_expr_frame(st1, e);
                    let st2 = res_expr(st1, e).0;
                    lemma_frames_same(st1, st2);
                    lemma_access_settles(st2, var1, VariableStatus::Initialized);
                    lemma_access_frame(st2, var1, VariableStatus::Initialized);
                },
                None => {},
            }
        },
        SpecStmt::Block { statements, num_of_locals } => {
            reveal(start_scope);
            reveal(end_scope);
            lemma_start_scope(st);
            let st1 = start_scope(st);
            assert(st1.scopes.drop_last() =~= st.scopes);
            lemma_frames_pushed(st, st1);
            assert(frames(st1) =~= env.push(Seq::empty()));
            lemma_stmts_settle(exact, st1, statements, statements.len());
            lemma_stmts_frame(st1, statements, statements.len());
        },
        SpecStmt::If { condition, then_branch, else_branch } => {
            lemma_expr_settles(exact, st, condition);
            lemma_expr_frame(st, condition);
            let st1 = res_expr(st, condition).0;
            lemma_frames_same(st, st1);
            lemma_stmt_settles(exact, st1, *then_branch);
            lemma_stmt_frame(st1, *then_branch);
            let st2 = res_stmt(st1, *then_branch).0;
            match else_branch {
                Some(e) => {
                    lemma_frames_declared(st1, st2, declares(*then_branch));
                    lemma_stmt_settles(exact, st2, *e);
                },
                None => {},
            }
        },
        SpecStmt::While { condition, body } => {
            lemma_expr_settles(exact, st, condition);
            lemma_expr_frame(st, condition);
            let st1 = res_expr(st, condition).0;
            lemma_frames_same(st, st1);
            lemma_stmt_settles(exact, st1, *body);
        },
        SpecStmt::FnDecl(f) => {
            reveal_with_fuel(stmt_unbound, 2);
            lemma_declare_settles(st, f.var, true);
            lemma_declare_frame(st, f.var, true);
            let (st1, var1) = declare(st, f.var, true);
            let st2 = st1.with_function(FunctionType::Function);
            assert(frames(st2) == frames(st1));
            lemma_function_settles(exact, st2, f);
            let f2 = res_function(st2, f).1;
            let renamed = SpecFnDecl { var: var1, ..f2 };
            assert(res_stmt(st, s).1 == SpecStmt::FnDecl(renamed));
            assert(fn_settled(exact, frames(st1), renamed) == fn_settled(exact, frames(st1), f2));
        },
        SpecStmt::Return { span, expr } => {
            if !(st.function_type is Outside) {
                match expr {
                    Some(e) => {
                        let st1 = if st.function_type is Initializer {
                            st.with_error(
                                crate::error::SpecResolverError::ReturnInConstructor(span),
                            )
                        } else {
                            st
                        };
                        assert(frames(st1) == frames(st));
                        lemma_expr_settles(exact, st1, e);
                    },
                    None => {},
                }
            }
        },
        SpecStmt::ClassDecl { var, super_class, methods } => {
            reveal(start_class_scope);
            reveal(end_scope);
            lemma_declare_settles(st, var, true);
            lemma_declare_frame(st, var, true);
            let (st1, var1) = declare(st, var, true);
            let env1 = frames(st1);
            match super_class {
                Some(sv) => {
                    lemma_access_settles(st1, sv, VariableStatus::Used);
                    lemma_access_frame(st1, sv, VariableStatus::Used);
                    let a = access(st1, sv, VariableStatus::Used).0;
                    lemma_frames_same(st1, a);
                    lemma_start_class_scope(a, sv.ident.span, true);
                    let b = start_class_scope(a, sv.ident.span, true);
                    lemma_frames_pushed(a, b);
                    assert(names(b.scopes.last()) =~= seq!["super"@]);
                    let st2 = b.with_class(ClassType::SubClass);
                    assert(frames(st2) == frames(b));
                    lemma_start_class_scope(st2, var.ident.span, false);
                    let st3 = start_class_scope(st2, var.ident.span, false);
                    lemma_frames_pushed(st2, st3);
                    assert(names(st3.scopes.last()) =~= seq!["this"@]);
                    assert(frames(st3) == env1.push(seq!["super"@]).push(seq!["this"@]));
                    lemma_methods_settle(exact, st3, methods, methods.len());
                },
                None => {
                    let st2 = st1.with_class(ClassType::Class);
                    assert(frames(st2) == frames(st1));
                    lemma_start_class_scope(st2, var.ident.span, false);
                    let st3 = start_class_scope(st2, var.ident.span, false);
                    lemma_frames_pushed(st2, st3);
                    assert(names(st3.scopes.last()) =~= seq!["this"@]);
                    assert(frames(st3) == env1.push(seq!["this"@]));
                    lemma_methods_settle(exact, st3, methods, methods.len());
                },
            }
        },
    }
}

/// In a program that resolves with nothing reported, every variable whose
/// name is in sight where it stands is bound, and bound to the slot of that
/// name in the innermost frame that has it: a variable that is left unbound
/// names a global. `st` is the state of the resolver before the program.
pub proof fn lemma_binds(st: SpecResolver, ast: Seq<SpecStmt>)
    requires
        sound(st),
    ensures
        res_stmts(st, ast, ast.len()).0.errors.len() == st.errors.len() ==> stmts_settled(
            false,
            frames(st),
            res_stmts(st, ast, ast.len()).1,
            ast.len(),
        ),
{
    lemma_stmts_settle(false, st, ast, ast.len());
}

/// In a program that had no variable bound and resolves with nothing
/// reported, a variable is bound if and only if its name is in sight where
/// it stands, and it is bound to the slot of that name in the innermost
/// frame that has it.
pub proof fn lemma_binds_exactly(st: SpecResolver, ast: Seq<SpecStmt>)
    requires
        sound(st),
        stmts_unbound(ast, ast.len()),
    ensures
        res_stmts(st, ast, ast.len()).0.errors.len() == st.errors.len() ==> stmts_settled(
            true,
            frames(st),
            res_stmts(st, ast, ast.len()).1,
            ast.len(),
        ),
{
    lemma_stmts_settle(true, st, ast, ast.len());
}

/// In a program that a resolver which has seen nothing resolves without a
/// diagnostic, every variable that stands where a local of its name is in
/// sight is bound to that local, and every variable left unbound names a
/// global. If no variable of the program was bound before, a variable is
/// bound only where a local of its name is in sight.
pub proof fn lemma_binds_of_program(ast: Seq<SpecStmt>)
    ensures
        res_program(SpecResolver::fresh(), ast).2 is None ==> stmts_settled(
            stmts_unbound(ast, ast.len()),
            Seq::empty(),
            res_program(SpecResolver::fresh(), ast).1,
            ast.len(),
        ),
{
    lemma_stmts_settle(stmts_unbound(ast, ast.len()), SpecResolver::fresh(), ast, ast.len());
    assert(frames(SpecResolver::fresh()) =~= Seq::<Seq<Seq<char>>>::empty());
}

} // verus!
