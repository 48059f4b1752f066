//! Name resolution, as a function on the syntax tree.
//!
//! The resolver walks the tree with a stack of scopes. Each scope lists the
//! names declared in one frame, in the order of their slots. Every function
//! here takes the state of the resolver and a piece of syntax, and gives the
//! state after the walk and the syntax with its targets and slot counts
//! filled in.

use vstd::prelude::*;
use crate::ast::expr::SpecExpr;
use crate::ast::ident::{IdentTarget, SpecVariable};
use crate::ast::stmt::{SpecFnDecl, SpecStmt};
use crate::error::SpecResolverError;
use crate::span::Span;

verus! {

/// The most names that one scope holds, and the farthest scope that a
/// target reaches: both must fit 16 bits, the count of a scope included.
pub const MAX_LOCALS: usize = 65535;

/// How far a variable has come.
#[derive(Debug, Clone, Copy, PartialEq, Eq, Structural)]
pub enum VariableStatus {
    Declared,
    Initialized,
    Used,
}

/// Why a name was not declared.
#[derive(Debug, Clone, Copy, PartialEq, Eq, Structural)]
pub enum DeclareError {
    /// The scope has the name already, declared at this span.
    Redefined(Span),
    /// The scope is full.
    Full,
}

/// The kind of class whose body is being resolved.
#[derive(Debug, Clone, Copy, PartialEq, Eq, Structural)]
pub enum ClassType {
    Outside,
    Class,
    SubClass,
}

/// The kind of function whose body is being resolved.
#[derive(Debug, Clone, Copy, PartialEq, Eq, Structural)]
pub enum FunctionType {
    Outside,
    Function,
    Initializer,
    Method,
}

/// One name of a scope. Its slot is its place in the scope.
pub struct SpecVarInfo {
    pub name: Seq<char>,
    pub defined_at: Span,
    pub status: VariableStatus,
}

/// The state of the resolver: the scopes, outermost first; the diagnostics
/// so far; and the kinds of the enclosing class and function.
pub struct SpecResolver {
    pub scopes: Seq<Seq<SpecVarInfo>>,
    pub errors: Seq<SpecResolverError>,
    pub class_type: ClassType,
    pub function_type: FunctionType,
}

impl SpecResolver {
    pub open spec fn with_error(self, e: SpecResolverError) -> SpecResolver {
        SpecResolver { errors: self.errors.push(e), ..self }
    }

    pub open spec fn with_scopes(self, scopes: Seq<Seq<SpecVarInfo>>) -> SpecResolver {
        SpecResolver { scopes, ..self }
    }

    pub open spec fn with_class(self, class_type: ClassType) -> SpecResolver {
        SpecResolver { class_type, ..self }
    }

    pub open spec fn with_function(self, function_type: FunctionType) -> SpecResolver {
        SpecResolver { function_type, ..self }
    }

    /// The state of a resolver that has seen nothing.
    pub open spec fn fresh() -> SpecResolver {
        SpecResolver {
            scopes: Seq::empty(),
            errors: Seq::empty(),
            class_type: ClassType::Outside,
            function_type: FunctionType::Outside,
        }
    }
}

/// The slot of `name` in `scope`, looking from slot `i` on.
pub open spec fn find_from(scope: Seq<SpecVarInfo>, name: Seq<char>, i: int) -> Option<int>
    decreases scope.len() - i,
{
    if !(0 <= i < scope.len()) {
        None
    } else if scope[i].name == name {
        Some(i)
    } else {
        find_from(scope, name, i + 1)
    }
}

/// The slot of `name` in `scope`.
pub open spec fn find(scope: Seq<SpecVarInfo>, name: Seq<char>) -> Option<int> {
    find_from(scope, name, 0)
}

/// Declares `name` in `scope`: it takes the next slot, unless the scope has
/// the name already or is full.
#[verifier::opaque]
pub open spec fn scope_declare(
    scope: Seq<SpecVarInfo>,
    name: Seq<char>,
    span: Span,
    initialized: bool,
) -> (Seq<SpecVarInfo>, Result<u16, DeclareError>) {
    match find(scope, name) {
        Some(i) => (scope, Err(DeclareError::Redefined(scope[i].defined_at))),
        None => if scope.len() >= MAX_LOCALS {
            (scope, Err(DeclareError::Full))
        } else {
            (
                scope.push(
                    SpecVarInfo {
                        name,
                        defined_at: span,
                        status: if initialized {
                            VariableStatus::Initialized
                        } else {
                            VariableStatus::Declared
                        },
                    },
                ),
                Ok(scope.len() as u16),
            )
        },
    }
}

/// The scope with the status of slot `i` set.
pub open spec fn mark(scope: Seq<SpecVarInfo>, i: int, status: VariableStatus) -> Seq<SpecVarInfo> {
    scope.update(i, SpecVarInfo { status, ..scope[i] })
}

/// The variable bound to the slot `index` of the scope `scope_count` out.
pub open spec fn bound(var: SpecVariable, scope_count: int, index: int) -> SpecVariable {
    SpecVariable {
        ident: var.ident,
        target: Some(IdentTarget { scope_count: scope_count as u16, index: index as u16 }),
    }
}

/// Declares `var` in the innermost scope and binds it to its slot there.
/// With no scope open the variable is a global, and nothing happens. A name
/// that the scope has already, or that it has no room for, is reported, and
/// the variable stays as it was.
#[verifier::opaque]
pub open spec fn declare(st: SpecResolver, var: SpecVariable, initialized: bool) -> (
    SpecResolver,
    SpecVariable,
) {
    if st.scopes.len() == 0 {
        (st, var)
    } else {
        let top = st.scopes.len() - 1;
        let (scope, outcome) = scope_declare(
            st.scopes[top],
            var.ident.name,
            var.ident.span,
            initialized,
        );
        match outcome {
            Ok(index) => (st.with_scopes(st.scopes.update(top, scope)), bound(var, 0, index as int)),
            Err(DeclareError::Redefined(defined_at)) => (
                st.with_error(
                    SpecResolverError::RedefineVar {
                        pos: var.ident.span,
                        name: var.ident.name,
                        defined_at,
                    },
                ),
                var,
            ),
            Err(DeclareError::Full) => (
                st.with_error(SpecResolverError::TooManyLocals(var.ident.span, var.ident.name)),
                var,
            ),
        }
    }
}

/// Looks the name of `var` up in the scopes that are `k` or more out,
/// innermost first. The first scope that has the name gets the status set
/// there, and the variable is bound to that slot. A name that no scope has
/// stays as it was: it is a global. A name found too far out to address is
/// reported, and the variable stays as it was.
pub open spec fn access_from(st: SpecResolver, var: SpecVariable, status: VariableStatus, k: int) -> (
    SpecResolver,
    SpecVariable,
)
    decreases st.scopes.len() - k,
{
    if !(0 <= k < st.scopes.len()) {
        (st, var)
    } else {
        let at = st.scopes.len() - 1 - k;
        match find(st.scopes[at], var.ident.name) {
            Some(i) => if k > MAX_LOCALS || i >= MAX_LOCALS {
                (st.with_error(SpecResolverError::TooDeep(var.ident.span, var.ident.name)), var)
            } else {
                (
                    st.with_scopes(st.scopes.update(at, mark(st.scopes[at], i, status))),
                    bound(var, k, i),
                )
            },
            None => access_from(st, var, status, k + 1),
        }
    }
}

/// Looks the name of `var` up in all the scopes, innermost first.
#[verifier::opaque]
pub open spec fn access(st: SpecResolver, var: SpecVariable, status: VariableStatus) -> (
    SpecResolver,
    SpecVariable,
) {
    access_from(st, var, status, 0)
}

/// A read of `var`. `this` outside of any function is reported.
pub open spec fn res_var(st: SpecResolver, var: SpecVariable) -> (SpecResolver, SpecVariable) {
    let st1 = if var.ident.name == "this"@ && st.function_type is Outside {
        st.with_error(SpecResolverError::InvalidThis(var.ident.span))
    } else {
        st
    };
    access(st1, var, VariableStatus::Used)
}

/// Opens a scope.
#[verifier::opaque]
pub open spec fn start_scope(st: SpecResolver) -> SpecResolver {
    st.with_scopes(st.scopes.push(Seq::empty()))
}

/// Opens the scope that holds `super` (if `is_super_class`) or `this` in
/// slot 0.
#[verifier::opaque]
pub open spec fn start_class_scope(st: SpecResolver, span: Span, is_super_class: bool) -> SpecResolver {
    st.with_scopes(
        st.scopes.push(
            seq![
                SpecVarInfo {
                    name: if is_super_class {
                        "super"@
                    } else {
                        "this"@
                    },
                    defined_at: span,
                    status: VariableStatus::Initialized,
                },
            ],
        ),
    )
}

/// Closes the innermost scope and gives the number of its names.
#[verifier::opaque]
pub open spec fn end_scope(st: SpecResolver) -> (SpecResolver, u16) {
    if st.scopes.len() == 0 {
        (st, 0)
    } else {
        (st.with_scopes(st.scopes.drop_last()), st.scopes.last().len() as u16)
    }
}

/// Resolves the first `n` expressions of `es` in order.
pub open spec fn res_exprs(st: SpecResolver, es: Seq<SpecExpr>, n: nat) -> (
    SpecResolver,
    Seq<SpecExpr>,
)
    decreases es, n,
{
    if n == 0 || n > es.len() {
        (st, Seq::empty())
    } else {
        let (st1, done) = res_exprs(st, es, (n - 1) as nat);
        let (st2, e) = res_expr(st1, es[n - 1]);
        (st2, done.push(e))
    }
}

/// Resolves an expression: its operands in the order they are written,
/// and then the variable that it reads or writes, if it is one.
pub open spec fn res_expr(st: SpecResolver, e: SpecExpr) -> (SpecResolver, SpecExpr)
    decreases e, 0nat,
{
    match e {
        SpecExpr::Binary { operator, left, right } => {
            let (st1, l) = res_expr(st, *left);
            let (st2, r) = res_expr(st1, *right);
            (st2, SpecExpr::Binary { operator, left: Box::new(l), right: Box::new(r) })
        },
        SpecExpr::Unary { op_span, operator, operand } => {
            let (st1, o) = res_expr(st, *operand);
            (st1, SpecExpr::Unary { op_span, operator, operand: Box::new(o) })
        },
        SpecExpr::Group { span, expr } => {
            let (st1, inner) = res_expr(st, *expr);
            (st1, SpecExpr::Group { span, expr: Box::new(inner) })
        },
        SpecExpr::Literal { .. } => (st, e),
        SpecExpr::Ternary { condition, truthy, falsy } => {
            let (st1, c) = res_expr(st, *condition);
            let (st2, t) = res_expr(st1, *truthy);
            let (st3, f) = res_expr(st2, *falsy);
            (
                st3,
                SpecExpr::Ternary {
                    condition: Box::new(c),
                    truthy: Box::new(t),
                    falsy: Box::new(f),
                },
            )
        },
        SpecExpr::Assign { var, value } => {
            let (st1, v) = res_expr(st, *value);
            let (st2, var2) = access(st1, var, VariableStatus::Initialized);
            (st2, SpecExpr::Assign { var: var2, value: Box::new(v) })
        },
        SpecExpr::Var(var) => {
            let (st1, var2) = res_var(st, var);
            (st1, SpecExpr::Var(var2))
        },
        SpecExpr::FnCall { callee, arguments, end } => {
            let (st1, c) = res_expr(st, *callee);
            let (st2, args) = res_exprs(st1, arguments, arguments.len());
            (st2, SpecExpr::FnCall { callee: Box::new(c), arguments: args, end })
        },
        SpecExpr::Get { object, field } => {
            let (st1, o) = res_expr(st, *object);
            (st1, SpecExpr::Get { object: Box::new(o), field })
        },
        SpecExpr::SetField { object, field, value } => {
            let (st1, o) = res_expr(st, *object);
            let (st2, v) = res_expr(st1, *value);
            (st2, SpecExpr::SetField { object: Box::new(o), field, value: Box::new(v) })
        },
        SpecExpr::Super { var, method } => match st.class_type {
            ClassType::SubClass => {
                let (st1, var2) = access(st, var, VariableStatus::Used);
                (st1, SpecExpr::Super { var: var2, method })
            },
            ClassType::Class => (
                st.with_error(SpecResolverError::NotSubClass(var.ident.span)),
                e,
            ),
            ClassType::Outside => (
                st.with_error(SpecResolverError::InvalidSuper(var.ident.span)),
                e,
            ),
        },
    }
}

/// Declares the first `n` parameters of `ps` in order.
pub open spec fn res_params(st: SpecResolver, ps: Seq<SpecVariable>, n: nat) -> (
    SpecResolver,
    Seq<SpecVariable>,
)
    decreases n,
{
    if n == 0 || n > ps.len() {
        (st, Seq::empty())
    } else {
        let (st1, done) = res_params(st, ps, (n - 1) as nat);
        let (st2, p) = declare(st1, ps[n - 1], true);
        (st2, done.push(p))
    }
}

/// Resolves the first `n` statements of `ss` in order.
pub open spec fn res_stmts(st: SpecResolver, ss: Seq<SpecStmt>, n: nat) -> (
    SpecResolver,
    Seq<SpecStmt>,
)
    decreases ss, n,
{
    if n == 0 || n > ss.len() {
        (st, Seq::empty())
    } else {
        let (st1, done) = res_stmts(st, ss, (n - 1) as nat);
        let (st2, s) = res_stmt(st1, ss[n - 1]);
        (st2, done.push(s))
    }
}

/// Resolves the parameters and the body of a function in a scope of their
/// own, and counts the names of that scope.
pub open spec fn res_function(st: SpecResolver, f: SpecFnDecl) -> (SpecResolver, SpecFnDecl)
    decreases f, 0nat,
{
    let st1 = start_scope(st);
    let (st2, params) = res_params(st1, f.params, f.params.len());
    let (st3, body) = res_stmts(st2, f.body, f.body.len());
    let (st4, num_of_locals) = end_scope(st3);
    (st4, SpecFnDecl { var: f.var, params, body, num_of_locals })
}

/// The kind of function that a method of this name is.
pub open spec fn method_type(name: Seq<char>) -> FunctionType {
    if name == "init"@ {
        FunctionType::Initializer
    } else {
        FunctionType::Method
    }
}

/// Resolves the first `n` methods of `ms` in order, each as an initializer
/// or a method.
pub open spec fn res_methods(st: SpecResolver, ms: Seq<SpecFnDecl>, n: nat) -> (
    SpecResolver,
    Seq<SpecFnDecl>,
)
    decreases ms, n,
{
    if n == 0 || n > ms.len() {
        (st, Seq::empty())
    } else {
        let (st1, done) = res_methods(st, ms, (n - 1) as nat);
        let m = ms[n - 1];
        let (st2, m2) = res_function(st1.with_function(method_type(m.var.ident.name)), m);
        (st2.with_function(st1.function_type), done.push(m2))
    }
}

/// Resolves a statement.
///
/// - A block gets a scope of its own and the count of its names.
/// - A variable declaration declares the name, then resolves the
///   initializer, then marks the variable as initialized.
/// - A function declaration declares the name, as initialized, and then
///   resolves the function.
/// - A class declaration declares the name. With a superclass, it resolves
///   the reference to it and opens the scope of `super`. It opens the scope
///   of `this`, resolves the methods, and closes what it opened.
/// - `return` outside of a function is reported, and so is `return` with a
///   value in an initializer.
pub open spec fn res_stmt(st: SpecResolver, s: SpecStmt) -> (SpecResolver, SpecStmt)
    decreases s, 0nat,
{
    match s {
        SpecStmt::Print(e) => {
            let (st1, e1) = res_expr(st, e);
            (st1, SpecStmt::Print(e1))
        },
        SpecStmt::Expression(e) => {
            let (st1, e1) = res_expr(st, e);
            (st1, SpecStmt::Expression(e1))
        },
        SpecStmt::Var { var, initializer } => {
            let (st1, var1) = declare(st, var, false);
            match initializer {
                Some(e) => {
                    let (st2, e2) = res_expr(st1, e);
                    let (st3, var3) = access(st2, var1, VariableStatus::Initialized);
                    (st3, SpecStmt::Var { var: var3, initializer: Some(e2) })
                },
                None => (st1, SpecStmt::Var { var: var1, initializer: None }),
            }
        },
        SpecStmt::Block { statements, num_of_locals } => {
            let st1 = start_scope(st);
            let (st2, stmts) = res_stmts(st1, statements, statements.len());
            let (st3, n) = end_scope(st2);
            (st3, SpecStmt::Block { statements: stmts, num_of_locals: n })
        },
        SpecStmt::If { condition, then_branch, else_branch } => {
            let (st1, c) = res_expr(st, condition);
            let (st2, t) = res_stmt(st1, *then_branch);
            match else_branch {
                Some(e) => {
                    let (st3, e3) = res_stmt(st2, *e);
                    (
                        st3,
                        SpecStmt::If {
                            condition: c,
                            then_branch: Box::new(t),
                            else_branch: Some(Box::new(e3)),
                        },
                    )
                },
                None => (
                    st2,
                    SpecStmt::If { condition: c, then_branch: Box::new(t), else_branch: None },
                ),
            }
        },
        SpecStmt::While { condition, body } => {
            let (st1, c) = res_expr(st, condition);
            let (st2, b) = res_stmt(st1, *body);
            (st2, SpecStmt::While { condition: c, body: Box::new(b) })
        },
        SpecStmt::FnDecl(f) => {
            let (st1, var1) = declare(st, f.var, true);
            let (st2, f2) = res_function(st1.with_function(FunctionType::Function), f);
            (
                st2.with_function(st1.function_type),
                SpecStmt::FnDecl(SpecFnDecl { var: var1, ..f2 }),
            )
        },
        SpecStmt::Return { span, expr } => {
            if st.function_type is Outside {
                (st.with_error(SpecResolverError::InvalidReturn(span)), s)
            } else {
                match expr {
                    Some(e) => {
                        let st1 = if st.function_type is Initializer {
                            st.with_error(SpecResolverError::ReturnInConstructor(span))
                        } else {
                            st
                        };
                        let (st2, e2) = res_expr(st1, e);
                        (st2, SpecStmt::Return { span, expr: Some(e2) })
                    },
                    None => (st, s),
                }
            }
        },
        SpecStmt::ClassDecl { var, super_class, methods } => {
            let (st1, var1) = declare(st, var, true);
            let (st2, sup) = match super_class {
                Some(sv) => {
                    let (a, sv2) = access(st1, sv, VariableStatus::Used);
                    (
                        start_class_scope(a, sv.ident.span, true).with_class(ClassType::SubClass),
                        Some(sv2),
                    )
                },
                None => (st1.with_class(ClassType::Class), None),
            };
            let st3 = start_class_scope(st2, var.ident.span, false);
            let (st4, ms) = res_methods(st3, methods, methods.len());
            let st5 = end_scope(st4).0;
            let st6 = if super_class is Some {
                end_scope(st5).0
            } else {
                st5
            };
            (
                st6.with_class(st1.class_type),
                SpecStmt::ClassDecl { var: var1, super_class: sup, methods: ms },
            )
        },
    }
}

/// Resolves a program with the resolver in state `st`: the state after it,
/// with the diagnostics taken out if there are any; the program resolved;
/// and the diagnostics, if there are any.
pub open spec fn res_program(st: SpecResolver, ast: Seq<SpecStmt>) -> (
    SpecResolver,
    Seq<SpecStmt>,
    Option<Seq<SpecResolverError>>,
) {
    let (st1, out) = res_stmts(st, ast, ast.len());
    if st1.errors.len() == 0 {
        (st1, out, None)
    } else {
        (SpecResolver { errors: Seq::empty(), ..st1 }, out, Some(st1.errors))
    }
}

} // verus!
