//! Statements.

use vstd::prelude::*;
use crate::ast::expr::{Expr, SpecExpr};
use crate::ast::ident::{IdentIndex, SpecVariable, Variable};
use crate::span::Span;

verus! {

#[derive(Debug, PartialEq, Eq)]
pub struct Print {
    pub expr: Expr,
}

#[derive(Debug, PartialEq, Eq)]
pub struct Expression {
    pub expr: Expr,
}

#[derive(Debug, PartialEq, Eq)]
pub struct VarDecl {
    pub var: Variable,
    pub initializer: Option<Expr>,
}

/// A block. `num_of_locals` is the number of slots of its frame; the resolver
/// fills it in.
#[derive(Debug, PartialEq, Eq)]
pub struct Block {
    pub statements: Vec<Statement>,
    pub num_of_locals: IdentIndex,
}

impl Block {
    /// The block of the given statements, with no slot counted yet.
    pub fn new(statements: Vec<Statement>) -> (r: Self)
        ensures
            r.statements == statements,
            r.num_of_locals == 0,
    {
        Block { statements, num_of_locals: 0 }
    }
}

#[derive(Debug, PartialEq, Eq)]
pub struct If {
    pub condition: Expr,
    pub then_branch: Statement,
    pub else_branch: Option<Statement>,
}

#[derive(Debug, PartialEq, Eq)]
pub struct While {
    pub condition: Expr,
    pub body: Statement,
}

/// A function or method declaration. `num_of_locals` is the number of slots
/// of the frame of its body, parameters included; the resolver fills it in.
#[derive(Debug, PartialEq, Eq)]
pub struct FnDecl {
    pub var: Variable,
    pub params: Vec<Variable>,
    pub body: Vec<Statement>,
    pub num_of_locals: IdentIndex,
}

#[derive(Debug, PartialEq, Eq)]
pub struct Return {
    pub span: Span,
    pub expr: Option<Expr>,
}

#[derive(Debug, PartialEq, Eq)]
pub struct ClassDecl {
    pub var: Variable,
    pub super_class: Option<Variable>,
    pub methods: Vec<FnDecl>,
}

#[derive(Debug, PartialEq, Eq)]
pub enum Statement {
    Print(Print),
    Expression(Expression),
    Var(Box<VarDecl>),
    Block(Box<Block>),
    If(Box<If>),
    While(Box<While>),
    FnDecl(Box<FnDecl>),
    Return(Box<Return>),
    ClassDecl(Box<ClassDecl>),
}

/// The mathematical value of a [`FnDecl`].
pub struct SpecFnDecl {
    pub var: SpecVariable,
    pub params: Seq<SpecVariable>,
    pub body: Seq<SpecStmt>,
    pub num_of_locals: IdentIndex,
}

/// The mathematical value of a [`Statement`].
pub enum SpecStmt {
    Print(SpecExpr),
    Expression(SpecExpr),
    Var { var: SpecVariable, initializer: Option<SpecExpr> },
    Block { statements: Seq<SpecStmt>, num_of_locals: IdentIndex },
    If { condition: SpecExpr, then_branch: Box<SpecStmt>, else_branch: Option<Box<SpecStmt>> },
    While { condition: SpecExpr, body: Box<SpecStmt> },
    FnDecl(SpecFnDecl),
    Return { span: Span, expr: Option<SpecExpr> },
    ClassDecl { var: SpecVariable, super_class: Option<SpecVariable>, methods: Seq<SpecFnDecl> },
}

/// The value of each variable of `vars`, in order.
pub open spec fn vars_view(vars: Seq<Variable>) -> Seq<SpecVariable> {
    Seq::new(vars.len(), |i: int| vars[i]@)
}

/// The value of an optional expression.
pub open spec fn opt_expr_view(e: Option<Expr>) -> Option<SpecExpr> {
    match e {
        Some(e) => Some(e@),
        None => None,
    }
}

/// The value of each statement of `stmts`, in order.
pub open spec fn stmts_view(stmts: Seq<Statement>) -> Seq<SpecStmt>
    decreases stmts,
{
    Seq::new(
        stmts.len(),
        |i: int|
            if 0 <= i < stmts.len() {
                stmt_view(stmts[i])
            } else {
                arbitrary()
            },
    )
}

/// The value of each declaration of `fns`, in order.
pub open spec fn fns_view(fns: Seq<FnDecl>) -> Seq<SpecFnDecl>
    decreases fns,
{
    Seq::new(
        fns.len(),
        |i: int|
            if 0 <= i < fns.len() {
                fn_view(fns[i])
            } else {
                arbitrary()
            },
    )
}

/// The value of a function declaration.
pub open spec fn fn_view(f: FnDecl) -> SpecFnDecl
    decreases f,
{
    SpecFnDecl {
        var: f.var@,
        params: vars_view(f.params@),
        body: stmts_view(f.body@),
        num_of_locals: f.num_of_locals,
    }
}

/// The value of a statement.
pub open spec fn stmt_view(s: Statement) -> SpecStmt
    decreases s,
{
    match s {
        Statement::Print(p) => SpecStmt::Print(p.expr@),
        Statement::Expression(e) => SpecStmt::Expression(e.expr@),
        Statement::Var(v) => SpecStmt::Var {
            var: v.var@,
            initializer: opt_expr_view(v.initializer),
        },
        Statement::Block(b) => SpecStmt::Block {
            statements: stmts_view(b.statements@),
            num_of_locals: b.num_of_locals,
        },
        Statement::If(i) => SpecStmt::If {
            condition: i.condition@,
            then_branch: Box::new(stmt_view(i.then_branch)),
            else_branch: match i.else_branch {
                Some(e) => Some(Box::new(stmt_view(e))),
                None => None,
            },
        },
        Statement::While(w) => SpecStmt::While {
            condition: w.condition@,
            body: Box::new(stmt_view(w.body)),
        },
        Statement::FnDecl(f) => SpecStmt::FnDecl(fn_view(*f)),
        Statement::Return(r) => SpecStmt::Return { span: r.span, expr: opt_expr_view(r.expr) },
        Statement::ClassDecl(c) => SpecStmt::ClassDecl {
            var: c.var@,
            super_class: match c.super_class {
                Some(v) => Some(v@),
                None => None,
            },
            methods: fns_view(c.methods@),
        },
    }
}

impl View for Statement {
    type V = SpecStmt;

    open spec fn view(&self) -> SpecStmt {
        stmt_view(*self)
    }
}

impl View for FnDecl {
    type V = SpecFnDecl;

    open spec fn view(&self) -> SpecFnDecl {
        fn_view(*self)
    }
}

/// Appending a statement appends its value.
pub proof fn lemma_stmts_view_push(stmts: Seq<Statement>, s: Statement)
    ensures
        stmts_view(stmts.push(s)) == stmts_view(stmts).push(s@),
{
    assert(stmts_view(stmts.push(s)) =~= stmts_view(stmts).push(stmt_view(s)));
}

/// Appending a declaration appends its value.
pub proof fn lemma_fns_view_push(fns: Seq<FnDecl>, f: FnDecl)
    ensures
        fns_view(fns.push(f)) == fns_view(fns).push(f@),
{
    assert(fns_view(fns.push(f)) =~= fns_view(fns).push(fn_view(f)));
}

/// Appending a variable appends its value.
pub proof fn lemma_vars_view_push(vars: Seq<Variable>, v: Variable)
    ensures
        vars_view(vars.push(v)) == vars_view(vars).push(v@),
{
    assert(vars_view(vars.push(v)) =~= vars_view(vars).push(v@));
}

} // verus!
