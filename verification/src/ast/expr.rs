//! Expressions.

use vstd::prelude::*;
use crate::ast::ident::{Ident, SpecIdent, SpecVariable, Variable};
use crate::span::{Position, Span};
use crate::token::{Keyword, SpecTokenType, TokenType};

verus! {

#[derive(Debug, Clone, Copy, PartialEq, Eq, Structural)]
pub enum BinaryOp {
    And,
    Divide,
    Equal,
    Greater,
    GreaterEqual,
    Less,
    LessEqual,
    Minus,
    Multiply,
    NotEqual,
    Or,
    Plus,
}

impl BinaryOp {
    /// The binary operator that a token writes, if it writes one.
    pub open spec fn of_token(token_type: SpecTokenType) -> Option<BinaryOp> {
        match token_type {
            SpecTokenType::BangEqual => Some(BinaryOp::NotEqual),
            SpecTokenType::EqualEqual => Some(BinaryOp::Equal),
            SpecTokenType::Greater => Some(BinaryOp::Greater),
            SpecTokenType::GreaterEqual => Some(BinaryOp::GreaterEqual),
            SpecTokenType::Keyword(Keyword::And) => Some(BinaryOp::And),
            SpecTokenType::Keyword(Keyword::Or) => Some(BinaryOp::Or),
            SpecTokenType::Less => Some(BinaryOp::Less),
            SpecTokenType::LessEqual => Some(BinaryOp::LessEqual),
            SpecTokenType::Minus => Some(BinaryOp::Minus),
            SpecTokenType::Plus => Some(BinaryOp::Plus),
            SpecTokenType::Slash => Some(BinaryOp::Divide),
            SpecTokenType::Star => Some(BinaryOp::Multiply),
            _ => None,
        }
    }

    /// The binary operator that a token writes, if it writes one.
    pub fn from_token(token_type: &TokenType) -> (r: Option<BinaryOp>)
        ensures
            r == Self::of_token(token_type@),
    {
        match token_type {
            TokenType::BangEqual => Some(BinaryOp::NotEqual),
            TokenType::EqualEqual => Some(BinaryOp::Equal),
            TokenType::Greater => Some(BinaryOp::Greater),
            TokenType::GreaterEqual => Some(BinaryOp::GreaterEqual),
            TokenType::Keyword(Keyword::And) => Some(BinaryOp::And),
            TokenType::Keyword(Keyword::Or) => Some(BinaryOp::Or),
            TokenType::Less => Some(BinaryOp::Less),
            TokenType::LessEqual => Some(BinaryOp::LessEqual),
            TokenType::Minus => Some(BinaryOp::Minus),
            TokenType::Plus => Some(BinaryOp::Plus),
            TokenType::Slash => Some(BinaryOp::Divide),
            TokenType::Star => Some(BinaryOp::Multiply),
            _ => None,
        }
    }
}

#[derive(Debug, PartialEq, Eq)]
pub struct BinaryExpr {
    pub operator: BinaryOp,
    pub left: Expr,
    pub right: Expr,
}

#[derive(Debug, Clone, Copy, PartialEq, Eq, Structural)]
pub enum UnaryOp {
    Negative,
    Not,
}

impl UnaryOp {
    /// The prefix operator that a token writes, if it writes one.
    pub open spec fn of_token(token_type: SpecTokenType) -> Option<UnaryOp> {
        match token_type {
            SpecTokenType::Bang => Some(UnaryOp::Not),
            SpecTokenType::Minus => Some(UnaryOp::Negative),
            _ => None,
        }
    }

    /// The prefix operator that a token writes, if it writes one.
    pub fn from_token(token_type: &TokenType) -> (r: Option<UnaryOp>)
        ensures
            r == Self::of_token(token_type@),
    {
        match token_type {
            TokenType::Bang => Some(UnaryOp::Not),
            TokenType::Minus => Some(UnaryOp::Negative),
            _ => None,
        }
    }
}

#[derive(Debug, PartialEq, Eq)]
pub struct UnaryExpr {
    pub op_span: Span,
    pub operator: UnaryOp,
    pub operand: Expr,
}

#[derive(Debug, PartialEq, Eq)]
pub struct Ternary {
    pub condition: Expr,
    pub truthy: Expr,
    pub falsy: Expr,
}

#[derive(Debug, PartialEq, Eq)]
pub struct Group {
    pub span: Span,
    pub expr: Expr,
}

/// A literal value. A number keeps its spelling, `digits ( '.' digits )?`.
#[derive(Debug, PartialEq, Eq)]
pub enum Lit {
    Number(String),
    String(String),
    Bool(bool),
    Nil,
}

/// The mathematical value of a [`Lit`].
pub enum SpecLit {
    Number(Seq<char>),
    String(Seq<char>),
    Bool(bool),
    Nil,
}

impl View for Lit {
    type V = SpecLit;

    open spec fn view(&self) -> SpecLit {
        match self {
            Lit::Number(n) => SpecLit::Number(n@),
            Lit::String(s) => SpecLit::String(s@),
            Lit::Bool(b) => SpecLit::Bool(*b),
            Lit::Nil => SpecLit::Nil,
        }
    }
}

#[derive(Debug, PartialEq, Eq)]
pub struct Literal {
    pub span: Span,
    pub value: Lit,
}

#[derive(Debug, PartialEq, Eq)]
pub struct FnCall {
    pub callee: Expr,
    pub arguments: Vec<Expr>,
    pub end: Position,
}

#[derive(Debug, PartialEq, Eq)]
pub struct Assign {
    pub var: Variable,
    pub value: Expr,
}

#[derive(Debug, PartialEq, Eq)]
pub struct Get {
    pub object: Expr,
    pub field: Ident,
}

#[derive(Debug, PartialEq, Eq)]
pub struct SetField {
    pub target: Get,
    pub value: Expr,
}

#[derive(Debug, PartialEq, Eq)]
pub struct Super {
    pub var: Variable,
    pub method: Ident,
}

#[derive(Debug, PartialEq, Eq)]
pub enum Expr {
    Binary(Box<BinaryExpr>),
    Unary(Box<UnaryExpr>),
    Group(Box<Group>),
    Literal(Box<Literal>),
    Ternary(Box<Ternary>),
    Assign(Box<Assign>),
    Var(Box<Variable>),
    FnCall(Box<FnCall>),
    Get(Box<Get>),
    SetField(Box<SetField>),
    Super(Box<Super>),
}

/// The mathematical value of an [`Expr`].
pub enum SpecExpr {
    Binary { operator: BinaryOp, left: Box<SpecExpr>, right: Box<SpecExpr> },
    Unary { op_span: Span, operator: UnaryOp, operand: Box<SpecExpr> },
    Group { span: Span, expr: Box<SpecExpr> },
    Literal { span: Span, value: SpecLit },
    Ternary { condition: Box<SpecExpr>, truthy: Box<SpecExpr>, falsy: Box<SpecExpr> },
    Assign { var: SpecVariable, value: Box<SpecExpr> },
    Var(SpecVariable),
    FnCall { callee: Box<SpecExpr>, arguments: Seq<SpecExpr>, end: Position },
    Get { object: Box<SpecExpr>, field: SpecIdent },
    SetField { object: Box<SpecExpr>, field: SpecIdent, value: Box<SpecExpr> },
    Super { var: SpecVariable, method: SpecIdent },
}

impl SpecExpr {
    /// The span of the expression, composed from those of its parts.
    pub open spec fn span(self) -> Span
        decreases self,
    {
        match self {
            SpecExpr::Binary { left, right, .. } => left.span().spec_extends_with(right.span()),
            SpecExpr::Unary { op_span, operand, .. } => op_span.spec_extends_with(operand.span()),
            SpecExpr::Group { span, .. } => span,
            SpecExpr::Literal { span, .. } => span,
            SpecExpr::Ternary { condition, falsy, .. } => condition.span().spec_extends_with(
                falsy.span(),
            ),
            SpecExpr::Assign { var, value } => var.ident.span.spec_extends_with(value.span()),
            SpecExpr::Var(var) => var.ident.span,
            SpecExpr::FnCall { callee, end, .. } => callee.span().spec_extends_with_pos(end),
            SpecExpr::Get { object, field } => object.span().spec_extends_with(field.span),
            SpecExpr::SetField { object, value, .. } => object.span().spec_extends_with(value.span()),
            SpecExpr::Super { var, method } => var.ident.span.spec_extends_with(method.span),
        }
    }
}

/// The value of each expression of `exprs`, in order.
pub open spec fn exprs_view(exprs: Seq<Expr>) -> Seq<SpecExpr>
    decreases exprs,
{
    Seq::new(
        exprs.len(),
        |i: int|
            if 0 <= i < exprs.len() {
                expr_view(exprs[i])
            } else {
                arbitrary()
            },
    )
}

/// The value of an expression.
pub open spec fn expr_view(e: Expr) -> SpecExpr
    decreases e,
{
    match e {
        Expr::Binary(b) => SpecExpr::Binary {
            operator: b.operator,
            left: Box::new(expr_view(b.left)),
            right: Box::new(expr_view(b.right)),
        },
        Expr::Unary(u) => SpecExpr::Unary {
            op_span: u.op_span,
            operator: u.operator,
            operand: Box::new(expr_view(u.operand)),
        },
        Expr::Group(g) => SpecExpr::Group { span: g.span, expr: Box::new(expr_view(g.expr)) },
        Expr::Literal(l) => SpecExpr::Literal { span: l.span, value: l.value@ },
        Expr::Ternary(t) => SpecExpr::Ternary {
            condition: Box::new(expr_view(t.condition)),
            truthy: Box::new(expr_view(t.truthy)),
            falsy: Box::new(expr_view(t.falsy)),
        },
        Expr::Assign(a) => SpecExpr::Assign { var: a.var@, value: Box::new(expr_view(a.value)) },
        Expr::Var(v) => SpecExpr::Var(v@),
        Expr::FnCall(c) => SpecExpr::FnCall {
            callee: Box::new(expr_view(c.callee)),
            arguments: exprs_view(c.arguments@),
            end: c.end,
        },
        Expr::Get(g) => SpecExpr::Get { object: Box::new(expr_view(g.object)), field: g.field@ },
        Expr::SetField(s) => SpecExpr::SetField {
            object: Box::new(expr_view(s.target.object)),
            field: s.target.field@,
            value: Box::new(expr_view(s.value)),
        },
        Expr::Super(s) => SpecExpr::Super { var: s.var@, method: s.method@ },
    }
}

impl View for Expr {
    type V = SpecExpr;

    open spec fn view(&self) -> SpecExpr {
        expr_view(*self)
    }
}

/// Appending an expression appends its value.
pub proof fn lemma_exprs_view_push(exprs: Seq<Expr>, e: Expr)
    ensures
        exprs_view(exprs.push(e)) == exprs_view(exprs).push(e@),
{
    assert(exprs_view(exprs.push(e)) =~= exprs_view(exprs).push(expr_view(e)));
}

impl Expr {
    /// The span of the expression, composed from those of its parts.
    pub fn get_span(&self) -> (r: Span)
        ensures
            r == self@.span(),
        decreases self,
    {
        match self {
            Expr::Binary(binary) => binary.left.get_span().extends_with(&binary.right.get_span()),
            Expr::Unary(unary) => unary.op_span.extends_with(&unary.operand.get_span()),
            Expr::Group(group) => group.span,
            Expr::Literal(literal) => literal.span,
            Expr::Ternary(ternary) => ternary.condition.get_span().extends_with(
                &ternary.falsy.get_span(),
            ),
            Expr::Assign(assign) => assign.var.ident.span.extends_with(&assign.value.get_span()),
            Expr::Var(var) => var.ident.span,
            Expr::FnCall(fn_call) => fn_call.callee.get_span().extends_with_pos(fn_call.end),
            Expr::Get(get) => get.object.get_span().extends_with(&get.field.span),
            Expr::SetField(set) => set.target.object.get_span().extends_with(&set.value.get_span()),
            Expr::Super(su) => su.var.ident.span.extends_with(&su.method.span),
        }
    }

    pub fn group(expr: Self, start: Position, end: Position) -> (r: Self)
        ensures
            r@ == (SpecExpr::Group { span: Span { start, end }, expr: Box::new(expr@) }),
    {
        Expr::Group(Box::new(Group { expr, span: Span { start, end } }))
    }

    pub fn binary(operator: BinaryOp, left: Self, right: Self) -> (r: Self)
        ensures
            r@ == (SpecExpr::Binary {
                operator,
                left: Box::new(left@),
                right: Box::new(right@),
            }),
    {
        Expr::Binary(Box::new(BinaryExpr { operator, left, right }))
    }

    pub fn assign(var: Variable, value: Expr) -> (r: Self)
        ensures
            r@ == (SpecExpr::Assign { var: var@, value: Box::new(value@) }),
    {
        Expr::Assign(Box::new(Assign { var, value }))
    }

    pub fn get(object: Self, field: Ident) -> (r: Self)
        ensures
            r@ == (SpecExpr::Get { object: Box::new(object@), field: field@ }),
    {
        Expr::Get(Box::new(Get { object, field }))
    }

    pub fn set(get: Get, value: Expr) -> (r: Self)
        ensures
            r@ == (SpecExpr::SetField {
                object: Box::new(get.object@),
                field: get.field@,
                value: Box::new(value@),
            }),
    {
        Expr::SetField(Box::new(SetField { target: get, value }))
    }

    pub fn unary(operator: UnaryOp, op_span: Span, operand: Self) -> (r: Self)
        ensures
            r@ == (SpecExpr::Unary { op_span, operator, operand: Box::new(operand@) }),
    {
        Expr::Unary(Box::new(UnaryExpr { op_span, operator, operand }))
    }

    pub fn ternary(condition: Self, truthy: Self, falsy: Self) -> (r: Self)
        ensures
            r@ == (SpecExpr::Ternary {
                condition: Box::new(condition@),
                truthy: Box::new(truthy@),
                falsy: Box::new(falsy@),
            }),
    {
        Expr::Ternary(Box::new(Ternary { condition, truthy, falsy }))
    }

    pub fn literal(value: Lit, span: Span) -> (r: Self)
        ensures
            r@ == (SpecExpr::Literal { span, value: value@ }),
    {
        Expr::Literal(Box::new(Literal { span, value }))
    }
}

} // verus!
