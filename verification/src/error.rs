//! The diagnostics of the parser and of the resolver.

use vstd::prelude::*;
use crate::span::Span;
use crate::token::{SpecTokenType, TokenType};

verus! {

#[derive(Debug, PartialEq, Eq)]
pub enum ParserError {
    /// A token that cannot stand where it was found.
    UnexpectedToken(TokenType, Span),
    /// A construct was expected and another token was found.
    ExpectStructure { expected: &'static str, found: TokenType, span: Span },
    /// A function was declared with more than 255 parameters; the span is
    /// that of the parenthesised list.
    TooManyParameters(Span),
    /// The left side of an assignment is neither a variable nor a property.
    InvalidLeftValue(Span),
}

/// The mathematical value of a [`ParserError`].
pub enum SpecParserError {
    UnexpectedToken(SpecTokenType, Span),
    ExpectStructure { expected: Seq<char>, found: SpecTokenType, span: Span },
    TooManyParameters(Span),
    InvalidLeftValue(Span),
}

impl View for ParserError {
    type V = SpecParserError;

    open spec fn view(&self) -> SpecParserError {
        match self {
            ParserError::UnexpectedToken(t, span) => SpecParserError::UnexpectedToken(t@, *span),
            ParserError::ExpectStructure { expected, found, span } => {
                SpecParserError::ExpectStructure { expected: expected@, found: found@, span: *span }
            },
            ParserError::TooManyParameters(span) => SpecParserError::TooManyParameters(*span),
            ParserError::InvalidLeftValue(span) => SpecParserError::InvalidLeftValue(*span),
        }
    }
}

impl ParserError {
    pub fn expect_structure(expected: &'static str, found: TokenType, span: Span) -> (r: Self)
        ensures
            r@ == (SpecParserError::ExpectStructure { expected: expected@, found: found@, span }),
    {
        ParserError::ExpectStructure { expected, found, span }
    }
}

/// The value of each error of `errors`, in order.
pub open spec fn errors_view(errors: Seq<ParserError>) -> Seq<SpecParserError> {
    Seq::new(errors.len(), |i: int| errors[i]@)
}

/// Appending an error appends its value.
pub proof fn lemma_errors_view_push(errors: Seq<ParserError>, e: ParserError)
    ensures
        errors_view(errors.push(e)) == errors_view(errors).push(e@),
{
    assert(errors_view(errors.push(e)) =~= errors_view(errors).push(e@));
}

/// What the resolver reports.
#[derive(Debug, PartialEq, Eq)]
pub enum ResolverError {
    /// A name that is bound nowhere.
    UndefinedVar(Span, String),
    /// A name declared twice in one scope.
    RedefineVar { pos: Span, name: String, defined_at: Span },
    /// A variable that is never read.
    UnusedVar(Span, String),
    /// `return` outside of a function.
    InvalidReturn(Span),
    /// `return` with a value in an initializer.
    ReturnInConstructor(Span),
    /// `this` outside of a method.
    InvalidThis(Span),
    /// `super` outside of a class.
    InvalidSuper(Span),
    /// `super` in a class that has no superclass.
    NotSubClass(Span),
    /// A declaration in a scope that already has 65,535 names: its slot
    /// would not fit an index.
    TooManyLocals(Span, String),
    /// A name bound more than 65,535 scopes out: the distance would not fit
    /// a target.
    TooDeep(Span, String),
}

/// The mathematical value of a [`ResolverError`].
pub enum SpecResolverError {
    UndefinedVar(Span, Seq<char>),
    RedefineVar { pos: Span, name: Seq<char>, defined_at: Span },
    UnusedVar(Span, Seq<char>),
    InvalidReturn(Span),
    ReturnInConstructor(Span),
    InvalidThis(Span),
    InvalidSuper(Span),
    NotSubClass(Span),
    TooManyLocals(Span, Seq<char>),
    TooDeep(Span, Seq<char>),
}

impl View for ResolverError {
    type V = SpecResolverError;

    open spec fn view(&self) -> SpecResolverError {
        match self {
            ResolverError::UndefinedVar(span, name) => SpecResolverError::UndefinedVar(
                *span,
                name@,
            ),
            ResolverError::RedefineVar { pos, name, defined_at } => SpecResolverError::RedefineVar {
                pos: *pos,
                name: name@,
                defined_at: *defined_at,
            },
            ResolverError::UnusedVar(span, name) => SpecResolverError::UnusedVar(*span, name@),
            ResolverError::InvalidReturn(span) => SpecResolverError::InvalidReturn(*span),
            ResolverError::ReturnInConstructor(span) => SpecResolverError::ReturnInConstructor(
                *span,
            ),
            ResolverError::InvalidThis(span) => SpecResolverError::InvalidThis(*span),
            ResolverError::InvalidSuper(span) => SpecResolverError::InvalidSuper(*span),
            ResolverError::NotSubClass(span) => SpecResolverError::NotSubClass(*span),
            ResolverError::TooManyLocals(span, name) => SpecResolverError::TooManyLocals(
                *span,
                name@,
            ),
            ResolverError::TooDeep(span, name) => SpecResolverError::TooDeep(*span, name@),
        }
    }
}

/// The value of each error of `errors`, in order.
pub open spec fn resolver_errors_view(errors: Seq<ResolverError>) -> Seq<SpecResolverError> {
    Seq::new(errors.len(), |i: int| errors[i]@)
}

/// Appending an error appends its value.
pub proof fn lemma_resolver_errors_view_push(errors: Seq<ResolverError>, e: ResolverError)
    ensures
        resolver_errors_view(errors.push(e)) == resolver_errors_view(errors).push(e@),
{
    assert(resolver_errors_view(errors.push(e)) =~= resolver_errors_view(errors).push(e@));
}

} // verus!
