//! Identifiers, and variables with the slot that the resolver binds them to.

use vstd::prelude::*;
use crate::span::Span;

verus! {

/// The index of a slot within a frame.
pub type IdentIndex = u16;

/// Where a local variable lives: `scope_count` frames out from the current
/// one (0 is the current frame), in the slot `index` of that frame.
#[derive(Debug, Clone, Copy, PartialEq, Eq, Structural)]
pub struct IdentTarget {
    pub scope_count: u16,
    pub index: IdentIndex,
}

/// A name with the place in the source where it was written.
#[derive(Debug, Clone, PartialEq, Eq)]
pub struct Ident {
    pub name: String,
    pub span: Span,
}

/// The mathematical value of an [`Ident`].
pub struct SpecIdent {
    pub name: Seq<char>,
    pub span: Span,
}

impl View for Ident {
    type V = SpecIdent;

    open spec fn view(&self) -> SpecIdent {
        SpecIdent { name: self.name@, span: self.span }
    }
}

impl Ident {
    #[inline]
    pub fn from_name(name: String, span: Span) -> (r: Self)
        ensures
            r.name == name,
            r.span == span,
    {
        Ident { name, span }
    }
}

/// An occurrence of a name. `target` is `None` until the resolver binds the
/// occurrence to a slot; a name that it leaves unbound is a global.
#[derive(Debug, Clone, PartialEq, Eq)]
pub struct Variable {
    pub ident: Ident,
    pub target: Option<IdentTarget>,
}

/// The mathematical value of a [`Variable`].
pub struct SpecVariable {
    pub ident: SpecIdent,
    pub target: Option<IdentTarget>,
}

impl SpecVariable {
    /// The unbound variable of the given name.
    pub open spec fn from_name(name: Seq<char>, span: Span) -> SpecVariable {
        SpecVariable { ident: SpecIdent { name, span }, target: None }
    }

    /// The unbound variable of the given identifier.
    pub open spec fn from_ident(ident: SpecIdent) -> SpecVariable {
        SpecVariable { ident, target: None }
    }
}

impl View for Variable {
    type V = SpecVariable;

    open spec fn view(&self) -> SpecVariable {
        SpecVariable { ident: self.ident@, target: self.target }
    }
}

impl Variable {
    /// The unbound variable of the given name.
    #[inline]
    pub fn from_name(name: String, span: Span) -> (r: Self)
        ensures
            r@ == SpecVariable::from_name(name@, span),
            r.ident.name == name,
    {
        Variable { ident: Ident::from_name(name, span), target: None }
    }

    /// The unbound variable of the given identifier.
    #[inline]
    pub fn from_ident(ident: Ident) -> (r: Self)
        ensures
            r.ident == ident,
            r.target is None,
    {
        Variable { ident, target: None }
    }
}

} // verus!
