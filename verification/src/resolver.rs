//! The resolver: binds every occurrence of a local name to a slot, counts
//! the slots of every frame, and reports what the grammar cannot catch.
//! Every function is proved to compute what [`crate::resolution`] says.

use vstd::prelude::*;
use vstd::string::*;
use crate::ast::ident::{IdentIndex, IdentTarget, Variable};
use crate::error::{
    lemma_resolver_errors_view_push, resolver_errors_view, ResolverError, SpecResolverError,
};
use crate::resolution::{access, access_from, declare, end_scope, find, find_from, mark, scope_declare, start_class_scope, start_scope, ClassType, DeclareError, FunctionType, SpecResolver, SpecVarInfo, VariableStatus, MAX_LOCALS};
use crate::resolution_laws::{distinct_names, lemma_mark_names, lemma_scope_declare_distinct};
use crate::span::Span;

mod walk;

verus! {

/// One name of a scope.
pub struct VarInfo {
    pub name: String,
    pub defined_at: Span,
    pub status: VariableStatus,
}

impl View for VarInfo {
    type V = SpecVarInfo;

    open spec fn view(&self) -> SpecVarInfo {
        SpecVarInfo { name: self.name@, defined_at: self.defined_at, status: self.status }
    }
}

/// The names declared in one frame, in the order of their slots. A scope
/// is a map from names to slots: no name has two slots.
pub struct Scope {
    pub variables: Vec<VarInfo>,
}

impl View for Scope {
    type V = Seq<SpecVarInfo>;

    open spec fn view(&self) -> Seq<SpecVarInfo> {
        Seq::new(self.variables@.len(), |i: int| self.variables@[i]@)
    }
}

impl Scope {
    /// No name occurs twice, every slot fits an index, and so does the
    /// count of the slots.
    pub open spec fn wf(&self) -> bool {
        self.variables@.len() <= MAX_LOCALS && distinct_names(self@)
    }

    /// A scope with no names.
    pub fn new() -> (r: Self)
        ensures
            r@ == Seq::<SpecVarInfo>::empty(),
            r.wf(),
    {
        let r = Scope { variables: Vec::new() };
        assert(r@ =~= Seq::<SpecVarInfo>::empty());
        r
    }

    /// The slot of `name`, if the scope has it.
    pub fn find(&self, name: &String) -> (r: Option<usize>)
        ensures
            match r {
                Some(i) => find(self@, name@) == Some(i as int) && i < self.variables@.len(),
                None => find(self@, name@) is None,
            },
    {
        let mut i: usize = 0;
        while i < self.variables.len()
            invariant
                i <= self.variables@.len(),
                find(self@, name@) == find_from(self@, name@, i as int),
            decreases self.variables@.len() - i,
        {
            if self.variables[i].name == *name {
                return Some(i);
            }
            i += 1;
        }
        None
    }

    /// Declares `name`: it takes the next slot, unless the scope has the
    /// name already or is full.
    pub fn declare(&mut self, name: &String, span: Span, initialized: bool) -> (r: Result<
        IdentIndex,
        DeclareError,
    >)
        requires
            old(self).wf(),
        ensures
            final(self).wf(),
            (final(self)@, r) == scope_declare(old(self)@, name@, span, initialized),
    {
        reveal(scope_declare);
        proof {
            lemma_scope_declare_distinct(self@, name@, span, initialized);
        }
        match self.find(name) {
            Some(i) => Err(DeclareError::Redefined(self.variables[i].defined_at)),
            None => {
                let n = self.variables.len();
                if n >= MAX_LOCALS {
                    Err(DeclareError::Full)
                } else {
                    let ghost before = self@;
                    let info = VarInfo {
                        name: name.clone(),
                        defined_at: span,
                        status: if initialized {
                            VariableStatus::Initialized
                        } else {
                            VariableStatus::Declared
                        },
                    };
                    self.variables.push(info);
                    assert(self@ =~= before.push(info@));
                    Ok(n as u16)
                }
            },
        }
    }

    /// Sets the status of `name` and gives its slot, if the scope has it.
    pub fn access(&mut self, name: &String, status: VariableStatus) -> (r: Option<usize>)
        requires
            old(self).wf(),
        ensures
            final(self).wf(),
            match r {
                Some(i) => find(old(self)@, name@) == Some(i as int) && i < MAX_LOCALS
                    && final(self)@ == mark(old(self)@, i as int, status),
                None => find(old(self)@, name@) is None && final(self)@ == old(self)@,
            },
    {
        match self.find(name) {
            Some(i) => {
                let ghost before = self@;
                proof {
                    lemma_mark_names(before, i as int, status);
                }
                self.variables[i].status = status;
                assert(self@ =~= mark(before, i as int, status));
                Some(i)
            },
            None => None,
        }
    }
}

/// The value of each scope of `scopes`, outermost first.
pub open spec fn scopes_view(scopes: Seq<Scope>) -> Seq<Seq<SpecVarInfo>> {
    Seq::new(scopes.len(), |i: int| scopes[i]@)
}

/// The resolver.
pub struct Resolver {
    scopes: Vec<Scope>,
    errors: Vec<ResolverError>,
    class_type: ClassType,
    function_type: FunctionType,
}

impl View for Resolver {
    type V = SpecResolver;

    closed spec fn view(&self) -> SpecResolver {
        SpecResolver {
            scopes: scopes_view(self.scopes@),
            errors: resolver_errors_view(self.errors@),
            class_type: self.class_type,
            function_type: self.function_type,
        }
    }
}

/// The value of what [`Resolver::resolve`] returns.
pub open spec fn outcome_view(r: Option<Vec<ResolverError>>) -> Option<Seq<SpecResolverError>> {
    match r {
        Some(errors) => Some(resolver_errors_view(errors@)),
        None => None,
    }
}

impl Resolver {
    /// Every scope is well formed.
    pub closed spec fn wf(&self) -> bool {
        forall|i: int| 0 <= i < self.scopes@.len() ==> (#[trigger] self.scopes@[i]).wf()
    }

    /// A resolver that has seen nothing.
    pub fn new() -> (r: Self)
        ensures
            r.wf(),
            r@ == SpecResolver::fresh(),
    {
        let r = Resolver {
            scopes: Vec::new(),
            errors: Vec::new(),
            class_type: ClassType::Outside,
            function_type: FunctionType::Outside,
        };
        assert(r@.scopes =~= Seq::<Seq<SpecVarInfo>>::empty());
        assert(r@.errors =~= Seq::<SpecResolverError>::empty());
        r
    }

    /// Records a diagnostic.
    pub(crate) fn report(&mut self, e: ResolverError)
        requires
            old(self).wf(),
        ensures
            final(self).wf(),
            final(self)@ == old(self)@.with_error(e@),
    {
        proof {
            lemma_resolver_errors_view_push(self.errors@, e);
        }
        self.errors.push(e);
    }

    /// Declares `var` in the innermost scope and binds it to its slot
    /// there.
    pub(crate) fn declare(&mut self, var: Variable, initialized: bool) -> (r: Variable)
        requires
            old(self).wf(),
        ensures
            final(self).wf(),
            (final(self)@, r@) == declare(old(self)@, var@, initialized),
    {
        reveal(declare);
        reveal(scope_declare);
        let n = self.scopes.len();
        if n == 0 {
            return var;
        }
        let ghost before = self.scopes@;
        let mut scope = Scope::new();
        core::mem::swap(&mut scope, &mut self.scopes[n - 1]);
        let outcome = scope.declare(&var.ident.name, var.ident.span, initialized);
        core::mem::swap(&mut scope, &mut self.scopes[n - 1]);
        assert(scopes_view(self.scopes@) =~= scopes_view(before).update(
            n - 1,
            self.scopes@[n - 1]@,
        ));
        match outcome {
            Ok(index) => Variable {
                ident: var.ident,
                target: Some(IdentTarget { scope_count: 0, index }),
            },
            Err(DeclareError::Redefined(defined_at)) => {
                assert(scopes_view(self.scopes@) =~= scopes_view(before));
                self.report(
                    ResolverError::RedefineVar {
                        pos: var.ident.span,
                        name: var.ident.name.clone(),
                        defined_at,
                    },
                );
                var
            },
            Err(DeclareError::Full) => {
                assert(scopes_view(self.scopes@) =~= scopes_view(before));
                self.report(ResolverError::TooManyLocals(var.ident.span, var.ident.name.clone()));
                var
            },
        }
    }

    /// Looks the name of `var` up in the scopes, innermost first, sets the
    /// status where it is found and binds the variable to that slot.
    #[verifier::loop_isolation(false)]
    pub(crate) fn access(&mut self, var: Variable, status: VariableStatus) -> (r: Variable)
        requires
            old(self).wf(),
        ensures
            final(self).wf(),
            (final(self)@, r@) == access(old(self)@, var@, status),
    {
        reveal(access);
        let n = self.scopes.len();
        let mut k: usize = 0;
        while k < n
            invariant
                k <= n,
                n == self.scopes@.len(),
                self.wf(),
                *self == *old(self),
                access(old(self)@, var@, status) == access_from(old(self)@, var@, status, k as int),
            decreases n - k,
        {
            match self.scopes[n - 1 - k].find(&var.ident.name) {
                Some(index) => {
                    if k > MAX_LOCALS {
                        self.report(
                            ResolverError::TooDeep(var.ident.span, var.ident.name.clone()),
                        );
                        return var;
                    } else {
                        let ghost before = self.scopes@;
                        let mut scope = Scope::new();
                        core::mem::swap(&mut scope, &mut self.scopes[n - 1 - k]);
                        let _ = scope.access(&var.ident.name, status);
                        core::mem::swap(&mut scope, &mut self.scopes[n - 1 - k]);
                        assert(scopes_view(self.scopes@) =~= scopes_view(before).update(
                            n - 1 - k,
                            mark(before[n - 1 - k]@, index as int, status),
                        ));
                        return Variable {
                            ident: var.ident,
                            target: Some(
                                IdentTarget { scope_count: k as u16, index: index as u16 },
                            ),
                        };
                    }
                },
                None => {},
            }
            k += 1;
        }
        var
    }

    /// A write to `var`.
    pub(crate) fn assign(&mut self, var: Variable) -> (r: Variable)
        requires
            old(self).wf(),
        ensures
            final(self).wf(),
            (final(self)@, r@) == access(old(self)@, var@, VariableStatus::Initialized),
    {
        self.access(var, VariableStatus::Initialized)
    }

    /// A read of `var`.
    pub(crate) fn get(&mut self, var: Variable) -> (r: Variable)
        requires
            old(self).wf(),
        ensures
            final(self).wf(),
            (final(self)@, r@) == access(old(self)@, var@, VariableStatus::Used),
    {
        self.access(var, VariableStatus::Used)
    }

    /// Opens a scope.
    pub(crate) fn start_scope(&mut self)
        requires
            old(self).wf(),
        ensures
            final(self).wf(),
            final(self)@ == start_scope(old(self)@),
    {
        reveal(start_scope);
        let ghost before = self.scopes@;
        let scope = Scope::new();
        self.scopes.push(scope);
        assert(scopes_view(self.scopes@) =~= scopes_view(before).push(Seq::empty()));
    }

    /// Opens the scope that holds `super` (if `is_super_class`) or `this`
    /// in slot 0.
    pub(crate) fn start_class_scope(&mut self, span: Span, is_super_class: bool)
        requires
            old(self).wf(),
        ensures
            final(self).wf(),
            final(self)@ == start_class_scope(old(self)@, span, is_super_class),
    {
        reveal(start_class_scope);
        reveal(scope_declare);
        let ghost before = self.scopes@;
        let mut scope = Scope::new();
        let name = String::from_str(
            if is_super_class {
                "super"
            } else {
                "this"
            },
        );
        let _ = scope.declare(&name, span, true);
        assert(scope@ =~= seq![
            SpecVarInfo { name: name@, defined_at: span, status: VariableStatus::Initialized },
        ]);
        self.scopes.push(scope);
        assert(scopes_view(self.scopes@) =~= scopes_view(before).push(scope@));
    }

    /// Closes the innermost scope and gives the number of its names.
    pub(crate) fn end_scope(&mut self) -> (r: IdentIndex)
        requires
            old(self).wf(),
        ensures
            final(self).wf(),
            (final(self)@, r) == end_scope(old(self)@),
    {
        reveal(end_scope);
        let ghost before = self.scopes@;
        match self.scopes.pop() {
            Some(scope) => {
                assert(scopes_view(self.scopes@) =~= scopes_view(before).drop_last());
                scope.variables.len() as u16
            },
            None => 0,
        }
    }

    /// The kind of the enclosing function.
    pub(crate) fn function_type(&self) -> (r: FunctionType)
        ensures
            r == self@.function_type,
    {
        self.function_type
    }

    /// The kind of the enclosing class.
    pub(crate) fn class_type(&self) -> (r: ClassType)
        ensures
            r == self@.class_type,
    {
        self.class_type
    }

    /// Enters a function of kind `function_type`.
    pub(crate) fn set_function_type(&mut self, function_type: FunctionType)
        requires
            old(self).wf(),
        ensures
            final(self).wf(),
            final(self)@ == old(self)@.with_function(function_type),
    {
        self.function_type = function_type;
    }

    /// Enters a class of kind `class_type`.
    pub(crate) fn set_class_type(&mut self, class_type: ClassType)
        requires
            old(self).wf(),
        ensures
            final(self).wf(),
            final(self)@ == old(self)@.with_class(class_type),
    {
        self.class_type = class_type;
    }

    /// Takes the diagnostics out, if there are any.
    pub(crate) fn take_errors(&mut self) -> (r: Option<Vec<ResolverError>>)
        requires
            old(self).wf(),
        ensures
            final(self).wf(),
            old(self)@.errors.len() == 0 ==> r is None && final(self)@ == old(self)@,
            old(self)@.errors.len() > 0 ==> outcome_view(r) == Some(old(self)@.errors)
                && final(self)@ == (SpecResolver { errors: Seq::empty(), ..old(self)@ }),
    {
        if self.errors.len() == 0 {
            None
        } else {
            let mut errors: Vec<ResolverError> = Vec::new();
            core::mem::swap(&mut errors, &mut self.errors);
            assert(resolver_errors_view(self.errors@) =~= Seq::<SpecResolverError>::empty());
            Some(errors)
        }
    }
}

} // verus!
