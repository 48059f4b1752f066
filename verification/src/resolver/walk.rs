//! The walk of the resolver over the syntax tree.

use vstd::prelude::*;
use vstd::string::*;
use crate::ast::expr::{
    expr_view, exprs_view, Assign, BinaryExpr, Expr, FnCall, Get, Group, SetField, SpecExpr,
    Super, Ternary, UnaryExpr,
};
use crate::ast::ident::{SpecVariable, Variable};
use crate::ast::stmt::{
    fn_view, fns_view, stmt_view, stmts_view, vars_view, Block, ClassDecl, Expression, FnDecl, If, Print,
    Return, SpecFnDecl, SpecStmt, Statement, VarDecl, While,
};
use crate::error::ResolverError;
use crate::resolution::{
    res_expr, res_exprs, res_function, res_methods, res_params, res_program, res_stmt, res_stmts,
    res_var, ClassType, FunctionType,
};
use crate::resolver::{outcome_view, Resolver};
use crate::text::is_text;

verus! {

/// The statement that a block is.
pub open spec fn block_model(b: Block) -> SpecStmt {
    stmt_view(Statement::Block(Box::new(b)))
}

/// The statement that a variable declaration is.
pub open spec fn var_decl_model(v: VarDecl) -> SpecStmt {
    stmt_view(Statement::Var(Box::new(v)))
}

/// The statement that a function declaration is.
pub open spec fn fn_decl_model(f: FnDecl) -> SpecStmt {
    stmt_view(Statement::FnDecl(Box::new(f)))
}

/// The statement that a class declaration is.
pub open spec fn class_model(c: ClassDecl) -> SpecStmt {
    stmt_view(Statement::ClassDecl(Box::new(c)))
}

/// The statement that a `return` is.
pub open spec fn return_model(r: Return) -> SpecStmt {
    stmt_view(Statement::Return(Box::new(r)))
}

/// The statement that an `if` is.
pub open spec fn if_model(i: If) -> SpecStmt {
    stmt_view(Statement::If(Box::new(i)))
}

/// The statement that a `while` is.
pub open spec fn while_model(w: While) -> SpecStmt {
    stmt_view(Statement::While(Box::new(w)))
}

/// The expression that a call is.
pub open spec fn call_model(c: FnCall) -> SpecExpr {
    expr_view(Expr::FnCall(Box::new(c)))
}

/// The expression that a `super` access is.
pub open spec fn super_model(s: Super) -> SpecExpr {
    expr_view(Expr::Super(Box::new(s)))
}

impl Resolver {
    /// Resolves a program in place. Returns the diagnostics if there are
    /// any; the resolver then no longer holds them. The whole program is
    /// walked whatever is found.
    pub fn resolve(&mut self, ast: &mut Vec<Statement>) -> (r: Option<Vec<ResolverError>>)
        requires
            old(self).wf(),
        ensures
            final(self).wf(),
            (final(self)@, stmts_view(final(ast)@), outcome_view(r)) == res_program(
                old(self)@,
                stmts_view(old(ast)@),
            ),
    {
        let mut program: Vec<Statement> = Vec::new();
        core::mem::swap(&mut program, ast);
        let mut resolved = self.resolve_stmts(program);
        core::mem::swap(&mut resolved, ast);
        reveal(res_program);
        self.take_errors()
    }

    /// Resolves the parameters and the body of a function in a scope of
    /// their own, and counts the names of that scope.
    fn resolve_function(&mut self, function: FnDecl) -> (r: FnDecl)
        requires
            old(self).wf(),
        ensures
            final(self).wf(),
            (final(self)@, r@) == res_function(old(self)@, function@),
        decreases stmts_view(function.body@), function.body@.len() + 1,
    {
        assert(function@ == (SpecFnDecl {
            var: function.var@,
            params: vars_view(function.params@),
            body: stmts_view(function.body@),
            num_of_locals: function.num_of_locals,
        }));
        self.start_scope();
        let params = self.resolve_params(function.params);
        let body = self.resolve_stmts(function.body);
        let num_of_locals = self.end_scope();
        FnDecl { var: function.var, params, body, num_of_locals }
    }

    /// Declares the parameters in order.
    fn resolve_params(&mut self, params: Vec<Variable>) -> (r: Vec<Variable>)
        requires
            old(self).wf(),
        ensures
            final(self).wf(),
            (final(self)@, vars_view(r@)) == res_params(
                old(self)@,
                vars_view(params@),
                params@.len(),
            ),
    {
        broadcast use vstd::std_specs::vec::axiom_spec_into_iter;

        let ghost st0 = self@;
        let ghost ps = vars_view(params@);
        let mut out: Vec<Variable> = Vec::new();
        assert(vars_view(out@) =~= Seq::<SpecVariable>::empty());
        for param in it: params
            invariant
                self.wf(),
                it.seq() == params@,
                ps == vars_view(params@),
                res_params(st0, ps, it.history().len()) == (self@, vars_view(out@)),
        {
            let ghost done = vars_view(out@);
            let ghost k = it.history().len() as int;
            assert(param == params@[k]);
            assert(param@ == ps[k]);
            let p = self.declare(param, true);
            out.push(p);
            assert(vars_view(out@) =~= done.push(p@));
        }
        out
    }

    /// Resolves the statements in order.
    fn resolve_stmts(&mut self, stmts: Vec<Statement>) -> (r: Vec<Statement>)
        requires
            old(self).wf(),
        ensures
            final(self).wf(),
            (final(self)@, stmts_view(r@)) == res_stmts(
                old(self)@,
                stmts_view(stmts@),
                stmts@.len(),
            ),
        decreases stmts_view(stmts@), stmts@.len(),
    {
        broadcast use vstd::std_specs::vec::axiom_spec_into_iter;

        let ghost st0 = self@;
        let ghost ss = stmts_view(stmts@);
        let mut out: Vec<Statement> = Vec::new();
        assert(stmts_view(out@) =~= Seq::<SpecStmt>::empty());
        for stmt in it: stmts
            invariant
                self.wf(),
                it.seq() == stmts@,
                ss == stmts_view(stmts@),
                res_stmts(st0, ss, it.history().len()) == (self@, stmts_view(out@)),
        {
            let ghost done = stmts_view(out@);
            let ghost k = it.history().len() as int;
            assert(stmt == stmts@[k]);
            assert(stmt@ == ss[k]);
            assert(decreases_to!(ss => ss[k]));
            let s = self.resolve_stmt(stmt);
            out.push(s);
            assert(stmts_view(out@) =~= done.push(s@));
        }
        out
    }

    /// Resolves the methods in order, each as an initializer or a method.
    fn resolve_methods(&mut self, methods: Vec<FnDecl>) -> (r: Vec<FnDecl>)
        requires
            old(self).wf(),
        ensures
            final(self).wf(),
            (final(self)@, fns_view(r@)) == res_methods(
                old(self)@,
                fns_view(methods@),
                methods@.len(),
            ),
        decreases fns_view(methods@), methods@.len(),
    {
        broadcast use vstd::std_specs::vec::axiom_spec_into_iter;

        let ghost st0 = self@;
        let ghost ms = fns_view(methods@);
        let mut out: Vec<FnDecl> = Vec::new();
        assert(fns_view(out@) =~= Seq::<SpecFnDecl>::empty());
        for method in it: methods
            invariant
                self.wf(),
                it.seq() == methods@,
                ms == fns_view(methods@),
                res_methods(st0, ms, it.history().len()) == (self@, fns_view(out@)),
        {
            let ghost done = fns_view(out@);
            let ghost k = it.history().len() as int;
            assert(method == methods@[k]);
            assert(method@ == ms[k]);
            assert(decreases_to!(ms => ms[k]));
            assert(decreases_to!(ms[k] => ms[k].body));
            assert(ms[k].body == stmts_view(method.body@));
            let previous = self.function_type();
            let kind = if is_text(&method.var.ident.name, "init") {
                FunctionType::Initializer
            } else {
                FunctionType::Method
            };
            self.set_function_type(kind);
            let m = self.resolve_function(method);
            self.set_function_type(previous);
            out.push(m);
            assert(fns_view(out@) =~= done.push(m@));
        }
        out
    }

    /// Resolves a statement.
    fn resolve_stmt(&mut self, stmt: Statement) -> (r: Statement)
        requires
            old(self).wf(),
        ensures
            final(self).wf(),
            (final(self)@, r@) == res_stmt(old(self)@, stmt@),
        decreases stmt_view(stmt), 1nat,
    {
        match stmt {
            Statement::Print(print) => Statement::Print(
                Print { expr: self.resolve_expr(print.expr) },
            ),
            Statement::Expression(expression) => Statement::Expression(
                Expression { expr: self.resolve_expr(expression.expr) },
            ),
            Statement::Var(var_decl) => Statement::Var(Box::new(self.visit_var_decl(*var_decl))),
            Statement::Block(block) => Statement::Block(Box::new(self.visit_block(*block))),
            Statement::If(if_stmt) => Statement::If(Box::new(self.visit_if(*if_stmt))),
            Statement::While(while_stmt) => Statement::While(
                Box::new(self.visit_while(*while_stmt)),
            ),
            Statement::FnDecl(function) => Statement::FnDecl(
                Box::new(self.visit_function(*function)),
            ),
            Statement::Return(return_stmt) => Statement::Return(
                Box::new(self.visit_return(*return_stmt)),
            ),
            Statement::ClassDecl(class) => Statement::ClassDecl(
                Box::new(self.visit_class(*class)),
            ),
        }
    }

    fn visit_if(&mut self, if_stmt: If) -> (r: If)
        requires
            old(self).wf(),
        ensures
            final(self).wf(),
            (final(self)@, if_model(r)) == res_stmt(old(self)@, if_model(if_stmt)),
        decreases if_model(if_stmt), 0nat,
    {
        assert(if_model(if_stmt) == (SpecStmt::If {
            condition: if_stmt.condition@,
            then_branch: Box::new(if_stmt.then_branch@),
            else_branch: match if_stmt.else_branch {
                Some(e) => Some(Box::new(e@)),
                None => None,
            },
        }));
        assert(match if_model(if_stmt) {
            SpecStmt::If { then_branch: t, else_branch: e, .. } => decreases_to!(if_model(if_stmt) => *t)
                && (e matches Some(b) ==> decreases_to!(if_model(if_stmt) => *b)),
            _ => false,
        });
        let condition = self.resolve_expr(if_stmt.condition);
        let then_branch = self.resolve_stmt(if_stmt.then_branch);
        let else_branch = match if_stmt.else_branch {
            Some(else_branch) => Some(self.resolve_stmt(else_branch)),
            None => None,
        };
        If { condition, then_branch, else_branch }
    }

    fn visit_while(&mut self, while_stmt: While) -> (r: While)
        requires
            old(self).wf(),
        ensures
            final(self).wf(),
            (final(self)@, while_model(r)) == res_stmt(old(self)@, while_model(while_stmt)),
        decreases while_model(while_stmt), 0nat,
    {
        assert(while_model(while_stmt) == (SpecStmt::While {
            condition: while_stmt.condition@,
            body: Box::new(while_stmt.body@),
        }));
        assert(match while_model(while_stmt) {
            SpecStmt::While { body: b, .. } => decreases_to!(while_model(while_stmt) => *b),
            _ => false,
        });
        let condition = self.resolve_expr(while_stmt.condition);
        let body = self.resolve_stmt(while_stmt.body);
        While { condition, body }
    }

    fn visit_block(&mut self, block: Block) -> (r: Block)
        requires
            old(self).wf(),
        ensures
            final(self).wf(),
            (final(self)@, block_model(r)) == res_stmt(old(self)@, block_model(block)),
        decreases block_model(block), 0nat,
    {
        assert(block_model(block) == (SpecStmt::Block {
            statements: stmts_view(block.statements@),
            num_of_locals: block.num_of_locals,
        }));
        assert(match block_model(block) {
            SpecStmt::Block { statements: b, .. } => decreases_to!(block_model(block) => b),
            _ => false,
        });
        self.start_scope();
        let statements = self.resolve_stmts(block.statements);
        let num_of_locals = self.end_scope();
        Block { statements, num_of_locals }
    }

    fn visit_var_decl(&mut self, var_decl: VarDecl) -> (r: VarDecl)
        requires
            old(self).wf(),
        ensures
            final(self).wf(),
            (final(self)@, var_decl_model(r)) == res_stmt(old(self)@, var_decl_model(var_decl)),
    {
        let var = self.declare(var_decl.var, false);
        match var_decl.initializer {
            Some(expr) => {
                let initializer = self.resolve_expr(expr);
                let var = self.assign(var);
                VarDecl { var, initializer: Some(initializer) }
            },
            None => VarDecl { var, initializer: None },
        }
    }

    fn visit_function(&mut self, function: FnDecl) -> (r: FnDecl)
        requires
            old(self).wf(),
        ensures
            final(self).wf(),
            (final(self)@, fn_decl_model(r)) == res_stmt(old(self)@, fn_decl_model(function)),
        decreases fn_decl_model(function), 0nat,
    {
        assert(fn_decl_model(function) == SpecStmt::FnDecl(function@));
        assert(match fn_decl_model(function) {
            SpecStmt::FnDecl(f) => decreases_to!(fn_decl_model(function) => f) && decreases_to!(f => f.body)
                && f.body == stmts_view(function.body@),
            _ => false,
        });
        let ghost f0 = function@;
        let FnDecl { var, params, body, num_of_locals } = function;
        let var = self.declare(var, true);
        let previous = self.function_type();
        self.set_function_type(FunctionType::Function);
        let ghost st1 = self@;
        let renamed = FnDecl { var, params, body, num_of_locals };
        assert(res_function(st1, fn_view(renamed)).0 == res_function(st1, f0).0);
        assert(res_function(st1, fn_view(renamed)).1 == (SpecFnDecl {
            var: renamed.var@,
            ..res_function(st1, f0).1
        }));
        let resolved = self.resolve_function(renamed);
        self.set_function_type(previous);
        resolved
    }

    /// Resolves a class declaration: the name; with a superclass, the
    /// reference to it and then the scope of `super`; the scope of `this`;
    /// and the methods.
    fn visit_class(&mut self, class: ClassDecl) -> (r: ClassDecl)
        requires
            old(self).wf(),
        ensures
            final(self).wf(),
            (final(self)@, class_model(r)) == res_stmt(old(self)@, class_model(class)),
        decreases class_model(class), 0nat,
    {
        assert(class_model(class) == (SpecStmt::ClassDecl {
            var: class.var@,
            super_class: match class.super_class {
                Some(v) => Some(v@),
                None => None,
            },
            methods: fns_view(class.methods@),
        }));
        assert(match class_model(class) {
            SpecStmt::ClassDecl { methods: m, .. } => decreases_to!(class_model(class) => m),
            _ => false,
        });
        let span = class.var.ident.span;
        let var = self.declare(class.var, true);
        let previous_class_type = self.class_type();
        let super_class = match class.super_class {
            Some(super_class) => {
                let super_span = super_class.ident.span;
                let resolved = self.get(super_class);
                self.start_class_scope(super_span, true);
                self.set_class_type(ClassType::SubClass);
                Some(resolved)
            },
            None => {
                self.set_class_type(ClassType::Class);
                None
            },
        };
        self.start_class_scope(span, false);
        let methods = self.resolve_methods(class.methods);
        self.end_scope();
        if super_class.is_some() {
            self.end_scope();
        }
        self.set_class_type(previous_class_type);
        ClassDecl { var, super_class, methods }
    }

    fn visit_return(&mut self, return_stmt: Return) -> (r: Return)
        requires
            old(self).wf(),
        ensures
            final(self).wf(),
            (final(self)@, return_model(r)) == res_stmt(old(self)@, return_model(return_stmt)),
    {
        if self.function_type() == FunctionType::Outside {
            self.report(ResolverError::InvalidReturn(return_stmt.span));
            return_stmt
        } else {
            match return_stmt.expr {
                Some(expr) => {
                    if self.function_type() == FunctionType::Initializer {
                        self.report(ResolverError::ReturnInConstructor(return_stmt.span));
                    }
                    Return { span: return_stmt.span, expr: Some(self.resolve_expr(expr)) }
                },
                None => Return { span: return_stmt.span, expr: None },
            }
        }
    }

    /// Resolves the expressions in order.
    fn resolve_exprs(&mut self, exprs: Vec<Expr>) -> (r: Vec<Expr>)
        requires
            old(self).wf(),
        ensures
            final(self).wf(),
            (final(self)@, exprs_view(r@)) == res_exprs(
                old(self)@,
                exprs_view(exprs@),
                exprs@.len(),
            ),
        decreases exprs_view(exprs@), exprs@.len(),
    {
        broadcast use vstd::std_specs::vec::axiom_spec_into_iter;

        let ghost st0 = self@;
        let ghost es = exprs_view(exprs@);
        let mut out: Vec<Expr> = Vec::new();
        assert(exprs_view(out@) =~= Seq::<SpecExpr>::empty());
        for expr in it: exprs
            invariant
                self.wf(),
                it.seq() == exprs@,
                es == exprs_view(exprs@),
                res_exprs(st0, es, it.history().len()) == (self@, exprs_view(out@)),
        {
            let ghost done = exprs_view(out@);
            let ghost k = it.history().len() as int;
            assert(expr == exprs@[k]);
            assert(expr@ == es[k]);
            assert(decreases_to!(es => es[k]));
            let e = self.resolve_expr(expr);
            out.push(e);
            assert(exprs_view(out@) =~= done.push(e@));
        }
        out
    }

    /// Resolves an expression.
    fn resolve_expr(&mut self, expr: Expr) -> (r: Expr)
        requires
            old(self).wf(),
        ensures
            final(self).wf(),
            (final(self)@, r@) == res_expr(old(self)@, expr@),
        decreases expr_view(expr), 1nat,
    {
        match expr {
            Expr::Binary(binary) => {
                let BinaryExpr { operator, left, right } = *binary;
                assert(expr@ == (SpecExpr::Binary {
                    operator,
                    left: Box::new(left@),
                    right: Box::new(right@),
                }));
                assert(match expr_view(expr) {
                    SpecExpr::Binary { left: l, right: r, .. } => decreases_to!(expr_view(expr) => *l)
                        && decreases_to!(expr_view(expr) => *r),
                    _ => false,
                });
                let left = self.resolve_expr(left);
                let right = self.resolve_expr(right);
                Expr::binary(operator, left, right)
            },
            Expr::Unary(unary) => {
                let UnaryExpr { op_span, operator, operand } = *unary;
                assert(expr@ == (SpecExpr::Unary { op_span, operator, operand: Box::new(operand@) }));
                assert(match expr_view(expr) {
                    SpecExpr::Unary { operand: o, .. } => decreases_to!(expr_view(expr) => *o),
                    _ => false,
                });
                let operand = self.resolve_expr(operand);
                Expr::unary(operator, op_span, operand)
            },
            Expr::Group(group) => {
                let Group { span, expr: grouped } = *group;
                assert(expr@ == (SpecExpr::Group { span, expr: Box::new(grouped@) }));
                assert(match expr_view(expr) {
                    SpecExpr::Group { expr: g, .. } => decreases_to!(expr_view(expr) => *g),
                    _ => false,
                });
                let inner = self.resolve_expr(grouped);
                Expr::group(inner, span.start, span.end)
            },
            Expr::Literal(literal) => Expr::Literal(literal),
            Expr::Ternary(ternary) => {
                let Ternary { condition, truthy, falsy } = *ternary;
                assert(expr@ == (SpecExpr::Ternary {
                    condition: Box::new(condition@),
                    truthy: Box::new(truthy@),
                    falsy: Box::new(falsy@),
                }));
                assert(match expr_view(expr) {
                    SpecExpr::Ternary { condition: c, truthy: t, falsy: f } => decreases_to!(expr_view(expr) => *c)
                        && decreases_to!(expr_view(expr) => *t) && decreases_to!(expr_view(expr) => *f),
                    _ => false,
                });
                let condition = self.resolve_expr(condition);
                let truthy = self.resolve_expr(truthy);
                let falsy = self.resolve_expr(falsy);
                Expr::ternary(condition, truthy, falsy)
            },
            Expr::Assign(assign) => {
                let Assign { var, value } = *assign;
                assert(expr@ == (SpecExpr::Assign { var: var@, value: Box::new(value@) }));
                assert(match expr_view(expr) {
                    SpecExpr::Assign { value: v, .. } => decreases_to!(expr_view(expr) => *v),
                    _ => false,
                });
                let value = self.resolve_expr(value);
                let var = self.assign(var);
                Expr::assign(var, value)
            },
            Expr::Var(var) => Expr::Var(Box::new(self.visit_var(*var))),
            Expr::FnCall(fn_call) => Expr::FnCall(Box::new(self.visit_fn_call(*fn_call))),
            Expr::Get(get) => {
                let Get { object, field } = *get;
                assert(expr@ == (SpecExpr::Get { object: Box::new(object@), field: field@ }));
                assert(match expr_view(expr) {
                    SpecExpr::Get { object: o, .. } => decreases_to!(expr_view(expr) => *o),
                    _ => false,
                });
                let object = self.resolve_expr(object);
                Expr::get(object, field)
            },
            Expr::SetField(set) => {
                let SetField { target, value } = *set;
                let Get { object, field } = target;
                assert(expr@ == (SpecExpr::SetField {
                    object: Box::new(object@),
                    field: field@,
                    value: Box::new(value@),
                }));
                assert(match expr_view(expr) {
                    SpecExpr::SetField { object: o, value: v, .. } => decreases_to!(expr_view(expr) => *o)
                        && decreases_to!(expr_view(expr) => *v),
                    _ => false,
                });
                let object = self.resolve_expr(object);
                let value = self.resolve_expr(value);
                Expr::set(Get { object, field }, value)
            },
            Expr::Super(super_expr) => Expr::Super(Box::new(self.visit_super(*super_expr))),
        }
    }

    fn visit_fn_call(&mut self, fn_call: FnCall) -> (r: FnCall)
        requires
            old(self).wf(),
        ensures
            final(self).wf(),
            (final(self)@, call_model(r)) == res_expr(old(self)@, call_model(fn_call)),
        decreases call_model(fn_call), 0nat,
    {
        assert(call_model(fn_call) == (SpecExpr::FnCall {
            callee: Box::new(fn_call.callee@),
            arguments: exprs_view(fn_call.arguments@),
            end: fn_call.end,
        }));
        assert(match call_model(fn_call) {
            SpecExpr::FnCall { callee: c, arguments: a, .. } => decreases_to!(call_model(fn_call) => *c)
                && decreases_to!(call_model(fn_call) => a),
            _ => false,
        });
        let callee = self.resolve_expr(fn_call.callee);
        let arguments = self.resolve_exprs(fn_call.arguments);
        FnCall { callee, arguments, end: fn_call.end }
    }

    fn visit_super(&mut self, super_expr: Super) -> (r: Super)
        requires
            old(self).wf(),
        ensures
            final(self).wf(),
            (final(self)@, super_model(r)) == res_expr(old(self)@, super_model(super_expr)),
    {
        match self.class_type() {
            ClassType::SubClass => Super {
                var: self.get(super_expr.var),
                method: super_expr.method,
            },
            ClassType::Class => {
                self.report(ResolverError::NotSubClass(super_expr.var.ident.span));
                super_expr
            },
            ClassType::Outside => {
                self.report(ResolverError::InvalidSuper(super_expr.var.ident.span));
                super_expr
            },
        }
    }

    /// Resolves a read of a variable. `this` outside of any function is
    /// reported.
    fn visit_var(&mut self, var: Variable) -> (r: Variable)
        requires
            old(self).wf(),
        ensures
            final(self).wf(),
            (final(self)@, r@) == res_var(old(self)@, var@),
    {
        if is_text(&var.ident.name, "this") && self.function_type() == FunctionType::Outside {
            self.report(ResolverError::InvalidThis(var.ident.span));
        }
        self.get(var)
    }
}

} // verus!
