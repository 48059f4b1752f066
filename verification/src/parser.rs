//! The parser: recursive descent for statements, precedence climbing for
//! expressions. Every function is proved to parse what [`crate::grammar`]
//! says.

use vstd::prelude::*;
use vstd::string::*;
use crate::ast::expr::{
    exprs_view, lemma_exprs_view_push, BinaryOp, Expr, FnCall, Lit, SpecExpr, Super, UnaryOp,
};
use crate::ast::ident::{Ident, SpecIdent, SpecVariable, Variable};
use crate::ast::stmt::{
    fns_view, lemma_fns_view_push, lemma_stmts_view_push, lemma_vars_view_push, stmts_view,
    vars_view, Block, ClassDecl, Expression, FnDecl, If, Print, Return, SpecFnDecl, SpecStmt,
    Statement, VarDecl, While,
};
use crate::error::{errors_view, lemma_errors_view_push, ParserError, SpecParserError};
use crate::grammar::{
    advances, desugar_for, end_statement, new_block, params_check, peek, remaining, sp_args, sp_block,
    sp_class, sp_class_head, sp_condition, sp_declaration, sp_eat, sp_expr_precedence,
    sp_expression, sp_expression_statement, sp_fn_call, sp_fn_head, sp_for, sp_for_clause,
    sp_for_header, sp_for_init, sp_function, sp_identifier, sp_if, sp_infix, sp_infix_form, sp_items,
    sp_methods, sp_params, sp_parse, sp_prefix, sp_print, sp_return, sp_statement, sp_var_decl,
    sp_while, step, sync_used, Parsed, Step,
};
use crate::lexer::{token_stream, Lexer};
use crate::precedence::Operator;
use crate::span::Span;
use crate::token::{tokens_view, Keyword, Literal, SpecToken, SpecTokenType, Token, TokenType};

verus! {

/// A program: its statements in order.
pub type Ast = Vec<Statement>;

/// The statements of a program, or the diagnostics if there is any.
pub type ParserResult = Result<Ast, Vec<ParserError>>;

/// The punctuators that the grammar asks for by name.
#[derive(Debug, Clone, Copy, PartialEq, Eq, Structural)]
pub enum Punct {
    Colon,
    Dot,
    LeftBrace,
    LeftParen,
    RightBrace,
    RightParen,
    Semicolon,
}

impl Punct {
    pub open spec fn token(self) -> SpecTokenType {
        match self {
            Punct::Colon => SpecTokenType::Colon,
            Punct::Dot => SpecTokenType::Dot,
            Punct::LeftBrace => SpecTokenType::LeftBrace,
            Punct::LeftParen => SpecTokenType::LeftParen,
            Punct::RightBrace => SpecTokenType::RightBrace,
            Punct::RightParen => SpecTokenType::RightParen,
            Punct::Semicolon => SpecTokenType::Semicolon,
        }
    }

    /// Whether `token_type` is this punctuator.
    pub fn is(self, token_type: &TokenType) -> (r: bool)
        ensures
            r == (token_type@ == self.token()),
    {
        match (self, token_type) {
            (Punct::Colon, TokenType::Colon) => true,
            (Punct::Dot, TokenType::Dot) => true,
            (Punct::LeftBrace, TokenType::LeftBrace) => true,
            (Punct::LeftParen, TokenType::LeftParen) => true,
            (Punct::RightBrace, TokenType::RightBrace) => true,
            (Punct::RightParen, TokenType::RightParen) => true,
            (Punct::Semicolon, TokenType::Semicolon) => true,
            _ => false,
        }
    }
}

/// The value of a result of the parser.
pub open spec fn result_view<T: View>(r: Result<T, ParserError>) -> Result<T::V, SpecParserError> {
    match r {
        Ok(v) => Ok(v@),
        Err(e) => Err(e@),
    }
}

/// The value of the result of parsing a block.
pub open spec fn block_result(r: Result<Vec<Statement>, ParserError>) -> Result<
    Seq<SpecStmt>,
    SpecParserError,
> {
    match r {
        Ok(v) => Ok(stmts_view(v@)),
        Err(e) => Err(e@),
    }
}

/// The value of the result of parsing a whole program.
pub open spec fn parse_result(r: ParserResult) -> Result<Seq<SpecStmt>, Seq<SpecParserError>> {
    match r {
        Ok(v) => Ok(stmts_view(v@)),
        Err(e) => Err(errors_view(e@)),
    }
}

/// With other accumulators, a run of declarations gives the same statements
/// and diagnostics after them.
pub proof fn lemma_items_acc(
    t: Seq<SpecToken>,
    p: int,
    in_block: bool,
    acc: Seq<SpecStmt>,
    errs: Seq<SpecParserError>,
)
    ensures
        sp_items(t, p, in_block, acc, errs).stmts == acc + sp_items(
            t,
            p,
            in_block,
            Seq::empty(),
            Seq::empty(),
        ).stmts,
        sp_items(t, p, in_block, acc, errs).errors == errs + sp_items(
            t,
            p,
            in_block,
            Seq::empty(),
            Seq::empty(),
        ).errors,
        sp_items(t, p, in_block, acc, errs).used == sp_items(
            t,
            p,
            in_block,
            Seq::empty(),
            Seq::empty(),
        ).used,
    decreases remaining(t, p),
{
    let e = Seq::<SpecStmt>::empty();
    let n = Seq::<SpecParserError>::empty();
    let token_type = peek(t, p).token_type;
    if token_type is Eof || (in_block && token_type is RightBrace) {
        assert(acc + e =~= acc);
        assert(errs + n =~= errs);
    } else {
        let d = sp_declaration(t, p);
        if !advances(t, p, d.used) {
            assert(acc + e =~= acc);
            assert(errs + n =~= errs);
        } else {
            match d.result {
                Ok(stmt) => {
                    lemma_items_acc(t, p + d.used, in_block, acc.push(stmt), errs + d.errors);
                    lemma_items_acc(t, p + d.used, in_block, e.push(stmt), n + d.errors);
                    let base = sp_items(t, p + d.used, in_block, e, n);
                    assert(acc.push(stmt) + base.stmts =~= acc + (e.push(stmt) + base.stmts));
                    assert((errs + d.errors) + base.errors =~= errs + ((n + d.errors)
                        + base.errors));
                },
                Err(err) => {
                    let q = p + d.used + sync_used(t, p + d.used);
                    lemma_items_acc(t, q, in_block, acc, (errs + d.errors).push(err));
                    lemma_items_acc(t, q, in_block, e, (n + d.errors).push(err));
                    let base = sp_items(t, q, in_block, e, n);
                    assert(acc + base.stmts =~= acc + (e + base.stmts));
                    assert((errs + d.errors).push(err) + base.errors =~= errs + ((n
                        + d.errors).push(err) + base.errors));
                },
            }
        }
    }
}

/// The parser. It holds the tokens of the source, the index of the next one
/// and the diagnostics recorded so far.
pub struct Parser {
    tokens: Vec<Token>,
    pos: usize,
    errors: Vec<ParserError>,
}

/// `post` is `pre` after parsing a construct whose outcome is `s`, with the
/// result `r`: the tokens and diagnostics are the same, and the cursor has
/// moved past the construct.
pub open spec fn stepped<T: View>(
    pre: Parser,
    post: Parser,
    r: Result<T, ParserError>,
    s: Step<T::V>,
) -> bool {
    &&& post.wf()
    &&& post.tokens() == pre.tokens()
    &&& post.diagnostics() == pre.diagnostics()
    &&& post.cursor() == pre.cursor() + s.used
    &&& result_view(r) == s.result
}

/// `post` is `pre` after parsing a statement whose outcome is `s`, with the
/// result `r`: the tokens are the same, the diagnostics of the statement are
/// appended, and the cursor has moved past the statement.
pub open spec fn parsed<T: View>(
    pre: Parser,
    post: Parser,
    r: Result<T, ParserError>,
    s: Parsed<T::V>,
) -> bool {
    &&& post.wf()
    &&& post.tokens() == pre.tokens()
    &&& post.diagnostics() == pre.diagnostics() + s.errors
    &&& post.cursor() == pre.cursor() + s.used
    &&& result_view(r) == s.result
}

/// `post` is `pre` with the cursor moved forward, if the construct was
/// parsed (`ok`) or there was a token to take.
pub open spec fn moved(pre: Parser, post: Parser, ok: bool) -> bool {
    ok || 0 <= pre.cursor() < pre.tokens().len() ==> post.cursor() > pre.cursor()
}

impl Parser {
    /// The tokens that the parser reads.
    pub closed spec fn tokens(&self) -> Seq<SpecToken> {
        tokens_view(self.tokens@)
    }

    /// The index of the next token.
    pub closed spec fn cursor(&self) -> int {
        self.pos as int
    }

    /// The diagnostics recorded so far.
    pub closed spec fn diagnostics(&self) -> Seq<SpecParserError> {
        errors_view(self.errors@)
    }

    /// The cursor is at a token or just past the last one.
    pub closed spec fn wf(&self) -> bool {
        self.pos <= self.tokens@.len()
    }

    /// A parser over all the tokens that `lexer` has yet to yield.
    pub fn new(lexer: Lexer) -> (r: Self)
        requires
            lexer.wf(),
        ensures
            r.wf(),
            r.tokens() == token_stream(lexer.source(), lexer.cursor()),
            r.cursor() == 0,
            r.diagnostics() == Seq::<SpecParserError>::empty(),
    {
        let mut lexer = lexer;
        let tokens = lexer.tokens();
        let errors: Vec<ParserError> = Vec::new();
        assert(errors_view(errors@) =~= Seq::<SpecParserError>::empty());
        Parser { tokens, pos: 0, errors }
    }

    /// Parses a whole program. Declarations that fail are recorded and
    /// skipped; the result is the statements if nothing was recorded, and
    /// all the diagnostics otherwise, which the parser then no longer holds.
    pub fn parse(&mut self) -> (r: ParserResult)
        requires
            old(self).wf(),
        ensures
            final(self).wf(),
            final(self).tokens() == old(self).tokens(),
            ({
                let items = sp_items(
                    old(self).tokens(),
                    old(self).cursor(),
                    false,
                    Seq::empty(),
                    old(self).diagnostics(),
                );
                &&& final(self).cursor() == old(self).cursor() + items.used
                &&& parse_result(r) == if items.errors.len() > 0 {
                    Err::<Seq<SpecStmt>, Seq<SpecParserError>>(items.errors)
                } else {
                    Ok(items.stmts)
                }
                &&& final(self).diagnostics() == Seq::<SpecParserError>::empty()
            }),
    {
        let ghost t = self.tokens();
        let ghost p = self.pos as int;
        let ghost d = self.diagnostics();
        proof {
            lemma_items_acc(t, p, false, Seq::empty(), d);
        }
        let statements = self.items(false);
        if self.errors.len() > 0 {
            let mut errors: Vec<ParserError> = Vec::new();
            assert(errors_view(errors@) =~= Seq::<SpecParserError>::empty());
            core::mem::swap(&mut errors, &mut self.errors);
            Err(errors)
        } else {
            assert(self.diagnostics() =~= Seq::<SpecParserError>::empty());
            Ok(statements)
        }
    }

    /// Takes the next token. Past the last token it yields end of input,
    /// with the span of the last token, and takes nothing.
    fn next_token(&mut self) -> (r: Token)
        requires
            old(self).wf(),
        ensures
            final(self).wf(),
            final(self).tokens() == old(self).tokens(),
            final(self).diagnostics() == old(self).diagnostics(),
            r@ == peek(old(self).tokens(), old(self).cursor()),
            final(self).cursor() == old(self).cursor() + step(
                old(self).tokens(),
                old(self).cursor(),
            ),
    {
        if self.pos < self.tokens.len() {
            let token = self.tokens[self.pos].clone();
            self.pos = self.pos + 1;
            token
        } else if self.tokens.len() > 0 {
            Token { token_type: TokenType::Eof, span: self.tokens[self.tokens.len() - 1].span }
        } else {
            Token { token_type: TokenType::Eof, span: Span::dummy() }
        }
    }

    /// The kind of the next token, which stays.
    fn look_ahead(&self) -> (r: &TokenType)
        requires
            self.wf(),
        ensures
            r@ == peek(self.tokens(), self.cursor()).token_type,
    {
        if self.pos < self.tokens.len() {
            &self.tokens[self.pos].token_type
        } else {
            &TokenType::Eof
        }
    }

    /// Takes the next token, which must be `expected`.
    fn eat(&mut self, expected: Punct) -> (r: Result<Span, ParserError>)
        requires
            old(self).wf(),
        ensures
            stepped(
                *old(self),
                *final(self),
                r,
                sp_eat(old(self).tokens(), old(self).cursor(), expected.token()),
            ),
    {
        let next_token = self.next_token();
        if expected.is(&next_token.token_type) {
            Ok(next_token.span)
        } else {
            Err(ParserError::UnexpectedToken(next_token.token_type, next_token.span))
        }
    }

    /// Takes the next token, which must be an identifier.
    fn get_identifier(&mut self) -> (r: Result<Ident, ParserError>)
        requires
            old(self).wf(),
        ensures
            stepped(
                *old(self),
                *final(self),
                r,
                sp_identifier(old(self).tokens(), old(self).cursor()),
            ),
    {
        let next_token = self.next_token();
        match next_token.token_type {
            TokenType::Identifier(name) => Ok(Ident::from_name(name, next_token.span)),
            t => Err(ParserError::expect_structure("identifier", t, next_token.span)),
        }
    }

    /// Discards tokens after an error: up to and including the next
    /// semicolon, or up to the next token that starts a statement.
    #[verifier::loop_isolation(false)]
    fn synchronize(&mut self)
        requires
            old(self).wf(),
        ensures
            final(self).wf(),
            final(self).tokens() == old(self).tokens(),
            final(self).diagnostics() == old(self).diagnostics(),
            final(self).cursor() == old(self).cursor() + sync_used(
                old(self).tokens(),
                old(self).cursor(),
            ),
    {
        let ghost t = self.tokens();
        let ghost p0 = self.pos as int;
        loop
            invariant
                self.wf(),
                self.tokens() == t,
                self.diagnostics() == old(self).diagnostics(),
                p0 <= self.pos,
                sync_used(t, p0) == (self.pos - p0) + sync_used(t, self.pos as int),
            decreases remaining(t, self.pos as int),
        {
            match self.look_ahead() {
                TokenType::Eof => {
                    return ;
                },
                TokenType::Semicolon => {
                    self.next_token();
                    return ;
                },
                TokenType::Keyword(kw) => {
                    match kw {
                        Keyword::Class
                        | Keyword::For
                        | Keyword::Fun
                        | Keyword::If
                        | Keyword::Print
                        | Keyword::Return
                        | Keyword::Var
                        | Keyword::While => {
                            return ;
                        },
                        _ => {
                            self.next_token();
                        },
                    }
                },
                _ => {
                    self.next_token();
                },
            }
        }
    }

    /// A run of declarations with error recovery, up to the end of input
    /// and, inside a block, up to its `}`.
    #[verifier::loop_isolation(false)]
    fn items(&mut self, in_block: bool) -> (r: Vec<Statement>)
        requires
            old(self).wf(),
        ensures
            final(self).wf(),
            final(self).tokens() == old(self).tokens(),
            ({
                let items = sp_items(
                    old(self).tokens(),
                    old(self).cursor(),
                    in_block,
                    Seq::empty(),
                    old(self).diagnostics(),
                );
                &&& final(self).cursor() == old(self).cursor() + items.used
                &&& stmts_view(r@) == items.stmts
                &&& final(self).diagnostics() == items.errors
            }),
        decreases remaining(old(self).tokens(), old(self).cursor()), 8nat,
    {
        let ghost t = self.tokens();
        let ghost p0 = self.pos as int;
        let ghost d0 = self.diagnostics();
        let ghost whole = sp_items(t, p0, in_block, Seq::empty(), d0);
        let mut statements: Vec<Statement> = Vec::new();
        assert(stmts_view(statements@) =~= Seq::<SpecStmt>::empty());
        loop
            invariant
                self.wf(),
                self.tokens() == t,
                p0 <= self.pos,
                ({
                    let rest = sp_items(
                        t,
                        self.pos as int,
                        in_block,
                        stmts_view(statements@),
                        self.diagnostics(),
                    );
                    &&& whole.stmts == rest.stmts
                    &&& whole.errors == rest.errors
                    &&& whole.used == (self.pos - p0) + rest.used
                }),
            decreases remaining(t, self.pos as int),
        {
            let ghost p = self.pos as int;
            let ghost acc = stmts_view(statements@);
            let ghost errs = self.diagnostics();
            let at_end = match self.look_ahead() {
                TokenType::Eof => true,
                TokenType::RightBrace => in_block,
                _ => false,
            };
            if at_end {
                return statements;
            }
            match self.declaration() {
                Ok(stmt) => {
                    proof {
                        lemma_stmts_view_push(statements@, stmt);
                    }
                    statements.push(stmt);
                },
                Err(err) => {
                    proof {
                        lemma_errors_view_push(self.errors@, err);
                    }
                    self.errors.push(err);
                    self.synchronize();
                },
            }
        }
    }

    /// A declaration: `var`, `fun`, `class`, or a statement.
    fn declaration(&mut self) -> (r: Result<Statement, ParserError>)
        requires
            old(self).wf(),
        ensures
            parsed(
                *old(self),
                *final(self),
                r,
                sp_declaration(old(self).tokens(), old(self).cursor()),
            ),
            moved(*old(self), *final(self), r is Ok),
        decreases remaining(old(self).tokens(), old(self).cursor()), 7nat,
    {
        match self.look_ahead() {
            TokenType::Keyword(Keyword::Var) => self.var_decl(),
            TokenType::Keyword(Keyword::Fun) => {
                self.next_token();
                match self.function() {
                    Ok(decl) => Ok(Statement::FnDecl(Box::new(decl))),
                    Err(e) => Err(e),
                }
            },
            TokenType::Keyword(Keyword::Class) => self.class(),
            _ => self.statement(),
        }
    }

    /// Takes the `;` that ends the statement `stmt`.
    fn end_statement(&mut self, stmt: Statement, Ghost(p): Ghost<int>) -> (r: Result<
        Statement,
        ParserError,
    >)
        requires
            old(self).wf(),
            p <= old(self).cursor(),
        ensures
            final(self).cursor() >= old(self).cursor(),
            final(self).wf(),
            final(self).tokens() == old(self).tokens(),
            final(self).diagnostics() == old(self).diagnostics(),
            ({
                let s = end_statement(old(self).tokens(), p, old(self).cursor(), stmt@);
                &&& final(self).cursor() == p + s.used
                &&& result_view(r) == s.result
                &&& s.errors == Seq::<SpecParserError>::empty()
            }),
    {
        reveal(end_statement);
        match self.eat(Punct::Semicolon) {
            Ok(_) => Ok(stmt),
            Err(e) => Err(e),
        }
    }

    /// `var name ( = expression )? ;`
    fn var_decl(&mut self) -> (r: Result<Statement, ParserError>)
        requires
            old(self).wf(),
        ensures
            final(self).diagnostics() == old(self).diagnostics(),
            parsed(
                *old(self),
                *final(self),
                r,
                sp_var_decl(old(self).tokens(), old(self).cursor()),
            ),
            moved(*old(self), *final(self), r is Ok),
    {
        reveal(sp_var_decl);
        let ghost p = self.pos as int;
        let ghost d = self.diagnostics();
        self.next_token();
        let next_token = self.next_token();
        let name = match next_token.token_type {
            TokenType::Identifier(ident) => ident,
            t => {
                assert(d + Seq::<SpecParserError>::empty() =~= d);
                return Err(ParserError::expect_structure("identifier", t, next_token.span));
            },
        };
        let initializer = if matches!(self.look_ahead(), TokenType::Equal) {
            self.next_token();
            match self.expression() {
                Ok(e) => Some(e),
                Err(err) => {
                    assert(d + Seq::<SpecParserError>::empty() =~= d);
                    return Err(err);
                },
            }
        } else {
            None
        };
        assert(d + Seq::<SpecParserError>::empty() =~= d);
        self.end_statement(
            Statement::Var(
                Box::new(VarDecl { var: Variable::from_name(name, next_token.span), initializer }),
            ),
            Ghost(p),
        )
    }

    /// `name ( parameters? )`: the head of a function or method.
    #[verifier::loop_isolation(false)]
    fn fn_head(&mut self) -> (r: Result<(Ident, Vec<Variable>, Span), ParserError>)
        requires
            old(self).wf(),
        ensures
            moved(*old(self), *final(self), r is Ok),
            final(self).wf(),
            final(self).tokens() == old(self).tokens(),
            final(self).diagnostics() == old(self).diagnostics(),
            ({
                let s = sp_fn_head(old(self).tokens(), old(self).cursor());
                &&& final(self).cursor() == old(self).cursor() + s.used
                &&& match r {
                    Ok(head) => s.result == Ok::<
                        (SpecIdent, Seq<SpecVariable>, Span),
                        SpecParserError,
                    >((head.0@, vars_view(head.1@), head.2)),
                    Err(e) => s.result == Err::<
                        (SpecIdent, Seq<SpecVariable>, Span),
                        SpecParserError,
                    >(e@),
                }
            }),
    {
        reveal(sp_fn_head);
        let ghost t = self.tokens();
        let ident = match self.get_identifier() {
            Ok(i) => i,
            Err(e) => {
                return Err(e);
            },
        };
        let start = match self.eat(Punct::LeftParen) {
            Ok(s) => s,
            Err(e) => {
                return Err(e);
            },
        };
        let ghost q2 = self.pos as int;
        let mut parameters: Vec<Variable> = Vec::new();
        assert(vars_view(parameters@) =~= Seq::<SpecVariable>::empty());
        if !matches!(self.look_ahead(), TokenType::RightParen) {
            loop
                invariant
                    self.wf(),
                    self.tokens() == t,
                    self.diagnostics() == old(self).diagnostics(),
                    q2 <= self.pos,
                    sp_params(t, q2, Seq::empty()).result == sp_params(
                        t,
                        self.pos as int,
                        vars_view(parameters@),
                    ).result,
                    sp_params(t, q2, Seq::empty()).used == (self.pos - q2) + sp_params(
                        t,
                        self.pos as int,
                        vars_view(parameters@),
                    ).used,
                decreases remaining(t, self.pos as int),
            {
                let param = match self.get_identifier() {
                    Ok(i) => i,
                    Err(e) => {
                        return Err(e);
                    },
                };
                let var = Variable::from_ident(param);
                proof {
                    lemma_vars_view_push(parameters@, var);
                }
                parameters.push(var);
                match self.look_ahead() {
                    TokenType::Comma => {
                        self.next_token();
                    },
                    _ => {
                        break ;
                    },
                }
            }
        }
        let end = match self.eat(Punct::RightParen) {
            Ok(s) => s,
            Err(e) => {
                return Err(e);
            },
        };
        Ok((ident, parameters, start.extends_with(&end)))
    }

    /// `name ( parameters? ) block`: a function or method, after `fun` if
    /// any. More than 255 parameters are recorded as a diagnostic; parsing
    /// goes on.
    fn function(&mut self) -> (r: Result<FnDecl, ParserError>)
        requires
            old(self).wf(),
        ensures
            parsed(
                *old(self),
                *final(self),
                r,
                sp_function(old(self).tokens(), old(self).cursor()),
            ),
            moved(*old(self), *final(self), r is Ok),
        decreases remaining(old(self).tokens(), old(self).cursor()), 5nat,
    {
        let ghost d = self.diagnostics();
        let (ident, parameters, span) = match self.fn_head() {
            Ok(head) => head,
            Err(e) => {
                assert(d + Seq::<SpecParserError>::empty() =~= d);
                return Err(e);
            },
        };
        if parameters.len() > 255 {
            let err = ParserError::TooManyParameters(span);
            proof {
                lemma_errors_view_push(self.errors@, err);
                assert(d.push(err@) =~= d + seq![err@]);
            }
            self.errors.push(err);
        } else {
            assert(d + Seq::<SpecParserError>::empty() =~= d);
        }
        let ghost errs = params_check(vars_view(parameters@), span);
        let ghost b = sp_block(self.tokens(), self.pos as int);
        assert((d + errs) + b.errors =~= d + (errs + b.errors));
        match self.block() {
            Ok(body) => Ok(
                FnDecl { var: Variable::from_ident(ident), params: parameters, body, num_of_locals: 0 },
            ),
            Err(e) => Err(e),
        }
    }

    /// `class name ( < name )? {`: the head of a class declaration.
    fn class_head(&mut self) -> (r: Result<(Ident, Option<Ident>), ParserError>)
        requires
            old(self).wf(),
        ensures
            moved(*old(self), *final(self), r is Ok),
            final(self).wf(),
            final(self).tokens() == old(self).tokens(),
            final(self).diagnostics() == old(self).diagnostics(),
            ({
                let s = sp_class_head(old(self).tokens(), old(self).cursor());
                &&& final(self).cursor() == old(self).cursor() + s.used
                &&& match r {
                    Ok(head) => s.result == Ok::<(SpecIdent, Option<SpecIdent>), SpecParserError>(
                        (
                            head.0@,
                            match head.1 {
                                Some(i) => Some(i@),
                                None => None,
                            },
                        ),
                    ),
                    Err(e) => s.result == Err::<(SpecIdent, Option<SpecIdent>), SpecParserError>(
                        e@,
                    ),
                }
            }),
    {
        reveal(sp_class_head);
        self.next_token();
        let ident = match self.get_identifier() {
            Ok(i) => i,
            Err(e) => {
                return Err(e);
            },
        };
        let super_class = if matches!(self.look_ahead(), TokenType::Less) {
            self.next_token();
            match self.get_identifier() {
                Ok(i) => Some(i),
                Err(e) => {
                    return Err(e);
                },
            }
        } else {
            None
        };
        match self.eat(Punct::LeftBrace) {
            Ok(_) => Ok((ident, super_class)),
            Err(e) => Err(e),
        }
    }

    /// `class name ( < name )? { method* }`
    #[verifier::loop_isolation(false)]
    fn class(&mut self) -> (r: Result<Statement, ParserError>)
        requires
            old(self).wf(),
        ensures
            parsed(*old(self), *final(self), r, sp_class(old(self).tokens(), old(self).cursor())),
            moved(*old(self), *final(self), r is Ok),
        decreases remaining(old(self).tokens(), old(self).cursor()), 5nat,
    {
        let ghost t = self.tokens();
        let ghost d = self.diagnostics();
        assert(d + Seq::<SpecParserError>::empty() =~= d);
        let (ident, super_class) = match self.class_head() {
            Ok(head) => head,
            Err(e) => {
                return Err(e);
            },
        };
        let ghost q1 = self.pos as int;
        let ghost whole = sp_methods(t, q1, Seq::empty());
        let mut methods: Vec<FnDecl> = Vec::new();
        assert(fns_view(methods@) =~= Seq::<SpecFnDecl>::empty());
        while !matches!(self.look_ahead(), TokenType::RightBrace)
            invariant
                self.wf(),
                self.tokens() == t,
                q1 <= self.pos,
                ({
                    let rest = sp_methods(t, self.pos as int, fns_view(methods@));
                    &&& whole.result == rest.result
                    &&& whole.used == (self.pos - q1) + rest.used
                    &&& d + whole.errors == self.diagnostics() + rest.errors
                }),
            decreases remaining(t, self.pos as int),
        {
            let ghost before = self.diagnostics();
            let ghost f = sp_function(t, self.pos as int);
            let ghost rest = sp_methods(t, self.pos + f.used, fns_view(methods@).push(f.result->Ok_0));
            assert((before + f.errors) + rest.errors =~= before + (f.errors + rest.errors));
            match self.function() {
                Ok(method) => {
                    proof {
                        lemma_fns_view_push(methods@, method);
                    }
                    methods.push(method);
                },
                Err(e) => {
                    return Err(e);
                },
            }
        }
        assert(self.diagnostics() + Seq::<SpecParserError>::empty() =~= self.diagnostics());
        match self.eat(Punct::RightBrace) {
            Ok(_) => Ok(
                Statement::ClassDecl(
                    Box::new(
                        ClassDecl {
                            var: Variable::from_ident(ident),
                            super_class: match super_class {
                                Some(s) => Some(Variable::from_ident(s)),
                                None => None,
                            },
                            methods,
                        },
                    ),
                ),
            ),
            Err(e) => Err(e),
        }
    }

    /// A statement: `print`, a block, `if`, `while`, `for`, `return`, or an
    /// expression statement.
    fn statement(&mut self) -> (r: Result<Statement, ParserError>)
        requires
            old(self).wf(),
        ensures
            parsed(
                *old(self),
                *final(self),
                r,
                sp_statement(old(self).tokens(), old(self).cursor()),
            ),
            moved(*old(self), *final(self), r is Ok),
        decreases remaining(old(self).tokens(), old(self).cursor()), 6nat,
    {
        match self.look_ahead() {
            TokenType::Keyword(Keyword::Print) => self.print_statement(),
            TokenType::LeftBrace => match self.block() {
                Ok(statements) => Ok(Statement::Block(Box::new(Block::new(statements)))),
                Err(e) => Err(e),
            },
            TokenType::Keyword(Keyword::If) => self.if_statement(),
            TokenType::Keyword(Keyword::While) => self.while_statement(),
            TokenType::Keyword(Keyword::For) => self.for_statement(),
            TokenType::Keyword(Keyword::Return) => self.return_statement(),
            _ => self.expression_statement(),
        }
    }

    /// `print expression ;`
    fn print_statement(&mut self) -> (r: Result<Statement, ParserError>)
        requires
            old(self).wf(),
        ensures
            final(self).diagnostics() == old(self).diagnostics(),
            parsed(*old(self), *final(self), r, sp_print(old(self).tokens(), old(self).cursor())),
            moved(*old(self), *final(self), r is Ok),
    {
        reveal(sp_print);
        let ghost p = self.pos as int;
        let ghost d = self.diagnostics();
        assert(d + Seq::<SpecParserError>::empty() =~= d);
        self.next_token();
        match self.expression() {
            Ok(expr) => self.end_statement(Statement::Print(Print { expr }), Ghost(p)),
            Err(e) => Err(e),
        }
    }

    /// `( expression )` after a keyword: the condition of `if` or `while`.
    fn condition(&mut self) -> (r: Result<Expr, ParserError>)
        requires
            old(self).wf(),
        ensures
            moved(*old(self), *final(self), r is Ok),
            stepped(
                *old(self),
                *final(self),
                r,
                sp_condition(old(self).tokens(), old(self).cursor()),
            ),
    {
        reveal(sp_condition);
        self.next_token();
        match self.eat(Punct::LeftParen) {
            Ok(_) => {},
            Err(e) => {
                return Err(e);
            },
        }
        let condition = match self.expression() {
            Ok(c) => c,
            Err(e) => {
                return Err(e);
            },
        };
        match self.eat(Punct::RightParen) {
            Ok(_) => Ok(condition),
            Err(e) => Err(e),
        }
    }

    /// `if ( expression ) statement ( else statement )?`
    fn if_statement(&mut self) -> (r: Result<Statement, ParserError>)
        requires
            old(self).wf(),
        ensures
            parsed(*old(self), *final(self), r, sp_if(old(self).tokens(), old(self).cursor())),
            moved(*old(self), *final(self), r is Ok),
        decreases remaining(old(self).tokens(), old(self).cursor()), 5nat,
    {
        let ghost d = self.diagnostics();
        assert(d + Seq::<SpecParserError>::empty() =~= d);
        let condition = match self.condition() {
            Ok(c) => c,
            Err(e) => {
                return Err(e);
            },
        };
        let ghost th = sp_statement(self.tokens(), self.pos as int);
        let then_branch = match self.statement() {
            Ok(s) => s,
            Err(e) => {
                return Err(e);
            },
        };
        let else_branch = if matches!(self.look_ahead(), TokenType::Keyword(Keyword::Else)) {
            self.next_token();
            let ghost el = sp_statement(self.tokens(), self.pos as int);
            assert((d + th.errors) + el.errors =~= d + (th.errors + el.errors));
            match self.statement() {
                Ok(s) => Some(s),
                Err(e) => {
                    return Err(e);
                },
            }
        } else {
            None
        };
        Ok(Statement::If(Box::new(If { condition, then_branch, else_branch })))
    }

    /// `while ( expression ) statement`
    fn while_statement(&mut self) -> (r: Result<Statement, ParserError>)
        requires
            old(self).wf(),
        ensures
            parsed(*old(self), *final(self), r, sp_while(old(self).tokens(), old(self).cursor())),
            moved(*old(self), *final(self), r is Ok),
        decreases remaining(old(self).tokens(), old(self).cursor()), 5nat,
    {
        let ghost d = self.diagnostics();
        assert(d + Seq::<SpecParserError>::empty() =~= d);
        let condition = match self.condition() {
            Ok(c) => c,
            Err(e) => {
                return Err(e);
            },
        };
        match self.statement() {
            Ok(body) => Ok(Statement::While(Box::new(While { condition, body }))),
            Err(e) => Err(e),
        }
    }

    /// An optional expression, absent if the next token is `closer`.
    fn for_clause(&mut self, closer: Punct) -> (r: Result<Option<Expr>, ParserError>)
        requires
            old(self).wf(),
        ensures
            final(self).wf(),
            final(self).tokens() == old(self).tokens(),
            final(self).diagnostics() == old(self).diagnostics(),
            ({
                let s = sp_for_clause(old(self).tokens(), old(self).cursor(), closer.token());
                &&& final(self).cursor() == old(self).cursor() + s.used
                &&& match r {
                    Ok(Some(e)) => s.result == Ok::<Option<SpecExpr>, SpecParserError>(Some(e@)),
                    Ok(None) => s.result == Ok::<Option<SpecExpr>, SpecParserError>(None),
                    Err(e) => s.result == Err::<Option<SpecExpr>, SpecParserError>(e@),
                }
            }),
    {
        reveal(sp_for_clause);
        if closer.is(self.look_ahead()) {
            Ok(None)
        } else {
            match self.expression() {
                Ok(e) => Ok(Some(e)),
                Err(e) => Err(e),
            }
        }
    }

    /// `( initializer condition? ; increment? )` after `for`.
    fn for_header(&mut self) -> (r: Result<(Option<Statement>, Option<Expr>, Option<Expr>), ParserError>)
        requires
            old(self).wf(),
        ensures
            moved(*old(self), *final(self), r is Ok),
            final(self).wf(),
            final(self).tokens() == old(self).tokens(),
            final(self).diagnostics() == old(self).diagnostics(),
            ({
                let s = sp_for_header(old(self).tokens(), old(self).cursor());
                &&& final(self).cursor() == old(self).cursor() + s.used
                &&& match r {
                    Ok(h) => s.result == Ok::<
                        (Option<SpecStmt>, Option<SpecExpr>, Option<SpecExpr>),
                        SpecParserError,
                    >(
                        (
                            match h.0 {
                                Some(i) => Some(i@),
                                None => None,
                            },
                            match h.1 {
                                Some(c) => Some(c@),
                                None => None,
                            },
                            match h.2 {
                                Some(i) => Some(i@),
                                None => None,
                            },
                        ),
                    ),
                    Err(e) => s.result == Err::<
                        (Option<SpecStmt>, Option<SpecExpr>, Option<SpecExpr>),
                        SpecParserError,
                    >(e@),
                }
            }),
    {
        reveal(sp_for_header);
        reveal(sp_for_init);
        let ghost d = self.diagnostics();
        assert(d + Seq::<SpecParserError>::empty() =~= d);
        self.next_token();
        match self.eat(Punct::LeftParen) {
            Ok(_) => {},
            Err(e) => {
                return Err(e);
            },
        }
        let is_var = matches!(self.look_ahead(), TokenType::Keyword(Keyword::Var));
        let initializer = if matches!(self.look_ahead(), TokenType::Semicolon) {
            self.next_token();
            None
        } else if is_var {
            match self.var_decl() {
                Ok(s) => Some(s),
                Err(e) => {
                    return Err(e);
                },
            }
        } else {
            match self.expression_statement() {
                Ok(s) => Some(s),
                Err(e) => {
                    return Err(e);
                },
            }
        };
        let condition = match self.for_clause(Punct::Semicolon) {
            Ok(c) => c,
            Err(e) => {
                return Err(e);
            },
        };
        match self.eat(Punct::Semicolon) {
            Ok(_) => {},
            Err(e) => {
                return Err(e);
            },
        }
        let increment = match self.for_clause(Punct::RightParen) {
            Ok(c) => c,
            Err(e) => {
                return Err(e);
            },
        };
        match self.eat(Punct::RightParen) {
            Ok(_) => Ok((initializer, condition, increment)),
            Err(e) => Err(e),
        }
    }

    /// `for ( initializer condition? ; increment? ) statement`, rewritten to
    /// a `while` loop.
    fn for_statement(&mut self) -> (r: Result<Statement, ParserError>)
        requires
            old(self).wf(),
        ensures
            parsed(*old(self), *final(self), r, sp_for(old(self).tokens(), old(self).cursor())),
            moved(*old(self), *final(self), r is Ok),
        decreases remaining(old(self).tokens(), old(self).cursor()), 5nat,
    {
        let ghost d = self.diagnostics();
        assert(d + Seq::<SpecParserError>::empty() =~= d);
        let (initializer, condition, increment) = match self.for_header() {
            Ok(h) => h,
            Err(e) => {
                return Err(e);
            },
        };
        let body = match self.statement() {
            Ok(s) => s,
            Err(e) => {
                return Err(e);
            },
        };
        Ok(desugar(initializer, condition, increment, body))
    }

    /// `return expression? ;`
    fn return_statement(&mut self) -> (r: Result<Statement, ParserError>)
        requires
            old(self).wf(),
        ensures
            final(self).diagnostics() == old(self).diagnostics(),
            parsed(*old(self), *final(self), r, sp_return(old(self).tokens(), old(self).cursor())),
            moved(*old(self), *final(self), r is Ok),
    {
        reveal(sp_return);
        let ghost p = self.pos as int;
        let ghost d = self.diagnostics();
        assert(d + Seq::<SpecParserError>::empty() =~= d);
        let token = self.next_token();
        let expr = if !matches!(self.look_ahead(), TokenType::Semicolon) {
            match self.expression() {
                Ok(e) => Some(e),
                Err(e) => {
                    return Err(e);
                },
            }
        } else {
            None
        };
        self.end_statement(Statement::Return(Box::new(Return { span: token.span, expr })), Ghost(p))
    }

    /// `expression ;`
    fn expression_statement(&mut self) -> (r: Result<Statement, ParserError>)
        requires
            old(self).wf(),
        ensures
            final(self).diagnostics() == old(self).diagnostics(),
            parsed(
                *old(self),
                *final(self),
                r,
                sp_expression_statement(old(self).tokens(), old(self).cursor()),
            ),
            moved(*old(self), *final(self), r is Ok),
    {
        reveal(sp_expression_statement);
        let ghost p = self.pos as int;
        let ghost d = self.diagnostics();
        assert(d + Seq::<SpecParserError>::empty() =~= d);
        match self.expression() {
            Ok(expr) => self.end_statement(Statement::Expression(Expression { expr }), Ghost(p)),
            Err(e) => Err(e),
        }
    }

    /// A block: the next token, which opens it, then declarations up to the
    /// `}`. A declaration that fails is recorded and skipped.
    fn block(&mut self) -> (r: Result<Vec<Statement>, ParserError>)
        requires
            old(self).wf(),
        ensures
            final(self).wf(),
            final(self).tokens() == old(self).tokens(),
            ({
                let s = sp_block(old(self).tokens(), old(self).cursor());
                &&& final(self).cursor() == old(self).cursor() + s.used
                &&& final(self).diagnostics() == old(self).diagnostics() + s.errors
                &&& block_result(r) == s.result
            }),
            moved(*old(self), *final(self), r is Ok),
        decreases remaining(old(self).tokens(), old(self).cursor()), 5nat,
    {
        let ghost t = self.tokens();
        let ghost p = self.pos as int;
        let ghost d = self.diagnostics();
        if self.pos >= self.tokens.len() {
            assert(d + Seq::<SpecParserError>::empty() =~= d);
            let token = self.next_token();
            return Err(ParserError::UnexpectedToken(token.token_type, token.span));
        }
        self.next_token();
        proof {
            lemma_items_acc(t, p + 1, true, Seq::empty(), d);
        }
        let statements = self.items(true);
        match self.eat(Punct::RightBrace) {
            Ok(_) => Ok(statements),
            Err(e) => Err(e),
        }
    }

    /// A whole expression.
    fn expression(&mut self) -> (r: Result<Expr, ParserError>)
        requires
            old(self).wf(),
        ensures
            stepped(
                *old(self),
                *final(self),
                r,
                sp_expression(old(self).tokens(), old(self).cursor()),
            ),
            moved(*old(self), *final(self), r is Ok),
        decreases remaining(old(self).tokens(), old(self).cursor()), 4nat,
    {
        self.expr_precedence(Operator::Lowest)
    }

    /// An operand with all the operators after it that bind tighter than
    /// `op`: a prefix form, then as many infix forms as take it.
    fn expr_precedence(&mut self, op: Operator) -> (r: Result<Expr, ParserError>)
        requires
            old(self).wf(),
        ensures
            stepped(
                *old(self),
                *final(self),
                r,
                sp_expr_precedence(old(self).tokens(), old(self).cursor(), op),
            ),
            moved(*old(self), *final(self), r is Ok),
        decreases remaining(old(self).tokens(), old(self).cursor()), 3nat,
    {
        match self.prefix() {
            Ok(left) => self.infix(op, left),
            Err(e) => Err(e),
        }
    }

    /// A prefix form: a literal, `this`, `super.name`, a parenthesised
    /// expression, a prefix operator with its operand, or a variable.
    fn prefix(&mut self) -> (r: Result<Expr, ParserError>)
        requires
            old(self).wf(),
        ensures
            stepped(*old(self), *final(self), r, sp_prefix(old(self).tokens(), old(self).cursor())),
            moved(*old(self), *final(self), r is Ok),
        decreases remaining(old(self).tokens(), old(self).cursor()), 2nat,
    {
        let next_token = self.next_token();
        match next_token.token_type {
            TokenType::Keyword(kw) => match kw {
                Keyword::False => Ok(Expr::literal(Lit::Bool(false), next_token.span)),
                Keyword::True => Ok(Expr::literal(Lit::Bool(true), next_token.span)),
                Keyword::Nil => Ok(Expr::literal(Lit::Nil, next_token.span)),
                Keyword::This => Ok(
                    Expr::Var(
                        Box::new(Variable::from_name(String::from_str("this"), next_token.span)),
                    ),
                ),
                Keyword::Super => {
                    match self.eat(Punct::Dot) {
                        Ok(_) => {},
                        Err(e) => {
                            return Err(e);
                        },
                    }
                    match self.get_identifier() {
                        Ok(method) => Ok(
                            Expr::Super(
                                Box::new(
                                    Super {
                                        var: Variable::from_name(
                                            String::from_str("super"),
                                            next_token.span,
                                        ),
                                        method,
                                    },
                                ),
                            ),
                        ),
                        Err(e) => Err(e),
                    }
                },
                kw => Err(ParserError::UnexpectedToken(TokenType::Keyword(kw), next_token.span)),
            },
            TokenType::LeftParen => {
                let grouped = match self.expression() {
                    Ok(e) => e,
                    Err(e) => {
                        return Err(e);
                    },
                };
                match self.eat(Punct::RightParen) {
                    Ok(span) => Ok(Expr::group(grouped, next_token.span.start, span.end)),
                    Err(e) => Err(e),
                }
            },
            TokenType::Literal(lit) => Ok(
                Expr::literal(
                    match lit {
                        Literal::String(s) => Lit::String(s),
                        Literal::Number(n) => Lit::Number(n),
                    },
                    next_token.span,
                ),
            ),
            TokenType::Bang => match self.expr_precedence(Operator::Prefix) {
                Ok(operand) => Ok(Expr::unary(UnaryOp::Not, next_token.span, operand)),
                Err(e) => Err(e),
            },
            TokenType::Minus => match self.expr_precedence(Operator::Prefix) {
                Ok(operand) => Ok(Expr::unary(UnaryOp::Negative, next_token.span, operand)),
                Err(e) => Err(e),
            },
            TokenType::Identifier(name) => Ok(
                Expr::Var(Box::new(Variable::from_name(name, next_token.span))),
            ),
            t => Err(ParserError::expect_structure("expression", t, next_token.span)),
        }
    }

    /// The infix forms after the operand `left`, as long as the next token
    /// is an operator that takes it above the floor `floor`.
    #[verifier::loop_isolation(false)]
    fn infix(&mut self, floor: Operator, left: Expr) -> (r: Result<Expr, ParserError>)
        requires
            old(self).wf(),
        ensures
            stepped(
                *old(self),
                *final(self),
                r,
                sp_infix(old(self).tokens(), old(self).cursor(), floor, left@),
            ),
        decreases remaining(old(self).tokens(), old(self).cursor()), 1nat,
    {
        let ghost t = self.tokens();
        let ghost p0 = self.pos as int;
        let ghost whole = sp_infix(t, p0, floor, left@);
        let mut expr = left;
        loop
            invariant
                self.wf(),
                self.tokens() == t,
                self.diagnostics() == old(self).diagnostics(),
                p0 <= self.pos,
                whole.result == sp_infix(t, self.pos as int, floor, expr@).result,
                whole.used == (self.pos - p0) + sp_infix(t, self.pos as int, floor, expr@).used,
            decreases remaining(t, self.pos as int),
        {
            let next_op = match Operator::from_token(self.look_ahead()) {
                Some(next_op) => {
                    if next_op.is_precedent_than(floor) {
                        next_op
                    } else {
                        return Ok(expr);
                    }
                },
                None => {
                    return Ok(expr);
                },
            };
            let next_token = self.next_token();
            match self.infix_form(next_token, next_op, expr) {
                Ok(form) => {
                    expr = form;
                },
                Err(e) => {
                    return Err(e);
                },
            }
        }
    }

    /// One infix form after its operator `tok`, which writes `next_op`, with
    /// `left` as the left operand.
    fn infix_form(&mut self, tok: Token, next_op: Operator, left: Expr) -> (r: Result<
        Expr,
        ParserError,
    >)
        requires
            old(self).wf(),
        ensures
            stepped(
                *old(self),
                *final(self),
                r,
                sp_infix_form(old(self).tokens(), old(self).cursor(), tok@, next_op, left@),
            ),
        decreases remaining(old(self).tokens(), old(self).cursor()), 7nat,
    {
        match next_op {
            Operator::Ternary => {
                let truthy = match self.expression() {
                    Ok(e) => e,
                    Err(e) => {
                        return Err(e);
                    },
                };
                match self.eat(Punct::Colon) {
                    Ok(_) => {},
                    Err(e) => {
                        return Err(e);
                    },
                }
                match self.expr_precedence(next_op) {
                    Ok(falsy) => Ok(Expr::ternary(left, truthy, falsy)),
                    Err(e) => Err(e),
                }
            },
            Operator::Assign => match left {
                Expr::Var(var) => match self.expr_precedence(next_op) {
                    Ok(value) => Ok(Expr::assign(*var, value)),
                    Err(e) => Err(e),
                },
                Expr::Get(get) => match self.expr_precedence(next_op) {
                    Ok(value) => Ok(Expr::set(*get, value)),
                    Err(e) => Err(e),
                },
                other => Err(ParserError::InvalidLeftValue(other.get_span())),
            },
            Operator::FnCall => self.fn_call(left),
            Operator::Dot => match self.get_identifier() {
                Ok(field) => Ok(Expr::get(left, field)),
                Err(e) => Err(e),
            },
            _ => match BinaryOp::from_token(&tok.token_type) {
                Some(operator) => match self.expr_precedence(next_op) {
                    Ok(right) => Ok(Expr::binary(operator, left, right)),
                    Err(e) => Err(e),
                },
                None => Err(ParserError::UnexpectedToken(tok.token_type, tok.span)),
            },
        }
    }

    /// A call of `callee`, after its `(`: the arguments, separated by
    /// commas, and the `)`.
    #[verifier::loop_isolation(false)]
    fn fn_call(&mut self, callee: Expr) -> (r: Result<Expr, ParserError>)
        requires
            old(self).wf(),
        ensures
            stepped(
                *old(self),
                *final(self),
                r,
                sp_fn_call(old(self).tokens(), old(self).cursor(), callee@),
            ),
        decreases remaining(old(self).tokens(), old(self).cursor()), 6nat,
    {
        let ghost t = self.tokens();
        let ghost q = self.pos as int;
        let mut arguments: Vec<Expr> = Vec::new();
        assert(exprs_view(arguments@) =~= Seq::<SpecExpr>::empty());
        if !matches!(self.look_ahead(), TokenType::RightParen) {
            loop
                invariant
                    self.wf(),
                    self.tokens() == t,
                    self.diagnostics() == old(self).diagnostics(),
                    q <= self.pos,
                    sp_args(t, q, Seq::empty()).result == sp_args(
                        t,
                        self.pos as int,
                        exprs_view(arguments@),
                    ).result,
                    sp_args(t, q, Seq::empty()).used == (self.pos - q) + sp_args(
                        t,
                        self.pos as int,
                        exprs_view(arguments@),
                    ).used,
                decreases remaining(t, self.pos as int),
            {
                let arg = match self.expression() {
                    Ok(e) => e,
                    Err(e) => {
                        return Err(e);
                    },
                };
                proof {
                    lemma_exprs_view_push(arguments@, arg);
                }
                arguments.push(arg);
                match self.look_ahead() {
                    TokenType::Comma => {
                        self.next_token();
                    },
                    _ => {
                        break ;
                    },
                }
            }
        }
        match self.eat(Punct::RightParen) {
            Ok(span) => Ok(Expr::FnCall(Box::new(FnCall { callee, arguments, end: span.end }))),
            Err(e) => Err(e),
        }
    }
}

/// What a `for` statement is rewritten to.
pub fn desugar(
    initializer: Option<Statement>,
    condition: Option<Expr>,
    increment: Option<Expr>,
    body: Statement,
) -> (r: Statement)
    ensures
        r@ == desugar_for(
            match initializer {
                Some(i) => Some(i@),
                None => None,
            },
            match condition {
                Some(c) => Some(c@),
                None => None,
            },
            match increment {
                Some(i) => Some(i@),
                None => None,
            },
            body@,
        ),
{
    let ghost body_v = body@;
    let test = match condition {
        Some(c) => c,
        None => Expr::literal(Lit::Bool(true), Span::dummy()),
    };
    let repeated = match increment {
        Some(increment) => {
            let ghost inc_v = increment@;
            let mut statements: Vec<Statement> = Vec::new();
            statements.push(body);
            statements.push(Statement::Expression(Expression { expr: increment }));
            assert(stmts_view(statements@) =~= seq![body_v, SpecStmt::Expression(inc_v)]);
            let block = Statement::Block(Box::new(Block::new(statements)));
            assert(block@ == new_block(seq![body_v, SpecStmt::Expression(inc_v)]));
            block
        },
        None => body,
    };
    let ghost test_v = test@;
    let ghost repeated_v = repeated@;
    let inner = Statement::While(Box::new(While { condition: test, body: repeated }));
    assert(inner@ == (SpecStmt::While { condition: test_v, body: Box::new(repeated_v) }));
    match initializer {
        Some(initializer) => {
            let ghost init = initializer@;
            let ghost inn = inner@;
            let mut statements: Vec<Statement> = Vec::new();
            statements.push(initializer);
            statements.push(inner);
            assert(stmts_view(statements@) =~= seq![init, inn]);
            let block = Statement::Block(Box::new(Block::new(statements)));
            assert(block@ == new_block(seq![init, inn]));
            block
        },
        None => inner,
    }
}

/// Parses `src`: its statements, or, if any diagnostic was recorded, all
/// the diagnostics in the order they arose.
pub fn parse(src: &str) -> (r: ParserResult)
    requires
        src.spec_bytes().len() <= u32::MAX,
    ensures
        parse_result(r) == sp_parse(token_stream(src@, 0)),
{
    let mut parser = Parser::new(Lexer::new(src));
    parser.parse()
}

} // verus!
