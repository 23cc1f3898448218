use vstd::prelude::*;
use crate::ast::{expr_view, exprs_view, lemma_exprs_view_push, names_view, stmt_view, stmts_view, lemma_stmts_view_push, BinOp, Expr, ExprKind, Node, SExpr, SExprKind, SStmt, Stmt, StmtKind, StepOp};
use crate::errors::{ExpressionError, ParseError, ParseErrorKind, SKind, SParseError, TokensError};
use crate::lexer::tokens_view;
use crate::parse_spec::{adv, adv_tok, at, bin, eof_err, merge, mk_stmt, module_file, op_of, p_args, p_assign, p_binding, p_block, p_braced, p_expect, p_for, p_for_init, p_fun, p_ident, p_if, p_level, p_loop, p_params, p_postfix, p_primary, p_program, p_return, p_stmt, p_unary, p_use, p_var_decl, p_while, step_message, PRes};
use crate::positions::Span;
use crate::token::{SToken, STokenPos, Token, TokenPosition, same_kind};

verus! {

/// The result of a parsing step: a value or the error that stops the parse.
pub type TError<T> = Result<T, Box<ParseError>>;

/// A recursive-descent parser over a list of positioned tokens.
pub struct ParserToken {
    tokens: Vec<TokenPosition>,
    pos: usize,
}

/// How a parse result relates to its specification: the same value and end
/// position, or the same error.
pub open spec fn agrees<T, V>(r: TError<T>, view: spec_fn(T) -> V, s: PRes<V>, end: int) -> bool {
    match r {
        Ok(v) => s == Ok::<(V, int), SParseError>((view(v), end)),
        Err(e) => s == Err::<(V, int), SParseError>(e@) && no_origin(*e),
    }
}

/// An error of the parser names no file and carries no source: those are
/// filled in by whoever reports it.
pub open spec fn no_origin(e: ParseError) -> bool {
    e.file@ == Seq::<char>::empty() && e.source@ == Seq::<char>::empty()
}

fn mk_err(kind: ParseErrorKind, span: Span) -> (r: Box<ParseError>)
    ensures
        r@ == (SParseError { kind: kind@, span }),
        r.file@ == Seq::<char>::empty(),
        r.source@ == Seq::<char>::empty(),
{
    Box::new(ParseError::new(kind, span, None, None))
}

fn eof() -> (r: Box<ParseError>)
    ensures
        r@ == eof_err(),
        no_origin(*r),
{
    mk_err(ParseErrorKind::Tokens(TokensError::UnexpectedEOF), Span::default_value())
}

impl ParserToken {
    #[verifier::type_invariant]
    spec fn inv(self) -> bool {
        self.pos <= self.tokens@.len()
    }

    /// The tokens being parsed.
    pub closed spec fn toks(&self) -> Seq<STokenPos> {
        tokens_view(self.tokens@)
    }

    /// The index of the next token to read.
    pub closed spec fn at_pos(&self) -> int {
        self.pos as int
    }

    /// A parser at the start of the given tokens.
    pub fn new(token: Vec<TokenPosition>) -> (r: Self)
        ensures
            r.toks() == tokens_view(token@),
            r.at_pos() == 0,
    {
        ParserToken { tokens: token, pos: 0 }
    }

    /// The current token.
    fn peek(&self) -> (r: Option<&TokenPosition>)
        ensures
            match r {
                Some(t) => self.pos < self.tokens@.len() && t@ == self.toks()[self.pos as int],
                None => self.pos >= self.tokens@.len(),
            },
    {
        if self.pos < self.tokens.len() {
            Some(&self.tokens[self.pos])
        } else {
            None
        }
    }

    /// The token after the current one.
    fn peek_next(&self) -> (r: Option<&TokenPosition>)
        requires
            self.pos < usize::MAX,
        ensures
            match r {
                Some(t) => self.pos + 1 < self.tokens@.len() && t@ == self.toks()[self.pos + 1],
                None => self.pos + 1 >= self.tokens@.len(),
            },
    {
        if self.pos + 1 < self.tokens.len() {
            Some(&self.tokens[self.pos + 1])
        } else {
            None
        }
    }

    /// Whether the current token is of the kind of `k`.
    fn check(&self, k: &Token) -> (r: bool)
        ensures
            r == at(self.toks(), self.pos as int, k@),
    {
        match self.peek() {
            Some(t) => t.token.same_kind_as(k),
            None => false,
        }
    }

    /// Steps over the current token and hands it out; at the end it stays
    /// and hands out the last token again.
    fn advance(&mut self) -> (r: Option<TokenPosition>)
        requires
            old(self).tokens@.len() > 0,
        ensures
            final(self).tokens@ == old(self).tokens@,
            final(self).pos == adv(old(self).toks(), old(self).pos as int),
            r matches Some(t) && t@ == adv_tok(old(self).toks(), old(self).pos as int),
    {
        proof { use_type_invariant(&*self); }
        if self.pos < self.tokens.len() {
            self.pos = self.pos + 1;
        }
        Some(self.tokens[self.pos - 1].dup())
    }

    /// Consumes the current token if it is of the kind of `token_t`.
    fn match_token(&mut self, token_t: &Token) -> (r: bool)
        ensures
            final(self).tokens@ == old(self).tokens@,
            r == at(old(self).toks(), old(self).pos as int, token_t@),
            final(self).pos == if r { old(self).pos + 1 } else { old(self).pos as int },
    {
        if self.check(token_t) {
            self.advance();
            true
        } else {
            false
        }
    }

    /// Consumes the current token if it is of the kind of `expected_token`,
    /// and fails otherwise.
    fn expect(&mut self, expected_token: &Token) -> (r: TError<TokenPosition>)
        ensures
            final(self).tokens@ == old(self).tokens@,
            agrees(r, |t: TokenPosition| t@, p_expect(old(self).toks(), old(self).pos as int, expected_token@), final(self).pos as int),
    {
        proof { use_type_invariant(&*self); }
        if self.check(expected_token) {
            let n = self.tokens.len();
            assert(self.toks().len() == n);
            let t = self.tokens[self.pos].dup();
            self.pos = self.pos + 1;
            Ok(t)
        } else if self.pos < self.tokens.len() {
            let cur = &self.tokens[self.pos];
            Err(mk_err(
                ParseErrorKind::Tokens(TokensError::ExpectedToken(expected_token.dup(), cur.token.dup())),
                cur.position,
            ))
        } else {
            Err(eof())
        }
    }


    /// An identifier: its name and span.
    fn expect_ident(&mut self) -> (r: TError<(String, Span)>)
        requires
            old(self).tokens@.len() > 0,
        ensures
            final(self).tokens@ == old(self).tokens@,
            final(self).pos <= final(self).tokens@.len(),
            final(self).pos >= old(self).pos,
            agrees(r, |v: (String, Span)| (v.0@, v.1), p_ident(old(self).toks(), old(self).pos as int), final(self).pos as int),
    {
        proof { use_type_invariant(&*self); }
        let t = self.advance();
        proof { use_type_invariant(&*self); }
        match t {
            Some(TokenPosition { token: Token::Ident(name), position }) => Ok((name, position)),
            Some(TokenPosition { token, position }) => Err(mk_err(
                ParseErrorKind::Tokens(TokensError::ExpectedToken(Token::Ident(String::new()), token)),
                position,
            )),
            None => Err(eof()),
        }
    }


    /// The binary operator of level `lvl` at the current token, if any.
    fn op_here(&self, lvl: u8) -> (r: Option<BinOp>)
        ensures
            r == (if self.pos < self.tokens@.len() {
                op_of(lvl as nat, self.toks()[self.pos as int].token)
            } else {
                None
            }),
    {
        match self.peek() {
            Some(t) => op_exec(lvl, &t.token),
            None => None,
        }
    }

    /// An expression at precedence level `lvl`: 0 is a unary expression,
    /// 1 adds `*` `/`, 2 adds `+` `-`, 3 adds comparisons, 4 adds `==` `!=`.
    fn parse_level(&mut self, lvl: u8) -> (r: TError<Expr>)
        requires
            old(self).tokens@.len() > 0,
            lvl <= 4,
        ensures
            final(self).tokens@ == old(self).tokens@,
            r is Ok ==> old(self).pos <= final(self).pos <= final(self).tokens@.len(),
            agrees(r, |e: Expr| expr_view(e), p_level(old(self).toks(), lvl as nat, old(self).pos as int), final(self).pos as int),
        decreases old(self).tokens@.len() - old(self).pos, 2 * lvl + 4,
    {
        proof { use_type_invariant(&*self); }
        let ghost t = self.toks();
        let ghost tv = self.tokens@;
        let ghost p0 = self.pos as int;
        if lvl == 0 {
            return self.parse_unary();
        }
        let mut left = self.parse_level(lvl - 1)?;
        proof { use_type_invariant(&*self); }
        loop
            invariant
                self.tokens@.len() > 0,
                self.toks() == t,
                self.tokens@ == tv,
                tv == old(self).tokens@,
                t == old(self).toks(),
                p0 == old(self).pos,
                1 <= lvl <= 4,
                p0 <= self.pos <= self.tokens@.len(),
                p_level(t, lvl as nat, p0) == p_loop(t, lvl as nat, expr_view(left), self.pos as int),
            decreases self.tokens@.len() - self.pos,
        {
            match self.op_here(lvl) {
                None => {
                    return Ok(left);
                },
                Some(op) => {
                    let ghost p1 = self.pos as int;
                    self.advance();
                    let right = self.parse_level(lvl - 1)?;
                    proof { use_type_invariant(&*self); }
                    left = make_bin(op, left, right);
                    assert(self.pos > p1);
                },
            }
        }
    }

    /// `==` and `!=` over comparisons: a whole expression.
    fn parse_expr(&mut self) -> (r: TError<Expr>)
        requires
            old(self).tokens@.len() > 0,
        ensures
            final(self).tokens@ == old(self).tokens@,
            r is Ok ==> old(self).pos <= final(self).pos <= final(self).tokens@.len(),
            agrees(r, |e: Expr| expr_view(e), p_level(old(self).toks(), 4, old(self).pos as int), final(self).pos as int),
    {
        self.parse_level(4)
    }




    /// Prefix `++`/`--` on a variable, or a primary expression with postfix `++`/`--`.
    fn parse_unary(&mut self) -> (r: TError<Expr>)
        requires
            old(self).tokens@.len() > 0,
        ensures
            final(self).tokens@ == old(self).tokens@,
            r is Ok ==> old(self).pos <= final(self).pos <= final(self).tokens@.len(),
            agrees(r, |e: Expr| expr_view(e), p_unary(old(self).toks(), old(self).pos as int), final(self).pos as int),
        decreases old(self).tokens@.len() - old(self).pos, 3int,
    {
        proof { use_type_invariant(&*self); }
        let ghost t = self.toks();
        let ghost tv = self.tokens@;
        let ghost p0 = self.pos as int;
        let inc = self.check(&Token::PlusPlus);
        if inc || self.check(&Token::MinusMinus) {
            let op = if inc { StepOp::PreInc } else { StepOp::PreDec };
            let position = self.tokens[self.pos].position;
            self.advance();
            let expr = self.parse_primary()?;
            let sp = expr.span;
            match expr.kind {
                ExprKind::Ident(name) => {
                    let span = Span::merge(&position, &sp);
                    Ok(Node { kind: make_step(op, name), span })
                },
                _ => Err(mk_err(
                    ParseErrorKind::ExprError(ExpressionError::InvalidPrefixOperator(step_msg(op))),
                    Span { start: position.start, end: sp.end },
                )),
            }
        } else {
            let mut expr = self.parse_primary()?;
            proof { use_type_invariant(&*self); }
            loop
                invariant
                    self.tokens@.len() > 0,
                    self.toks() == t,
                    self.tokens@ == tv,
                    tv == old(self).tokens@,
                    t == old(self).toks(),
                    p0 == old(self).pos,
                tv == old(self).tokens@,
                t == old(self).toks(),
                p0 == old(self).pos,
                    p0 <= self.pos <= self.tokens@.len(),
                    p_unary(t, p0) == p_postfix(t, expr_view(expr), self.pos as int),
                decreases self.tokens@.len() - self.pos,
            {
                let inc2 = self.check(&Token::PlusPlus);
                if inc2 || self.check(&Token::MinusMinus) {
                    let op = if inc2 { StepOp::PostInc } else { StepOp::PostDec };
                    let position = self.tokens[self.pos].position;
                    self.advance();
                    let sp = expr.span;
                    match expr.kind {
                        ExprKind::Ident(name) => {
                            let span = Span::merge(&sp, &position);
                            expr = Node { kind: make_step(op, name), span };
                        },
                        _ => {
                            return Err(mk_err(
                                ParseErrorKind::ExprError(ExpressionError::InvalidPostfixOperator(step_msg(op))),
                                Span { start: sp.start, end: position.end },
                            ));
                        },
                    }
                } else {
                    return Ok(expr);
                }
            }
        }
    }

    /// A number, string, variable, call, or parenthesized expression.
    fn parse_primary(&mut self) -> (r: TError<Expr>)
        requires
            old(self).tokens@.len() > 0,
        ensures
            final(self).tokens@ == old(self).tokens@,
            r is Ok ==> old(self).pos <= final(self).pos <= final(self).tokens@.len(),
            agrees(r, |e: Expr| expr_view(e), p_primary(old(self).toks(), old(self).pos as int), final(self).pos as int),
        decreases old(self).tokens@.len() - old(self).pos, 1int,
    {
        proof { use_type_invariant(&*self); }
        let p0 = self.pos;
        let tk = match self.advance() {
            Some(t) => t,
            None => {
                return Err(eof());
            },
        };
        proof { use_type_invariant(&*self); }
        let position = tk.position;
        match tk.token {
            Token::Number(n) => Ok(Node { kind: ExprKind::Num(n), span: position }),
            Token::Str(s) => Ok(Node { kind: ExprKind::Str(s), span: position }),
            Token::Ident(name) => {
                if self.check(&Token::LParen) {
                    self.advance();
                    let args = self.parse_args()?;
                    proof { use_type_invariant(&*self); }
                    let rp = self.expect(&Token::RParen)?;
                    let span = Span::merge(&position, &rp.position);
                    proof { use_type_invariant(&*self); }
                    let callee = Node { kind: ExprKind::Ident(name), span: position };
                    assert(expr_view(callee) == SExpr { kind: SExprKind::Ident(name@), span: position });
                    Ok(Node { kind: ExprKind::Call { call: Box::new(callee), args }, span })
                } else {
                    Ok(Node { kind: ExprKind::Ident(name), span: position })
                }
            },
            Token::LParen => {
                if self.pos == p0 {
                    return Err(eof());
                }
                let e = self.parse_level(4)?;
                proof { use_type_invariant(&*self); }
                let rp = self.expect(&Token::RParen)?;
                proof { use_type_invariant(&*self); }
                let span = Span::merge(&position, &rp.position);
                let ghost ev = expr_view(e);
                let res = Node { kind: e.kind, span };
                assert(expr_view(res).kind == ev.kind);
                Ok(res)
            },
            other => Err(mk_err(ParseErrorKind::ExprError(ExpressionError::InvalidPrimary(other)), position)),
        }
    }

    /// The arguments of a call, up to the closing parenthesis.
    fn parse_args(&mut self) -> (r: TError<Vec<Expr>>)
        requires
            old(self).tokens@.len() > 0,
        ensures
            final(self).tokens@ == old(self).tokens@,
            r is Ok ==> old(self).pos <= final(self).pos <= final(self).tokens@.len(),
            agrees(r, |v: Vec<Expr>| exprs_view(v@), p_args(old(self).toks(), Seq::empty(), old(self).pos as int), final(self).pos as int),
        decreases old(self).tokens@.len() - old(self).pos, 20int,
    {
        proof { use_type_invariant(&*self); }
        let ghost t = self.toks();
        let ghost tv = self.tokens@;
        let ghost p0 = self.pos as int;
        let mut args: Vec<Expr> = Vec::new();
        assert(exprs_view(args@) =~= Seq::<SExpr>::empty());
        loop
            invariant
                self.tokens@.len() > 0,
                self.toks() == t,
                self.tokens@ == tv,
                tv == old(self).tokens@,
                t == old(self).toks(),
                p0 == old(self).pos,
                p0 <= self.pos <= self.tokens@.len(),
                p_args(t, Seq::empty(), p0) == p_args(t, exprs_view(args@), self.pos as int),
            decreases self.tokens@.len() - self.pos,
        {
            if self.check(&Token::RParen) {
                return Ok(args);
            }
            let e = self.parse_level(4)?;
            proof {
                use_type_invariant(&*self);
                lemma_exprs_view_push(args@, e);
            }
            args.push(e);
            if self.check(&Token::Comma) {
                self.advance();
            } else {
                return Ok(args);
            }
        }
    }
}


impl ParserToken {
    fn make_stmt(&self, kind: StmtKind, span: Span) -> (r: Stmt)
        ensures
            r.kind == kind,
            r.span == span,
    {
        Node { kind, span }
    }

    /// The statements of the program from the current token to the end.
    pub fn parse(&mut self) -> (r: TError<Vec<Stmt>>)
        ensures
            final(self).toks() == old(self).toks(),
            match r {
                Ok(v) => p_program(old(self).toks(), Seq::empty(), old(self).at_pos()) == Ok::<Seq<SStmt>, SParseError>(stmts_view(v@))
                    && final(self).at_pos() == final(self).toks().len()
                    && (v@.len() == 0) == (old(self).at_pos() >= old(self).toks().len()),
                Err(e) => p_program(old(self).toks(), Seq::empty(), old(self).at_pos()) == Err::<Seq<SStmt>, SParseError>(e@)
                    && no_origin(*e),
            },
    {
        proof { use_type_invariant(&*self); }
        let ghost t = self.toks();
        let ghost tv = self.tokens@;
        let ghost p0 = self.pos as int;
        let mut stmts: Vec<Stmt> = Vec::new();
        assert(stmts_view(stmts@) =~= Seq::<SStmt>::empty());
        while self.peek().is_some()
            invariant
                self.toks() == t,
                self.tokens@ == tv,
                tv == old(self).tokens@,
                t == old(self).toks(),
                p0 == old(self).pos,
                p0 <= self.pos <= self.tokens@.len(),
                stmts@.len() == 0 ==> self.pos == p0,
                stmts@.len() > 0 ==> p0 < self.tokens@.len(),
                p_program(t, Seq::empty(), p0) == p_program(t, stmts_view(stmts@), self.pos as int),
            decreases self.tokens@.len() - self.pos,
        {
            let s = self.parse_stmt()?;
            proof {
                use_type_invariant(&*self);
                lemma_stmts_view_push(stmts@, s);
            }
            stmts.push(s);
        }
        Ok(stmts)
    }

    /// One statement, chosen by its first token.
    fn parse_stmt(&mut self) -> (r: TError<Stmt>)
        requires
            old(self).tokens@.len() > 0,
        ensures
            final(self).tokens@ == old(self).tokens@,
            r is Ok ==> old(self).pos < final(self).pos <= final(self).tokens@.len(),
            agrees(r, |s: Stmt| stmt_view(s), p_stmt(old(self).toks(), old(self).pos as int), final(self).pos as int),
        decreases old(self).tokens@.len() - old(self).pos, 49int,
    {
        proof { use_type_invariant(&*self); }
        if self.pos >= self.tokens.len() {
            return Err(eof());
        }
        let tag = self.tokens[self.pos].token.tag();
        if tag == 18 {
            self.parse_if()
        } else if tag == 22 {
            self.parse_while()
        } else if tag == 23 {
            self.parse_for()
        } else if tag == 26 {
            self.parse_fun()
        } else if tag == 27 {
            self.parse_return()
        } else if tag == 0 || tag == 1 {
            self.parse_var_decl()
        } else if tag == 2 {
            let next_is_assign = match self.peek_next() {
                Some(t) => t.token.same_kind_as(&Token::Assign),
                None => false,
            };
            if next_is_assign {
                self.parse_assign()
            } else {
                let expr = self.parse_expr()?;
                let span = expr.span;
                self.expect(&Token::Semicolon)?;
                proof { use_type_invariant(&*self); }
                Ok(self.make_stmt(StmtKind::Expr(expr), span))
            }
        } else if tag == 31 {
            self.parse_use()
        } else {
            let cur = &self.tokens[self.pos];
            Err(mk_err(ParseErrorKind::Tokens(TokensError::UnexpectedToken(cur.token.dup())), cur.position))
        }
    }

    /// `use name.dr;`: loads the module file `name.dr`.
    fn parse_use(&mut self) -> (r: TError<Stmt>)
        requires
            old(self).tokens@.len() > 0,
        ensures
            final(self).tokens@ == old(self).tokens@,
            r is Ok ==> old(self).pos < final(self).pos <= final(self).tokens@.len(),
            agrees(r, |s: Stmt| stmt_view(s), p_use(old(self).toks(), old(self).pos as int), final(self).pos as int),
        decreases old(self).tokens@.len() - old(self).pos, 48int,
    {
        let start = self.expect(&Token::Use)?;
        let file = match self.advance() {
            Some(t) => t,
            None => {
                return Err(eof());
            },
        };
        self.advance();
        let file_name = match file.token {
            Token::Ident(name) => name,
            other => {
                return Err(mk_err(
                    ParseErrorKind::Tokens(TokensError::ExpectedToken(Token::Ident(String::new()), other)),
                    file.position,
                ));
            },
        };
        let name = file_name.concat(".dr");
        let end = self.expect(&Token::Semicolon)?;
        proof { use_type_invariant(&*self); }
        let span = Span::merge(&start.position, &end.position);
        Ok(self.make_stmt(StmtKind::Use(name), span))
    }

    /// `var name = e;` or `ver name = e;`.
    fn parse_var_decl(&mut self) -> (r: TError<Stmt>)
        requires
            old(self).tokens@.len() > 0,
        ensures
            final(self).tokens@ == old(self).tokens@,
            r is Ok ==> old(self).pos < final(self).pos <= final(self).tokens@.len(),
            agrees(r, |s: Stmt| stmt_view(s), p_var_decl(old(self).toks(), old(self).pos as int), final(self).pos as int),
        decreases old(self).tokens@.len() - old(self).pos, 48int,
    {
        proof { use_type_invariant(&*self); }
        let tk = match self.advance() {
            Some(t) => t,
            None => {
                return Err(eof());
            },
        };
        match tk.token {
            Token::Var => self.parse_binding(tk.position, false),
            Token::Ver => self.parse_binding(tk.position, true),
            other => Err(mk_err(ParseErrorKind::Tokens(TokensError::UnexpectedToken(other)), tk.position)),
        }
    }

    /// `name = e;` after `var` or `ver`.
    fn parse_binding(&mut self, start: Span, declare: bool) -> (r: TError<Stmt>)
        requires
            old(self).tokens@.len() > 0,
        ensures
            final(self).tokens@ == old(self).tokens@,
            r is Ok ==> old(self).pos < final(self).pos <= final(self).tokens@.len(),
            agrees(r, |s: Stmt| stmt_view(s), p_binding(old(self).toks(), old(self).pos as int, start, declare), final(self).pos as int),
        decreases old(self).tokens@.len() - old(self).pos, 47int,
    {
        let p0 = self.pos;
        let (name, _) = self.expect_ident()?;
        self.expect(&Token::Assign)?;
        if self.pos <= p0 {
            return Err(eof());
        }
        let value = self.parse_expr()?;
        let semi = self.expect(&Token::Semicolon)?;
        proof { use_type_invariant(&*self); }
        let span = Span::merge(&start, &semi.position);
        if declare {
            Ok(self.make_stmt(StmtKind::VerDecl { name, value, mutable: true }, span))
        } else {
            Ok(self.make_stmt(StmtKind::Assign { name, value }, span))
        }
    }

    /// `name = e;`: an assignment.
    fn parse_assign(&mut self) -> (r: TError<Stmt>)
        requires
            old(self).tokens@.len() > 0,
        ensures
            final(self).tokens@ == old(self).tokens@,
            r is Ok ==> old(self).pos < final(self).pos <= final(self).tokens@.len(),
            agrees(r, |s: Stmt| stmt_view(s), p_assign(old(self).toks(), old(self).pos as int), final(self).pos as int),
        decreases old(self).tokens@.len() - old(self).pos, 48int,
    {
        let p0 = self.pos;
        let (name, start) = self.expect_ident()?;
        self.expect(&Token::Assign)?;
        if self.pos <= p0 {
            return Err(eof());
        }
        let value = self.parse_expr()?;
        let end = self.expect(&Token::Semicolon)?;
        proof { use_type_invariant(&*self); }
        let span = Span::merge(&start, &end.position);
        Ok(self.make_stmt(StmtKind::Assign { name, value }, span))
    }

    /// The parameter names of a function, up to the closing parenthesis.
    fn parse_params(&mut self) -> (r: TError<Vec<String>>)
        requires
            old(self).tokens@.len() > 0,
        ensures
            final(self).tokens@ == old(self).tokens@,
            r is Ok ==> old(self).pos <= final(self).pos <= final(self).tokens@.len(),
            agrees(r, |v: Vec<String>| names_view(v@), p_params(old(self).toks(), Seq::empty(), old(self).pos as int), final(self).pos as int),
    {
        proof { use_type_invariant(&*self); }
        let ghost t = self.toks();
        let ghost tv = self.tokens@;
        let ghost p0 = self.pos as int;
        let mut params: Vec<String> = Vec::new();
        assert(names_view(params@) =~= Seq::<Seq<char>>::empty());
        loop
            invariant
                self.tokens@.len() > 0,
                self.toks() == t,
                self.tokens@ == tv,
                tv == old(self).tokens@,
                t == old(self).toks(),
                p0 == old(self).pos,
                p0 <= self.pos <= self.tokens@.len(),
                p_params(t, Seq::empty(), p0) == p_params(t, names_view(params@), self.pos as int),
            decreases self.tokens@.len() - self.pos,
        {
            let p1 = self.pos;
            let (param, _) = self.expect_ident()?;
            if self.pos == p1 {
                return Err(eof());
            }
            let ghost before = names_view(params@);
            params.push(param);
            assert(names_view(params@) =~= before.push(param@));
            if self.check(&Token::Comma) {
                self.advance();
            }
            if self.check(&Token::RParen) {
                return Ok(params);
            }
        }
    }

    /// `fun name(params) { body }`.
    fn parse_fun(&mut self) -> (r: TError<Stmt>)
        requires
            old(self).tokens@.len() > 0,
        ensures
            final(self).tokens@ == old(self).tokens@,
            r is Ok ==> old(self).pos < final(self).pos <= final(self).tokens@.len(),
            agrees(r, |s: Stmt| stmt_view(s), p_fun(old(self).toks(), old(self).pos as int), final(self).pos as int),
        decreases old(self).tokens@.len() - old(self).pos, 48int,
    {
        let p0 = self.pos;
        let start = self.expect(&Token::Fun)?;
        let (name, _) = self.expect_ident()?;
        self.expect(&Token::LParen)?;
        let params = if self.check(&Token::RParen) {
            let v: Vec<String> = Vec::new();
            assert(names_view(v@) =~= Seq::<Seq<char>>::empty());
            v
        } else {
            self.parse_params()?
        };
        self.expect(&Token::RParen)?;
        self.expect(&Token::LBrace)?;
        if self.pos <= p0 {
            return Err(eof());
        }
        let body = self.parse_block()?;
        let end = self.expect(&Token::RBrace)?;
        proof { use_type_invariant(&*self); }
        let span = Span::merge(&start.position, &end.position);
        Ok(self.make_stmt(StmtKind::Func { name, params, body }, span))
    }

    /// `return e;`.
    fn parse_return(&mut self) -> (r: TError<Stmt>)
        requires
            old(self).tokens@.len() > 0,
        ensures
            final(self).tokens@ == old(self).tokens@,
            r is Ok ==> old(self).pos < final(self).pos <= final(self).tokens@.len(),
            agrees(r, |s: Stmt| stmt_view(s), p_return(old(self).toks(), old(self).pos as int), final(self).pos as int),
        decreases old(self).tokens@.len() - old(self).pos, 48int,
    {
        let p0 = self.pos;
        let start = self.expect(&Token::Return)?;
        if self.pos <= p0 {
            return Err(eof());
        }
        let expr = self.parse_expr()?;
        let end = self.expect(&Token::Semicolon)?;
        proof { use_type_invariant(&*self); }
        let span = Span::merge(&start.position, &end.position);
        Ok(self.make_stmt(StmtKind::Return(expr), span))
    }

    /// `{ statements }`: the block and its closing brace.
    fn parse_braced(&mut self, floor: usize) -> (r: TError<(Vec<Stmt>, TokenPosition)>)
        requires
            old(self).tokens@.len() > 0,
        ensures
            final(self).tokens@ == old(self).tokens@,
            r is Ok ==> old(self).pos < final(self).pos <= final(self).tokens@.len(),
            agrees(
                r,
                |v: (Vec<Stmt>, TokenPosition)| (stmts_view(v.0@), v.1@),
                p_braced(old(self).toks(), old(self).pos as int, floor as int),
                final(self).pos as int,
            ),
        decreases old(self).tokens@.len() - floor, 47int,
    {
        if self.pos <= floor {
            return Err(eof());
        }
        self.expect(&Token::LBrace)?;
        let body = self.parse_block()?;
        let rb = self.expect(&Token::RBrace)?;
        proof { use_type_invariant(&*self); }
        Ok((body, rb))
    }

    /// `if cond { .. }`, with an optional `else { .. }`.
    fn parse_if(&mut self) -> (r: TError<Stmt>)
        ensures
            final(self).tokens@ == old(self).tokens@,
            r is Ok ==> old(self).pos < final(self).pos <= final(self).tokens@.len(),
            agrees(r, |s: Stmt| stmt_view(s), p_if(old(self).toks(), old(self).pos as int), final(self).pos as int),
        decreases old(self).tokens@.len() - old(self).pos, 48int,
    {
        let p0 = self.pos;
        let start = self.expect(&Token::If)?;
        if self.pos <= p0 {
            return Err(eof());
        }
        let cond = self.parse_expr()?;
        let (then_branch, _) = self.parse_braced(p0)?;
        let else_branch = if self.check(&Token::Else) {
            self.advance();
            let (b, _) = self.parse_braced(p0)?;
            Some(b)
        } else {
            None
        };
        proof { use_type_invariant(&*self); }
        let end = match &else_branch {
            Some(b) => if b.len() > 0 { b[b.len() - 1].span } else { cond.span },
            None => if then_branch.len() > 0 { then_branch[then_branch.len() - 1].span } else { cond.span },
        };
        proof {
            crate::ast::lemma_stmts_view(then_branch@);
            if else_branch is Some {
                crate::ast::lemma_stmts_view(else_branch->0@);
            }
        }
        let span = Span::merge(&start.position, &end);
        Ok(self.make_stmt(StmtKind::If { cond, then_branch, else_branch }, span))
    }

    /// `while cond { body }`.
    fn parse_while(&mut self) -> (r: TError<Stmt>)
        requires
            old(self).tokens@.len() > 0,
        ensures
            final(self).tokens@ == old(self).tokens@,
            r is Ok ==> old(self).pos < final(self).pos <= final(self).tokens@.len(),
            agrees(r, |s: Stmt| stmt_view(s), p_while(old(self).toks(), old(self).pos as int), final(self).pos as int),
        decreases old(self).tokens@.len() - old(self).pos, 48int,
    {
        let p0 = self.pos;
        let start = self.expect(&Token::While)?;
        if self.pos <= p0 {
            return Err(eof());
        }
        let cond = self.parse_expr()?;
        let (body, rb) = self.parse_braced(p0)?;
        let span = Span::merge(&start.position, &rb.position);
        Ok(self.make_stmt(StmtKind::While { cond, body }, span))
    }

    /// The first part of a `for`: `name = e;`.
    fn parse_name_in_for(&mut self) -> (r: TError<Stmt>)
        requires
            old(self).tokens@.len() > 0,
        ensures
            final(self).tokens@ == old(self).tokens@,
            r is Ok ==> old(self).pos < final(self).pos <= final(self).tokens@.len(),
            agrees(r, |s: Stmt| stmt_view(s), p_for_init(old(self).toks(), old(self).pos as int), final(self).pos as int),
        decreases old(self).tokens@.len() - old(self).pos, 48int,
    {
        let p0 = self.pos;
        let (name, start) = self.expect_ident()?;
        self.expect(&Token::Assign)?;
        if self.pos <= p0 {
            return Err(eof());
        }
        let value = self.parse_expr()?;
        let end = self.expect(&Token::Semicolon)?;
        proof { use_type_invariant(&*self); }
        let span = Span::merge(&start, &end.position);
        Ok(self.make_stmt(StmtKind::VerDecl { name, value, mutable: true }, span))
    }

    /// `for (name = e; cond; incr) { body }`.
    fn parse_for(&mut self) -> (r: TError<Stmt>)
        requires
            old(self).tokens@.len() > 0,
        ensures
            final(self).tokens@ == old(self).tokens@,
            r is Ok ==> old(self).pos < final(self).pos <= final(self).tokens@.len(),
            agrees(r, |s: Stmt| stmt_view(s), p_for(old(self).toks(), old(self).pos as int), final(self).pos as int),
        decreases old(self).tokens@.len() - old(self).pos, 48int,
    {
        let p0 = self.pos;
        let start = self.expect(&Token::For)?;
        self.expect(&Token::LParen)?;
        if self.pos <= p0 {
            return Err(eof());
        }
        let init = self.parse_name_in_for()?;
        if self.pos <= p0 {
            return Err(eof());
        }
        let cond = self.parse_expr()?;
        self.expect(&Token::Semicolon)?;
        let incr = if self.check(&Token::RParen) {
            None
        } else if self.pos <= p0 {
            return Err(eof());
        } else {
            Some(self.parse_expr()?)
        };
        self.expect(&Token::RParen)?;
        let (body, rb) = self.parse_braced(p0)?;
        let span = Span::merge(&start.position, &rb.position);
        Ok(self.make_stmt(StmtKind::For { init: Box::new(init), cond, incr, body }, span))
    }

    /// The statements of a block, up to a closing brace or the end.
    fn parse_block(&mut self) -> (r: TError<Vec<Stmt>>)
        requires
            old(self).tokens@.len() > 0,
        ensures
            final(self).tokens@ == old(self).tokens@,
            r is Ok ==> old(self).pos <= final(self).pos <= final(self).tokens@.len(),
            agrees(r, |v: Vec<Stmt>| stmts_view(v@), p_block(old(self).toks(), Seq::empty(), old(self).pos as int), final(self).pos as int),
        decreases old(self).tokens@.len() - old(self).pos, 50int,
    {
        proof { use_type_invariant(&*self); }
        let ghost t = self.toks();
        let ghost tv = self.tokens@;
        let ghost p0 = self.pos as int;
        let mut stmts: Vec<Stmt> = Vec::new();
        assert(stmts_view(stmts@) =~= Seq::<SStmt>::empty());
        loop
            invariant
                self.tokens@.len() > 0,
                self.toks() == t,
                self.tokens@ == tv,
                tv == old(self).tokens@,
                t == old(self).toks(),
                p0 == old(self).pos,
                p0 <= self.pos <= self.tokens@.len(),
                p_block(t, Seq::empty(), p0) == p_block(t, stmts_view(stmts@), self.pos as int),
            decreases self.tokens@.len() - self.pos,
        {
            if self.pos >= self.tokens.len() || self.check(&Token::RBrace) {
                return Ok(stmts);
            }
            let s = self.parse_stmt()?;
            proof {
                use_type_invariant(&*self);
                lemma_stmts_view_push(stmts@, s);
            }
            stmts.push(s);
        }
    }
}

fn op_exec(lvl: u8, tok: &Token) -> (r: Option<BinOp>)
    ensures
        r == op_of(lvl as nat, tok@),
{
    match tok {
        Token::Star => if lvl == 1 { Some(BinOp::Star) } else { None },
        Token::Slash => if lvl == 1 { Some(BinOp::Slash) } else { None },
        Token::Plus => if lvl == 2 { Some(BinOp::Plus) } else { None },
        Token::Minus => if lvl == 2 { Some(BinOp::Minus) } else { None },
        Token::Less => if lvl == 3 { Some(BinOp::Less) } else { None },
        Token::LessEqual => if lvl == 3 { Some(BinOp::LessEqual) } else { None },
        Token::Greater => if lvl == 3 { Some(BinOp::Greater) } else { None },
        Token::GreaterEqual => if lvl == 3 { Some(BinOp::GreaterEqual) } else { None },
        Token::Equal => if lvl == 4 { Some(BinOp::EqualEqual) } else { None },
        Token::NotEqual => if lvl == 4 { Some(BinOp::NotEqual) } else { None },
        _ => None,
    }
}

/// The node of a binary operator over two operands.
fn make_bin(op: BinOp, l: Expr, r: Expr) -> (e: Expr)
    ensures
        expr_view(e) == bin(op, expr_view(l), expr_view(r)),
{
    let span = Span::merge(&l.span, &r.span);
    let (bl, br) = (Box::new(l), Box::new(r));
    let kind = match op {
        BinOp::Plus => ExprKind::Plus(bl, br),
        BinOp::Minus => ExprKind::Minus(bl, br),
        BinOp::Star => ExprKind::Star(bl, br),
        BinOp::Slash => ExprKind::Slash(bl, br),
        BinOp::Less => ExprKind::Less(bl, br),
        BinOp::LessEqual => ExprKind::LessEqual(bl, br),
        BinOp::Greater => ExprKind::Greater(bl, br),
        BinOp::GreaterEqual => ExprKind::GreaterEqual(bl, br),
        BinOp::EqualEqual => ExprKind::EqualEqual(bl, br),
        BinOp::NotEqual => ExprKind::NotEqual(bl, br),
    };
    Node { kind, span }
}

/// The node kind of an increment or decrement of a variable.
fn make_step(op: StepOp, name: String) -> (k: ExprKind)
    ensures
        expr_view(Node { kind: k, span: Span::default_spec() }).kind == SExprKind::Step(op, name@),
{
    match op {
        StepOp::PreInc => ExprKind::PreInc(name),
        StepOp::PreDec => ExprKind::PreDec(name),
        StepOp::PostInc => ExprKind::PostInc(name),
        StepOp::PostDec => ExprKind::PostDec(name),
    }
}

fn step_msg(op: StepOp) -> (r: String)
    ensures
        r@ == step_message(op),
{
    match op {
        StepOp::PreInc => String::from_str("Префикс ++ только для переменных"),
        StepOp::PreDec => String::from_str("Префикс -- только для переменных"),
        StepOp::PostInc => String::from_str("Постфикс ++ можно применять только к переменным"),
        StepOp::PostDec => String::from_str("Постфикс -- можно применять только к переменным"),
    }
}

} // verus!
