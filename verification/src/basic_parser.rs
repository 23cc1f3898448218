use vstd::prelude::*;
use crate::ast::{expr_view, lemma_stmts_view_push, stmt_view, stmts_view, BinOp, Expr, ExprKind, Node, SExpr, SExprKind, SStmt, SStmtKind, Stmt, StmtKind};
use crate::positions::Span;
use crate::token::{same_kind, SToken, Token};

verus! {

/// The tokens as their mathematical values.
pub open spec fn basic_toks(v: Seq<Token>) -> Seq<SToken> {
    Seq::new(v.len(), |i: int| v[i]@)
}

/// An expression node without a position.
pub open spec fn bnode(k: SExprKind) -> SExpr {
    SExpr { kind: k, span: Span::default_spec() }
}

/// A binary node without a position.
pub open spec fn bbin(op: BinOp, l: SExpr, r: SExpr) -> SExpr {
    bnode(SExprKind::Bin(op, Box::new(l), Box::new(r)))
}

/// Whether the token at `p` is of the kind of `k`.
pub open spec fn b_at(t: Seq<SToken>, p: int, k: SToken) -> bool {
    0 <= p < t.len() && same_kind(t[p], k)
}

/// A number, a name, or an expression in parentheses.
pub open spec fn b_primary(t: Seq<SToken>, p: int) -> Option<(SExpr, int)>
    decreases t.len() - p, 0int,
{
    if !(0 <= p < t.len()) {
        None
    } else {
        match t[p] {
            SToken::Number(n) => Some((bnode(SExprKind::Num(n)), p + 1)),
            SToken::Ident(s) => Some((bnode(SExprKind::Ident(s)), p + 1)),
            SToken::LParen => match b_expr(t, p + 1) {
                None => None,
                Some((e, q)) => if q <= p || !b_at(t, q, SToken::RParen) {
                    None
                } else {
                    Some((e, q + 1))
                },
            },
            _ => None,
        }
    }
}

/// The `*` and `/` that follow `left`, folded to the left.
pub open spec fn b_tern_loop(t: Seq<SToken>, left: SExpr, p: int) -> Option<(SExpr, int)>
    decreases t.len() - p, 1int,
{
    if 0 <= p < t.len() && (t[p] is Star || t[p] is Slash) {
        let op = if t[p] is Star { BinOp::Star } else { BinOp::Slash };
        match b_primary(t, p + 1) {
            None => None,
            Some((r, q)) => if q <= p || q > t.len() {
                None
            } else {
                b_tern_loop(t, bbin(op, left, r), q)
            },
        }
    } else {
        Some((left, p))
    }
}

/// A product: primaries joined by `*` and `/`.
pub open spec fn b_tern(t: Seq<SToken>, p: int) -> Option<(SExpr, int)>
    decreases t.len() - p, 2int,
{
    match b_primary(t, p) {
        None => None,
        Some((l, q)) => if q <= p || q > t.len() {
            None
        } else {
            b_tern_loop(t, l, q)
        },
    }
}

/// The `+` and `-` that follow `left`, folded to the left.
pub open spec fn b_expr_loop(t: Seq<SToken>, left: SExpr, p: int) -> Option<(SExpr, int)>
    decreases t.len() - p, 3int,
{
    if 0 <= p < t.len() && (t[p] is Plus || t[p] is Minus) {
        let op = if t[p] is Plus { BinOp::Plus } else { BinOp::Minus };
        match b_tern(t, p + 1) {
            None => None,
            Some((r, q)) => if q <= p || q > t.len() {
                None
            } else {
                b_expr_loop(t, bbin(op, left, r), q)
            },
        }
    } else {
        Some((left, p))
    }
}

/// A sum: products joined by `+` and `-`.
pub open spec fn b_expr(t: Seq<SToken>, p: int) -> Option<(SExpr, int)>
    decreases t.len() - p, 4int,
{
    match b_tern(t, p) {
        None => None,
        Some((l, q)) => if q < p || q > t.len() {
            None
        } else {
            b_expr_loop(t, l, q)
        },
    }
}

/// A statement without a position.
pub open spec fn bstmt(k: SStmtKind) -> SStmt {
    SStmt { kind: k, span: Span::default_spec() }
}

/// `var name = e;` (an assignment) or `ver name = e;` (a mutable declaration).
pub open spec fn b_var_decl(t: Seq<SToken>, p: int) -> Option<(SStmt, int)> {
    if !(0 <= p && p + 1 < t.len()) {
        None
    } else {
        match t[p + 1] {
            SToken::Ident(name) => if !b_at(t, p + 2, SToken::Assign) {
                None
            } else {
                match b_expr(t, p + 3) {
                    None => None,
                    Some((v, q)) => if q < p + 3 || !b_at(t, q, SToken::Semicolon) {
                        None
                    } else if t[p] is Var {
                        Some((bstmt(SStmtKind::Assign { name, value: v }), q + 1))
                    } else if t[p] is Ver {
                        Some((bstmt(SStmtKind::VerDecl { name, value: v, mutable: true }), q + 1))
                    } else {
                        None
                    },
                }
            },
            _ => None,
        }
    }
}

/// `print(e);`
pub open spec fn b_print(t: Seq<SToken>, p: int) -> Option<(SStmt, int)> {
    if !(0 <= p) || !b_at(t, p + 1, SToken::LParen) {
        None
    } else {
        match b_expr(t, p + 2) {
            None => None,
            Some((e, q)) => if q < p + 2 || !b_at(t, q, SToken::RParen) || !b_at(t, q + 1, SToken::Semicolon) {
                None
            } else {
                Some((bstmt(SStmtKind::Print(e)), q + 2))
            },
        }
    }
}

/// `name = e;`
pub open spec fn b_assign(t: Seq<SToken>, p: int) -> Option<(SStmt, int)> {
    if !(0 <= p < t.len()) || !b_at(t, p + 1, SToken::Assign) {
        None
    } else {
        match t[p] {
            SToken::Ident(name) => match b_expr(t, p + 2) {
                None => None,
                Some((v, q)) => if q < p + 2 || !b_at(t, q, SToken::Semicolon) {
                    None
                } else {
                    Some((bstmt(SStmtKind::Assign { name, value: v }), q + 1))
                },
            },
            _ => None,
        }
    }
}

/// A statement, chosen by its first token.
pub open spec fn b_stmt(t: Seq<SToken>, p: int) -> Option<(SStmt, int)> {
    if !(0 <= p < t.len()) {
        None
    } else {
        match t[p] {
            SToken::Var => b_var_decl(t, p),
            SToken::Ver => b_var_decl(t, p),
            SToken::Ident(name) => if name == "print"@ { b_print(t, p) } else { b_assign(t, p) },
            _ => None,
        }
    }
}

/// The statements from `p` on, after those in `acc`.
pub open spec fn b_program(t: Seq<SToken>, acc: Seq<SStmt>, p: int) -> Option<Seq<SStmt>>
    decreases t.len() - p,
{
    if !(0 <= p < t.len()) {
        Some(acc)
    } else {
        match b_stmt(t, p) {
            None => None,
            Some((s, q)) => if q <= p {
                None
            } else {
                b_program(t, acc.push(s), q)
            },
        }
    }
}

/// A parser for declarations, assignments and `print` over tokens without
/// positions; its nodes carry the default span.
pub struct Parser {
    tokens: Vec<Token>,
    pos: usize,
}

/// An expression node with the default span.
fn enode(kind: ExprKind) -> (r: Expr)
    ensures
        r.kind == kind,
        r.span == Span::default_spec(),
{
    Node { kind, span: Span::default_value() }
}

/// A statement node with the default span.
fn snode(kind: StmtKind) -> (r: Stmt)
    ensures
        r.kind == kind,
        r.span == Span::default_spec(),
{
    Node { kind, span: Span::default_value() }
}

impl Parser {
    #[verifier::type_invariant]
    spec fn inv(self) -> bool {
        self.pos <= self.tokens@.len()
    }

    /// The tokens being parsed.
    pub closed spec fn toks(&self) -> Seq<SToken> {
        basic_toks(self.tokens@)
    }

    /// The index of the next token to read.
    pub closed spec fn at_pos(&self) -> int {
        self.pos as int
    }

    /// A parser at the start of `token`.
    pub fn new(token: Vec<Token>) -> (r: Self)
        ensures
            r.toks() == basic_toks(token@),
            r.at_pos() == 0,
    {
        Parser { tokens: token, pos: 0 }
    }

    /// The current token.
    fn peek(&self) -> (r: Option<&Token>)
        ensures
            match r {
                Some(t) => self.pos < self.tokens@.len() && t@ == self.toks()[self.pos as int],
                None => self.pos >= self.tokens@.len(),
            },
    {
        if self.pos < self.tokens.len() {
            Some(&self.tokens[self.pos])
        } else {
            None
        }
    }

    /// Steps over the current token and hands it out; at the end it stays
    /// and hands out the last token again.
    fn advance(&mut self) -> (r: Option<Token>)
        ensures
            final(self).tokens@ == old(self).tokens@,
            final(self).pos == (if old(self).pos < old(self).tokens@.len() { old(self).pos + 1 } else { old(self).pos as int }),
            match r {
                Some(t) => final(self).pos >= 1 && t@ == old(self).toks()[final(self).pos - 1],
                None => final(self).pos == 0,
            },
    {
        proof { use_type_invariant(&*self); }
        if self.pos < self.tokens.len() {
            self.pos = self.pos + 1;
        }
        if self.pos == 0 {
            None
        } else {
            Some(self.tokens[self.pos - 1].dup())
        }
    }

    /// Steps over the current token if it is of the kind of `token`.
    fn match_token(&mut self, token: &Token) -> (r: bool)
        ensures
            final(self).tokens@ == old(self).tokens@,
            r == b_at(old(self).toks(), old(self).pos as int, token@),
            final(self).pos == (if r { old(self).pos + 1 } else { old(self).pos as int }),
    {
        proof { use_type_invariant(&*self); }
        let hit = match self.peek() {
            Some(current) => current.same_kind_as(token),
            None => false,
        };
        if hit {
            self.advance();
        }
        hit
    }

    /// `match_token`, telling whether the token was there.
    fn expect(&mut self, token: &Token) -> (r: bool)
        ensures
            final(self).tokens@ == old(self).tokens@,
            r == b_at(old(self).toks(), old(self).pos as int, token@),
            final(self).pos == (if r { old(self).pos + 1 } else { old(self).pos as int }),
    {
        self.match_token(token)
    }

    /// The statements from the current position to the end; the tokens must
    /// parse (`parse_checked` tells whether they do).
    pub fn parse(&mut self) -> (r: Vec<Stmt>)
        requires
            b_program(old(self).toks(), Seq::empty(), old(self).at_pos()) is Some,
        ensures
            b_program(old(self).toks(), Seq::empty(), old(self).at_pos()) == Some(stmts_view(r@)),
    {
        match self.parse_checked() {
            Some(v) => v,
            None => Vec::new(),
        }
    }

    /// The statements from the current position to the end, or `None` where
    /// the tokens do not parse.
    pub fn parse_checked(&mut self) -> (r: Option<Vec<Stmt>>)
        ensures
            match r {
                Some(v) => b_program(old(self).toks(), Seq::empty(), old(self).at_pos()) == Some(stmts_view(v@)),
                None => b_program(old(self).toks(), Seq::empty(), old(self).at_pos()) is None,
            },
    {
        proof { use_type_invariant(&*self); }
        let ghost t = self.toks();
        let ghost p0 = self.pos as int;
        let mut stmts: Vec<Stmt> = Vec::new();
        assert(stmts_view(stmts@) =~= Seq::<SStmt>::empty());
        while self.peek().is_some()
            invariant
                self.toks() == t,
                t == old(self).toks(),
                p0 == old(self).pos,
                self.pos <= self.tokens@.len(),
                t.len() == self.tokens@.len(),
                b_program(t, Seq::empty(), p0) == b_program(t, stmts_view(stmts@), self.pos as int),
            decreases self.tokens@.len() - self.pos,
        {
            let p = self.pos;
            let s = match self.parse_stmt() {
                Some(s) => s,
                None => {
                    return None;
                },
            };
            proof {
                use_type_invariant(&*self);
                lemma_stmts_view_push(stmts@, s);
            }
            if self.pos <= p {
                return None;
            }
            stmts.push(s);
        }
        Some(stmts)
    }

    /// One statement, chosen by its first token.
    fn parse_stmt(&mut self) -> (r: Option<Stmt>)
        requires
            old(self).pos < old(self).tokens@.len(),
        ensures
            final(self).tokens@ == old(self).tokens@,
            match r {
                Some(s) => b_stmt(old(self).toks(), old(self).pos as int) == Some((stmt_view(s), final(self).pos as int)),
                None => b_stmt(old(self).toks(), old(self).pos as int) is None,
            },
    {
        proof { use_type_invariant(&*self); }
        let print = String::from_str("print");
        let choice: u8 = match self.peek() {
            Some(Token::Var) => 0,
            Some(Token::Ver) => 0,
            Some(Token::Ident(name)) => if *name == print { 1 } else { 2 },
            _ => 3,
        };
        if choice == 0 {
            self.parse_var_decl()
        } else if choice == 1 {
            self.parse_print()
        } else if choice == 2 {
            self.parse_assign()
        } else {
            None
        }
    }

    /// `var name = e;` or `ver name = e;`.
    fn parse_var_decl(&mut self) -> (r: Option<Stmt>)
        requires
            old(self).pos < old(self).tokens@.len(),
            old(self).toks()[old(self).pos as int] is Var || old(self).toks()[old(self).pos as int] is Ver,
        ensures
            final(self).tokens@ == old(self).tokens@,
            match r {
                Some(s) => b_var_decl(old(self).toks(), old(self).pos as int) == Some((stmt_view(s), final(self).pos as int)),
                None => b_var_decl(old(self).toks(), old(self).pos as int) is None,
            },
    {
        proof { use_type_invariant(&*self); }
        let ghost t = self.toks();
        let ghost p = self.pos as int;
        let kind = match self.advance() {
            Some(k) => k,
            None => {
                return None;
            },
        };
        if self.pos >= self.tokens.len() {
            return None;
        }
        let name = match self.advance() {
            Some(Token::Ident(name)) => name,
            _ => {
                return None;
            },
        };
        if !self.expect(&Token::Assign) {
            return None;
        }
        let ghost p3 = self.pos as int;
        let value = match self.parse_expr() {
            Some(v) => v,
            None => {
                return None;
            },
        };
        if !self.expect(&Token::Semicolon) {
            return None;
        }
        let ghost vv = expr_view(value);
        match kind {
            Token::Var => {
                let s = snode(StmtKind::Assign { name, value });
                assert(stmt_view(s) == bstmt(SStmtKind::Assign { name: name@, value: vv }));
                Some(s)
            },
            _ => {
                let s = snode(StmtKind::VerDecl { name, value, mutable: true });
                assert(stmt_view(s) == bstmt(SStmtKind::VerDecl { name: name@, value: vv, mutable: true }));
                Some(s)
            },
        }
    }

    /// `print(e);`
    fn parse_print(&mut self) -> (r: Option<Stmt>)
        requires
            old(self).pos < old(self).tokens@.len(),
        ensures
            final(self).tokens@ == old(self).tokens@,
            match r {
                Some(s) => b_print(old(self).toks(), old(self).pos as int) == Some((stmt_view(s), final(self).pos as int)),
                None => b_print(old(self).toks(), old(self).pos as int) is None,
            },
    {
        proof { use_type_invariant(&*self); }
        self.advance();
        if !self.expect(&Token::LParen) {
            return None;
        }
        let expr = match self.parse_expr() {
            Some(e) => e,
            None => {
                return None;
            },
        };
        if !self.expect(&Token::RParen) {
            return None;
        }
        if !self.expect(&Token::Semicolon) {
            return None;
        }
        let ghost ev = expr_view(expr);
        let s = snode(StmtKind::Print(expr));
        assert(stmt_view(s) == bstmt(SStmtKind::Print(ev)));
        Some(s)
    }

    /// A sum: products joined by `+` and `-`.
    fn parse_expr(&mut self) -> (r: Option<Expr>)
        ensures
            final(self).tokens@ == old(self).tokens@,
            match r {
                Some(e) => b_expr(old(self).toks(), old(self).pos as int) == Some((expr_view(e), final(self).pos as int))
                    && final(self).pos >= old(self).pos,
                None => b_expr(old(self).toks(), old(self).pos as int) is None,
            },
        decreases old(self).tokens@.len() - old(self).pos, 4int,
    {
        proof { use_type_invariant(&*self); }
        let ghost t = self.toks();
        let ghost p0 = self.pos as int;
        let mut left = match self.parse_tern() {
            Some(l) => l,
            None => {
                return None;
            },
        };
        proof { use_type_invariant(&*self); }
        loop
            invariant
                self.toks() == t,
                self.tokens@.len() == t.len(),
                t == old(self).toks(),
                p0 == old(self).pos,
                self.tokens@ == old(self).tokens@,
                p0 <= self.pos <= t.len(),
                b_expr(t, p0) == b_expr_loop(t, expr_view(left), self.pos as int),
            decreases t.len() - self.pos,
        {
            let op = match self.peek() {
                Some(Token::Plus) => BinOp::Plus,
                Some(Token::Minus) => BinOp::Minus,
                _ => {
                    return Some(left);
                },
            };
            let ghost p = self.pos as int;
            self.advance();
            let right = match self.parse_tern() {
                Some(r) => r,
                None => {
                    return None;
                },
            };
            proof { use_type_invariant(&*self); }
            let ghost lv = expr_view(left);
            let ghost rv = expr_view(right);
            let kind = if op == BinOp::Plus {
                ExprKind::Plus(Box::new(left), Box::new(right))
            } else {
                ExprKind::Minus(Box::new(left), Box::new(right))
            };
            left = enode(kind);
            assert(expr_view(left) == bbin(op, lv, rv));
        }
    }

    /// Name, `=`, expression and `;`.
    fn parse_assign(&mut self) -> (r: Option<Stmt>)
        requires
            old(self).pos < old(self).tokens@.len(),
        ensures
            final(self).tokens@ == old(self).tokens@,
            match r {
                Some(s) => b_assign(old(self).toks(), old(self).pos as int) == Some((stmt_view(s), final(self).pos as int)),
                None => b_assign(old(self).toks(), old(self).pos as int) is None,
            },
    {
        proof { use_type_invariant(&*self); }
        let name = match self.advance() {
            Some(Token::Ident(name)) => name,
            _ => {
                return None;
            },
        };
        if !self.expect(&Token::Assign) {
            return None;
        }
        let value = match self.parse_expr() {
            Some(v) => v,
            None => {
                return None;
            },
        };
        if !self.expect(&Token::Semicolon) {
            return None;
        }
        let ghost vv = expr_view(value);
        let s = snode(StmtKind::Assign { name, value });
        assert(stmt_view(s) == bstmt(SStmtKind::Assign { name: name@, value: vv }));
        Some(s)
    }

    /// A product: primaries joined by `*` and `/`.
    fn parse_tern(&mut self) -> (r: Option<Expr>)
        ensures
            final(self).tokens@ == old(self).tokens@,
            match r {
                Some(e) => b_tern(old(self).toks(), old(self).pos as int) == Some((expr_view(e), final(self).pos as int))
                    && final(self).pos > old(self).pos,
                None => b_tern(old(self).toks(), old(self).pos as int) is None,
            },
        decreases old(self).tokens@.len() - old(self).pos, 2int,
    {
        proof { use_type_invariant(&*self); }
        let ghost t = self.toks();
        let ghost p0 = self.pos as int;
        let mut left = match self.parse_primary() {
            Some(l) => l,
            None => {
                return None;
            },
        };
        proof { use_type_invariant(&*self); }
        loop
            invariant
                self.toks() == t,
                self.tokens@.len() == t.len(),
                t == old(self).toks(),
                p0 == old(self).pos,
                self.tokens@ == old(self).tokens@,
                p0 < self.pos <= t.len(),
                b_tern(t, p0) == b_tern_loop(t, expr_view(left), self.pos as int),
            decreases t.len() - self.pos,
        {
            let op = match self.peek() {
                Some(Token::Star) => BinOp::Star,
                Some(Token::Slash) => BinOp::Slash,
                _ => {
                    return Some(left);
                },
            };
            self.advance();
            let right = match self.parse_primary() {
                Some(r) => r,
                None => {
                    return None;
                },
            };
            proof { use_type_invariant(&*self); }
            let ghost lv = expr_view(left);
            let ghost rv = expr_view(right);
            let kind = if op == BinOp::Star {
                ExprKind::Star(Box::new(left), Box::new(right))
            } else {
                ExprKind::Slash(Box::new(left), Box::new(right))
            };
            left = enode(kind);
            assert(expr_view(left) == bbin(op, lv, rv));
        }
    }

    /// A number, a name, or an expression in parentheses.
    fn parse_primary(&mut self) -> (r: Option<Expr>)
        ensures
            final(self).tokens@ == old(self).tokens@,
            match r {
                Some(e) => b_primary(old(self).toks(), old(self).pos as int) == Some((expr_view(e), final(self).pos as int))
                    && final(self).pos > old(self).pos,
                None => b_primary(old(self).toks(), old(self).pos as int) is None,
            },
        decreases old(self).tokens@.len() - old(self).pos, 0int,
    {
        proof { use_type_invariant(&*self); }
        if self.pos >= self.tokens.len() {
            return None;
        }
        match self.advance() {
            Some(Token::Number(n)) => Some(enode(ExprKind::Num(n))),
            Some(Token::Ident(name)) => Some(enode(ExprKind::Ident(name))),
            Some(Token::LParen) => {
                let expr = match self.parse_expr() {
                    Some(e) => e,
                    None => {
                        return None;
                    },
                };
                if !self.expect(&Token::RParen) {
                    return None;
                }
                Some(expr)
            },
            _ => None,
        }
    }
}

} // verus!
