use vstd::prelude::*;
use crate::ast::{BinOp, SExpr, SExprKind, SStmt, SStmtKind, StepOp};
use crate::errors::{SExpressionError, SKind, SParseError, STokensError};
use crate::positions::Span;
use crate::token::{SToken, STokenPos, same_kind};

verus! {

/// The outcome of parsing from a position: the result and the position after it, or an error.
pub type PRes<T> = Result<(T, int), SParseError>;

/// An error of the given kind at the given span.
pub open spec fn perr(kind: SKind, span: Span) -> SParseError {
    SParseError { kind, span }
}

/// The error for input that ends too early.
pub open spec fn eof_err() -> SParseError {
    perr(SKind::Tokens(STokensError::UnexpectedEOF), Span::default_spec())
}

/// The span from the start of `a` to the end of `b`.
pub open spec fn merge(a: Span, b: Span) -> Span {
    Span { start: a.start, end: b.end }
}

/// Whether the token at `p` is of the kind of `k`.
pub open spec fn at(t: Seq<STokenPos>, p: int, k: SToken) -> bool {
    0 <= p < t.len() && same_kind(t[p].token, k)
}

/// The position after `advance`: it moves by one unless it stands at the end.
pub open spec fn adv(t: Seq<STokenPos>, p: int) -> int {
    if p < t.len() { p + 1 } else { p }
}

/// The token that `advance` hands out: the one it stepped over, or at the end
/// the last token again.
pub open spec fn adv_tok(t: Seq<STokenPos>, p: int) -> STokenPos {
    t[adv(t, p) - 1]
}

/// `expect`: the token at `p` if it is of the kind of `k`.
pub open spec fn p_expect(t: Seq<STokenPos>, p: int, k: SToken) -> PRes<STokenPos> {
    if at(t, p, k) {
        Ok((t[p], p + 1))
    } else if 0 <= p < t.len() {
        Err(perr(SKind::Tokens(STokensError::ExpectedToken(k, t[p].token)), t[p].position))
    } else {
        Err(eof_err())
    }
}

/// `expect_ident`: an identifier's name and span.
pub open spec fn p_ident(t: Seq<STokenPos>, p: int) -> PRes<(Seq<char>, Span)> {
    let tk = adv_tok(t, p);
    match tk.token {
        SToken::Ident(n) => Ok(((n, tk.position), adv(t, p))),
        other => Err(perr(
            SKind::Tokens(STokensError::ExpectedToken(SToken::Ident(Seq::empty()), other)),
            tk.position,
        )),
    }
}

/// The binary operator that a token stands for at a precedence level
/// (1: `*` `/`, 2: `+` `-`, 3: `<` `<=` `>` `>=`, 4: `==` `!=`).
pub open spec fn op_of(lvl: nat, tok: SToken) -> Option<BinOp> {
    match tok {
        SToken::Star => if lvl == 1 { Some(BinOp::Star) } else { None },
        SToken::Slash => if lvl == 1 { Some(BinOp::Slash) } else { None },
        SToken::Plus => if lvl == 2 { Some(BinOp::Plus) } else { None },
        SToken::Minus => if lvl == 2 { Some(BinOp::Minus) } else { None },
        SToken::Less => if lvl == 3 { Some(BinOp::Less) } else { None },
        SToken::LessEqual => if lvl == 3 { Some(BinOp::LessEqual) } else { None },
        SToken::Greater => if lvl == 3 { Some(BinOp::Greater) } else { None },
        SToken::GreaterEqual => if lvl == 3 { Some(BinOp::GreaterEqual) } else { None },
        SToken::Equal => if lvl == 4 { Some(BinOp::EqualEqual) } else { None },
        SToken::NotEqual => if lvl == 4 { Some(BinOp::NotEqual) } else { None },
        _ => None,
    }
}

/// A binary node over two operands.
pub open spec fn bin(op: BinOp, l: SExpr, r: SExpr) -> SExpr {
    SExpr { kind: SExprKind::Bin(op, Box::new(l), Box::new(r)), span: merge(l.span, r.span) }
}

/// An expression at a precedence level (0 is a unary expression, 4 a whole
/// expression); operators of one level associate to the left.
pub open spec fn p_level(t: Seq<STokenPos>, lvl: nat, p: int) -> PRes<SExpr>
    decreases t.len() - p, 2 * lvl + 4,
{
    if !(0 <= p <= t.len()) || t.len() == 0 {
        Err(eof_err())
    } else if lvl == 0 {
        p_unary(t, p)
    } else {
        match p_level(t, (lvl - 1) as nat, p) {
            Err(e) => Err(e),
            Ok((l, q)) => if q < p || q > t.len() {
                Err(eof_err())
            } else {
                p_loop(t, lvl, l, q)
            },
        }
    }
}

/// The operators of level `lvl` that follow `left`, folded to the left.
pub open spec fn p_loop(t: Seq<STokenPos>, lvl: nat, left: SExpr, p: int) -> PRes<SExpr>
    decreases t.len() - p, 2 * lvl + 3,
{
    if !(0 <= p <= t.len()) || lvl == 0 {
        Err(eof_err())
    } else if p < t.len() && op_of(lvl, t[p].token) is Some {
        let op = op_of(lvl, t[p].token)->0;
        match p_level(t, (lvl - 1) as nat, p + 1) {
            Err(e) => Err(e),
            Ok((r, q)) => if q <= p || q > t.len() {
                Err(eof_err())
            } else {
                p_loop(t, lvl, bin(op, left, r), q)
            },
        }
    } else {
        Ok((left, p))
    }
}

/// The message of a misplaced prefix or postfix operator.
pub open spec fn step_message(op: StepOp) -> Seq<char> {
    match op {
        StepOp::PreInc => "Префикс ++ только для переменных"@,
        StepOp::PreDec => "Префикс -- только для переменных"@,
        StepOp::PostInc => "Постфикс ++ можно применять только к переменным"@,
        StepOp::PostDec => "Постфикс -- можно применять только к переменным"@,
    }
}

/// A prefix `++`/`--` followed by a primary expression, or a primary
/// expression followed by any number of postfix `++`/`--`.
pub open spec fn p_unary(t: Seq<STokenPos>, p: int) -> PRes<SExpr>
    decreases t.len() - p, 3int,
{
    if !(0 <= p <= t.len()) || t.len() == 0 {
        Err(eof_err())
    } else if at(t, p, SToken::PlusPlus) || at(t, p, SToken::MinusMinus) {
        let op = if at(t, p, SToken::PlusPlus) { StepOp::PreInc } else { StepOp::PreDec };
        let position = t[p].position;
        match p_primary(t, p + 1) {
            Err(e) => Err(e),
            Ok((e, q)) => match e.kind {
                SExprKind::Ident(name) => Ok((SExpr { kind: SExprKind::Step(op, name), span: merge(position, e.span) }, q)),
                _ => Err(perr(
                    SKind::ExprError(SExpressionError::InvalidPrefixOperator(step_message(op))),
                    Span { start: position.start, end: e.span.end },
                )),
            },
        }
    } else {
        match p_primary(t, p) {
            Err(e) => Err(e),
            Ok((e, q)) => if q < p || q > t.len() {
                Err(eof_err())
            } else {
                p_postfix(t, e, q)
            },
        }
    }
}

/// Postfix `++`/`--` after `e`.
pub open spec fn p_postfix(t: Seq<STokenPos>, e: SExpr, p: int) -> PRes<SExpr>
    decreases t.len() - p, 2int,
{
    if !(0 <= p <= t.len()) {
        Err(eof_err())
    } else if at(t, p, SToken::PlusPlus) || at(t, p, SToken::MinusMinus) {
        let op = if at(t, p, SToken::PlusPlus) { StepOp::PostInc } else { StepOp::PostDec };
        let position = t[p].position;
        match e.kind {
            SExprKind::Ident(name) => p_postfix(
                t,
                SExpr { kind: SExprKind::Step(op, name), span: merge(e.span, position) },
                p + 1,
            ),
            _ => Err(perr(
                SKind::ExprError(SExpressionError::InvalidPostfixOperator(step_message(op))),
                Span { start: e.span.start, end: position.end },
            )),
        }
    } else {
        Ok((e, p))
    }
}

/// A number, a string, a variable, a call, or an expression in parentheses.
pub open spec fn p_primary(t: Seq<STokenPos>, p: int) -> PRes<SExpr>
    decreases t.len() - p, 1int,
{
    if !(0 <= p <= t.len()) || t.len() == 0 {
        Err(eof_err())
    } else {
        let tk = adv_tok(t, p);
        let q = adv(t, p);
        match tk.token {
            SToken::Number(n) => Ok((SExpr { kind: SExprKind::Num(n), span: tk.position }, q)),
            SToken::Str(s) => Ok((SExpr { kind: SExprKind::Str(s), span: tk.position }, q)),
            SToken::Ident(name) => if at(t, q, SToken::LParen) {
                match p_args(t, Seq::empty(), q + 1) {
                    Err(e) => Err(e),
                    Ok((args, r)) => if r < q + 1 || r > t.len() {
                        Err(eof_err())
                    } else {
                        match p_expect(t, r, SToken::RParen) {
                            Err(e) => Err(e),
                            Ok((rp, s)) => Ok((
                                SExpr {
                                    kind: SExprKind::Call {
                                        call: Box::new(SExpr { kind: SExprKind::Ident(name), span: tk.position }),
                                        args,
                                    },
                                    span: merge(tk.position, rp.position),
                                },
                                s,
                            )),
                        }
                    },
                }
            } else {
                Ok((SExpr { kind: SExprKind::Ident(name), span: tk.position }, q))
            },
            SToken::LParen => if q == p {
                Err(eof_err())
            } else {
                match p_level(t, 4, q) {
                    Err(e) => Err(e),
                    Ok((e, r)) => if r < q || r > t.len() {
                        Err(eof_err())
                    } else {
                        match p_expect(t, r, SToken::RParen) {
                            Err(err) => Err(err),
                            Ok((rp, s)) => Ok((SExpr { kind: e.kind, span: merge(tk.position, rp.position) }, s)),
                        }
                    },
                }
            },
            other => Err(perr(SKind::ExprError(SExpressionError::InvalidPrimary(other)), tk.position)),
        }
    }
}

/// The arguments of a call, up to (not including) the closing parenthesis.
pub open spec fn p_args(t: Seq<STokenPos>, acc: Seq<SExpr>, p: int) -> PRes<Seq<SExpr>>
    decreases t.len() - p, 20int,
{
    if !(0 <= p <= t.len()) || t.len() == 0 {
        Err(eof_err())
    } else if at(t, p, SToken::RParen) {
        Ok((acc, p))
    } else {
        match p_level(t, 4, p) {
            Err(e) => Err(e),
            Ok((e, q)) => if q < p || q > t.len() {
                Err(eof_err())
            } else if at(t, q, SToken::Comma) {
                p_args(t, acc.push(e), q + 1)
            } else {
                Ok((acc.push(e), q))
            },
        }
    }
}

/// A statement node.
pub open spec fn mk_stmt(kind: SStmtKind, span: Span) -> SStmt {
    SStmt { kind, span }
}

/// The name of the module file that `use name` loads.
pub open spec fn module_file(name: Seq<char>) -> Seq<char> {
    name + ".dr"@
}

/// A statement.
pub open spec fn p_stmt(t: Seq<STokenPos>, p: int) -> PRes<SStmt>
    decreases t.len() - p, 49int,
{
    if !(0 <= p < t.len()) {
        Err(eof_err())
    } else {
        match t[p].token {
            SToken::If => p_if(t, p),
            SToken::While => p_while(t, p),
            SToken::For => p_for(t, p),
            SToken::Fun => p_fun(t, p),
            SToken::Return => p_return(t, p),
            SToken::Var => p_var_decl(t, p),
            SToken::Ver => p_var_decl(t, p),
            SToken::Ident(_) => if at(t, p + 1, SToken::Assign) {
                p_assign(t, p)
            } else {
                match p_level(t, 4, p) {
                    Err(e) => Err(e),
                    Ok((e, q)) => match p_expect(t, q, SToken::Semicolon) {
                        Err(err) => Err(err),
                        Ok((_, r)) => Ok((mk_stmt(SStmtKind::Expr(e), e.span), r)),
                    },
                }
            },
            SToken::Use => p_use(t, p),
            other => Err(perr(SKind::Tokens(STokensError::UnexpectedToken(other)), t[p].position)),
        }
    }
}

/// `use name.dr;`
pub open spec fn p_use(t: Seq<STokenPos>, p: int) -> PRes<SStmt>
    decreases t.len() - p, 48int,
{
    match p_expect(t, p, SToken::Use) {
        Err(e) => Err(e),
        Ok((start, q)) => {
            let file = adv_tok(t, q);
            let q2 = adv(t, adv(t, q));
            match file.token {
                SToken::Ident(name) => match p_expect(t, q2, SToken::Semicolon) {
                    Err(e) => Err(e),
                    Ok((end, r)) => Ok((mk_stmt(SStmtKind::Use(module_file(name)), merge(start.position, end.position)), r)),
                },
                other => Err(perr(
                    SKind::Tokens(STokensError::ExpectedToken(SToken::Ident(Seq::empty()), other)),
                    file.position,
                )),
            }
        },
    }
}

/// `var name = e;` (an assignment) or `ver name = e;` (a mutable declaration).
pub open spec fn p_var_decl(t: Seq<STokenPos>, p: int) -> PRes<SStmt>
    decreases t.len() - p, 48int,
{
    if !(0 <= p <= t.len()) || t.len() == 0 {
        Err(eof_err())
    } else {
        let tk = adv_tok(t, p);
        let q = adv(t, p);
        match tk.token {
            SToken::Var => p_binding(t, q, tk.position, false),
            SToken::Ver => p_binding(t, q, tk.position, true),
            other => Err(perr(SKind::Tokens(STokensError::UnexpectedToken(other)), tk.position)),
        }
    }
}

/// `name = e;` after `var` (`declare` false) or `ver` (`declare` true).
pub open spec fn p_binding(t: Seq<STokenPos>, p: int, start: Span, declare: bool) -> PRes<SStmt>
    decreases t.len() - p, 47int,
{
    match p_ident(t, p) {
        Err(e) => Err(e),
        Ok(((name, _), q)) => match p_expect(t, q, SToken::Assign) {
            Err(e) => Err(e),
            Ok((_, q2)) => if q2 <= p {
                Err(eof_err())
            } else {
                match p_level(t, 4, q2) {
                    Err(e) => Err(e),
                    Ok((value, q3)) => match p_expect(t, q3, SToken::Semicolon) {
                        Err(e) => Err(e),
                        Ok((semi, r)) => Ok((
                            mk_stmt(
                                if declare {
                                    SStmtKind::VerDecl { name, value, mutable: true }
                                } else {
                                    SStmtKind::Assign { name, value }
                                },
                                merge(start, semi.position),
                            ),
                            r,
                        )),
                    },
                }
            },
        },
    }
}

/// `name = e;`
pub open spec fn p_assign(t: Seq<STokenPos>, p: int) -> PRes<SStmt>
    decreases t.len() - p, 48int,
{
    match p_ident(t, p) {
        Err(e) => Err(e),
        Ok(((name, start), q)) => match p_expect(t, q, SToken::Assign) {
            Err(e) => Err(e),
            Ok((_, q2)) => if q2 <= p {
                Err(eof_err())
            } else {
                match p_level(t, 4, q2) {
                    Err(e) => Err(e),
                    Ok((value, q3)) => match p_expect(t, q3, SToken::Semicolon) {
                        Err(e) => Err(e),
                        Ok((end, r)) => Ok((mk_stmt(SStmtKind::Assign { name, value }, merge(start, end.position)), r)),
                    },
                }
            },
        },
    }
}

/// The parameter names of a function, up to the closing parenthesis.
pub open spec fn p_params(t: Seq<STokenPos>, acc: Seq<Seq<char>>, p: int) -> PRes<Seq<Seq<char>>>
    decreases t.len() - p,
{
    if !(0 <= p <= t.len()) || t.len() == 0 {
        Err(eof_err())
    } else {
        match p_ident(t, p) {
            Err(e) => Err(e),
            Ok(((name, _), q)) => if q == p {
                Err(eof_err())
            } else {
                let q2 = if at(t, q, SToken::Comma) { q + 1 } else { q };
                if at(t, q2, SToken::RParen) {
                    Ok((acc.push(name), q2))
                } else {
                    p_params(t, acc.push(name), q2)
                }
            },
        }
    }
}

/// `fun name(params) { body }`
pub open spec fn p_fun(t: Seq<STokenPos>, p: int) -> PRes<SStmt>
    decreases t.len() - p, 48int,
{
    match p_expect(t, p, SToken::Fun) {
        Err(e) => Err(e),
        Ok((start, q)) => match p_ident(t, q) {
            Err(e) => Err(e),
            Ok(((name, _), q2)) => match p_expect(t, q2, SToken::LParen) {
                Err(e) => Err(e),
                Ok((_, q3)) => {
                    let params = if at(t, q3, SToken::RParen) {
                        Ok((Seq::<Seq<char>>::empty(), q3))
                    } else {
                        p_params(t, Seq::empty(), q3)
                    };
                    match params {
                        Err(e) => Err(e),
                        Ok((params, q4)) => match p_expect(t, q4, SToken::RParen) {
                            Err(e) => Err(e),
                            Ok((_, q5)) => match p_expect(t, q5, SToken::LBrace) {
                                Err(e) => Err(e),
                                Ok((_, q6)) => if q6 <= p {
                                    Err(eof_err())
                                } else {
                                    match p_block(t, Seq::empty(), q6) {
                                        Err(e) => Err(e),
                                        Ok((body, q7)) => match p_expect(t, q7, SToken::RBrace) {
                                            Err(e) => Err(e),
                                            Ok((end, r)) => Ok((
                                                mk_stmt(SStmtKind::Func { name, params, body }, merge(start.position, end.position)),
                                                r,
                                            )),
                                        },
                                    }
                                },
                            },
                        },
                    }
                },
            },
        },
    }
}

/// `return e;`
pub open spec fn p_return(t: Seq<STokenPos>, p: int) -> PRes<SStmt>
    decreases t.len() - p, 48int,
{
    match p_expect(t, p, SToken::Return) {
        Err(e) => Err(e),
        Ok((start, q)) => if q <= p {
            Err(eof_err())
        } else {
            match p_level(t, 4, q) {
                Err(e) => Err(e),
                Ok((e, q2)) => match p_expect(t, q2, SToken::Semicolon) {
                    Err(err) => Err(err),
                    Ok((end, r)) => Ok((mk_stmt(SStmtKind::Return(e), merge(start.position, end.position)), r)),
                },
            }
        },
    }
}

/// `{ statements }` as it follows a keyword: the opening brace, the block and the closing brace.
pub open spec fn p_braced(t: Seq<STokenPos>, p: int, floor: int) -> PRes<(Seq<SStmt>, STokenPos)>
    decreases t.len() - floor, 47int,
{
    if p <= floor {
        Err(eof_err())
    } else {
        match p_expect(t, p, SToken::LBrace) {
            Err(e) => Err(e),
            Ok((_, q)) => match p_block(t, Seq::empty(), q) {
                Err(e) => Err(e),
                Ok((body, q2)) => match p_expect(t, q2, SToken::RBrace) {
                    Err(e) => Err(e),
                    Ok((rb, r)) => Ok(((body, rb), r)),
                },
            },
        }
    }
}

/// `if cond { .. }` with an optional `else { .. }`.
pub open spec fn p_if(t: Seq<STokenPos>, p: int) -> PRes<SStmt>
    decreases t.len() - p, 48int,
{
    match p_expect(t, p, SToken::If) {
        Err(e) => Err(e),
        Ok((start, q)) => if q <= p {
            Err(eof_err())
        } else {
            match p_level(t, 4, q) {
                Err(e) => Err(e),
                Ok((cond, q2)) => match p_braced(t, q2, p) {
                    Err(e) => Err(e),
                    Ok(((then_branch, _), q3)) => {
                        let els = if at(t, q3, SToken::Else) {
                            match p_braced(t, q3 + 1, p) {
                                Err(e) => Err(e),
                                Ok(((b, _), r)) => Ok((Some(b), r)),
                            }
                        } else {
                            Ok((None, q3))
                        };
                        match els {
                            Err(e) => Err(e),
                            Ok((else_branch, r)) => {
                                let last = match else_branch {
                                    Some(b) => if b.len() > 0 { b.last().span } else { cond.span },
                                    None => if then_branch.len() > 0 { then_branch.last().span } else { cond.span },
                                };
                                Ok((mk_stmt(SStmtKind::If { cond, then_branch, else_branch }, merge(start.position, last)), r))
                            },
                        }
                    },
                },
            }
        },
    }
}

/// `while cond { body }`
pub open spec fn p_while(t: Seq<STokenPos>, p: int) -> PRes<SStmt>
    decreases t.len() - p, 48int,
{
    match p_expect(t, p, SToken::While) {
        Err(e) => Err(e),
        Ok((start, q)) => if q <= p {
            Err(eof_err())
        } else {
            match p_level(t, 4, q) {
                Err(e) => Err(e),
                Ok((cond, q2)) => match p_braced(t, q2, p) {
                    Err(e) => Err(e),
                    Ok(((body, rb), r)) => Ok((mk_stmt(SStmtKind::While { cond, body }, merge(start.position, rb.position)), r)),
                },
            }
        },
    }
}

/// The first part of a `for`: `name = e;`, a mutable declaration.
pub open spec fn p_for_init(t: Seq<STokenPos>, p: int) -> PRes<SStmt>
    decreases t.len() - p, 48int,
{
    match p_ident(t, p) {
        Err(e) => Err(e),
        Ok(((name, start), q)) => match p_expect(t, q, SToken::Assign) {
            Err(e) => Err(e),
            Ok((_, q2)) => if q2 <= p {
                Err(eof_err())
            } else {
                match p_level(t, 4, q2) {
                    Err(e) => Err(e),
                    Ok((value, q3)) => match p_expect(t, q3, SToken::Semicolon) {
                        Err(e) => Err(e),
                        Ok((end, r)) => Ok((
                            mk_stmt(SStmtKind::VerDecl { name, value, mutable: true }, merge(start, end.position)),
                            r,
                        )),
                    },
                }
            },
        },
    }
}

/// `for (name = e; cond; incr) { body }`, where `incr` may be left out.
pub open spec fn p_for(t: Seq<STokenPos>, p: int) -> PRes<SStmt>
    decreases t.len() - p, 48int,
{
    match p_expect(t, p, SToken::For) {
        Err(e) => Err(e),
        Ok((start, q)) => match p_expect(t, q, SToken::LParen) {
            Err(e) => Err(e),
            Ok((_, q2)) => if q2 <= p {
                Err(eof_err())
            } else {
                match p_for_init(t, q2) {
                    Err(e) => Err(e),
                    Ok((init, q3)) => if q3 <= p {
                        Err(eof_err())
                    } else {
                        match p_level(t, 4, q3) {
                            Err(e) => Err(e),
                            Ok((cond, q4)) => match p_expect(t, q4, SToken::Semicolon) {
                                Err(e) => Err(e),
                                Ok((_, q5)) => {
                                    let incr = if at(t, q5, SToken::RParen) {
                                        Ok((None, q5))
                                    } else if q5 <= p {
                                        Err(eof_err())
                                    } else {
                                        match p_level(t, 4, q5) {
                                            Err(e) => Err(e),
                                            Ok((e, r)) => Ok((Some(e), r)),
                                        }
                                    };
                                    match incr {
                                        Err(e) => Err(e),
                                        Ok((incr, q6)) => match p_expect(t, q6, SToken::RParen) {
                                            Err(e) => Err(e),
                                            Ok((_, q7)) => match p_braced(t, q7, p) {
                                                Err(e) => Err(e),
                                                Ok(((body, rb), r)) => Ok((
                                                    mk_stmt(
                                                        SStmtKind::For { init: Box::new(init), cond, incr, body },
                                                        merge(start.position, rb.position),
                                                    ),
                                                    r,
                                                )),
                                            },
                                        },
                                    }
                                },
                            },
                        }
                    },
                }
            },
        },
    }
}

/// The statements of a block, up to a closing brace or the end of the input.
pub open spec fn p_block(t: Seq<STokenPos>, acc: Seq<SStmt>, p: int) -> PRes<Seq<SStmt>>
    decreases t.len() - p, 50int,
{
    if !(0 <= p <= t.len()) {
        Err(eof_err())
    } else if p == t.len() || at(t, p, SToken::RBrace) {
        Ok((acc, p))
    } else {
        match p_stmt(t, p) {
            Err(e) => Err(e),
            Ok((s, q)) => if q <= p || q > t.len() {
                Err(eof_err())
            } else {
                p_block(t, acc.push(s), q)
            },
        }
    }
}

/// The statements of a whole program.
pub open spec fn p_program(t: Seq<STokenPos>, acc: Seq<SStmt>, p: int) -> Result<Seq<SStmt>, SParseError>
    decreases t.len() - p,
{
    if !(0 <= p < t.len()) {
        Ok(acc)
    } else {
        match p_stmt(t, p) {
            Err(e) => Err(e),
            Ok((s, q)) => if q <= p {
                Err(eof_err())
            } else {
                p_program(t, acc.push(s), q)
            },
        }
    }
}

/// The statements that a token sequence parses to, or the first error.
pub open spec fn parse_spec(t: Seq<STokenPos>) -> Result<Seq<SStmt>, SParseError> {
    p_program(t, Seq::empty(), 0)
}

} // verus!
