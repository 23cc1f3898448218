//! Laws of the lexer and the expression parser, stated over the characters
//! and tokens they read.

use vstd::prelude::*;
use crate::ast::{BinOp, SExpr, SExprKind};
use crate::lexer::{keyword, lex_from, lex_spec, lexeme_at, lexeme_len, word_end, Lexeme};
use crate::parse_spec::{at, bin, op_of, p_level, p_loop};
use crate::token::{same_kind, SToken, STokenPos};

verus! {

/// A character that may start an identifier: an ASCII letter or `_`.
pub open spec fn ident_start(c: char) -> bool {
    ('a' <= c && c <= 'z') || ('A' <= c && c <= 'Z') || c == '_'
}

/// A character that may continue an identifier: an ASCII letter, a digit or `_`.
pub open spec fn ident_char(c: char) -> bool {
    ident_start(c) || ('0' <= c && c <= '9')
}

proof fn lemma_word_runs_to(s: Seq<char>, k: int, j: int)
    requires
        0 <= k <= j <= s.len(),
        forall|m: int| k <= m < j ==> ident_char(#[trigger] s[m]),
        j == s.len() || !ident_char(s[j]),
    ensures
        word_end(s, k) == j,
    decreases j - k,
{
    if k < j {
        lemma_word_runs_to(s, k + 1, j);
    }
}

/// An identifier is a longest run of letters, digits and `_` that starts with
/// a letter or `_`: when that run is no keyword, the lexer reads all of it as
/// one identifier token, underscores and digits included.
pub proof fn law_identifier_lexeme(s: Seq<char>, i: int, j: int)
    requires
        0 <= i < j <= s.len(),
        ident_start(s[i]),
        forall|k: int| i < k < j ==> ident_char(#[trigger] s[k]),
        j == s.len() || !ident_char(s[j]),
        keyword(s.subrange(i, j)) is None,
    ensures
        lexeme_at(s, i) == Lexeme::Tok(SToken::Ident(s.subrange(i, j)), (j - i) as nat),
{
    assert forall|m: int| i <= m < j implies ident_char(#[trigger] s[m]) by {
        if m > i {
            assert(ident_char(s[m]));
        }
    }
    lemma_word_runs_to(s, i, j);
}

/// A source text that is one identifier (no keyword) lexes to exactly that
/// identifier.
pub proof fn law_identifier_alone(w: Seq<char>)
    requires
        w.len() > 0,
        ident_start(w[0]),
        forall|k: int| 0 < k < w.len() ==> ident_char(#[trigger] w[k]),
        keyword(w) is None,
    ensures
        lex_spec(w).len() == 1,
        lex_spec(w)[0].token == SToken::Ident(w),
{
    assert(w.subrange(0, w.len() as int) =~= w);
    law_identifier_lexeme(w, 0, w.len() as int);
    let n = lexeme_len(lexeme_at(w, 0));
    assert(n == w.len());
    assert(lex_from(w, n as int, 1, 1 + crate::values::utf8_len(w.subrange(0, n as int))) == Seq::<crate::token::STokenPos>::empty());
}

/// `10` to the power `n`.
pub open spec fn ten_to(n: nat) -> int
    decreases n,
{
    if n == 0 { 1 } else { 10 * ten_to((n - 1) as nat) }
}

/// The number that decimal digits write: each digit weighs ten times the
/// digit after it.
pub open spec fn decimal_value(d: Seq<char>) -> int
    decreases d.len(),
{
    if d.len() == 0 {
        0
    } else {
        (d[0] as int - '0' as int) * ten_to((d.len() - 1) as nat) + decimal_value(d.drop_first())
    }
}

proof fn lemma_decimal_value(d: Seq<char>)
    ensures
        crate::lexer::digits_value(d) == decimal_value(d),
    decreases d.len(),
{
    assert('0' as int == 48);
    if d.len() == 1 {
        assert(d.drop_last().len() == 0);
        assert(d.drop_first().len() == 0);
        assert(crate::lexer::digits_value(d.drop_last()) == 0);
        assert(decimal_value(d.drop_first()) == 0);
        assert(d.last() == d[0]);
        assert(ten_to(0) == 1);
    } else if d.len() > 1 {
        let n = d.len();
        let dl = d.drop_last();
        let df = d.drop_first();
        lemma_decimal_value(dl);
        lemma_decimal_value(df);
        lemma_decimal_value(dl.drop_first());
        assert(df.drop_last() =~= dl.drop_first());
        assert(df.last() == d.last());
        assert(dl[0] == d[0]);
        let d0 = d[0] as int - '0' as int;
        let x = ten_to((n - 2) as nat);
        assert(ten_to((n - 1) as nat) == 10 * x);
        assert(d0 * (10 * x) == 10 * (d0 * x)) by (nonlinear_arith);
        let last = d.last() as int - 48;
        assert(crate::lexer::digits_value(d) == crate::lexer::digits_value(dl) * 10 + last);
        assert(decimal_value(dl) == d0 * x + decimal_value(dl.drop_first()));
        assert(crate::lexer::digits_value(df) == crate::lexer::digits_value(df.drop_last()) * 10 + last);
        assert(decimal_value(d) == d0 * ten_to((n - 1) as nat) + decimal_value(df));
    }
}

/// A longest run of decimal digits is read as one number: the value its
/// digits write, however many there are.
pub proof fn law_number_lexeme(s: Seq<char>, i: int, j: int)
    requires
        0 <= i < j <= s.len(),
        forall|k: int| i <= k < j ==> '0' <= #[trigger] s[k] && s[k] <= '9',
        j == s.len() || !('0' <= s[j] && s[j] <= '9'),
    ensures
        lexeme_at(s, i) == Lexeme::Num(decimal_value(s.subrange(i, j)), (j - i) as nat),
{
    lemma_digits_run_to(s, i, j);
    lemma_decimal_value(s.subrange(i, j));
}

proof fn lemma_digits_run_to(s: Seq<char>, k: int, j: int)
    requires
        0 <= k <= j <= s.len(),
        forall|m: int| k <= m < j ==> '0' <= #[trigger] s[m] && s[m] <= '9',
        j == s.len() || !('0' <= s[j] && s[j] <= '9'),
    ensures
        crate::lexer::digits_end(s, k) == j,
    decreases j - k,
{
    if k < j {
        lemma_digits_run_to(s, k + 1, j);
    }
}

/// The expression a single-token operand stands for: a number, a string or
/// a variable.
pub open spec fn operand(tk: SToken) -> Option<SExprKind> {
    match tk {
        SToken::Number(n) => Some(SExprKind::Num(n)),
        SToken::Str(s) => Some(SExprKind::Str(s)),
        SToken::Ident(n) => Some(SExprKind::Ident(n)),
        _ => None,
    }
}

/// The operand at index `i`, with the token's span.
pub open spec fn leaf(t: Seq<STokenPos>, i: int) -> SExpr {
    SExpr { kind: operand(t[i].token)->0, span: t[i].position }
}

/// The binary operator a token stands for.
pub open spec fn bop(tk: SToken) -> Option<BinOp> {
    match tk {
        SToken::Star => Some(BinOp::Star),
        SToken::Slash => Some(BinOp::Slash),
        SToken::Plus => Some(BinOp::Plus),
        SToken::Minus => Some(BinOp::Minus),
        SToken::Less => Some(BinOp::Less),
        SToken::LessEqual => Some(BinOp::LessEqual),
        SToken::Greater => Some(BinOp::Greater),
        SToken::GreaterEqual => Some(BinOp::GreaterEqual),
        SToken::Equal => Some(BinOp::EqualEqual),
        SToken::NotEqual => Some(BinOp::NotEqual),
        _ => None,
    }
}

/// How loosely a binary operator binds: `*` `/` bind tightest, then `+` `-`,
/// then `<` `<=` `>` `>=`, then `==` `!=`.
pub open spec fn looseness(tk: SToken) -> nat {
    match tk {
        SToken::Star | SToken::Slash => 1,
        SToken::Plus | SToken::Minus => 2,
        SToken::Less | SToken::LessEqual | SToken::Greater | SToken::GreaterEqual => 3,
        SToken::Equal | SToken::NotEqual => 4,
        _ => 0,
    }
}

/// Whether the expression must end before index `q`: the tokens end there,
/// or a `;`, `)` or `,` stands there.
pub open spec fn closes(t: Seq<STokenPos>, q: int) -> bool {
    q == t.len() || t[q].token is Semicolon || t[q].token is RParen || t[q].token is Comma
}

/// Whether an operand ends right before index `q` at every level up to `lvl`.
spec fn stops(t: Seq<STokenPos>, q: int, lvl: nat) -> bool {
    q == t.len() || (!at(t, q, SToken::PlusPlus) && !at(t, q, SToken::MinusMinus) && !at(t, q, SToken::LParen)
        && forall|k: nat| 1 <= k <= lvl ==> #[trigger] op_of(k, t[q].token) is None)
}

proof fn lemma_loop_end(t: Seq<STokenPos>, lvl: nat, e: SExpr, q: int)
    requires
        0 <= q <= t.len(),
        lvl > 0,
        q == t.len() || op_of(lvl, t[q].token) is None,
    ensures
        p_loop(t, lvl, e, q) == Ok::<(SExpr, int), crate::errors::SParseError>((e, q)),
{
}

proof fn lemma_operand_level(t: Seq<STokenPos>, lvl: nat, p: int)
    requires
        0 <= p < t.len(),
        operand(t[p].token) is Some,
        stops(t, p + 1, lvl),
    ensures
        p_level(t, lvl, p) == Ok::<(SExpr, int), crate::errors::SParseError>((leaf(t, p), p + 1)),
    decreases lvl,
{
    if lvl == 0 {
        assert(!at(t, p, SToken::PlusPlus) && !at(t, p, SToken::MinusMinus));
        assert(crate::parse_spec::p_primary(t, p) == Ok::<(SExpr, int), crate::errors::SParseError>((leaf(t, p), p + 1)));
        assert(crate::parse_spec::p_postfix(t, leaf(t, p), p + 1) == Ok::<(SExpr, int), crate::errors::SParseError>((leaf(t, p), p + 1)));
        assert(crate::parse_spec::p_unary(t, p) == Ok::<(SExpr, int), crate::errors::SParseError>((leaf(t, p), p + 1)));
    } else {
        let l1 = (lvl - 1) as nat;
        if p + 1 < t.len() {
            assert forall|k: nat| 1 <= k <= l1 implies #[trigger] op_of(k, t[p + 1].token) is None by {
                assert(op_of(k, t[p + 1].token) is None);
            }
            assert(op_of(lvl, t[p + 1].token) is None);
        }
        lemma_operand_level(t, l1, p);
        lemma_loop_end(t, lvl, leaf(t, p), p + 1);
        assert(p_level(t, l1, p) == Ok::<(SExpr, int), crate::errors::SParseError>((leaf(t, p), p + 1)));
    }
}

proof fn lemma_op_levels(tk: SToken)
    ensures
        bop(tk) is Some ==> 1 <= looseness(tk) <= 4 && op_of(looseness(tk), tk) == bop(tk)
            && forall|k: nat| k != looseness(tk) ==> #[trigger] op_of(k, tk) is None,
        bop(tk) is None ==> forall|k: nat| #[trigger] op_of(k, tk) is None,
        bop(tk) is Some ==> !same_kind(tk, SToken::PlusPlus) && !same_kind(tk, SToken::MinusMinus) && !same_kind(tk, SToken::LParen),
{
}

/// How `x op y` (at `q`, followed by an end of expression) parses at level `lvl`.
spec fn pair_parse(t: Seq<STokenPos>, q: int, lvl: nat) -> (SExpr, int) {
    if lvl < looseness(t[q + 1].token) {
        (leaf(t, q), q + 1)
    } else {
        (bin(bop(t[q + 1].token)->0, leaf(t, q), leaf(t, q + 2)), q + 3)
    }
}

proof fn lemma_end_stops(t: Seq<STokenPos>, q: int, lvl: nat)
    requires
        0 <= q <= t.len(),
        closes(t, q),
    ensures
        stops(t, q, lvl),
{
    if q < t.len() {
        lemma_op_levels(t[q].token);
    }
}

proof fn lemma_pair(t: Seq<STokenPos>, q: int, lvl: nat)
    requires
        0 <= q,
        q + 3 <= t.len(),
        operand(t[q].token) is Some,
        bop(t[q + 1].token) is Some,
        operand(t[q + 2].token) is Some,
        closes(t, q + 3),
    ensures
        p_level(t, lvl, q) == Ok::<(SExpr, int), crate::errors::SParseError>(pair_parse(t, q, lvl)),
    decreases lvl,
{
    let o = t[q + 1].token;
    let lo = looseness(o);
    lemma_op_levels(o);
    if q + 3 < t.len() {
        lemma_op_levels(t[q + 3].token);
    }
    if lvl < lo {
        lemma_operand_level(t, lvl, q);
    } else {
        let l1 = (lvl - 1) as nat;
        lemma_pair(t, q, l1);
        let x = bin(bop(o)->0, leaf(t, q), leaf(t, q + 2));
        if lvl == lo {
            lemma_end_stops(t, q + 3, l1);
            lemma_operand_level(t, l1, q + 2);
            lemma_loop_end(t, lvl, x, q + 3);
            assert(p_loop(t, lvl, leaf(t, q), q + 1) == Ok::<(SExpr, int), crate::errors::SParseError>((x, q + 3)));
        } else {
            lemma_loop_end(t, lvl, x, q + 3);
        }
    }
}

/// How `a o1 b o2 c` (at `p`, followed by an end of expression) parses at level `lvl`.
spec fn triple_parse(t: Seq<STokenPos>, p: int, lvl: nat) -> (SExpr, int) {
    let o1 = t[p + 1].token;
    let o2 = t[p + 3].token;
    if looseness(o1) <= looseness(o2) {
        if lvl < looseness(o1) {
            (leaf(t, p), p + 1)
        } else if lvl < looseness(o2) {
            (bin(bop(o1)->0, leaf(t, p), leaf(t, p + 2)), p + 3)
        } else {
            (bin(bop(o2)->0, bin(bop(o1)->0, leaf(t, p), leaf(t, p + 2)), leaf(t, p + 4)), p + 5)
        }
    } else {
        if lvl < looseness(o1) {
            (leaf(t, p), p + 1)
        } else {
            (bin(bop(o1)->0, leaf(t, p), bin(bop(o2)->0, leaf(t, p + 2), leaf(t, p + 4))), p + 5)
        }
    }
}

proof fn lemma_triple(t: Seq<STokenPos>, p: int, lvl: nat)
    requires
        0 <= p,
        p + 5 <= t.len(),
        operand(t[p].token) is Some,
        bop(t[p + 1].token) is Some,
        operand(t[p + 2].token) is Some,
        bop(t[p + 3].token) is Some,
        operand(t[p + 4].token) is Some,
        closes(t, p + 5),
    ensures
        p_level(t, lvl, p) == Ok::<(SExpr, int), crate::errors::SParseError>(triple_parse(t, p, lvl)),
    decreases lvl,
{
    let o1 = t[p + 1].token;
    let o2 = t[p + 3].token;
    let l1o = looseness(o1);
    let l2o = looseness(o2);
    lemma_op_levels(o1);
    lemma_op_levels(o2);
    if p + 5 < t.len() {
        lemma_op_levels(t[p + 5].token);
    }
    if lvl < l1o {
        lemma_operand_level(t, lvl, p);
    } else {
        let l1 = (lvl - 1) as nat;
        lemma_triple(t, p, l1);
        let a = leaf(t, p);
        let b = leaf(t, p + 2);
        let c = leaf(t, p + 4);
        let ab = bin(bop(o1)->0, a, b);
        let abc_left = bin(bop(o2)->0, ab, c);
        if l1o <= l2o {
            if lvl == l1o {
                lemma_operand_level(t, l1, p + 2);
                if l2o == l1o {
                    lemma_end_stops(t, p + 5, l1);
                    lemma_operand_level(t, l1, p + 4);
                    lemma_loop_end(t, lvl, abc_left, p + 5);
                    assert(p_loop(t, lvl, ab, p + 3) == Ok::<(SExpr, int), crate::errors::SParseError>((abc_left, p + 5)));
                } else {
                    lemma_loop_end(t, lvl, ab, p + 3);
                }
                assert(p_loop(t, lvl, a, p + 1) == Ok::<(SExpr, int), crate::errors::SParseError>(triple_parse(t, p, lvl)));
            } else if lvl < l2o {
                lemma_loop_end(t, lvl, ab, p + 3);
            } else if lvl == l2o {
                lemma_end_stops(t, p + 5, l1);
                lemma_operand_level(t, l1, p + 4);
                lemma_loop_end(t, lvl, abc_left, p + 5);
                assert(p_loop(t, lvl, ab, p + 3) == Ok::<(SExpr, int), crate::errors::SParseError>((abc_left, p + 5)));
            } else {
                lemma_loop_end(t, lvl, abc_left, p + 5);
            }
        } else {
            let bc = bin(bop(o2)->0, b, c);
            let abc_right = bin(bop(o1)->0, a, bc);
            if lvl == l1o {
                lemma_pair(t, p + 2, l1);
                assert(pair_parse(t, p + 2, l1) == (bc, p + 5));
                lemma_loop_end(t, lvl, abc_right, p + 5);
                assert(p_loop(t, lvl, a, p + 1) == Ok::<(SExpr, int), crate::errors::SParseError>((abc_right, p + 5)));
            } else {
                lemma_loop_end(t, lvl, abc_right, p + 5);
            }
        }
    }
}

/// Binary operators group by how loosely they bind, and operators that bind
/// alike group to the left: in `a o1 b o2 c`, when `o1` binds at least as
/// tightly as `o2` the expression is `(a o1 b) o2 c`, and otherwise it is
/// `a o1 (b o2 c)`. So `a + b / c` is `a + (b / c)`, `a / b + c` is
/// `(a / b) + c`, and `a - b - c` is `(a - b) - c`.
pub proof fn law_operator_grouping(t: Seq<STokenPos>, p: int)
    requires
        0 <= p,
        p + 5 <= t.len(),
        operand(t[p].token) is Some,
        bop(t[p + 1].token) is Some,
        operand(t[p + 2].token) is Some,
        bop(t[p + 3].token) is Some,
        operand(t[p + 4].token) is Some,
        closes(t, p + 5),
    ensures
        p_level(t, 4, p) == Ok::<(SExpr, int), crate::errors::SParseError>((
            if looseness(t[p + 1].token) <= looseness(t[p + 3].token) {
                bin(bop(t[p + 3].token)->0, bin(bop(t[p + 1].token)->0, leaf(t, p), leaf(t, p + 2)), leaf(t, p + 4))
            } else {
                bin(bop(t[p + 1].token)->0, leaf(t, p), bin(bop(t[p + 3].token)->0, leaf(t, p + 2), leaf(t, p + 4)))
            },
            p + 5,
        )),
{
    lemma_triple(t, p, 4);
    lemma_op_levels(t[p + 3].token);
}

} // verus!