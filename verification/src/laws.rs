use vstd::prelude::*;
use crate::ast::{BinOp, SExpr, SExprKind, SStmt, SStmtKind, StepOp};
use crate::errors::RErr;
use crate::interp_spec::{
    bind_args, eval, eval_args, eval_bin, eval_call, eval_step, exec_block, exec_import, exec_loop, exec_module, exec_stmt,
    exec_use, done, fail, BMap, Flow, Out, SFrame, StepRes,
};
use crate::interp_spec::{apply_bin, as_int, builtin_spec, truth, BuiltinKind};
use crate::intparse::{parse_int, scan_int, IntError};
use crate::io::{Cursor, Trace};
use crate::lexer::{is_digit, lemma_utf8_len_push, lemma_utf8_len_split, lex_from, lex_spec, lexeme_at, lexeme_len, Lexeme};
use crate::token::{SToken, STokenPos};
use crate::positions::Span;
use crate::text::{dec_int, dec_nat, digit_char};
use crate::values::{eq_spec, fits_i64, text_order, utf8_len, Order, SVal};
use vstd::utf8::{char_u32_cast, encode_utf8};

verus! {

/// Whether `g` has the functions and loaded modules of `f`, and the same
/// variables with the same mutability (their values may differ).
pub open spec fn same_shape(f: SFrame, g: SFrame) -> bool {
    &&& g.funcs == f.funcs
    &&& g.loaded == f.loaded
    &&& g.vars.dom() == f.vars.dom()
    &&& forall|k: Seq<char>| #[trigger] f.vars.contains_key(k) ==> g.vars[k].1 == f.vars[k].1
}

proof fn lemma_same_shape_trans(f: SFrame, g: SFrame, h: SFrame)
    requires
        same_shape(f, g),
        same_shape(g, h),
    ensures
        same_shape(f, h),
{
    assert forall|k: Seq<char>| #[trigger] f.vars.contains_key(k) implies h.vars[k].1 == f.vars[k].1 by {
        assert(g.vars.contains_key(k));
    }
}

/// Evaluating an expression changes at most the values of existing variables:
/// no variable, function or loaded module appears or goes, and no variable
/// changes whether it may be assigned.
pub proof fn law_eval_keeps_shape(b: BMap, f: SFrame, e: SExpr, fuel: nat, tr: Trace, c: Cursor)
    ensures
        same_shape(f, eval(b, f, e, fuel, tr, c).frame),
    decreases fuel, 0int,
{
    if fuel > 0 {
        let fu = (fuel - 1) as nat;
        match e.kind {
            SExprKind::Bin(op, l, r) => law_eval_bin_keeps_shape(b, f, op, *l, *r, fu, tr, c),
            SExprKind::Step(op, name) => {
                let g = eval_step(f, op, name, e.span, c).frame;
                if f.vars.contains_key(name) && g != f {
                    assert(g.vars.dom() =~= f.vars.dom());
                }
            },
            SExprKind::Call { call, args } => match call.kind {
                SExprKind::Ident(name) => law_eval_call_keeps_shape(b, f, name, args, e.span, fu, tr, c),
                _ => {},
            },
            _ => {},
        }
    }
}

/// A binary operation keeps the shape of the frame.
pub proof fn law_eval_bin_keeps_shape(b: BMap, f: SFrame, op: BinOp, l: SExpr, r: SExpr, fuel: nat, tr: Trace, c: Cursor)
    ensures
        same_shape(f, eval_bin(b, f, op, l, r, fuel, tr, c).frame),
    decreases fuel, 1int,
{
    let (first, second) = if op == BinOp::Slash { (r, l) } else { (l, r) };
    let s1 = eval(b, f, first, fuel, tr, c);
    law_eval_keeps_shape(b, f, first, fuel, tr, c);
    if s1.out is Done {
        law_eval_keeps_shape(b, s1.frame, second, fuel, tr, s1.cur);
        lemma_same_shape_trans(f, s1.frame, eval(b, s1.frame, second, fuel, tr, s1.cur).frame);
    }
}

/// Evaluating call arguments keeps the shape of the frame.
pub proof fn law_eval_args_keeps_shape(b: BMap, f: SFrame, args: Seq<SExpr>, i: int, acc: Seq<crate::values::SVal>, fuel: nat, tr: Trace, c: Cursor)
    ensures
        same_shape(f, eval_args(b, f, args, i, acc, fuel, tr, c).frame),
    decreases fuel, 1int,
{
    if 0 <= i < args.len() && fuel > 0 {
        let fu = (fuel - 1) as nat;
        let s = eval(b, f, args[i], fu, tr, c);
        law_eval_keeps_shape(b, f, args[i], fu, tr, c);
        if let Out::Done(v) = s.out {
            law_eval_args_keeps_shape(b, s.frame, args, i + 1, acc.push(v), fu, tr, s.cur);
            lemma_same_shape_trans(f, s.frame, eval_args(b, s.frame, args, i + 1, acc.push(v), fu, tr, s.cur).frame);
        }
    }
}

/// Binding parameters keeps the shape of the caller's frame.
pub proof fn law_bind_args_keeps_shape(
    b: BMap,
    f: SFrame,
    params: Seq<Seq<char>>,
    args: Seq<SExpr>,
    i: int,
    locals: Map<Seq<char>, (crate::values::SVal, bool)>,
    fuel: nat,
    tr: Trace,
    c: Cursor,
)
    ensures
        same_shape(f, bind_args(b, f, params, args, i, locals, fuel, tr, c).frame),
    decreases fuel, 1int,
{
    if 0 <= i < args.len() && i < params.len() && fuel > 0 {
        let fu = (fuel - 1) as nat;
        let s = eval(b, f, args[i], fu, tr, c);
        law_eval_keeps_shape(b, f, args[i], fu, tr, c);
        if let Out::Done(v) = s.out {
            let l2 = locals.insert(params[i], (v, false));
            law_bind_args_keeps_shape(b, s.frame, params, args, i + 1, l2, fu, tr, s.cur);
            lemma_same_shape_trans(f, s.frame, bind_args(b, s.frame, params, args, i + 1, l2, fu, tr, s.cur).frame);
        }
    }
}

/// A call keeps the shape of the caller's frame: what the called function
/// does to its own frame is dropped when it returns.
pub proof fn law_eval_call_keeps_shape(
    b: BMap,
    f: SFrame,
    name: Seq<char>,
    args: Seq<SExpr>,
    span: Span,
    fuel: nat,
    tr: Trace,
    c: Cursor,
)
    ensures
        same_shape(f, eval_call(b, f, name, args, span, fuel, tr, c).frame),
    decreases fuel, 2int,
{
    let sa = eval_args(b, f, args, 0, Seq::empty(), fuel, tr, c);
    law_eval_args_keeps_shape(b, f, args, 0, Seq::empty(), fuel, tr, c);
    if sa.out is Done && !b.contains_key(name) && sa.frame.funcs.contains_key(name) {
        let params = sa.frame.funcs[name].0;
        if params.len() == args.len() {
            law_bind_args_keeps_shape(b, sa.frame, params, args, 0, Map::empty(), fuel, tr, sa.cur);
            lemma_same_shape_trans(f, sa.frame, bind_args(b, sa.frame, params, args, 0, Map::empty(), fuel, tr, sa.cur).frame);
        }
    }
}


/// Whether `g` still has every loaded module and every function name of `f`.
pub open spec fn keeps_loaded(f: SFrame, g: SFrame) -> bool {
    &&& f.loaded.subset_of(g.loaded)
    &&& f.funcs.dom().subset_of(g.funcs.dom())
}

proof fn lemma_eval_keeps(b: BMap, f: SFrame, e: SExpr, fuel: nat, tr: Trace, c: Cursor)
    ensures
        keeps_loaded(f, eval(b, f, e, fuel, tr, c).frame),
{
    law_eval_keeps_shape(b, f, e, fuel, tr, c);
}

/// Running a statement never unloads a module and never forgets a function.
pub proof fn law_stmt_keeps_loaded(b: BMap, f: SFrame, s: SStmt, fuel: nat, tr: Trace, c: Cursor)
    ensures
        keeps_loaded(f, exec_stmt(b, f, s, fuel, tr, c).frame),
    decreases fuel, 0int,
{
    if fuel > 0 {
        let fu = (fuel - 1) as nat;
        match s.kind {
            SStmtKind::VerDecl { name, value, mutable } => lemma_eval_keeps(b, f, value, fu, tr, c),
            SStmtKind::Assign { name, value } => lemma_eval_keeps(b, f, value, fu, tr, c),
            SStmtKind::If { cond, then_branch, else_branch } => {
                let sc = eval(b, f, cond, fu, tr, c);
                lemma_eval_keeps(b, f, cond, fu, tr, c);
                law_block_keeps_loaded(b, sc.frame, then_branch, 0, fu, tr, sc.cur);
                if let Some(eb) = else_branch {
                    law_block_keeps_loaded(b, sc.frame, eb, 0, fu, tr, sc.cur);
                }
            },
            SStmtKind::While { cond, body } => law_loop_keeps_loaded(b, f, cond, body, None, fu, tr, c),
            SStmtKind::For { init, cond, incr, body } => {
                let si = exec_stmt(b, f, *init, fu, tr, c);
                law_stmt_keeps_loaded(b, f, *init, fu, tr, c);
                law_loop_keeps_loaded(b, si.frame, cond, body, incr, fu, tr, si.cur);
            },
            SStmtKind::Expr(e) => lemma_eval_keeps(b, f, e, fu, tr, c),
            SStmtKind::Print(e) => lemma_eval_keeps(b, f, e, fu, tr, c),
            SStmtKind::Func { name, params, body } => {},
            SStmtKind::Return(e) => lemma_eval_keeps(b, f, e, fu, tr, c),
            SStmtKind::Use(name) => law_use_keeps_loaded(b, f, name, s.span, fu, tr, c),
        }
    }
}

/// Running the statements of a block never unloads a module and never forgets a function.
pub proof fn law_block_keeps_loaded(b: BMap, f: SFrame, stmts: Seq<SStmt>, i: int, fuel: nat, tr: Trace, c: Cursor)
    ensures
        keeps_loaded(f, exec_block(b, f, stmts, i, fuel, tr, c).frame),
    decreases fuel, 1int,
{
    if 0 <= i < stmts.len() && fuel > 0 {
        let fu = (fuel - 1) as nat;
        let s = exec_stmt(b, f, stmts[i], fu, tr, c);
        law_stmt_keeps_loaded(b, f, stmts[i], fu, tr, c);
        if s.out == Out::Done(Flow::Normal) {
            law_block_keeps_loaded(b, s.frame, stmts, i + 1, fu, tr, s.cur);
        }
    }
}

/// Running the statements of a module never unloads a module and never forgets a function.
pub proof fn law_import_keeps_loaded(b: BMap, f: SFrame, stmts: Seq<SStmt>, i: int, fuel: nat, tr: Trace, c: Cursor)
    ensures
        keeps_loaded(f, exec_import(b, f, stmts, i, fuel, tr, c).frame),
    decreases fuel, 1int,
{
    if 0 <= i < stmts.len() && fuel > 0 {
        let fu = (fuel - 1) as nat;
        let s = exec_stmt(b, f, stmts[i], fu, tr, c);
        law_stmt_keeps_loaded(b, f, stmts[i], fu, tr, c);
        if s.out is Done {
            law_import_keeps_loaded(b, s.frame, stmts, i + 1, fu, tr, s.cur);
        }
    }
}

/// A loop never unloads a module and never forgets a function.
pub proof fn law_loop_keeps_loaded(
    b: BMap,
    f: SFrame,
    cond: SExpr,
    body: Seq<SStmt>,
    incr: Option<SExpr>,
    fuel: nat,
    tr: Trace,
    c: Cursor,
)
    ensures
        keeps_loaded(f, exec_loop(b, f, cond, body, incr, fuel, tr, c).frame),
    decreases fuel, 1int,
{
    if fuel > 0 {
        let fu = (fuel - 1) as nat;
        let sc = eval(b, f, cond, fu, tr, c);
        lemma_eval_keeps(b, f, cond, fu, tr, c);
        if sc.out is Done {
            let sb = exec_block(b, sc.frame, body, 0, fu, tr, sc.cur);
            law_block_keeps_loaded(b, sc.frame, body, 0, fu, tr, sc.cur);
            if sb.out == Out::Done(Flow::Normal) {
                match incr {
                    Some(ie) => {
                        let si = eval(b, sb.frame, ie, fu, tr, sb.cur);
                        lemma_eval_keeps(b, sb.frame, ie, fu, tr, sb.cur);
                        if si.out is Done {
                            law_loop_keeps_loaded(b, si.frame, cond, body, incr, fu, tr, si.cur);
                        }
                    },
                    None => law_loop_keeps_loaded(b, sb.frame, cond, body, incr, fu, tr, sb.cur),
                }
            }
        }
    }
}

/// Running a module's source never unloads a module and never forgets a function.
pub proof fn law_module_keeps_loaded(b: BMap, f: SFrame, code: Seq<char>, fuel: nat, tr: Trace, c: Cursor)
    ensures
        keeps_loaded(f, exec_module(b, f, code, fuel, tr, c).frame),
    decreases fuel, 2int,
{
    match crate::parse_spec::parse_spec(crate::lexer::lex_spec(code)) {
        Ok(stmts) => law_import_keeps_loaded(b, f, stmts, 0, fuel, tr, c),
        Err(_) => {},
    }
}

/// `use` never unloads a module and never forgets a function.
pub proof fn law_use_keeps_loaded(b: BMap, f: SFrame, name: Seq<char>, span: Span, fuel: nat, tr: Trace, c: Cursor)
    ensures
        keeps_loaded(f, exec_use(b, f, name, span, fuel, tr, c).frame),
    decreases fuel, 3int,
{
    if !f.loaded.contains(name) {
        if let crate::io::IoEvent::Module(n, r) = (tr.io)(c.io) {
            if n == name {
                if let Ok(code) = r {
                    let f1 = SFrame { loaded: f.loaded.insert(name), ..f };
                    law_module_keeps_loaded(b, f1, code, fuel, tr, crate::interp_spec::skip_io(c, 1));
                }
            }
        }
    }
}

/// A module is run at most once: after a `use` that succeeds, the module is
/// loaded, and a second `use` of it does nothing.
pub proof fn law_use_runs_once(
    b: BMap,
    f: SFrame,
    name: Seq<char>,
    span: Span,
    fuel: nat,
    tr: Trace,
    c: Cursor,
    span2: Span,
    fuel2: nat,
    tr2: Trace,
    c2: Cursor,
)
    requires
        exec_use(b, f, name, span, fuel, tr, c).out is Done,
    ensures
        exec_use(b, f, name, span, fuel, tr, c).frame.loaded.contains(name),
        exec_use(b, exec_use(b, f, name, span, fuel, tr, c).frame, name, span2, fuel2, tr2, c2)
            == crate::interp_spec::done(exec_use(b, f, name, span, fuel, tr, c).frame, Flow::Normal, c2),
{
    if !f.loaded.contains(name) {
        if let crate::io::IoEvent::Module(n, r) = (tr.io)(c.io) {
            if let Ok(code) = r {
                let f1 = SFrame { loaded: f.loaded.insert(name), ..f };
                law_module_keeps_loaded(b, f1, code, fuel, tr, crate::interp_spec::skip_io(c, 1));
            }
        }
    }
}


/// `name = value;`, as `var name = value;` also parses.
pub open spec fn assign_stmt(name: Seq<char>, value: SExpr, span: Span) -> SStmt {
    SStmt { kind: SStmtKind::Assign { name, value }, span }
}

/// `ver name = value;`
pub open spec fn ver_stmt(name: Seq<char>, value: SExpr, span: Span) -> SStmt {
    SStmt { kind: SStmtKind::VerDecl { name, value, mutable: true }, span }
}

/// The expression that reads `name`.
pub open spec fn read_var(name: Seq<char>, span: Span) -> SExpr {
    SExpr { kind: SExprKind::Ident(name), span }
}

/// The value an evaluation ended with.
pub open spec fn value_of(o: Out<crate::values::SVal>) -> crate::values::SVal {
    o->Done_0
}

/// A variable made by `var name = value;` (a first assignment) cannot be
/// assigned again: a later assignment whose value evaluates fails with
/// `ImmutableAssignment`.
pub proof fn law_var_cannot_be_reassigned(
    b: BMap,
    f: SFrame,
    name: Seq<char>,
    v1: SExpr,
    v2: SExpr,
    span1: Span,
    span2: Span,
    fuel1: nat,
    fuel2: nat,
    tr: Trace,
    c1: Cursor,
    c2: Cursor,
)
    requires
        !f.vars.contains_key(name),
        exec_stmt(b, f, assign_stmt(name, v1, span1), fuel1, tr, c1).out is Done,
        fuel2 > 0,
        eval(b, exec_stmt(b, f, assign_stmt(name, v1, span1), fuel1, tr, c1).frame, v2, (fuel2 - 1) as nat, tr, c2).out is Done,
    ensures
        exec_stmt(b, exec_stmt(b, f, assign_stmt(name, v1, span1), fuel1, tr, c1).frame, assign_stmt(name, v2, span2), fuel2, tr, c2).out
            == Out::<Flow>::Fail(RErr::ImmutableAssignment { name, span: span2 }),
{
    let fu1 = (fuel1 - 1) as nat;
    let sv = eval(b, f, v1, fu1, tr, c1);
    law_eval_keeps_shape(b, f, v1, fu1, tr, c1);
    let g = exec_stmt(b, f, assign_stmt(name, v1, span1), fuel1, tr, c1).frame;
    assert(g.vars[name].1 == false);
    let fu2 = (fuel2 - 1) as nat;
    law_eval_keeps_shape(b, g, v2, fu2, tr, c2);
    let h = eval(b, g, v2, fu2, tr, c2).frame;
    assert(g.vars.contains_key(name));
    assert(h.vars.contains_key(name));
}

/// A variable made by `ver` can be assigned, and reading it then gives the
/// value assigned last.
pub proof fn law_ver_assignment_reads_back(
    b: BMap,
    f: SFrame,
    name: Seq<char>,
    v1: SExpr,
    v2: SExpr,
    span1: Span,
    span2: Span,
    span3: Span,
    fuel1: nat,
    fuel2: nat,
    fuel3: nat,
    tr: Trace,
    c1: Cursor,
    c2: Cursor,
    c3: Cursor,
)
    requires
        exec_stmt(b, f, ver_stmt(name, v1, span1), fuel1, tr, c1).out is Done,
        fuel2 > 0,
        eval(b, exec_stmt(b, f, ver_stmt(name, v1, span1), fuel1, tr, c1).frame, v2, (fuel2 - 1) as nat, tr, c2).out is Done,
        fuel3 > 0,
    ensures
        exec_stmt(b, exec_stmt(b, f, ver_stmt(name, v1, span1), fuel1, tr, c1).frame, assign_stmt(name, v2, span2), fuel2, tr, c2).out
            == Out::Done(Flow::Normal),
        eval(
            b,
            exec_stmt(b, exec_stmt(b, f, ver_stmt(name, v1, span1), fuel1, tr, c1).frame, assign_stmt(name, v2, span2), fuel2, tr, c2).frame,
            read_var(name, span3),
            fuel3,
            tr,
            c3,
        ).out == Out::Done(value_of(eval(b, exec_stmt(b, f, ver_stmt(name, v1, span1), fuel1, tr, c1).frame, v2, (fuel2 - 1) as nat, tr, c2).out)),
{
    let g = exec_stmt(b, f, ver_stmt(name, v1, span1), fuel1, tr, c1).frame;
    assert(g.vars[name].1 == true);
    let fu2 = (fuel2 - 1) as nat;
    law_eval_keeps_shape(b, g, v2, fu2, tr, c2);
    let h = eval(b, g, v2, fu2, tr, c2).frame;
    assert(g.vars.contains_key(name));
    assert(h.vars.contains_key(name));
}

/// After `ver name = value;` succeeds, reading `name` gives the value.
pub proof fn law_declared_variable_reads_back(
    b: BMap,
    f: SFrame,
    name: Seq<char>,
    value: SExpr,
    span1: Span,
    span2: Span,
    fuel1: nat,
    fuel2: nat,
    tr: Trace,
    c1: Cursor,
    c2: Cursor,
)
    requires
        exec_stmt(b, f, ver_stmt(name, value, span1), fuel1, tr, c1).out is Done,
        fuel2 > 0,
    ensures
        eval(b, exec_stmt(b, f, ver_stmt(name, value, span1), fuel1, tr, c1).frame, read_var(name, span2), fuel2, tr, c2).out
            == Out::Done(value_of(eval(b, f, value, (fuel1 - 1) as nat, tr, c1).out)),
{
}


proof fn lemma_scan_push(d: Seq<char>, i: int, acc: int, neg: bool, c: char)
    requires
        0 <= i <= d.len(),
        fits_i64(acc),
        is_digit(c),
    ensures
        scan_int(d.push(c), i, acc, neg) == match scan_int(d, i, acc, neg) {
            Ok(v) => {
                let next = if neg { v * 10 - (c as int - 48) } else { v * 10 + (c as int - 48) };
                if fits_i64(next) {
                    Ok(next as i64)
                } else {
                    Err(if neg { IntError::NegOverflow } else { IntError::PosOverflow })
                }
            },
            Err(e) => Err(e),
        },
    decreases d.len() - i,
{
    let dc = d.push(c);
    if i == d.len() {
        assert(dc[i] == c);
        assert(scan_int(d, i, acc, neg) == Ok::<i64, IntError>(acc as i64));
        assert((acc as i64) as int == acc);
        let next = if neg { acc * 10 - (c as int - 48) } else { acc * 10 + (c as int - 48) };
        if fits_i64(next) {
            assert(scan_int(dc, i + 1, next, neg) == Ok::<i64, IntError>(next as i64));
        }
    } else {
        assert(dc[i] == d[i]);
        if is_digit(d[i]) {
            let next = if neg { acc * 10 - (d[i] as int - 48) } else { acc * 10 + (d[i] as int - 48) };
            if fits_i64(next) {
                lemma_scan_push(d, i + 1, next, neg, c);
            }
        }
    }
}

proof fn lemma_scan_dec(pre: Seq<char>, m: nat, neg: bool)
    requires
        neg ==> m <= 0x8000_0000_0000_0000,
        !neg ==> m <= 0x7FFF_FFFF_FFFF_FFFF,
    ensures
        scan_int(pre + dec_nat(m), pre.len() as int, 0, neg) == Ok::<i64, IntError>((if neg { -m } else { m as int }) as i64),
    decreases m,
{
    let dm = digit_char(m % 10);
    assert(is_digit(dm));
    assert(dm as int - 48 == m % 10);
    if m < 10 {
        assert(pre + dec_nat(m) =~= pre.push(dm));
        lemma_scan_push(pre, pre.len() as int, 0, neg, dm);
    } else {
        let q = (m / 10) as nat;
        lemma_scan_dec(pre, q, neg);
        assert(pre + dec_nat(m) =~= (pre + dec_nat(q)).push(dm));
        lemma_scan_push(pre + dec_nat(q), pre.len() as int, 0, neg, dm);
        assert(q * 10 + m % 10 == m);
    }
}

proof fn lemma_dec_nat_first(m: nat)
    ensures
        dec_nat(m).len() >= 1,
        is_digit(dec_nat(m)[0]),
    decreases m,
{
    if m >= 10 {
        lemma_dec_nat_first((m / 10) as nat);
    }
}

/// Reading back the decimal text of an integer gives the integer:
/// `parse::<i64>` undoes `to_string` on every `i64`.
pub proof fn law_parse_int_of_decimal(n: i64)
    ensures
        parse_int(dec_int(n as int)) == Ok::<i64, IntError>(n),
{
    if n >= 0 {
        lemma_dec_nat_first(n as nat);
        assert(Seq::<char>::empty() + dec_nat(n as nat) =~= dec_nat(n as nat));
        lemma_scan_dec(Seq::empty(), n as nat, false);
    } else {
        let m = (-(n as int)) as nat;
        let s = seq!['-'] + dec_nat(m);
        lemma_dec_nat_first(m);
        assert(s[0] == '-');
        assert(s.len() >= 2);
        lemma_scan_dec(seq!['-'], m, true);
    }
}

/// `int(str(n))` gives `n` back for every integer `n`.
pub proof fn law_int_of_str(n: i64, span: Span, tr: Trace, c: Cursor)
    ensures
        builtin_spec(BuiltinKind::Str, seq![SVal::Int(n)], span, tr, c) == (Out::Done(SVal::Str(dec_int(n as int))), c),
        builtin_spec(BuiltinKind::Int, seq![SVal::Str(dec_int(n as int))], span, tr, c) == (Out::Done(SVal::Int(n)), c),
{
    law_parse_int_of_decimal(n);
}

/// `str` of a string is that string, unchanged; `str(v)` is, for every
/// value, the very text that `print(v)` writes; and `int` reads back the
/// number that `str` wrote.
pub proof fn law_str_is_printed_text(s: Seq<char>, v: SVal, n: i64, span: Span, tr: Trace, c: Cursor)
    ensures
        builtin_spec(
            BuiltinKind::Int,
            seq![builtin_spec(BuiltinKind::Str, seq![SVal::Int(n)], span, tr, c).0->Done_0],
            span,
            tr,
            c,
        ) == (Out::Done(SVal::Int(n)), c),
        builtin_spec(BuiltinKind::Str, seq![SVal::Str(s)], span, tr, c) == (Out::Done(SVal::Str(s)), c),
        builtin_spec(BuiltinKind::Str, seq![v], span, tr, c).0 is Done,
        builtin_spec(BuiltinKind::Print, seq![v], span, tr, c).0 is Done ==> (tr.io)(c.io) == crate::io::IoEvent::Print(
            builtin_spec(BuiltinKind::Str, seq![v], span, tr, c).0->Done_0->Str_0,
        ),
        builtin_spec(BuiltinKind::Str, seq![v], span, tr, c).0->Done_0 is Str,
{
    law_parse_int_of_decimal(n);
    let pr = builtin_spec(BuiltinKind::Print, seq![v], span, tr, c);
    if pr.0 is Done {
        assert((tr.io)(c.io + 0) == crate::io::IoEvent::Print(crate::values::display(seq![v][0])));
    }
}

proof fn lemma_utf8_len_bounds(s: Seq<char>)
    ensures
        s.len() <= utf8_len(s) <= 4 * s.len(),
    decreases s.len(),
{
    if s.len() == 0 {
        assert(encode_utf8(s) =~= Seq::<u8>::empty());
    } else {
        lemma_utf8_len_bounds(s.drop_last());
        lemma_utf8_len_push(s.drop_last(), s.last());
        assert(s.drop_last().push(s.last()) =~= s);
    }
}

/// A string has at least as many bytes as characters, and at most four bytes
/// per character: `chars(s) <= len(s) <= 4 * chars(s)`.
pub proof fn law_chars_at_most_len(s: Seq<char>, span: Span, tr: Trace, c: Cursor)
    requires
        utf8_len(s) <= usize::MAX,
        utf8_len(s) <= i64::MAX,
    ensures
        builtin_spec(BuiltinKind::Chars, seq![SVal::Str(s)], span, tr, c) == (Out::Done(SVal::Int(s.len() as i64)), c),
        builtin_spec(BuiltinKind::Len, seq![SVal::Str(s)], span, tr, c) == (Out::Done(SVal::Int(utf8_len(s) as i64)), c),
        s.len() <= utf8_len(s) <= 4 * s.len(),
{
    lemma_utf8_len_bounds(s);
}

/// `len` counts bytes and `chars` counts characters: both add up over a
/// joined string, a character outside ASCII takes two to four bytes, and one
/// character is one character.
pub proof fn law_len_and_chars_add_up(s: Seq<char>, u: Seq<char>, ch: char, span: Span, tr: Trace, c: Cursor)
    requires
        utf8_len(s + u) <= i64::MAX,
        (s + u).len() <= i64::MAX,
        utf8_len(s + u) <= usize::MAX,
    ensures
        builtin_spec(BuiltinKind::Len, seq![SVal::Str(s + u)], span, tr, c).0->Done_0->Int_0
            == builtin_spec(BuiltinKind::Len, seq![SVal::Str(s)], span, tr, c).0->Done_0->Int_0
                + builtin_spec(BuiltinKind::Len, seq![SVal::Str(u)], span, tr, c).0->Done_0->Int_0,
        builtin_spec(BuiltinKind::Chars, seq![SVal::Str(s + u)], span, tr, c).0->Done_0->Int_0
            == builtin_spec(BuiltinKind::Chars, seq![SVal::Str(s)], span, tr, c).0->Done_0->Int_0
                + builtin_spec(BuiltinKind::Chars, seq![SVal::Str(u)], span, tr, c).0->Done_0->Int_0,
        builtin_spec(BuiltinKind::Chars, seq![SVal::Str(seq![ch])], span, tr, c) == (Out::Done(SVal::Int(1)), c),
        (ch as u32) < 0x80 ==> builtin_spec(BuiltinKind::Len, seq![SVal::Str(seq![ch])], span, tr, c) == (Out::Done(SVal::Int(1)), c),
        (ch as u32) >= 0x80 ==> 2 <= builtin_spec(BuiltinKind::Len, seq![SVal::Str(seq![ch])], span, tr, c).0->Done_0->Int_0 <= 4,
{
    lemma_utf8_len_split(s + u, 0, s.len() as int, (s + u).len() as int);
    assert((s + u).subrange(0, s.len() as int) =~= s);
    assert((s + u).subrange(s.len() as int, (s + u).len() as int) =~= u);
    assert((s + u).subrange(0, (s + u).len() as int) =~= s + u);
    lemma_utf8_len_bounds(s);
    lemma_utf8_len_bounds(u);
    lemma_utf8_len_push(Seq::<char>::empty(), ch);
    assert(Seq::<char>::empty().push(ch) =~= seq![ch]);
    assert(encode_utf8(Seq::<char>::empty()) =~= Seq::<u8>::empty());
}

/// `type` names the kind of any value: `"int"` for every integer and
/// `"string"` for every string; `int` of an integer is that integer.
pub proof fn law_type_names_kind(n: i64, s: Seq<char>, span: Span, tr: Trace, c: Cursor)
    ensures
        builtin_spec(BuiltinKind::Type, seq![SVal::Int(n)], span, tr, c) == (Out::Done(SVal::Str("int"@)), c),
        builtin_spec(BuiltinKind::Type, seq![SVal::Str(s)], span, tr, c) == (Out::Done(SVal::Str("string"@)), c),
        builtin_spec(BuiltinKind::Int, seq![SVal::Int(n)], span, tr, c) == (Out::Done(SVal::Int(n)), c),
{
}

/// Every number that `random(min, max)` gives lies in `[min, max)`.
pub proof fn law_random_in_range(args: Seq<SVal>, span: Span, tr: Trace, c: Cursor)
    requires
        builtin_spec(BuiltinKind::Random, args, span, tr, c).0 is Done,
    ensures
        args.len() >= 2,
        as_int(args[0]) is Ok,
        as_int(args[1]) is Ok,
        builtin_spec(BuiltinKind::Random, args, span, tr, c).0->Done_0 is Int,
        as_int(args[0])->Ok_0 <= builtin_spec(BuiltinKind::Random, args, span, tr, c).0->Done_0->Int_0 < as_int(args[1])->Ok_0,
{
}

proof fn lemma_text_order(a: Seq<char>, b: Seq<char>)
    ensures
        (text_order(a, b) == Order::Less) == (text_order(b, a) == Order::Greater),
        (text_order(a, b) == Order::Equal) == (a == b),
    decreases a.len(),
{
    if a.len() > 0 && b.len() > 0 && (a[0] as u32) == (b[0] as u32) {
        lemma_text_order(a.drop_first(), b.drop_first());
        char_u32_cast(a[0], a[0] as u32);
        char_u32_cast(b[0], b[0] as u32);
        assert(a[0] == b[0]);
        if a.drop_first() == b.drop_first() {
            assert(a =~= seq![a[0]] + a.drop_first());
            assert(b =~= seq![b[0]] + b.drop_first());
        }
        if a == b {
            assert(a.drop_first() =~= b.drop_first());
        }
    } else if a.len() > 0 && b.len() > 0 {
        assert(a != b);
    } else if a.len() == 0 && b.len() == 0 {
        assert(a =~= b);
    }
}

/// Whether `a` comes before `b` in lexicographic order: at the first index
/// where they differ, `a` has the smaller code point, or `a` is a proper
/// prefix of `b`.
pub open spec fn lex_before(a: Seq<char>, b: Seq<char>) -> bool {
    exists|k: int|
        0 <= k <= a.len() && k <= b.len() && #[trigger] a.subrange(0, k) == b.subrange(0, k) && (
            (k < a.len() && k < b.len() && (a[k] as u32) < (b[k] as u32)) || (k == a.len() && k < b.len()))
}

proof fn lemma_text_order_lex(a: Seq<char>, b: Seq<char>)
    ensures
        (text_order(a, b) == Order::Less) == lex_before(a, b),
    decreases a.len(),
{
    if a.len() == 0 {
        if b.len() > 0 {
            assert(a.subrange(0, 0) =~= b.subrange(0, 0));
        }
    } else if b.len() == 0 {
        if lex_before(a, b) {
            let k = choose|k: int|
                0 <= k <= a.len() && k <= b.len() && #[trigger] a.subrange(0, k) == b.subrange(0, k) && (
                    (k < a.len() && k < b.len() && (a[k] as u32) < (b[k] as u32)) || (k == a.len() && k < b.len()));
            assert(false);
        }
    } else if (a[0] as u32) < (b[0] as u32) {
        assert(a.subrange(0, 0) =~= b.subrange(0, 0));
    } else if (a[0] as u32) > (b[0] as u32) {
        if lex_before(a, b) {
            let k = choose|k: int|
                0 <= k <= a.len() && k <= b.len() && #[trigger] a.subrange(0, k) == b.subrange(0, k) && (
                    (k < a.len() && k < b.len() && (a[k] as u32) < (b[k] as u32)) || (k == a.len() && k < b.len()));
            if k > 0 {
                assert(a.subrange(0, k)[0] == b.subrange(0, k)[0]);
            }
            assert(false);
        }
    } else {
        let a1 = a.drop_first();
        let b1 = b.drop_first();
        lemma_text_order_lex(a1, b1);
        if lex_before(a, b) {
            let k = choose|k: int|
                0 <= k <= a.len() && k <= b.len() && #[trigger] a.subrange(0, k) == b.subrange(0, k) && (
                    (k < a.len() && k < b.len() && (a[k] as u32) < (b[k] as u32)) || (k == a.len() && k < b.len()));
            assert(k > 0);
            assert(a1.subrange(0, k - 1) =~= a.subrange(0, k).drop_first());
            assert(b1.subrange(0, k - 1) =~= b.subrange(0, k).drop_first());
            if k < a.len() && k < b.len() {
                assert(a1[k - 1] == a[k]);
                assert(b1[k - 1] == b[k]);
            }
            assert(lex_before(a1, b1));
        }
        if lex_before(a1, b1) {
            let k = choose|k: int|
                0 <= k <= a1.len() && k <= b1.len() && #[trigger] a1.subrange(0, k) == b1.subrange(0, k) && (
                    (k < a1.len() && k < b1.len() && (a1[k] as u32) < (b1[k] as u32)) || (k == a1.len() && k < b1.len()));
            char_u32_cast(a[0], a[0] as u32);
            char_u32_cast(b[0], b[0] as u32);
            assert(a.subrange(0, k + 1) =~= seq![a[0]] + a1.subrange(0, k));
            assert(b.subrange(0, k + 1) =~= seq![b[0]] + b1.subrange(0, k));
            if k < a1.len() && k < b1.len() {
                assert(a[k + 1] == a1[k]);
                assert(b[k + 1] == b1[k]);
            }
            assert(lex_before(a, b));
        }
    }
}

/// Strings compare in lexicographic order, whatever their lengths: `a < b`
/// gives 1 exactly when, at the first index where they differ, `a` has the
/// smaller code point, or `a` is a proper prefix of `b`; `a > b` is `b < a`.
pub proof fn law_string_order_is_lexicographic(a: Seq<char>, b: Seq<char>)
    ensures
        apply_bin(BinOp::Less, SVal::Str(a), SVal::Str(b)) == Ok::<SVal, RErr>(truth(lex_before(a, b))),
        apply_bin(BinOp::Greater, SVal::Str(a), SVal::Str(b)) == Ok::<SVal, RErr>(truth(lex_before(b, a))),
        apply_bin(BinOp::LessEqual, SVal::Str(a), SVal::Str(b)) == Ok::<SVal, RErr>(truth(lex_before(a, b) || a == b)),
        apply_bin(BinOp::GreaterEqual, SVal::Str(a), SVal::Str(b)) == Ok::<SVal, RErr>(truth(lex_before(b, a) || a == b)),
{
    lemma_text_order_lex(a, b);
    lemma_text_order_lex(b, a);
    lemma_text_order(a, b);
    lemma_text_order(b, a);
}

/// Comparisons read the same from either side: `a < b` is `b > a`,
/// `a <= b` is `b >= a`, and `==` and `!=` are symmetric.
pub proof fn law_compare_swap(a: SVal, b: SVal)
    ensures
        apply_bin(BinOp::Less, a, b) == apply_bin(BinOp::Greater, b, a),
        apply_bin(BinOp::LessEqual, a, b) == apply_bin(BinOp::GreaterEqual, b, a),
        apply_bin(BinOp::EqualEqual, a, b) == apply_bin(BinOp::EqualEqual, b, a),
        apply_bin(BinOp::NotEqual, a, b) == apply_bin(BinOp::NotEqual, b, a),
{
    if let (SVal::Str(x), SVal::Str(y)) = (a, b) {
        lemma_text_order(x, y);
        lemma_text_order(y, x);
    }
}

/// Two values of the same kind compare as exactly one of `<`, `==` and `>`;
/// `==` holds exactly when the values are equal.
pub proof fn law_compare_trichotomy(a: SVal, b: SVal)
    requires
        (a is Int) == (b is Int),
    ensures
        apply_bin(BinOp::EqualEqual, a, b) == Ok::<SVal, RErr>(truth(a == b)),
        (apply_bin(BinOp::Less, a, b) == Ok::<SVal, RErr>(truth(true))) as int
            + (apply_bin(BinOp::EqualEqual, a, b) == Ok::<SVal, RErr>(truth(true))) as int
            + (apply_bin(BinOp::Greater, a, b) == Ok::<SVal, RErr>(truth(true))) as int == 1,
{
    if let (SVal::Str(x), SVal::Str(y)) = (a, b) {
        lemma_text_order(x, y);
    }
}

/// An integer and a string are not ordered: each of `<`, `<=`, `>`, `>=`
/// and `==` gives 0 on them, and `!=` gives 1.
pub proof fn law_mixed_kinds_unordered(n: i64, s: Seq<char>)
    ensures
        apply_bin(BinOp::Less, SVal::Int(n), SVal::Str(s)) == Ok::<SVal, RErr>(SVal::Int(0)),
        apply_bin(BinOp::LessEqual, SVal::Int(n), SVal::Str(s)) == Ok::<SVal, RErr>(SVal::Int(0)),
        apply_bin(BinOp::Greater, SVal::Int(n), SVal::Str(s)) == Ok::<SVal, RErr>(SVal::Int(0)),
        apply_bin(BinOp::GreaterEqual, SVal::Int(n), SVal::Str(s)) == Ok::<SVal, RErr>(SVal::Int(0)),
        apply_bin(BinOp::EqualEqual, SVal::Int(n), SVal::Str(s)) == Ok::<SVal, RErr>(SVal::Int(0)),
        apply_bin(BinOp::NotEqual, SVal::Int(n), SVal::Str(s)) == Ok::<SVal, RErr>(SVal::Int(1)),
        apply_bin(BinOp::Less, SVal::Str(s), SVal::Int(n)) == Ok::<SVal, RErr>(SVal::Int(0)),
        apply_bin(BinOp::LessEqual, SVal::Str(s), SVal::Int(n)) == Ok::<SVal, RErr>(SVal::Int(0)),
        apply_bin(BinOp::Greater, SVal::Str(s), SVal::Int(n)) == Ok::<SVal, RErr>(SVal::Int(0)),
        apply_bin(BinOp::GreaterEqual, SVal::Str(s), SVal::Int(n)) == Ok::<SVal, RErr>(SVal::Int(0)),
        apply_bin(BinOp::EqualEqual, SVal::Str(s), SVal::Int(n)) == Ok::<SVal, RErr>(SVal::Int(0)),
        apply_bin(BinOp::NotEqual, SVal::Str(s), SVal::Int(n)) == Ok::<SVal, RErr>(SVal::Int(1)),
{
}

/// `+` on strings joins them, so it is associative; on integers it is
/// commutative.
pub proof fn law_plus(x: Seq<char>, y: Seq<char>, z: Seq<char>, m: i64, n: i64)
    ensures
        apply_bin(BinOp::Plus, SVal::Str(x), SVal::Str(y)) == Ok::<SVal, RErr>(SVal::Str(x + y)),
        apply_bin(BinOp::Plus, SVal::Str(x + y), SVal::Str(z)) == apply_bin(BinOp::Plus, SVal::Str(x), SVal::Str(y + z)),
        apply_bin(BinOp::Plus, SVal::Int(m), SVal::Int(n)) == apply_bin(BinOp::Plus, SVal::Int(n), SVal::Int(m)),
{
    assert((x + y) + z =~= x + (y + z));
}


/// Reading a variable that does not exist fails with `UndefinedVariable`
/// and changes nothing.
pub proof fn law_undefined_variable_fails(b: BMap, f: SFrame, name: Seq<char>, span: Span, fuel: nat, tr: Trace, c: Cursor)
    requires
        !f.vars.contains_key(name),
        fuel > 0,
    ensures
        eval(b, f, read_var(name, span), fuel, tr, c) == crate::interp_spec::fail::<crate::values::SVal>(
            f,
            RErr::UndefinedVariable { name, span },
            c,
        ),
{
}

/// On integers, subtracting what was added gives back the first operand.
pub proof fn law_minus_undoes_plus(m: i64, n: i64)
    requires
        apply_bin(BinOp::Plus, SVal::Int(m), SVal::Int(n)) is Ok,
    ensures
        apply_bin(BinOp::Minus, apply_bin(BinOp::Plus, SVal::Int(m), SVal::Int(n))->Ok_0, SVal::Int(n))
            == Ok::<SVal, RErr>(SVal::Int(m)),
{
}


/// Whether a token lies on one line and ends after it starts.
pub open spec fn well_placed(t: STokenPos) -> bool {
    &&& t.position.start.line == t.position.end.line
    &&& t.position.start.column < t.position.end.column
}

/// Whether token `a` ends before token `b` starts: on an earlier line, or on
/// the same line at or before `b`'s start column.
pub open spec fn ends_before(a: STokenPos, b: STokenPos) -> bool {
    ||| a.position.end.line < b.position.start.line
    ||| (a.position.end.line == b.position.start.line && a.position.end.column <= b.position.start.column)
}

/// Whether token `t` starts at line `line`, column `col` or after.
pub open spec fn starts_from(t: STokenPos, line: nat, col: nat) -> bool {
    ||| t.position.start.line > line
    ||| (t.position.start.line == line && t.position.start.column >= col)
}

proof fn lemma_lex_from_ordered(s: Seq<char>, i: int, line: nat, col: nat)
    requires
        0 <= i <= s.len(),
        line >= 1,
        col >= 1,
        line + (s.len() - i) <= usize::MAX,
        col + utf8_len(s.subrange(i, s.len() as int)) <= usize::MAX,
    ensures
        forall|k: int| 0 <= k < lex_from(s, i, line, col).len() ==> #[trigger] well_placed(lex_from(s, i, line, col)[k]),
        forall|k: int| 0 <= k < lex_from(s, i, line, col).len() - 1
            ==> #[trigger] ends_before(lex_from(s, i, line, col)[k], lex_from(s, i, line, col)[k + 1]),
        lex_from(s, i, line, col).len() > 0 ==> starts_from(lex_from(s, i, line, col)[0], line, col),
    decreases s.len() - i,
{
    if i < s.len() {
        let l = lexeme_at(s, i);
        let n = lexeme_len(l);
        if n != 0 && i + n <= s.len() {
            let w = utf8_len(s.subrange(i, i + n));
            lemma_utf8_len_split(s, i, i + n, s.len() as int);
            lemma_utf8_len_bounds(s.subrange(i, i + n));
            match l {
                Lexeme::Skip(_) => lemma_lex_from_ordered(s, i + n, line, col),
                Lexeme::NewLine => {
                    lemma_lex_from_ordered(s, i + 1, line + 1, 2);
                },
                Lexeme::Error(_) => lemma_lex_from_ordered(s, i + n, line, col + 1),
                _ => {
                    lemma_lex_from_ordered(s, i + n, line, col + w);
                    let rest = lex_from(s, i + n, line, col + w);
                    let head = lex_from(s, i, line, col)[0];
                    assert(lex_from(s, i, line, col) == seq![head] + rest);
                    assert(well_placed(head));
                    assert forall|k: int| 0 <= k < lex_from(s, i, line, col).len() - 1
                        implies #[trigger] ends_before(lex_from(s, i, line, col)[k], lex_from(s, i, line, col)[k + 1]) by {
                        if k > 0 {
                            assert(lex_from(s, i, line, col)[k] == rest[k - 1]);
                            assert(lex_from(s, i, line, col)[k + 1] == rest[k]);
                            assert(ends_before(rest[k - 1], rest[(k - 1) + 1]));
                        } else {
                            assert(lex_from(s, i, line, col)[1] == rest[0]);
                        }
                    }
                    assert forall|k: int| 0 <= k < lex_from(s, i, line, col).len()
                        implies #[trigger] well_placed(lex_from(s, i, line, col)[k]) by {
                        if k > 0 {
                            assert(lex_from(s, i, line, col)[k] == rest[k - 1]);
                        }
                    }
                },
            }
        }
    }
}

/// The lexer gives its tokens in source order, each on one line: every token
/// ends after it starts, and ends before the next one starts.
pub proof fn law_tokens_in_order(s: Seq<char>)
    requires
        utf8_len(s) < usize::MAX,
    ensures
        forall|k: int| 0 <= k < lex_spec(s).len() ==> #[trigger] well_placed(lex_spec(s)[k]),
        forall|k: int| 0 <= k < lex_spec(s).len() - 1 ==> #[trigger] ends_before(lex_spec(s)[k], lex_spec(s)[k + 1]),
{
    lemma_utf8_len_bounds(s);
    assert(s.subrange(0, s.len() as int) =~= s);
    lemma_lex_from_ordered(s, 0, 1, 1);
}

/// The number of line breaks that the scan of `s` from index `i` meets
/// before index `j`. A line break inside a string literal belongs to the
/// literal and is not met by the scan.
pub open spec fn breaks_before(s: Seq<char>, i: int, j: int) -> nat
    decreases s.len() - i,
{
    if i < 0 || i >= s.len() || i >= j {
        0
    } else {
        let n = lexeme_len(lexeme_at(s, i));
        if n == 0 || i + n > s.len() {
            0
        } else if lexeme_at(s, i) is NewLine {
            1 + breaks_before(s, i + n, j)
        } else {
            breaks_before(s, i + n, j)
        }
    }
}

/// The indices of `s`, from index `i` on, at which the scan meets a token.
pub open spec fn token_starts(s: Seq<char>, i: int) -> Seq<int>
    decreases s.len() - i,
{
    if i < 0 || i >= s.len() {
        Seq::empty()
    } else {
        let l = lexeme_at(s, i);
        let n = lexeme_len(l);
        if n == 0 || i + n > s.len() {
            Seq::empty()
        } else if l is Tok || l is Num {
            seq![i] + token_starts(s, i + n)
        } else {
            token_starts(s, i + n)
        }
    }
}

/// The token a lexeme stands for, if it stands for one.
pub open spec fn lexeme_token(l: Lexeme) -> Option<SToken> {
    match l {
        Lexeme::Tok(t, _) => Some(t),
        Lexeme::Num(v, _) => Some(SToken::Number(v as i64)),
        _ => None,
    }
}

/// Whether token `t` is the lexeme of `s` at index `j`, on line `line` plus
/// the line breaks met from index `i`, as wide as the UTF-8 bytes of its text.
pub open spec fn read_from(s: Seq<char>, i: int, line: nat, j: int, t: STokenPos) -> bool {
    &&& i <= j < s.len()
    &&& lexeme_token(lexeme_at(s, j)) == Some(t.token)
    &&& t.position.start.line == line + breaks_before(s, i, j)
    &&& t.position.end.column - t.position.start.column
        == utf8_len(s.subrange(j, j + lexeme_len(lexeme_at(s, j))))
}

proof fn lemma_lex_from_sources(s: Seq<char>, i: int, line: nat, col: nat)
    requires
        0 <= i <= s.len(),
        col >= 1,
        line + (s.len() - i) <= usize::MAX,
        col + utf8_len(s.subrange(i, s.len() as int)) <= usize::MAX,
    ensures
        token_starts(s, i).len() == lex_from(s, i, line, col).len(),
        forall|k: int| 0 <= k < lex_from(s, i, line, col).len()
            ==> read_from(s, i, line, token_starts(s, i)[k], #[trigger] lex_from(s, i, line, col)[k]),
    decreases s.len() - i,
{
    if i < s.len() {
        let l = lexeme_at(s, i);
        let n = lexeme_len(l);
        if n != 0 && i + n <= s.len() {
            let w = utf8_len(s.subrange(i, i + n));
            lemma_utf8_len_split(s, i, i + n, s.len() as int);
            lemma_utf8_len_bounds(s.subrange(i, i + n));
            match l {
                Lexeme::Skip(_) => {
                    lemma_lex_from_sources(s, i + n, line, col);
                    assert forall|k: int| 0 <= k < lex_from(s, i, line, col).len()
                        implies read_from(s, i, line, token_starts(s, i)[k], #[trigger] lex_from(s, i, line, col)[k]) by {
                        assert(read_from(s, i + n, line, token_starts(s, i + n)[k], lex_from(s, i + n, line, col)[k]));
                    }
                },
                Lexeme::NewLine => {
                    lemma_lex_from_sources(s, i + 1, line + 1, 2);
                    assert forall|k: int| 0 <= k < lex_from(s, i, line, col).len()
                        implies read_from(s, i, line, token_starts(s, i)[k], #[trigger] lex_from(s, i, line, col)[k]) by {
                        assert(read_from(s, i + 1, line + 1, token_starts(s, i + 1)[k], lex_from(s, i + 1, line + 1, 2)[k]));
                    }
                },
                Lexeme::Error(_) => {
                    lemma_lex_from_sources(s, i + n, line, col + 1);
                    assert forall|k: int| 0 <= k < lex_from(s, i, line, col).len()
                        implies read_from(s, i, line, token_starts(s, i)[k], #[trigger] lex_from(s, i, line, col)[k]) by {
                        assert(read_from(s, i + n, line, token_starts(s, i + n)[k], lex_from(s, i + n, line, col + 1)[k]));
                    }
                },
                _ => {
                    lemma_lex_from_sources(s, i + n, line, col + w);
                    let rest = lex_from(s, i + n, line, col + w);
                    let head = lex_from(s, i, line, col)[0];
                    assert(lex_from(s, i, line, col) == seq![head] + rest);
                    assert(token_starts(s, i) == seq![i] + token_starts(s, i + n));
                    assert forall|k: int| 0 <= k < lex_from(s, i, line, col).len()
                        implies read_from(s, i, line, token_starts(s, i)[k], #[trigger] lex_from(s, i, line, col)[k]) by {
                        if k > 0 {
                            assert(lex_from(s, i, line, col)[k] == rest[k - 1]);
                            assert(token_starts(s, i)[k] == token_starts(s, i + n)[k - 1]);
                            assert(read_from(s, i + n, line, token_starts(s, i + n)[k - 1], rest[k - 1]));
                        }
                    }
                },
            }
        }
    }
}

/// Each token the lexer gives is read from the source text: its line is one
/// more than the line breaks before it (those inside string literals not
/// counted), and its width is the number of UTF-8 bytes of its text.
pub proof fn law_token_lines_and_widths(s: Seq<char>)
    requires
        utf8_len(s) < usize::MAX,
    ensures
        token_starts(s, 0).len() == lex_spec(s).len(),
        forall|k: int| 0 <= k < lex_spec(s).len()
            ==> read_from(s, 0, 1, token_starts(s, 0)[k], #[trigger] lex_spec(s)[k]),
{
    lemma_utf8_len_bounds(s);
    assert(s.subrange(0, s.len() as int) =~= s);
    lemma_lex_from_sources(s, 0, 1, 1);
}


/// Whether a step ended because it ran out of steps.
pub open spec fn hit_limit<T>(o: Out<T>) -> bool {
    o matches Out::Fail(e) && e is StepLimit
}

/// An expression that evaluates within its steps evaluates the same way
/// with more steps.
pub proof fn law_eval_more_steps(b: BMap, f: SFrame, e: SExpr, fuel: nat, fuel2: nat, tr: Trace, c: Cursor)
    requires
        fuel <= fuel2,
        !hit_limit(eval(b, f, e, fuel, tr, c).out),
    ensures
        eval(b, f, e, fuel2, tr, c) == eval(b, f, e, fuel, tr, c),
    decreases fuel, 0int,
{
    if fuel > 0 {
        let fu = (fuel - 1) as nat;
        let fu2 = (fuel2 - 1) as nat;
        match e.kind {
            SExprKind::Bin(op, l, r) => law_eval_bin_more_steps(b, f, op, *l, *r, fu, fu2, tr, c),
            SExprKind::Call { call, args } => match call.kind {
                SExprKind::Ident(name) => law_eval_call_more_steps(b, f, name, args, e.span, fu, fu2, tr, c),
                _ => {},
            },
            _ => {},
        }
    }
}

/// A binary operation that ends within its steps ends the same way with more steps.
pub proof fn law_eval_bin_more_steps(
    b: BMap,
    f: SFrame,
    op: BinOp,
    l: SExpr,
    r: SExpr,
    fuel: nat,
    fuel2: nat,
    tr: Trace,
    c: Cursor,
)
    requires
        fuel <= fuel2,
        !hit_limit(eval_bin(b, f, op, l, r, fuel, tr, c).out),
    ensures
        eval_bin(b, f, op, l, r, fuel2, tr, c) == eval_bin(b, f, op, l, r, fuel, tr, c),
    decreases fuel, 1int,
{
    let (first, second) = if op == BinOp::Slash { (r, l) } else { (l, r) };
    let s1 = eval(b, f, first, fuel, tr, c);
    law_eval_more_steps(b, f, first, fuel, fuel2, tr, c);
    if s1.out is Done && !(op == BinOp::Slash && s1.out->Done_0 == SVal::Int(0)) {
        law_eval_more_steps(b, s1.frame, second, fuel, fuel2, tr, s1.cur);
    }
}

/// Call arguments that evaluate within their steps evaluate the same way with more steps.
pub proof fn law_eval_args_more_steps(
    b: BMap,
    f: SFrame,
    args: Seq<SExpr>,
    i: int,
    acc: Seq<SVal>,
    fuel: nat,
    fuel2: nat,
    tr: Trace,
    c: Cursor,
)
    requires
        fuel <= fuel2,
        !hit_limit(eval_args(b, f, args, i, acc, fuel, tr, c).out),
    ensures
        eval_args(b, f, args, i, acc, fuel2, tr, c) == eval_args(b, f, args, i, acc, fuel, tr, c),
    decreases fuel, 1int,
{
    if 0 <= i < args.len() && fuel > 0 {
        let fu = (fuel - 1) as nat;
        let fu2 = (fuel2 - 1) as nat;
        let s = eval(b, f, args[i], fu, tr, c);
        law_eval_more_steps(b, f, args[i], fu, fu2, tr, c);
        if let Out::Done(v) = s.out {
            law_eval_args_more_steps(b, s.frame, args, i + 1, acc.push(v), fu, fu2, tr, s.cur);
        }
    }
}

/// Parameters that bind within their steps bind the same way with more steps.
pub proof fn law_bind_args_more_steps(
    b: BMap,
    f: SFrame,
    params: Seq<Seq<char>>,
    args: Seq<SExpr>,
    i: int,
    locals: Map<Seq<char>, (SVal, bool)>,
    fuel: nat,
    fuel2: nat,
    tr: Trace,
    c: Cursor,
)
    requires
        fuel <= fuel2,
        !hit_limit(bind_args(b, f, params, args, i, locals, fuel, tr, c).out),
    ensures
        bind_args(b, f, params, args, i, locals, fuel2, tr, c) == bind_args(b, f, params, args, i, locals, fuel, tr, c),
    decreases fuel, 1int,
{
    if 0 <= i < args.len() && i < params.len() && fuel > 0 {
        let fu = (fuel - 1) as nat;
        let fu2 = (fuel2 - 1) as nat;
        let s = eval(b, f, args[i], fu, tr, c);
        law_eval_more_steps(b, f, args[i], fu, fu2, tr, c);
        if let Out::Done(v) = s.out {
            law_bind_args_more_steps(b, s.frame, params, args, i + 1, locals.insert(params[i], (v, false)), fu, fu2, tr, s.cur);
        }
    }
}

/// A call that ends within its steps ends the same way with more steps.
pub proof fn law_eval_call_more_steps(
    b: BMap,
    f: SFrame,
    name: Seq<char>,
    args: Seq<SExpr>,
    span: Span,
    fuel: nat,
    fuel2: nat,
    tr: Trace,
    c: Cursor,
)
    requires
        fuel <= fuel2,
        !hit_limit(eval_call(b, f, name, args, span, fuel, tr, c).out),
    ensures
        eval_call(b, f, name, args, span, fuel2, tr, c) == eval_call(b, f, name, args, span, fuel, tr, c),
    decreases fuel, 2int,
{
    let sa = eval_args(b, f, args, 0, Seq::empty(), fuel, tr, c);
    law_eval_args_more_steps(b, f, args, 0, Seq::empty(), fuel, fuel2, tr, c);
    if sa.out is Done && !b.contains_key(name) && sa.frame.funcs.contains_key(name) {
        let (params, body) = sa.frame.funcs[name];
        if params.len() == args.len() {
            let sb = bind_args(b, sa.frame, params, args, 0, Map::empty(), fuel, tr, sa.cur);
            law_bind_args_more_steps(b, sa.frame, params, args, 0, Map::empty(), fuel, fuel2, tr, sa.cur);
            if let Out::Done(locals) = sb.out {
                let local = SFrame { vars: locals, funcs: sa.frame.funcs, loaded: sa.frame.loaded };
                law_block_more_steps(b, local, body, 0, fuel, fuel2, tr, sb.cur);
            }
        }
    }
}

/// A statement that ends within its steps ends the same way with more steps.
pub proof fn law_stmt_more_steps(b: BMap, f: SFrame, s: SStmt, fuel: nat, fuel2: nat, tr: Trace, c: Cursor)
    requires
        fuel <= fuel2,
        !hit_limit(exec_stmt(b, f, s, fuel, tr, c).out),
    ensures
        exec_stmt(b, f, s, fuel2, tr, c) == exec_stmt(b, f, s, fuel, tr, c),
    decreases fuel, 0int,
{
    if fuel > 0 {
        let fu = (fuel - 1) as nat;
        let fu2 = (fuel2 - 1) as nat;
        match s.kind {
            SStmtKind::VerDecl { name, value, mutable } => law_eval_more_steps(b, f, value, fu, fu2, tr, c),
            SStmtKind::Assign { name, value } => law_eval_more_steps(b, f, value, fu, fu2, tr, c),
            SStmtKind::If { cond, then_branch, else_branch } => {
                let sc = eval(b, f, cond, fu, tr, c);
                law_eval_more_steps(b, f, cond, fu, fu2, tr, c);
                if sc.out is Done {
                    if !eq_spec(sc.out->Done_0, SVal::Int(0)) {
                        law_block_more_steps(b, sc.frame, then_branch, 0, fu, fu2, tr, sc.cur);
                    } else if let Some(eb) = else_branch {
                        law_block_more_steps(b, sc.frame, eb, 0, fu, fu2, tr, sc.cur);
                    }
                }
            },
            SStmtKind::While { cond, body } => law_loop_more_steps(b, f, cond, body, None, fu, fu2, tr, c),
            SStmtKind::For { init, cond, incr, body } => {
                let si = exec_stmt(b, f, *init, fu, tr, c);
                law_stmt_more_steps(b, f, *init, fu, fu2, tr, c);
                if si.out is Done {
                    law_loop_more_steps(b, si.frame, cond, body, incr, fu, fu2, tr, si.cur);
                }
            },
            SStmtKind::Expr(e) => law_eval_more_steps(b, f, e, fu, fu2, tr, c),
            SStmtKind::Print(e) => law_eval_more_steps(b, f, e, fu, fu2, tr, c),
            SStmtKind::Func { name, params, body } => {},
            SStmtKind::Return(e) => law_eval_more_steps(b, f, e, fu, fu2, tr, c),
            SStmtKind::Use(name) => law_use_more_steps(b, f, name, s.span, fu, fu2, tr, c),
        }
    }
}

/// A block that ends within its steps ends the same way with more steps.
pub proof fn law_block_more_steps(b: BMap, f: SFrame, stmts: Seq<SStmt>, i: int, fuel: nat, fuel2: nat, tr: Trace, c: Cursor)
    requires
        fuel <= fuel2,
        !hit_limit(exec_block(b, f, stmts, i, fuel, tr, c).out),
    ensures
        exec_block(b, f, stmts, i, fuel2, tr, c) == exec_block(b, f, stmts, i, fuel, tr, c),
    decreases fuel, 1int,
{
    if 0 <= i < stmts.len() && fuel > 0 {
        let fu = (fuel - 1) as nat;
        let fu2 = (fuel2 - 1) as nat;
        let s = exec_stmt(b, f, stmts[i], fu, tr, c);
        law_stmt_more_steps(b, f, stmts[i], fu, fu2, tr, c);
        if s.out == Out::Done(Flow::Normal) {
            law_block_more_steps(b, s.frame, stmts, i + 1, fu, fu2, tr, s.cur);
        }
    }
}

/// A module's statements that end within their steps end the same way with more steps.
pub proof fn law_import_more_steps(b: BMap, f: SFrame, stmts: Seq<SStmt>, i: int, fuel: nat, fuel2: nat, tr: Trace, c: Cursor)
    requires
        fuel <= fuel2,
        !hit_limit(exec_import(b, f, stmts, i, fuel, tr, c).out),
    ensures
        exec_import(b, f, stmts, i, fuel2, tr, c) == exec_import(b, f, stmts, i, fuel, tr, c),
    decreases fuel, 1int,
{
    if 0 <= i < stmts.len() && fuel > 0 {
        let fu = (fuel - 1) as nat;
        let fu2 = (fuel2 - 1) as nat;
        let s = exec_stmt(b, f, stmts[i], fu, tr, c);
        law_stmt_more_steps(b, f, stmts[i], fu, fu2, tr, c);
        if s.out is Done {
            law_import_more_steps(b, s.frame, stmts, i + 1, fu, fu2, tr, s.cur);
        }
    }
}

/// A loop that ends within its steps ends the same way with more steps.
pub proof fn law_loop_more_steps(
    b: BMap,
    f: SFrame,
    cond: SExpr,
    body: Seq<SStmt>,
    incr: Option<SExpr>,
    fuel: nat,
    fuel2: nat,
    tr: Trace,
    c: Cursor,
)
    requires
        fuel <= fuel2,
        !hit_limit(exec_loop(b, f, cond, body, incr, fuel, tr, c).out),
    ensures
        exec_loop(b, f, cond, body, incr, fuel2, tr, c) == exec_loop(b, f, cond, body, incr, fuel, tr, c),
    decreases fuel, 1int,
{
    if fuel > 0 {
        let fu = (fuel - 1) as nat;
        let fu2 = (fuel2 - 1) as nat;
        let sc = eval(b, f, cond, fu, tr, c);
        law_eval_more_steps(b, f, cond, fu, fu2, tr, c);
        if sc.out is Done && !eq_spec(sc.out->Done_0, SVal::Int(0)) {
            let sb = exec_block(b, sc.frame, body, 0, fu, tr, sc.cur);
            law_block_more_steps(b, sc.frame, body, 0, fu, fu2, tr, sc.cur);
            if sb.out == Out::Done(Flow::Normal) {
                match incr {
                    Some(ie) => {
                        let si = eval(b, sb.frame, ie, fu, tr, sb.cur);
                        law_eval_more_steps(b, sb.frame, ie, fu, fu2, tr, sb.cur);
                        if si.out is Done {
                            law_loop_more_steps(b, si.frame, cond, body, incr, fu, fu2, tr, si.cur);
                        }
                    },
                    None => law_loop_more_steps(b, sb.frame, cond, body, incr, fu, fu2, tr, sb.cur),
                }
            }
        }
    }
}

/// A module's source that runs within its steps runs the same way with more steps.
pub proof fn law_module_more_steps(b: BMap, f: SFrame, code: Seq<char>, fuel: nat, fuel2: nat, tr: Trace, c: Cursor)
    requires
        fuel <= fuel2,
        !hit_limit(exec_module(b, f, code, fuel, tr, c).out),
    ensures
        exec_module(b, f, code, fuel2, tr, c) == exec_module(b, f, code, fuel, tr, c),
    decreases fuel, 2int,
{
    if utf8_len(code) < usize::MAX && crate::lexer::numbers_fit(code, 0) {
        match crate::parse_spec::parse_spec(crate::lexer::lex_spec(code)) {
            Ok(stmts) => law_import_more_steps(b, f, stmts, 0, fuel, fuel2, tr, c),
            Err(_) => {},
        }
    }
}

/// A `use` that ends within its steps ends the same way with more steps.
pub proof fn law_use_more_steps(b: BMap, f: SFrame, name: Seq<char>, span: Span, fuel: nat, fuel2: nat, tr: Trace, c: Cursor)
    requires
        fuel <= fuel2,
        !hit_limit(exec_use(b, f, name, span, fuel, tr, c).out),
    ensures
        exec_use(b, f, name, span, fuel2, tr, c) == exec_use(b, f, name, span, fuel, tr, c),
    decreases fuel, 3int,
{
    if !f.loaded.contains(name) {
        if let crate::io::IoEvent::Module(n, r) = (tr.io)(c.io) {
            if n == name {
                if let Ok(code) = r {
                    let f1 = SFrame { loaded: f.loaded.insert(name), ..f };
                    law_module_more_steps(b, f1, code, fuel, fuel2, tr, crate::interp_spec::skip_io(c, 1));
                }
            }
        }
    }
}


/// The expression `++name`, `--name`, `name++` or `name--`.
pub open spec fn step_expr(op: StepOp, name: Seq<char>, span: Span) -> SExpr {
    SExpr { kind: SExprKind::Step(op, name), span }
}

/// The frame `f` with the integer `v` in the variable `name`, which keeps
/// whether it may be assigned.
pub open spec fn with_int(f: SFrame, name: Seq<char>, v: int) -> SFrame {
    SFrame { vars: f.vars.insert(name, (SVal::Int(v as i64), f.vars[name].1)), ..f }
}

/// Reading a variable that holds the integer `n` gives `n` and changes
/// nothing. `++name` and `--name` give `n + 1` and `n - 1` and leave that in
/// the variable; `name++` and `name--` give `n` and leave `n + 1` and `n - 1`.
/// Nothing else changes.
pub proof fn law_read_and_step(b: BMap, f: SFrame, name: Seq<char>, span: Span, n: i64, fuel: nat, tr: Trace, c: Cursor)
    requires
        f.vars.contains_key(name),
        f.vars[name].0 == SVal::Int(n),
        i64::MIN < n < i64::MAX,
        fuel > 0,
    ensures
        eval(b, f, read_var(name, span), fuel, tr, c) == done(f, SVal::Int(n), c),
        eval(b, f, step_expr(StepOp::PreInc, name, span), fuel, tr, c) == done(with_int(f, name, n + 1), SVal::Int((n + 1) as i64), c),
        eval(b, f, step_expr(StepOp::PreDec, name, span), fuel, tr, c) == done(with_int(f, name, n - 1), SVal::Int((n - 1) as i64), c),
        eval(b, f, step_expr(StepOp::PostInc, name, span), fuel, tr, c) == done(with_int(f, name, n + 1), SVal::Int(n), c),
        eval(b, f, step_expr(StepOp::PostDec, name, span), fuel, tr, c) == done(with_int(f, name, n - 1), SVal::Int(n), c),
{
}

/// `++`, `--` on a name that is not bound fail with `UndefinedVariable`
/// and change nothing.
pub proof fn law_step_unbound_fails(b: BMap, f: SFrame, op: StepOp, name: Seq<char>, span: Span, fuel: nat, tr: Trace, c: Cursor)
    requires
        !f.vars.contains_key(name),
        fuel > 0,
    ensures
        eval(b, f, step_expr(op, name, span), fuel, tr, c) == fail::<SVal>(f, RErr::UndefinedVariable { name, span }, c),
{
}

/// The comparison operators give 1 or 0: integers compare as integers,
/// strings by the order of their characters, and `==` holds exactly for equal
/// values (values of mixed kinds: see `law_mixed_kinds_unordered`).
pub proof fn law_compare_values(x: i64, y: i64, a: Seq<char>, z: Seq<char>)
    ensures
        apply_bin(BinOp::Less, SVal::Int(x), SVal::Int(y)) == Ok::<SVal, RErr>(truth(x < y)),
        apply_bin(BinOp::LessEqual, SVal::Int(x), SVal::Int(y)) == Ok::<SVal, RErr>(truth(x <= y)),
        apply_bin(BinOp::Greater, SVal::Int(x), SVal::Int(y)) == Ok::<SVal, RErr>(truth(x > y)),
        apply_bin(BinOp::GreaterEqual, SVal::Int(x), SVal::Int(y)) == Ok::<SVal, RErr>(truth(x >= y)),
        apply_bin(BinOp::EqualEqual, SVal::Int(x), SVal::Int(y)) == Ok::<SVal, RErr>(truth(x == y)),
        apply_bin(BinOp::NotEqual, SVal::Int(x), SVal::Int(y)) == Ok::<SVal, RErr>(truth(x != y)),
        apply_bin(BinOp::Less, SVal::Str(a), SVal::Str(z)) == Ok::<SVal, RErr>(truth(text_order(a, z) == Order::Less)),
        apply_bin(BinOp::LessEqual, SVal::Str(a), SVal::Str(z)) == Ok::<SVal, RErr>(truth(text_order(a, z) != Order::Greater)),
        apply_bin(BinOp::Greater, SVal::Str(a), SVal::Str(z)) == Ok::<SVal, RErr>(truth(text_order(a, z) == Order::Greater)),
        apply_bin(BinOp::GreaterEqual, SVal::Str(a), SVal::Str(z)) == Ok::<SVal, RErr>(truth(text_order(a, z) != Order::Less)),
        apply_bin(BinOp::EqualEqual, SVal::Str(a), SVal::Str(z)) == Ok::<SVal, RErr>(truth(a == z)),
        apply_bin(BinOp::NotEqual, SVal::Str(a), SVal::Str(z)) == Ok::<SVal, RErr>(truth(a != z)),
{
}

/// An operator other than `/` evaluates its left operand, then its right one
/// in the frame the left one left, and then gives the operator's value on the
/// two (or the failure it causes).
pub proof fn law_binary_operands_in_order(
    b: BMap,
    f: SFrame,
    op: BinOp,
    l: SExpr,
    r: SExpr,
    fuel: nat,
    tr: Trace,
    c: Cursor,
    g: SFrame,
    va: SVal,
    d: Cursor,
    h: SFrame,
    vb: SVal,
    e: Cursor,
)
    requires
        op != BinOp::Slash,
        eval(b, f, l, fuel, tr, c) == done(g, va, d),
        eval(b, g, r, fuel, tr, d) == done(h, vb, e),
    ensures
        eval_bin(b, f, op, l, r, fuel, tr, c) == match apply_bin(op, va, vb) {
            Ok(v) => done(h, v, e),
            Err(err) => fail(h, err, e),
        },
{
}

proof fn lemma_eval_args_len(b: BMap, f: SFrame, args: Seq<SExpr>, i: int, acc: Seq<SVal>, fuel: nat, tr: Trace, c: Cursor)
    requires
        0 <= i <= args.len(),
        eval_args(b, f, args, i, acc, fuel, tr, c).out is Done,
    ensures
        eval_args(b, f, args, i, acc, fuel, tr, c).out->Done_0.len() == acc.len() + args.len() - i,
    decreases args.len() - i,
{
    if i < args.len() && fuel > 0 {
        let fu = (fuel - 1) as nat;
        let s = eval(b, f, args[i], fu, tr, c);
        if let Out::Done(v) = s.out {
            lemma_eval_args_len(b, s.frame, args, i + 1, acc.push(v), fu, tr, s.cur);
        }
    }
}

/// A call whose arguments evaluate checks, in this order: a builtin's fixed
/// number of arguments, then whether the name is known at all, then a
/// function's number of parameters, each failing with its own error.
pub proof fn law_call_checks(b: BMap, f: SFrame, name: Seq<char>, args: Seq<SExpr>, span: Span, fuel: nat, tr: Trace, c: Cursor)
    requires
        eval_args(b, f, args, 0, Seq::empty(), fuel, tr, c).out is Done,
    ensures
        b.contains_key(name) && b[name].1 is Some && b[name].1->0 != args.len() ==> eval_call(b, f, name, args, span, fuel, tr, c).out
            == Out::<SVal>::Fail(RErr::ArgumentMismatch { expected: b[name].1->0, got: args.len() as usize }),
        !b.contains_key(name) && !f.funcs.contains_key(name) ==> eval_call(b, f, name, args, span, fuel, tr, c).out
            == Out::<SVal>::Fail(RErr::UndefinedFunction { name, span }),
        !b.contains_key(name) && f.funcs.contains_key(name) && f.funcs[name].0.len() != args.len() ==> eval_call(
            b,
            f,
            name,
            args,
            span,
            fuel,
            tr,
            c,
        ).out == Out::<SVal>::Fail(RErr::ArgumentMismatch { expected: f.funcs[name].0.len() as usize, got: args.len() as usize }),
{
    law_eval_args_keeps_shape(b, f, args, 0, Seq::empty(), fuel, tr, c);
    lemma_eval_args_len(b, f, args, 0, Seq::empty(), fuel, tr, c);
}

/// A builtin added under a name is what a call by that name runs: once the
/// arguments evaluate (and their number fits), the call gives what the
/// builtin gives on them.
pub proof fn law_added_builtin_is_called(
    b: BMap,
    k: BuiltinKind,
    arity: Option<usize>,
    f: SFrame,
    name: Seq<char>,
    args: Seq<SExpr>,
    span: Span,
    fuel: nat,
    tr: Trace,
    c: Cursor,
    g: SFrame,
    vals: Seq<SVal>,
    d: Cursor,
)
    requires
        eval_args(b.insert(name, (k, arity)), f, args, 0, Seq::empty(), fuel, tr, c) == done(g, vals, d),
        arity is None || arity->0 == args.len(),
    ensures
        eval_call(b.insert(name, (k, arity)), f, name, args, span, fuel, tr, c) == (StepRes {
            frame: g,
            out: builtin_spec(k, vals, span, tr, d).0,
            cur: builtin_spec(k, vals, span, tr, d).1,
        }),
{
}

/// Assignment has three cases, once its value evaluates: a name not bound
/// gets a variable that cannot be assigned again, a variable that may be
/// assigned takes the value, and any other fails with `ImmutableAssignment`
/// and changes nothing. Nothing but that variable changes.
pub proof fn law_assignment_cases(
    b: BMap,
    f: SFrame,
    name: Seq<char>,
    value: SExpr,
    span: Span,
    fuel: nat,
    tr: Trace,
    c: Cursor,
    g: SFrame,
    v: SVal,
    d: Cursor,
)
    requires
        fuel > 0,
        eval(b, f, value, (fuel - 1) as nat, tr, c) == done(g, v, d),
    ensures
        !f.vars.contains_key(name) ==> exec_stmt(b, f, assign_stmt(name, value, span), fuel, tr, c)
            == done(SFrame { vars: g.vars.insert(name, (v, false)), ..g }, Flow::Normal, d),
        f.vars.contains_key(name) && f.vars[name].1 ==> exec_stmt(b, f, assign_stmt(name, value, span), fuel, tr, c)
            == done(SFrame { vars: g.vars.insert(name, (v, true)), ..g }, Flow::Normal, d),
        f.vars.contains_key(name) && !f.vars[name].1 ==> exec_stmt(b, f, assign_stmt(name, value, span), fuel, tr, c)
            == fail::<Flow>(g, RErr::ImmutableAssignment { name, span }, d),
{
    law_eval_keeps_shape(b, f, value, (fuel - 1) as nat, tr, c);
    if f.vars.contains_key(name) {
        assert(g.vars.contains_key(name));
    } else {
        assert(!g.vars.dom().contains(name));
    }
}

/// `if` takes its first branch exactly when the condition is not the
/// integer 0 (any string counts as true), else the `else` branch or nothing,
/// and runs the branch taken as a block.
pub proof fn law_if_branch(
    b: BMap,
    f: SFrame,
    cond: SExpr,
    then_branch: Seq<SStmt>,
    else_branch: Option<Seq<SStmt>>,
    span: Span,
    fuel: nat,
    tr: Trace,
    c: Cursor,
    g: SFrame,
    v: SVal,
    d: Cursor,
)
    requires
        fuel > 0,
        eval(b, f, cond, (fuel - 1) as nat, tr, c) == done(g, v, d),
    ensures
        eq_spec(v, SVal::Int(0)) == (v == SVal::Int(0)),
        exec_stmt(b, f, SStmt { kind: SStmtKind::If { cond, then_branch, else_branch }, span }, fuel, tr, c) == if v != SVal::Int(0) {
            exec_block(b, g, then_branch, 0, (fuel - 1) as nat, tr, d)
        } else {
            match else_branch {
                Some(eb) => exec_block(b, g, eb, 0, (fuel - 1) as nat, tr, d),
                None => done(g, Flow::Normal, d),
            }
        },
{
}

/// A block runs its statements in order: one that ends normally is followed
/// by the next, and one that returns or fails ends the block with its result.
pub proof fn law_block_runs_in_order(b: BMap, f: SFrame, stmts: Seq<SStmt>, i: int, fuel: nat, tr: Trace, c: Cursor)
    requires
        0 <= i < stmts.len(),
        fuel > 0,
    ensures
        exec_stmt(b, f, stmts[i], (fuel - 1) as nat, tr, c).out == Out::Done(Flow::Normal) ==> exec_block(b, f, stmts, i, fuel, tr, c)
            == exec_block(
            b,
            exec_stmt(b, f, stmts[i], (fuel - 1) as nat, tr, c).frame,
            stmts,
            i + 1,
            (fuel - 1) as nat,
            tr,
            exec_stmt(b, f, stmts[i], (fuel - 1) as nat, tr, c).cur,
        ),
        exec_stmt(b, f, stmts[i], (fuel - 1) as nat, tr, c).out != Out::Done(Flow::Normal) ==> exec_block(b, f, stmts, i, fuel, tr, c)
            == exec_stmt(b, f, stmts[i], (fuel - 1) as nat, tr, c),
{
}

/// A loop ends normally only right after its condition evaluated to the
/// integer 0: the frame and the place in the history it ends at are those
/// that this evaluation left.
pub proof fn law_loop_ends_on_zero(
    b: BMap,
    f: SFrame,
    cond: SExpr,
    body: Seq<SStmt>,
    incr: Option<SExpr>,
    fuel: nat,
    tr: Trace,
    c: Cursor,
)
    requires
        exec_loop(b, f, cond, body, incr, fuel, tr, c).out == Out::Done(Flow::Normal),
    ensures
        exists|g: SFrame, d: Cursor, k: nat|
            #[trigger] eval(b, g, cond, k, tr, d) == done(
                exec_loop(b, f, cond, body, incr, fuel, tr, c).frame,
                SVal::Int(0),
                exec_loop(b, f, cond, body, incr, fuel, tr, c).cur,
            ),
    decreases fuel,
{
    let fu = (fuel - 1) as nat;
    let sc = eval(b, f, cond, fu, tr, c);
    if sc.out is Done && eq_spec(sc.out->Done_0, SVal::Int(0)) {
        assert(sc.out->Done_0 == SVal::Int(0));
        assert(eval(b, f, cond, fu, tr, c) == done(sc.frame, SVal::Int(0), sc.cur));
    } else {
        let sb = exec_block(b, sc.frame, body, 0, fu, tr, sc.cur);
        match incr {
            Some(ie) => {
                let si = eval(b, sb.frame, ie, fu, tr, sb.cur);
                law_loop_ends_on_zero(b, si.frame, cond, body, incr, fu, tr, si.cur);
            },
            None => law_loop_ends_on_zero(b, sb.frame, cond, body, incr, fu, tr, sb.cur),
        }
    }
}

/// Whether evaluating `e` never changes the frame or the place in the
/// history: no `++`, `--`, call or input in it.
pub open spec fn no_effects(b: BMap, e: SExpr, tr: Trace) -> bool {
    forall|g: SFrame, d: Cursor, k: nat|
        (#[trigger] eval(b, g, e, k, tr, d)).out is Done ==> eval(b, g, e, k, tr, d).frame == g && eval(b, g, e, k, tr, d).cur == d
}

/// A loop whose condition has no effects ends normally only where that
/// condition, evaluated again in the frame the loop leaves, is the integer 0.
pub proof fn law_loop_ends_where_cond_is_zero(
    b: BMap,
    f: SFrame,
    cond: SExpr,
    body: Seq<SStmt>,
    incr: Option<SExpr>,
    fuel: nat,
    tr: Trace,
    c: Cursor,
)
    requires
        no_effects(b, cond, tr),
        exec_loop(b, f, cond, body, incr, fuel, tr, c).out == Out::Done(Flow::Normal),
    ensures
        exists|k: nat|
            #[trigger] eval(
                b,
                exec_loop(b, f, cond, body, incr, fuel, tr, c).frame,
                cond,
                k,
                tr,
                exec_loop(b, f, cond, body, incr, fuel, tr, c).cur,
            ) == done(exec_loop(b, f, cond, body, incr, fuel, tr, c).frame, SVal::Int(0), exec_loop(b, f, cond, body, incr, fuel, tr, c).cur),
{
    law_loop_ends_on_zero(b, f, cond, body, incr, fuel, tr, c);
    let r = exec_loop(b, f, cond, body, incr, fuel, tr, c);
    let (g, d, k) = choose|g: SFrame, d: Cursor, k: nat| #[trigger] eval(b, g, cond, k, tr, d) == done(r.frame, SVal::Int(0), r.cur);
    assert(eval(b, g, cond, k, tr, d).out is Done);
    assert(eval(b, r.frame, cond, k, tr, r.cur) == done(r.frame, SVal::Int(0), r.cur));
}

/// A function statement puts its parameters and body under its name,
/// replacing any earlier definition, and changes nothing else.
pub proof fn law_function_definition(
    b: BMap,
    f: SFrame,
    name: Seq<char>,
    params: Seq<Seq<char>>,
    body: Seq<SStmt>,
    span: Span,
    fuel: nat,
    tr: Trace,
    c: Cursor,
)
    requires
        fuel > 0,
    ensures
        exec_stmt(b, f, SStmt { kind: SStmtKind::Func { name, params, body }, span }, fuel, tr, c)
            == done(SFrame { funcs: f.funcs.insert(name, (params, body)), ..f }, Flow::Normal, c),
{
}

/// `use` of a module that is already loaded does nothing.
pub proof fn law_use_of_loaded_module(b: BMap, f: SFrame, name: Seq<char>, span: Span, fuel: nat, tr: Trace, c: Cursor)
    requires
        f.loaded.contains(name),
    ensures
        exec_use(b, f, name, span, fuel, tr, c) == done(f, Flow::Normal, c),
{
}

} // verus!
