use vstd::prelude::*;
use crate::ast::{BinOp, SExpr, SExprKind, SStmt, SStmtKind, StepOp};
use crate::errors::{RErr, SParseError};
use crate::intparse::{int_error_message, parse_int};
use crate::io::{Cursor, Draw, IoEvent, Trace};
use crate::lexer::{lex_spec, numbers_fit};
use crate::parse_spec::parse_spec;
use crate::positions::Span;
use crate::report::kind_message;
use crate::values::{
    add_spec, display, div_spec, eq_spec, ge_spec, gt_spec, le_spec, lt_spec, mul_spec, sub_spec, utf8_len, SVal,
};

verus! {

/// The builtin functions.
#[derive(Clone, Copy, Debug, PartialEq, Eq, Structural)]
pub enum BuiltinKind {
    Print,
    Len,
    Input,
    InputInt,
    Random,
    Chars,
    Int,
    Str,
    Time,
    Type,
}

/// The builtins a program can call: name to (function, number of arguments if fixed).
pub type BMap = Map<Seq<char>, (BuiltinKind, Option<usize>)>;

/// The variables, functions and loaded modules a program sees.
pub struct SFrame {
    /// Each variable's value and whether it may be assigned again.
    pub vars: Map<Seq<char>, (SVal, bool)>,
    /// Each function's parameter names and body.
    pub funcs: Map<Seq<char>, (Seq<Seq<char>>, Seq<SStmt>)>,
    /// The module files loaded so far.
    pub loaded: Set<Seq<char>>,
}

/// How a computation ended.
pub enum Out<T> {
    Done(T),
    Fail(RErr),
    /// The trace does not hold what the computation asks for next.
    Stuck,
}

/// How a statement ended: normally or by `return` with a value.
pub enum Flow {
    Normal,
    Ret(SVal),
}

/// A step of a run: the frame after it, how it ended and where it left the trace.
pub struct StepRes<T> {
    pub frame: SFrame,
    pub out: Out<T>,
    pub cur: Cursor,
}

pub open spec fn done<T>(f: SFrame, v: T, c: Cursor) -> StepRes<T> {
    StepRes { frame: f, out: Out::Done(v), cur: c }
}

pub open spec fn fail<T>(f: SFrame, e: RErr, c: Cursor) -> StepRes<T> {
    StepRes { frame: f, out: Out::Fail(e), cur: c }
}

/// An unfinished step seen as a step of another type.
pub open spec fn pass<A, B>(s: StepRes<A>) -> StepRes<B> {
    StepRes {
        frame: s.frame,
        out: match s.out {
            Out::Fail(e) => Out::Fail(e),
            _ => Out::Stuck,
        },
        cur: s.cur,
    }
}

/// The cursor moved past `n` events of the log.
pub open spec fn skip_io(c: Cursor, n: int) -> Cursor {
    Cursor { io: c.io + n, draw: c.draw }
}

/// The cursor moved past one draw.
pub open spec fn skip_draw(c: Cursor) -> Cursor {
    Cursor { io: c.io, draw: c.draw + 1 }
}

/// The integer 0 or 1 for a truth value.
pub open spec fn truth(b: bool) -> SVal {
    SVal::Int(if b { 1 } else { 0 })
}

/// The value of a binary operator on two values, or the failure it causes.
pub open spec fn apply_bin(op: BinOp, a: SVal, b: SVal) -> Result<SVal, RErr> {
    let arith = |r: Result<SVal, Seq<char>>| match r {
        Ok(v) => Ok(v),
        Err(m) => Err(RErr::Fault { message: m }),
    };
    match op {
        BinOp::Plus => arith(add_spec(a, b)),
        BinOp::Minus => arith(sub_spec(a, b)),
        BinOp::Star => arith(mul_spec(a, b)),
        BinOp::Slash => arith(div_spec(a, b)),
        BinOp::Less => Ok(truth(lt_spec(a, b))),
        BinOp::LessEqual => Ok(truth(le_spec(a, b))),
        BinOp::Greater => Ok(truth(gt_spec(a, b))),
        BinOp::GreaterEqual => Ok(truth(ge_spec(a, b))),
        BinOp::EqualEqual => Ok(truth(eq_spec(a, b))),
        BinOp::NotEqual => Ok(truth(!eq_spec(a, b))),
    }
}

/// The message of a panic on an index past the end.
pub open spec fn out_of_bounds(len: nat, index: nat) -> Seq<char> {
    "index out of bounds: the len is "@ + crate::text::dec_nat(len) + " but the index is "@ + crate::text::dec_nat(index)
}

/// The integer a value stands for: itself, or a string read as a number.
pub open spec fn as_int(v: SVal) -> Result<i64, Seq<char>> {
    match v {
        SVal::Int(n) => Ok(n),
        SVal::Str(s) => match parse_int(s) {
            Ok(n) => Ok(n),
            Err(e) => Err(int_error_message(e)),
        },
    }
}

/// The prompt that `input` and `inputint` take from their arguments.
pub open spec fn prompt_of(args: Seq<SVal>) -> Option<Seq<char>> {
    if args.len() == 0 {
        Some(Seq::empty())
    } else if args.len() == 1 && args[0] is Str {
        Some(args[0]->Str_0)
    } else {
        None
    }
}

/// The message of `inputint` when the line read is not a number.
pub open spec fn invalid_input_message() -> Seq<char> {
    "Invalid input, to convert a string to a number, turn what you type"@
}

/// The message of a panic of an operation that has no result.
pub open spec fn fault(m: Seq<char>) -> RErr {
    RErr::Fault { message: m }
}

/// A builtin applied to argument values: how it ends and where it leaves the trace.
pub open spec fn builtin_spec(k: BuiltinKind, args: Seq<SVal>, span: Span, tr: Trace, c: Cursor) -> (Out<SVal>, Cursor) {
    match k {
        BuiltinKind::Print => {
            let n = args.len() as int;
            if (forall|j: int| 0 <= j < n ==> (tr.io)(c.io + j) == IoEvent::Print(display(args[j])))
                && (tr.io)(c.io + n) == IoEvent::Print("\n"@) {
                (Out::Done(SVal::Int(0)), skip_io(c, n + 1))
            } else {
                (Out::Stuck, c)
            }
        },
        BuiltinKind::Len => if args.len() == 0 {
            (Out::Fail(fault(out_of_bounds(0, 0))), c)
        } else {
            match args[0] {
                SVal::Str(s) => (Out::Done(SVal::Int(((utf8_len(s) as usize) as i64))), c),
                _ => (Out::Fail(RErr::IoError { name: "len"@, span }), c),
            }
        },
        BuiltinKind::Chars => if args.len() == 0 {
            (Out::Fail(fault(out_of_bounds(0, 0))), c)
        } else {
            match args[0] {
                SVal::Str(s) => (Out::Done(SVal::Int(((s.len() as usize) as i64))), c),
                _ => (Out::Fail(RErr::IoError { name: "chars"@, span }), c),
            }
        },
        BuiltinKind::Input => match prompt_of(args) {
            None => (Out::Fail(RErr::ArgumentMismatch { expected: 1, got: args.len() as usize }), c),
            Some(p) => match (tr.io)(c.io) {
                IoEvent::Input(q, r) => if q == p {
                    match r {
                        Ok(line) => (Out::Done(SVal::Str(line)), skip_io(c, 1)),
                        Err(_) => (Out::Fail(RErr::IoError { name: "input"@, span }), skip_io(c, 1)),
                    }
                } else {
                    (Out::Stuck, c)
                },
                _ => (Out::Stuck, c),
            },
        },
        BuiltinKind::InputInt => match prompt_of(args) {
            None => (Out::Fail(RErr::ArgumentMismatch { expected: 1, got: args.len() as usize }), c),
            Some(p) => match (tr.io)(c.io) {
                IoEvent::Input(q, r) => if q == p {
                    match r {
                        Ok(line) => match parse_int(line) {
                            Ok(n) => (Out::Done(SVal::Int(n)), skip_io(c, 1)),
                            Err(_) => (
                                Out::Fail(RErr::IoErrorMassage { name: "inputint"@, span, message: invalid_input_message() }),
                                skip_io(c, 1),
                            ),
                        },
                        Err(m) => (Out::Fail(RErr::IoErrorMassage { name: "inputint"@, span, message: m }), skip_io(c, 1)),
                    }
                } else {
                    (Out::Stuck, c)
                },
                _ => (Out::Stuck, c),
            },
        },
        BuiltinKind::Random => if args.len() < 2 {
            (Out::Fail(fault(out_of_bounds(args.len(), args.len()))), c)
        } else {
            match as_int(args[0]) {
                Err(m) => (Out::Fail(RErr::IoErrorMassage { name: "random"@, span, message: m }), c),
                Ok(lo) => match as_int(args[1]) {
                    Err(m) => (Out::Fail(RErr::IoErrorMassage { name: "random"@, span, message: m }), c),
                    Ok(hi) => if lo >= hi {
                        (Out::Fail(fault("cannot sample empty range"@)), c)
                    } else {
                        match (tr.draws)(c.draw) {
                            Draw::Random(v) => if lo <= v < hi {
                                (Out::Done(SVal::Int(v)), skip_draw(c))
                            } else {
                                (Out::Stuck, c)
                            },
                            _ => (Out::Stuck, c),
                        }
                    },
                },
            }
        },
        BuiltinKind::Int => if args.len() == 0 {
            (Out::Fail(fault(out_of_bounds(0, 0))), c)
        } else {
            match as_int(args[0]) {
                Ok(n) => (Out::Done(SVal::Int(n)), c),
                Err(m) => (Out::Fail(RErr::IoErrorMassage { name: "int"@, span, message: m }), c),
            }
        },
        BuiltinKind::Str => if args.len() == 0 {
            (Out::Fail(fault(out_of_bounds(0, 0))), c)
        } else {
            (Out::Done(SVal::Str(display(args[0]))), c)
        },
        BuiltinKind::Time => match (tr.draws)(c.draw) {
            Draw::Clock(r) => match r {
                Ok(ms) => (Out::Done(SVal::Int(ms as i64)), skip_draw(c)),
                Err(m) => (
                    Out::Fail(RErr::IoErrorMassage { name: "time"@, span, message: "Error getting time: "@ + m }),
                    skip_draw(c),
                ),
            },
            _ => (Out::Stuck, c),
        },
        BuiltinKind::Type => if args.len() == 0 {
            (Out::Fail(fault(out_of_bounds(0, 0))), c)
        } else {
            (Out::Done(SVal::Str(if args[0] is Int { "int"@ } else { "string"@ })), c)
        },
    }
}

/// `++`/`--` on a variable: the variable changes by one, the value is the new
/// one for the prefix forms and the old one for the postfix forms.
pub open spec fn eval_step(f: SFrame, op: StepOp, name: Seq<char>, span: Span, c: Cursor) -> StepRes<SVal> {
    if !f.vars.contains_key(name) {
        fail(f, RErr::UndefinedVariable { name, span }, c)
    } else {
        let (v, m) = f.vars[name];
        let nv = if op == StepOp::PreInc || op == StepOp::PostInc {
            add_spec(v, SVal::Int(1))
        } else {
            sub_spec(v, SVal::Int(1))
        };
        match nv {
            Err(msg) => fail(f, fault(msg), c),
            Ok(n) => done(
                SFrame { vars: f.vars.insert(name, (n, m)), ..f },
                if op == StepOp::PreInc || op == StepOp::PreDec { n } else { v },
                c,
            ),
        }
    }
}

/// The value of an expression in a frame.
pub open spec fn eval(b: BMap, f: SFrame, e: SExpr, fuel: nat, tr: Trace, c: Cursor) -> StepRes<SVal>
    decreases fuel, 0int,
{
    if fuel == 0 {
        fail(f, RErr::StepLimit, c)
    } else {
        let fu = (fuel - 1) as nat;
        match e.kind {
            SExprKind::Num(n) => done(f, SVal::Int(n), c),
            SExprKind::Str(s) => done(f, SVal::Str(s), c),
            SExprKind::Ident(name) => if f.vars.contains_key(name) {
                done(f, f.vars[name].0, c)
            } else {
                fail(f, RErr::UndefinedVariable { name, span: e.span }, c)
            },
            SExprKind::Bin(op, l, r) => eval_bin(b, f, op, *l, *r, fu, tr, c),
            SExprKind::Step(op, name) => eval_step(f, op, name, e.span, c),
            SExprKind::Call { call, args } => match call.kind {
                SExprKind::Ident(name) => eval_call(b, f, name, args, e.span, fu, tr, c),
                _ => fail(f, RErr::UndefinedFunction { name: "<?>"@, span: e.span }, c),
            },
        }
    }
}

/// A binary operator: `/` evaluates its right operand first and fails on a
/// zero divisor; the others evaluate left to right.
pub open spec fn eval_bin(b: BMap, f: SFrame, op: BinOp, l: SExpr, r: SExpr, fuel: nat, tr: Trace, c: Cursor) -> StepRes<SVal>
    decreases fuel, 1int,
{
    if op == BinOp::Slash {
        let sr = eval(b, f, r, fuel, tr, c);
        match sr.out {
            Out::Done(rv) => if rv == SVal::Int(0) {
                fail(sr.frame, RErr::DivisionByZero, sr.cur)
            } else {
                let sl = eval(b, sr.frame, l, fuel, tr, sr.cur);
                match sl.out {
                    Out::Done(lv) => match apply_bin(op, lv, rv) {
                        Ok(v) => done(sl.frame, v, sl.cur),
                        Err(err) => fail(sl.frame, err, sl.cur),
                    },
                    _ => sl,
                }
            },
            _ => sr,
        }
    } else {
        let sl = eval(b, f, l, fuel, tr, c);
        match sl.out {
            Out::Done(lv) => {
                let sr = eval(b, sl.frame, r, fuel, tr, sl.cur);
                match sr.out {
                    Out::Done(rv) => match apply_bin(op, lv, rv) {
                        Ok(v) => done(sr.frame, v, sr.cur),
                        Err(err) => fail(sr.frame, err, sr.cur),
                    },
                    _ => sr,
                }
            },
            _ => sl,
        }
    }
}

/// The values of the arguments from index `i`, evaluated in order.
pub open spec fn eval_args(b: BMap, f: SFrame, args: Seq<SExpr>, i: int, acc: Seq<SVal>, fuel: nat, tr: Trace, c: Cursor) -> StepRes<Seq<SVal>>
    decreases fuel, 1int,
{
    if i < 0 || i >= args.len() {
        done(f, acc, c)
    } else if fuel == 0 {
        fail(f, RErr::StepLimit, c)
    } else {
        let s = eval(b, f, args[i], (fuel - 1) as nat, tr, c);
        match s.out {
            Out::Done(v) => eval_args(b, s.frame, args, i + 1, acc.push(v), (fuel - 1) as nat, tr, s.cur),
            _ => pass(s),
        }
    }
}

/// The parameters bound to the arguments from index `i`, each argument
/// evaluated again in the caller's frame.
pub open spec fn bind_args(
    b: BMap,
    f: SFrame,
    params: Seq<Seq<char>>,
    args: Seq<SExpr>,
    i: int,
    locals: Map<Seq<char>, (SVal, bool)>,
    fuel: nat,
    tr: Trace,
    c: Cursor,
) -> StepRes<Map<Seq<char>, (SVal, bool)>>
    decreases fuel, 1int,
{
    if i < 0 || i >= args.len() || i >= params.len() {
        done(f, locals, c)
    } else if fuel == 0 {
        fail(f, RErr::StepLimit, c)
    } else {
        let s = eval(b, f, args[i], (fuel - 1) as nat, tr, c);
        match s.out {
            Out::Done(v) => bind_args(b, s.frame, params, args, i + 1, locals.insert(params[i], (v, false)), (fuel - 1) as nat, tr, s.cur),
            _ => pass(s),
        }
    }
}

/// A call of `name`: a builtin if there is one of that name, else a function
/// of the frame run in a frame of its own.
pub open spec fn eval_call(b: BMap, f: SFrame, name: Seq<char>, args: Seq<SExpr>, span: Span, fuel: nat, tr: Trace, c: Cursor) -> StepRes<SVal>
    decreases fuel, 2int,
{
    let sa = eval_args(b, f, args, 0, Seq::empty(), fuel, tr, c);
    match sa.out {
        Out::Done(vals) => {
            let f1 = sa.frame;
            if b.contains_key(name) {
                let (k, arity) = b[name];
                if arity is Some && args.len() != arity->0 {
                    fail(f1, RErr::ArgumentMismatch { expected: arity->0, got: vals.len() as usize }, sa.cur)
                } else {
                    let (o, c2) = builtin_spec(k, vals, span, tr, sa.cur);
                    StepRes { frame: f1, out: o, cur: c2 }
                }
            } else if !f1.funcs.contains_key(name) {
                fail(f1, RErr::UndefinedFunction { name, span }, sa.cur)
            } else {
                let (params, body) = f1.funcs[name];
                if params.len() != args.len() {
                    fail(f1, RErr::ArgumentMismatch { expected: params.len() as usize, got: args.len() as usize }, sa.cur)
                } else {
                    let sb = bind_args(b, f1, params, args, 0, Map::empty(), fuel, tr, sa.cur);
                    match sb.out {
                        Out::Done(locals) => {
                            let local = SFrame { vars: locals, funcs: f1.funcs, loaded: f1.loaded };
                            let sr = exec_block(b, local, body, 0, fuel, tr, sb.cur);
                            match sr.out {
                                Out::Done(Flow::Ret(v)) => done(sb.frame, v, sr.cur),
                                Out::Done(Flow::Normal) => done(sb.frame, SVal::Int(0), sr.cur),
                                Out::Fail(e) => fail(sb.frame, e, sr.cur),
                                Out::Stuck => StepRes { frame: sb.frame, out: Out::Stuck, cur: sr.cur },
                            }
                        },
                        _ => pass(sb),
                    }
                }
            }
        },
        _ => pass(sa),
    }
}

/// The statements of a block from index `i`; a `return` ends the block.
pub open spec fn exec_block(b: BMap, f: SFrame, stmts: Seq<SStmt>, i: int, fuel: nat, tr: Trace, c: Cursor) -> StepRes<Flow>
    decreases fuel, 1int,
{
    if i < 0 || i >= stmts.len() {
        done(f, Flow::Normal, c)
    } else if fuel == 0 {
        fail(f, RErr::StepLimit, c)
    } else {
        let s = exec_stmt(b, f, stmts[i], (fuel - 1) as nat, tr, c);
        match s.out {
            Out::Done(Flow::Normal) => exec_block(b, s.frame, stmts, i + 1, (fuel - 1) as nat, tr, s.cur),
            _ => s,
        }
    }
}

/// The statements of a module from index `i`; a `return` does not end them.
pub open spec fn exec_import(b: BMap, f: SFrame, stmts: Seq<SStmt>, i: int, fuel: nat, tr: Trace, c: Cursor) -> StepRes<Flow>
    decreases fuel, 1int,
{
    if i < 0 || i >= stmts.len() {
        done(f, Flow::Normal, c)
    } else if fuel == 0 {
        fail(f, RErr::StepLimit, c)
    } else {
        let s = exec_stmt(b, f, stmts[i], (fuel - 1) as nat, tr, c);
        match s.out {
            Out::Done(_) => exec_import(b, s.frame, stmts, i + 1, (fuel - 1) as nat, tr, s.cur),
            _ => s,
        }
    }
}

/// A `while` loop, or the loop of a `for` with its increment.
pub open spec fn exec_loop(b: BMap, f: SFrame, cond: SExpr, body: Seq<SStmt>, incr: Option<SExpr>, fuel: nat, tr: Trace, c: Cursor) -> StepRes<Flow>
    decreases fuel, 1int,
{
    if fuel == 0 {
        fail(f, RErr::StepLimit, c)
    } else {
        let fu = (fuel - 1) as nat;
        let sc = eval(b, f, cond, fu, tr, c);
        match sc.out {
            Out::Done(cv) => if eq_spec(cv, SVal::Int(0)) {
                done(sc.frame, Flow::Normal, sc.cur)
            } else {
                let sb = exec_block(b, sc.frame, body, 0, fu, tr, sc.cur);
                match sb.out {
                    Out::Done(Flow::Normal) => match incr {
                        Some(ie) => {
                            let si = eval(b, sb.frame, ie, fu, tr, sb.cur);
                            match si.out {
                                Out::Done(_) => exec_loop(b, si.frame, cond, body, incr, fu, tr, si.cur),
                                _ => pass(si),
                            }
                        },
                        None => exec_loop(b, sb.frame, cond, body, incr, fu, tr, sb.cur),
                    },
                    _ => sb,
                }
            },
            _ => pass(sc),
        }
    }
}

/// The message of the panic on a number too large for an `i64` in a module's source.
pub open spec fn number_overflow_message() -> Seq<char> {
    "called `Result::unwrap()` on an `Err` value: ParseIntError { kind: PosOverflow }"@
}

/// The source of a module run in a frame: it is read into tokens and
/// statements, which run in order; a `return` among them does not end them.
pub open spec fn exec_module(b: BMap, f: SFrame, code: Seq<char>, fuel: nat, tr: Trace, c: Cursor) -> StepRes<Flow>
    decreases fuel, 2int,
{
    if !(utf8_len(code) < usize::MAX) {
        fail(f, fault("capacity overflow"@), c)
    } else if !numbers_fit(code, 0) {
        fail(f, fault(number_overflow_message()), c)
    } else {
        match parse_spec(lex_spec(code)) {
            Err(pe) => fail(f, RErr::ImportParseError { message: kind_message(pe.kind), span: pe.span }, c),
            Ok(stmts) => {
                let s = exec_import(b, f, stmts, 0, fuel, tr, c);
                match s.out {
                    Out::Done(_) => done(s.frame, Flow::Normal, s.cur),
                    _ => s,
                }
            },
        }
    }
}

/// `use name`: loads the module file `name` once and runs its statements in the frame.
pub open spec fn exec_use(b: BMap, f: SFrame, name: Seq<char>, span: Span, fuel: nat, tr: Trace, c: Cursor) -> StepRes<Flow>
    decreases fuel, 3int,
{
    if f.loaded.contains(name) {
        done(f, Flow::Normal, c)
    } else {
        match (tr.io)(c.io) {
            IoEvent::Module(n, r) => if n != name {
                StepRes { frame: f, out: Out::Stuck, cur: c }
            } else {
                let c1 = skip_io(c, 1);
                match r {
                    Err(path) => fail(f, RErr::ImportNotFount { name: path, span }, c1),
                    Ok(code) => exec_module(b, SFrame { loaded: f.loaded.insert(name), ..f }, code, fuel, tr, c1),
                }
            },
            _ => StepRes { frame: f, out: Out::Stuck, cur: c },
        }
    }
}

/// A statement in a frame.
pub open spec fn exec_stmt(b: BMap, f: SFrame, s: SStmt, fuel: nat, tr: Trace, c: Cursor) -> StepRes<Flow>
    decreases fuel, 0int,
{
    if fuel == 0 {
        fail(f, RErr::StepLimit, c)
    } else {
        let fu = (fuel - 1) as nat;
        match s.kind {
            SStmtKind::VerDecl { name, value, mutable } => {
                let sv = eval(b, f, value, fu, tr, c);
                match sv.out {
                    Out::Done(v) => done(SFrame { vars: sv.frame.vars.insert(name, (v, mutable)), ..sv.frame }, Flow::Normal, sv.cur),
                    _ => pass(sv),
                }
            },
            SStmtKind::Assign { name, value } => {
                let sv = eval(b, f, value, fu, tr, c);
                match sv.out {
                    Out::Done(v) => if sv.frame.vars.contains_key(name) {
                        if !sv.frame.vars[name].1 {
                            fail(sv.frame, RErr::ImmutableAssignment { name, span: s.span }, sv.cur)
                        } else {
                            done(SFrame { vars: sv.frame.vars.insert(name, (v, true)), ..sv.frame }, Flow::Normal, sv.cur)
                        }
                    } else {
                        done(SFrame { vars: sv.frame.vars.insert(name, (v, false)), ..sv.frame }, Flow::Normal, sv.cur)
                    },
                    _ => pass(sv),
                }
            },
            SStmtKind::If { cond, then_branch, else_branch } => {
                let sc = eval(b, f, cond, fu, tr, c);
                match sc.out {
                    Out::Done(cv) => if !eq_spec(cv, SVal::Int(0)) {
                        exec_block(b, sc.frame, then_branch, 0, fu, tr, sc.cur)
                    } else {
                        match else_branch {
                            Some(eb) => exec_block(b, sc.frame, eb, 0, fu, tr, sc.cur),
                            None => done(sc.frame, Flow::Normal, sc.cur),
                        }
                    },
                    _ => pass(sc),
                }
            },
            SStmtKind::While { cond, body } => exec_loop(b, f, cond, body, None, fu, tr, c),
            SStmtKind::For { init, cond, incr, body } => {
                let si = exec_stmt(b, f, *init, fu, tr, c);
                match si.out {
                    Out::Done(_) => exec_loop(b, si.frame, cond, body, incr, fu, tr, si.cur),
                    _ => si,
                }
            },
            SStmtKind::Expr(e) => {
                let se = eval(b, f, e, fu, tr, c);
                match se.out {
                    Out::Done(_) => done(se.frame, Flow::Normal, se.cur),
                    _ => pass(se),
                }
            },
            SStmtKind::Print(e) => {
                let se = eval(b, f, e, fu, tr, c);
                match se.out {
                    Out::Done(v) => if (tr.io)(se.cur.io) == IoEvent::Print(display(v))
                        && (tr.io)(se.cur.io + 1) == IoEvent::Print("\n"@) {
                        done(se.frame, Flow::Normal, skip_io(se.cur, 2))
                    } else {
                        StepRes { frame: se.frame, out: Out::Stuck, cur: se.cur }
                    },
                    _ => pass(se),
                }
            },
            SStmtKind::Func { name, params, body } => done(
                SFrame { funcs: f.funcs.insert(name, (params, body)), ..f },
                Flow::Normal,
                c,
            ),
            SStmtKind::Return(e) => {
                let se = eval(b, f, e, fu, tr, c);
                match se.out {
                    Out::Done(v) => done(se.frame, Flow::Ret(v), se.cur),
                    _ => pass(se),
                }
            },
            SStmtKind::Use(name) => exec_use(b, f, name, s.span, fu, tr, c),
        }
    }
}

} // verus!
