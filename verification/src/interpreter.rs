use vstd::prelude::*;
use std::rc::Rc;
use crate::ast::{dup_names, dup_stmts, expr_view, exprs_view, lemma_exprs_view, lemma_stmts_view, names_view, stmt_view, stmts_view, BinOp, Expr, ExprKind, SExpr, SExprKind, SStmtKind, Stmt, StmtKind, StepOp};
use crate::builtins::{call_builtin, out_of, vals_view, BuiltinFun};
use crate::errors::RuntimeError;
use crate::frame::{builtins_view, def_view, funcs_view, lemma_builtins_view, vars_view, FuncDef, Frame, Value};
use crate::interp_spec::{
    apply_bin, bind_args, eval, eval_args, eval_bin, eval_call, eval_step, exec_block, exec_import, exec_loop, exec_stmt,
    exec_module, exec_use, fault, BMap, BuiltinKind, Flow, Out, SFrame, StepRes,
};
use crate::io::{
    agrees, cursor, extends, lemma_agrees_io, lemma_agrees_prefix, lemma_extends_refl, lemma_extends_trans, lemma_push_extends,
    Cursor, Draw, DrScriptIo, IoEvent, Outside, Trace,
};
use crate::lexer::{below_size_limit, lex_checked};
use crate::parser::ParserToken;
use crate::positions::Span;
use crate::table::Table;
use crate::values::{Order, SVal, Type};

verus! {

/// How a statement ended: by `return` with a value, or normally.
#[derive(Debug)]
pub enum ExecReturn {
    Return(Type),
    Normal,
}

/// How a statement's result ends it.
pub open spec fn flow_out(r: Result<ExecReturn, RuntimeError>) -> Out<Flow> {
    match r {
        Ok(ExecReturn::Return(v)) => Out::Done(Flow::Ret(v@)),
        Ok(ExecReturn::Normal) => Out::Done(Flow::Normal),
        Err(e) => Out::Fail(e@),
    }
}

/// How the evaluation of arguments ends.
pub open spec fn vals_out(r: Result<Vec<Type>, RuntimeError>) -> Out<Seq<SVal>> {
    match r {
        Ok(v) => Out::Done(vals_view(v@)),
        Err(e) => Out::Fail(e@),
    }
}

/// How the binding of parameters ends, with the variables bound.
pub open spec fn locals_out(r: Result<(), RuntimeError>, vars: Map<Seq<char>, (SVal, bool)>) -> Out<Map<Seq<char>, (SVal, bool)>> {
    match r {
        Ok(_) => Out::Done(vars),
        Err(e) => Out::Fail(e@),
    }
}

/// The value of an optional expression.
pub open spec fn opt_view(e: Option<Expr>) -> Option<SExpr> {
    match e {
        Some(x) => Some(expr_view(x)),
        None => None,
    }
}

/// The step that a value result makes.
pub open spec fn val_step<I: DrScriptIo>(f: Frame, r: Result<Type, RuntimeError>, o: Outside<I>) -> StepRes<SVal> {
    StepRes { frame: f@, out: out_of(r), cur: cursor(o) }
}

/// The step that a statement result makes.
pub open spec fn flow_step<I: DrScriptIo>(f: Frame, r: Result<ExecReturn, RuntimeError>, o: Outside<I>) -> StepRes<Flow> {
    StepRes { frame: f@, out: flow_out(r), cur: cursor(o) }
}

fn apply_bin_exec(op: BinOp, a: &Type, b: &Type) -> (r: Result<Type, RuntimeError>)
    ensures
        match r {
            Ok(v) => apply_bin(op, a@, b@) == Ok::<SVal, crate::errors::RErr>(v@),
            Err(e) => apply_bin(op, a@, b@) == Err::<SVal, crate::errors::RErr>(e@),
        },
{
    let arith = |x: Result<Type, String>| -> (y: Result<Type, RuntimeError>)
        ensures
            match (x, y) {
                (Ok(p), Ok(q)) => p@ == q@,
                (Err(m), Err(e)) => e@ == fault(m@),
                _ => false,
            },
    {
        match x {
            Ok(v) => Ok(v),
            Err(m) => Err(RuntimeError::Fault { message: m }),
        }
    };
    match op {
        BinOp::Plus => arith(a.try_add(b)),
        BinOp::Minus => arith(a.try_sub(b)),
        BinOp::Star => arith(a.try_mul(b)),
        BinOp::Slash => arith(a.try_div(b)),
        BinOp::Less => Ok(truth_exec(a.partial_order(b) == Some(Order::Less))),
        BinOp::LessEqual => {
            let o = a.partial_order(b);
            Ok(truth_exec(o == Some(Order::Less) || o == Some(Order::Equal)))
        },
        BinOp::Greater => Ok(truth_exec(a.partial_order(b) == Some(Order::Greater))),
        BinOp::GreaterEqual => {
            let o = a.partial_order(b);
            Ok(truth_exec(o == Some(Order::Greater) || o == Some(Order::Equal)))
        },
        BinOp::EqualEqual => Ok(truth_exec(a.eq(b))),
        BinOp::NotEqual => Ok(truth_exec(!a.eq(b))),
    }
}

fn truth_exec(x: bool) -> (r: Type)
    ensures
        r@ == crate::interp_spec::truth(x),
{
    Type::Int(if x { 1 } else { 0 })
}


impl Frame {
    fn run_step(&mut self, op: StepOp, name: &String, span: Span) -> (r: Result<Type, RuntimeError>)
        ensures
            forall|c: Cursor| #[trigger] eval_step(old(self)@, op, name@, span, c) == (StepRes {
                frame: final(self)@,
                out: out_of(r),
                cur: c,
            }),
    {
        let (v, m) = match self.var(name.as_str()) {
            None => {
                return Err(RuntimeError::UndefinedVariable { name: name.clone(), span });
            },
            Some(x) => (x.value().dup(), x.is_mutable()),
        };
        let one = Type::Int(1);
        let nv = if op == StepOp::PreInc || op == StepOp::PostInc {
            v.try_add(&one)
        } else {
            v.try_sub(&one)
        };
        match nv {
            Err(msg) => Err(RuntimeError::Fault { message: msg }),
            Ok(n) => {
                let result = if op == StepOp::PreInc || op == StepOp::PreDec { n.dup() } else { v };
                self.set_var(name.clone(), Value::new(n, m));
                Ok(result)
            },
        }
    }

    fn run_expr<I: DrScriptIo>(&mut self, out: &mut Outside<I>, b: &Table<BuiltinFun>, e: &Expr, fuel: u64) -> (r: Result<Type, RuntimeError>)
        ensures
            extends(*old(out), *final(out)),
            forall|tr: Trace| agrees(tr, *final(out)) ==>
                #[trigger] eval(builtins_view(b@), old(self)@, expr_view(*e), fuel as nat, tr, cursor(*old(out)))
                    == val_step(*final(self), r, *final(out)),
        decreases fuel, 0int,
    {
        proof {
            lemma_extends_refl(*out);
        }
        if fuel == 0 {
            return Err(RuntimeError::StepLimit);
        }
        let fu = fuel - 1;
        let span = e.span;
        let ghost o0 = *out;
        let ghost f0 = self@;
        let ghost bv = builtins_view(b@);
        let ghost ev = expr_view(*e);
        match &e.kind {
            ExprKind::Num(n) => Ok(Type::Int(*n)),
            ExprKind::Str(s) => Ok(Type::Str(s.clone())),
            ExprKind::Ident(name) => match self.var(name.as_str()) {
                Some(v) => Ok(v.value().dup()),
                None => Err(RuntimeError::UndefinedVariable { name: name.clone(), span }),
            },
            ExprKind::Plus(l, r) => {
                let x = self.run_bin(out, b, BinOp::Plus, l, r, fu);
                proof {
                    assert forall|tr: Trace| agrees(tr, *out) implies
                        #[trigger] eval(bv, f0, ev, fuel as nat, tr, cursor(o0)) == val_step(*self, x, *out) by {
                        assert(ev.kind == SExprKind::Bin(BinOp::Plus, Box::new(expr_view(**l)), Box::new(expr_view(**r))));
                        assert(eval_bin(bv, f0, BinOp::Plus, expr_view(**l), expr_view(**r), fu as nat, tr, cursor(o0)) == val_step(*self, x, *out));
                    }
                }
                x
            },
            ExprKind::Minus(l, r) => {
                let x = self.run_bin(out, b, BinOp::Minus, l, r, fu);
                proof {
                    assert forall|tr: Trace| agrees(tr, *out) implies
                        #[trigger] eval(bv, f0, ev, fuel as nat, tr, cursor(o0)) == val_step(*self, x, *out) by {
                        assert(ev.kind == SExprKind::Bin(BinOp::Minus, Box::new(expr_view(**l)), Box::new(expr_view(**r))));
                        assert(eval_bin(bv, f0, BinOp::Minus, expr_view(**l), expr_view(**r), fu as nat, tr, cursor(o0)) == val_step(*self, x, *out));
                    }
                }
                x
            },
            ExprKind::Star(l, r) => {
                let x = self.run_bin(out, b, BinOp::Star, l, r, fu);
                proof {
                    assert forall|tr: Trace| agrees(tr, *out) implies
                        #[trigger] eval(bv, f0, ev, fuel as nat, tr, cursor(o0)) == val_step(*self, x, *out) by {
                        assert(ev.kind == SExprKind::Bin(BinOp::Star, Box::new(expr_view(**l)), Box::new(expr_view(**r))));
                        assert(eval_bin(bv, f0, BinOp::Star, expr_view(**l), expr_view(**r), fu as nat, tr, cursor(o0)) == val_step(*self, x, *out));
                    }
                }
                x
            },
            ExprKind::Slash(l, r) => {
                let x = self.run_bin(out, b, BinOp::Slash, l, r, fu);
                proof {
                    assert forall|tr: Trace| agrees(tr, *out) implies
                        #[trigger] eval(bv, f0, ev, fuel as nat, tr, cursor(o0)) == val_step(*self, x, *out) by {
                        assert(ev.kind == SExprKind::Bin(BinOp::Slash, Box::new(expr_view(**l)), Box::new(expr_view(**r))));
                        assert(eval_bin(bv, f0, BinOp::Slash, expr_view(**l), expr_view(**r), fu as nat, tr, cursor(o0)) == val_step(*self, x, *out));
                    }
                }
                x
            },
            ExprKind::Less(l, r) => {
                let x = self.run_bin(out, b, BinOp::Less, l, r, fu);
                proof {
                    assert forall|tr: Trace| agrees(tr, *out) implies
                        #[trigger] eval(bv, f0, ev, fuel as nat, tr, cursor(o0)) == val_step(*self, x, *out) by {
                        assert(ev.kind == SExprKind::Bin(BinOp::Less, Box::new(expr_view(**l)), Box::new(expr_view(**r))));
                        assert(eval_bin(bv, f0, BinOp::Less, expr_view(**l), expr_view(**r), fu as nat, tr, cursor(o0)) == val_step(*self, x, *out));
                    }
                }
                x
            },
            ExprKind::LessEqual(l, r) => {
                let x = self.run_bin(out, b, BinOp::LessEqual, l, r, fu);
                proof {
                    assert forall|tr: Trace| agrees(tr, *out) implies
                        #[trigger] eval(bv, f0, ev, fuel as nat, tr, cursor(o0)) == val_step(*self, x, *out) by {
                        assert(ev.kind == SExprKind::Bin(BinOp::LessEqual, Box::new(expr_view(**l)), Box::new(expr_view(**r))));
                        assert(eval_bin(bv, f0, BinOp::LessEqual, expr_view(**l), expr_view(**r), fu as nat, tr, cursor(o0)) == val_step(*self, x, *out));
                    }
                }
                x
            },
            ExprKind::Greater(l, r) => {
                let x = self.run_bin(out, b, BinOp::Greater, l, r, fu);
                proof {
                    assert forall|tr: Trace| agrees(tr, *out) implies
                        #[trigger] eval(bv, f0, ev, fuel as nat, tr, cursor(o0)) == val_step(*self, x, *out) by {
                        assert(ev.kind == SExprKind::Bin(BinOp::Greater, Box::new(expr_view(**l)), Box::new(expr_view(**r))));
                        assert(eval_bin(bv, f0, BinOp::Greater, expr_view(**l), expr_view(**r), fu as nat, tr, cursor(o0)) == val_step(*self, x, *out));
                    }
                }
                x
            },
            ExprKind::GreaterEqual(l, r) => {
                let x = self.run_bin(out, b, BinOp::GreaterEqual, l, r, fu);
                proof {
                    assert forall|tr: Trace| agrees(tr, *out) implies
                        #[trigger] eval(bv, f0, ev, fuel as nat, tr, cursor(o0)) == val_step(*self, x, *out) by {
                        assert(ev.kind == SExprKind::Bin(BinOp::GreaterEqual, Box::new(expr_view(**l)), Box::new(expr_view(**r))));
                        assert(eval_bin(bv, f0, BinOp::GreaterEqual, expr_view(**l), expr_view(**r), fu as nat, tr, cursor(o0)) == val_step(*self, x, *out));
                    }
                }
                x
            },
            ExprKind::EqualEqual(l, r) => {
                let x = self.run_bin(out, b, BinOp::EqualEqual, l, r, fu);
                proof {
                    assert forall|tr: Trace| agrees(tr, *out) implies
                        #[trigger] eval(bv, f0, ev, fuel as nat, tr, cursor(o0)) == val_step(*self, x, *out) by {
                        assert(ev.kind == SExprKind::Bin(BinOp::EqualEqual, Box::new(expr_view(**l)), Box::new(expr_view(**r))));
                        assert(eval_bin(bv, f0, BinOp::EqualEqual, expr_view(**l), expr_view(**r), fu as nat, tr, cursor(o0)) == val_step(*self, x, *out));
                    }
                }
                x
            },
            ExprKind::NotEqual(l, r) => {
                let x = self.run_bin(out, b, BinOp::NotEqual, l, r, fu);
                proof {
                    assert forall|tr: Trace| agrees(tr, *out) implies
                        #[trigger] eval(bv, f0, ev, fuel as nat, tr, cursor(o0)) == val_step(*self, x, *out) by {
                        assert(ev.kind == SExprKind::Bin(BinOp::NotEqual, Box::new(expr_view(**l)), Box::new(expr_view(**r))));
                        assert(eval_bin(bv, f0, BinOp::NotEqual, expr_view(**l), expr_view(**r), fu as nat, tr, cursor(o0)) == val_step(*self, x, *out));
                    }
                }
                x
            },
            ExprKind::PreInc(name) => {
                let x = self.run_step(StepOp::PreInc, name, span);
                proof {
                    assert forall|tr: Trace| agrees(tr, *out) implies
                        #[trigger] eval(bv, f0, ev, fuel as nat, tr, cursor(o0)) == val_step(*self, x, *out) by {
                        assert(ev.kind == SExprKind::Step(StepOp::PreInc, name@));
                        assert(eval_step(f0, StepOp::PreInc, name@, span, cursor(o0)) == val_step(*self, x, *out));
                    }
                }
                x
            },
            ExprKind::PreDec(name) => {
                let x = self.run_step(StepOp::PreDec, name, span);
                proof {
                    assert forall|tr: Trace| agrees(tr, *out) implies
                        #[trigger] eval(bv, f0, ev, fuel as nat, tr, cursor(o0)) == val_step(*self, x, *out) by {
                        assert(ev.kind == SExprKind::Step(StepOp::PreDec, name@));
                        assert(eval_step(f0, StepOp::PreDec, name@, span, cursor(o0)) == val_step(*self, x, *out));
                    }
                }
                x
            },
            ExprKind::PostInc(name) => {
                let x = self.run_step(StepOp::PostInc, name, span);
                proof {
                    assert forall|tr: Trace| agrees(tr, *out) implies
                        #[trigger] eval(bv, f0, ev, fuel as nat, tr, cursor(o0)) == val_step(*self, x, *out) by {
                        assert(ev.kind == SExprKind::Step(StepOp::PostInc, name@));
                        assert(eval_step(f0, StepOp::PostInc, name@, span, cursor(o0)) == val_step(*self, x, *out));
                    }
                }
                x
            },
            ExprKind::PostDec(name) => {
                let x = self.run_step(StepOp::PostDec, name, span);
                proof {
                    assert forall|tr: Trace| agrees(tr, *out) implies
                        #[trigger] eval(bv, f0, ev, fuel as nat, tr, cursor(o0)) == val_step(*self, x, *out) by {
                        assert(ev.kind == SExprKind::Step(StepOp::PostDec, name@));
                        assert(eval_step(f0, StepOp::PostDec, name@, span, cursor(o0)) == val_step(*self, x, *out));
                    }
                }
                x
            },
            ExprKind::Call { call, args } => {
                let ghost cv = expr_view(**call);
                assert(ev.kind == SExprKind::Call { call: Box::new(cv), args: exprs_view(args@) });
                match &call.kind {
                    ExprKind::Ident(name) => {
                        assert(cv.kind == SExprKind::Ident(name@));
                        let x = self.run_call(out, b, name, args, span, fu);
                        proof {
                            assert forall|tr: Trace| agrees(tr, *out) implies
                                #[trigger] eval(bv, f0, ev, fuel as nat, tr, cursor(o0)) == val_step(*self, x, *out) by {
                                assert(eval_call(bv, f0, name@, exprs_view(args@), span, fu as nat, tr, cursor(o0)) == val_step(*self, x, *out));
                            }
                        }
                        x
                    },
                    _ => {
                        assert(!(cv.kind is Ident));
                        Err(RuntimeError::UndefinedFunction { name: String::from_str("<?>"), span })
                    },
                }
            },
        }
    }

    fn run_bin<I: DrScriptIo>(
        &mut self,
        out: &mut Outside<I>,
        b: &Table<BuiltinFun>,
        op: BinOp,
        l: &Expr,
        r: &Expr,
        fuel: u64,
    ) -> (res: Result<Type, RuntimeError>)
        ensures
            extends(*old(out), *final(out)),
            forall|tr: Trace| agrees(tr, *final(out)) ==>
                #[trigger] eval_bin(builtins_view(b@), old(self)@, op, expr_view(*l), expr_view(*r), fuel as nat, tr, cursor(*old(out)))
                    == val_step(*final(self), res, *final(out)),
        decreases fuel, 1int,
    {
        let ghost o0 = *out;
        let ghost f0 = self@;
        let ghost bv = builtins_view(b@);
        let ghost lv = expr_view(*l);
        let ghost rv = expr_view(*r);
        if op == BinOp::Slash {
            let y = match self.run_expr(out, b, r, fuel) {
                Ok(v) => v,
                Err(err) => {
                    proof {
                        assert forall|tr: Trace| agrees(tr, *out) implies
                            #[trigger] eval_bin(bv, f0, op, lv, rv, fuel as nat, tr, cursor(o0))
                                == val_step(*self, Err::<Type, RuntimeError>(err), *out) by {
                            assert(eval(bv, f0, rv, fuel as nat, tr, cursor(o0)) == val_step(*self, Err::<Type, RuntimeError>(err), *out));
                        }
                    }
                    return Err(err);
                },
            };
            if y.is_zero() {
                proof {
                    assert forall|tr: Trace| agrees(tr, *out) implies
                        #[trigger] eval_bin(bv, f0, op, lv, rv, fuel as nat, tr, cursor(o0))
                            == val_step(*self, Err::<Type, RuntimeError>(RuntimeError::DivisionByZero), *out) by {
                        assert(eval(bv, f0, rv, fuel as nat, tr, cursor(o0)) == val_step(*self, Ok::<Type, RuntimeError>(y), *out));
                    }
                }
                return Err(RuntimeError::DivisionByZero);
            }
            let ghost o1 = *out;
            let ghost f1 = self@;
            let x = match self.run_expr(out, b, l, fuel) {
                Ok(v) => v,
                Err(err) => {
                    proof {
                        lemma_extends_trans(o0, o1, *out);
                        assert forall|tr: Trace| agrees(tr, *out) implies
                            #[trigger] eval_bin(bv, f0, op, lv, rv, fuel as nat, tr, cursor(o0))
                                == val_step(*self, Err::<Type, RuntimeError>(err), *out) by {
                            lemma_agrees_prefix(tr, o1, *out);
                            assert(eval(bv, f0, rv, fuel as nat, tr, cursor(o0)) == (StepRes { frame: f1, out: Out::Done(y@), cur: cursor(o1) }));
                            assert(eval(bv, f1, lv, fuel as nat, tr, cursor(o1)) == val_step(*self, Err::<Type, RuntimeError>(err), *out));
                        }
                    }
                    return Err(err);
                },
            };
            let res = apply_bin_exec(op, &x, &y);
            proof {
                lemma_extends_trans(o0, o1, *out);
                assert forall|tr: Trace| agrees(tr, *out) implies
                    #[trigger] eval_bin(bv, f0, op, lv, rv, fuel as nat, tr, cursor(o0)) == val_step(*self, res, *out) by {
                    lemma_agrees_prefix(tr, o1, *out);
                    assert(eval(bv, f0, rv, fuel as nat, tr, cursor(o0)) == (StepRes { frame: f1, out: Out::Done(y@), cur: cursor(o1) }));
                    assert(eval(bv, f1, lv, fuel as nat, tr, cursor(o1)) == val_step(*self, Ok::<Type, RuntimeError>(x), *out));
                }
            }
            res
        } else {
            let x = match self.run_expr(out, b, l, fuel) {
                Ok(v) => v,
                Err(err) => {
                    proof {
                        assert forall|tr: Trace| agrees(tr, *out) implies
                            #[trigger] eval_bin(bv, f0, op, lv, rv, fuel as nat, tr, cursor(o0))
                                == val_step(*self, Err::<Type, RuntimeError>(err), *out) by {
                            assert(eval(bv, f0, lv, fuel as nat, tr, cursor(o0)) == val_step(*self, Err::<Type, RuntimeError>(err), *out));
                        }
                    }
                    return Err(err);
                },
            };
            let ghost o1 = *out;
            let ghost f1 = self@;
            let y = match self.run_expr(out, b, r, fuel) {
                Ok(v) => v,
                Err(err) => {
                    proof {
                        lemma_extends_trans(o0, o1, *out);
                        assert forall|tr: Trace| agrees(tr, *out) implies
                            #[trigger] eval_bin(bv, f0, op, lv, rv, fuel as nat, tr, cursor(o0))
                                == val_step(*self, Err::<Type, RuntimeError>(err), *out) by {
                            lemma_agrees_prefix(tr, o1, *out);
                            assert(eval(bv, f0, lv, fuel as nat, tr, cursor(o0)) == (StepRes { frame: f1, out: Out::Done(x@), cur: cursor(o1) }));
                            assert(eval(bv, f1, rv, fuel as nat, tr, cursor(o1)) == val_step(*self, Err::<Type, RuntimeError>(err), *out));
                        }
                    }
                    return Err(err);
                },
            };
            let res = apply_bin_exec(op, &x, &y);
            proof {
                lemma_extends_trans(o0, o1, *out);
                assert forall|tr: Trace| agrees(tr, *out) implies
                    #[trigger] eval_bin(bv, f0, op, lv, rv, fuel as nat, tr, cursor(o0)) == val_step(*self, res, *out) by {
                    lemma_agrees_prefix(tr, o1, *out);
                    assert(eval(bv, f0, lv, fuel as nat, tr, cursor(o0)) == (StepRes { frame: f1, out: Out::Done(x@), cur: cursor(o1) }));
                    assert(eval(bv, f1, rv, fuel as nat, tr, cursor(o1)) == val_step(*self, Ok::<Type, RuntimeError>(y), *out));
                }
            }
            res
        }
    }

    fn run_args<I: DrScriptIo>(&mut self, out: &mut Outside<I>, b: &Table<BuiltinFun>, args: &Vec<Expr>, fuel: u64) -> (r: Result<Vec<Type>, RuntimeError>)
        ensures
            extends(*old(out), *final(out)),
            forall|tr: Trace| agrees(tr, *final(out)) ==>
                #[trigger] eval_args(builtins_view(b@), old(self)@, exprs_view(args@), 0, Seq::empty(), fuel as nat, tr, cursor(*old(out)))
                    == (StepRes { frame: final(self)@, out: vals_out(r), cur: cursor(*final(out)) }),
        decreases fuel, 1int,
    {
        let ghost o0 = *out;
        let ghost f0 = self@;
        let ghost bv = builtins_view(b@);
        let ghost ea = exprs_view(args@);
        proof {
            lemma_exprs_view(args@);
            lemma_extends_refl(o0);
        }
        let mut vals: Vec<Type> = Vec::new();
        let mut i: usize = 0;
        let mut f: u64 = fuel;
        assert(vals_view(vals@) =~= Seq::<SVal>::empty());
        loop
            invariant
                i <= args@.len(),
                f <= fuel,
                ea == exprs_view(args@),
                ea.len() == args@.len(),
                forall|k: int| 0 <= k < args@.len() ==> #[trigger] ea[k] == expr_view(args@[k]),
                bv == builtins_view(b@),
                f0 == old(self)@,
                o0 == *old(out),
                extends(o0, *out),
                forall|tr: Trace| agrees(tr, *out) ==>
                    #[trigger] eval_args(bv, f0, ea, 0, Seq::empty(), fuel as nat, tr, cursor(o0))
                        == eval_args(bv, self@, ea, i as int, vals_view(vals@), f as nat, tr, cursor(*out)),
            decreases args@.len() - i,
        {
            if i >= args.len() {
                return Ok(vals);
            }
            if f == 0 {
                return Err(RuntimeError::StepLimit);
            }
            let fu = f - 1;
            let ghost oi = *out;
            let ghost fi = self@;
            let ghost acc = vals_view(vals@);
            let ghost ei = ea[i as int];
            match self.run_expr(out, b, &args[i], fu) {
                Err(err) => {
                    proof {
                        lemma_extends_trans(o0, oi, *out);
                        assert forall|tr: Trace| agrees(tr, *out) implies
                            #[trigger] eval_args(bv, f0, ea, 0, Seq::empty(), fuel as nat, tr, cursor(o0))
                                == (StepRes { frame: self@, out: vals_out(Err(err)), cur: cursor(*out) }) by {
                            lemma_agrees_prefix(tr, oi, *out);
                            assert(eval(bv, fi, ei, fu as nat, tr, cursor(oi)) == val_step(*self, Err::<Type, RuntimeError>(err), *out));
                        }
                    }
                    return Err(err);
                },
                Ok(v) => {
                    proof {
                        lemma_extends_trans(o0, oi, *out);
                        assert(vals_view(vals@.push(v)) =~= acc.push(v@));
                        assert forall|tr: Trace| agrees(tr, *out) implies
                            #[trigger] eval_args(bv, f0, ea, 0, Seq::empty(), fuel as nat, tr, cursor(o0))
                                == eval_args(bv, self@, ea, i + 1, acc.push(v@), fu as nat, tr, cursor(*out)) by {
                            lemma_agrees_prefix(tr, oi, *out);
                            assert(eval(bv, fi, ei, fu as nat, tr, cursor(oi)) == val_step(*self, Ok::<Type, RuntimeError>(v), *out));
                        }
                    }
                    vals.push(v);
                },
            }
            f = fu;
            i = i + 1;
        }
    }
}

impl Frame {
    fn bind<I: DrScriptIo>(
        &mut self,
        out: &mut Outside<I>,
        b: &Table<BuiltinFun>,
        local: &mut Frame,
        params: &Vec<String>,
        args: &Vec<Expr>,
        fuel: u64,
    ) -> (r: Result<(), RuntimeError>)
        requires
            params@.len() == args@.len(),
        ensures
            extends(*old(out), *final(out)),
            final(local)@.funcs == old(local)@.funcs,
            final(local)@.loaded == old(local)@.loaded,
            forall|tr: Trace| agrees(tr, *final(out)) ==>
                #[trigger] bind_args(builtins_view(b@), old(self)@, names_view(params@), exprs_view(args@), 0, old(local)@.vars, fuel as nat, tr, cursor(*old(out)))
                    == (StepRes { frame: final(self)@, out: locals_out(r, final(local)@.vars), cur: cursor(*final(out)) }),
        decreases fuel, 1int,
    {
        let ghost o0 = *out;
        let ghost f0 = self@;
        let ghost l0 = local@;
        let ghost bv = builtins_view(b@);
        let ghost ea = exprs_view(args@);
        let ghost pn = names_view(params@);
        proof {
            lemma_exprs_view(args@);
            lemma_extends_refl(o0);
        }
        let mut i: usize = 0;
        let mut f: u64 = fuel;
        loop
            invariant
                i <= args@.len(),
                params@.len() == args@.len(),
                f <= fuel,
                ea == exprs_view(args@),
                pn == names_view(params@),
                ea.len() == args@.len(),
                forall|k: int| 0 <= k < args@.len() ==> #[trigger] ea[k] == expr_view(args@[k]),
                bv == builtins_view(b@),
                f0 == old(self)@,
                l0 == old(local)@,
                local@.funcs == l0.funcs,
                local@.loaded == l0.loaded,
                o0 == *old(out),
                extends(o0, *out),
                forall|tr: Trace| agrees(tr, *out) ==>
                    #[trigger] bind_args(bv, f0, pn, ea, 0, l0.vars, fuel as nat, tr, cursor(o0))
                        == bind_args(bv, self@, pn, ea, i as int, local@.vars, f as nat, tr, cursor(*out)),
            decreases args@.len() - i,
        {
            if i >= args.len() {
                return Ok(());
            }
            if f == 0 {
                return Err(RuntimeError::StepLimit);
            }
            let fu = f - 1;
            let ghost oi = *out;
            let ghost fi = self@;
            let ghost acc = local@.vars;
            let ghost ei = ea[i as int];
            match self.run_expr(out, b, &args[i], fu) {
                Err(err) => {
                    proof {
                        lemma_extends_trans(o0, oi, *out);
                        assert forall|tr: Trace| agrees(tr, *out) implies
                            #[trigger] bind_args(bv, f0, pn, ea, 0, l0.vars, fuel as nat, tr, cursor(o0))
                                == (StepRes { frame: self@, out: locals_out(Err(err), local@.vars), cur: cursor(*out) }) by {
                            lemma_agrees_prefix(tr, oi, *out);
                            assert(eval(bv, fi, ei, fu as nat, tr, cursor(oi)) == val_step(*self, Err::<Type, RuntimeError>(err), *out));
                        }
                    }
                    return Err(err);
                },
                Ok(v) => {
                    let ghost vv = v@;
                    local.set_var(params[i].clone(), Value::new(v, false));
                    proof {
                        lemma_extends_trans(o0, oi, *out);
                        assert(pn[i as int] == params@[i as int]@);
                        assert(local@.vars == acc.insert(pn[i as int], (vv, false)));
                        assert forall|tr: Trace| agrees(tr, *out) implies
                            #[trigger] bind_args(bv, f0, pn, ea, 0, l0.vars, fuel as nat, tr, cursor(o0))
                                == bind_args(bv, self@, pn, ea, i + 1, local@.vars, fu as nat, tr, cursor(*out)) by {
                            lemma_agrees_prefix(tr, oi, *out);
                            assert(eval(bv, fi, ei, fu as nat, tr, cursor(oi)) == val_step(*self, Ok::<Type, RuntimeError>(v), *out));
                        }
                    }
                },
            }
            f = fu;
            i = i + 1;
        }
    }

    fn run_call<I: DrScriptIo>(
        &mut self,
        out: &mut Outside<I>,
        b: &Table<BuiltinFun>,
        name: &String,
        args: &Vec<Expr>,
        span: Span,
        fuel: u64,
    ) -> (r: Result<Type, RuntimeError>)
        ensures
            extends(*old(out), *final(out)),
            forall|tr: Trace| agrees(tr, *final(out)) ==>
                #[trigger] eval_call(builtins_view(b@), old(self)@, name@, exprs_view(args@), span, fuel as nat, tr, cursor(*old(out)))
                    == val_step(*final(self), r, *final(out)),
        decreases fuel, 2int,
    {
        let ghost o0 = *out;
        let ghost f0 = self@;
        let ghost bv = builtins_view(b@);
        let ghost ea = exprs_view(args@);
        let vals = match self.run_args(out, b, args, fuel) {
            Ok(v) => v,
            Err(err) => {
                proof {
                    assert forall|tr: Trace| agrees(tr, *out) implies
                        #[trigger] eval_call(bv, f0, name@, ea, span, fuel as nat, tr, cursor(o0))
                            == val_step(*self, Err::<Type, RuntimeError>(err), *out) by {
                        assert(eval_args(bv, f0, ea, 0, Seq::empty(), fuel as nat, tr, cursor(o0))
                            == (StepRes { frame: self@, out: vals_out(Err(err)), cur: cursor(*out) }));
                    }
                }
                return Err(err);
            },
        };
        proof {
            lemma_exprs_view(args@);
            lemma_builtins_view(b@, name@);
        }
        let ghost o1 = *out;
        let ghost f1 = self@;
        let ghost vs = vals_view(vals@);
        assert(vs.len() == vals@.len());
        match b.get(name.as_str()) {
            Some(bf) => {
                if let Some(a) = bf.args {
                    if args.len() != a {
                        let err = RuntimeError::ArgumentMismatch { expected: a, got: vals.len() };
                        proof {
                            assert forall|tr: Trace| agrees(tr, *out) implies
                                #[trigger] eval_call(bv, f0, name@, ea, span, fuel as nat, tr, cursor(o0))
                                    == val_step(*self, Err::<Type, RuntimeError>(err), *out) by {
                                assert(eval_args(bv, f0, ea, 0, Seq::empty(), fuel as nat, tr, cursor(o0))
                                    == (StepRes { frame: f1, out: Out::Done(vs), cur: cursor(o1) }));
                            }
                        }
                        return Err(err);
                    }
                }
                let res = call_builtin(out, bf.func, &vals, span);
                proof {
                    lemma_extends_trans(o0, o1, *out);
                    assert forall|tr: Trace| agrees(tr, *out) implies
                        #[trigger] eval_call(bv, f0, name@, ea, span, fuel as nat, tr, cursor(o0))
                            == val_step(*self, res, *out) by {
                        lemma_agrees_prefix(tr, o1, *out);
                        assert(eval_args(bv, f0, ea, 0, Seq::empty(), fuel as nat, tr, cursor(o0))
                            == (StepRes { frame: f1, out: Out::Done(vs), cur: cursor(o1) }));
                    }
                }
                return res;
            },
            None => {},
        }
        let def = match self.func(name.as_str()) {
            None => {
                let err = RuntimeError::UndefinedFunction { name: name.clone(), span };
                proof {
                    assert forall|tr: Trace| agrees(tr, *out) implies
                        #[trigger] eval_call(bv, f0, name@, ea, span, fuel as nat, tr, cursor(o0))
                            == val_step(*self, Err::<Type, RuntimeError>(err), *out) by {
                        assert(eval_args(bv, f0, ea, 0, Seq::empty(), fuel as nat, tr, cursor(o0))
                            == (StepRes { frame: f1, out: Out::Done(vs), cur: cursor(o1) }));
                    }
                }
                return Err(err);
            },
            Some(d) => d,
        };
        let ghost dv = def_view(def);
        assert(dv.0.len() == def.0@.len());
        if def.0.len() != args.len() {
            let err = RuntimeError::ArgumentMismatch { expected: def.0.len(), got: args.len() };
            proof {
                assert forall|tr: Trace| agrees(tr, *out) implies
                    #[trigger] eval_call(bv, f0, name@, ea, span, fuel as nat, tr, cursor(o0))
                        == val_step(*self, Err::<Type, RuntimeError>(err), *out) by {
                    assert(eval_args(bv, f0, ea, 0, Seq::empty(), fuel as nat, tr, cursor(o0))
                        == (StepRes { frame: f1, out: Out::Done(vs), cur: cursor(o1) }));
                }
            }
            return Err(err);
        }
        let mut local = self.child();
        let ghost lf0 = local@;
        match self.bind(out, b, &mut local, &def.0, args, fuel) {
            Ok(()) => {},
            Err(err) => {
                proof {
                    lemma_extends_trans(o0, o1, *out);
                    assert forall|tr: Trace| agrees(tr, *out) implies
                        #[trigger] eval_call(bv, f0, name@, ea, span, fuel as nat, tr, cursor(o0))
                            == val_step(*self, Err::<Type, RuntimeError>(err), *out) by {
                        lemma_agrees_prefix(tr, o1, *out);
                        assert(eval_args(bv, f0, ea, 0, Seq::empty(), fuel as nat, tr, cursor(o0))
                            == (StepRes { frame: f1, out: Out::Done(vs), cur: cursor(o1) }));
                        assert(bind_args(bv, f1, dv.0, ea, 0, lf0.vars, fuel as nat, tr, cursor(o1))
                            == (StepRes { frame: self@, out: locals_out(Err(err), local@.vars), cur: cursor(*out) }));
                    }
                }
                return Err(err);
            },
        }
        let ghost o2 = *out;
        let ghost f2 = self@;
        let ghost lf = local@;
        assert(lf == (SFrame { vars: lf.vars, funcs: f1.funcs, loaded: f1.loaded }));
        let rb = local.run_block(out, b, &def.1, fuel);
        let res = match rb {
            Ok(ExecReturn::Return(v)) => Ok(v),
            Ok(ExecReturn::Normal) => Ok(Type::Int(0)),
            Err(e) => Err(e),
        };
        proof {
            lemma_extends_trans(o0, o1, o2);
            lemma_extends_trans(o0, o2, *out);
            assert forall|tr: Trace| agrees(tr, *out) implies
                #[trigger] eval_call(bv, f0, name@, ea, span, fuel as nat, tr, cursor(o0))
                    == val_step(*self, res, *out) by {
                lemma_agrees_prefix(tr, o2, *out);
                lemma_agrees_prefix(tr, o1, o2);
                assert(eval_args(bv, f0, ea, 0, Seq::empty(), fuel as nat, tr, cursor(o0))
                    == (StepRes { frame: f1, out: Out::Done(vs), cur: cursor(o1) }));
                assert(bind_args(bv, f1, dv.0, ea, 0, Map::empty(), fuel as nat, tr, cursor(o1))
                    == (StepRes { frame: f2, out: Out::Done(lf.vars), cur: cursor(o2) }));
                assert(exec_block(bv, lf, dv.1, 0, fuel as nat, tr, cursor(o2)) == flow_step(local, rb, *out));
            }
        }
        res
    }
}

impl Frame {
    fn run_block<I: DrScriptIo>(&mut self, out: &mut Outside<I>, b: &Table<BuiltinFun>, stmts: &Vec<Stmt>, fuel: u64) -> (r: Result<ExecReturn, RuntimeError>)
        ensures
            extends(*old(out), *final(out)),
            forall|tr: Trace| agrees(tr, *final(out)) ==>
                #[trigger] exec_block(builtins_view(b@), old(self)@, stmts_view(stmts@), 0, fuel as nat, tr, cursor(*old(out)))
                    == flow_step(*final(self), r, *final(out)),
        decreases fuel, 1int,
    {
        let ghost o0 = *out;
        let ghost f0 = self@;
        let ghost bv = builtins_view(b@);
        let ghost sv = stmts_view(stmts@);
        proof {
            lemma_stmts_view(stmts@);
            lemma_extends_refl(o0);
        }
        let mut i: usize = 0;
        let mut f: u64 = fuel;
        loop
            invariant
                i <= stmts@.len(),
                f <= fuel,
                sv == stmts_view(stmts@),
                sv.len() == stmts@.len(),
                forall|k: int| 0 <= k < stmts@.len() ==> #[trigger] sv[k] == stmt_view(stmts@[k]),
                bv == builtins_view(b@),
                f0 == old(self)@,
                o0 == *old(out),
                extends(o0, *out),
                forall|tr: Trace| agrees(tr, *out) ==>
                    #[trigger] exec_block(bv, f0, sv, 0, fuel as nat, tr, cursor(o0))
                        == exec_block(bv, self@, sv, i as int, f as nat, tr, cursor(*out)),
            decreases stmts@.len() - i,
        {
            if i >= stmts.len() {
                return Ok(ExecReturn::Normal);
            }
            if f == 0 {
                return Err(RuntimeError::StepLimit);
            }
            let fu = f - 1;
            let ghost oi = *out;
            let ghost fi = self@;
            let ghost si = sv[i as int];
            let r = self.run_stmt(out, b, &stmts[i], fu);
            proof {
                lemma_extends_trans(o0, oi, *out);
            }
            match r {
                Ok(ExecReturn::Normal) => {
                    proof {
                        assert forall|tr: Trace| agrees(tr, *out) implies
                            #[trigger] exec_block(bv, f0, sv, 0, fuel as nat, tr, cursor(o0))
                                == exec_block(bv, self@, sv, i + 1, fu as nat, tr, cursor(*out)) by {
                            lemma_agrees_prefix(tr, oi, *out);
                            assert(exec_stmt(bv, fi, si, fu as nat, tr, cursor(oi)) == flow_step(*self, r, *out));
                        }
                    }
                },
                _ => {
                    proof {
                        assert forall|tr: Trace| agrees(tr, *out) implies
                            #[trigger] exec_block(bv, f0, sv, 0, fuel as nat, tr, cursor(o0))
                                == flow_step(*self, r, *out) by {
                            lemma_agrees_prefix(tr, oi, *out);
                            assert(exec_stmt(bv, fi, si, fu as nat, tr, cursor(oi)) == flow_step(*self, r, *out));
                        }
                    }
                    return r;
                },
            }
            f = fu;
            i = i + 1;
        }
    }

    fn run_import<I: DrScriptIo>(&mut self, out: &mut Outside<I>, b: &Table<BuiltinFun>, stmts: &Vec<Stmt>, fuel: u64) -> (r: Result<ExecReturn, RuntimeError>)
        ensures
            extends(*old(out), *final(out)),
            forall|tr: Trace| agrees(tr, *final(out)) ==>
                #[trigger] exec_import(builtins_view(b@), old(self)@, stmts_view(stmts@), 0, fuel as nat, tr, cursor(*old(out)))
                    == flow_step(*final(self), r, *final(out)),
        decreases fuel, 1int,
    {
        let ghost o0 = *out;
        let ghost f0 = self@;
        let ghost bv = builtins_view(b@);
        let ghost sv = stmts_view(stmts@);
        proof {
            lemma_stmts_view(stmts@);
            lemma_extends_refl(o0);
        }
        let mut i: usize = 0;
        let mut f: u64 = fuel;
        loop
            invariant
                i <= stmts@.len(),
                f <= fuel,
                sv == stmts_view(stmts@),
                sv.len() == stmts@.len(),
                forall|k: int| 0 <= k < stmts@.len() ==> #[trigger] sv[k] == stmt_view(stmts@[k]),
                bv == builtins_view(b@),
                f0 == old(self)@,
                o0 == *old(out),
                extends(o0, *out),
                forall|tr: Trace| agrees(tr, *out) ==>
                    #[trigger] exec_import(bv, f0, sv, 0, fuel as nat, tr, cursor(o0))
                        == exec_import(bv, self@, sv, i as int, f as nat, tr, cursor(*out)),
            decreases stmts@.len() - i,
        {
            if i >= stmts.len() {
                return Ok(ExecReturn::Normal);
            }
            if f == 0 {
                return Err(RuntimeError::StepLimit);
            }
            let fu = f - 1;
            let ghost oi = *out;
            let ghost fi = self@;
            let ghost si = sv[i as int];
            let r = self.run_stmt(out, b, &stmts[i], fu);
            proof {
                lemma_extends_trans(o0, oi, *out);
            }
            match r {
                Ok(_) => {
                    proof {
                        assert forall|tr: Trace| agrees(tr, *out) implies
                            #[trigger] exec_import(bv, f0, sv, 0, fuel as nat, tr, cursor(o0))
                                == exec_import(bv, self@, sv, i + 1, fu as nat, tr, cursor(*out)) by {
                            lemma_agrees_prefix(tr, oi, *out);
                            assert(exec_stmt(bv, fi, si, fu as nat, tr, cursor(oi)) == flow_step(*self, r, *out));
                        }
                    }
                },
                Err(e) => {
                    proof {
                        assert forall|tr: Trace| agrees(tr, *out) implies
                            #[trigger] exec_import(bv, f0, sv, 0, fuel as nat, tr, cursor(o0))
                                == flow_step(*self, Err::<ExecReturn, RuntimeError>(e), *out) by {
                            lemma_agrees_prefix(tr, oi, *out);
                            assert(exec_stmt(bv, fi, si, fu as nat, tr, cursor(oi)) == flow_step(*self, r, *out));
                        }
                    }
                    return Err(e);
                },
            }
            f = fu;
            i = i + 1;
        }
    }

    fn run_loop<I: DrScriptIo>(
        &mut self,
        out: &mut Outside<I>,
        b: &Table<BuiltinFun>,
        cond: &Expr,
        body: &Vec<Stmt>,
        incr: &Option<Expr>,
        fuel: u64,
    ) -> (r: Result<ExecReturn, RuntimeError>)
        ensures
            extends(*old(out), *final(out)),
            forall|tr: Trace| agrees(tr, *final(out)) ==>
                #[trigger] exec_loop(builtins_view(b@), old(self)@, expr_view(*cond), stmts_view(body@), opt_view(*incr), fuel as nat, tr, cursor(*old(out)))
                    == flow_step(*final(self), r, *final(out)),
        decreases fuel, 1int,
    {
        let ghost o0 = *out;
        let ghost f0 = self@;
        let ghost bv = builtins_view(b@);
        let ghost cv = expr_view(*cond);
        let ghost bdv = stmts_view(body@);
        let ghost iv = opt_view(*incr);
        proof {
            lemma_extends_refl(o0);
        }
        let mut f: u64 = fuel;
        loop
            invariant
                f <= fuel,
                bv == builtins_view(b@),
                cv == expr_view(*cond),
                bdv == stmts_view(body@),
                iv == opt_view(*incr),
                f0 == old(self)@,
                o0 == *old(out),
                extends(o0, *out),
                forall|tr: Trace| agrees(tr, *out) ==>
                    #[trigger] exec_loop(bv, f0, cv, bdv, iv, fuel as nat, tr, cursor(o0))
                        == exec_loop(bv, self@, cv, bdv, iv, f as nat, tr, cursor(*out)),
            decreases f,
        {
            if f == 0 {
                return Err(RuntimeError::StepLimit);
            }
            let fu = f - 1;
            let ghost oi = *out;
            let ghost fi = self@;
            let c = match self.run_expr(out, b, cond, fu) {
                Ok(v) => v,
                Err(err) => {
                    proof {
                        lemma_extends_trans(o0, oi, *out);
                        assert forall|tr: Trace| agrees(tr, *out) implies
                            #[trigger] exec_loop(bv, f0, cv, bdv, iv, fuel as nat, tr, cursor(o0))
                                == flow_step(*self, Err::<ExecReturn, RuntimeError>(err), *out) by {
                            lemma_agrees_prefix(tr, oi, *out);
                            assert(eval(bv, fi, cv, fu as nat, tr, cursor(oi)) == val_step(*self, Err::<Type, RuntimeError>(err), *out));
                        }
                    }
                    return Err(err);
                },
            };
            proof {
                lemma_extends_trans(o0, oi, *out);
            }
            let ghost oc = *out;
            let ghost fc = self@;
            if c.eq(&Type::Int(0)) {
                proof {
                    assert forall|tr: Trace| agrees(tr, *out) implies
                        #[trigger] exec_loop(bv, f0, cv, bdv, iv, fuel as nat, tr, cursor(o0))
                            == flow_step(*self, Ok::<ExecReturn, RuntimeError>(ExecReturn::Normal), *out) by {
                        lemma_agrees_prefix(tr, oi, *out);
                        assert(eval(bv, fi, cv, fu as nat, tr, cursor(oi)) == val_step(*self, Ok::<Type, RuntimeError>(c), *out));
                    }
                }
                return Ok(ExecReturn::Normal);
            }
            let rb = self.run_block(out, b, body, fu);
            proof {
                lemma_extends_trans(o0, oc, *out);
            }
            match rb {
                Ok(ExecReturn::Normal) => {},
                _ => {
                    proof {
                        assert forall|tr: Trace| agrees(tr, *out) implies
                            #[trigger] exec_loop(bv, f0, cv, bdv, iv, fuel as nat, tr, cursor(o0))
                                == flow_step(*self, rb, *out) by {
                            lemma_agrees_prefix(tr, oc, *out);
                            lemma_agrees_prefix(tr, oi, oc);
                            assert(eval(bv, fi, cv, fu as nat, tr, cursor(oi)) == (StepRes { frame: fc, out: Out::Done(c@), cur: cursor(oc) }));
                            assert(exec_block(bv, fc, bdv, 0, fu as nat, tr, cursor(oc)) == flow_step(*self, rb, *out));
                        }
                    }
                    return rb;
                },
            }
            let ghost ob = *out;
            let ghost fb = self@;
            match incr {
                Some(ie) => {
                    match self.run_expr(out, b, ie, fu) {
                        Ok(w) => {
                            proof {
                                lemma_extends_trans(o0, ob, *out);
                                assert forall|tr: Trace| agrees(tr, *out) implies
                                    #[trigger] exec_loop(bv, f0, cv, bdv, iv, fuel as nat, tr, cursor(o0))
                                        == exec_loop(bv, self@, cv, bdv, iv, fu as nat, tr, cursor(*out)) by {
                                    lemma_agrees_prefix(tr, ob, *out);
                                    lemma_agrees_prefix(tr, oc, ob);
                                    lemma_agrees_prefix(tr, oi, oc);
                                    assert(eval(bv, fi, cv, fu as nat, tr, cursor(oi)) == (StepRes { frame: fc, out: Out::Done(c@), cur: cursor(oc) }));
                                    assert(exec_block(bv, fc, bdv, 0, fu as nat, tr, cursor(oc)) == (StepRes { frame: fb, out: Out::Done(Flow::Normal), cur: cursor(ob) }));
                                    assert(eval(bv, fb, expr_view(*ie), fu as nat, tr, cursor(ob)) == val_step(*self, Ok::<Type, RuntimeError>(w), *out));
                                }
                            }
                        },
                        Err(err) => {
                            proof {
                                lemma_extends_trans(o0, ob, *out);
                                assert forall|tr: Trace| agrees(tr, *out) implies
                                    #[trigger] exec_loop(bv, f0, cv, bdv, iv, fuel as nat, tr, cursor(o0))
                                        == flow_step(*self, Err::<ExecReturn, RuntimeError>(err), *out) by {
                                    lemma_agrees_prefix(tr, ob, *out);
                                    lemma_agrees_prefix(tr, oc, ob);
                                    lemma_agrees_prefix(tr, oi, oc);
                                    assert(eval(bv, fi, cv, fu as nat, tr, cursor(oi)) == (StepRes { frame: fc, out: Out::Done(c@), cur: cursor(oc) }));
                                    assert(exec_block(bv, fc, bdv, 0, fu as nat, tr, cursor(oc)) == (StepRes { frame: fb, out: Out::Done(Flow::Normal), cur: cursor(ob) }));
                                    assert(eval(bv, fb, expr_view(*ie), fu as nat, tr, cursor(ob)) == val_step(*self, Err::<Type, RuntimeError>(err), *out));
                                }
                            }
                            return Err(err);
                        },
                    }
                },
                None => {
                    proof {
                        assert forall|tr: Trace| agrees(tr, *out) implies
                            #[trigger] exec_loop(bv, f0, cv, bdv, iv, fuel as nat, tr, cursor(o0))
                                == exec_loop(bv, self@, cv, bdv, iv, fu as nat, tr, cursor(*out)) by {
                            lemma_agrees_prefix(tr, oc, *out);
                            lemma_agrees_prefix(tr, oi, oc);
                            assert(eval(bv, fi, cv, fu as nat, tr, cursor(oi)) == (StepRes { frame: fc, out: Out::Done(c@), cur: cursor(oc) }));
                            assert(exec_block(bv, fc, bdv, 0, fu as nat, tr, cursor(oc)) == (StepRes { frame: fb, out: Out::Done(Flow::Normal), cur: cursor(ob) }));
                        }
                    }
                },
            }
            f = fu;
        }
    }
}

impl Frame {
    fn run_stmt<I: DrScriptIo>(&mut self, out: &mut Outside<I>, b: &Table<BuiltinFun>, s: &Stmt, fuel: u64) -> (r: Result<ExecReturn, RuntimeError>)
        ensures
            extends(*old(out), *final(out)),
            forall|tr: Trace| agrees(tr, *final(out)) ==>
                #[trigger] exec_stmt(builtins_view(b@), old(self)@, stmt_view(*s), fuel as nat, tr, cursor(*old(out)))
                    == flow_step(*final(self), r, *final(out)),
        decreases fuel, 0int,
    {
        proof {
            lemma_extends_refl(*out);
        }
        if fuel == 0 {
            return Err(RuntimeError::StepLimit);
        }
        let fu = fuel - 1;
        let ghost o0 = *out;
        let ghost f0 = self@;
        let ghost bv = builtins_view(b@);
        let ghost sv = stmt_view(*s);
        match &s.kind {
            StmtKind::VerDecl { name, value, mutable } => {
                assert(sv.kind == SStmtKind::VerDecl { name: name@, value: expr_view(*value), mutable: *mutable });
                let v = match self.run_expr(out, b, value, fu) {
                    Ok(v) => v,
                    Err(e) => {
                        proof {
                            assert forall|tr: Trace| agrees(tr, *out) implies
                                #[trigger] exec_stmt(bv, f0, sv, fuel as nat, tr, cursor(o0)) == flow_step(*self, Err::<ExecReturn, RuntimeError>(e), *out) by {
                                assert(eval(bv, f0, expr_view(*value), fu as nat, tr, cursor(o0)) == val_step(*self, Err::<Type, RuntimeError>(e), *out));
                            }
                        }
                        return Err(e);
                    },
                };
                let ghost fm = self@;
                let ghost vv = v@;
                self.set_var(name.clone(), Value::new(v, *mutable));
                proof {
                    assert forall|tr: Trace| agrees(tr, *out) implies
                        #[trigger] exec_stmt(bv, f0, sv, fuel as nat, tr, cursor(o0)) == flow_step(*self, Ok::<ExecReturn, RuntimeError>(ExecReturn::Normal), *out) by {
                        assert(eval(bv, f0, expr_view(*value), fu as nat, tr, cursor(o0)) == (StepRes { frame: fm, out: Out::Done(vv), cur: cursor(*out) }));
                    }
                }
                Ok(ExecReturn::Normal)
            },
            StmtKind::Assign { name, value } => {
                assert(sv.kind == SStmtKind::Assign { name: name@, value: expr_view(*value) });
                let v = match self.run_expr(out, b, value, fu) {
                    Ok(v) => v,
                    Err(e) => {
                        proof {
                            assert forall|tr: Trace| agrees(tr, *out) implies
                                #[trigger] exec_stmt(bv, f0, sv, fuel as nat, tr, cursor(o0)) == flow_step(*self, Err::<ExecReturn, RuntimeError>(e), *out) by {
                                assert(eval(bv, f0, expr_view(*value), fu as nat, tr, cursor(o0)) == val_step(*self, Err::<Type, RuntimeError>(e), *out));
                            }
                        }
                        return Err(e);
                    },
                };
                let ghost fm = self@;
                let ghost vv = v@;
                let mutable = match self.var(name.as_str()) {
                    Some(x) => {
                        if !x.is_mutable() {
                            let err = RuntimeError::ImmutableAssignment { name: name.clone(), span: s.span };
                            proof {
                                assert forall|tr: Trace| agrees(tr, *out) implies
                                    #[trigger] exec_stmt(bv, f0, sv, fuel as nat, tr, cursor(o0)) == flow_step(*self, Err::<ExecReturn, RuntimeError>(err), *out) by {
                                    assert(eval(bv, f0, expr_view(*value), fu as nat, tr, cursor(o0)) == (StepRes { frame: fm, out: Out::Done(vv), cur: cursor(*out) }));
                                }
                            }
                            return Err(err);
                        }
                        true
                    },
                    None => false,
                };
                self.set_var(name.clone(), Value::new(v, mutable));
                proof {
                    assert forall|tr: Trace| agrees(tr, *out) implies
                        #[trigger] exec_stmt(bv, f0, sv, fuel as nat, tr, cursor(o0)) == flow_step(*self, Ok::<ExecReturn, RuntimeError>(ExecReturn::Normal), *out) by {
                        assert(eval(bv, f0, expr_view(*value), fu as nat, tr, cursor(o0)) == (StepRes { frame: fm, out: Out::Done(vv), cur: cursor(*out) }));
                    }
                }
                Ok(ExecReturn::Normal)
            },
            StmtKind::If { cond, then_branch, else_branch } => {
                assert(sv.kind == SStmtKind::If {
                    cond: expr_view(*cond),
                    then_branch: stmts_view(then_branch@),
                    else_branch: match else_branch {
                        Some(eb) => Some(stmts_view(eb@)),
                        None => None,
                    },
                });
                let c = match self.run_expr(out, b, cond, fu) {
                    Ok(v) => v,
                    Err(e) => {
                        proof {
                            assert forall|tr: Trace| agrees(tr, *out) implies
                                #[trigger] exec_stmt(bv, f0, sv, fuel as nat, tr, cursor(o0)) == flow_step(*self, Err::<ExecReturn, RuntimeError>(e), *out) by {
                                assert(eval(bv, f0, expr_view(*cond), fu as nat, tr, cursor(o0)) == val_step(*self, Err::<Type, RuntimeError>(e), *out));
                            }
                        }
                        return Err(e);
                    },
                };
                let ghost oc = *out;
                let ghost fc = self@;
                if !c.eq(&Type::Int(0)) {
                    let x = self.run_block(out, b, then_branch, fu);
                    proof {
                        lemma_extends_trans(o0, oc, *out);
                    }
                    proof {
                        assert forall|tr: Trace| agrees(tr, *out) implies
                            #[trigger] exec_stmt(bv, f0, sv, fuel as nat, tr, cursor(o0)) == flow_step(*self, x, *out) by {
                            lemma_agrees_prefix(tr, oc, *out);
                            assert(eval(bv, f0, expr_view(*cond), fu as nat, tr, cursor(o0)) == (StepRes { frame: fc, out: Out::Done(c@), cur: cursor(oc) }));
                            assert(exec_block(bv, fc, stmts_view(then_branch@), 0, fu as nat, tr, cursor(oc)) == flow_step(*self, x, *out));
                        }
                    }
                    x
                } else {
                    match else_branch {
                        Some(eb) => {
                            let x = self.run_block(out, b, eb, fu);
                            proof {
                                lemma_extends_trans(o0, oc, *out);
                            }
                            proof {
                                assert forall|tr: Trace| agrees(tr, *out) implies
                                    #[trigger] exec_stmt(bv, f0, sv, fuel as nat, tr, cursor(o0)) == flow_step(*self, x, *out) by {
                                    lemma_agrees_prefix(tr, oc, *out);
                                    assert(eval(bv, f0, expr_view(*cond), fu as nat, tr, cursor(o0)) == (StepRes { frame: fc, out: Out::Done(c@), cur: cursor(oc) }));
                                    assert(exec_block(bv, fc, stmts_view(eb@), 0, fu as nat, tr, cursor(oc)) == flow_step(*self, x, *out));
                                }
                            }
                            x
                        },
                        None => {
                            proof {
                                assert forall|tr: Trace| agrees(tr, *out) implies
                                    #[trigger] exec_stmt(bv, f0, sv, fuel as nat, tr, cursor(o0)) == flow_step(*self, Ok::<ExecReturn, RuntimeError>(ExecReturn::Normal), *out) by {
                                    assert(eval(bv, f0, expr_view(*cond), fu as nat, tr, cursor(o0)) == (StepRes { frame: fc, out: Out::Done(c@), cur: cursor(oc) }));
                                }
                            }
                            Ok(ExecReturn::Normal)
                        },
                    }
                }
            },
            StmtKind::While { cond, body } => {
                assert(sv.kind == SStmtKind::While { cond: expr_view(*cond), body: stmts_view(body@) });
                let none: Option<Expr> = None;
                assert(opt_view(none) == None::<SExpr>);
                let x = self.run_loop(out, b, cond, body, &none, fu);
                proof {
                    assert forall|tr: Trace| agrees(tr, *out) implies
                        #[trigger] exec_stmt(bv, f0, sv, fuel as nat, tr, cursor(o0)) == flow_step(*self, x, *out) by {
                        assert(exec_loop(bv, f0, expr_view(*cond), stmts_view(body@), None, fu as nat, tr, cursor(o0)) == flow_step(*self, x, *out));
                    }
                }
                x
            },
            StmtKind::For { init, cond, incr, body } => {
                let ghost iv = stmt_view(**init);
                assert(sv.kind == SStmtKind::For { init: Box::new(iv), cond: expr_view(*cond), incr: opt_view(*incr), body: stmts_view(body@) });
                match self.run_stmt(out, b, init, fu) {
                    Ok(_) => {},
                    Err(e) => {
                        proof {
                            assert forall|tr: Trace| agrees(tr, *out) implies
                                #[trigger] exec_stmt(bv, f0, sv, fuel as nat, tr, cursor(o0)) == flow_step(*self, Err::<ExecReturn, RuntimeError>(e), *out) by {
                                assert(exec_stmt(bv, f0, iv, fu as nat, tr, cursor(o0)) == flow_step(*self, Err::<ExecReturn, RuntimeError>(e), *out));
                            }
                        }
                        return Err(e);
                    },
                }
                let ghost oi = *out;
                let ghost fi = self@;
                let r = self.run_loop(out, b, cond, body, incr, fu);
                proof {
                    lemma_extends_trans(o0, oi, *out);
                }
                proof {
                    assert forall|tr: Trace| agrees(tr, *out) implies
                        #[trigger] exec_stmt(bv, f0, sv, fuel as nat, tr, cursor(o0)) == flow_step(*self, r, *out) by {
                        lemma_agrees_prefix(tr, oi, *out);
                        assert(exec_stmt(bv, f0, iv, fu as nat, tr, cursor(o0)).frame == fi);
                        assert(exec_stmt(bv, f0, iv, fu as nat, tr, cursor(o0)).cur == cursor(oi));
                        assert(exec_stmt(bv, f0, iv, fu as nat, tr, cursor(o0)).out is Done);
                        assert(exec_loop(bv, fi, expr_view(*cond), stmts_view(body@), opt_view(*incr), fu as nat, tr, cursor(oi)) == flow_step(*self, r, *out));
                    }
                }
                r
            },
            StmtKind::Expr(e) => {
                assert(sv.kind == SStmtKind::Expr(expr_view(*e)));
                let x = self.run_expr(out, b, e, fu);
                let r = match x {
                    Ok(_) => Ok(ExecReturn::Normal),
                    Err(err) => Err(err),
                };
                proof {
                    assert forall|tr: Trace| agrees(tr, *out) implies
                        #[trigger] exec_stmt(bv, f0, sv, fuel as nat, tr, cursor(o0)) == flow_step(*self, r, *out) by {
                        assert(eval(bv, f0, expr_view(*e), fu as nat, tr, cursor(o0)) == val_step(*self, x, *out));
                    }
                }
                r
            },
            StmtKind::Print(e) => {
                assert(sv.kind == SStmtKind::Print(expr_view(*e)));
                let v = match self.run_expr(out, b, e, fu) {
                    Ok(v) => v,
                    Err(err) => {
                        proof {
                            assert forall|tr: Trace| agrees(tr, *out) implies
                                #[trigger] exec_stmt(bv, f0, sv, fuel as nat, tr, cursor(o0)) == flow_step(*self, Err::<ExecReturn, RuntimeError>(err), *out) by {
                                assert(eval(bv, f0, expr_view(*e), fu as nat, tr, cursor(o0)) == val_step(*self, Err::<Type, RuntimeError>(err), *out));
                            }
                        }
                        return Err(err);
                    },
                };
                let ghost om = *out;
                let ghost fm = self@;
                let t = v.to_text();
                out.print(t.as_str());
                let ghost op = *out;
                out.print("\n");
                let ghost k = om.log@.len() as int;
                proof {
                    lemma_push_extends(om, op, IoEvent::Print(t@));
                    lemma_push_extends(op, *out, IoEvent::Print("\n"@));
                    lemma_extends_trans(om, op, *out);
                    lemma_extends_trans(o0, om, *out);
                    assert(out.log@[k] == op.log@[k]);
                }
                proof {
                    assert forall|tr: Trace| agrees(tr, *out) implies
                        #[trigger] exec_stmt(bv, f0, sv, fuel as nat, tr, cursor(o0)) == flow_step(*self, Ok::<ExecReturn, RuntimeError>(ExecReturn::Normal), *out) by {
                        lemma_agrees_prefix(tr, om, *out);
                        lemma_agrees_io(tr, *out, k);
                        lemma_agrees_io(tr, *out, k + 1);
                        assert(eval(bv, f0, expr_view(*e), fu as nat, tr, cursor(o0)) == (StepRes { frame: fm, out: Out::Done(v@), cur: cursor(om) }));
                    }
                }
                Ok(ExecReturn::Normal)
            },
            StmtKind::Func { name, params, body } => {
                assert(sv.kind == SStmtKind::Func { name: name@, params: names_view(params@), body: stmts_view(body@) });
                let d: Rc<FuncDef> = Rc::new((dup_names(params), dup_stmts(body)));
                self.set_func(name.clone(), d);
                Ok(ExecReturn::Normal)
            },
            StmtKind::Return(e) => {
                assert(sv.kind == SStmtKind::Return(expr_view(*e)));
                let x = self.run_expr(out, b, e, fu);
                let r = match x {
                    Ok(v) => Ok(ExecReturn::Return(v)),
                    Err(err) => Err(err),
                };
                proof {
                    assert forall|tr: Trace| agrees(tr, *out) implies
                        #[trigger] exec_stmt(bv, f0, sv, fuel as nat, tr, cursor(o0)) == flow_step(*self, r, *out) by {
                        assert(eval(bv, f0, expr_view(*e), fu as nat, tr, cursor(o0)) == val_step(*self, x, *out));
                    }
                }
                r
            },
            StmtKind::Use(name) => {
                assert(sv.kind == SStmtKind::Use(name@));
                let x = self.run_use(out, b, name, s.span, fu);
                proof {
                    assert forall|tr: Trace| agrees(tr, *out) implies
                        #[trigger] exec_stmt(bv, f0, sv, fuel as nat, tr, cursor(o0)) == flow_step(*self, x, *out) by {
                        assert(exec_use(bv, f0, name@, s.span, fu as nat, tr, cursor(o0)) == flow_step(*self, x, *out));
                    }
                }
                x
            },
        }
    }

    fn run_use<I: DrScriptIo>(&mut self, out: &mut Outside<I>, b: &Table<BuiltinFun>, name: &String, span: Span, fuel: u64) -> (r: Result<ExecReturn, RuntimeError>)
        ensures
            extends(*old(out), *final(out)),
            forall|tr: Trace| agrees(tr, *final(out)) ==>
                #[trigger] exec_use(builtins_view(b@), old(self)@, name@, span, fuel as nat, tr, cursor(*old(out)))
                    == flow_step(*final(self), r, *final(out)),
        decreases fuel, 3int,
    {
        proof {
            lemma_extends_refl(*out);
        }
        let ghost o0 = *out;
        let ghost f0 = self@;
        let ghost bv = builtins_view(b@);
        if self.has_loaded(name) {
            return Ok(ExecReturn::Normal);
        }
        let res = out.read_module(name.as_str());
        let ghost o1 = *out;
        let ghost ev = IoEvent::Module(name@, crate::io::res_view(res));
        let ghost k = o0.log@.len() as int;
        proof {
            lemma_push_extends(o0, o1, ev);
        }
        let code = match res {
            Err(path) => {
                proof {
                    assert forall|tr: Trace| agrees(tr, *out) implies
                        #[trigger] exec_use(bv, f0, name@, span, fuel as nat, tr, cursor(o0))
                            == flow_step(*self, Err::<ExecReturn, RuntimeError>(RuntimeError::ImportNotFount { name: path, span }), *out) by {
                        lemma_agrees_io(tr, *out, k);
                    }
                }
                return Err(RuntimeError::ImportNotFount { name: path, span });
            },
            Ok(code) => code,
        };
        self.mark_loaded(name.clone());
        let ghost f1 = self@;
        let r = self.run_module(out, b, code.as_str(), fuel);
        proof {
            lemma_extends_trans(o0, o1, *out);
            assert forall|tr: Trace| agrees(tr, *out) implies
                #[trigger] exec_use(bv, f0, name@, span, fuel as nat, tr, cursor(o0)) == flow_step(*self, r, *out) by {
                lemma_agrees_prefix(tr, o1, *out);
                lemma_agrees_io(tr, o1, k);
                assert(exec_module(bv, f1, code@, fuel as nat, tr, cursor(o1)) == flow_step(*self, r, *out));
            }
        }
        r
    }

    fn run_module<I: DrScriptIo>(&mut self, out: &mut Outside<I>, b: &Table<BuiltinFun>, code: &str, fuel: u64) -> (r: Result<ExecReturn, RuntimeError>)
        ensures
            extends(*old(out), *final(out)),
            forall|tr: Trace| agrees(tr, *final(out)) ==>
                #[trigger] exec_module(builtins_view(b@), old(self)@, code@, fuel as nat, tr, cursor(*old(out)))
                    == flow_step(*final(self), r, *final(out)),
        decreases fuel, 2int,
    {
        proof {
            lemma_extends_refl(*out);
        }
        let ghost o0 = *out;
        let ghost f0 = self@;
        let ghost bv = builtins_view(b@);
        if !below_size_limit(code) {
            return Err(RuntimeError::Fault { message: String::from_str("capacity overflow") });
        }
        let tokens = match lex_checked(code) {
            Some(t) => t,
            None => {
                return Err(RuntimeError::Fault {
                    message: String::from_str("called `Result::unwrap()` on an `Err` value: ParseIntError { kind: PosOverflow }"),
                });
            },
        };
        let mut parser = ParserToken::new(tokens);
        let stmts = match parser.parse() {
            Ok(v) => v,
            Err(pe) => {
                return Err(RuntimeError::ImportParseError { message: pe.kind.message(), span: pe.span });
            },
        };
        let r = self.run_import(out, b, &stmts, fuel);
        let res = match r {
            Ok(_) => Ok(ExecReturn::Normal),
            Err(e) => Err(e),
        };
        proof {
            assert forall|tr: Trace| agrees(tr, *out) implies
                #[trigger] exec_module(bv, f0, code@, fuel as nat, tr, cursor(o0)) == flow_step(*self, res, *out) by {
                assert(exec_import(bv, f0, stmts_view(stmts@), 0, fuel as nat, tr, cursor(o0)) == flow_step(*self, r, *out));
            }
        }
        res
    }
}


/// The number of steps a run may take before it stops with `StepLimit`.
pub const STEP_LIMIT: u64 = 0xFFFF_FFFF_FFFF_FFFFu64;

/// The builtins of `base` with the standard ones added, in order.
pub open spec fn with_standard_builtins(base: BMap) -> BMap {
    base.insert("print"@, (BuiltinKind::Print, None))
        .insert("len"@, (BuiltinKind::Len, Some(1usize)))
        .insert("input"@, (BuiltinKind::Input, None))
        .insert("inputint"@, (BuiltinKind::InputInt, None))
        .insert("random"@, (BuiltinKind::Random, Some(2usize)))
        .insert("chars"@, (BuiltinKind::Chars, Some(1usize)))
        .insert("int"@, (BuiltinKind::Int, Some(1usize)))
        .insert("str"@, (BuiltinKind::Str, Some(1usize)))
        .insert("time"@, (BuiltinKind::Time, None))
        .insert("type"@, (BuiltinKind::Type, Some(1usize)))
}

/// The builtins every program starts with.
pub open spec fn standard_builtins() -> BMap {
    with_standard_builtins(Map::empty())
}

/// The frame a program starts in.
pub open spec fn empty_frame() -> SFrame {
    SFrame { vars: Map::empty(), funcs: Map::empty(), loaded: Set::empty() }
}

/// Surroundings from which nothing was drawn yet.
pub open spec fn fresh<I>(io: I) -> Outside<I> {
    Outside { io, log: Ghost(Seq::empty()), draws: Ghost(Seq::empty()) }
}

/// Whether a step ended in frame `f` at cursor `c`, as `r` says: any normal
/// end for `Ok`, the error itself for `Err`.
pub open spec fn ends_as(s: StepRes<Flow>, f: SFrame, r: Result<(), RuntimeError>, c: Cursor) -> bool {
    &&& s.frame == f
    &&& s.cur == c
    &&& match r {
        Ok(_) => s.out is Done,
        Err(e) => s.out == Out::<Flow>::Fail(e@),
    }
}

/// A program being run: its variables and functions, the builtins it can
/// call, and its surroundings with the values it drew from outside.
pub struct Interpretation<I: DrScriptIo> {
    frame: Frame,
    builtins: Table<BuiltinFun>,
    outside: Outside<I>,
}

impl<I: DrScriptIo> Interpretation<I> {
    /// The variables, functions and loaded modules.
    pub closed spec fn frame_view(&self) -> SFrame {
        self.frame@
    }

    /// The builtins by name.
    pub closed spec fn builtin_map(&self) -> BMap {
        builtins_view(self.builtins@)
    }

    /// The surroundings and the values drawn so far.
    pub closed spec fn outside(&self) -> Outside<I> {
        self.outside
    }

    /// A program with no variables or functions, the standard builtins and
    /// the surroundings `io`.
    pub fn new(io: I) -> (r: Self)
        ensures
            r.frame_view() == empty_frame(),
            r.builtin_map() == standard_builtins(),
            r.outside() == fresh(io),
    {
        let mut i = Interpretation { frame: Frame::new(), builtins: Table::new(), outside: Outside { io, log: Ghost(Seq::empty()), draws: Ghost(Seq::empty()) } };
        proof {
            assert(builtins_view(i.builtins@) =~= Map::empty());
        }
        i.register_builtin();
        i
    }

    /// The variables and the functions.
    pub fn get_vars_funcs(&self) -> (r: (&Table<Value>, &Table<Rc<FuncDef>>))
        ensures
            vars_view(r.0@) == self.frame_view().vars,
            funcs_view(r.1@) == self.frame_view().funcs,
    {
        (self.frame.vars(), self.frame.funcs())
    }

    /// Makes `b` callable by its name, in place of any builtin of that name.
    pub fn add_builtin(&mut self, b: BuiltinFun)
        ensures
            final(self).builtin_map() == old(self).builtin_map().insert(b.name@, (b.func, b.args)),
            final(self).frame_view() == old(self).frame_view(),
            final(self).outside() == old(self).outside(),
    {
        let ghost old_b = self.builtins@;
        let name = String::from_str(b.name);
        let ghost bv = (b.func, b.args);
        self.builtins.set(name, b);
        proof {
            assert(builtins_view(self.builtins@) =~= builtins_view(old_b).insert(b.name@, bv));
        }
    }

    /// Adds the standard builtins.
    fn register_builtin(&mut self)
        ensures
            final(self).builtin_map() == with_standard_builtins(old(self).builtin_map()),
            final(self).frame_view() == old(self).frame_view(),
            final(self).outside() == old(self).outside(),
    {
        self.add_builtin(Self::print_builtin());
        self.add_builtin(Self::len_builtin());
        self.add_builtin(Self::input_builtin());
        self.add_builtin(Self::inputint_builtin());
        self.add_builtin(Self::random_builtin());
        self.add_builtin(Self::chars_builtin());
        self.add_builtin(Self::int_builtin());
        self.add_builtin(Self::str_builtin());
        self.add_builtin(Self::time_builtin());
        self.add_builtin(Self::type_builtin());
    }

    /// Runs the statements in order; a `return` ends the run.
    pub fn run(&mut self, stmts: Vec<Stmt>) -> (r: Result<(), RuntimeError>)
        ensures
            final(self).builtin_map() == old(self).builtin_map(),
            extends(old(self).outside(), final(self).outside()),
            forall|tr: Trace| agrees(tr, final(self).outside()) ==>
                ends_as(
                    #[trigger] exec_block(old(self).builtin_map(), old(self).frame_view(), stmts_view(stmts@), 0, STEP_LIMIT as nat, tr, cursor(old(self).outside())),
                    final(self).frame_view(),
                    r,
                    cursor(final(self).outside()),
                ),
    {
        let ghost o0 = self.outside;
        let ghost f0 = self.frame@;
        let ghost bv = builtins_view(self.builtins@);
        let x = self.frame.run_block(&mut self.outside, &self.builtins, &stmts, STEP_LIMIT);
        proof {
            assert forall|tr: Trace| agrees(tr, self.outside) implies
                ends_as(#[trigger] exec_block(bv, f0, stmts_view(stmts@), 0, STEP_LIMIT as nat, tr, cursor(o0)), self.frame@, match x {
                    Ok(_) => Ok(()),
                    Err(e) => Err(e),
                }, cursor(self.outside)) by {
                assert(exec_block(bv, f0, stmts_view(stmts@), 0, STEP_LIMIT as nat, tr, cursor(o0)) == flow_step(self.frame, x, self.outside));
            }
        }
        match x {
            Ok(_) => Ok(()),
            Err(e) => Err(e),
        }
    }

    /// Runs the source of a module in the program's frame: its statements run
    /// in order, and a `return` among them does not end them.
    pub fn import_use(&mut self, code: &str) -> (r: Result<(), RuntimeError>)
        ensures
            final(self).builtin_map() == old(self).builtin_map(),
            extends(old(self).outside(), final(self).outside()),
            forall|tr: Trace| agrees(tr, final(self).outside()) ==>
                ends_as(
                    #[trigger] exec_module(old(self).builtin_map(), old(self).frame_view(), code@, STEP_LIMIT as nat, tr, cursor(old(self).outside())),
                    final(self).frame_view(),
                    r,
                    cursor(final(self).outside()),
                ),
    {
        let ghost o0 = self.outside;
        let ghost f0 = self.frame@;
        let ghost bv = builtins_view(self.builtins@);
        let x = self.frame.run_module(&mut self.outside, &self.builtins, code, STEP_LIMIT);
        proof {
            assert forall|tr: Trace| agrees(tr, self.outside) implies
                ends_as(#[trigger] exec_module(bv, f0, code@, STEP_LIMIT as nat, tr, cursor(o0)), self.frame@, match x {
                    Ok(_) => Ok(()),
                    Err(e) => Err(e),
                }, cursor(self.outside)) by {
                assert(exec_module(bv, f0, code@, STEP_LIMIT as nat, tr, cursor(o0)) == flow_step(self.frame, x, self.outside));
            }
        }
        match x {
            Ok(_) => Ok(()),
            Err(e) => Err(e),
        }
    }

    /// The surroundings.
    pub fn io(&self) -> (r: &I)
        ensures
            *r == self.outside().io,
    {
        &self.outside.io
    }

    /// The surroundings and the values drawn, with the program dropped.
    pub fn into_outside(self) -> (r: Outside<I>)
        ensures
            r == self.outside(),
    {
        self.outside
    }
}

} // verus!
