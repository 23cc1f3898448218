use vstd::prelude::*;
use vstd::string::StrSliceExecFns;
use crate::errors::RuntimeError;
use crate::interp_spec::{as_int, builtin_spec, invalid_input_message, out_of_bounds, prompt_of, BuiltinKind, Out};
use crate::intparse::{int_error_text, parse_i64};
use crate::interpreter::Interpretation;
use crate::io::{agrees, cursor, extends, lemma_agrees_draw, lemma_agrees_io, lemma_draw_extends, lemma_extends_refl, lemma_extends_trans, lemma_push_extends, Draw, DrScriptIo, IoEvent, Outside, Trace};
use crate::positions::Span;
use crate::text::{chars_of, push_dec_usize, push_str, string_of};
use crate::values::{display, SVal, Type};
#[allow(unused_imports)]
use rand::Rng;

verus! {

/// A builtin function under the name a program calls it by, with its number
/// of arguments where that is fixed.
#[derive(Debug, Clone, Copy)]
pub struct BuiltinFun {
    pub name: &'static str,
    pub args: Option<usize>,
    pub func: BuiltinKind,
}

/// The values of a list of values.
pub open spec fn vals_view(v: Seq<Type>) -> Seq<SVal> {
    Seq::new(v.len(), |i: int| v[i]@)
}

/// How a result ends a computation.
pub open spec fn out_of(r: Result<Type, RuntimeError>) -> Out<SVal> {
    match r {
        Ok(v) => Out::Done(v@),
        Err(e) => Out::Fail(e@),
    }
}

#[verifier::external_type_specification]
#[verifier::external_body]
pub struct ExThreadRng(rand::rngs::ThreadRng);

#[verifier::external_type_specification]
#[verifier::external_body]
pub struct ExSystemTime(std::time::SystemTime);

#[verifier::external_type_specification]
#[verifier::external_body]
pub struct ExSystemTimeError(std::time::SystemTimeError);

/// `rand::rng()`: the thread's random number generator (nothing is stated of it).
#[verifier::external_body]
fn thread_rng() -> rand::rngs::ThreadRng {
    rand::rng()
}

/// `Rng::random_range(lo..hi)`: a random integer with `lo <= r < hi`
/// (it panics on an empty range, which `requires` leaves out).
#[verifier::external_body]
fn random_between(rng: &mut rand::rngs::ThreadRng, lo: i64, hi: i64) -> (r: i64)
    requires
        lo < hi,
    ensures
        lo <= r < hi,
{
    rng.random_range(lo..hi)
}

/// `SystemTime::now()`: the time of the system clock; it depends on the moment
/// of the call, so nothing is stated of it.
#[verifier::external_body]
fn system_now() -> std::time::SystemTime {
    std::time::SystemTime::now()
}

/// `SystemTime::duration_since(UNIX_EPOCH)`: how long after the epoch a time is,
/// or an error when it is earlier; which one comes back depends on the clock,
/// so nothing is stated of it.
#[verifier::external_body]
fn since_epoch(t: &std::time::SystemTime) -> Result<std::time::Duration, std::time::SystemTimeError> {
    t.duration_since(std::time::SystemTime::UNIX_EPOCH)
}

/// `Duration::as_millis`: the whole milliseconds of a duration (a reading of
/// the clock here, so nothing is stated of the number).
#[verifier::external_body]
fn duration_millis(d: &std::time::Duration) -> u128 {
    d.as_millis()
}

/// The text that `SystemTimeError` displays (`format!("{}", e)`); nothing is
/// stated of it.
#[verifier::external_body]
fn time_error_text(e: &std::time::SystemTimeError) -> String {
    format!("{}", e)
}

fn out_of_bounds_text(len: usize, index: usize) -> (r: String)
    ensures
        r@ == out_of_bounds(len as nat, index as nat),
{
    let mut b: Vec<char> = Vec::new();
    push_str(&mut b, "index out of bounds: the len is ");
    push_dec_usize(&mut b, len);
    push_str(&mut b, " but the index is ");
    push_dec_usize(&mut b, index);
    assert(b@ =~= out_of_bounds(len as nat, index as nat));
    string_of(&b)
}

/// The integer a value stands for: itself, or a string read as a number.
pub fn as_int_exec(v: &Type) -> (r: Result<i64, String>)
    ensures
        match r {
            Ok(n) => as_int(v@) == Ok::<i64, Seq<char>>(n),
            Err(m) => as_int(v@) == Err::<i64, Seq<char>>(m@),
        },
{
    match v {
        Type::Int(n) => Ok(*n),
        Type::Str(s) => {
            let cs = chars_of(s.as_str());
            match parse_i64(&cs) {
                Ok(n) => Ok(n),
                Err(e) => Err(int_error_text(e)),
            }
        },
    }
}

fn prompt_exec(args: &Vec<Type>) -> (r: Option<String>)
    ensures
        match r {
            Some(p) => prompt_of(vals_view(args@)) == Some(p@),
            None => prompt_of(vals_view(args@)) is None,
        },
{
    if args.len() == 0 {
        Some(String::new())
    } else if args.len() == 1 {
        match &args[0] {
            Type::Str(s) => Some(s.clone()),
            _ => None,
        }
    } else {
        None
    }
}

fn fail_oob(len: usize, index: usize) -> (r: Result<Type, RuntimeError>)
    ensures
        out_of(r) == Out::<SVal>::Fail(crate::interp_spec::fault(out_of_bounds(len as nat, index as nat))),
{
    Err(RuntimeError::Fault { message: out_of_bounds_text(len, index) })
}

/// Runs a builtin on argument values.
pub fn call_builtin<I: DrScriptIo>(out: &mut Outside<I>, k: BuiltinKind, args: &Vec<Type>, span: Span) -> (r: Result<Type, RuntimeError>)
    ensures
        extends(*old(out), *final(out)),
        forall|tr: Trace|
            agrees(tr, *final(out)) ==> #[trigger] builtin_spec(k, vals_view(args@), span, tr, cursor(*old(out))) == (
                out_of(r),
                cursor(*final(out)),
            ),
{
    let ghost o0 = *out;
    let ghost vs = vals_view(args@);
    proof {
        lemma_extends_refl(o0);
    }
    match k {
        BuiltinKind::Print => {
            let mut i: usize = 0;
            while i < args.len()
                invariant
                    i <= args@.len(),
                    vs == vals_view(args@),
                    extends(o0, *out),
                    out.draws@ == o0.draws@,
                    out.log@.len() == o0.log@.len() + i,
                    forall|j: int| 0 <= j < i ==> #[trigger] out.log@[o0.log@.len() + j] == IoEvent::Print(display(vs[j])),
                decreases args.len() - i,
            {
                let t = args[i].to_text();
                let ghost before = *out;
                out.print(t.as_str());
                proof {
                    lemma_push_extends(before, *out, IoEvent::Print(t@));
                    lemma_extends_trans(o0, before, *out);
                    assert(out.log@[o0.log@.len() + i] == IoEvent::Print(display(vs[i as int])));
                    assert forall|j: int| 0 <= j < i + 1 implies #[trigger] out.log@[o0.log@.len() + j] == IoEvent::Print(display(vs[j])) by {
                        if j < i {
                            assert(out.log@[o0.log@.len() + j] == before.log@[o0.log@.len() + j]);
                        }
                    }
                }
                i = i + 1;
            }
            let ghost before = *out;
            out.print("\n");
            proof {
                lemma_push_extends(before, *out, IoEvent::Print("\n"@));
                lemma_extends_trans(o0, before, *out);
                assert forall|tr: Trace| agrees(tr, *out) implies #[trigger] builtin_spec(k, vs, span, tr, crate::io::cursor(o0)) == (
                    out_of(Ok(Type::Int(0))),
                    crate::io::cursor(*out),
                ) by {
                    let c = crate::io::cursor(o0);
                    let n = vs.len() as int;
                    assert forall|j: int| 0 <= j < n implies (tr.io)(c.io + j) == IoEvent::Print(display(vs[j])) by {
                        assert(out.log@[o0.log@.len() + j] == before.log@[o0.log@.len() + j]);
                        lemma_agrees_io(tr, *out, c.io + j);
                    }
                    lemma_agrees_io(tr, *out, c.io + n);
                }
            }
            Ok(Type::Int(0))
        },
        BuiltinKind::Len => {
            if args.len() == 0 {
                return fail_oob(0, 0);
            }
            match &args[0] {
                Type::Str(s) => Ok(Type::Int(s.as_str().len() as i64)),
                _ => Err(RuntimeError::IoError { name: String::from_str("len"), span }),
            }
        },
        BuiltinKind::Chars => {
            if args.len() == 0 {
                return fail_oob(0, 0);
            }
            match &args[0] {
                Type::Str(s) => Ok(Type::Int(s.as_str().unicode_len() as i64)),
                _ => Err(RuntimeError::IoError { name: String::from_str("chars"), span }),
            }
        },
        BuiltinKind::Input => match prompt_exec(args) {
            None => Err(RuntimeError::ArgumentMismatch { expected: 1, got: args.len() }),
            Some(p) => {
                let res = out.input(p.as_str());
                proof {
                    let ev = IoEvent::Input(p@, crate::io::res_view(res));
                    lemma_push_extends(o0, *out, ev);
                    assert forall|tr: Trace| #[trigger] agrees(tr, *out) implies (tr.io)(o0.log@.len() as int) == ev by {
                        lemma_agrees_io(tr, *out, o0.log@.len() as int);
                    }
                }
                match res {
                    Ok(line) => Ok(Type::Str(line)),
                    Err(_) => Err(RuntimeError::IoError { name: String::from_str("input"), span }),
                }
            },
        },
        BuiltinKind::InputInt => match prompt_exec(args) {
            None => Err(RuntimeError::ArgumentMismatch { expected: 1, got: args.len() }),
            Some(p) => {
                let res = out.input(p.as_str());
                proof {
                    let ev = IoEvent::Input(p@, crate::io::res_view(res));
                    lemma_push_extends(o0, *out, ev);
                    assert forall|tr: Trace| #[trigger] agrees(tr, *out) implies (tr.io)(o0.log@.len() as int) == ev by {
                        lemma_agrees_io(tr, *out, o0.log@.len() as int);
                    }
                }
                match res {
                    Ok(line) => {
                        let cs = chars_of(line.as_str());
                        match parse_i64(&cs) {
                            Ok(n) => Ok(Type::Int(n)),
                            Err(_) => Err(RuntimeError::IoErrorMassage {
                                name: String::from_str("inputint"),
                                span,
                                message: String::from_str("Invalid input, to convert a string to a number, turn what you type"),
                            }),
                        }
                    },
                    Err(m) => Err(RuntimeError::IoErrorMassage { name: String::from_str("inputint"), span, message: m }),
                }
            },
        },
        BuiltinKind::Random => {
            if args.len() < 2 {
                return fail_oob(args.len(), args.len());
            }
            let lo = match as_int_exec(&args[0]) {
                Ok(n) => n,
                Err(m) => {
                    return Err(RuntimeError::IoErrorMassage { name: String::from_str("random"), span, message: m });
                },
            };
            let hi = match as_int_exec(&args[1]) {
                Ok(n) => n,
                Err(m) => {
                    return Err(RuntimeError::IoErrorMassage { name: String::from_str("random"), span, message: m });
                },
            };
            if lo >= hi {
                return Err(RuntimeError::Fault { message: String::from_str("cannot sample empty range") });
            }
            let mut rng = thread_rng();
            let v = random_between(&mut rng, lo, hi);
            out.draws = Ghost(out.draws@.push(Draw::Random(v)));
            proof {
                        lemma_draw_extends(o0, *out, Draw::Random(v));
                        assert forall|tr: Trace| #[trigger] agrees(tr, *out) implies (tr.draws)(o0.draws@.len() as int) == Draw::Random(v) by {
                            lemma_agrees_draw(tr, *out, o0.draws@.len() as int);
                        }
                    }
            Ok(Type::Int(v))
        },
        BuiltinKind::Int => {
            if args.len() == 0 {
                return fail_oob(0, 0);
            }
            match as_int_exec(&args[0]) {
                Ok(n) => Ok(Type::Int(n)),
                Err(m) => Err(RuntimeError::IoErrorMassage { name: String::from_str("int"), span, message: m }),
            }
        },
        BuiltinKind::Str => {
            if args.len() == 0 {
                return fail_oob(0, 0);
            }
            Ok(Type::Str(args[0].to_text()))
        },
        BuiltinKind::Time => {
            let now = system_now();
            match since_epoch(&now) {
                Ok(d) => {
                    let ms = duration_millis(&d);
                    out.draws = Ghost(out.draws@.push(Draw::Clock(Ok(ms))));
                    proof {
                        lemma_draw_extends(o0, *out, Draw::Clock(Ok(ms)));
                        assert forall|tr: Trace| #[trigger] agrees(tr, *out) implies (tr.draws)(o0.draws@.len() as int) == Draw::Clock(Ok(ms)) by {
                            lemma_agrees_draw(tr, *out, o0.draws@.len() as int);
                        }
                    }
                    Ok(Type::Int(ms as i64))
                },
                Err(e) => {
                    let m = time_error_text(&e);
                    out.draws = Ghost(out.draws@.push(Draw::Clock(Err(m@))));
                    proof {
                        lemma_draw_extends(o0, *out, Draw::Clock(Err(m@)));
                        assert forall|tr: Trace| #[trigger] agrees(tr, *out) implies (tr.draws)(o0.draws@.len() as int) == Draw::Clock(Err(m@)) by {
                            lemma_agrees_draw(tr, *out, o0.draws@.len() as int);
                        }
                    }
                    let mut msg = String::from_str("Error getting time: ");
                    msg.append(m.as_str());
                    Err(RuntimeError::IoErrorMassage { name: String::from_str("time"), span, message: msg })
                },
            }
        },
        BuiltinKind::Type => {
            if args.len() == 0 {
                return fail_oob(0, 0);
            }
            match &args[0] {
                Type::Int(_) => Ok(Type::Str(String::from_str("int"))),
                Type::Str(_) => Ok(Type::Str(String::from_str("string"))),
            }
        },
    }
}


impl<I: DrScriptIo> Interpretation<I> {
    /// `print(...)`: prints each argument, then a newline; gives 0.
    pub fn print_builtin() -> (r: BuiltinFun)
        ensures
            r.name@ == "print"@,
            r.args == None::<usize>,
            r.func == BuiltinKind::Print,
    {
        BuiltinFun { name: "print", args: None, func: BuiltinKind::Print }
    }

    /// `len(s)`: the number of bytes of the string `s`.
    pub fn len_builtin() -> (r: BuiltinFun)
        ensures
            r.name@ == "len"@,
            r.args == Some(1usize),
            r.func == BuiltinKind::Len,
    {
        BuiltinFun { name: "len", args: Some(1), func: BuiltinKind::Len }
    }

    /// `input()` or `input(prompt)`: a line read after the prompt.
    pub fn input_builtin() -> (r: BuiltinFun)
        ensures
            r.name@ == "input"@,
            r.args == None::<usize>,
            r.func == BuiltinKind::Input,
    {
        BuiltinFun { name: "input", args: None, func: BuiltinKind::Input }
    }

    /// `inputint()` or `inputint(prompt)`: a line read after the prompt, as a number.
    pub fn inputint_builtin() -> (r: BuiltinFun)
        ensures
            r.name@ == "inputint"@,
            r.args == None::<usize>,
            r.func == BuiltinKind::InputInt,
    {
        BuiltinFun { name: "inputint", args: None, func: BuiltinKind::InputInt }
    }

    /// `random(min, max)`: a random number with `min <= n < max`.
    pub fn random_builtin() -> (r: BuiltinFun)
        ensures
            r.name@ == "random"@,
            r.args == Some(2usize),
            r.func == BuiltinKind::Random,
    {
        BuiltinFun { name: "random", args: Some(2), func: BuiltinKind::Random }
    }

    /// `chars(s)`: the number of characters of the string `s`.
    pub fn chars_builtin() -> (r: BuiltinFun)
        ensures
            r.name@ == "chars"@,
            r.args == Some(1usize),
            r.func == BuiltinKind::Chars,
    {
        BuiltinFun { name: "chars", args: Some(1), func: BuiltinKind::Chars }
    }

    /// `int(v)`: a number, or a string read as one.
    pub fn int_builtin() -> (r: BuiltinFun)
        ensures
            r.name@ == "int"@,
            r.args == Some(1usize),
            r.func == BuiltinKind::Int,
    {
        BuiltinFun { name: "int", args: Some(1), func: BuiltinKind::Int }
    }

    /// `str(v)`: the text of a value.
    pub fn str_builtin() -> (r: BuiltinFun)
        ensures
            r.name@ == "str"@,
            r.args == Some(1usize),
            r.func == BuiltinKind::Str,
    {
        BuiltinFun { name: "str", args: Some(1), func: BuiltinKind::Str }
    }

    /// `time()`: milliseconds since the Unix epoch.
    pub fn time_builtin() -> (r: BuiltinFun)
        ensures
            r.name@ == "time"@,
            r.args == None::<usize>,
            r.func == BuiltinKind::Time,
    {
        BuiltinFun { name: "time", args: None, func: BuiltinKind::Time }
    }

    /// `type(v)`: the name of the value's type.
    pub fn type_builtin() -> (r: BuiltinFun)
        ensures
            r.name@ == "type"@,
            r.args == Some(1usize),
            r.func == BuiltinKind::Type,
    {
        BuiltinFun { name: "type", args: Some(1), func: BuiltinKind::Type }
    }
}

} // verus!
