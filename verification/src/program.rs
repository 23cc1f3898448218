use vstd::prelude::*;
use crate::errors::{RErr, SParseError};
use crate::interp_spec::{exec_block, skip_io, Out};
use crate::interpreter::{empty_frame, fresh, standard_builtins, Interpretation, STEP_LIMIT};
use crate::io::{
    agrees, cursor, extends, lemma_agrees_io, lemma_agrees_prefix, lemma_extends_refl, lemma_extends_trans, lemma_push_extends,
    DrScriptIo, IoEvent, Outside, Trace,
};
use crate::lexer::{lex, lex_spec, numbers_fit};
use crate::parse_spec::parse_spec;
use crate::parser::ParserToken;
use crate::report::{kind_message, report_text, runtime_error_debug, runtime_error_debug_string};
use crate::ast::{stmts_view, SStmt};
use crate::values::utf8_len;

verus! {

/// The line printed for a program that does not parse.
pub open spec fn parse_error_line(pe: SParseError) -> Seq<char> {
    "Parse Error: "@ + report_text(kind_message(pe.kind), Seq::empty(), Seq::empty(), pe.span)
}

/// The line printed for a run that fails.
pub open spec fn runtime_error_line(e: RErr) -> Seq<char> {
    "Runtime Error: "@ + runtime_error_debug(e)
}

/// Whether, in the history `tr`, running `stmts` from the start with the
/// surroundings `o0` ends where `o` stands: right after the run when it ends
/// normally, one line later when it fails, that line being the error.
pub open spec fn program_ends<I: DrScriptIo>(stmts: Seq<SStmt>, o0: Outside<I>, o: Outside<I>, tr: Trace) -> bool {
    let s = exec_block(standard_builtins(), empty_frame(), stmts, 0, STEP_LIMIT as nat, tr, cursor(o0));
    match s.out {
        Out::Fail(e) => cursor(o) == skip_io(s.cur, 1) && (tr.io)(s.cur.io) == IoEvent::Print(runtime_error_line(e)),
        _ => cursor(o) == s.cur,
    }
}

/// Runs the source `code` with the surroundings `io`: a source that does not
/// parse has its error printed; otherwise the program runs, and an error that
/// stops it is printed. Gives back the surroundings with the values drawn.
pub fn execute_dr_code<I: DrScriptIo>(code: &str, io: I) -> (r: Outside<I>)
    requires
        utf8_len(code@) < usize::MAX,
        numbers_fit(code@, 0),
    ensures
        extends(fresh(io), r),
        match parse_spec(lex_spec(code@)) {
            Err(pe) => r.log@ == seq![IoEvent::Print(parse_error_line(pe))] && r.draws@ == Seq::<crate::io::Draw>::empty(),
            Ok(stmts) => forall|tr: Trace| #[trigger] agrees(tr, r) ==> program_ends(stmts, fresh(io), r, tr),
        },
{
    let ghost start = fresh(io);
    let tokens = lex(code);
    let mut parser = ParserToken::new(tokens);
    match parser.parse() {
        Err(e) => {
            let mut o = Outside { io, log: Ghost(Seq::empty()), draws: Ghost(Seq::empty()) };
            let mut line = String::from_str("Parse Error: ");
            let report = e.get_report_string();
            line.append(report.as_str());
            o.print(line.as_str());
            proof {
                lemma_push_extends(start, o, IoEvent::Print(line@));
            }
            o
        },
        Ok(ast) => {
            let ghost sv = stmts_view(ast@);
            let mut interp = Interpretation::new(io);
            let res = interp.run(ast);
            let mut o = interp.into_outside();
            let ghost o1 = o;
            match res {
                Err(e) => {
                    let mut line = String::from_str("Runtime Error: ");
                    let d = runtime_error_debug_string(&e);
                    line.append(d.as_str());
                    o.print(line.as_str());
                    proof {
                        lemma_push_extends(o1, o, IoEvent::Print(line@));
                        lemma_extends_trans(start, o1, o);
                        assert forall|tr: Trace| #[trigger] agrees(tr, o) implies program_ends(sv, start, o, tr) by {
                            lemma_agrees_prefix(tr, o1, o);
                            lemma_agrees_io(tr, o, o1.log@.len() as int);
                        }
                    }
                },
                Ok(()) => {},
            }
            o
        },
    }
}

} // verus!
