//! The recursive-descent parser: source text in, statement list out.
//!
//! [`grammar`] holds the specification-level definition of the whole
//! grammar; the sibling modules hold the executable parsers, each proved
//! to return exactly what the grammar says.

use vstd::prelude::*;

pub mod error;
pub mod expressions;
pub mod functions;
pub mod grammar;
pub mod statements;
pub mod tokens;

pub use error::CustomError;

use crate::ast::{stmts_view, Stmt, StmtV};
use crate::text::{chars_of_str, string_from_range};
use error::CustomError as CE;
use grammar::{
    matches_pr, spec_parse_program, spec_program_list, spec_program_tail, spec_statement,
    CustomErrorV, PErrV, Pr,
};

verus! {

/// A statement: a function declaration, a `return`, a `let` or a bare
/// expression, tried in that order. The `main`-with-parameters error
/// aborts the alternatives.
pub fn parse_statement(s: &Vec<char>, pos: usize) -> (r: Result<(usize, Stmt), PErrV>)
    requires
        pos <= s@.len(),
    ensures
        matches_pr(
            r,
            spec_statement(s@, pos as int),
            s@.len() as int,
            pos as int,
            |st: Stmt| st@,
        ),
    decreases s@.len() - pos, 8int,
{
    match functions::parse_function_declaration(s, pos) {
        Ok(ok) => Ok(ok),
        Err(PErrV::Halt { at }) => Err(PErrV::Halt { at }),
        Err(PErrV::Fail { .. }) => match statements::parse_return_statement(s, pos) {
            Ok(ok) => Ok(ok),
            Err(PErrV::Halt { at }) => Err(PErrV::Halt { at }),
            Err(PErrV::Fail { .. }) => match statements::parse_let_statement(s, pos) {
                Ok(ok) => Ok(ok),
                Err(PErrV::Halt { at }) => Err(PErrV::Halt { at }),
                Err(PErrV::Fail { .. }) => functions::parse_expr_statement(s, pos),
            },
        },
    }
}

/// The top-level statement list.
fn parse_program_list(s: &Vec<char>, pos: usize) -> (r: Result<(usize, Vec<Stmt>), PErrV>)
    requires
        pos <= s@.len(),
    ensures
        matches_pr(
            r,
            spec_program_list(s@, pos as int),
            s@.len() as int,
            pos as int,
            |v: Vec<Stmt>| stmts_view(v@),
        ),
    decreases s@.len() - pos, 10int,
{
    match parse_statement(s, pos) {
        Err(PErrV::Halt { at }) => Err(PErrV::Halt { at }),
        Err(PErrV::Fail { .. }) => {
            proof {
                assert(stmts_view(Seq::<Stmt>::empty()) =~= Seq::<StmtV>::empty());
            }
            Ok((pos, Vec::new()))
        },
        Ok((p1, st)) => {
            if p1 > pos {
                match parse_program_tail(s, p1) {
                    Ok((pe, rest)) => Ok((pe, statements::cons_stmt(st, rest))),
                    Err(e) => Err(e),
                }
            } else {
                let ghost stv = st@;
                let mut v: Vec<Stmt> = Vec::new();
                v.push(st);
                proof {
                    assert(v@ =~= seq![v@[0]].add(Seq::empty()));
                    crate::ast::lemma_stmts_view_cons(v@[0], Seq::empty());
                    assert(stmts_view(v@) =~= seq![stv]);
                }
                Ok((p1, v))
            }
        },
    }
}

/// The top-level list's tail: a delimiter run, then a statement,
/// repeated.
fn parse_program_tail(s: &Vec<char>, pos: usize) -> (r: Result<(usize, Vec<Stmt>), PErrV>)
    requires
        pos <= s@.len(),
    ensures
        matches_pr(
            r,
            spec_program_tail(s@, pos as int),
            s@.len() as int,
            pos as int,
            |v: Vec<Stmt>| stmts_view(v@),
        ),
    decreases s@.len() - pos, 11int,
{
    let d = tokens::delim_end(s, pos);
    if d > pos {
        match parse_statement(s, d) {
            Err(PErrV::Halt { at }) => Err(PErrV::Halt { at }),
            Err(PErrV::Fail { .. }) => {
                proof {
                    assert(stmts_view(Seq::<Stmt>::empty()) =~= Seq::<StmtV>::empty());
                }
                Ok((pos, Vec::new()))
            },
            Ok((p2, st)) => {
                if p2 > d {
                    match parse_program_tail(s, p2) {
                        Ok((pe, rest)) => Ok((pe, statements::cons_stmt(st, rest))),
                        Err(e) => Err(e),
                    }
                } else {
                    proof {
                        assert(stmts_view(Seq::<Stmt>::empty()) =~= Seq::<StmtV>::empty());
                    }
                    Ok((pos, Vec::new()))
                }
            },
        }
    } else {
        proof {
            assert(stmts_view(Seq::<Stmt>::empty()) =~= Seq::<StmtV>::empty());
        }
        Ok((pos, Vec::new()))
    }
}

/// Parses a whole source text. Returns the program's statements, or the
/// parse error with the remaining unconsumed input. The result is
/// exactly [`spec_parse_program`] of the input, so parsing is a function
/// of the text alone.
pub fn parse_program(input: &str) -> (r: Result<Vec<Stmt>, CustomError>)
    ensures
        match r {
            Ok(stmts) => spec_parse_program(input@) == Result::<Seq<StmtV>, CustomErrorV>::Ok(
                stmts_view(stmts@),
            ),
            Err(e) => spec_parse_program(input@) == Result::<Seq<StmtV>, CustomErrorV>::Err(e@),
        },
{
    let cs = chars_of_str(input);
    match parse_program_list(&cs, 0) {
        Err(PErrV::Halt { at }) => Err(
            CE::MainFunctionWithParams(string_from_range(&cs, at, cs.len())),
        ),
        Err(PErrV::Fail { at }) => Err(CE::UnexpectedToken(string_from_range(&cs, at, cs.len()))),
        Ok((p, stmts)) => {
            let q = tokens::delim_end(&cs, p);
            if q == cs.len() {
                Ok(stmts)
            } else {
                Err(CE::UnexpectedToken(string_from_range(&cs, q, cs.len())))
            }
        },
    }
}

/// Parsing is deterministic: two results of [`spec_parse_program`] on
/// the same text are the same, so two runs of [`parse_program`] on the
/// same source yield structurally identical trees.
pub proof fn lemma_parse_program_deterministic(
    src: Seq<char>,
    r1: Result<Seq<StmtV>, CustomErrorV>,
    r2: Result<Seq<StmtV>, CustomErrorV>,
)
    requires
        r1 == spec_parse_program(src),
        r2 == spec_parse_program(src),
    ensures
        r1 == r2,
{
}

/// Declaring `main` with a non-empty parameter list is the one fatal
/// parse error: whenever a function declaration parses a name equal to
/// `main` and a non-empty parameter list, the declaration halts with the
/// dedicated diagnostic, never with a generic token error.
pub proof fn lemma_main_with_params_halts(s: Seq<char>, p: int)
    requires
        ({
            let q = grammar::spec_skip_ws(s, p);
            &&& q + 2 <= s.len() && s[q] == 'f' && s[q + 1] == 'n'
            &&& match grammar::spec_ident(s, q + 2) {
                Pr::Parsed { next: n1, val: name } => {
                    name == grammar::main_name() && match grammar::spec_params(
                        s,
                        grammar::spec_skip_ws(s, n1),
                    ) {
                        Pr::Parsed { val: params, .. } => params.len() > 0,
                        _ => false,
                    }
                },
                _ => false,
            }
        }),
    ensures
        grammar::spec_function_declaration(s, p) is Halt,
        grammar::spec_statement(s, p) is Halt,
        p == 0 ==> spec_parse_program(s) matches Result::Err(
            CustomErrorV::MainFunctionWithParams(_),
        ),
{
}

} // verus!
