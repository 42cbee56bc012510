//! Executable `let` and `return` statement parsers.

use vstd::prelude::*;

use crate::ast::{lemma_stmts_view_cons, stmts_view, Stmt};
use super::grammar::{matches_pr, spec_let_stmt, spec_return_stmt, PErrV};
use super::expressions::parse_expression;
use super::tokens::{ident_token, skip_ws};

verus! {

/// A `let` statement: `let name = expression ;`.
pub fn parse_let_statement(s: &Vec<char>, pos: usize) -> (r: Result<(usize, Stmt), PErrV>)
    requires
        pos <= s@.len(),
    ensures
        matches_pr(r, spec_let_stmt(s@, pos as int), s@.len() as int, pos as int, |st: Stmt| st@),
    decreases s@.len() - pos, 7int,
{
    let q = skip_ws(s, pos);
    if s.len() - q > 2 && s[q] == 'l' && s[q + 1] == 'e' && s[q + 2] == 't' {
        match ident_token(s, q + 3) {
            Ok((n1, name)) => {
                let n2 = skip_ws(s, n1);
                if n2 < s.len() && s[n2] == '=' {
                    let q3 = skip_ws(s, n2 + 1);
                    match parse_expression(s, q3) {
                        Ok((e1, e)) => {
                            let e2 = skip_ws(s, e1);
                            if e2 < s.len() && s[e2] == ';' {
                                Ok((e2 + 1, Stmt::Assignment { ident: name, expr: e }))
                            } else {
                                Err(PErrV::Fail { at: e2 })
                            }
                        },
                        Err(e) => Err(e),
                    }
                } else {
                    Err(PErrV::Fail { at: n2 })
                }
            },
            Err(_) => Err(PErrV::Fail { at: q + 3 }),
        }
    } else {
        Err(PErrV::Fail { at: q })
    }
}

/// A `return` statement: `return expression ;`.
pub fn parse_return_statement(s: &Vec<char>, pos: usize) -> (r: Result<(usize, Stmt), PErrV>)
    requires
        pos <= s@.len(),
    ensures
        matches_pr(
            r,
            spec_return_stmt(s@, pos as int),
            s@.len() as int,
            pos as int,
            |st: Stmt| st@,
        ),
    decreases s@.len() - pos, 7int,
{
    if s.len() - pos > 5 && s[pos] == 'r' && s[pos + 1] == 'e' && s[pos + 2] == 't' && s[pos + 3]
        == 'u' && s[pos + 4] == 'r' && s[pos + 5] == 'n' {
        let q = skip_ws(s, pos + 6);
        match parse_expression(s, q) {
            Ok((e1, e)) => {
                let e2 = skip_ws(s, e1);
                if e2 < s.len() && s[e2] == ';' {
                    Ok((e2 + 1, Stmt::Return(e)))
                } else {
                    Err(PErrV::Fail { at: e2 })
                }
            },
            Err(e) => Err(e),
        }
    } else {
        Err(PErrV::Fail { at: pos })
    }
}

/// Prepends a statement to a parsed list.
pub fn cons_stmt(st: Stmt, rest: Vec<Stmt>) -> (r: Vec<Stmt>)
    ensures
        stmts_view(r@) == seq![st@].add(stmts_view(rest@)),
{
    let ghost stv = st@;
    let ghost restv = rest@;
    let mut v = rest;
    v.insert(0, st);
    proof {
        assert(v@ =~= seq![v@[0]].add(restv));
        lemma_stmts_view_cons(v@[0], restv);
        assert(v@[0]@ == stv);
    }
    v
}

} // verus!
