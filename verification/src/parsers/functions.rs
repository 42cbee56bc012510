//! Executable parsers for function declarations and bare expression
//! statements.

use vstd::prelude::*;

use crate::ast::{stmts_view, Stmt};
use crate::text::str_eq;
use vstd::string::StringExecFns;
use vstd::string::StrSliceExecFns;
use super::grammar::{
    main_name, matches_pr, spec_body_stmts, spec_expr_stmt, spec_function_declaration,
    spec_params, spec_params_more, user_entry, PErrV,
};
use super::expressions::parse_expression;
use super::statements::cons_stmt;
use super::tokens::{ident_token, skip_ws};
use super::parse_statement;

verus! {

/// The reserved name the user's `main` is stored under, so that it
/// cannot clash with the wrapped native entry point.
pub fn user_entry_name() -> (r: String)
    ensures
        r@ == user_entry(),
{
    String::from_str("_main")
}

/// Whether a parsed function name is the source name `main`.
fn is_main_name(name: &String) -> (r: bool)
    ensures
        r == (name@ == main_name()),
{
    str_eq(name.as_str(), "main")
}

/// A parameter list tail: `, name`, repeated.
fn params_more(s: &Vec<char>, pos: usize, acc: Vec<String>) -> (r: (usize, Vec<String>))
    requires
        pos <= s@.len(),
    ensures
        ({
            let (rp, rn) = spec_params_more(
                s@,
                pos as int,
                acc@.map_values(|x: String| x@),
            );
            r.0 as int == rp && r.1@.map_values(|x: String| x@) == rn && pos <= r.0 <= s@.len()
        }),
    decreases s@.len() - pos,
{
    let q = skip_ws(s, pos);
    if q < s.len() && s[q] == ',' {
        match ident_token(s, q + 1) {
            Ok((n, name)) => {
                let ghost accv = acc@.map_values(|x: String| x@);
                let ghost namev = name@;
                let mut acc2 = acc;
                acc2.push(name);
                proof {
                    assert(acc2@.map_values(|x: String| x@) =~= accv.push(namev));
                }
                if n > q + 1 {
                    params_more(s, n, acc2)
                } else {
                    (n, acc2)
                }
            },
            Err(_) => (pos, acc),
        }
    } else {
        (pos, acc)
    }
}

/// A parenthesized, comma-separated parameter name list.
pub fn parse_parameters(s: &Vec<char>, pos: usize) -> (r: Result<(usize, Vec<String>), PErrV>)
    requires
        pos <= s@.len(),
    ensures
        matches_pr(
            r,
            spec_params(s@, pos as int),
            s@.len() as int,
            pos as int,
            |v: Vec<String>| v@.map_values(|x: String| x@),
        ),
{
    let q0 = skip_ws(s, pos);
    if q0 < s.len() && s[q0] == '(' {
        let (p, names) = match ident_token(s, q0 + 1) {
            Ok((n1, name)) => {
                let ghost namev = name@;
                let mut acc: Vec<String> = Vec::new();
                acc.push(name);
                proof {
                    assert(acc@.map_values(|x: String| x@) =~= seq![namev]);
                }
                if n1 > q0 + 1 {
                    params_more(s, n1, acc)
                } else {
                    (n1, acc)
                }
            },
            Err(_) => {
                let acc: Vec<String> = Vec::new();
                proof {
                    assert(acc@.map_values(|x: String| x@) =~= Seq::<Seq<char>>::empty());
                }
                (q0 + 1, acc)
            },
        };
        if p < s.len() && s[p] == ')' {
            Ok((skip_ws(s, p + 1), names))
        } else {
            Err(PErrV::Fail { at: p })
        }
    } else {
        Err(PErrV::Fail { at: q0 })
    }
}

/// The statements of a function body, up to (not including) the closing
/// brace.
pub fn parse_body_stmts(s: &Vec<char>, pos: usize) -> (r: Result<(usize, Vec<Stmt>), PErrV>)
    requires
        pos <= s@.len(),
    ensures
        matches_pr(
            r,
            spec_body_stmts(s@, pos as int),
            s@.len() as int,
            pos as int,
            |v: Vec<Stmt>| stmts_view(v@),
        ),
    decreases s@.len() - pos, 9int,
{
    let q = skip_ws(s, pos);
    match parse_statement(s, q) {
        Err(PErrV::Halt { at }) => Err(PErrV::Halt { at }),
        Err(PErrV::Fail { .. }) => {
            proof {
                assert(stmts_view(Seq::<Stmt>::empty()) =~= Seq::<crate::ast::StmtV>::empty());
            }
            Ok((pos, Vec::new()))
        },
        Ok((p1, st)) => {
            if p1 > q {
                match parse_body_stmts(s, p1) {
                    Ok((pe, rest)) => Ok((pe, cons_stmt(st, rest))),
                    Err(e) => Err(e),
                }
            } else {
                proof {
                    assert(stmts_view(Seq::<Stmt>::empty())
                        =~= Seq::<crate::ast::StmtV>::empty());
                }
                Ok((pos, Vec::new()))
            }
        },
    }
}

/// A function declaration: `fn name(params) { body }`. Declaring `main`
/// with parameters is the one fatal parse error; a parameterless `main`
/// is stored under the reserved user-entry name.
pub fn parse_function_declaration(s: &Vec<char>, pos: usize) -> (r: Result<(usize, Stmt), PErrV>)
    requires
        pos <= s@.len(),
    ensures
        matches_pr(
            r,
            spec_function_declaration(s@, pos as int),
            s@.len() as int,
            pos as int,
            |st: Stmt| st@,
        ),
    decreases s@.len() - pos, 7int,
{
    let q = skip_ws(s, pos);
    if s.len() - q > 1 && s[q] == 'f' && s[q + 1] == 'n' {
        match ident_token(s, q + 2) {
            Ok((n1, name)) => {
                let n2 = skip_ws(s, n1);
                match parse_parameters(s, n2) {
                    Ok((pp, params)) => {
                        let main = is_main_name(&name);
                        if main && params.len() > 0 {
                            Err(PErrV::Halt { at: pp })
                        } else {
                            let q3 = skip_ws(s, pp);
                            if q3 < s.len() && s[q3] == '{' {
                                match parse_body_stmts(s, q3 + 1) {
                                    Ok((pb, body)) => {
                                        let pb2: usize = if pb < s.len() && s[pb] == ';' {
                                            pb + 1
                                        } else {
                                            pb
                                        };
                                        let q4 = skip_ws(s, pb2);
                                        if q4 < s.len() && s[q4] == '}' {
                                            let fname = if main {
                                                user_entry_name()
                                            } else {
                                                name
                                            };
                                            Ok(
                                                (
                                                    q4 + 1,
                                                    Stmt::FunctionDeclaration {
                                                        ident: fname,
                                                        params,
                                                        body,
                                                    },
                                                ),
                                            )
                                        } else {
                                            Err(PErrV::Fail { at: q4 })
                                        }
                                    },
                                    Err(e) => Err(e),
                                }
                            } else {
                                Err(PErrV::Fail { at: q3 })
                            }
                        }
                    },
                    Err(e) => Err(e),
                }
            },
            Err(_) => Err(PErrV::Fail { at: q + 2 }),
        }
    } else {
        Err(PErrV::Fail { at: q })
    }
}

/// A bare expression statement; an optional trailing semicolon and the
/// whitespace after it belong to the statement.
pub fn parse_expr_statement(s: &Vec<char>, pos: usize) -> (r: Result<(usize, Stmt), PErrV>)
    requires
        pos <= s@.len(),
    ensures
        matches_pr(
            r,
            spec_expr_stmt(s@, pos as int),
            s@.len() as int,
            pos as int,
            |st: Stmt| st@,
        ),
    decreases s@.len() - pos, 7int,
{
    match parse_expression(s, pos) {
        Ok((e1, e)) => {
            if e1 < s.len() && s[e1] == ';' {
                Ok((skip_ws(s, e1 + 1), Stmt::Expression(e)))
            } else {
                Ok((e1, Stmt::Expression(e)))
            }
        },
        Err(e) => Err(e),
    }
}

} // verus!
