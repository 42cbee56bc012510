//! Executable expression parsers, each proved against the grammar.

use vstd::prelude::*;

use crate::ast::{
    exprs_view, lemma_exprs_view_cons, BinaryOp, Expr,
};
use super::grammar::{
    matches_pr, spec_array, spec_array_indexing, spec_call, spec_expr_list, spec_expr_list_more,
    spec_expression, spec_infix, spec_infix_op, spec_paren_expr, spec_primary, PErrV,
};
use super::tokens::{
    ident_token, parse_char, parse_identifier, parse_number, parse_qualified_identifier,
    parse_string, parse_variable, skip_ws,
};

verus! {

/// An infix operator token.
pub fn parse_infix_op(s: &Vec<char>, pos: usize) -> (r: Result<(usize, BinaryOp), PErrV>)
    requires
        pos <= s@.len(),
    ensures
        matches_pr(
            r,
            spec_infix_op(s@, pos as int),
            s@.len() as int,
            pos as int,
            |b: BinaryOp| b,
        ),
{
    if pos < s.len() {
        let c = s[pos];
        if c == '+' {
            Ok((pos + 1, BinaryOp::Add))
        } else if c == '-' {
            Ok((pos + 1, BinaryOp::Subtract))
        } else if c == '*' {
            Ok((pos + 1, BinaryOp::Multiply))
        } else if c == '/' {
            Ok((pos + 1, BinaryOp::Divide))
        } else if c == '=' && pos + 1 < s.len() && s[pos + 1] == '=' {
            Ok((pos + 2, BinaryOp::Eq))
        } else if c == '!' && pos + 1 < s.len() && s[pos + 1] == '=' {
            Ok((pos + 2, BinaryOp::Ne))
        } else if c == '<' {
            Ok((pos + 1, BinaryOp::Lt))
        } else if c == '>' {
            Ok((pos + 1, BinaryOp::Gt))
        } else {
            Err(PErrV::Fail { at: pos })
        }
    } else {
        Err(PErrV::Fail { at: pos })
    }
}

/// An infix expression: operand, operator, operand.
pub fn parse_infix_expr(s: &Vec<char>, pos: usize) -> (r: Result<(usize, Expr), PErrV>)
    requires
        pos <= s@.len(),
    ensures
        matches_pr(r, spec_infix(s@, pos as int), s@.len() as int, pos as int, |e: Expr| e@),
{
    let q0 = skip_ws(s, pos);
    let (n1, left) = match parse_variable(s, q0) {
        Ok(ok) => ok,
        Err(_) => {
            return Err(PErrV::Fail { at: q0 });
        },
    };
    let q1 = skip_ws(s, n1);
    let (n2, op) = match parse_infix_op(s, q1) {
        Ok(ok) => ok,
        Err(_) => {
            return Err(PErrV::Fail { at: q1 });
        },
    };
    let q2 = skip_ws(s, n2);
    let (n3, right) = match parse_variable(s, q2) {
        Ok(ok) => ok,
        Err(_) => {
            return Err(PErrV::Fail { at: q2 });
        },
    };
    let q3 = skip_ws(s, n3);
    Ok((q3, Expr::Infix(Box::new(left), op, Box::new(right))))
}

/// An array literal.
pub fn parse_array(s: &Vec<char>, pos: usize) -> (r: Result<(usize, Expr), PErrV>)
    requires
        pos <= s@.len(),
    ensures
        matches_pr(r, spec_array(s@, pos as int), s@.len() as int, pos as int, |e: Expr| e@),
    decreases s@.len() - pos, 1int,
{
    if pos < s.len() && s[pos] == '[' {
        match parse_expr_list(s, pos + 1) {
            Ok((q, es)) => {
                if q < s.len() && s[q] == ']' {
                    Ok((q + 1, Expr::Array(es)))
                } else {
                    Err(PErrV::Fail { at: q })
                }
            },
            Err(e) => Err(e),
        }
    } else {
        Err(PErrV::Fail { at: pos })
    }
}

/// Array indexing: a base identifier or qualified identifier, then a
/// bracketed index expression.
pub fn parse_array_indexing(s: &Vec<char>, pos: usize) -> (r: Result<(usize, Expr), PErrV>)
    requires
        pos <= s@.len(),
    ensures
        matches_pr(
            r,
            spec_array_indexing(s@, pos as int),
            s@.len() as int,
            pos as int,
            |e: Expr| e@,
        ),
    decreases s@.len() - pos, 2int,
{
    let (b, base) = match parse_qualified_identifier(s, pos) {
        Ok(ok) => ok,
        Err(_) => match parse_identifier(s, pos) {
            Ok(ok) => ok,
            Err(_) => {
                return Err(PErrV::Fail { at: pos });
            },
        },
    };
    if b < s.len() && s[b] == '[' {
        match parse_expression(s, b + 1) {
            Ok((q, idx)) => {
                if q < s.len() && s[q] == ']' {
                    Ok((q + 1, Expr::ArrayIndexing(Box::new(base), Box::new(idx))))
                } else {
                    Err(PErrV::Fail { at: q })
                }
            },
            Err(e) => Err(e),
        }
    } else {
        Err(PErrV::Fail { at: b })
    }
}

/// A parenthesized expression.
fn parse_paren_expr(s: &Vec<char>, pos: usize) -> (r: Result<(usize, Expr), PErrV>)
    requires
        pos <= s@.len(),
    ensures
        matches_pr(r, spec_paren_expr(s@, pos as int), s@.len() as int, pos as int, |e: Expr| e@),
    decreases s@.len() - pos, 2int,
{
    if pos < s.len() && s[pos] == '(' {
        match parse_expression(s, pos + 1) {
            Ok((q, e)) => {
                if q < s.len() && s[q] == ')' {
                    Ok((q + 1, e))
                } else {
                    Err(PErrV::Fail { at: q })
                }
            },
            Err(e) => Err(e),
        }
    } else {
        Err(PErrV::Fail { at: pos })
    }
}

/// A primary expression: the grammar's alternatives, in order.
pub fn parse_primary_expr(s: &Vec<char>, pos: usize) -> (r: Result<(usize, Expr), PErrV>)
    requires
        pos <= s@.len(),
    ensures
        matches_pr(r, spec_primary(s@, pos as int), s@.len() as int, pos as int, |e: Expr| e@),
    decreases s@.len() - pos, 3int,
{
    match parse_array_indexing(s, pos) {
        Ok(ok) => Ok(ok),
        Err(PErrV::Halt { at }) => Err(PErrV::Halt { at }),
        Err(PErrV::Fail { .. }) => match parse_qualified_identifier(s, pos) {
            Ok(ok) => Ok(ok),
            Err(_) => match parse_identifier(s, pos) {
                Ok(ok) => Ok(ok),
                Err(_) => match parse_array(s, pos) {
                    Ok(ok) => Ok(ok),
                    Err(PErrV::Halt { at }) => Err(PErrV::Halt { at }),
                    Err(PErrV::Fail { .. }) => match parse_number(s, pos) {
                        Ok(ok) => Ok(ok),
                        Err(_) => match parse_string(s, pos) {
                            Ok(ok) => Ok(ok),
                            Err(_) => match parse_char(s, pos) {
                                Ok(ok) => Ok(ok),
                                Err(_) => parse_paren_expr(s, pos),
                            },
                        },
                    },
                },
            },
        },
    }
}

/// A function call: a name and a parenthesized argument list.
pub fn parse_function_call(s: &Vec<char>, pos: usize) -> (r: Result<(usize, Expr), PErrV>)
    requires
        pos <= s@.len(),
    ensures
        matches_pr(r, spec_call(s@, pos as int), s@.len() as int, pos as int, |e: Expr| e@),
    decreases s@.len() - pos, 4int,
{
    let (n1, name) = match ident_token(s, pos) {
        Ok(ok) => ok,
        Err(_) => {
            return Err(PErrV::Fail { at: pos });
        },
    };
    let q = skip_ws(s, n1);
    if q < s.len() && s[q] == '(' {
        match parse_expr_list(s, q + 1) {
            Ok((q2, args)) => {
                if q2 < s.len() && s[q2] == ')' {
                    Ok((q2 + 1, Expr::Call(name, args)))
                } else {
                    Err(PErrV::Fail { at: q2 })
                }
            },
            Err(e) => Err(e),
        }
    } else {
        Err(PErrV::Fail { at: q })
    }
}

/// An expression: a call, an infix expression or a primary expression.
pub fn parse_expression(s: &Vec<char>, pos: usize) -> (r: Result<(usize, Expr), PErrV>)
    requires
        pos <= s@.len(),
    ensures
        matches_pr(r, spec_expression(s@, pos as int), s@.len() as int, pos as int, |e: Expr| e@),
    decreases s@.len() - pos, 5int,
{
    match parse_function_call(s, pos) {
        Ok(ok) => Ok(ok),
        Err(PErrV::Halt { at }) => Err(PErrV::Halt { at }),
        Err(PErrV::Fail { .. }) => match parse_infix_expr(s, pos) {
            Ok(ok) => Ok(ok),
            Err(_) => parse_primary_expr(s, pos),
        },
    }
}

/// A comma-separated expression list, possibly empty.
pub fn parse_expr_list(s: &Vec<char>, pos: usize) -> (r: Result<(usize, Vec<Expr>), PErrV>)
    requires
        pos <= s@.len(),
    ensures
        matches_pr(
            r,
            spec_expr_list(s@, pos as int),
            s@.len() as int,
            pos as int,
            |v: Vec<Expr>| exprs_view(v@),
        ),
    decreases s@.len() - pos, 6int,
{
    match parse_expression(s, pos) {
        Ok((p1, e)) => {
            if p1 > pos {
                match parse_expr_list_more(s, p1) {
                    Ok((pe, rest)) => Ok((pe, cons_expr(e, rest))),
                    Err(e2) => Err(e2),
                }
            } else {
                let ghost ev = e@;
                let mut v: Vec<Expr> = Vec::new();
                v.push(e);
                proof {
                    assert(v@ =~= seq![v@[0]].add(Seq::empty()));
                    lemma_exprs_view_cons(v@[0], Seq::empty());
                    assert(exprs_view(v@) =~= seq![ev]);
                }
                Ok((p1, v))
            }
        },
        Err(PErrV::Halt { at }) => Err(PErrV::Halt { at }),
        Err(PErrV::Fail { .. }) => {
            proof {
                assert(exprs_view(Seq::<Expr>::empty()) =~= Seq::<crate::ast::ExprV>::empty());
            }
            Ok((pos, Vec::new()))
        },
    }
}

/// The tail of an expression list: `, expression`, repeated.
pub fn parse_expr_list_more(s: &Vec<char>, pos: usize) -> (r: Result<(usize, Vec<Expr>), PErrV>)
    requires
        pos <= s@.len(),
    ensures
        matches_pr(
            r,
            spec_expr_list_more(s@, pos as int),
            s@.len() as int,
            pos as int,
            |v: Vec<Expr>| exprs_view(v@),
        ),
    decreases s@.len() - pos, 7int,
{
    let q1 = skip_ws(s, pos);
    if q1 < s.len() && s[q1] == ',' {
        let q2 = skip_ws(s, q1 + 1);
        match parse_expression(s, q2) {
            Ok((p2, e)) => {
                if p2 > q2 {
                    match parse_expr_list_more(s, p2) {
                        Ok((pe, rest)) => Ok((pe, cons_expr(e, rest))),
                        Err(e2) => Err(e2),
                    }
                } else {
                    let ghost ev = e@;
                    let mut v: Vec<Expr> = Vec::new();
                    v.push(e);
                    proof {
                        assert(v@ =~= seq![v@[0]].add(Seq::empty()));
                        lemma_exprs_view_cons(v@[0], Seq::empty());
                        assert(exprs_view(v@) =~= seq![ev]);
                    }
                    Ok((p2, v))
                }
            },
            Err(PErrV::Halt { at }) => Err(PErrV::Halt { at }),
            Err(PErrV::Fail { .. }) => {
                proof {
                    assert(exprs_view(Seq::<Expr>::empty())
                        =~= Seq::<crate::ast::ExprV>::empty());
                }
                Ok((pos, Vec::new()))
            },
        }
    } else {
        proof {
            assert(exprs_view(Seq::<Expr>::empty()) =~= Seq::<crate::ast::ExprV>::empty());
        }
        Ok((pos, Vec::new()))
    }
}

/// Prepends an expression to a parsed list.
fn cons_expr(e: Expr, rest: Vec<Expr>) -> (r: Vec<Expr>)
    ensures
        exprs_view(r@) == seq![e@].add(exprs_view(rest@)),
{
    let ghost ev = e@;
    let ghost restv = rest@;
    let mut v = rest;
    v.insert(0, e);
    proof {
        assert(v@ =~= seq![v@[0]].add(restv));
        lemma_exprs_view_cons(v@[0], restv);
        assert(v@[0]@ == ev);
    }
    v
}

} // verus!
