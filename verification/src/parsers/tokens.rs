//! Executable token parsers, each proved against the grammar.

use vstd::prelude::*;

use crate::ast::{expr_view, Expr, ExprV};
use crate::text::string_from_range;
use super::grammar::{
    is_delim_char, is_digit, is_ident_char, is_ident_start, is_space, matches_pr, max_literal,
    spec_char_lit, spec_delim_end, spec_digit_end, spec_digits_val, spec_find_quote, spec_ident,
    spec_ident_end, spec_ident_expr, spec_number, spec_qual_more, spec_qualified_expr,
    spec_raw_ident, spec_skip_ws, spec_string, spec_variable, truncate_to_i32, PErrV,
};

verus! {

pub fn is_space_exec(c: char) -> (r: bool)
    ensures
        r == is_space(c),
{
    c == ' ' || c == '\t' || c == '\n' || c == '\r'
}

pub fn is_ident_start_exec(c: char) -> (r: bool)
    ensures
        r == is_ident_start(c),
{
    let u = c as u32;
    (97 <= u && u <= 122) || (65 <= u && u <= 90) || c == '_'
}

pub fn is_ident_char_exec(c: char) -> (r: bool)
    ensures
        r == is_ident_char(c),
{
    let u = c as u32;
    (97 <= u && u <= 122) || (65 <= u && u <= 90) || (48 <= u && u <= 57) || c == '_'
}

pub fn is_digit_exec(c: char) -> (r: bool)
    ensures
        r == is_digit(c),
{
    let u = c as u32;
    48 <= u && u <= 57
}

pub fn is_delim_char_exec(c: char) -> (r: bool)
    ensures
        r == is_delim_char(c),
{
    is_space_exec(c) || c == ';'
}

/// Skips whitespace.
pub fn skip_ws(s: &Vec<char>, pos: usize) -> (r: usize)
    requires
        pos <= s@.len(),
    ensures
        r as int == spec_skip_ws(s@, pos as int),
        pos <= r <= s@.len(),
{
    let mut i: usize = pos;
    while i < s.len() && is_space_exec(s[i])
        invariant
            pos <= i <= s@.len(),
            spec_skip_ws(s@, pos as int) == spec_skip_ws(s@, i as int),
        decreases s@.len() - i,
    {
        i = i + 1;
    }
    i
}

/// Scans to the end of an identifier-character run.
pub fn ident_end(s: &Vec<char>, pos: usize) -> (r: usize)
    requires
        pos <= s@.len(),
    ensures
        r as int == spec_ident_end(s@, pos as int),
        pos <= r <= s@.len(),
{
    let mut i: usize = pos;
    while i < s.len() && is_ident_char_exec(s[i])
        invariant
            pos <= i <= s@.len(),
            spec_ident_end(s@, pos as int) == spec_ident_end(s@, i as int),
        decreases s@.len() - i,
    {
        i = i + 1;
    }
    i
}

/// Scans to the end of a digit run.
pub fn digit_end(s: &Vec<char>, pos: usize) -> (r: usize)
    requires
        pos <= s@.len(),
    ensures
        r as int == spec_digit_end(s@, pos as int),
        pos <= r <= s@.len(),
{
    let mut i: usize = pos;
    while i < s.len() && is_digit_exec(s[i])
        invariant
            pos <= i <= s@.len(),
            spec_digit_end(s@, pos as int) == spec_digit_end(s@, i as int),
        decreases s@.len() - i,
    {
        i = i + 1;
    }
    i
}

/// Scans to the end of a delimiter run (whitespace and semicolons).
pub fn delim_end(s: &Vec<char>, pos: usize) -> (r: usize)
    requires
        pos <= s@.len(),
    ensures
        r as int == spec_delim_end(s@, pos as int),
        pos <= r <= s@.len(),
{
    let mut i: usize = pos;
    while i < s.len() && is_delim_char_exec(s[i])
        invariant
            pos <= i <= s@.len(),
            spec_delim_end(s@, pos as int) == spec_delim_end(s@, i as int),
        decreases s@.len() - i,
    {
        i = i + 1;
    }
    i
}

/// Scans to the next double quote, or the input's end.
pub fn find_quote(s: &Vec<char>, pos: usize) -> (r: usize)
    requires
        pos <= s@.len(),
    ensures
        r as int == spec_find_quote(s@, pos as int),
        pos <= r <= s@.len(),
{
    let mut i: usize = pos;
    while i < s.len() && s[i] != '"'
        invariant
            pos <= i <= s@.len(),
            spec_find_quote(s@, pos as int) == spec_find_quote(s@, i as int),
        decreases s@.len() - i,
    {
        i = i + 1;
    }
    i
}

/// An identifier, handed back as its name.
pub fn ident_token(s: &Vec<char>, pos: usize) -> (r: Result<(usize, String), PErrV>)
    requires
        pos <= s@.len(),
    ensures
        matches_pr(r, spec_ident(s@, pos as int), s@.len() as int, pos as int, |v: String| v@),
{
    let q = skip_ws(s, pos);
    raw_ident_token(s, q)
}

/// An identifier with no leading whitespace, handed back as its name.
pub fn raw_ident_token(s: &Vec<char>, pos: usize) -> (r: Result<(usize, String), PErrV>)
    requires
        pos <= s@.len(),
    ensures
        matches_pr(
            r,
            spec_raw_ident(s@, pos as int),
            s@.len() as int,
            pos as int,
            |v: String| v@,
        ),
{
    if pos < s.len() && is_ident_start_exec(s[pos]) {
        let r_end = ident_end(s, pos + 1);
        let name = string_from_range(s, pos, r_end);
        Ok((r_end, name))
    } else {
        Err(PErrV::Fail { at: pos })
    }
}

/// An identifier expression.
pub fn parse_identifier(s: &Vec<char>, pos: usize) -> (r: Result<(usize, Expr), PErrV>)
    requires
        pos <= s@.len(),
    ensures
        matches_pr(r, spec_ident_expr(s@, pos as int), s@.len() as int, pos as int, |e: Expr| e@),
{
    match ident_token(s, pos) {
        Ok((np, name)) => Ok((np, Expr::Ident(name))),
        Err(e) => Err(e),
    }
}

/// The name of an identifier expression, of no other expression.
pub fn get_identifier(e: Expr) -> (r: Option<String>)
    ensures
        match e@ {
            ExprV::Ident(n) => r is Some && r.unwrap()@ == n,
            _ => r is None,
        },
{
    match e {
        Expr::Ident(s) => Some(s),
        _ => None,
    }
}

/// A decimal integer literal. The digits are read as an unbounded
/// magnitude; anything above the 128-bit signed bound fails to parse,
/// and what is stored is the value truncated to 32 bits.
pub fn parse_number(s: &Vec<char>, pos: usize) -> (r: Result<(usize, Expr), PErrV>)
    requires
        pos <= s@.len(),
    ensures
        matches_pr(r, spec_number(s@, pos as int), s@.len() as int, pos as int, |e: Expr| e@),
{
    if pos < s.len() && is_digit_exec(s[pos]) {
        let r_end = digit_end(s, pos + 1);
        let max: u128 = 0x7fffffffffffffffffffffffffffffff;
        let mut acc: u128 = 0;
        let mut over: bool = false;
        let mut i: usize = pos;
        proof {
            assert(s@.subrange(pos as int, pos as int) =~= Seq::<char>::empty());
        }
        while i < r_end
            invariant
                pos <= i <= r_end <= s@.len(),
                max == max_literal(),
                r_end as int == spec_digit_end(s@, pos as int + 1),
                pos < s@.len() && is_digit(s@[pos as int]),
                !over ==> acc as nat == spec_digits_val(s@.subrange(pos as int, i as int))
                    && acc <= max,
                over ==> spec_digits_val(s@.subrange(pos as int, i as int)) > max_literal(),
            decreases r_end - i,
        {
            proof {
                lemma_digit_run(s@, pos as int, r_end as int, i as int);
            }
            let d: u128 = (s[i] as u32 - 48) as u128;
            proof {
                let ds = s@.subrange(pos as int, i as int + 1);
                assert(ds.drop_last() =~= s@.subrange(pos as int, i as int));
                assert(ds.last() == s@[i as int]);
            }
            if over {
                proof {
                    lemma_digits_val_grows(s@.subrange(pos as int, i as int + 1));
                }
            } else if acc <= (max - d) / 10 {
                proof {
                    let q = (max - d) / 10;
                    assert(q * 10 + (max - d) % 10 == (max - d)) by {
                        vstd::arithmetic::div_mod::lemma_fundamental_div_mod(
                            (max - d) as int,
                            10,
                        );
                    }
                    assert(acc * 10 <= q * 10);
                }
                acc = acc * 10 + d;
            } else {
                proof {
                    let q = (max - d) / 10;
                    assert(q * 10 + (max - d) % 10 == (max - d)) by {
                        vstd::arithmetic::div_mod::lemma_fundamental_div_mod(
                            (max - d) as int,
                            10,
                        );
                    }
                    assert(acc * 10 >= (q + 1) * 10);
                }
                over = true;
            }
            i = i + 1;
        }
        if over {
            proof {
                assert(s@.subrange(pos as int, r_end as int) == s@.subrange(
                    pos as int,
                    i as int,
                ));
            }
            Err(PErrV::Fail { at: pos })
        } else {
            let m: u64 = (acc % 0x100000000) as u64;
            let val: i32 = if m < 0x80000000 {
                m as i32
            } else {
                ((m as i64) - 0x100000000) as i32
            };
            proof {
                assert(s@.subrange(pos as int, r_end as int) == s@.subrange(
                    pos as int,
                    i as int,
                ));
                assert(val == truncate_to_i32(acc as nat));
            }
            Ok((r_end, Expr::Num(val)))
        }
    } else {
        Err(PErrV::Fail { at: pos })
    }
}

/// A string literal: no escapes, everything up to the closing quote.
pub fn parse_string(s: &Vec<char>, pos: usize) -> (r: Result<(usize, Expr), PErrV>)
    requires
        pos <= s@.len(),
    ensures
        matches_pr(r, spec_string(s@, pos as int), s@.len() as int, pos as int, |e: Expr| e@),
{
    if pos < s.len() && s[pos] == '"' {
        let q = find_quote(s, pos + 1);
        if q < s.len() {
            let content = string_from_range(s, pos + 1, q);
            Ok((q + 1, Expr::Str(content)))
        } else {
            Err(PErrV::Fail { at: pos })
        }
    } else {
        Err(PErrV::Fail { at: pos })
    }
}

/// A character literal, with escapes for a backslash and a single quote.
pub fn parse_char(s: &Vec<char>, pos: usize) -> (r: Result<(usize, Expr), PErrV>)
    requires
        pos <= s@.len(),
    ensures
        matches_pr(r, spec_char_lit(s@, pos as int), s@.len() as int, pos as int, |e: Expr| e@),
{
    if pos < s.len() && s[pos] == '\'' && pos + 1 < s.len() {
        let c0 = s[pos + 1];
        if c0 == '\'' {
            Err(PErrV::Fail { at: pos })
        } else if c0 == '\\' {
            if s.len() - pos > 3 && (s[pos + 2] == '\\' || s[pos + 2] == '\'') && s[pos + 3]
                == '\'' {
                let c = s[pos + 2];
                let e = Expr::Char(c);
                proof {
                    assert(e@ == ExprV::Char(c));
                }
                Ok((pos + 4, e))
            } else {
                Err(PErrV::Fail { at: pos })
            }
        } else if s.len() - pos > 2 && s[pos + 2] == '\'' {
            let e = Expr::Char(c0);
            proof {
                crate::ast::lemma_char_view(c0);
            }
            Ok((pos + 3, e))
        } else {
            Err(PErrV::Fail { at: pos })
        }
    } else {
        Err(PErrV::Fail { at: pos })
    }
}

/// A variable-shaped operand: identifier, number, string or character.
pub fn parse_variable(s: &Vec<char>, pos: usize) -> (r: Result<(usize, Expr), PErrV>)
    requires
        pos <= s@.len(),
    ensures
        matches_pr(r, spec_variable(s@, pos as int), s@.len() as int, pos as int, |e: Expr| e@),
{
    match parse_identifier(s, pos) {
        Ok(ok) => Ok(ok),
        Err(_) => match parse_number(s, pos) {
            Ok(ok) => Ok(ok),
            Err(_) => match parse_string(s, pos) {
                Ok(ok) => Ok(ok),
                Err(_) => parse_char(s, pos),
            },
        },
    }
}

/// A qualified identifier: `seg::seg` and further `::seg` joins.
pub fn parse_qualified_identifier(s: &Vec<char>, pos: usize) -> (r: Result<(usize, Expr), PErrV>)
    requires
        pos <= s@.len(),
    ensures
        matches_pr(
            r,
            spec_qualified_expr(s@, pos as int),
            s@.len() as int,
            pos as int,
            |e: Expr| e@,
        ),
{
    let q = skip_ws(s, pos);
    let (r1, seg1) = match raw_ident_token(s, q) {
        Ok(ok) => ok,
        Err(_) => {
            return Err(PErrV::Fail { at: q });
        },
    };
    if !(s.len() - r1 > 1 && s[r1] == ':' && s[r1 + 1] == ':') {
        return Err(PErrV::Fail { at: r1 });
    }
    let (r2, seg2) = match raw_ident_token(s, r1 + 2) {
        Ok(ok) => ok,
        Err(_) => {
            return Err(PErrV::Fail { at: r1 + 2 });
        },
    };
    let mut segs: Vec<String> = Vec::new();
    segs.push(seg1);
    segs.push(seg2);
    let mut p: usize = r2;
    proof {
        assert(segs@.map_values(|x: String| x@) =~= seq![seg1@, seg2@]);
    }
    if !(r2 > r1 + 2) {
        // An identifier always spans at least one character; this branch
        // mirrors the grammar's explicit progress guard.
        return Ok((skip_ws(s, r2), Expr::QualifiedIdent(segs)));
    }
    loop
        invariant
            r2 <= p <= s@.len(),
            spec_qual_more(s@, p as int, segs@.map_values(|x: String| x@)) == spec_qual_more(
                s@,
                r2 as int,
                seq![seg1@, seg2@],
            ),
        ensures
            r2 <= p <= s@.len(),
            spec_qual_more(s@, r2 as int, seq![seg1@, seg2@]) == (
                p as int,
                segs@.map_values(|x: String| x@),
            ),
        decreases s@.len() - p,
    {
        if s.len() - p > 1 && s[p] == ':' && s[p + 1] == ':' {
            match raw_ident_token(s, p + 2) {
                Ok((rn, seg)) => {
                    if rn > p + 2 {
                        proof {
                            assert(segs@.push(seg).map_values(|x: String| x@) =~= segs@.map_values(
                                |x: String| x@,
                            ).push(seg@));
                        }
                        segs.push(seg);
                        p = rn;
                    } else {
                        break;
                    }
                },
                Err(_) => {
                    break;
                },
            }
        } else {
            break;
        }
    }
    Ok((skip_ws(s, p), Expr::QualifiedIdent(segs)))
}

/// In a run of digits, every position before the end holds a digit.
proof fn lemma_digit_run(s: Seq<char>, p: int, e: int, i: int)
    requires
        0 <= p <= i < e <= s.len(),
        p < s.len() && is_digit(s[p]),
        e == spec_digit_end(s, p + 1),
    ensures
        is_digit(s[i]),
    decreases i - p,
{
    if i > p {
        if p + 1 < e {
            lemma_digit_end_stays(s, p + 1, e);
            lemma_digit_run_inner(s, p + 1, e, i);
        }
    }
}

/// Helper: in `spec_digit_end`'s run, every position holds a digit.
proof fn lemma_digit_run_inner(s: Seq<char>, p: int, e: int, i: int)
    requires
        0 <= p <= i < e <= s.len(),
        e == spec_digit_end(s, p),
    ensures
        is_digit(s[i]),
    decreases i - p,
{
    if i == p {
    } else {
        lemma_digit_run_inner(s, p + 1, e, i);
    }
}

/// Helper: `spec_digit_end` is a fixed point along its own run.
proof fn lemma_digit_end_stays(s: Seq<char>, p: int, e: int)
    requires
        0 <= p <= s.len(),
        e == spec_digit_end(s, p),
    ensures
        e == spec_digit_end(s, p),
{
}

/// Appending a digit cannot shrink the value.
proof fn lemma_digits_val_grows(ds: Seq<char>)
    requires
        ds.len() > 0,
    ensures
        spec_digits_val(ds) >= spec_digits_val(ds.drop_last()),
{
    let v = spec_digits_val(ds.drop_last());
    assert(spec_digits_val(ds) == v * 10 + (ds.last() as u32 - 48) as nat);
    assert(v * 10 >= v);
}

} // verus!
