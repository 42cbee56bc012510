//! The grammar, written once as specification functions over character
//! sequences. Every executable parser in this crate promises to return
//! exactly what these functions say; they are the single mathematical
//! definition of the language's surface syntax.
//!
//! Each function takes the whole input `s` and a position `p`, and returns
//! a [`Pr`] outcome: success with the next position and the parsed value,
//! a recoverable failure (the caller may try another alternative), or a
//! halting failure (a `main` declared with parameters), which aborts the
//! whole parse.

use vstd::prelude::*;

use crate::ast::{BinaryOp, ExprV, StmtV};

verus! {

/// Outcome of a specification-level parser.
pub enum Pr<T> {
    /// Parsed `val`, input consumed up to (excluding) `next`.
    Parsed { next: int, val: T },
    /// No parse here; alternatives may be tried. `at` is where the
    /// remaining input started.
    Fail { at: int },
    /// Fatal: a `main` declaration with parameters. Aborts the parse.
    Halt { at: int },
}

/// How an executable parser's result is mirrored by a specification
/// outcome: `f` maps the executable value to its mathematical image.
pub open spec fn matches_pr<T, TV>(
    r: Result<(usize, T), PErrV>,
    sp: Pr<TV>,
    len: int,
    pos: int,
    f: spec_fn(T) -> TV,
) -> bool {
    match r {
        Result::Ok((np, v)) => sp == (Pr::Parsed { next: np as int, val: f(v) }) && pos <= np <= len,
        Result::Err(e) => match e {
            PErrV::Fail { at } => sp == (Pr::Fail::<TV> { at: at as int }) && at <= len,
            PErrV::Halt { at } => sp == (Pr::Halt::<TV> { at: at as int }) && at <= len,
        },
    }
}

/// The executable counterpart of the two failing [`Pr`] outcomes.
#[derive(Debug, Clone, Copy, PartialEq, Eq, Structural)]
pub enum PErrV {
    Fail { at: usize },
    Halt { at: usize },
}

// ---------------------------------------------------------------------------
// Character classes.
// ---------------------------------------------------------------------------
/// Whitespace: space, tab, newline, carriage return.
pub open spec fn is_space(c: char) -> bool {
    c == ' ' || c == '\t' || c == '\n' || c == '\r'
}

/// An ASCII letter.
pub open spec fn is_alpha(c: char) -> bool {
    (97 <= c as u32 && c as u32 <= 122) || (65 <= c as u32 && c as u32 <= 90)
}

/// An ASCII decimal digit.
pub open spec fn is_digit(c: char) -> bool {
    48 <= c as u32 && c as u32 <= 57
}

/// What may open an identifier: a letter or an underscore.
pub open spec fn is_ident_start(c: char) -> bool {
    is_alpha(c) || c == '_'
}

/// What may continue an identifier: letters, digits, underscores.
pub open spec fn is_ident_char(c: char) -> bool {
    is_alpha(c) || is_digit(c) || c == '_'
}

/// A statement delimiter character: whitespace or a semicolon.
pub open spec fn is_delim_char(c: char) -> bool {
    is_space(c) || c == ';'
}

// ---------------------------------------------------------------------------
// Scanning primitives.
// ---------------------------------------------------------------------------
/// First position at or after `p` that does not hold whitespace.
pub open spec fn spec_skip_ws(s: Seq<char>, p: int) -> int
    decreases s.len() - p,
{
    if 0 <= p && p < s.len() && is_space(s[p]) {
        spec_skip_ws(s, p + 1)
    } else {
        p
    }
}

/// First position at or after `p` that does not continue an identifier.
pub open spec fn spec_ident_end(s: Seq<char>, p: int) -> int
    decreases s.len() - p,
{
    if 0 <= p && p < s.len() && is_ident_char(s[p]) {
        spec_ident_end(s, p + 1)
    } else {
        p
    }
}

/// First position at or after `p` that does not hold a digit.
pub open spec fn spec_digit_end(s: Seq<char>, p: int) -> int
    decreases s.len() - p,
{
    if 0 <= p && p < s.len() && is_digit(s[p]) {
        spec_digit_end(s, p + 1)
    } else {
        p
    }
}

/// First position at or after `p` that does not hold a delimiter character.
pub open spec fn spec_delim_end(s: Seq<char>, p: int) -> int
    decreases s.len() - p,
{
    if 0 <= p && p < s.len() && is_delim_char(s[p]) {
        spec_delim_end(s, p + 1)
    } else {
        p
    }
}

/// First position at or after `p` holding a double quote, or the input's
/// length if there is none.
pub open spec fn spec_find_quote(s: Seq<char>, p: int) -> int
    decreases s.len() - p,
{
    if 0 <= p && p < s.len() {
        if s[p] == '"' {
            p
        } else {
            spec_find_quote(s, p + 1)
        }
    } else {
        s.len() as int
    }
}

pub proof fn lemma_skip_ws_bounds(s: Seq<char>, p: int)
    requires
        0 <= p <= s.len(),
    ensures
        p <= spec_skip_ws(s, p) <= s.len(),
    decreases s.len() - p,
{
    if p < s.len() && is_space(s[p]) {
        lemma_skip_ws_bounds(s, p + 1);
    }
}

pub proof fn lemma_ident_end_bounds(s: Seq<char>, p: int)
    requires
        0 <= p <= s.len(),
    ensures
        p <= spec_ident_end(s, p) <= s.len(),
    decreases s.len() - p,
{
    if p < s.len() && is_ident_char(s[p]) {
        lemma_ident_end_bounds(s, p + 1);
    }
}

pub proof fn lemma_digit_end_bounds(s: Seq<char>, p: int)
    requires
        0 <= p <= s.len(),
    ensures
        p <= spec_digit_end(s, p) <= s.len(),
    decreases s.len() - p,
{
    if p < s.len() && is_digit(s[p]) {
        lemma_digit_end_bounds(s, p + 1);
    }
}

pub proof fn lemma_delim_end_bounds(s: Seq<char>, p: int)
    requires
        0 <= p <= s.len(),
    ensures
        p <= spec_delim_end(s, p) <= s.len(),
    decreases s.len() - p,
{
    if p < s.len() && is_delim_char(s[p]) {
        lemma_delim_end_bounds(s, p + 1);
    }
}

pub proof fn lemma_find_quote_bounds(s: Seq<char>, p: int)
    requires
        0 <= p <= s.len(),
    ensures
        p <= spec_find_quote(s, p) <= s.len(),
    decreases s.len() - p,
{
    if p < s.len() && s[p] != '"' {
        lemma_find_quote_bounds(s, p + 1);
    }
}

// ---------------------------------------------------------------------------
// Tokens.
// ---------------------------------------------------------------------------
/// An identifier with no surrounding whitespace handling: an opening
/// letter or underscore, then a run of identifier characters.
pub open spec fn spec_raw_ident(s: Seq<char>, p: int) -> Pr<Seq<char>> {
    if 0 <= p && p < s.len() && is_ident_start(s[p]) {
        let r = spec_ident_end(s, p + 1);
        Pr::Parsed { next: r, val: s.subrange(p, r) }
    } else {
        Pr::Fail { at: p }
    }
}

/// An identifier, leading whitespace accepted.
pub open spec fn spec_ident(s: Seq<char>, p: int) -> Pr<Seq<char>> {
    spec_raw_ident(s, spec_skip_ws(s, p))
}

/// The numeric value of a run of decimal digit characters.
pub open spec fn spec_digits_val(ds: Seq<char>) -> nat
    decreases ds,
{
    if ds.len() == 0 {
        0
    } else {
        spec_digits_val(ds.drop_last()) * 10 + (ds.last() as u32 - 48) as nat
    }
}

/// The greatest magnitude a decimal literal may have: the largest value
/// representable in a 128-bit signed integer.
pub open spec fn max_literal() -> nat {
    0x7fffffffffffffffffffffffffffffff as nat
}

/// What a decimal literal stores in the tree: its value reduced modulo
/// 2^32 and read back as a 32-bit two's-complement integer.
pub open spec fn truncate_to_i32(v: nat) -> i32 {
    let m = v % 0x100000000;
    if m < 0x80000000 {
        m as i32
    } else {
        (m - 0x100000000) as i32
    }
}

/// A decimal integer literal: a run of digits. Its magnitude is checked
/// against the 128-bit bound, but the stored value is truncated to 32
/// bits.
pub open spec fn spec_number(s: Seq<char>, p: int) -> Pr<ExprV> {
    if 0 <= p && p < s.len() && is_digit(s[p]) {
        let r = spec_digit_end(s, p + 1);
        let v = spec_digits_val(s.subrange(p, r));
        if v > max_literal() {
            Pr::Fail { at: p }
        } else {
            Pr::Parsed { next: r, val: ExprV::Num(truncate_to_i32(v)) }
        }
    } else {
        Pr::Fail { at: p }
    }
}

/// A decimal literal parses exactly when its magnitude stays within
/// the largest 128-bit signed value; one past that bound fails. What
/// is stored is always the literal truncated to 32 bits.
pub proof fn lemma_number_literal_bound(s: Seq<char>, p: int)
    requires
        0 <= p < s.len(),
        is_digit(s[p]),
    ensures
        ({
            let r = spec_digit_end(s, p + 1);
            let v = spec_digits_val(s.subrange(p, r));
            &&& v > max_literal() ==> spec_number(s, p) == (Pr::<ExprV>::Fail { at: p })
            &&& v <= max_literal() ==> spec_number(s, p) == (Pr::<ExprV>::Parsed {
                next: r,
                val: ExprV::Num(truncate_to_i32(v)),
            })
        }),
{
}

/// A string literal: the characters between two double quotes, with no
/// escape processing.
pub open spec fn spec_string(s: Seq<char>, p: int) -> Pr<ExprV> {
    if 0 <= p && p < s.len() && s[p] == '"' {
        let q = spec_find_quote(s, p + 1);
        if q < s.len() {
            Pr::Parsed { next: q + 1, val: ExprV::Str(s.subrange(p + 1, q)) }
        } else {
            Pr::Fail { at: p }
        }
    } else {
        Pr::Fail { at: p }
    }
}

/// A character literal: exactly one character between single quotes,
/// where a backslash escapes only a backslash or a single quote.
pub open spec fn spec_char_lit(s: Seq<char>, p: int) -> Pr<ExprV> {
    if 0 <= p && p < s.len() && s[p] == '\'' && p + 1 < s.len() {
        let c0 = s[p + 1];
        if c0 == '\'' {
            Pr::Fail { at: p }
        } else if c0 == '\\' {
            if p + 3 < s.len() && (s[p + 2] == '\\' || s[p + 2] == '\'') && s[p + 3] == '\'' {
                Pr::Parsed { next: p + 4, val: ExprV::Char(s[p + 2]) }
            } else {
                Pr::Fail { at: p }
            }
        } else if p + 2 < s.len() && s[p + 2] == '\'' {
            Pr::Parsed { next: p + 3, val: ExprV::Char(c0) }
        } else {
            Pr::Fail { at: p }
        }
    } else {
        Pr::Fail { at: p }
    }
}

/// [`spec_ident`], with the name wrapped as an identifier expression.
pub open spec fn spec_ident_expr(s: Seq<char>, p: int) -> Pr<ExprV> {
    match spec_ident(s, p) {
        Pr::Parsed { next, val } => Pr::Parsed { next, val: ExprV::Ident(val) },
        Pr::Fail { at } => Pr::Fail { at },
        Pr::Halt { at } => Pr::Halt { at },
    }
}

/// [`spec_qualified`], with the segments wrapped as a qualified
/// identifier expression.
pub open spec fn spec_qualified_expr(s: Seq<char>, p: int) -> Pr<ExprV> {
    match spec_qualified(s, p) {
        Pr::Parsed { next, val } => Pr::Parsed { next, val: ExprV::QualifiedIdent(val) },
        Pr::Fail { at } => Pr::Fail { at },
        Pr::Halt { at } => Pr::Halt { at },
    }
}

/// A variable-shaped operand: an identifier, a number, a string or a
/// character literal. These are the only operands an infix expression
/// accepts.
pub open spec fn spec_variable(s: Seq<char>, p: int) -> Pr<ExprV> {
    match spec_ident(s, p) {
        Pr::Parsed { next, val } => Pr::Parsed { next, val: ExprV::Ident(val) },
        _ => match spec_number(s, p) {
            Pr::Parsed { next, val } => Pr::Parsed { next, val },
            _ => match spec_string(s, p) {
                Pr::Parsed { next, val } => Pr::Parsed { next, val },
                _ => spec_char_lit(s, p),
            },
        },
    }
}

/// A qualified identifier: two or more identifier segments joined by
/// `::` with no whitespace inside the join; trailing whitespace is
/// consumed.
pub open spec fn spec_qualified(s: Seq<char>, p: int) -> Pr<Seq<Seq<char>>> {
    let q = spec_skip_ws(s, p);
    match spec_raw_ident(s, q) {
        Pr::Parsed { next: r1, val: seg1 } => {
            if r1 + 2 <= s.len() && s[r1] == ':' && s[r1 + 1] == ':' {
                match spec_raw_ident(s, r1 + 2) {
                    Pr::Parsed { next: r2, val: seg2 } => {
                        if r2 > r1 + 2 {
                            let (re, segs) = spec_qual_more(s, r2, seq![seg1, seg2]);
                            Pr::Parsed { next: spec_skip_ws(s, re), val: segs }
                        } else {
                            Pr::Parsed { next: spec_skip_ws(s, r2), val: seq![seg1, seg2] }
                        }
                    },
                    _ => Pr::Fail { at: r1 + 2 },
                }
            } else {
                Pr::Fail { at: r1 }
            }
        },
        _ => Pr::Fail { at: q },
    }
}

/// Further `::`-joined segments of a qualified identifier. Stops, without
/// consuming the join, where no identifier follows it.
pub open spec fn spec_qual_more(s: Seq<char>, p: int, acc: Seq<Seq<char>>) -> (int, Seq<
    Seq<char>,
>)
    decreases s.len() - p,
{
    if p + 2 <= s.len() && s[p] == ':' && s[p + 1] == ':' {
        match spec_raw_ident(s, p + 2) {
            Pr::Parsed { next: r, val: seg } => {
                if r > p + 2 && r <= s.len() {
                    spec_qual_more(s, r, acc.push(seg))
                } else {
                    (p, acc)
                }
            },
            _ => (p, acc),
        }
    } else {
        (p, acc)
    }
}

// ---------------------------------------------------------------------------
// Expressions. The mutually recursive functions below measure termination
// by the remaining input first and a fixed grammar rank second; progress
// guards on positions make the measure self-evident.
// ---------------------------------------------------------------------------
/// The infix operator tokens, tried in this order. A token that is a
/// prefix of a later one shadows it: `<` wins over `<=`, `>` over
/// `>=`.
pub open spec fn spec_infix_op(s: Seq<char>, p: int) -> Pr<BinaryOp> {
    if 0 <= p && p < s.len() {
        let c = s[p];
        if c == '+' {
            Pr::Parsed { next: p + 1, val: BinaryOp::Add }
        } else if c == '-' {
            Pr::Parsed { next: p + 1, val: BinaryOp::Subtract }
        } else if c == '*' {
            Pr::Parsed { next: p + 1, val: BinaryOp::Multiply }
        } else if c == '/' {
            Pr::Parsed { next: p + 1, val: BinaryOp::Divide }
        } else if c == '=' && p + 1 < s.len() && s[p + 1] == '=' {
            Pr::Parsed { next: p + 2, val: BinaryOp::Eq }
        } else if c == '!' && p + 1 < s.len() && s[p + 1] == '=' {
            Pr::Parsed { next: p + 2, val: BinaryOp::Ne }
        } else if c == '<' {
            Pr::Parsed { next: p + 1, val: BinaryOp::Lt }
        } else if c == '>' {
            Pr::Parsed { next: p + 1, val: BinaryOp::Gt }
        } else {
            Pr::Fail { at: p }
        }
    } else {
        Pr::Fail { at: p }
    }
}

/// An infix expression: a variable-shaped operand, an operator, a second
/// operand; whitespace accepted around each part and consumed after the
/// whole. Operands are deliberately restricted, so infix expressions do
/// not nest.
pub open spec fn spec_infix(s: Seq<char>, p: int) -> Pr<ExprV> {
    let q0 = spec_skip_ws(s, p);
    match spec_variable(s, q0) {
        Pr::Parsed { next: n1, val: left } => {
            let q1 = spec_skip_ws(s, n1);
            match spec_infix_op(s, q1) {
                Pr::Parsed { next: n2, val: op } => {
                    let q2 = spec_skip_ws(s, n2);
                    match spec_variable(s, q2) {
                        Pr::Parsed { next: n3, val: right } => Pr::Parsed {
                            next: spec_skip_ws(s, n3),
                            val: ExprV::Infix(Box::new(left), op, Box::new(right)),
                        },
                        _ => Pr::Fail { at: q2 },
                    }
                },
                _ => Pr::Fail { at: q1 },
            }
        },
        _ => Pr::Fail { at: q0 },
    }
}

/// An array literal: `[`, comma-separated expressions (whitespace allowed
/// around the commas), `]`.
pub open spec fn spec_array(s: Seq<char>, p: int) -> Pr<ExprV>
    decreases s.len() - p, 1int,
{
    if 0 <= p && p < s.len() && s[p] == '[' {
        match spec_expr_list(s, p + 1) {
            Pr::Parsed { next: q, val: es } => {
                if 0 <= q && q < s.len() && s[q] == ']' {
                    Pr::Parsed { next: q + 1, val: ExprV::Array(es) }
                } else {
                    Pr::Fail { at: q }
                }
            },
            Pr::Fail { at } => Pr::Fail { at },
            Pr::Halt { at } => Pr::Halt { at },
        }
    } else {
        Pr::Fail { at: p }
    }
}

/// Array indexing: an identifier or qualified identifier immediately
/// followed by a bracketed index expression.
pub open spec fn spec_array_indexing(s: Seq<char>, p: int) -> Pr<ExprV>
    decreases s.len() - p, 2int,
{
    let base = match spec_qualified(s, p) {
        Pr::Parsed { next, val } => Pr::<ExprV>::Parsed { next, val: ExprV::QualifiedIdent(val) },
        _ => match spec_ident(s, p) {
            Pr::Parsed { next, val } => Pr::Parsed { next, val: ExprV::Ident(val) },
            _ => Pr::Fail { at: p },
        },
    };
    match base {
        Pr::Parsed { next: b, val: bv } => {
            if 0 <= b && b < s.len() && s[b] == '[' && b + 1 > p {
                match spec_expression(s, b + 1) {
                    Pr::Parsed { next: q, val: idx } => {
                        if 0 <= q && q < s.len() && s[q] == ']' {
                            Pr::Parsed {
                                next: q + 1,
                                val: ExprV::ArrayIndexing(Box::new(bv), Box::new(idx)),
                            }
                        } else {
                            Pr::Fail { at: q }
                        }
                    },
                    Pr::Fail { at } => Pr::Fail { at },
                    Pr::Halt { at } => Pr::Halt { at },
                }
            } else {
                Pr::Fail { at: b }
            }
        },
        _ => Pr::Fail { at: p },
    }
}

/// A primary expression: the alternatives tried in grammar order.
pub open spec fn spec_primary(s: Seq<char>, p: int) -> Pr<ExprV>
    decreases s.len() - p, 3int,
{
    match spec_array_indexing(s, p) {
        Pr::Parsed { next, val } => Pr::Parsed { next, val },
        Pr::Halt { at } => Pr::Halt { at },
        Pr::Fail { .. } => match spec_qualified(s, p) {
            Pr::Parsed { next, val } => Pr::Parsed { next, val: ExprV::QualifiedIdent(val) },
            _ => match spec_ident(s, p) {
                Pr::Parsed { next, val } => Pr::Parsed { next, val: ExprV::Ident(val) },
                _ => match spec_array(s, p) {
                    Pr::Parsed { next, val } => Pr::Parsed { next, val },
                    Pr::Halt { at } => Pr::Halt { at },
                    Pr::Fail { .. } => match spec_number(s, p) {
                        Pr::Parsed { next, val } => Pr::Parsed { next, val },
                        _ => match spec_string(s, p) {
                            Pr::Parsed { next, val } => Pr::Parsed { next, val },
                            _ => match spec_char_lit(s, p) {
                                Pr::Parsed { next, val } => Pr::Parsed { next, val },
                                _ => spec_paren_expr(s, p),
                            },
                        },
                    },
                },
            },
        },
    }
}

/// A parenthesized expression.
pub open spec fn spec_paren_expr(s: Seq<char>, p: int) -> Pr<ExprV>
    decreases s.len() - p, 2int,
{
    if 0 <= p && p < s.len() && s[p] == '(' {
        match spec_expression(s, p + 1) {
            Pr::Parsed { next: q, val: e } => {
                if 0 <= q && q < s.len() && s[q] == ')' {
                    Pr::Parsed { next: q + 1, val: e }
                } else {
                    Pr::Fail { at: q }
                }
            },
            Pr::Fail { at } => Pr::Fail { at },
            Pr::Halt { at } => Pr::Halt { at },
        }
    } else {
        Pr::Fail { at: p }
    }
}

/// A function call: an identifier (whitespace around it accepted), then a
/// parenthesized comma-separated argument list.
pub open spec fn spec_call(s: Seq<char>, p: int) -> Pr<ExprV>
    decreases s.len() - p, 4int,
{
    match spec_ident(s, p) {
        Pr::Parsed { next: n1, val: name } => {
            let q = spec_skip_ws(s, n1);
            if 0 <= q && q < s.len() && s[q] == '(' && q + 1 > p {
                match spec_expr_list(s, q + 1) {
                    Pr::Parsed { next: q2, val: args } => {
                        if 0 <= q2 && q2 < s.len() && s[q2] == ')' {
                            Pr::Parsed { next: q2 + 1, val: ExprV::Call(name, args) }
                        } else {
                            Pr::Fail { at: q2 }
                        }
                    },
                    Pr::Fail { at } => Pr::Fail { at },
                    Pr::Halt { at } => Pr::Halt { at },
                }
            } else {
                Pr::Fail { at: q }
            }
        },
        _ => Pr::Fail { at: p },
    }
}

/// An expression: a function call, an infix expression or a primary
/// expression, tried in that order.
pub open spec fn spec_expression(s: Seq<char>, p: int) -> Pr<ExprV>
    decreases s.len() - p, 5int,
{
    match spec_call(s, p) {
        Pr::Parsed { next, val } => Pr::Parsed { next, val },
        Pr::Halt { at } => Pr::Halt { at },
        Pr::Fail { .. } => match spec_infix(s, p) {
            Pr::Parsed { next, val } => Pr::Parsed { next, val },
            _ => spec_primary(s, p),
        },
    }
}

/// A comma-separated expression list, possibly empty; whitespace accepted
/// around each comma. Stops before a comma that no expression follows.
pub open spec fn spec_expr_list(s: Seq<char>, p: int) -> Pr<Seq<ExprV>>
    decreases s.len() - p, 6int,
{
    match spec_expression(s, p) {
        Pr::Parsed { next: p1, val: e } => {
            if p1 > p && p1 <= s.len() {
                match spec_expr_list_more(s, p1) {
                    Pr::Parsed { next: pe, val: rest } => Pr::Parsed {
                        next: pe,
                        val: seq![e].add(rest),
                    },
                    Pr::Fail { at } => Pr::Fail { at },
                    Pr::Halt { at } => Pr::Halt { at },
                }
            } else {
                Pr::Parsed { next: p1, val: seq![e] }
            }
        },
        Pr::Halt { at } => Pr::Halt { at },
        Pr::Fail { .. } => Pr::Parsed { next: p, val: Seq::empty() },
    }
}

/// The tail of an expression list: `, expression` repeated. Stops,
/// without consuming the comma, where no expression follows it.
pub open spec fn spec_expr_list_more(s: Seq<char>, p: int) -> Pr<Seq<ExprV>>
    decreases s.len() - p, 7int,
{
    let q1 = spec_skip_ws(s, p);
    if 0 <= q1 && q1 < s.len() && s[q1] == ',' && q1 + 1 > p {
        let q2 = spec_skip_ws(s, q1 + 1);
        if q2 > p && q2 <= s.len() {
            match spec_expression(s, q2) {
                Pr::Parsed { next: p2, val: e } => {
                    if p2 > q2 && p2 <= s.len() {
                        match spec_expr_list_more(s, p2) {
                            Pr::Parsed { next: pe, val: rest } => Pr::Parsed {
                                next: pe,
                                val: seq![e].add(rest),
                            },
                            Pr::Fail { at } => Pr::Fail { at },
                            Pr::Halt { at } => Pr::Halt { at },
                        }
                    } else {
                        Pr::Parsed { next: p2, val: seq![e] }
                    }
                },
                Pr::Halt { at } => Pr::Halt { at },
                Pr::Fail { .. } => Pr::Parsed { next: p, val: Seq::empty() },
            }
        } else {
            Pr::Parsed { next: p, val: Seq::empty() }
        }
    } else {
        Pr::Parsed { next: p, val: Seq::empty() }
    }
}

// ---------------------------------------------------------------------------
// Statements.
// ---------------------------------------------------------------------------
/// The reserved name of the user's entry function after parsing, and the
/// source name it replaces.
pub open spec fn main_name() -> Seq<char> {
    "main"@
}

/// See [`main_name`].
pub open spec fn user_entry() -> Seq<char> {
    "_main"@
}

/// A `let` statement: `let name = expression ;`, whitespace accepted
/// between all parts.
pub open spec fn spec_let_stmt(s: Seq<char>, p: int) -> Pr<StmtV>
    decreases s.len() - p, 7int,
{
    let q = spec_skip_ws(s, p);
    if q + 3 <= s.len() && s[q] == 'l' && s[q + 1] == 'e' && s[q + 2] == 't' {
        match spec_ident(s, q + 3) {
            Pr::Parsed { next: n1, val: name } => {
                let n2 = spec_skip_ws(s, n1);
                if 0 <= n2 && n2 < s.len() && s[n2] == '=' {
                    let q3 = spec_skip_ws(s, n2 + 1);
                    if q3 > p {
                        match spec_expression(s, q3) {
                            Pr::Parsed { next: e1, val: e } => {
                                let e2 = spec_skip_ws(s, e1);
                                if 0 <= e2 && e2 < s.len() && s[e2] == ';' {
                                    Pr::Parsed {
                                        next: e2 + 1,
                                        val: StmtV::Assignment { ident: name, expr: e },
                                    }
                                } else {
                                    Pr::Fail { at: e2 }
                                }
                            },
                            Pr::Fail { at } => Pr::Fail { at },
                            Pr::Halt { at } => Pr::Halt { at },
                        }
                    } else {
                        Pr::Fail { at: q3 }
                    }
                } else {
                    Pr::Fail { at: n2 }
                }
            },
            _ => Pr::Fail { at: q + 3 },
        }
    } else {
        Pr::Fail { at: q }
    }
}

/// A `return` statement: `return expression ;`. The keyword itself takes
/// no leading whitespace; callers strip it.
pub open spec fn spec_return_stmt(s: Seq<char>, p: int) -> Pr<StmtV>
    decreases s.len() - p, 7int,
{
    if p + 6 <= s.len() && s[p] == 'r' && s[p + 1] == 'e' && s[p + 2] == 't' && s[p + 3] == 'u'
        && s[p + 4] == 'r' && s[p + 5] == 'n' {
        let q = spec_skip_ws(s, p + 6);
        if q > p {
            match spec_expression(s, q) {
                Pr::Parsed { next: e1, val: e } => {
                    let e2 = spec_skip_ws(s, e1);
                    if 0 <= e2 && e2 < s.len() && s[e2] == ';' {
                        Pr::Parsed { next: e2 + 1, val: StmtV::Return(e) }
                    } else {
                        Pr::Fail { at: e2 }
                    }
                },
                Pr::Fail { at } => Pr::Fail { at },
                Pr::Halt { at } => Pr::Halt { at },
            }
        } else {
            Pr::Fail { at: q }
        }
    } else {
        Pr::Fail { at: p }
    }
}

/// A bare expression statement; a trailing semicolon and the whitespace
/// after it belong to the statement.
pub open spec fn spec_expr_stmt(s: Seq<char>, p: int) -> Pr<StmtV>
    decreases s.len() - p, 7int,
{
    match spec_expression(s, p) {
        Pr::Parsed { next: e1, val: e } => {
            if 0 <= e1 && e1 < s.len() && s[e1] == ';' {
                Pr::Parsed { next: spec_skip_ws(s, e1 + 1), val: StmtV::Expression(e) }
            } else {
                Pr::Parsed { next: e1, val: StmtV::Expression(e) }
            }
        },
        Pr::Fail { at } => Pr::Fail { at },
        Pr::Halt { at } => Pr::Halt { at },
    }
}

/// A parameter list: `(`, comma-separated identifiers, `)`, with
/// whitespace accepted around the list, the commas and before each name.
pub open spec fn spec_params(s: Seq<char>, p: int) -> Pr<Seq<Seq<char>>> {
    let q0 = spec_skip_ws(s, p);
    if 0 <= q0 && q0 < s.len() && s[q0] == '(' {
        let (q1, names) = match spec_ident(s, q0 + 1) {
            Pr::Parsed { next: n1, val: name } => {
                if n1 > q0 + 1 {
                    spec_params_more(s, n1, seq![name])
                } else {
                    (n1, seq![name])
                }
            },
            _ => (q0 + 1, Seq::empty()),
        };
        if 0 <= q1 && q1 < s.len() && s[q1] == ')' {
            Pr::Parsed { next: spec_skip_ws(s, q1 + 1), val: names }
        } else {
            Pr::Fail { at: q1 }
        }
    } else {
        Pr::Fail { at: q0 }
    }
}

/// The tail of a parameter list. Stops, without consuming the comma,
/// where no identifier follows it.
pub open spec fn spec_params_more(s: Seq<char>, p: int, acc: Seq<Seq<char>>) -> (int, Seq<
    Seq<char>,
>)
    decreases s.len() - p,
{
    let q = spec_skip_ws(s, p);
    if 0 <= q && q < s.len() && s[q] == ',' && q + 1 > p {
        match spec_ident(s, q + 1) {
            Pr::Parsed { next: n, val: name } => {
                if n > q + 1 && n <= s.len() {
                    spec_params_more(s, n, acc.push(name))
                } else {
                    (n, acc.push(name))
                }
            },
            _ => (p, acc),
        }
    } else {
        (p, acc)
    }
}

/// A function declaration: `fn name(params) { body }`. A declaration
/// named `main` with parameters halts the parse; one named `main`
/// without parameters is stored under the reserved user-entry name.
pub open spec fn spec_function_declaration(s: Seq<char>, p: int) -> Pr<StmtV>
    decreases s.len() - p, 7int,
{
    let q = spec_skip_ws(s, p);
    if q + 2 <= s.len() && s[q] == 'f' && s[q + 1] == 'n' {
        match spec_ident(s, q + 2) {
            Pr::Parsed { next: n1, val: name } => {
                let n2 = spec_skip_ws(s, n1);
                match spec_params(s, n2) {
                    Pr::Parsed { next: pp, val: params } => {
                        if name == main_name() && params.len() > 0 {
                            Pr::Halt { at: pp }
                        } else {
                            let q3 = spec_skip_ws(s, pp);
                            if 0 <= q3 && q3 < s.len() && s[q3] == '{' && q3 >= p {
                                match spec_body_stmts(s, q3 + 1) {
                                    Pr::Parsed { next: pb, val: body } => {
                                        let pb2 = if 0 <= pb && pb < s.len() && s[pb] == ';' {
                                            pb + 1
                                        } else {
                                            pb
                                        };
                                        let q4 = spec_skip_ws(s, pb2);
                                        if 0 <= q4 && q4 < s.len() && s[q4] == '}' {
                                            Pr::Parsed {
                                                next: q4 + 1,
                                                val: StmtV::FunctionDeclaration {
                                                    ident: if name == main_name() {
                                                        user_entry()
                                                    } else {
                                                        name
                                                    },
                                                    params,
                                                    body,
                                                },
                                            }
                                        } else {
                                            Pr::Fail { at: q4 }
                                        }
                                    },
                                    Pr::Fail { at } => Pr::Fail { at },
                                    Pr::Halt { at } => Pr::Halt { at },
                                }
                            } else {
                                Pr::Fail { at: q3 }
                            }
                        }
                    },
                    Pr::Fail { at } => Pr::Fail { at },
                    Pr::Halt { at } => Pr::Halt { at },
                }
            },
            _ => Pr::Fail { at: q + 2 },
        }
    } else {
        Pr::Fail { at: q }
    }
}

/// A statement: a function declaration, a `return`, a `let` or a bare
/// expression, tried in that order. A halting failure aborts the
/// alternatives.
pub open spec fn spec_statement(s: Seq<char>, p: int) -> Pr<StmtV>
    decreases s.len() - p, 8int,
{
    match spec_function_declaration(s, p) {
        Pr::Parsed { next, val } => Pr::Parsed { next, val },
        Pr::Halt { at } => Pr::Halt { at },
        Pr::Fail { .. } => match spec_return_stmt(s, p) {
            Pr::Parsed { next, val } => Pr::Parsed { next, val },
            Pr::Halt { at } => Pr::Halt { at },
            Pr::Fail { .. } => match spec_let_stmt(s, p) {
                Pr::Parsed { next, val } => Pr::Parsed { next, val },
                Pr::Halt { at } => Pr::Halt { at },
                Pr::Fail { .. } => spec_expr_stmt(s, p),
            },
        },
    }
}

/// The statements of a `{ }` block: whitespace, then a statement,
/// repeated. Where no further statement parses, the position stands
/// right after the last statement parsed.
pub open spec fn spec_body_stmts(s: Seq<char>, p: int) -> Pr<Seq<StmtV>>
    decreases s.len() - p, 9int,
{
    let q = spec_skip_ws(s, p);
    if p <= q && q <= s.len() {
        match spec_statement(s, q) {
            Pr::Halt { at } => Pr::Halt { at },
            Pr::Fail { .. } => Pr::Parsed { next: p, val: Seq::empty() },
            Pr::Parsed { next: p1, val: st } => {
                if p1 > q && p1 <= s.len() {
                    match spec_body_stmts(s, p1) {
                        Pr::Halt { at } => Pr::Halt { at },
                        Pr::Parsed { next: pe, val: rest } => Pr::Parsed {
                            next: pe,
                            val: seq![st].add(rest),
                        },
                        Pr::Fail { at } => Pr::Fail { at },
                    }
                } else {
                    Pr::Parsed { next: p, val: Seq::empty() }
                }
            },
        }
    } else {
        Pr::Parsed { next: p, val: Seq::empty() }
    }
}

// ---------------------------------------------------------------------------
// Programs.
// ---------------------------------------------------------------------------
/// The top-level statement list: statements separated by runs of
/// whitespace and semicolons. Where no further statement parses, the
/// position stands before the separator run.
pub open spec fn spec_program_list(s: Seq<char>, p: int) -> Pr<Seq<StmtV>>
    decreases s.len() - p, 10int,
{
    match spec_statement(s, p) {
        Pr::Halt { at } => Pr::Halt { at },
        Pr::Fail { .. } => Pr::Parsed { next: p, val: Seq::empty() },
        Pr::Parsed { next: p1, val: st } => {
            if p1 > p {
                match spec_program_tail(s, p1) {
                    Pr::Halt { at } => Pr::Halt { at },
                    Pr::Parsed { next: pe, val: rest } => Pr::Parsed {
                        next: pe,
                        val: seq![st].add(rest),
                    },
                    Pr::Fail { at } => Pr::Fail { at },
                }
            } else {
                Pr::Parsed { next: p1, val: seq![st] }
            }
        },
    }
}

/// The tail of the top-level statement list: a delimiter run, then a
/// statement, repeated. Stops, without consuming the delimiter, where no
/// statement follows it.
pub open spec fn spec_program_tail(s: Seq<char>, p: int) -> Pr<Seq<StmtV>>
    decreases s.len() - p, 11int,
{
    let d = spec_delim_end(s, p);
    if d > p && d <= s.len() {
        match spec_statement(s, d) {
            Pr::Halt { at } => Pr::Halt { at },
            Pr::Fail { .. } => Pr::Parsed { next: p, val: Seq::empty() },
            Pr::Parsed { next: p2, val: st } => {
                if p2 > d && p2 <= s.len() {
                    match spec_program_tail(s, p2) {
                        Pr::Halt { at } => Pr::Halt { at },
                        Pr::Parsed { next: pe, val: rest } => Pr::Parsed {
                            next: pe,
                            val: seq![st].add(rest),
                        },
                        Pr::Fail { at } => Pr::Fail { at },
                    }
                } else {
                    Pr::Parsed { next: p, val: Seq::empty() }
                }
            },
        }
    } else {
        Pr::Parsed { next: p, val: Seq::empty() }
    }
}

/// The view of a parse error: either the specific `main`-with-parameters
/// diagnostic or a generic unexpected-token error, each carrying the
/// remaining unconsumed input.
pub enum CustomErrorV {
    MainFunctionWithParams(Seq<char>),
    UnexpectedToken(Seq<char>),
}

/// What parsing a whole source text yields: the statement list, if the
/// text is a sequence of statements separated by whitespace or
/// semicolons and nothing else remains; otherwise a parse error carrying
/// the remaining input.
pub open spec fn spec_parse_program(s: Seq<char>) -> Result<Seq<StmtV>, CustomErrorV> {
    match spec_program_list(s, 0) {
        Pr::Halt { at } => Result::Err(
            CustomErrorV::MainFunctionWithParams(s.subrange(at, s.len() as int)),
        ),
        Pr::Parsed { next: p, val: stmts } => {
            let q = spec_delim_end(s, p);
            if q == s.len() {
                Result::Ok(stmts)
            } else {
                Result::Err(CustomErrorV::UnexpectedToken(s.subrange(q, s.len() as int)))
            }
        },
        Pr::Fail { at } => Result::Err(
            CustomErrorV::UnexpectedToken(s.subrange(at, s.len() as int)),
        ),
    }
}

} // verus!
