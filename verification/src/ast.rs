//! The abstract syntax tree shared by the parser, the code generator and the
//! interpreter, together with its mathematical view.

use vstd::prelude::*;

verus! {

/// An infix operator token of the grammar. Only the four arithmetic
/// operators are implemented by the code generator; the comparison
/// operators are recognized lexically and rejected at lowering time.
#[derive(Debug, Clone, Copy, PartialEq, Eq, Structural)]
pub enum BinaryOp {
    Add,
    Subtract,
    Multiply,
    Divide,
    Eq,
    Ne,
    Lt,
    Gt,
    Le,
    Ge,
}

/// An expression node.
#[derive(Debug, PartialEq)]
pub enum Expr {
    Num(i32),
    Call(String, Vec<Expr>),
    Str(String),
    Ident(String),
    QualifiedIdent(Vec<String>),
    Char(char),
    Infix(Box<Expr>, BinaryOp, Box<Expr>),
    Array(Vec<Expr>),
    ArrayIndexing(Box<Expr>, Box<Expr>),
}

/// A statement node.
#[derive(Debug, PartialEq)]
pub enum Stmt {
    FunctionDeclaration { ident: String, params: Vec<String>, body: Vec<Stmt> },
    Assignment { ident: String, expr: Expr },
    Expression(Expr),
    Return(Expr),
}

/// The mathematical image of an [`Expr`]: strings become character
/// sequences, vectors become sequences.
pub enum ExprV {
    Num(i32),
    Call(Seq<char>, Seq<ExprV>),
    Str(Seq<char>),
    Ident(Seq<char>),
    QualifiedIdent(Seq<Seq<char>>),
    Char(char),
    Infix(Box<ExprV>, BinaryOp, Box<ExprV>),
    Array(Seq<ExprV>),
    ArrayIndexing(Box<ExprV>, Box<ExprV>),
}

/// The mathematical image of a [`Stmt`].
pub enum StmtV {
    FunctionDeclaration { ident: Seq<char>, params: Seq<Seq<char>>, body: Seq<StmtV> },
    Assignment { ident: Seq<char>, expr: ExprV },
    Expression(ExprV),
    Return(ExprV),
}

pub open spec fn exprs_view(es: Seq<Expr>) -> Seq<ExprV>
    decreases es,
{
    if es.len() == 0 {
        Seq::empty()
    } else {
        exprs_view(es.drop_last()).push(expr_view(es.last()))
    }
}

pub open spec fn expr_view(e: Expr) -> ExprV
    decreases e,
{
    match e {
        Expr::Num(n) => ExprV::Num(n),
        Expr::Call(name, args) => ExprV::Call(name@, exprs_view(args@)),
        Expr::Str(s) => ExprV::Str(s@),
        Expr::Ident(s) => ExprV::Ident(s@),
        Expr::QualifiedIdent(segs) => ExprV::QualifiedIdent(segs@.map_values(|s: String| s@)),
        Expr::Char(c) => ExprV::Char(c),
        Expr::Infix(l, op, r) => ExprV::Infix(Box::new(expr_view(*l)), op, Box::new(expr_view(*r))),
        Expr::Array(es) => ExprV::Array(exprs_view(es@)),
        Expr::ArrayIndexing(a, i) => ExprV::ArrayIndexing(
            Box::new(expr_view(*a)),
            Box::new(expr_view(*i)),
        ),
    }
}

pub open spec fn stmts_view(ss: Seq<Stmt>) -> Seq<StmtV>
    decreases ss,
{
    if ss.len() == 0 {
        Seq::empty()
    } else {
        stmts_view(ss.drop_last()).push(stmt_view(ss.last()))
    }
}

pub open spec fn stmt_view(s: Stmt) -> StmtV
    decreases s,
{
    match s {
        Stmt::FunctionDeclaration { ident, params, body } => StmtV::FunctionDeclaration {
            ident: ident@,
            params: params@.map_values(|p: String| p@),
            body: stmts_view(body@),
        },
        Stmt::Assignment { ident, expr } => StmtV::Assignment {
            ident: ident@,
            expr: expr_view(expr),
        },
        Stmt::Expression(e) => StmtV::Expression(expr_view(e)),
        Stmt::Return(e) => StmtV::Return(expr_view(e)),
    }
}

impl View for Expr {
    type V = ExprV;

    open spec fn view(&self) -> ExprV {
        expr_view(*self)
    }
}

impl View for Stmt {
    type V = StmtV;

    open spec fn view(&self) -> StmtV {
        stmt_view(*self)
    }
}

/// `exprs_view` distributes over prepending one element.
pub proof fn lemma_exprs_view_cons(e: Expr, t: Seq<Expr>)
    ensures
        exprs_view(seq![e].add(t)) == seq![expr_view(e)].add(exprs_view(t)),
{
    let u = seq![e].add(t);
    lemma_exprs_view(u);
    lemma_exprs_view(t);
    assert forall|i: int| 0 <= i < u.len() implies exprs_view(u)[i] == seq![expr_view(e)].add(
        exprs_view(t),
    )[i] by {
        if i > 0 {
            assert(u[i] == t[i - 1]);
        }
    }
    assert(exprs_view(u) =~= seq![expr_view(e)].add(exprs_view(t)));
}

/// `stmts_view` distributes over prepending one element.
pub proof fn lemma_stmts_view_cons(st: Stmt, t: Seq<Stmt>)
    ensures
        stmts_view(seq![st].add(t)) == seq![stmt_view(st)].add(stmts_view(t)),
{
    let u = seq![st].add(t);
    lemma_stmts_view(u);
    lemma_stmts_view(t);
    assert forall|i: int| 0 <= i < u.len() implies stmts_view(u)[i] == seq![stmt_view(st)].add(
        stmts_view(t),
    )[i] by {
        if i > 0 {
            assert(u[i] == t[i - 1]);
        }
    }
    assert(stmts_view(u) =~= seq![stmt_view(st)].add(stmts_view(t)));
}

/// The view of a character literal, spelled out for use from other
/// modules.
pub proof fn lemma_char_view(c: char)
    ensures
        expr_view(Expr::Char(c)) == ExprV::Char(c),
{
}

/// `exprs_view` is the element-wise image of `expr_view`.
pub proof fn lemma_exprs_view(es: Seq<Expr>)
    ensures
        exprs_view(es).len() == es.len(),
        forall|i: int| 0 <= i < es.len() ==> exprs_view(es)[i] == expr_view(#[trigger] es[i]),
    decreases es,
{
    if es.len() > 0 {
        lemma_exprs_view(es.drop_last());
        assert forall|i: int| 0 <= i < es.len() implies exprs_view(es)[i] == expr_view(
            #[trigger] es[i],
        ) by {
            if i < es.len() - 1 {
                assert(es.drop_last()[i] == es[i]);
                assert(exprs_view(es.drop_last())[i] == expr_view(es.drop_last()[i]));
            }
        }
    }
}

fn clone_exprs(es: &Vec<Expr>) -> (r: Vec<Expr>)
    ensures
        exprs_view(r@) == exprs_view(es@),
        r@.len() == es@.len(),
    decreases es@,
{
    let mut out: Vec<Expr> = Vec::new();
    let mut i: usize = 0;
    while i < es.len()
        invariant
            i <= es@.len(),
            out@.len() == i,
            forall|j: int| 0 <= j < i ==> expr_view(#[trigger] out@[j]) == expr_view(es@[j]),
        decreases es@.len() - i,
    {
        out.push(es[i].clone());
        i = i + 1;
    }
    proof {
        lemma_exprs_view(out@);
        lemma_exprs_view(es@);
        assert forall|j: int| 0 <= j < es@.len() implies exprs_view(out@)[j] == exprs_view(
            es@,
        )[j] by {
            assert(expr_view(out@[j]) == expr_view(es@[j]));
        }
        assert(exprs_view(out@) =~= exprs_view(es@));
    }
    out
}

fn clone_stmts(ss: &Vec<Stmt>) -> (r: Vec<Stmt>)
    ensures
        stmts_view(r@) == stmts_view(ss@),
        r@.len() == ss@.len(),
    decreases ss@,
{
    let mut out: Vec<Stmt> = Vec::new();
    let mut i: usize = 0;
    while i < ss.len()
        invariant
            i <= ss@.len(),
            out@.len() == i,
            forall|j: int| 0 <= j < i ==> stmt_view(#[trigger] out@[j]) == stmt_view(ss@[j]),
        decreases ss@.len() - i,
    {
        out.push(ss[i].clone());
        i = i + 1;
    }
    proof {
        lemma_stmts_view(out@);
        lemma_stmts_view(ss@);
        assert forall|j: int| 0 <= j < ss@.len() implies stmts_view(out@)[j] == stmts_view(
            ss@,
        )[j] by {
            assert(stmt_view(out@[j]) == stmt_view(ss@[j]));
        }
        assert(stmts_view(out@) =~= stmts_view(ss@));
    }
    out
}

fn clone_strings(ss: &Vec<String>) -> (r: Vec<String>)
    ensures
        r@.map_values(|s: String| s@) == ss@.map_values(|s: String| s@),
        r@.len() == ss@.len(),
{
    let mut out: Vec<String> = Vec::new();
    let mut i: usize = 0;
    while i < ss.len()
        invariant
            i <= ss@.len(),
            out@.len() == i,
            forall|j: int| 0 <= j < i ==> #[trigger] out@[j]@ == ss@[j]@,
        decreases ss@.len() - i,
    {
        out.push(ss[i].clone());
        i = i + 1;
    }
    proof {
        assert(out@.map_values(|s: String| s@) =~= ss@.map_values(|s: String| s@));
    }
    out
}

impl Clone for Expr {
    /// A deep copy: the clone has the same view as the original.
    fn clone(&self) -> (r: Expr)
        ensures
            r@ == self@,
        decreases *self,
    {
        match self {
            Expr::Num(n) => Expr::Num(*n),
            Expr::Call(name, args) => Expr::Call(name.clone(), clone_exprs(args)),
            Expr::Str(s) => Expr::Str(s.clone()),
            Expr::Ident(s) => Expr::Ident(s.clone()),
            Expr::QualifiedIdent(segs) => Expr::QualifiedIdent(clone_strings(segs)),
            Expr::Char(c) => Expr::Char(*c),
            Expr::Infix(l, op, rr) => Expr::Infix(
                Box::new((**l).clone()),
                *op,
                Box::new((**rr).clone()),
            ),
            Expr::Array(es) => Expr::Array(clone_exprs(es)),
            Expr::ArrayIndexing(a, i) => Expr::ArrayIndexing(
                Box::new((**a).clone()),
                Box::new((**i).clone()),
            ),
        }
    }
}

impl Clone for Stmt {
    /// A deep copy: the clone has the same view as the original.
    fn clone(&self) -> (r: Stmt)
        ensures
            r@ == self@,
        decreases *self,
    {
        match self {
            Stmt::FunctionDeclaration { ident, params, body } => Stmt::FunctionDeclaration {
                ident: ident.clone(),
                params: clone_strings(params),
                body: clone_stmts(body),
            },
            Stmt::Assignment { ident, expr } => Stmt::Assignment {
                ident: ident.clone(),
                expr: expr.clone(),
            },
            Stmt::Expression(e) => Stmt::Expression(e.clone()),
            Stmt::Return(e) => Stmt::Return(e.clone()),
        }
    }
}

/// `stmts_view` is the element-wise image of `stmt_view`.
pub proof fn lemma_stmts_view(ss: Seq<Stmt>)
    ensures
        stmts_view(ss).len() == ss.len(),
        forall|i: int| 0 <= i < ss.len() ==> stmts_view(ss)[i] == stmt_view(#[trigger] ss[i]),
    decreases ss,
{
    if ss.len() > 0 {
        lemma_stmts_view(ss.drop_last());
        assert forall|i: int| 0 <= i < ss.len() implies stmts_view(ss)[i] == stmt_view(
            #[trigger] ss[i],
        ) by {
            if i < ss.len() - 1 {
                assert(ss.drop_last()[i] == ss[i]);
                assert(stmts_view(ss.drop_last())[i] == stmt_view(ss.drop_last()[i]));
            }
        }
    }
}

} // verus!
