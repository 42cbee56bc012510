//! The interpreter: direct evaluation of the syntax tree against a
//! symbol table. Its behaviour is defined once by the specification
//! functions here, which every method is proved to follow.
//!
//! Evaluation carries an explicit recursion budget, spent one unit per
//! evaluation step; a program deep enough to exhaust it reports an
//! error instead of overflowing the stack.

use vstd::prelude::*;

use crate::ast::{
    exprs_view, lemma_exprs_view, lemma_stmts_view, stmts_view, BinaryOp, Expr, ExprV, Stmt,
    StmtV,
};
use crate::text::str_eq;

verus! {

/// A runtime value.
#[derive(Debug, PartialEq)]
pub enum Value {
    Number(i32),
    Str(String),
    Char(char),
    Function(Vec<String>, Vec<Stmt>),
    Return(Box<Value>),
    Array(Vec<Value>),
    Nothing,
}

/// The view of a [`Value`].
pub enum ValueV {
    Number(i32),
    Str(Seq<char>),
    Char(char),
    Function(Seq<Seq<char>>, Seq<StmtV>),
    Return(Box<ValueV>),
    Array(Seq<ValueV>),
    Nothing,
}

pub open spec fn values_view(vs: Seq<Value>) -> Seq<ValueV>
    decreases vs,
{
    if vs.len() == 0 {
        Seq::empty()
    } else {
        values_view(vs.drop_last()).push(value_view(vs.last()))
    }
}

pub open spec fn value_view(v: Value) -> ValueV
    decreases v,
{
    match v {
        Value::Number(n) => ValueV::Number(n),
        Value::Str(s) => ValueV::Str(s@),
        Value::Char(c) => ValueV::Char(c),
        Value::Function(ps, body) => ValueV::Function(
            ps@.map_values(|p: String| p@),
            stmts_view(body@),
        ),
        Value::Return(b) => ValueV::Return(Box::new(value_view(*b))),
        Value::Array(vs) => ValueV::Array(values_view(vs@)),
        Value::Nothing => ValueV::Nothing,
    }
}

impl View for Value {
    type V = ValueV;

    open spec fn view(&self) -> ValueV {
        value_view(*self)
    }
}

/// `values_view` is the element-wise image of `value_view`.
pub proof fn lemma_values_view(vs: Seq<Value>)
    ensures
        values_view(vs).len() == vs.len(),
        forall|i: int| 0 <= i < vs.len() ==> values_view(vs)[i] == value_view(#[trigger] vs[i]),
    decreases vs,
{
    if vs.len() > 0 {
        lemma_values_view(vs.drop_last());
        assert forall|i: int| 0 <= i < vs.len() implies values_view(vs)[i] == value_view(
            #[trigger] vs[i],
        ) by {
            if i < vs.len() - 1 {
                assert(vs.drop_last()[i] == vs[i]);
                assert(values_view(vs.drop_last())[i] == value_view(vs.drop_last()[i]));
            }
        }
    }
}

fn clone_values(vs: &Vec<Value>) -> (r: Vec<Value>)
    ensures
        values_view(r@) == values_view(vs@),
        r@.len() == vs@.len(),
    decreases vs@,
{
    let mut out: Vec<Value> = Vec::new();
    let mut i: usize = 0;
    while i < vs.len()
        invariant
            i <= vs@.len(),
            out@.len() == i,
            forall|j: int| 0 <= j < i ==> value_view(#[trigger] out@[j]) == value_view(vs@[j]),
        decreases vs@.len() - i,
    {
        out.push(vs[i].clone());
        i = i + 1;
    }
    proof {
        lemma_values_view(out@);
        lemma_values_view(vs@);
        assert forall|j: int| 0 <= j < vs@.len() implies values_view(out@)[j] == values_view(
            vs@,
        )[j] by {
            assert(value_view(out@[j]) == value_view(vs@[j]));
        }
        assert(values_view(out@) =~= values_view(vs@));
    }
    out
}

fn clone_strings(ss: &Vec<String>) -> (r: Vec<String>)
    ensures
        r@.map_values(|s: String| s@) == ss@.map_values(|s: String| s@),
{
    let mut out: Vec<String> = Vec::new();
    let mut i: usize = 0;
    while i < ss.len()
        invariant
            i <= ss@.len(),
            out@.len() == i,
            forall|j: int| 0 <= j < i ==> #[trigger] out@[j]@ == ss@[j]@,
        decreases ss@.len() - i,
    {
        out.push(ss[i].clone());
        i = i + 1;
    }
    proof {
        assert(out@.map_values(|s: String| s@) =~= ss@.map_values(|s: String| s@));
    }
    out
}

fn clone_stmts(ss: &Vec<Stmt>) -> (r: Vec<Stmt>)
    ensures
        stmts_view(r@) == stmts_view(ss@),
{
    let mut out: Vec<Stmt> = Vec::new();
    let mut i: usize = 0;
    while i < ss.len()
        invariant
            i <= ss@.len(),
            out@.len() == i,
            forall|j: int| 0 <= j < i ==> crate::ast::stmt_view(#[trigger] out@[j])
                == crate::ast::stmt_view(ss@[j]),
        decreases ss@.len() - i,
    {
        out.push(ss[i].clone());
        i = i + 1;
    }
    proof {
        lemma_stmts_view(out@);
        lemma_stmts_view(ss@);
        assert forall|j: int| 0 <= j < ss@.len() implies stmts_view(out@)[j] == stmts_view(
            ss@,
        )[j] by {
            assert(crate::ast::stmt_view(out@[j]) == crate::ast::stmt_view(ss@[j]));
        }
        assert(stmts_view(out@) =~= stmts_view(ss@));
    }
    out
}

impl Clone for Value {
    /// A deep copy: the clone has the same view.
    fn clone(&self) -> (r: Value)
        ensures
            r@ == self@,
        decreases *self,
    {
        match self {
            Value::Number(n) => Value::Number(*n),
            Value::Str(s) => Value::Str(s.clone()),
            Value::Char(c) => Value::Char(*c),
            Value::Function(ps, body) => Value::Function(clone_strings(ps), clone_stmts(body)),
            Value::Return(b) => Value::Return(Box::new((**b).clone())),
            Value::Array(vs) => Value::Array(clone_values(vs)),
            Value::Nothing => Value::Nothing,
        }
    }
}

impl Value {
    /// The value's kind, by name.
    pub fn kind_name(&self) -> (r: &'static str)
        ensures
            r@ == spec_kind_name(self@),
    {
        match self {
            Value::Number(_) => "number",
            Value::Str(_) => "string",
            Value::Char(_) => "char",
            Value::Function(..) => "function",
            Value::Return(_) => "return",
            Value::Array(_) => "array",
            Value::Nothing => "none",
        }
    }
}

/// The name of a value's kind.
pub open spec fn spec_kind_name(v: ValueV) -> Seq<char> {
    match v {
        ValueV::Number(_) => "number"@,
        ValueV::Str(_) => "string"@,
        ValueV::Char(_) => "char"@,
        ValueV::Function(..) => "function"@,
        ValueV::Return(_) => "return"@,
        ValueV::Array(_) => "array"@,
        ValueV::Nothing => "none"@,
    }
}

/// A runtime error; evaluation stops at the first one.
#[derive(Debug, PartialEq)]
pub enum RunError {
    UndefinedVariable(String),
    UndefinedFunction(String),
    NotAFunction(String),
    WrongArgumentCount(String, usize, usize),
    IndexOutOfBounds(i32),
    InvalidIndexing,
    InvalidOperation,
    UnexpectedOperator(BinaryOp),
    DivisionByZero,
    Unsupported,
    OutOfFuel,
}

/// The view of a [`RunError`].
pub enum RunErrorV {
    UndefinedVariable(Seq<char>),
    UndefinedFunction(Seq<char>),
    NotAFunction(Seq<char>),
    WrongArgumentCount(Seq<char>, usize, usize),
    IndexOutOfBounds(i32),
    InvalidIndexing,
    InvalidOperation,
    UnexpectedOperator(BinaryOp),
    DivisionByZero,
    Unsupported,
    OutOfFuel,
}

impl View for RunError {
    type V = RunErrorV;

    open spec fn view(&self) -> RunErrorV {
        match self {
            RunError::UndefinedVariable(n) => RunErrorV::UndefinedVariable(n@),
            RunError::UndefinedFunction(n) => RunErrorV::UndefinedFunction(n@),
            RunError::NotAFunction(n) => RunErrorV::NotAFunction(n@),
            RunError::WrongArgumentCount(n, a, b) => RunErrorV::WrongArgumentCount(n@, *a, *b),
            RunError::IndexOutOfBounds(i) => RunErrorV::IndexOutOfBounds(*i),
            RunError::InvalidIndexing => RunErrorV::InvalidIndexing,
            RunError::InvalidOperation => RunErrorV::InvalidOperation,
            RunError::UnexpectedOperator(op) => RunErrorV::UnexpectedOperator(*op),
            RunError::DivisionByZero => RunErrorV::DivisionByZero,
            RunError::Unsupported => RunErrorV::Unsupported,
            RunError::OutOfFuel => RunErrorV::OutOfFuel,
        }
    }
}

/// The symbol table's view: bindings in insertion order.
pub type EnvV = Seq<(Seq<char>, ValueV)>;

/// The index of the latest binding of `name`, or -1.
pub open spec fn env_index(env: EnvV, name: Seq<char>) -> int
    decreases env.len(),
{
    if env.len() == 0 {
        -1
    } else if env.last().0 == name {
        env.len() - 1
    } else {
        env_index(env.drop_last(), name)
    }
}

/// The value bound to `name`, if any.
pub open spec fn env_lookup(env: EnvV, name: Seq<char>) -> Option<ValueV> {
    let j = env_index(env, name);
    if j >= 0 {
        Some(env[j].1)
    } else {
        None
    }
}

/// Binds `name`: replaces its latest binding, or appends one.
pub open spec fn env_set(env: EnvV, name: Seq<char>, v: ValueV) -> EnvV {
    let j = env_index(env, name);
    if j >= 0 {
        env.update(j, (name, v))
    } else {
        env.push((name, v))
    }
}

/// The recursion budget evaluation starts with.
pub open spec fn default_fuel() -> nat {
    0x100000
}

/// One evaluation step's outcome: the new symbol table and the value,
/// or the error.
pub type EvalResult = Result<(EnvV, ValueV), RunErrorV>;

/// Evaluates one expression. Each step spends one unit of the
/// recursion budget.
pub open spec fn spec_visit_expr(env: EnvV, e: ExprV, fuel: nat) -> EvalResult
    decreases fuel,
{
    if fuel == 0 {
        Err(RunErrorV::OutOfFuel)
    } else {
        let f2 = (fuel - 1) as nat;
        match e {
            ExprV::Num(n) => Ok((env, ValueV::Number(n))),
            ExprV::Char(c) => Ok((env, ValueV::Char(c))),
            ExprV::Str(s) => Ok((env, ValueV::Str(s))),
            ExprV::Ident(name) => match env_lookup(env, name) {
                Some(v) => Ok((env, v)),
                None => Err(RunErrorV::UndefinedVariable(name)),
            },
            ExprV::QualifiedIdent(_) => Err(RunErrorV::Unsupported),
            ExprV::Array(es) => match spec_eval_list(env, es, f2) {
                Ok((env1, vs)) => Ok((env1, ValueV::Array(vs))),
                Err(er) => Err(er),
            },
            ExprV::ArrayIndexing(a, ix) => match spec_visit_expr(env, *a, f2) {
                Err(er) => Err(er),
                Ok((env1, av)) => match spec_visit_expr(env1, *ix, f2) {
                    Err(er) => Err(er),
                    Ok((env2, iv)) => match (av, iv) {
                        (ValueV::Array(vs), ValueV::Number(i)) => {
                            if 0 <= i < vs.len() {
                                Ok((env2, vs[i as int]))
                            } else {
                                Err(RunErrorV::IndexOutOfBounds(i))
                            }
                        },
                        _ => Err(RunErrorV::InvalidIndexing),
                    },
                },
            },
            ExprV::Infix(l, op, r) => match spec_visit_expr(env, *l, f2) {
                Err(er) => Err(er),
                Ok((env1, lv)) => match spec_visit_expr(env1, *r, f2) {
                    Err(er) => Err(er),
                    Ok((env2, rv)) => match (lv, rv) {
                        (ValueV::Number(a), ValueV::Number(b)) => {
                            if op == BinaryOp::Add {
                                Ok((env2, ValueV::Number(wrap_add(a as int, b as int))))
                            } else if op == BinaryOp::Subtract {
                                Ok((env2, ValueV::Number(wrap_add(a as int, -(b as int)))))
                            } else if op == BinaryOp::Multiply {
                                Ok((env2, ValueV::Number(wrap_mul(a as int, b as int))))
                            } else if op == BinaryOp::Divide {
                                if b == 0 {
                                    Err(RunErrorV::DivisionByZero)
                                } else {
                                    Ok((env2, ValueV::Number(div_i32(a, b))))
                                }
                            } else {
                                Err(RunErrorV::UnexpectedOperator(op))
                            }
                        },
                        (ValueV::Str(a), ValueV::Str(b)) => {
                            if op == BinaryOp::Add {
                                Ok((env2, ValueV::Str(a.add(b))))
                            } else {
                                Err(RunErrorV::UnexpectedOperator(op))
                            }
                        },
                        _ => Err(RunErrorV::InvalidOperation),
                    },
                },
            },
            ExprV::Call(name, args) => spec_call_function(env, name, args, f2),
        }
    }
}

/// Wrap-around 32-bit addition.
pub open spec fn wrap_add(a: int, b: int) -> i32 {
    (a + b) as i32
}

/// Wrap-around 32-bit multiplication.
pub open spec fn wrap_mul(a: int, b: int) -> i32 {
    (a * b) as i32
}

/// Truncating signed division, the division the machine performs: the
/// magnitudes' quotient, carrying the signs, with the one wrap-around
/// case of the smallest value divided by -1.
pub open spec fn div_i32(a: i32, b: i32) -> i32 {
    if a == i32::MIN && b == -1 {
        i32::MIN
    } else {
        let ua = if a < 0 {
            -(a as int)
        } else {
            a as int
        };
        let ub = if b < 0 {
            -(b as int)
        } else {
            b as int
        };
        let q = ua / ub;
        if (a < 0) != (b < 0) {
            (-q) as i32
        } else {
            q as i32
        }
    }
}

/// Evaluates expressions left to right.
pub open spec fn spec_eval_list(env: EnvV, es: Seq<ExprV>, fuel: nat) -> Result<
    (EnvV, Seq<ValueV>),
    RunErrorV,
>
    decreases fuel,
{
    if fuel == 0 {
        Err(RunErrorV::OutOfFuel)
    } else if es.len() == 0 {
        Ok((env, Seq::empty()))
    } else {
        match spec_visit_expr(env, es[0], (fuel - 1) as nat) {
            Err(er) => Err(er),
            Ok((env1, v)) => match spec_eval_list(env1, es.drop_first(), (fuel - 1) as nat) {
                Err(er) => Err(er),
                Ok((env2, rest)) => Ok((env2, seq![v].add(rest))),
            },
        }
    }
}

/// Calls a function: looks the callee up, checks the argument count,
/// binds parameters in a copy of the table, runs the body, restores the
/// table, and wraps the last value.
pub open spec fn spec_call_function(env: EnvV, name: Seq<char>, args: Seq<ExprV>, fuel: nat)
    -> EvalResult
    decreases fuel,
{
    if fuel == 0 {
        Err(RunErrorV::OutOfFuel)
    } else {
        let f2 = (fuel - 1) as nat;
        match env_lookup(env, name) {
            None => Err(RunErrorV::UndefinedFunction(name)),
            Some(ValueV::Function(params, body)) => {
                if params.len() != args.len() {
                    Err(
                        RunErrorV::WrongArgumentCount(
                            name,
                            params.len() as usize,
                            args.len() as usize,
                        ),
                    )
                } else {
                    match spec_eval_list(env, args, f2) {
                        Err(er) => Err(er),
                        Ok((env1, vals)) => {
                            let inner = spec_bind_args(env1, params, vals, 0);
                            match spec_exec_body(inner, body, ValueV::Number(0), f2) {
                                Err(er) => Err(er),
                                // The caller's table is restored: the
                                // callee's bindings do not escape.
                                Ok((_, last)) => Ok((env1, ValueV::Return(Box::new(last)))),
                            }
                        },
                    }
                }
            },
            Some(ValueV::Nothing) => Ok((env, ValueV::Nothing)),
            Some(_) => Err(RunErrorV::NotAFunction(name)),
        }
    }
}

/// Binds each parameter to the matching argument value.
pub open spec fn spec_bind_args(env: EnvV, params: Seq<Seq<char>>, vals: Seq<ValueV>, i: int)
    -> EnvV
    decreases params.len() - i,
{
    if i < 0 || i >= params.len() || i >= vals.len() {
        env
    } else {
        spec_bind_args(env_set(env, params[i], vals[i]), params, vals, i + 1)
    }
}

/// Runs a function body, keeping the last statement's value.
pub open spec fn spec_exec_body(env: EnvV, body: Seq<StmtV>, last: ValueV, fuel: nat) -> Result<
    (EnvV, ValueV),
    RunErrorV,
>
    decreases fuel,
{
    if fuel == 0 {
        Err(RunErrorV::OutOfFuel)
    } else if body.len() == 0 {
        Ok((env, last))
    } else {
        match spec_visit_stmt(env, body[0], (fuel - 1) as nat) {
            Err(er) => Err(er),
            Ok((env1, v)) => spec_exec_body(env1, body.drop_first(), v, (fuel - 1) as nat),
        }
    }
}

/// Evaluates one statement.
pub open spec fn spec_visit_stmt(env: EnvV, s: StmtV, fuel: nat) -> EvalResult
    decreases fuel,
{
    if fuel == 0 {
        Err(RunErrorV::OutOfFuel)
    } else {
        let f2 = (fuel - 1) as nat;
        match s {
            StmtV::Assignment { ident, expr } => match spec_visit_expr(env, expr, f2) {
                Err(er) => Err(er),
                Ok((env1, v)) => Ok((env_set(env1, ident, v), v)),
            },
            StmtV::Expression(expr) => spec_visit_expr(env, expr, f2),
            StmtV::Return(expr) => spec_visit_expr(env, expr, f2),
            StmtV::FunctionDeclaration { ident, params, body } => Ok(
                (env_set(env, ident, ValueV::Function(params, body)), ValueV::Nothing),
            ),
        }
    }
}

/// Runs a whole program, statement by statement, keeping the last
/// value.
pub open spec fn spec_interpret(env: EnvV, ss: Seq<StmtV>, fuel: nat) -> Result<
    (EnvV, ValueV),
    RunErrorV,
> {
    spec_exec_body(env, ss, ValueV::Nothing, fuel)
}

/// Each binding's line of a stack trace: `name: kind`.
pub open spec fn spec_stacktrace(env: EnvV, i: int) -> Seq<char>
    decreases env.len() - i,
{
    if i < 0 || i >= env.len() {
        Seq::empty()
    } else {
        env[i].0.add(": "@).add(spec_kind_name(env[i].1)).add("\n"@).add(
            spec_stacktrace(env, i + 1),
        )
    }
}

/// The budget the public evaluation entry points start with; see the
/// module documentation.
pub const EVAL_FUEL: u64 = 0x100000;

/// Wrap-around 32-bit multiplication.
fn mul_exec(a: i32, b: i32) -> (r: i32)
    ensures
        r == wrap_mul(a as int, b as int),
{
    proof {
        assert((a as int) * (b as int) <= 0x4000000000000000 && (a as int) * (b as int)
            >= -0x4000000000000000) by (nonlinear_arith)
            requires
                -0x80000000 <= a as int <= 0x7fffffff,
                -0x80000000 <= b as int <= 0x7fffffff,
        ;
    }
    #[verifier::truncate] ((a as i64 * b as i64) as i32)
}

/// Truncating signed division.
fn div_exec(a: i32, b: i32) -> (r: i32)
    requires
        b != 0,
    ensures
        r == div_i32(a, b),
{
    if a == i32::MIN && b == -1 {
        i32::MIN
    } else {
        let ua: u32 = if a < 0 {
            (-(a as i64)) as u32
        } else {
            a as u32
        };
        let ub: u32 = if b < 0 {
            (-(b as i64)) as u32
        } else {
            b as u32
        };
        let q: u32 = ua / ub;
        proof {
            vstd::arithmetic::div_mod::lemma_div_is_ordered_by_denominator(
                ua as int,
                1,
                ub as int,
            );
        }
        if (a < 0) != (b < 0) {
            (-(q as i64)) as i32
        } else {
            q as i32
        }
    }
}

/// The interpreter: a symbol table of bindings, evaluated against
/// directly.
pub struct Interpreter {
    symbol_table: Vec<(String, Value)>,
}

/// The view of the symbol table.
pub open spec fn env_view(f: Seq<(String, Value)>) -> EnvV {
    f.map_values(|p: (String, Value)| (p.0@, p.1@))
}

impl View for Interpreter {
    type V = EnvV;

    closed spec fn view(&self) -> EnvV {
        env_view(self.symbol_table@)
    }
}

impl Interpreter {
    /// A fresh interpreter with an empty symbol table.
    pub fn new() -> (r: Interpreter)
        ensures
            r@ == Seq::<(Seq<char>, ValueV)>::empty(),
    {
        let r = Interpreter { symbol_table: Vec::new() };
        proof {
            assert(r@ =~= Seq::<(Seq<char>, ValueV)>::empty());
        }
        r
    }

    /// The index of the latest binding of `name`, if any.
    fn env_find(&self, name: &str) -> (r: Option<usize>)
        ensures
            match r {
                Some(j) => env_index(self@, name@) == j as int && (j as int) < self@.len(),
                None => env_index(self@, name@) < 0,
            },
    {
        let ghost ev = self@;
        let mut j: usize = self.symbol_table.len();
        proof {
            assert(ev.subrange(0, ev.len() as int) =~= ev);
        }
        while j > 0
            invariant
                j <= ev.len(),
                ev == self@,
                ev.len() == self.symbol_table@.len(),
                env_index(ev, name@) == env_index(ev.subrange(0, j as int), name@),
            decreases j,
        {
            proof {
                assert(ev.subrange(0, j as int).last() == ev[j - 1]);
                assert(ev[j - 1].0 == self.symbol_table@[j - 1].0@);
            }
            if str_eq(self.symbol_table[j - 1].0.as_str(), name) {
                return Some(j - 1);
            }
            proof {
                assert(ev.subrange(0, j as int).drop_last() =~= ev.subrange(0, j - 1));
            }
            j = j - 1;
        }
        proof {
            assert(ev.subrange(0, 0) =~= Seq::<(Seq<char>, ValueV)>::empty());
        }
        None
    }

    /// The value bound to `name`, if any.
    fn lookup(&self, name: &str) -> (r: Option<Value>)
        ensures
            match r {
                Some(v) => env_lookup(self@, name@) == Some(v@),
                None => env_lookup(self@, name@) is None,
            },
    {
        match self.env_find(name) {
            Some(j) => {
                let v = self.symbol_table[j].1.clone();
                proof {
                    assert(self@[j as int].1 == self.symbol_table@[j as int].1@);
                }
                Some(v)
            },
            None => None,
        }
    }

    /// Binds `name`: replaces its latest binding, or appends one.
    fn set(&mut self, name: String, v: Value)
        ensures
            final(self)@ == env_set(old(self)@, name@, v@),
    {
        let ghost ev = self@;
        let ghost namev = name@;
        let ghost vv = v@;
        match self.env_find(name.as_str()) {
            Some(j) => {
                self.symbol_table[j] = (name, v);
                proof {
                    assert(final(self)@ =~~= ev.update(j as int, (namev, vv)));
                }
            },
            None => {
                self.symbol_table.push((name, v));
                proof {
                    assert(final(self)@ =~~= ev.push((namev, vv)));
                }
            },
        }
    }

    /// A copy of the symbol table, for the save/restore around calls.
    fn save_env(&self) -> (r: Vec<(String, Value)>)
        ensures
            env_view(r@) == self@,
    {
        let mut out: Vec<(String, Value)> = Vec::new();
        let mut i: usize = 0;
        while i < self.symbol_table.len()
            invariant
                i <= self.symbol_table@.len(),
                out@.len() == i,
                forall|j: int| 0 <= j < i ==> #[trigger] out@[j].0@
                    == self.symbol_table@[j].0@ && out@[j].1@ == self.symbol_table@[j].1@,
            decreases self.symbol_table@.len() - i,
        {
            let name = self.symbol_table[i].0.clone();
            let v = self.symbol_table[i].1.clone();
            out.push((name, v));
            i = i + 1;
        }
        proof {
            assert(env_view(out@) =~= env_view(self.symbol_table@));
        }
        out
    }

    /// Evaluates one expression with the given budget.
    fn visit_expr_fuel(&mut self, e: &Expr, fuel: u64) -> (r: Result<Value, RunError>)
        ensures
            match r {
                Ok(v) => spec_visit_expr(old(self)@, e@, fuel as nat) == EvalResult::Ok(
                    (final(self)@, v@),
                ),
                Err(er) => spec_visit_expr(old(self)@, e@, fuel as nat) == EvalResult::Err(
                    er@,
                ),
            },
        decreases fuel, 0int,
    {
        if fuel == 0 {
            return Err(RunError::OutOfFuel);
        }
        let f2 = fuel - 1;
        match e {
            Expr::Num(n) => Ok(Value::Number(*n)),
            Expr::Char(c) => Ok(Value::Char(*c)),
            Expr::Str(s) => Ok(Value::Str(s.clone())),
            Expr::Ident(name) => match self.lookup(name.as_str()) {
                Some(v) => Ok(v),
                None => Err(RunError::UndefinedVariable(name.clone())),
            },
            Expr::QualifiedIdent(_) => Err(RunError::Unsupported),
            Expr::Array(es) => {
                proof {
                    lemma_exprs_view(es@);
                }
                match self.eval_list_fuel(es, 0, f2) {
                    Ok(vs) => {
                        proof {
                            assert(exprs_view(es@).subrange(0, es@.len() as int) =~= exprs_view(
                                es@,
                            ));
                        }
                        Ok(Value::Array(vs))
                    },
                    Err(er) => {
                        proof {
                            assert(exprs_view(es@).subrange(0, es@.len() as int) =~= exprs_view(
                                es@,
                            ));
                        }
                        Err(er)
                    },
                }
            },
            Expr::ArrayIndexing(a, ix) => {
                let av = match self.visit_expr_fuel(&**a, f2) {
                    Ok(v) => v,
                    Err(er) => {
                        return Err(er);
                    },
                };
                let iv = match self.visit_expr_fuel(&**ix, f2) {
                    Ok(v) => v,
                    Err(er) => {
                        return Err(er);
                    },
                };
                match (av, iv) {
                    (Value::Array(vs), Value::Number(i)) => {
                        proof {
                            lemma_values_view(vs@);
                        }
                        if 0 <= i && (i as usize) < vs.len() {
                            Ok(vs[i as usize].clone())
                        } else {
                            Err(RunError::IndexOutOfBounds(i))
                        }
                    },
                    _ => Err(RunError::InvalidIndexing),
                }
            },
            Expr::Infix(l, op, rr) => {
                let lv = match self.visit_expr_fuel(&**l, f2) {
                    Ok(v) => v,
                    Err(er) => {
                        return Err(er);
                    },
                };
                let rv = match self.visit_expr_fuel(&**rr, f2) {
                    Ok(v) => v,
                    Err(er) => {
                        return Err(er);
                    },
                };
                match (lv, rv) {
                    (Value::Number(a), Value::Number(b)) => match op {
                        BinaryOp::Add => Ok(
                            Value::Number(
                                #[verifier::truncate] ((a as i64 + b as i64) as i32),
                            ),
                        ),
                        BinaryOp::Subtract => Ok(
                            Value::Number(
                                #[verifier::truncate] ((a as i64 - b as i64) as i32),
                            ),
                        ),
                        BinaryOp::Multiply => Ok(Value::Number(mul_exec(a, b))),
                        BinaryOp::Divide => {
                            if b == 0 {
                                Err(RunError::DivisionByZero)
                            } else {
                                Ok(Value::Number(div_exec(a, b)))
                            }
                        },
                        _ => Err(RunError::UnexpectedOperator(*op)),
                    },
                    (Value::Str(a), Value::Str(b)) => match op {
                        BinaryOp::Add => {
                            let mut s = a;
                            s.append(b.as_str());
                            Ok(Value::Str(s))
                        },
                        _ => Err(RunError::UnexpectedOperator(*op)),
                    },
                    _ => Err(RunError::InvalidOperation),
                }
            },
            Expr::Call(name, args) => self.call_function_fuel(name.as_str(), args, f2),
        }
    }

    /// Evaluates the expressions from position `from` on.
    fn eval_list_fuel(&mut self, es: &Vec<Expr>, from: usize, fuel: u64) -> (r: Result<
        Vec<Value>,
        RunError,
    >)
        requires
            from <= es@.len(),
        ensures
            match r {
                Ok(vs) => spec_eval_list(
                    old(self)@,
                    exprs_view(es@).subrange(from as int, es@.len() as int),
                    fuel as nat,
                ) == Result::<(EnvV, Seq<ValueV>), RunErrorV>::Ok(
                    (final(self)@, values_view(vs@)),
                ) && vs@.len() == es@.len() - from,
                Err(er) => spec_eval_list(
                    old(self)@,
                    exprs_view(es@).subrange(from as int, es@.len() as int),
                    fuel as nat,
                ) == Result::<(EnvV, Seq<ValueV>), RunErrorV>::Err(er@),
            },
        decreases fuel, 1int,
    {
        proof {
            lemma_exprs_view(es@);
        }
        if fuel == 0 {
            return Err(RunError::OutOfFuel);
        }
        if from >= es.len() {
            let empty: Vec<Value> = Vec::new();
            proof {
                assert(exprs_view(es@).subrange(from as int, es@.len() as int) =~= Seq::<
                    ExprV,
                >::empty());
                assert(values_view(empty@) =~= Seq::<ValueV>::empty());
            }
            return Ok(empty);
        }
        let ghost sub = exprs_view(es@).subrange(from as int, es@.len() as int);
        proof {
            assert(sub[0] == exprs_view(es@)[from as int]);
            assert(sub.drop_first() =~= exprs_view(es@).subrange(
                from as int + 1,
                es@.len() as int,
            ));
        }
        let v = match self.visit_expr_fuel(&es[from], fuel - 1) {
            Ok(v) => v,
            Err(er) => {
                return Err(er);
            },
        };
        let rest = match self.eval_list_fuel(es, from + 1, fuel - 1) {
            Ok(vs) => vs,
            Err(er) => {
                return Err(er);
            },
        };
        let ghost vv = v@;
        let ghost restv = values_view(rest@);
        let mut out = rest;
        out.insert(0, v);
        proof {
            assert(out@.drop_first() =~= rest@);
            lemma_values_view(out@);
            lemma_values_view(rest@);
            assert forall|k: int| 0 <= k < out@.len() implies values_view(out@)[k] == seq![
                vv,
            ].add(restv)[k] by {
                if k == 0 {
                    assert(out@[0] == v);
                } else {
                    assert(out@[k] == rest@[k - 1]);
                }
            }
            assert(values_view(out@) =~= seq![vv].add(restv));
        }
        Ok(out)
    }

    /// Calls a function: argument-count check, parameter binding in a
    /// copy of the table, body execution, table restore.
    fn call_function_fuel(&mut self, name: &str, args: &Vec<Expr>, fuel: u64) -> (r: Result<
        Value,
        RunError,
    >)
        ensures
            match r {
                Ok(v) => spec_call_function(
                    old(self)@,
                    name@,
                    exprs_view(args@),
                    fuel as nat,
                ) == EvalResult::Ok((final(self)@, v@)),
                Err(er) => spec_call_function(
                    old(self)@,
                    name@,
                    exprs_view(args@),
                    fuel as nat,
                ) == EvalResult::Err(er@),
            },
        decreases fuel, 2int,
    {
        proof {
            lemma_exprs_view(args@);
        }
        if fuel == 0 {
            return Err(RunError::OutOfFuel);
        }
        let f2 = fuel - 1;
        let (params, body) = match self.lookup(name) {
            None => {
                return Err(RunError::UndefinedFunction(String::from_str(name)));
            },
            Some(Value::Function(params, body)) => (params, body),
            Some(Value::Nothing) => {
                return Ok(Value::Nothing);
            },
            Some(_) => {
                return Err(RunError::NotAFunction(String::from_str(name)));
            },
        };
        if params.len() != args.len() {
            return Err(
                RunError::WrongArgumentCount(String::from_str(name), params.len(), args.len()),
            );
        }
        let vals = match self.eval_list_fuel(args, 0, f2) {
            Ok(vs) => vs,
            Err(er) => {
                proof {
                    assert(exprs_view(args@).subrange(0, args@.len() as int) =~= exprs_view(
                        args@,
                    ));
                }
                return Err(er);
            },
        };
        proof {
            assert(exprs_view(args@).subrange(0, args@.len() as int) =~= exprs_view(args@));
        }
        let saved = self.save_env();
        let ghost env1 = self@;
        let ghost pv = params@.map_values(|p: String| p@);
        let ghost valsv = values_view(vals@);
        let mut i: usize = 0;
        proof {
            lemma_values_view(vals@);
        }
        #[verifier::loop_isolation(false)]
        while i < params.len()
            invariant
                i <= params@.len(),
                params@.len() == vals@.len(),
                spec_bind_args(env1, pv, valsv, 0) == spec_bind_args(self@, pv, valsv, i as int),
            decreases params@.len() - i,
        {
            proof {
                assert(pv[i as int] == params@[i as int]@);
                assert(valsv[i as int] == value_view(vals@[i as int]));
            }
            let nm = params[i].clone();
            let av = vals[i].clone();
            self.set(nm, av);
            i = i + 1;
        }
        proof {
            lemma_stmts_view(body@);
        }
        let last = match self.exec_body_fuel(&body, 0, Value::Number(0), f2) {
            Ok(v) => v,
            Err(er) => {
                proof {
                    assert(stmts_view(body@).subrange(0, body@.len() as int) =~= stmts_view(
                        body@,
                    ));
                }
                return Err(er);
            },
        };
        proof {
            assert(stmts_view(body@).subrange(0, body@.len() as int) =~= stmts_view(body@));
        }
        self.symbol_table = saved;
        proof {
            assert(self@ == env1);
        }
        Ok(Value::Return(Box::new(last)))
    }

    /// Runs the statements from position `from` on, keeping the last
    /// value.
    fn exec_body_fuel(&mut self, body: &Vec<Stmt>, from: usize, last: Value, fuel: u64) -> (r:
        Result<Value, RunError>)
        requires
            from <= body@.len(),
        ensures
            match r {
                Ok(v) => spec_exec_body(
                    old(self)@,
                    stmts_view(body@).subrange(from as int, body@.len() as int),
                    last@,
                    fuel as nat,
                ) == Result::<(EnvV, ValueV), RunErrorV>::Ok((final(self)@, v@)),
                Err(er) => spec_exec_body(
                    old(self)@,
                    stmts_view(body@).subrange(from as int, body@.len() as int),
                    last@,
                    fuel as nat,
                ) == Result::<(EnvV, ValueV), RunErrorV>::Err(er@),
            },
        decreases fuel, 3int,
    {
        proof {
            lemma_stmts_view(body@);
        }
        if fuel == 0 {
            return Err(RunError::OutOfFuel);
        }
        if from >= body.len() {
            proof {
                assert(stmts_view(body@).subrange(from as int, body@.len() as int) =~= Seq::<
                    StmtV,
                >::empty());
            }
            return Ok(last);
        }
        let ghost sub = stmts_view(body@).subrange(from as int, body@.len() as int);
        proof {
            assert(sub[0] == stmts_view(body@)[from as int]);
            assert(sub.drop_first() =~= stmts_view(body@).subrange(
                from as int + 1,
                body@.len() as int,
            ));
        }
        let v = match self.visit_stmt_fuel(&body[from], fuel - 1) {
            Ok(v) => v,
            Err(er) => {
                return Err(er);
            },
        };
        self.exec_body_fuel(body, from + 1, v, fuel - 1)
    }

    /// Evaluates one statement with the given budget.
    fn visit_stmt_fuel(&mut self, s: &Stmt, fuel: u64) -> (r: Result<Value, RunError>)
        ensures
            match r {
                Ok(v) => spec_visit_stmt(old(self)@, s@, fuel as nat) == EvalResult::Ok(
                    (final(self)@, v@),
                ),
                Err(er) => spec_visit_stmt(old(self)@, s@, fuel as nat) == EvalResult::Err(
                    er@,
                ),
            },
        decreases fuel, 2int,
    {
        if fuel == 0 {
            return Err(RunError::OutOfFuel);
        }
        let f2 = fuel - 1;
        match s {
            Stmt::Assignment { ident, expr } => {
                let v = match self.visit_expr_fuel(expr, f2) {
                    Ok(v) => v,
                    Err(er) => {
                        return Err(er);
                    },
                };
                let v2 = v.clone();
                self.set(ident.clone(), v);
                Ok(v2)
            },
            Stmt::Expression(expr) => self.visit_expr_fuel(expr, f2),
            Stmt::Return(expr) => self.visit_expr_fuel(expr, f2),
            Stmt::FunctionDeclaration { ident, params, body } => {
                self.set(
                    ident.clone(),
                    Value::Function(clone_strings(params), clone_stmts(body)),
                );
                Ok(Value::Nothing)
            },
        }
    }

    /// Evaluates one expression with the default budget.
    pub fn visit_expr(&mut self, expr: &Expr) -> (r: Result<Value, RunError>)
        ensures
            match r {
                Ok(v) => spec_visit_expr(old(self)@, expr@, EVAL_FUEL as nat) == EvalResult::Ok(
                    (final(self)@, v@),
                ),
                Err(er) => spec_visit_expr(old(self)@, expr@, EVAL_FUEL as nat)
                    == EvalResult::Err(er@),
            },
    {
        self.visit_expr_fuel(expr, EVAL_FUEL)
    }

    /// Evaluates one statement with the default budget.
    pub fn visit_stmt(&mut self, stmt: &Stmt) -> (r: Result<Value, RunError>)
        ensures
            match r {
                Ok(v) => spec_visit_stmt(old(self)@, stmt@, EVAL_FUEL as nat) == EvalResult::Ok(
                    (final(self)@, v@),
                ),
                Err(er) => spec_visit_stmt(old(self)@, stmt@, EVAL_FUEL as nat)
                    == EvalResult::Err(er@),
            },
    {
        self.visit_stmt_fuel(stmt, EVAL_FUEL)
    }

    /// Calls a named function on argument expressions, with the default
    /// budget.
    pub fn visit_function_call(&mut self, name: &str, args: &Vec<Expr>) -> (r: Result<
        Value,
        RunError,
    >)
        ensures
            match r {
                Ok(v) => spec_call_function(
                    old(self)@,
                    name@,
                    exprs_view(args@),
                    EVAL_FUEL as nat,
                ) == EvalResult::Ok((final(self)@, v@)),
                Err(er) => spec_call_function(
                    old(self)@,
                    name@,
                    exprs_view(args@),
                    EVAL_FUEL as nat,
                ) == EvalResult::Err(er@),
            },
    {
        self.call_function_fuel(name, args, EVAL_FUEL)
    }

    /// Defines a function in the symbol table.
    pub fn visit_function_def(&mut self, name: String, params: Vec<String>, body: Vec<Stmt>)
        ensures
            final(self)@ == env_set(
                old(self)@,
                name@,
                ValueV::Function(params@.map_values(|p: String| p@), stmts_view(body@)),
            ),
    {
        self.set(name, Value::Function(params, body));
    }

    /// Runs a whole program with the default budget, handing back the
    /// last statement's value.
    pub fn interpret(&mut self, program: &Vec<Stmt>) -> (r: Result<Value, RunError>)
        ensures
            match r {
                Ok(v) => spec_interpret(old(self)@, stmts_view(program@), EVAL_FUEL as nat)
                    == Result::<(EnvV, ValueV), RunErrorV>::Ok((final(self)@, v@)),
                Err(er) => spec_interpret(old(self)@, stmts_view(program@), EVAL_FUEL as nat)
                    == Result::<(EnvV, ValueV), RunErrorV>::Err(er@),
            },
    {
        proof {
            lemma_stmts_view(program@);
            assert(stmts_view(program@).subrange(0, program@.len() as int) =~= stmts_view(
                program@,
            ));
        }
        self.exec_body_fuel(program, 0, Value::Nothing, EVAL_FUEL)
    }

    /// One line per binding: the name and its value's kind.
    pub fn get_stacktrace(&self) -> (r: String)
        ensures
            r@ == spec_stacktrace(self@, 0),
    {
        let mut out = String::new();
        let mut i: usize = 0;
        while i < self.symbol_table.len()
            invariant
                i <= self.symbol_table@.len(),
                spec_stacktrace(self@, 0) == out@.add(spec_stacktrace(self@, i as int)),
                self@.len() == self.symbol_table@.len(),
            decreases self.symbol_table@.len() - i,
        {
            proof {
                assert(self@[i as int].0 == self.symbol_table@[i as int].0@);
                assert(self@[i as int].1 == self.symbol_table@[i as int].1@);
            }
            out.append(self.symbol_table[i].0.as_str());
            out.append(": ");
            out.append(self.symbol_table[i].1.kind_name());
            out.append("\n");
            i = i + 1;
        }
        proof {
            assert(out@.add(Seq::<char>::empty()) =~= out@);
        }
        out
    }
}

} // verus!
