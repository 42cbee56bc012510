//! The lowering rules, written once as specification functions. The
//! verified generator in [`super::compiler`] promises to produce exactly
//! the states these functions describe.
//!
//! The generator's state is a [`CompilerV`]: the module built so far, a
//! stack of scope frames mapping names to values, the function
//! instructions are currently emitted into, and the bookkeeping indices
//! of the wrapped entry point and the `argc`/`argv` globals.

use vstd::prelude::*;

use crate::ast::{BinaryOp, ExprV, StmtV};
use super::ir::{find_fn, GlobalDefV, GlobalInitV, InstV, IrFuncV, IrValue, RetKind};

verus! {

/// What the environment tracks for a name: a scalar value, a pointer
/// value, or an alias of another name.
#[verifier::ext_equal]
pub enum VariableValueV {
    Int(IrValue),
    Str(Seq<char>),
    Ptr(IrValue),
}

/// What lowering an expression yields: a scalar or a pointer, decided
/// once and carried explicitly.
#[derive(Debug, Clone, Copy, PartialEq, Eq, Structural)]
pub enum CV {
    Int(IrValue),
    Ptr(IrValue),
}

/// The value inside a [`CV`].
pub open spec fn cv_value(v: CV) -> IrValue {
    match v {
        CV::Int(x) => x,
        CV::Ptr(x) => x,
    }
}

/// The view of a generation error.
pub enum GenErrorV {
    /// A name that no binding and no function carries.
    UnresolvedIdentifier(Seq<char>),
    /// A call whose argument count does not match the callee's
    /// declared parameter count: callee, expected, got.
    ArityMismatch(Seq<char>, usize, usize),
    /// An infix operator the grammar recognizes but the generator does
    /// not implement.
    UnsupportedOperator(BinaryOp),
    /// A qualified identifier outside the fixed `std` namespace, or
    /// with too few segments (empty payload).
    MalformedQualifiedIdentifier(Seq<char>),
    /// A scalar where a pointer was needed, or the reverse.
    TypeMismatch,
    /// An alias binding that refers to another alias.
    AliasOfAlias(Seq<char>),
    /// An array literal with no elements, whose element type cannot be
    /// decided.
    EmptyArrayLiteral,
    /// Lowering that needs an insertion point before any function
    /// accepts instructions.
    NoCurrentFunction,
}

/// A scope frame: names bound in one scope, in binding order.
pub type FrameV = Seq<(Seq<char>, VariableValueV)>;

/// The generator's state.
#[verifier::ext_equal]
pub struct CompilerV {
    pub globals: Seq<GlobalDefV>,
    pub funcs: Seq<IrFuncV>,
    pub scopes: Seq<FrameV>,
    pub cur: Option<usize>,
    pub entry: Option<usize>,
    pub argc_gi: Option<usize>,
    pub argv_gi: Option<usize>,
}

/// The outcome of one lowering step: the new state and a value, or the
/// state at the point of failure and the error.
pub type LowerResult<T> = Result<(CompilerV, T), (CompilerV, GenErrorV)>;

// ---------------------------------------------------------------------------
// The environment.
// ---------------------------------------------------------------------------
/// The index of the latest binding of `name` in the frame, or -1.
pub open spec fn last_key_index(frame: FrameV, name: Seq<char>) -> int
    decreases frame.len(),
{
    if frame.len() == 0 {
        -1
    } else if frame.last().0 == name {
        frame.len() - 1
    } else {
        last_key_index(frame.drop_last(), name)
    }
}

/// The value bound to `name` in the frame, if any.
pub open spec fn frame_lookup(frame: FrameV, name: Seq<char>) -> Option<VariableValueV> {
    let j = last_key_index(frame, name);
    if j >= 0 {
        Some(frame[j].1)
    } else {
        None
    }
}

/// Binds `name` in the frame: replaces its latest binding, or appends.
pub open spec fn frame_set(frame: FrameV, name: Seq<char>, v: VariableValueV) -> FrameV {
    let j = last_key_index(frame, name);
    if j >= 0 {
        frame.update(j, (name, v))
    } else {
        frame.push((name, v))
    }
}

/// Looks `name` up through the scope stack, innermost frame first.
pub open spec fn scopes_lookup(scopes: Seq<FrameV>, name: Seq<char>) -> Option<VariableValueV>
    decreases scopes.len(),
{
    if scopes.len() == 0 {
        None
    } else {
        match frame_lookup(scopes.last(), name) {
            Some(v) => Some(v),
            None => scopes_lookup(scopes.drop_last(), name),
        }
    }
}

/// Binds `name` in the innermost frame. With no frame open, the state
/// is unchanged.
pub open spec fn set_var(st: CompilerV, name: Seq<char>, v: VariableValueV) -> CompilerV {
    if st.scopes.len() == 0 {
        st
    } else {
        CompilerV {
            scopes: st.scopes.update(
                st.scopes.len() - 1,
                frame_set(st.scopes.last(), name, v),
            ),
            ..st
        }
    }
}

/// Opens a scope frame.
pub open spec fn push_frame(st: CompilerV) -> CompilerV {
    CompilerV { scopes: st.scopes.push(Seq::empty()), ..st }
}

/// Closes the innermost scope frame.
pub open spec fn pop_frame(st: CompilerV) -> CompilerV {
    if st.scopes.len() == 0 {
        st
    } else {
        CompilerV { scopes: st.scopes.drop_last(), ..st }
    }
}

// ---------------------------------------------------------------------------
// Emission.
// ---------------------------------------------------------------------------
/// Whether instructions have somewhere to go: a current function that
/// exists in the module.
pub open spec fn cur_ok(st: CompilerV) -> bool {
    st.cur is Some && (st.cur.unwrap() as int) < st.funcs.len()
}

/// The index of the current function.
pub open spec fn cur_ix(st: CompilerV) -> int {
    st.cur.unwrap() as int
}

/// Appends an instruction to function `ci`.
pub open spec fn emit_inst(st: CompilerV, ci: int, i: InstV) -> CompilerV {
    CompilerV {
        funcs: st.funcs.update(ci, IrFuncV { body: st.funcs[ci].body.push(i), ..st.funcs[ci] }),
        ..st
    }
}

/// Reserves the next temporary of function `ci`.
pub open spec fn bump_temp(st: CompilerV, ci: int) -> CompilerV {
    CompilerV {
        funcs: st.funcs.update(
            ci,
            IrFuncV {
                n_temps: if st.funcs[ci].n_temps == usize::MAX {
                    0
                } else {
                    (st.funcs[ci].n_temps + 1) as usize
                },
                ..st.funcs[ci]
            },
        ),
        ..st
    }
}

/// Appends a global and returns its index: its identity as a constant.
pub open spec fn push_global(st: CompilerV, name: Seq<char>, init: GlobalInitV) -> (
    CompilerV,
    int,
) {
    (
        CompilerV { globals: st.globals.push(GlobalDefV { name, init }), ..st },
        st.globals.len() as int,
    )
}

/// Appends a function.
pub open spec fn push_fn(st: CompilerV, f: IrFuncV) -> (CompilerV, int) {
    (CompilerV { funcs: st.funcs.push(f), ..st }, st.funcs.len() as int)
}

// ---------------------------------------------------------------------------
// Expressions.
// ---------------------------------------------------------------------------
/// Whether the generator implements this operator.
pub open spec fn is_arith_op(op: BinaryOp) -> bool {
    op == BinaryOp::Add || op == BinaryOp::Subtract || op == BinaryOp::Multiply || op
        == BinaryOp::Divide
}

/// The instruction for an arithmetic operator.
pub open spec fn arith_inst(op: BinaryOp, dst: usize, a: IrValue, b: IrValue) -> InstV {
    if op == BinaryOp::Add {
        InstV::Add { dst, a, b }
    } else if op == BinaryOp::Subtract {
        InstV::Sub { dst, a, b }
    } else if op == BinaryOp::Multiply {
        InstV::Mul { dst, a, b }
    } else {
        InstV::Div { dst, a, b }
    }
}

/// Lowers one expression to a value, growing the module.
pub open spec fn spec_compile_expr(st: CompilerV, e: ExprV) -> LowerResult<CV>
    decreases e, 0int,
{
    match e {
        ExprV::Num(n) => Ok((st, CV::Int(IrValue::ConstI32(n)))),
        ExprV::Char(c) => Ok((st, CV::Int(IrValue::ConstI8(((c as u32) % 256) as u8)))),
        ExprV::Str(txt) => {
            // Every occurrence of a string literal gets a global of its
            // own: no deduplication.
            let (st1, gi) = push_global(st, "global_string"@, GlobalInitV::Text(txt));
            Ok((st1, CV::Ptr(IrValue::GlobalRef(gi as usize))))
        },
        ExprV::Ident(name) => match scopes_lookup(st.scopes, name) {
            None => Err((st, GenErrorV::UnresolvedIdentifier(name))),
            Some(VariableValueV::Int(v)) => Ok((st, CV::Int(v))),
            Some(VariableValueV::Ptr(v)) => Ok((st, CV::Ptr(v))),
            Some(VariableValueV::Str(target)) => match scopes_lookup(st.scopes, target) {
                Some(VariableValueV::Int(v)) => Ok((st, CV::Int(v))),
                Some(VariableValueV::Ptr(v)) => Ok((st, CV::Ptr(v))),
                Some(VariableValueV::Str(_)) => Err((st, GenErrorV::AliasOfAlias(target))),
                None => Err((st, GenErrorV::UnresolvedIdentifier(target))),
            },
        },
        ExprV::QualifiedIdent(segs) => {
            if segs.len() == 0 {
                Err((st, GenErrorV::MalformedQualifiedIdentifier(Seq::empty())))
            } else if segs[0] != "std"@ {
                Err((st, GenErrorV::MalformedQualifiedIdentifier(segs[0])))
            } else {
                spec_stdlib(st, segs)
            }
        },
        ExprV::Array(es) => {
            if es.len() == 0 {
                Err((st, GenErrorV::EmptyArrayLiteral))
            } else {
                match spec_compile_expr(st, es[0]) {
                    Err(e) => Err(e),
                    Ok((st1, v0)) => match spec_compile_discard(st1, es.drop_first()) {
                        Err(e) => Err(e),
                        Ok(st2) => {
                            // The element type comes from the first
                            // element; only its value is stored.
                            let (st3, gi) = push_global(
                                st2,
                                "global_array"@,
                                GlobalInitV::ArrayFirst {
                                    len: es.len() as usize,
                                    first: cv_value(v0),
                                    elem_ptr: v0 is Ptr,
                                },
                            );
                            Ok((st3, CV::Ptr(IrValue::GlobalRef(gi as usize))))
                        },
                    },
                }
            }
        },
        ExprV::ArrayIndexing(a, ix) => match spec_compile_expr(st, *a) {
            Err(e) => Err(e),
            Ok((st1, CV::Int(_))) => Err((st1, GenErrorV::TypeMismatch)),
            Ok((st1, CV::Ptr(pv))) => match spec_compile_expr(st1, *ix) {
                Err(e) => Err(e),
                Ok((st2, CV::Ptr(_))) => Err((st2, GenErrorV::TypeMismatch)),
                Ok((st2, CV::Int(iv))) => {
                    if cur_ok(st2) {
                        let ci = cur_ix(st2);
                        let t1 = st2.funcs[ci].n_temps;
                        let st3 = emit_inst(
                            bump_temp(st2, ci),
                            ci,
                            InstV::Gep { dst: t1, base: pv, index: iv },
                        );
                        let t2 = st3.funcs[ci].n_temps;
                        let st4 = emit_inst(
                            bump_temp(st3, ci),
                            ci,
                            InstV::Load { dst: t2, addr: IrValue::Temp(t1, true) },
                        );
                        Ok((st4, CV::Ptr(IrValue::Temp(t2, true))))
                    } else {
                        Err((st2, GenErrorV::NoCurrentFunction))
                    }
                },
            },
        },
        ExprV::Infix(l, op, r) => {
            if !is_arith_op(op) {
                Err((st, GenErrorV::UnsupportedOperator(op)))
            } else {
                match spec_compile_expr(st, *l) {
                    Err(e) => Err(e),
                    Ok((st1, CV::Ptr(_))) => Err((st1, GenErrorV::TypeMismatch)),
                    Ok((st1, CV::Int(lv))) => match spec_compile_expr(st1, *r) {
                        Err(e) => Err(e),
                        Ok((st2, CV::Ptr(_))) => Err((st2, GenErrorV::TypeMismatch)),
                        Ok((st2, CV::Int(rv))) => {
                            if cur_ok(st2) {
                                let ci = cur_ix(st2);
                                let t = st2.funcs[ci].n_temps;
                                let st3 = emit_inst(
                                    bump_temp(st2, ci),
                                    ci,
                                    arith_inst(op, t, lv, rv),
                                );
                                Ok((st3, CV::Int(IrValue::Temp(t, false))))
                            } else {
                                Err((st2, GenErrorV::NoCurrentFunction))
                            }
                        },
                    },
                }
            }
        },
        ExprV::Call(fname, args) => match find_fn(st.funcs, fname) {
            None => Err((st, GenErrorV::UnresolvedIdentifier(fname))),
            Some(fi) => {
                let f = st.funcs[fi];
                let arity_ok = if f.varargs {
                    args.len() >= f.n_params
                } else {
                    args.len() == f.n_params
                };
                if !arity_ok {
                    Err((st, GenErrorV::ArityMismatch(fname, f.n_params, args.len() as usize)))
                } else {
                    match spec_compile_args(st, args) {
                        Err(e) => Err(e),
                        Ok((st1, vals)) => {
                            if cur_ok(st1) {
                                let ci = cur_ix(st1);
                                let t = st1.funcs[ci].n_temps;
                                let st2 = emit_inst(
                                    bump_temp(st1, ci),
                                    ci,
                                    InstV::CallFn { dst: t, callee: fi as usize, args: vals },
                                );
                                if f.ret == RetKind::Void {
                                    Ok((st2, CV::Ptr(IrValue::NullPtr)))
                                } else {
                                    Ok((st2, CV::Int(IrValue::Temp(t, false))))
                                }
                            } else {
                                Err((st1, GenErrorV::NoCurrentFunction))
                            }
                        },
                    }
                }
            },
        },
    }
}

/// Lowers the fixed `std` intrinsics, dispatching on the second
/// segment.
pub open spec fn spec_stdlib(st: CompilerV, segs: Seq<Seq<char>>) -> LowerResult<CV> {
    if segs.len() < 2 {
        Err((st, GenErrorV::MalformedQualifiedIdentifier(Seq::empty())))
    } else if segs[1] == "printf"@ {
        if !cur_ok(st) {
            Err((st, GenErrorV::NoCurrentFunction))
        } else {
            match find_fn(st.funcs, "printf"@) {
                None => Err((st, GenErrorV::UnresolvedIdentifier("printf"@))),
                Some(pi) => {
                    let (st1, gi) = push_global(st, "str_format"@, GlobalInitV::Text("%s\n"@));
                    let ci = cur_ix(st1);
                    let t = st1.funcs[ci].n_temps;
                    let st2 = emit_inst(
                        bump_temp(st1, ci),
                        ci,
                        InstV::CallFn {
                            dst: t,
                            callee: pi as usize,
                            args: seq![IrValue::GlobalRef(gi as usize)],
                        },
                    );
                    Ok((st2, CV::Int(IrValue::ConstI32(0))))
                },
            }
        }
    } else if segs[1] == "args"@ {
        match st.argv_gi {
            None => Err((st, GenErrorV::UnresolvedIdentifier("argv_global"@))),
            Some(gi) => {
                if !cur_ok(st) {
                    Err((st, GenErrorV::NoCurrentFunction))
                } else {
                    let ci = cur_ix(st);
                    let t = st.funcs[ci].n_temps;
                    let st1 = emit_inst(
                        bump_temp(st, ci),
                        ci,
                        InstV::LoadGlobal { dst: t, global: gi },
                    );
                    Ok((st1, CV::Ptr(IrValue::Temp(t, true))))
                }
            },
        }
    } else {
        Err((st, GenErrorV::MalformedQualifiedIdentifier(segs[1])))
    }
}

/// Lowers a call's arguments, left to right.
pub open spec fn spec_compile_args(st: CompilerV, es: Seq<ExprV>) -> LowerResult<Seq<IrValue>>
    decreases es, 1int,
{
    if es.len() == 0 {
        Ok((st, Seq::empty()))
    } else {
        match spec_compile_expr(st, es[0]) {
            Err(e) => Err(e),
            Ok((st1, v)) => match spec_compile_args(st1, es.drop_first()) {
                Err(e) => Err(e),
                Ok((st2, rest)) => Ok((st2, seq![cv_value(v)].add(rest))),
            },
        }
    }
}

/// Lowers expressions for their effects only, discarding the values.
pub open spec fn spec_compile_discard(st: CompilerV, es: Seq<ExprV>) -> Result<
    CompilerV,
    (CompilerV, GenErrorV),
>
    decreases es, 1int,
{
    if es.len() == 0 {
        Ok(st)
    } else {
        match spec_compile_expr(st, es[0]) {
            Err(e) => Err(e),
            Ok((st1, _)) => spec_compile_discard(st1, es.drop_first()),
        }
    }
}

// ---------------------------------------------------------------------------
// Statements.
// ---------------------------------------------------------------------------
/// Whether the statement list holds a `return` at its top level. The
/// implicit `return 0` is appended exactly when it does not.
pub open spec fn has_return(ss: Seq<StmtV>) -> bool {
    exists|i: int| 0 <= i < ss.len() && ss[i] is Return
}

/// Binds the declared parameters, each as the matching argument slot.
pub open spec fn spec_bind_params(st: CompilerV, params: Seq<Seq<char>>, i: int) -> CompilerV
    decreases params.len() - i,
{
    if i < 0 || i >= params.len() {
        st
    } else {
        spec_bind_params(
            set_var(st, params[i], VariableValueV::Int(IrValue::Param(i as usize, false))),
            params,
            i + 1,
        )
    }
}

/// Lowers one statement inside a function body.
pub open spec fn spec_compile_body_stmt(st: CompilerV, s: StmtV) -> Result<
    CompilerV,
    (CompilerV, GenErrorV),
>
    decreases s, 0int,
{
    match s {
        StmtV::Assignment { ident, expr } => match spec_compile_expr(st, expr) {
            Err(e) => Err(e),
            Ok((st1, CV::Int(v))) => Ok(set_var(st1, ident, VariableValueV::Int(v))),
            Ok((st1, CV::Ptr(v))) => Ok(set_var(st1, ident, VariableValueV::Ptr(v))),
        },
        StmtV::Return(expr) => match spec_compile_expr(st, expr) {
            Err(e) => Err(e),
            Ok((st1, v)) => {
                if cur_ok(st1) {
                    Ok(emit_inst(st1, cur_ix(st1), InstV::Ret { val: Some(cv_value(v)) }))
                } else {
                    Err((st1, GenErrorV::NoCurrentFunction))
                }
            },
        },
        StmtV::Expression(expr) => match spec_compile_expr(st, expr) {
            Err(e) => Err(e),
            Ok((st1, _)) => Ok(st1),
        },
        // A function declaration nested in a body is not lowered.
        StmtV::FunctionDeclaration { .. } => Ok(st),
    }
}

/// Lowers the statements of a function body, in order.
pub open spec fn spec_compile_body(st: CompilerV, ss: Seq<StmtV>) -> Result<
    CompilerV,
    (CompilerV, GenErrorV),
>
    decreases ss, 1int,
{
    if ss.len() == 0 {
        Ok(st)
    } else {
        match spec_compile_body_stmt(st, ss[0]) {
            Err(e) => Err(e),
            Ok(st1) => spec_compile_body(st1, ss.drop_first()),
        }
    }
}

/// Lowers one top-level statement.
pub open spec fn spec_compile_top_stmt(st: CompilerV, s: StmtV) -> Result<
    CompilerV,
    (CompilerV, GenErrorV),
>
    decreases s, 2int,
{
    match s {
        StmtV::FunctionDeclaration { ident, params, body } => {
            let (st1, fi) = push_fn(
                st,
                IrFuncV {
                    name: ident,
                    n_params: params.len() as usize,
                    ptr_params: Seq::new(params.len(), |i: int| false),
                    varargs: false,
                    is_declaration: false,
                    ret: RetKind::I32,
                    body: Seq::empty(),
                    n_temps: 0,
                },
            );
            let st2 = push_frame(
                CompilerV { cur: Some(fi as usize), ..st1 },
            );
            let st3 = spec_bind_params(st2, params, 0);
            match spec_compile_body(st3, body) {
                Err(e) => Err(e),
                Ok(st4) => {
                    let st5 = if has_return(body) {
                        st4
                    } else if cur_ok(st4) {
                        emit_inst(
                            st4,
                            cur_ix(st4),
                            InstV::Ret { val: Some(IrValue::ConstI32(0)) },
                        )
                    } else {
                        st4
                    };
                    Ok(pop_frame(st5))
                },
            }
        },
        StmtV::Assignment { ident, expr } => match expr {
            // A top-level binding of one name to another is an alias,
            // not a copy.
            ExprV::Ident(target) => Ok(set_var(st, ident, VariableValueV::Str(target))),
            _ => match spec_compile_expr(st, expr) {
                Err(e) => Err(e),
                Ok((st1, CV::Int(v))) => Ok(set_var(st1, ident, VariableValueV::Int(v))),
                Ok((st1, CV::Ptr(_))) => Err((st1, GenErrorV::TypeMismatch)),
            },
        },
        StmtV::Return(expr) => match spec_compile_expr(st, expr) {
            Err(e) => Err(e),
            Ok((st1, v)) => {
                if cur_ok(st1) {
                    Ok(emit_inst(st1, cur_ix(st1), InstV::Ret { val: Some(cv_value(v)) }))
                } else {
                    Err((st1, GenErrorV::NoCurrentFunction))
                }
            },
        },
        StmtV::Expression(expr) => match spec_compile_expr(st, expr) {
            Err(e) => Err(e),
            Ok((st1, _)) => Ok(st1),
        },
    }
}

/// Lowers a top-level statement list, in program order.
pub open spec fn spec_compile_top(st: CompilerV, ss: Seq<StmtV>) -> Result<
    CompilerV,
    (CompilerV, GenErrorV),
>
    decreases ss, 3int,
{
    if ss.len() == 0 {
        Ok(st)
    } else {
        match spec_compile_top_stmt(st, ss[0]) {
            Err(e) => Err(e),
            Ok(st1) => spec_compile_top(st1, ss.drop_first()),
        }
    }
}

// ---------------------------------------------------------------------------
// Bootstrap, entry point, linking.
// ---------------------------------------------------------------------------
/// A fresh generator: empty module, one open (global) scope frame,
/// nowhere to emit yet.
pub open spec fn spec_new() -> CompilerV {
    CompilerV {
        globals: Seq::empty(),
        funcs: Seq::empty(),
        scopes: seq![Seq::empty()],
        cur: None,
        entry: None,
        argc_gi: None,
        argv_gi: None,
    }
}

/// The standard-library bootstrap: declares the variadic format-print
/// primitive `printf`, and defines the two wrappers over it: `print`
/// for a pointer value and `printd` for a 32-bit value, each with a
/// trailing newline.
pub open spec fn spec_add_stdlib(st: CompilerV) -> CompilerV {
    let (st1, pfi) = push_fn(
        st,
        IrFuncV {
            name: "printf"@,
            n_params: 1,
            ptr_params: seq![true],
            varargs: true,
            is_declaration: true,
            ret: RetKind::I8,
            body: Seq::empty(),
            n_temps: 0,
        },
    );
    let (st2, gs) = push_global(st1, "format_str_s"@, GlobalInitV::Text("%s\n"@));
    let (st3, _pr) = push_fn(
        st2,
        IrFuncV {
            name: "print"@,
            n_params: 1,
            ptr_params: seq![true],
            varargs: false,
            is_declaration: false,
            ret: RetKind::Void,
            body: seq![
                InstV::CallFn {
                    dst: 0,
                    callee: pfi as usize,
                    args: seq![IrValue::GlobalRef(gs as usize), IrValue::Param(0, true)],
                },
                InstV::Ret { val: None },
            ],
            n_temps: 1,
        },
    );
    let (st4, gd) = push_global(st3, "format_str_d"@, GlobalInitV::Text("%d\n"@));
    let (st5, _pd) = push_fn(
        st4,
        IrFuncV {
            name: "printd"@,
            n_params: 1,
            ptr_params: seq![false],
            varargs: false,
            is_declaration: false,
            ret: RetKind::I32,
            body: seq![
                InstV::CallFn {
                    dst: 0,
                    callee: pfi as usize,
                    args: seq![IrValue::GlobalRef(gd as usize), IrValue::Param(0, false)],
                },
                InstV::Ret { val: Some(IrValue::Param(0, false)) },
            ],
            n_temps: 1,
        },
    );
    st5
}

/// Emits the real entry point `main(argc, argv)`, which stores both
/// arguments into module globals before any user code runs, and leaves
/// the insertion point inside it.
pub open spec fn spec_emit_main(st: CompilerV) -> CompilerV {
    let (st1, gc) = push_global(st, "argc_global"@, GlobalInitV::Int32(0));
    let (st2, gv) = push_global(st1, "argv_global"@, GlobalInitV::NullPtr);
    let (st3, fi) = push_fn(
        st2,
        IrFuncV {
            name: "main"@,
            n_params: 2,
            ptr_params: seq![false, true],
            varargs: false,
            is_declaration: false,
            ret: RetKind::I32,
            body: seq![
                InstV::StoreGlobal { global: gc as usize, val: IrValue::Param(0, false) },
                InstV::StoreGlobal { global: gv as usize, val: IrValue::Param(1, true) },
            ],
            n_temps: 0,
        },
    );
    CompilerV {
        cur: Some(fi as usize),
        entry: Some(fi as usize),
        argc_gi: Some(gc as usize),
        argv_gi: Some(gv as usize),
        ..st3
    }
}

/// Splices a call to the renamed user entry into the wrapper entry
/// function, after the `argc`/`argv` stores, and returns the fixed
/// success code.
pub open spec fn spec_link(st: CompilerV) -> Result<CompilerV, (CompilerV, GenErrorV)> {
    match find_fn(st.funcs, crate::parsers::grammar::user_entry()) {
        None => Err((st, GenErrorV::UnresolvedIdentifier(crate::parsers::grammar::user_entry()))),
        Some(fi) => match st.entry {
            None => Err((st, GenErrorV::NoCurrentFunction)),
            Some(ei_u) => {
                if (ei_u as int) < st.funcs.len() {
                    let ei = ei_u as int;
                    let t = st.funcs[ei].n_temps;
                    let st1 = emit_inst(
                        bump_temp(st, ei),
                        ei,
                        InstV::CallFn { dst: t, callee: fi as usize, args: Seq::empty() },
                    );
                    let st2 = emit_inst(st1, ei, InstV::Ret { val: Some(IrValue::ConstI32(0)) });
                    Ok(st2)
                } else {
                    Err((st, GenErrorV::NoCurrentFunction))
                }
            },
        },
    }
}

// ---------------------------------------------------------------------------
// Laws.
// ---------------------------------------------------------------------------
/// Expression lowering never moves the insertion point and never
/// removes a function.
pub proof fn lemma_expr_preserves_cur(st: CompilerV, e: ExprV)
    ensures
        match spec_compile_expr(st, e) {
            Ok((st1, _)) => st1.cur == st.cur && st1.funcs.len() >= st.funcs.len(),
            Err(_) => true,
        },
    decreases e, 0int,
{
    match e {
        ExprV::Array(es) => {
            if es.len() > 0 {
                lemma_expr_preserves_cur(st, es[0]);
                match spec_compile_expr(st, es[0]) {
                    Ok((st1, _)) => {
                        lemma_discard_preserves_cur(st1, es.drop_first());
                    },
                    Err(_) => {},
                }
            }
        },
        ExprV::ArrayIndexing(a, ix) => {
            lemma_expr_preserves_cur(st, *a);
            match spec_compile_expr(st, *a) {
                Ok((st1, _)) => {
                    lemma_expr_preserves_cur(st1, *ix);
                },
                Err(_) => {},
            }
        },
        ExprV::Infix(l, _, r) => {
            lemma_expr_preserves_cur(st, *l);
            match spec_compile_expr(st, *l) {
                Ok((st1, _)) => {
                    lemma_expr_preserves_cur(st1, *r);
                },
                Err(_) => {},
            }
        },
        ExprV::Call(fname, args) => {
            lemma_args_preserve_cur(st, args);
        },
        _ => {},
    }
}

/// See [`lemma_expr_preserves_cur`].
pub proof fn lemma_args_preserve_cur(st: CompilerV, es: Seq<ExprV>)
    ensures
        match spec_compile_args(st, es) {
            Ok((st1, _)) => st1.cur == st.cur && st1.funcs.len() >= st.funcs.len(),
            Err(_) => true,
        },
    decreases es, 1int,
{
    if es.len() > 0 {
        lemma_expr_preserves_cur(st, es[0]);
        match spec_compile_expr(st, es[0]) {
            Ok((st1, _)) => {
                lemma_args_preserve_cur(st1, es.drop_first());
            },
            Err(_) => {},
        }
    }
}

/// See [`lemma_expr_preserves_cur`].
pub proof fn lemma_discard_preserves_cur(st: CompilerV, es: Seq<ExprV>)
    ensures
        match spec_compile_discard(st, es) {
            Ok(st1) => st1.cur == st.cur && st1.funcs.len() >= st.funcs.len(),
            Err(_) => true,
        },
    decreases es, 1int,
{
    if es.len() > 0 {
        lemma_expr_preserves_cur(st, es[0]);
        match spec_compile_expr(st, es[0]) {
            Ok((st1, _)) => {
                lemma_discard_preserves_cur(st1, es.drop_first());
            },
            Err(_) => {},
        }
    }
}

/// Statement lowering inside a body never moves the insertion point
/// and never removes a function.
pub proof fn lemma_body_stmt_preserves_cur(st: CompilerV, s: StmtV)
    ensures
        match spec_compile_body_stmt(st, s) {
            Ok(st1) => st1.cur == st.cur && st1.funcs.len() >= st.funcs.len(),
            Err(_) => true,
        },
    decreases s, 0int,
{
    match s {
        StmtV::Assignment { ident: _, expr } => {
            lemma_expr_preserves_cur(st, expr);
        },
        StmtV::Return(expr) => {
            lemma_expr_preserves_cur(st, expr);
        },
        StmtV::Expression(expr) => {
            lemma_expr_preserves_cur(st, expr);
        },
        StmtV::FunctionDeclaration { .. } => {},
    }
}

/// See [`lemma_body_stmt_preserves_cur`].
pub proof fn lemma_body_preserves_cur(st: CompilerV, ss: Seq<StmtV>)
    ensures
        match spec_compile_body(st, ss) {
            Ok(st1) => st1.cur == st.cur && st1.funcs.len() >= st.funcs.len(),
            Err(_) => true,
        },
    decreases ss, 1int,
{
    if ss.len() > 0 {
        lemma_body_stmt_preserves_cur(st, ss[0]);
        match spec_compile_body_stmt(st, ss[0]) {
            Ok(st1) => {
                lemma_body_preserves_cur(st1, ss.drop_first());
            },
            Err(_) => {},
        }
    }
}

/// A call with an argument count different from its (non-variadic)
/// callee's declared parameter count never lowers: it fails with the
/// arity diagnostic before any instruction of the call is generated.
pub proof fn lemma_call_arity_mismatch_fails(st: CompilerV, fname: Seq<char>, args: Seq<ExprV>)
    requires
        find_fn(st.funcs, fname) is Some,
        !st.funcs[find_fn(st.funcs, fname)->0].varargs,
        args.len() != st.funcs[find_fn(st.funcs, fname)->0].n_params,
    ensures
        spec_compile_expr(st, ExprV::Call(fname, args)) == LowerResult::<CV>::Err(
            (
                st,
                GenErrorV::ArityMismatch(
                    fname,
                    st.funcs[find_fn(st.funcs, fname)->0].n_params,
                    args.len() as usize,
                ),
            ),
        ),
{
}

/// A qualified identifier outside the fixed `std` namespace, or naming
/// an unknown member of it, never lowers: it fails with the
/// namespace-resolution diagnostic.
pub proof fn lemma_namespace_errors(st: CompilerV, segs: Seq<Seq<char>>)
    ensures
        segs.len() > 0 && segs[0] != "std"@ ==> spec_compile_expr(
            st,
            ExprV::QualifiedIdent(segs),
        ) == LowerResult::<CV>::Err((st, GenErrorV::MalformedQualifiedIdentifier(segs[0]))),
        segs.len() >= 2 && segs[0] == "std"@ && segs[1] != "printf"@ && segs[1] != "args"@
            ==> spec_compile_expr(st, ExprV::QualifiedIdent(segs)) == LowerResult::<CV>::Err(
            (st, GenErrorV::MalformedQualifiedIdentifier(segs[1])),
        ),
{
}

/// Every occurrence of a string literal creates a global of its own:
/// lowering the same text twice in a row yields pointers to two
/// distinct globals — distinct identities, not merely distinct names —
/// both holding the text.
pub proof fn lemma_string_literals_distinct(st: CompilerV, txt: Seq<char>)
    requires
        st.globals.len() + 1 < usize::MAX,
    ensures
        ({
            let n = st.globals.len() as usize;
            let r1 = spec_compile_expr(st, ExprV::Str(txt));
            &&& r1 is Ok
            &&& r1->Ok_0.1 == CV::Ptr(IrValue::GlobalRef(n))
            &&& {
                let st1 = r1->Ok_0.0;
                let r2 = spec_compile_expr(st1, ExprV::Str(txt));
                &&& st1.globals[n as int].init == GlobalInitV::Text(txt)
                &&& r2 is Ok
                &&& r2->Ok_0.1 == CV::Ptr(IrValue::GlobalRef((n + 1) as usize))
                &&& r2->Ok_0.0.globals[n + 1].init == GlobalInitV::Text(txt)
                &&& (n + 1) as usize != n
            }
        }),
{
}

/// A function body with no top-level `return` is closed by the
/// implicit `return 0`: after lowering such a declaration, the new
/// function's last instruction returns the zero constant.
pub proof fn lemma_implicit_return_zero(
    st: CompilerV,
    ident: Seq<char>,
    params: Seq<Seq<char>>,
    body: Seq<StmtV>,
)
    requires
        !has_return(body),
        st.funcs.len() < usize::MAX,
        spec_compile_top_stmt(
            st,
            StmtV::FunctionDeclaration { ident, params, body },
        ) is Ok,
    ensures
        ({
            let stf = spec_compile_top_stmt(
                st,
                StmtV::FunctionDeclaration { ident, params, body },
            )->Ok_0;
            let fi = st.funcs.len() as int;
            &&& fi < stf.funcs.len()
            &&& stf.funcs[fi].body.len() > 0
            &&& stf.funcs[fi].body.last() == (InstV::Ret { val: Some(IrValue::ConstI32(0)) })
        }),
{
    let (st1, fi) = push_fn(
        st,
        IrFuncV {
            name: ident,
            n_params: params.len() as usize,
            ptr_params: Seq::new(params.len(), |i: int| false),
            varargs: false,
            is_declaration: false,
            ret: RetKind::I32,
            body: Seq::empty(),
            n_temps: 0,
        },
    );
    let st2 = push_frame(CompilerV { cur: Some(fi as usize), ..st1 });
    let st3 = spec_bind_params(st2, params, 0);
    lemma_bind_params_preserves(st2, params, 0);
    lemma_body_preserves_cur(st3, body);
    match spec_compile_body(st3, body) {
        Ok(st4) => {
            assert(st4.cur == Some(fi as usize));
            assert(st4.funcs.len() >= st1.funcs.len());
            assert(cur_ok(st4) && cur_ix(st4) == fi);
            let st5 = emit_inst(st4, fi, InstV::Ret { val: Some(IrValue::ConstI32(0)) });
            assert(st5.funcs[fi].body.last() == (InstV::Ret { val: Some(IrValue::ConstI32(0)) }));
        },
        Err(_) => {},
    }
}

/// Parameter binding only touches the scope stack.
pub proof fn lemma_bind_params_preserves(st: CompilerV, params: Seq<Seq<char>>, i: int)
    ensures
        spec_bind_params(st, params, i).cur == st.cur,
        spec_bind_params(st, params, i).funcs == st.funcs,
    decreases params.len() - i,
{
    if 0 <= i < params.len() {
        lemma_bind_params_preserves(
            set_var(st, params[i], VariableValueV::Int(IrValue::Param(i as usize, false))),
            params,
            i + 1,
        );
    }
}

/// The whole generation pipeline on a parsed program: bootstrap, entry
/// emission, user-code lowering, entry linking. Yields the finished
/// module.
pub open spec fn spec_emit_module(ss: Seq<StmtV>) -> Result<
    super::ir::NativeModuleV,
    GenErrorV,
> {
    let st = spec_emit_main(spec_add_stdlib(spec_new()));
    match spec_compile_top(st, ss) {
        Err((_, e)) => Err(e),
        Ok(st1) => match spec_link(st1) {
            Err((_, e)) => Err(e),
            Ok(st2) => Ok(super::ir::NativeModuleV { globals: st2.globals, funcs: st2.funcs }),
        },
    }
}

} // verus!
