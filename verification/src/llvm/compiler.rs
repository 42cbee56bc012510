//! The verified code generator. Every method's contract says that the
//! new state is exactly what the lowering rules in [`super::lowering`]
//! prescribe.

use vstd::prelude::*;
use vstd::string::StringExecFns;

use crate::ast::{
    exprs_view, lemma_exprs_view, lemma_stmts_view, stmts_view, BinaryOp, Expr, ExprV, Stmt,
};
use crate::text::str_eq;
use super::ir::{GlobalDef, GlobalInit, Inst, IrFunc, IrFuncV, IrValue, NativeModule, RetKind};
use super::lowering::{
    bump_temp, cur_ix, cur_ok, cv_value, emit_inst, frame_set, last_key_index, pop_frame,
    has_return, push_frame, push_global, push_fn, scopes_lookup, set_var, spec_add_stdlib,
    spec_bind_params, spec_compile_args, spec_compile_body, spec_compile_body_stmt,
    spec_compile_discard, spec_compile_expr, spec_compile_top, spec_compile_top_stmt,
    spec_emit_main, spec_link, spec_stdlib, CompilerV, FrameV, GenErrorV, CV, VariableValueV,
};

verus! {

/// A generation error. Lowering is abandoned at the first one; the
/// variants enumerate the fatal conditions of the lowering rules.
#[derive(Debug, PartialEq)]
pub enum GenError {
    UnresolvedIdentifier(String),
    ArityMismatch(String, usize, usize),
    UnsupportedOperator(BinaryOp),
    MalformedQualifiedIdentifier(String),
    TypeMismatch,
    AliasOfAlias(String),
    EmptyArrayLiteral,
    NoCurrentFunction,
}

impl View for GenError {
    type V = GenErrorV;

    open spec fn view(&self) -> GenErrorV {
        match self {
            GenError::UnresolvedIdentifier(n) => GenErrorV::UnresolvedIdentifier(n@),
            GenError::ArityMismatch(n, a, b) => GenErrorV::ArityMismatch(n@, *a, *b),
            GenError::UnsupportedOperator(op) => GenErrorV::UnsupportedOperator(*op),
            GenError::MalformedQualifiedIdentifier(n) => GenErrorV::MalformedQualifiedIdentifier(
                n@,
            ),
            GenError::TypeMismatch => GenErrorV::TypeMismatch,
            GenError::AliasOfAlias(n) => GenErrorV::AliasOfAlias(n@),
            GenError::EmptyArrayLiteral => GenErrorV::EmptyArrayLiteral,
            GenError::NoCurrentFunction => GenErrorV::NoCurrentFunction,
        }
    }
}

/// What the environment tracks for a name: a scalar value, a pointer
/// value, or (as `Str`) an alias of another name.
#[derive(Debug, PartialEq)]
pub enum VariableValue {
    Int(IrValue),
    Str(String),
    Ptr(IrValue),
}

impl View for VariableValue {
    type V = VariableValueV;

    open spec fn view(&self) -> VariableValueV {
        match self {
            VariableValue::Int(v) => VariableValueV::Int(*v),
            VariableValue::Str(s) => VariableValueV::Str(s@),
            VariableValue::Ptr(v) => VariableValueV::Ptr(*v),
        }
    }
}

impl Clone for VariableValue {
    /// The clone has the same view.
    fn clone(&self) -> (r: VariableValue)
        ensures
            r@ == self@,
    {
        match self {
            VariableValue::Int(v) => VariableValue::Int(*v),
            VariableValue::Str(s) => VariableValue::Str(s.clone()),
            VariableValue::Ptr(v) => VariableValue::Ptr(*v),
        }
    }
}

/// The view of one scope frame.
pub open spec fn frame_view(f: Seq<(String, VariableValue)>) -> FrameV {
    f.map_values(|p: (String, VariableValue)| (p.0@, p.1@))
}

/// The code generator: the module under construction, the scope stack,
/// and the insertion bookkeeping. One value of this type owns one whole
/// compilation.
pub struct Compiler {
    pub module: NativeModule,
    scopes: Vec<Vec<(String, VariableValue)>>,
    cur: Option<usize>,
    entry: Option<usize>,
    argc_gi: Option<usize>,
    argv_gi: Option<usize>,
}

impl View for Compiler {
    type V = CompilerV;

    closed spec fn view(&self) -> CompilerV {
        CompilerV {
            globals: self.module@.globals,
            funcs: self.module@.funcs,
            scopes: self.scopes@.map_values(|f: Vec<(String, VariableValue)>| frame_view(f@)),
            cur: self.cur,
            entry: self.entry,
            argc_gi: self.argc_gi,
            argv_gi: self.argv_gi,
        }
    }
}

impl Compiler {
    /// A fresh generator with an empty module and the global scope
    /// frame open.
    pub fn new() -> (r: Compiler)
        ensures
            r@ == super::lowering::spec_new(),
    {
        let mut scopes: Vec<Vec<(String, VariableValue)>> = Vec::new();
        scopes.push(Vec::new());
        let r = Compiler {
            module: NativeModule { globals: Vec::new(), funcs: Vec::new() },
            scopes,
            cur: None,
            entry: None,
            argc_gi: None,
            argv_gi: None,
        };
        proof {
            assert(r@ =~~= super::lowering::spec_new());
        }
        r
    }

    /// The current function's index, if instructions have somewhere to
    /// go.
    fn cur_index(&self) -> (r: Option<usize>)
        ensures
            match r {
                Some(ci) => cur_ok(self@) && ci as int == cur_ix(self@),
                None => !cur_ok(self@),
            },
    {
        match self.cur {
            Some(ci) => {
                if ci < self.module.funcs.len() {
                    Some(ci)
                } else {
                    None
                }
            },
            None => None,
        }
    }

    /// Appends an instruction to function `ci`.
    fn emit_at(&mut self, ci: usize, inst: Inst)
        requires
            (ci as int) < old(self)@.funcs.len(),
        ensures
            final(self)@ == emit_inst(old(self)@, ci as int, inst@),
    {
        let ghost iv = inst@;
        self.module.funcs[ci].body.push(inst);
        proof {
            assert(final(self)@.funcs =~~= emit_inst(old(self)@, ci as int, iv).funcs);
            assert(final(self)@ =~~= emit_inst(old(self)@, ci as int, iv));
        }
    }

    /// Reserves the next temporary of function `ci` and hands its index
    /// back.
    fn bump_at(&mut self, ci: usize) -> (t: usize)
        requires
            (ci as int) < old(self)@.funcs.len(),
        ensures
            t == old(self)@.funcs[ci as int].n_temps,
            final(self)@ == bump_temp(old(self)@, ci as int),
    {
        let t = self.module.funcs[ci].n_temps;
        let nt: usize = if t == usize::MAX {
            0
        } else {
            t + 1
        };
        self.module.funcs[ci].n_temps = nt;
        proof {
            assert(final(self)@.funcs =~~= bump_temp(old(self)@, ci as int).funcs);
            assert(final(self)@ =~~= bump_temp(old(self)@, ci as int));
        }
        t
    }

    /// Appends a global constant and hands its index (its identity)
    /// back.
    fn add_global(&mut self, name: &str, init: GlobalInit) -> (gi: usize)
        ensures
            ({
                let (st, i) = push_global(old(self)@, name@, init@);
                final(self)@ == st && gi as int == i && i == old(self)@.globals.len()
            }),
    {
        let ghost initv = init@;
        let gi = self.module.globals.len();
        self.module.globals.push(GlobalDef { name: String::from_str(name), init });
        proof {
            let (st, i) = push_global(old(self)@, name@, initv);
            assert(final(self)@.globals =~~= st.globals);
            assert(final(self)@ =~~= st);
        }
        gi
    }

    /// Appends a function and hands its index back.
    fn add_function(&mut self, f: IrFunc) -> (fi: usize)
        ensures
            ({
                let (st, i) = push_fn(old(self)@, f@);
                final(self)@ == st && fi as int == i && i == old(self)@.funcs.len()
            }),
    {
        let ghost fv = f@;
        let fi = self.module.funcs.len();
        self.module.funcs.push(f);
        proof {
            let (st, i) = push_fn(old(self)@, fv);
            assert(final(self)@.funcs =~~= st.funcs);
            assert(final(self)@ =~~= st);
        }
        fi
    }

    /// Opens a scope frame.
    fn open_frame(&mut self)
        ensures
            final(self)@ == push_frame(old(self)@),
    {
        self.scopes.push(Vec::new());
        proof {
            assert(final(self)@.scopes =~~= push_frame(old(self)@).scopes);
            assert(final(self)@ =~~= push_frame(old(self)@));
        }
    }

    /// Closes the innermost scope frame.
    fn close_frame(&mut self)
        ensures
            final(self)@ == pop_frame(old(self)@),
    {
        if self.scopes.len() > 0 {
            self.scopes.pop();
            proof {
                assert(final(self)@.scopes =~~= pop_frame(old(self)@).scopes);
                assert(final(self)@ =~~= pop_frame(old(self)@));
            }
        } else {
            proof {
                assert(final(self)@ =~~= pop_frame(old(self)@));
            }
        }
    }

    /// The index of the latest binding of `name` in frame `fi`, if any.
    fn frame_find(&self, fi: usize, name: &str) -> (r: Option<usize>)
        requires
            (fi as int) < self@.scopes.len(),
        ensures
            ({
                let frame = self@.scopes[fi as int];
                match r {
                    Some(j) => last_key_index(frame, name@) == j as int && (j as int)
                        < frame.len(),
                    None => last_key_index(frame, name@) < 0,
                }
            }),
    {
        let frame = &self.scopes[fi];
        let ghost fv = self@.scopes[fi as int];
        let mut j: usize = frame.len();
        proof {
            assert(fv =~= frame_view(frame@));
            assert(fv.subrange(0, fv.len() as int) =~= fv);
        }
        while j > 0
            invariant
                j <= fv.len(),
                (fi as int) < self@.scopes.len(),
                fv == self@.scopes[fi as int],
                fv == frame_view(frame@),
                fv.len() == frame@.len(),
                last_key_index(fv, name@) == last_key_index(fv.subrange(0, j as int), name@),
            decreases j,
        {
            proof {
                assert(fv.subrange(0, j as int).last() == fv[j - 1]);
                assert(fv[j - 1].0 == frame@[j - 1].0@);
            }
            if str_eq(frame[j - 1].0.as_str(), name) {
                proof {
                    assert(last_key_index(fv.subrange(0, j as int), name@) == j - 1);
                }
                return Some(j - 1);
            }
            proof {
                assert(fv.subrange(0, j as int).drop_last() =~= fv.subrange(0, j - 1));
            }
            j = j - 1;
        }
        proof {
            assert(fv.subrange(0, 0) =~= Seq::<(Seq<char>, VariableValueV)>::empty());
        }
        None
    }

    /// Looks a name up through the scope stack, innermost frame first.
    fn lookup_var(&self, name: &str) -> (r: Option<VariableValue>)
        ensures
            match r {
                Some(v) => scopes_lookup(self@.scopes, name@) == Some(v@),
                None => scopes_lookup(self@.scopes, name@) is None,
            },
    {
        let ghost sv = self@.scopes;
        let mut si: usize = self.scopes.len();
        proof {
            assert(sv.subrange(0, sv.len() as int) =~= sv);
        }
        while si > 0
            invariant
                si <= sv.len(),
                sv == self@.scopes,
                sv.len() == self.scopes@.len(),
                scopes_lookup(sv, name@) == scopes_lookup(sv.subrange(0, si as int), name@),
            decreases si,
        {
            proof {
                assert(sv.subrange(0, si as int).last() == sv[si - 1]);
            }
            match self.frame_find(si - 1, name) {
                Some(j) => {
                    let v = self.scopes[si - 1][j].1.clone();
                    proof {
                        assert(sv[si - 1][j as int].1 == self.scopes@[si - 1]@[j as int].1@);
                        assert(scopes_lookup(sv.subrange(0, si as int), name@) == Some(
                            sv[si - 1][j as int].1,
                        ));
                    }
                    return Some(v);
                },
                None => {
                    proof {
                        assert(sv.subrange(0, si as int).drop_last() =~= sv.subrange(
                            0,
                            si - 1,
                        ));
                    }
                    si = si - 1;
                },
            }
        }
        proof {
            assert(sv.subrange(0, 0) =~= Seq::<FrameV>::empty());
        }
        None
    }

    /// Binds a name in the innermost frame: replaces its latest binding
    /// there, or appends one.
    fn bind_var(&mut self, name: String, v: VariableValue)
        ensures
            final(self)@ == set_var(old(self)@, name@, v@),
    {
        let ghost st0 = self@;
        let ghost namev = name@;
        let ghost vv = v@;
        let n = self.scopes.len();
        if n == 0 {
            proof {
                assert(final(self)@ =~~= set_var(st0, namev, vv));
            }
            return ;
        }
        let last = n - 1;
        match self.frame_find(last, name.as_str()) {
            Some(j) => {
                self.scopes[last][j] = (name, v);
                proof {
                    let frame0 = st0.scopes[last as int];
                    assert(frame_view(self.scopes@[last as int]@) =~~= frame0.update(
                        j as int,
                        (namev, vv),
                    ));
                    assert(frame_set(frame0, namev, vv) == frame0.update(j as int, (namev, vv)));
                    assert(final(self)@.scopes =~~= set_var(st0, namev, vv).scopes);
                    assert(final(self)@ =~~= set_var(st0, namev, vv));
                }
            },
            None => {
                self.scopes[last].push((name, v));
                proof {
                    let frame0 = st0.scopes[last as int];
                    assert(frame_view(self.scopes@[last as int]@) =~~= frame0.push(
                        (namev, vv),
                    ));
                    assert(frame_set(frame0, namev, vv) == frame0.push((namev, vv)));
                    assert(final(self)@.scopes =~~= set_var(st0, namev, vv).scopes);
                    assert(final(self)@ =~~= set_var(st0, namev, vv));
                }
            },
        }
    }
    /// Lowers the fixed `std` intrinsics, dispatching on the second
    /// segment of the qualified identifier.
    pub fn stdlib(&mut self, idents: &Vec<String>) -> (r: Result<CV, GenError>)
        ensures
            ({
                let sp = spec_stdlib(old(self)@, idents@.map_values(|s: String| s@));
                match r {
                    Ok(v) => sp == Result::<(CompilerV, CV), (CompilerV, GenErrorV)>::Ok(
                        (final(self)@, v),
                    ),
                    Err(er) => sp == Result::<(CompilerV, CV), (CompilerV, GenErrorV)>::Err(
                        (final(self)@, er@),
                    ),
                }
            }),
    {
        let ghost vsegs = idents@.map_values(|s: String| s@);
        if idents.len() < 2 {
            return Err(GenError::MalformedQualifiedIdentifier(String::new()));
        }
        proof {
            assert(vsegs[1] == idents@[1]@);
        }
        if str_eq(idents[1].as_str(), "printf") {
            let ci = match self.cur_index() {
                Some(ci) => ci,
                None => {
                    return Err(GenError::NoCurrentFunction);
                },
            };
            let pi = match self.module.find_function("printf") {
                Some(pi) => pi,
                None => {
                    return Err(GenError::UnresolvedIdentifier(String::from_str("printf")));
                },
            };
            let gi = self.add_global("str_format", GlobalInit::Text(String::from_str("%s\n")));
            let t = self.bump_at(ci);
            let mut cargs: Vec<IrValue> = Vec::new();
            cargs.push(IrValue::GlobalRef(gi));
            proof {
                assert(cargs@ =~= seq![IrValue::GlobalRef(gi)]);
            }
            self.emit_at(ci, Inst::CallFn { dst: t, callee: pi, args: cargs });
            Ok(CV::Int(IrValue::ConstI32(0)))
        } else if str_eq(idents[1].as_str(), "args") {
            let gi = match self.argv_gi {
                Some(gi) => gi,
                None => {
                    return Err(GenError::UnresolvedIdentifier(String::from_str("argv_global")));
                },
            };
            let ci = match self.cur_index() {
                Some(ci) => ci,
                None => {
                    return Err(GenError::NoCurrentFunction);
                },
            };
            let t = self.bump_at(ci);
            self.emit_at(ci, Inst::LoadGlobal { dst: t, global: gi });
            Ok(CV::Ptr(IrValue::Temp(t, true)))
        } else {
            Err(GenError::MalformedQualifiedIdentifier(idents[1].clone()))
        }
    }

    /// Lowers one expression to a value, growing the module exactly as
    /// the lowering rules say.
    #[verifier::rlimit(60)]
    pub fn compile_expr(&mut self, e: &Expr) -> (r: Result<CV, GenError>)
        ensures
            ({
                let sp = spec_compile_expr(old(self)@, e@);
                match r {
                    Ok(v) => sp == Result::<(CompilerV, CV), (CompilerV, GenErrorV)>::Ok(
                        (final(self)@, v),
                    ),
                    Err(er) => sp == Result::<(CompilerV, CV), (CompilerV, GenErrorV)>::Err(
                        (final(self)@, er@),
                    ),
                }
            }),
        decreases *e,
    {
        match e {
            Expr::Num(n) => Ok(CV::Int(IrValue::ConstI32(*n))),
            Expr::Char(c) => {
                let u: u32 = (*c as u32) % 256;
                Ok(CV::Int(IrValue::ConstI8(u as u8)))
            },
            Expr::Str(s) => {
                let gi = self.add_global("global_string", GlobalInit::Text(s.clone()));
                Ok(CV::Ptr(IrValue::GlobalRef(gi)))
            },
            Expr::Ident(name) => match self.lookup_var(name.as_str()) {
                None => Err(GenError::UnresolvedIdentifier(name.clone())),
                Some(VariableValue::Int(v)) => Ok(CV::Int(v)),
                Some(VariableValue::Ptr(v)) => Ok(CV::Ptr(v)),
                Some(VariableValue::Str(target)) => match self.lookup_var(target.as_str()) {
                    Some(VariableValue::Int(v)) => Ok(CV::Int(v)),
                    Some(VariableValue::Ptr(v)) => Ok(CV::Ptr(v)),
                    Some(VariableValue::Str(_)) => Err(GenError::AliasOfAlias(target)),
                    None => Err(GenError::UnresolvedIdentifier(target)),
                },
            },
            Expr::QualifiedIdent(segs) => {
                if segs.len() == 0 {
                    Err(GenError::MalformedQualifiedIdentifier(String::new()))
                } else {
                    proof {
                        assert(segs@.map_values(|s: String| s@)[0] == segs@[0]@);
                    }
                    if !str_eq(segs[0].as_str(), "std") {
                        Err(GenError::MalformedQualifiedIdentifier(segs[0].clone()))
                    } else {
                        self.stdlib(segs)
                    }
                }
            },
            Expr::Array(es) => {
                proof {
                    lemma_exprs_view(es@);
                }
                if es.len() == 0 {
                    return Err(GenError::EmptyArrayLiteral);
                }
                let v0 = match self.compile_expr(&es[0]) {
                    Ok(v) => v,
                    Err(er) => {
                        return Err(er);
                    },
                };
                let ghost st1 = self@;
                let ghost ves = exprs_view(es@);
                let mut i: usize = 1;
                #[verifier::loop_isolation(false)]
                while i < es.len()
                    invariant
                        1 <= i <= es@.len(),
                        ves == exprs_view(es@),
                        ves.len() == es@.len(),
                        forall|j: int| 0 <= j < es@.len() ==> ves[j] == expr_view_of(
                            #[trigger] es@[j],
                        ),
                        match spec_compile_discard(
                            self@,
                            ves.subrange(i as int, ves.len() as int),
                        ) {
                            Ok(stf) => spec_compile_discard(
                                st1,
                                ves.subrange(1, ves.len() as int),
                            ) == Result::<CompilerV, (CompilerV, GenErrorV)>::Ok(stf),
                            Err(ee) => spec_compile_discard(
                                st1,
                                ves.subrange(1, ves.len() as int),
                            ) == Result::<CompilerV, (CompilerV, GenErrorV)>::Err(ee),
                        },
                    decreases es@.len() - i,
                {
                    let ghost pre = self@;
                    match self.compile_expr(&es[i]) {
                        Ok(_) => {
                            proof {
                                assert(ves.subrange(i as int, ves.len() as int)[0] == ves[
                                    i as int]);
                                assert(ves.subrange(i as int, ves.len() as int).drop_first()
                                    =~= ves.subrange(i + 1, ves.len() as int));
                            }
                            i = i + 1;
                        },
                        Err(er) => {
                            proof {
                                assert(ves.subrange(i as int, ves.len() as int)[0] == ves[
                                    i as int]);
                            }
                            return Err(er);
                        },
                    }
                }
                proof {
                    assert(ves.subrange(es@.len() as int, ves.len() as int) =~= Seq::<
                        ExprV,
                    >::empty());
                    assert(ves.drop_first() =~= ves.subrange(1, ves.len() as int));
                }
                let elem_ptr = match v0 {
                    CV::Ptr(_) => true,
                    CV::Int(_) => false,
                };
                let val0 = match v0 {
                    CV::Int(x) => x,
                    CV::Ptr(x) => x,
                };
                let gi = self.add_global(
                    "global_array",
                    GlobalInit::ArrayFirst { len: es.len(), first: val0, elem_ptr },
                );
                Ok(CV::Ptr(IrValue::GlobalRef(gi)))
            },
            Expr::ArrayIndexing(a, ix) => {
                let va = match self.compile_expr(&**a) {
                    Ok(v) => v,
                    Err(er) => {
                        return Err(er);
                    },
                };
                let pv = match va {
                    CV::Ptr(p) => p,
                    CV::Int(_) => {
                        return Err(GenError::TypeMismatch);
                    },
                };
                let vi = match self.compile_expr(&**ix) {
                    Ok(CV::Int(v)) => v,
                    Ok(CV::Ptr(_)) => {
                        return Err(GenError::TypeMismatch);
                    },
                    Err(er) => {
                        return Err(er);
                    },
                };
                let ci = match self.cur_index() {
                    Some(ci) => ci,
                    None => {
                        return Err(GenError::NoCurrentFunction);
                    },
                };
                let t1 = self.bump_at(ci);
                self.emit_at(ci, Inst::Gep { dst: t1, base: pv, index: vi });
                let t2 = self.bump_at(ci);
                self.emit_at(ci, Inst::Load { dst: t2, addr: IrValue::Temp(t1, true) });
                Ok(CV::Ptr(IrValue::Temp(t2, true)))
            },
            Expr::Infix(l, op, rr) => {
                let op_ok = matches!(
                    op,
                    BinaryOp::Add | BinaryOp::Subtract | BinaryOp::Multiply | BinaryOp::Divide
                );
                if !op_ok {
                    return Err(GenError::UnsupportedOperator(*op));
                }
                let lv = match self.compile_expr(&**l) {
                    Ok(CV::Int(v)) => v,
                    Ok(CV::Ptr(_)) => {
                        return Err(GenError::TypeMismatch);
                    },
                    Err(er) => {
                        return Err(er);
                    },
                };
                let rv = match self.compile_expr(&**rr) {
                    Ok(CV::Int(v)) => v,
                    Ok(CV::Ptr(_)) => {
                        return Err(GenError::TypeMismatch);
                    },
                    Err(er) => {
                        return Err(er);
                    },
                };
                let ci = match self.cur_index() {
                    Some(ci) => ci,
                    None => {
                        return Err(GenError::NoCurrentFunction);
                    },
                };
                let t = self.bump_at(ci);
                let inst = match op {
                    BinaryOp::Add => Inst::Add { dst: t, a: lv, b: rv },
                    BinaryOp::Subtract => Inst::Sub { dst: t, a: lv, b: rv },
                    BinaryOp::Multiply => Inst::Mul { dst: t, a: lv, b: rv },
                    _ => Inst::Div { dst: t, a: lv, b: rv },
                };
                self.emit_at(ci, inst);
                Ok(CV::Int(IrValue::Temp(t, false)))
            },
            Expr::Call(fname, args) => {
                proof {
                    lemma_exprs_view(args@);
                }
                let fi = match self.module.find_function(fname.as_str()) {
                    Some(fi) => fi,
                    None => {
                        return Err(GenError::UnresolvedIdentifier(fname.clone()));
                    },
                };
                let n_params = self.module.funcs[fi].n_params;
                let varargs = self.module.funcs[fi].varargs;
                let ret_void = matches!(self.module.funcs[fi].ret, RetKind::Void);
                let arity_ok = if varargs {
                    args.len() >= n_params
                } else {
                    args.len() == n_params
                };
                if !arity_ok {
                    return Err(GenError::ArityMismatch(fname.clone(), n_params, args.len()));
                }
                let ghost st0 = self@;
                let ghost ves = exprs_view(args@);
                let mut vals: Vec<IrValue> = Vec::new();
                let mut i: usize = 0;
                proof {
                    assert(ves.subrange(0, ves.len() as int) =~= ves);
                    assert forall|rest: Seq<IrValue>| true implies #[trigger] vals@.add(rest)
                        =~= rest by {}
                }
                #[verifier::loop_isolation(false)]
                while i < args.len()
                    invariant
                        i <= args@.len(),
                        ves == exprs_view(args@),
                        ves.len() == args@.len(),
                        forall|j: int| 0 <= j < args@.len() ==> ves[j] == expr_view_of(
                            #[trigger] args@[j],
                        ),
                        match spec_compile_args(
                            self@,
                            ves.subrange(i as int, ves.len() as int),
                        ) {
                            Ok((stf, rest)) => spec_compile_args(st0, ves) == Result::<
                                (CompilerV, Seq<IrValue>),
                                (CompilerV, GenErrorV),
                            >::Ok((stf, vals@.add(rest))),
                            Err(ee) => spec_compile_args(st0, ves) == Result::<
                                (CompilerV, Seq<IrValue>),
                                (CompilerV, GenErrorV),
                            >::Err(ee),
                        },
                    decreases args@.len() - i,
                {
                    match self.compile_expr(&args[i]) {
                        Ok(v) => {
                            let val = match v {
                                CV::Int(x) => x,
                                CV::Ptr(x) => x,
                            };
                            proof {
                                assert(ves.subrange(i as int, ves.len() as int)[0] == ves[
                                    i as int]);
                                assert(ves.subrange(i as int, ves.len() as int).drop_first()
                                    =~= ves.subrange(i + 1, ves.len() as int));
                                assert(val == cv_value(v));
                            }
                            let ghost vals_pre = vals@;
                            vals.push(val);
                            proof {
                                assert forall|rest: Seq<IrValue>| true implies vals_pre.add(
                                    seq![val].add(rest),
                                ) =~= vals@.add(rest) by {
                                    assert(vals@ =~= vals_pre.push(val));
                                }
                            }
                            i = i + 1;
                        },
                        Err(er) => {
                            proof {
                                assert(ves.subrange(i as int, ves.len() as int)[0] == ves[
                                    i as int]);
                            }
                            return Err(er);
                        },
                    }
                }
                proof {
                    assert(ves.subrange(args@.len() as int, ves.len() as int) =~= Seq::<
                        ExprV,
                    >::empty());
                    assert(vals@.add(Seq::<IrValue>::empty()) =~= vals@);
                    assert(ves.subrange(0, ves.len() as int) =~= ves);
                }
                let ci = match self.cur_index() {
                    Some(ci) => ci,
                    None => {
                        return Err(GenError::NoCurrentFunction);
                    },
                };
                let t = self.bump_at(ci);
                self.emit_at(ci, Inst::CallFn { dst: t, callee: fi, args: vals });
                if ret_void {
                    Ok(CV::Ptr(IrValue::NullPtr))
                } else {
                    Ok(CV::Int(IrValue::Temp(t, false)))
                }
            },
        }
    }
}

impl Compiler {
    /// Whether the body holds a `return` at its top level.
    fn body_has_return(body: &Vec<Stmt>) -> (r: bool)
        ensures
            r == has_return(stmts_view(body@)),
    {
        proof {
            lemma_stmts_view(body@);
        }
        let ghost vb = stmts_view(body@);
        let mut j: usize = 0;
        while j < body.len()
            invariant
                j <= body@.len(),
                vb == stmts_view(body@),
                vb.len() == body@.len(),
                forall|k: int| 0 <= k < body@.len() ==> vb[k] == stmt_view_of(
                    #[trigger] body@[k],
                ),
                forall|k: int| 0 <= k < j ==> !(#[trigger] vb[k] is Return),
            decreases body@.len() - j,
        {
            if matches!(&body[j], Stmt::Return(_)) {
                proof {
                    assert(vb[j as int] is Return);
                }
                return true;
            }
            proof {
                assert(!(vb[j as int] is Return));
            }
            j = j + 1;
        }
        false
    }

    /// Lowers one statement inside a function body.
    fn compile_body_stmt(&mut self, s: &Stmt) -> (r: Result<(), GenError>)
        ensures
            ({
                let sp = spec_compile_body_stmt(old(self)@, s@);
                match r {
                    Ok(()) => sp == Result::<CompilerV, (CompilerV, GenErrorV)>::Ok(
                        final(self)@,
                    ),
                    Err(er) => sp == Result::<CompilerV, (CompilerV, GenErrorV)>::Err(
                        (final(self)@, er@),
                    ),
                }
            }),
    {
        match s {
            Stmt::Assignment { ident, expr } => match self.compile_expr(expr) {
                Err(er) => Err(er),
                Ok(CV::Int(v)) => {
                    self.bind_var(ident.clone(), VariableValue::Int(v));
                    Ok(())
                },
                Ok(CV::Ptr(v)) => {
                    self.bind_var(ident.clone(), VariableValue::Ptr(v));
                    Ok(())
                },
            },
            Stmt::Return(expr) => match self.compile_expr(expr) {
                Err(er) => Err(er),
                Ok(v) => {
                    let ci = match self.cur_index() {
                        Some(ci) => ci,
                        None => {
                            return Err(GenError::NoCurrentFunction);
                        },
                    };
                    let val = match v {
                        CV::Int(x) => x,
                        CV::Ptr(x) => x,
                    };
                    self.emit_at(ci, Inst::Ret { val: Some(val) });
                    Ok(())
                },
            },
            Stmt::Expression(expr) => match self.compile_expr(expr) {
                Err(er) => Err(er),
                Ok(_) => Ok(()),
            },
            // A function declaration nested in a body is not lowered.
            Stmt::FunctionDeclaration { .. } => Ok(()),
        }
    }

    /// Lowers one top-level statement.
    fn compile_top_stmt(&mut self, s: &Stmt) -> (r: Result<(), GenError>)
        ensures
            ({
                let sp = spec_compile_top_stmt(old(self)@, s@);
                match r {
                    Ok(()) => sp == Result::<CompilerV, (CompilerV, GenErrorV)>::Ok(
                        final(self)@,
                    ),
                    Err(er) => sp == Result::<CompilerV, (CompilerV, GenErrorV)>::Err(
                        (final(self)@, er@),
                    ),
                }
            }),
    {
        match s {
            Stmt::FunctionDeclaration { ident, params, body } => {
                let empty_body: Vec<Inst> = Vec::new();
                proof {
                    assert(empty_body@.map_values(|i: Inst| i@) =~= Seq::<
                        super::ir::InstV,
                    >::empty());
                }
                let fi = self.add_function(
                    IrFunc {
                        name: ident.clone(),
                        n_params: params.len(),
                        ptr_params: alloc_flags(params.len()),
                        varargs: false,
                        is_declaration: false,
                        ret: RetKind::I32,
                        body: empty_body,
                        n_temps: 0,
                    },
                );
                self.cur = Some(fi);
                proof {
                    assert(self@ =~~= (CompilerV {
                        cur: Some(fi),
                        ..push_fn(
                            old(self)@,
                            IrFuncV {
                                name: ident@,
                                n_params: params@.len() as usize,
                                ptr_params: Seq::new(params@.len(), |i: int| false),
                                varargs: false,
                                is_declaration: false,
                                ret: RetKind::I32,
                                body: Seq::empty(),
                                n_temps: 0,
                            },
                        ).0
                    }));
                }
                self.open_frame();
                let ghost pv = params@.map_values(|p: String| p@);
                let ghost st2 = self@;
                let mut i: usize = 0;
                #[verifier::loop_isolation(false)]
                while i < params.len()
                    invariant
                        i <= params@.len(),
                        spec_bind_params(st2, pv, 0) == spec_bind_params(self@, pv, i as int),
                    decreases params@.len() - i,
                {
                    proof {
                        assert(pv[i as int] == params@[i as int]@);
                    }
                    self.bind_var(
                        params[i].clone(),
                        VariableValue::Int(IrValue::Param(i, false)),
                    );
                    i = i + 1;
                }
                let ghost st3 = self@;
                proof {
                    lemma_stmts_view(body@);
                }
                let ghost vb = stmts_view(body@);
                let mut k: usize = 0;
                proof {
                    assert(vb.subrange(0, vb.len() as int) =~= vb);
                }
                #[verifier::loop_isolation(false)]
                while k < body.len()
                    invariant
                        k <= body@.len(),
                        match spec_compile_body(self@, vb.subrange(k as int, vb.len() as int)) {
                            Ok(stf) => spec_compile_body(st3, vb) == Result::<
                                CompilerV,
                                (CompilerV, GenErrorV),
                            >::Ok(stf),
                            Err(ee) => spec_compile_body(st3, vb) == Result::<
                                CompilerV,
                                (CompilerV, GenErrorV),
                            >::Err(ee),
                        },
                    decreases body@.len() - k,
                {
                    proof {
                        assert(vb.subrange(k as int, vb.len() as int)[0] == vb[k as int]);
                        assert(vb.subrange(k as int, vb.len() as int).drop_first()
                            =~= vb.subrange(k + 1, vb.len() as int));
                    }
                    match self.compile_body_stmt(&body[k]) {
                        Ok(()) => {
                            k = k + 1;
                        },
                        Err(er) => {
                            return Err(er);
                        },
                    }
                }
                proof {
                    assert(vb.subrange(body@.len() as int, vb.len() as int) =~= Seq::<
                        crate::ast::StmtV,
                    >::empty());
                }
                if !Self::body_has_return(body) {
                    match self.cur_index() {
                        Some(ci) => {
                            self.emit_at(ci, Inst::Ret { val: Some(IrValue::ConstI32(0)) });
                        },
                        None => {},
                    }
                }
                self.close_frame();
                Ok(())
            },
            Stmt::Assignment { ident, expr } => match expr {
                Expr::Ident(target) => {
                    self.bind_var(ident.clone(), VariableValue::Str(target.clone()));
                    Ok(())
                },
                _ => match self.compile_expr(expr) {
                    Err(er) => Err(er),
                    Ok(CV::Int(v)) => {
                        self.bind_var(ident.clone(), VariableValue::Int(v));
                        Ok(())
                    },
                    Ok(CV::Ptr(_)) => Err(GenError::TypeMismatch),
                },
            },
            Stmt::Return(expr) => match self.compile_expr(expr) {
                Err(er) => Err(er),
                Ok(v) => {
                    let ci = match self.cur_index() {
                        Some(ci) => ci,
                        None => {
                            return Err(GenError::NoCurrentFunction);
                        },
                    };
                    let val = match v {
                        CV::Int(x) => x,
                        CV::Ptr(x) => x,
                    };
                    self.emit_at(ci, Inst::Ret { val: Some(val) });
                    Ok(())
                },
            },
            Stmt::Expression(expr) => match self.compile_expr(expr) {
                Err(er) => Err(er),
                Ok(_) => Ok(()),
            },
        }
    }

    /// Lowers a whole top-level statement list, in program order.
    pub fn compile(&mut self, stmts: &Vec<Stmt>) -> (r: Result<(), GenError>)
        ensures
            ({
                let sp = spec_compile_top(old(self)@, stmts_view(stmts@));
                match r {
                    Ok(()) => sp == Result::<CompilerV, (CompilerV, GenErrorV)>::Ok(
                        final(self)@,
                    ),
                    Err(er) => sp == Result::<CompilerV, (CompilerV, GenErrorV)>::Err(
                        (final(self)@, er@),
                    ),
                }
            }),
    {
        proof {
            lemma_stmts_view(stmts@);
        }
        let ghost st0 = self@;
        let ghost vs = stmts_view(stmts@);
        let mut i: usize = 0;
        proof {
            assert(vs.subrange(0, vs.len() as int) =~= vs);
        }
        #[verifier::loop_isolation(false)]
        while i < stmts.len()
            invariant
                i <= stmts@.len(),
                match spec_compile_top(self@, vs.subrange(i as int, vs.len() as int)) {
                    Ok(stf) => spec_compile_top(st0, vs) == Result::<
                        CompilerV,
                        (CompilerV, GenErrorV),
                    >::Ok(stf),
                    Err(ee) => spec_compile_top(st0, vs) == Result::<
                        CompilerV,
                        (CompilerV, GenErrorV),
                    >::Err(ee),
                },
            decreases stmts@.len() - i,
        {
            proof {
                assert(vs.subrange(i as int, vs.len() as int)[0] == vs[i as int]);
                assert(vs.subrange(i as int, vs.len() as int).drop_first() =~= vs.subrange(
                    i + 1,
                    vs.len() as int,
                ));
            }
            match self.compile_top_stmt(&stmts[i]) {
                Ok(()) => {
                    i = i + 1;
                },
                Err(er) => {
                    return Err(er);
                },
            }
        }
        proof {
            assert(vs.subrange(stmts@.len() as int, vs.len() as int) =~= Seq::<
                crate::ast::StmtV,
            >::empty());
        }
        Ok(())
    }

    /// The standard-library bootstrap: the `printf` declaration and the
    /// `print` and `printd` wrappers.
    pub fn add_stdlib(&mut self)
        ensures
            final(self)@ == spec_add_stdlib(old(self)@),
    {
        let decl_body: Vec<Inst> = Vec::new();
        proof {
            assert(decl_body@.map_values(|i: Inst| i@) =~= Seq::<super::ir::InstV>::empty());
        }
        let pfi = self.add_function(
            IrFunc {
                name: String::from_str("printf"),
                n_params: 1,
                ptr_params: vec![true],
                varargs: true,
                is_declaration: true,
                ret: RetKind::I8,
                body: decl_body,
                n_temps: 0,
            },
        );
        let gs = self.add_global("format_str_s", GlobalInit::Text(String::from_str("%s\n")));
        let print_body: Vec<Inst> = vec![
            Inst::CallFn {
                dst: 0,
                callee: pfi,
                args: vec![IrValue::GlobalRef(gs), IrValue::Param(0, true)],
            },
            Inst::Ret { val: None },
        ];
        proof {
            assert(print_body@.map_values(|i: Inst| i@) =~~= seq![
                super::ir::InstV::CallFn {
                    dst: 0,
                    callee: pfi as usize,
                    args: seq![IrValue::GlobalRef(gs as usize), IrValue::Param(0, true)],
                },
                super::ir::InstV::Ret { val: None },
            ]);
        }
        let _pr = self.add_function(
            IrFunc {
                name: String::from_str("print"),
                n_params: 1,
                ptr_params: vec![true],
                varargs: false,
                is_declaration: false,
                ret: RetKind::Void,
                body: print_body,
                n_temps: 1,
            },
        );
        let gd = self.add_global("format_str_d", GlobalInit::Text(String::from_str("%d\n")));
        let printd_body: Vec<Inst> = vec![
            Inst::CallFn {
                dst: 0,
                callee: pfi,
                args: vec![IrValue::GlobalRef(gd), IrValue::Param(0, false)],
            },
            Inst::Ret { val: Some(IrValue::Param(0, false)) },
        ];
        proof {
            assert(printd_body@.map_values(|i: Inst| i@) =~~= seq![
                super::ir::InstV::CallFn {
                    dst: 0,
                    callee: pfi as usize,
                    args: seq![IrValue::GlobalRef(gd as usize), IrValue::Param(0, false)],
                },
                super::ir::InstV::Ret { val: Some(IrValue::Param(0, false)) },
            ]);
        }
        let _pd = self.add_function(
            IrFunc {
                name: String::from_str("printd"),
                n_params: 1,
                ptr_params: vec![false],
                varargs: false,
                is_declaration: false,
                ret: RetKind::I32,
                body: printd_body,
                n_temps: 1,
            },
        );
        proof {
            assert(final(self)@ =~~= spec_add_stdlib(old(self)@));
        }
    }

    /// Emits the real entry point, which captures `argc` and `argv`
    /// into module globals before any user code runs.
    pub fn emit_main_function(&mut self)
        ensures
            final(self)@ == spec_emit_main(old(self)@),
    {
        let gc = self.add_global("argc_global", GlobalInit::Int32(0));
        let gv = self.add_global("argv_global", GlobalInit::NullPtr);
        let entry_body: Vec<Inst> = vec![
            Inst::StoreGlobal { global: gc, val: IrValue::Param(0, false) },
            Inst::StoreGlobal { global: gv, val: IrValue::Param(1, true) },
        ];
        proof {
            assert(entry_body@.map_values(|i: Inst| i@) =~~= seq![
                super::ir::InstV::StoreGlobal { global: gc as usize, val: IrValue::Param(0, false) },
                super::ir::InstV::StoreGlobal { global: gv as usize, val: IrValue::Param(1, true) },
            ]);
        }
        let fi = self.add_function(
            IrFunc {
                name: String::from_str("main"),
                n_params: 2,
                ptr_params: vec![false, true],
                varargs: false,
                is_declaration: false,
                ret: RetKind::I32,
                body: entry_body,
                n_temps: 0,
            },
        );
        self.cur = Some(fi);
        self.entry = Some(fi);
        self.argc_gi = Some(gc);
        self.argv_gi = Some(gv);
        proof {
            assert(final(self)@ =~~= spec_emit_main(old(self)@));
        }
    }

    /// Splices a call to the renamed user entry into the wrapper entry
    /// function and makes the wrapper return the fixed success code.
    pub fn link_user_main_to_entry(&mut self) -> (r: Result<(), GenError>)
        ensures
            ({
                let sp = spec_link(old(self)@);
                match r {
                    Ok(()) => sp == Result::<CompilerV, (CompilerV, GenErrorV)>::Ok(
                        final(self)@,
                    ),
                    Err(er) => sp == Result::<CompilerV, (CompilerV, GenErrorV)>::Err(
                        (final(self)@, er@),
                    ),
                }
            }),
    {
        let fi = match self.module.find_function("_main") {
            Some(fi) => fi,
            None => {
                return Err(GenError::UnresolvedIdentifier(String::from_str("_main")));
            },
        };
        let ei = match self.entry {
            Some(ei) => ei,
            None => {
                return Err(GenError::NoCurrentFunction);
            },
        };
        if !(ei < self.module.funcs.len()) {
            return Err(GenError::NoCurrentFunction);
        }
        let t = self.bump_at(ei);
        let no_args: Vec<IrValue> = Vec::new();
        proof {
            assert(no_args@ =~= Seq::<IrValue>::empty());
        }
        self.emit_at(ei, Inst::CallFn { dst: t, callee: fi, args: no_args });
        self.emit_at(ei, Inst::Ret { val: Some(IrValue::ConstI32(0)) });
        Ok(())
    }

    /// Hands the finished module out.
    pub fn into_module(self) -> (m: NativeModule)
        ensures
            m@ == (super::ir::NativeModuleV { globals: self@.globals, funcs: self@.funcs }),
    {
        let m = self.module;
        proof {
            assert(m@ =~~= (super::ir::NativeModuleV {
                globals: self@.globals,
                funcs: self@.funcs,
            }));
        }
        m
    }
}

/// `n` pointer-kind flags, all false: a user function's parameters are
/// all 32-bit integers.
fn alloc_flags(n: usize) -> (r: Vec<bool>)
    ensures
        r@ == Seq::new(n as nat, |i: int| false),
{
    let mut v: Vec<bool> = Vec::new();
    let mut i: usize = 0;
    while i < n
        invariant
            i <= n,
            v@ =~= Seq::new(i as nat, |j: int| false),
        decreases n - i,
    {
        v.push(false);
        proof {
            assert(v@ =~= Seq::new((i + 1) as nat, |j: int| false));
        }
        i = i + 1;
    }
    v
}

/// A named form of [`crate::ast::expr_view`], for triggers.
pub open spec fn expr_view_of(e: Expr) -> ExprV {
    crate::ast::expr_view(e)
}

/// A named form of [`crate::ast::stmt_view`], for triggers.
pub open spec fn stmt_view_of(s: Stmt) -> crate::ast::StmtV {
    crate::ast::stmt_view(s)
}

} // verus!
