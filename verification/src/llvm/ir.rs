//! The native module: the in-memory intermediate representation the code
//! generator produces, with its mathematical view. Values are scalars
//! (32- or 8-bit constants, temporaries, parameters) or pointers (to
//! module globals, or loaded); instructions are held per function in
//! emission order. Globals are identified by their index in the module's
//! global list, so two globals are distinct constants exactly when their
//! indices differ.

use vstd::prelude::*;

verus! {

/// A value an instruction may use: constants, virtual registers
/// (temporaries), function parameters, pointers to globals, and the null
/// pointer.
#[derive(Debug, Clone, Copy, PartialEq, Eq, Structural)]
pub enum IrValue {
    ConstI32(i32),
    ConstI8(u8),
    /// A temporary; the flag says whether it holds a pointer.
    Temp(usize, bool),
    /// A parameter slot; the flag says whether it holds a pointer.
    Param(usize, bool),
    GlobalRef(usize),
    NullPtr,
}

/// What a function returns.
#[derive(Debug, Clone, Copy, PartialEq, Eq, Structural)]
pub enum RetKind {
    I32,
    I8,
    Void,
}

/// An instruction. `dst` is the index of the temporary the instruction
/// defines; global and function references are indices into the
/// module's lists.
#[derive(Debug, Clone, PartialEq)]
pub enum Inst {
    Add { dst: usize, a: IrValue, b: IrValue },
    Sub { dst: usize, a: IrValue, b: IrValue },
    Mul { dst: usize, a: IrValue, b: IrValue },
    Div { dst: usize, a: IrValue, b: IrValue },
    CallFn { dst: usize, callee: usize, args: Vec<IrValue> },
    Ret { val: Option<IrValue> },
    StoreGlobal { global: usize, val: IrValue },
    LoadGlobal { dst: usize, global: usize },
    Gep { dst: usize, base: IrValue, index: IrValue },
    Load { dst: usize, addr: IrValue },
}

/// The view of an [`Inst`]: argument lists become sequences.
#[verifier::ext_equal]
pub enum InstV {
    Add { dst: usize, a: IrValue, b: IrValue },
    Sub { dst: usize, a: IrValue, b: IrValue },
    Mul { dst: usize, a: IrValue, b: IrValue },
    Div { dst: usize, a: IrValue, b: IrValue },
    CallFn { dst: usize, callee: usize, args: Seq<IrValue> },
    Ret { val: Option<IrValue> },
    StoreGlobal { global: usize, val: IrValue },
    LoadGlobal { dst: usize, global: usize },
    Gep { dst: usize, base: IrValue, index: IrValue },
    Load { dst: usize, addr: IrValue },
}

impl View for Inst {
    type V = InstV;

    open spec fn view(&self) -> InstV {
        match self {
            Inst::Add { dst, a, b } => InstV::Add { dst: *dst, a: *a, b: *b },
            Inst::Sub { dst, a, b } => InstV::Sub { dst: *dst, a: *a, b: *b },
            Inst::Mul { dst, a, b } => InstV::Mul { dst: *dst, a: *a, b: *b },
            Inst::Div { dst, a, b } => InstV::Div { dst: *dst, a: *a, b: *b },
            Inst::CallFn { dst, callee, args } => InstV::CallFn {
                dst: *dst,
                callee: *callee,
                args: args@,
            },
            Inst::Ret { val } => InstV::Ret { val: *val },
            Inst::StoreGlobal { global, val } => InstV::StoreGlobal {
                global: *global,
                val: *val,
            },
            Inst::LoadGlobal { dst, global } => InstV::LoadGlobal {
                dst: *dst,
                global: *global,
            },
            Inst::Gep { dst, base, index } => InstV::Gep {
                dst: *dst,
                base: *base,
                index: *index,
            },
            Inst::Load { dst, addr } => InstV::Load { dst: *dst, addr: *addr },
        }
    }
}

/// A module-level constant's initializer. A string constant holds its
/// text (null-terminated when rendered); an array constant records its
/// length and element kind but stores only its first element, faithfully
/// to the lowering rule it implements.
#[derive(Debug, Clone, PartialEq)]
pub enum GlobalInit {
    Text(String),
    Int32(i32),
    NullPtr,
    ArrayFirst { len: usize, first: IrValue, elem_ptr: bool },
}

/// The view of a [`GlobalInit`].
#[verifier::ext_equal]
pub enum GlobalInitV {
    Text(Seq<char>),
    Int32(i32),
    NullPtr,
    ArrayFirst { len: usize, first: IrValue, elem_ptr: bool },
}

impl View for GlobalInit {
    type V = GlobalInitV;

    open spec fn view(&self) -> GlobalInitV {
        match self {
            GlobalInit::Text(s) => GlobalInitV::Text(s@),
            GlobalInit::Int32(n) => GlobalInitV::Int32(*n),
            GlobalInit::NullPtr => GlobalInitV::NullPtr,
            GlobalInit::ArrayFirst { len, first, elem_ptr } => GlobalInitV::ArrayFirst {
                len: *len,
                first: *first,
                elem_ptr: *elem_ptr,
            },
        }
    }
}

/// A module-level constant. Its identity is its index in the module's
/// global list; `name` is only the label stem it is rendered under.
#[derive(Debug, Clone, PartialEq)]
pub struct GlobalDef {
    pub name: String,
    pub init: GlobalInit,
}

/// The view of a [`GlobalDef`].
#[verifier::ext_equal]
pub struct GlobalDefV {
    pub name: Seq<char>,
    pub init: GlobalInitV,
}

impl View for GlobalDef {
    type V = GlobalDefV;

    open spec fn view(&self) -> GlobalDefV {
        GlobalDefV { name: self.name@, init: self.init@ }
    }
}

/// A function of the module: a declaration (no body) or a definition
/// holding its instructions in emission order. `n_temps` counts the
/// temporaries its body defines.
#[derive(Debug, Clone, PartialEq)]
pub struct IrFunc {
    pub name: String,
    pub n_params: usize,
    /// Which parameter slots are pointer-typed, for rendering.
    pub ptr_params: Vec<bool>,
    pub varargs: bool,
    pub is_declaration: bool,
    pub ret: RetKind,
    pub body: Vec<Inst>,
    pub n_temps: usize,
}

/// The view of an [`IrFunc`].
#[verifier::ext_equal]
pub struct IrFuncV {
    pub name: Seq<char>,
    pub n_params: usize,
    /// Which parameter slots are pointer-typed, for rendering.
    pub ptr_params: Seq<bool>,
    pub varargs: bool,
    pub is_declaration: bool,
    pub ret: RetKind,
    pub body: Seq<InstV>,
    pub n_temps: usize,
}

impl View for IrFunc {
    type V = IrFuncV;

    open spec fn view(&self) -> IrFuncV {
        IrFuncV {
            name: self.name@,
            n_params: self.n_params,
            ptr_params: self.ptr_params@,
            varargs: self.varargs,
            is_declaration: self.is_declaration,
            ret: self.ret,
            body: self.body@.map_values(|i: Inst| i@),
            n_temps: self.n_temps,
        }
    }
}

/// The generated module: globals and functions, each identified by
/// index.
#[derive(Debug, Clone, PartialEq)]
pub struct NativeModule {
    pub globals: Vec<GlobalDef>,
    pub funcs: Vec<IrFunc>,
}

/// The view of a [`NativeModule`].
#[verifier::ext_equal]
pub struct NativeModuleV {
    pub globals: Seq<GlobalDefV>,
    pub funcs: Seq<IrFuncV>,
}

impl View for NativeModule {
    type V = NativeModuleV;

    open spec fn view(&self) -> NativeModuleV {
        NativeModuleV {
            globals: self.globals@.map_values(|g: GlobalDef| g@),
            funcs: self.funcs@.map_values(|f: IrFunc| f@),
        }
    }
}

/// The first function of the module carrying the given name, if any.
/// Name resolution for calls and entry linking goes through this.
pub open spec fn find_fn_from(funcs: Seq<IrFuncV>, name: Seq<char>, i: int) -> Option<int>
    decreases funcs.len() - i,
{
    if i < 0 || i >= funcs.len() {
        None
    } else if funcs[i].name == name {
        Some(i)
    } else {
        find_fn_from(funcs, name, i + 1)
    }
}

/// See [`find_fn_from`].
pub open spec fn find_fn(funcs: Seq<IrFuncV>, name: Seq<char>) -> Option<int> {
    find_fn_from(funcs, name, 0)
}

impl NativeModule {
    /// The index of the first function with this name.
    pub fn find_function(&self, name: &str) -> (r: Option<usize>)
        ensures
            match r {
                Some(i) => find_fn(self@.funcs, name@) == Some(i as int) && i < self@.funcs.len(),
                None => find_fn(self@.funcs, name@) is None,
            },
    {
        let mut i: usize = 0;
        while i < self.funcs.len()
            invariant
                i <= self@.funcs.len(),
                find_fn(self@.funcs, name@) == find_fn_from(self@.funcs, name@, i as int),
            decreases self@.funcs.len() - i,
        {
            if crate::text::str_eq(self.funcs[i].name.as_str(), name) {
                proof {
                    assert(self@.funcs[i as int].name == name@);
                }
                return Some(i);
            }
            i = i + 1;
        }
        None
    }
}

} // verus!
