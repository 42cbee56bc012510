//! The code generator: lowers a parsed statement list into a native
//! module of LLVM-style textual IR.
//!
//! [`ir`] is the module representation, [`lowering`] the mathematical
//! definition of the lowering rules, [`compiler`] the verified
//! generator, [`codegen`] the whole pipeline, and [`render`] the
//! serializer to IR text.

use vstd::prelude::*;

pub mod codegen;
pub mod compiler;
pub mod ir;
pub mod lowering;
pub mod render;

use crate::ast::{stmts_view, Stmt};
use compiler::GenError;
use lowering::{spec_emit_module, GenErrorV};
use render::spec_module_text;

verus! {

/// Lowers a parsed program and renders it: the whole code-generation
/// pipeline, ending in textual IR ready for a native toolchain.
pub fn emit(stmts: &Vec<Stmt>) -> (r: Result<String, GenError>)
    ensures
        match (r, spec_emit_module(stmts_view(stmts@))) {
            (Ok(text), Ok(mv)) => text@ == spec_module_text(mv),
            (Err(e), Err(ev)) => e@ == ev,
            _ => false,
        },
{
    match codegen::emit_from_statements(stmts) {
        Ok(m) => Ok(render::module_to_text(&m)),
        Err(e) => Err(e),
    }
}

} // verus!
