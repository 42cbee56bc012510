//! The whole generation pipeline on a parsed program: standard-library
//! bootstrap, entry-point emission, user-code lowering, entry linking.

use vstd::prelude::*;

use crate::ast::{stmts_view, Stmt};
use super::compiler::{Compiler, GenError};
use super::ir::NativeModule;
use super::lowering::spec_emit_module;

verus! {

/// Lowers a parsed statement list into a finished native module, or
/// reports the first generation error.
pub fn emit_from_statements(ast: &Vec<Stmt>) -> (r: Result<NativeModule, GenError>)
    ensures
        match r {
            Ok(m) => spec_emit_module(stmts_view(ast@)) == Result::<
                super::ir::NativeModuleV,
                super::lowering::GenErrorV,
            >::Ok(m@),
            Err(e) => spec_emit_module(stmts_view(ast@)) == Result::<
                super::ir::NativeModuleV,
                super::lowering::GenErrorV,
            >::Err(e@),
        },
{
    let mut compiler = Compiler::new();
    compiler.add_stdlib();
    compiler.emit_main_function();
    match compiler.compile(ast) {
        Ok(()) => {},
        Err(e) => {
            return Err(e);
        },
    }
    match compiler.link_user_main_to_entry() {
        Ok(()) => {},
        Err(e) => {
            return Err(e);
        },
    }
    Ok(compiler.into_module())
}

} // verus!
