//! The tree-walking interpreter over the same syntax tree the code
//! generator consumes, and the parsing entry point it shares with the
//! rest of the toolchain.

use vstd::prelude::*;

pub mod interpreter;

use crate::ast::{stmts_view, Stmt, StmtV};
use crate::parsers::error::CustomError;
use crate::parsers::grammar::{spec_parse_program, CustomErrorV};

verus! {

/// Parses a source text into its statement list.
pub fn parse(script: &str) -> (r: Result<Vec<Stmt>, CustomError>)
    ensures
        match r {
            Ok(stmts) => spec_parse_program(script@) == Result::<Seq<StmtV>, CustomErrorV>::Ok(
                stmts_view(stmts@),
            ),
            Err(e) => spec_parse_program(script@) == Result::<Seq<StmtV>, CustomErrorV>::Err(
                e@,
            ),
        },
{
    crate::parsers::parse_program(script)
}

} // verus!
