//! The parse error handed to callers of the whole-program parser.

use vstd::prelude::*;
use vstd::string::*;

use super::grammar::CustomErrorV;

verus! {

/// A terminal parse error. Both variants carry the remaining unconsumed
/// input, for diagnostics.
#[derive(Debug, PartialEq)]
pub enum CustomError {
    /// The source declared `main` with a non-empty parameter list.
    MainFunctionWithParams(String),
    /// The input did not match the grammar.
    UnexpectedToken(String),
}

impl View for CustomError {
    type V = CustomErrorV;

    open spec fn view(&self) -> CustomErrorV {
        match self {
            CustomError::MainFunctionWithParams(rest) => CustomErrorV::MainFunctionWithParams(
                rest@,
            ),
            CustomError::UnexpectedToken(rest) => CustomErrorV::UnexpectedToken(rest@),
        }
    }
}

impl CustomError {
    /// A short diagnostic line; the remaining input follows the colon.
    pub fn message(&self) -> (r: String)
        ensures
            match self {
                CustomError::MainFunctionWithParams(rest) => r@ == "main function with parameters: "@
                    + rest@,
                CustomError::UnexpectedToken(rest) => r@ == "unexpected token: "@ + rest@,
            },
    {
        match self {
            CustomError::MainFunctionWithParams(rest) => {
                let mut s = String::from_str("main function with parameters: ");
                s.append(rest.as_str());
                s
            },
            CustomError::UnexpectedToken(rest) => {
                let mut s = String::from_str("unexpected token: ");
                s.append(rest.as_str());
                s
            },
        }
    }
}

} // verus!
