//! The structured error values the pipeline produces. Equality is
//! structural so callers can compare them literally.

use vstd::prelude::*;
use crate::token::{Token, TokenV};
use crate::symbol_table::{DataType, DataTypeV};

verus! {

/// Every way a compilation can fail. `DevError` marks a broken internal
/// invariant rather than a fault in the source program.
#[derive(Debug, Clone, PartialEq)]
pub enum ErrorType {
    UnrecognizedToken { token: String },
    UnexpectedToken { expected: Token, found: Token, position: usize },
    UndefinedSymbol { name: Vec<char> },
    TypeMismatch { expected: DataType, found: DataType },
    DevError {},
}

/// Mathematical model of an error value.
pub enum ErrorV {
    UnrecognizedToken { token: Seq<char> },
    UnexpectedToken { expected: TokenV, found: TokenV, position: usize },
    UndefinedSymbol { name: Seq<char> },
    TypeMismatch { expected: DataTypeV, found: DataTypeV },
    DevError,
}

impl View for ErrorType {
    type V = ErrorV;

    open spec fn view(&self) -> ErrorV {
        match self {
            ErrorType::UnrecognizedToken { token } => ErrorV::UnrecognizedToken { token: token@ },
            ErrorType::UnexpectedToken { expected, found, position } => ErrorV::UnexpectedToken {
                expected: expected@,
                found: found@,
                position: *position,
            },
            ErrorType::UndefinedSymbol { name } => ErrorV::UndefinedSymbol { name: name@ },
            ErrorType::TypeMismatch { expected, found } => ErrorV::TypeMismatch {
                expected: expected@,
                found: found@,
            },
            ErrorType::DevError {} => ErrorV::DevError,
        }
    }
}

/// The view of a list of errors.
pub open spec fn errors_view(es: Seq<ErrorType>) -> Seq<ErrorV> {
    es.map_values(|e: ErrorType| e@)
}

} // verus!
