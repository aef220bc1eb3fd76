//! Structured failures of the pipeline.
//!
//! Every stage reports its failure as a value of `Error`, propagated to the
//! caller; nothing in the library aborts the process. The driver around the
//! library owns the single point of termination and diagnostic rendering.

use vstd::prelude::*;

use crate::token::{Token, TokenV};

verus! {

/// A failure of lexing, parsing, evaluation or import.
#[derive(Debug)]
pub enum Error {
    /// A character that begins no token.
    LexError { ch: char },
    /// A token other than the one the grammar requires here. `expected` is
    /// absent where no single token was required.
    ParseError { expected: Option<Token>, found: Token },
    /// A variable read before any assignment to it.
    UndefinedVariable { name: String },
    /// A call of a function that was never defined.
    UndefinedFunction { name: String },
    /// A division whose divisor is exactly zero.
    DivisionByZero,
    /// A value of the wrong kind handed to a builtin (an imaginary part
    /// where a real number is needed, or a register width out of range).
    InvalidOperand,
    /// A logarithm argument outside the function's domain.
    LogDomain,
    /// Evaluation nested deeper than the given budget.
    DepthExceeded,
    /// An import whose module source is not available.
    ImportError { name: String },
}

/// The mathematical view of an `Error`.
pub enum ErrV {
    LexError { ch: char },
    ParseError { expected: Option<TokenV>, found: TokenV },
    UndefinedVariable { name: Seq<char> },
    UndefinedFunction { name: Seq<char> },
    DivisionByZero,
    InvalidOperand,
    LogDomain,
    DepthExceeded,
    ImportError { name: Seq<char> },
}

impl View for Error {
    type V = ErrV;

    open spec fn view(&self) -> ErrV {
        match self {
            Error::LexError { ch } => ErrV::LexError { ch: *ch },
            Error::ParseError { expected, found } => ErrV::ParseError {
                expected: match expected {
                    Some(t) => Some(t@),
                    None => None,
                },
                found: found@,
            },
            Error::UndefinedVariable { name } => ErrV::UndefinedVariable { name: name@ },
            Error::UndefinedFunction { name } => ErrV::UndefinedFunction { name: name@ },
            Error::DivisionByZero => ErrV::DivisionByZero,
            Error::InvalidOperand => ErrV::InvalidOperand,
            Error::LogDomain => ErrV::LogDomain,
            Error::DepthExceeded => ErrV::DepthExceeded,
            Error::ImportError { name } => ErrV::ImportError { name: name@ },
        }
    }
}

} // verus!
