//! The assembler's error type and its specification-level kind.
use vstd::prelude::*;

verus! {

/// A terminal error for the line that produced it: either an unknown
/// operation or arity mismatch, or a malformed operand.
#[derive(Debug)]
pub enum LexError {
    InvalidOperation(String),
    InvalidArgument(String),
}

/// The kind of a `LexError`, without its descriptive payload. Contracts pin
/// the kind of every error; the payload is free-form diagnostic text.
#[derive(Debug, Clone, Copy, PartialEq, Eq, Structural)]
pub enum ErrKind {
    InvalidOperation,
    InvalidArgument,
}

pub open spec fn kind_of(e: LexError) -> ErrKind {
    match e {
        LexError::InvalidOperation(_) => ErrKind::InvalidOperation,
        LexError::InvalidArgument(_) => ErrKind::InvalidArgument,
    }
}

impl LexError {
    /// A human-readable description of the error.
    pub fn message(&self) -> (r: String)
        ensures
            match *self {
                LexError::InvalidOperation(ref m) => r@ == "invalid operation: "@ + m@,
                LexError::InvalidArgument(ref m) => r@ == "invalid argument: "@ + m@,
            },
    {
        let mut out = String::new();
        match self {
            LexError::InvalidOperation(m) => {
                out.append("invalid operation: ");
                out.append(m.as_str());
            },
            LexError::InvalidArgument(m) => {
                out.append("invalid argument: ");
                out.append(m.as_str());
            },
        }
        out
    }
}

} // verus!
