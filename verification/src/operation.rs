//! The closed instruction set: mnemonics, opcodes and argument arities.
use crate::text::str_eq;
use vstd::prelude::*;

verus! {

/// The eleven operations of the instruction set.
#[derive(Debug, Clone, Copy, PartialEq, Eq, Structural)]
pub enum Operation {
    NOP,
    BRnzp,
    CMP,
    ADD,
    SUB,
    MUL,
    DIV,
    LDR,
    STR,
    CONST,
    RET,
}

/// Error for a token that names no operation.
#[derive(Debug)]
pub enum ParseOperationError {
    InvalidOperation(String),
}

impl ParseOperationError {
    /// A human-readable description of the error.
    pub fn message(&self) -> (r: String)
        ensures
            match *self {
                ParseOperationError::InvalidOperation(ref m) => r@ == "invalid operation: "@ + m@,
            },
    {
        let mut out = String::new();
        match self {
            ParseOperationError::InvalidOperation(m) => {
                out.append("invalid operation: ");
                out.append(m.as_str());
            },
        }
        out
    }
}

/// The 4-bit opcode of each operation.
pub open spec fn opcode_of(op: Operation) -> u16 {
    match op {
        Operation::NOP => 0,
        Operation::BRnzp => 1,
        Operation::CMP => 2,
        Operation::ADD => 3,
        Operation::SUB => 4,
        Operation::MUL => 5,
        Operation::DIV => 6,
        Operation::LDR => 7,
        Operation::STR => 8,
        Operation::CONST => 9,
        Operation::RET => 15,
    }
}

/// The operation a 4-bit opcode decodes to, if any.
pub open spec fn operation_of_opcode(code: u16) -> Option<Operation> {
    if code == 0 {
        Some(Operation::NOP)
    } else if code == 1 {
        Some(Operation::BRnzp)
    } else if code == 2 {
        Some(Operation::CMP)
    } else if code == 3 {
        Some(Operation::ADD)
    } else if code == 4 {
        Some(Operation::SUB)
    } else if code == 5 {
        Some(Operation::MUL)
    } else if code == 6 {
        Some(Operation::DIV)
    } else if code == 7 {
        Some(Operation::LDR)
    } else if code == 8 {
        Some(Operation::STR)
    } else if code == 9 {
        Some(Operation::CONST)
    } else if code == 15 {
        Some(Operation::RET)
    } else {
        None
    }
}

/// The declared argument arity of each operation. The branch counts its
/// condition-and-label token pair as a single argument.
pub open spec fn arity_of(op: Operation) -> nat {
    match op {
        Operation::NOP => 0,
        Operation::BRnzp => 1,
        Operation::CMP => 2,
        Operation::ADD => 3,
        Operation::SUB => 3,
        Operation::MUL => 3,
        Operation::DIV => 3,
        Operation::LDR => 2,
        Operation::STR => 2,
        Operation::CONST => 2,
        Operation::RET => 0,
    }
}

/// The canonical spelling of each operation.
pub open spec fn name_of(op: Operation) -> Seq<char> {
    match op {
        Operation::NOP => "NOP"@,
        Operation::BRnzp => "BRnzp"@,
        Operation::CMP => "CMP"@,
        Operation::ADD => "ADD"@,
        Operation::SUB => "SUB"@,
        Operation::MUL => "MUL"@,
        Operation::DIV => "DIV"@,
        Operation::LDR => "LDR"@,
        Operation::STR => "STR"@,
        Operation::CONST => "CONST"@,
        Operation::RET => "RET"@,
    }
}

/// The operation a mnemonic token names, if any. The spelling `BRn` is an
/// accepted alias for the branch.
pub open spec fn mnemonic_of(s: Seq<char>) -> Option<Operation> {
    if s == "NOP"@ {
        Some(Operation::NOP)
    } else if s == "BRnzp"@ || s == "BRn"@ {
        Some(Operation::BRnzp)
    } else if s == "CMP"@ {
        Some(Operation::CMP)
    } else if s == "ADD"@ {
        Some(Operation::ADD)
    } else if s == "SUB"@ {
        Some(Operation::SUB)
    } else if s == "MUL"@ {
        Some(Operation::MUL)
    } else if s == "DIV"@ {
        Some(Operation::DIV)
    } else if s == "LDR"@ {
        Some(Operation::LDR)
    } else if s == "STR"@ {
        Some(Operation::STR)
    } else if s == "CONST"@ {
        Some(Operation::CONST)
    } else if s == "RET"@ {
        Some(Operation::RET)
    } else {
        None
    }
}

impl Operation {
    /// The canonical spelling of the operation.
    pub fn name(&self) -> (r: &'static str)
        ensures
            r@ == name_of(*self),
    {
        match self {
            Operation::NOP => "NOP",
            Operation::BRnzp => "BRnzp",
            Operation::CMP => "CMP",
            Operation::ADD => "ADD",
            Operation::SUB => "SUB",
            Operation::MUL => "MUL",
            Operation::DIV => "DIV",
            Operation::LDR => "LDR",
            Operation::STR => "STR",
            Operation::CONST => "CONST",
            Operation::RET => "RET",
        }
    }

    /// The 4-bit opcode of the operation.
    pub fn as_opcode(&self) -> (r: u16)
        ensures
            r == opcode_of(*self),
            r < 16,
    {
        match self {
            Operation::NOP => 0,
            Operation::BRnzp => 1,
            Operation::CMP => 2,
            Operation::ADD => 3,
            Operation::SUB => 4,
            Operation::MUL => 5,
            Operation::DIV => 6,
            Operation::LDR => 7,
            Operation::STR => 8,
            Operation::CONST => 9,
            Operation::RET => 15,
        }
    }

    /// The declared argument arity of the operation.
    pub fn num_args(&self) -> (r: u8)
        ensures
            r as nat == arity_of(*self),
    {
        match self {
            Operation::NOP => 0,
            Operation::BRnzp => 1,
            Operation::CMP => 2,
            Operation::ADD => 3,
            Operation::SUB => 3,
            Operation::MUL => 3,
            Operation::DIV => 3,
            Operation::LDR => 2,
            Operation::STR => 2,
            Operation::CONST => 2,
            Operation::RET => 0,
        }
    }

    /// Whether this operation is the branch, whose arity rule is special.
    pub fn is_branch(&self) -> (r: bool)
        ensures
            r == (*self is BRnzp),
    {
        match self {
            Operation::BRnzp => true,
            _ => false,
        }
    }

    /// Looks a mnemonic token up in the fixed operation table.
    pub fn from_str(s: &str) -> (r: Result<Operation, ParseOperationError>)
        ensures
            match r {
                Ok(op) => mnemonic_of(s@) == Some(op),
                Err(ParseOperationError::InvalidOperation(m)) => mnemonic_of(s@) is None && m@
                    == s@,
            },
    {
        if str_eq(s, "NOP") {
            Ok(Operation::NOP)
        } else if str_eq(s, "BRnzp") || str_eq(s, "BRn") {
            Ok(Operation::BRnzp)
        } else if str_eq(s, "CMP") {
            Ok(Operation::CMP)
        } else if str_eq(s, "ADD") {
            Ok(Operation::ADD)
        } else if str_eq(s, "SUB") {
            Ok(Operation::SUB)
        } else if str_eq(s, "MUL") {
            Ok(Operation::MUL)
        } else if str_eq(s, "DIV") {
            Ok(Operation::DIV)
        } else if str_eq(s, "LDR") {
            Ok(Operation::LDR)
        } else if str_eq(s, "STR") {
            Ok(Operation::STR)
        } else if str_eq(s, "CONST") {
            Ok(Operation::CONST)
        } else if str_eq(s, "RET") {
            Ok(Operation::RET)
        } else {
            Err(ParseOperationError::InvalidOperation(s.to_owned()))
        }
    }
}

} // verus!
