//! The closed register file: thirteen general-purpose registers and three
//! special-purpose read-only registers, each with a unique 4-bit code.
use crate::error::LexError;
use crate::text::{str_eq, strip_char, strip_char_spec};
use vstd::prelude::*;

verus! {

#[derive(Debug, Clone, Copy, PartialEq, Eq, Structural)]
pub enum Register {
    R0,
    R1,
    R2,
    R3,
    R4,
    R5,
    R6,
    R7,
    R8,
    R9,
    R10,
    R11,
    R12,
    BlockIdx,
    BlockDim,
    ThreadIdx,
}

/// The unique 4-bit code of each register.
pub open spec fn reg_bits_of(r: Register) -> u16 {
    match r {
        Register::R0 => 0,
        Register::R1 => 1,
        Register::R2 => 2,
        Register::R3 => 3,
        Register::R4 => 4,
        Register::R5 => 5,
        Register::R6 => 6,
        Register::R7 => 7,
        Register::R8 => 8,
        Register::R9 => 9,
        Register::R10 => 10,
        Register::R11 => 11,
        Register::R12 => 12,
        Register::BlockIdx => 13,
        Register::BlockDim => 14,
        Register::ThreadIdx => 15,
    }
}

/// The canonical spelling of each register.
pub open spec fn reg_name_of(r: Register) -> Seq<char> {
    match r {
        Register::R0 => "R0"@,
        Register::R1 => "R1"@,
        Register::R2 => "R2"@,
        Register::R3 => "R3"@,
        Register::R4 => "R4"@,
        Register::R5 => "R5"@,
        Register::R6 => "R6"@,
        Register::R7 => "R7"@,
        Register::R8 => "R8"@,
        Register::R9 => "R9"@,
        Register::R10 => "R10"@,
        Register::R11 => "R11"@,
        Register::R12 => "R12"@,
        Register::BlockIdx => "%blockIdx"@,
        Register::BlockDim => "%blockDim"@,
        Register::ThreadIdx => "%threadIdx"@,
    }
}

/// The register a comma-stripped token names, if any.
pub open spec fn register_of(t: Seq<char>) -> Option<Register> {
    if t == "R0"@ {
        Some(Register::R0)
    } else if t == "R1"@ {
        Some(Register::R1)
    } else if t == "R2"@ {
        Some(Register::R2)
    } else if t == "R3"@ {
        Some(Register::R3)
    } else if t == "R4"@ {
        Some(Register::R4)
    } else if t == "R5"@ {
        Some(Register::R5)
    } else if t == "R6"@ {
        Some(Register::R6)
    } else if t == "R7"@ {
        Some(Register::R7)
    } else if t == "R8"@ {
        Some(Register::R8)
    } else if t == "R9"@ {
        Some(Register::R9)
    } else if t == "R10"@ {
        Some(Register::R10)
    } else if t == "R11"@ {
        Some(Register::R11)
    } else if t == "R12"@ {
        Some(Register::R12)
    } else if t == "%blockIdx"@ {
        Some(Register::BlockIdx)
    } else if t == "%blockDim"@ {
        Some(Register::BlockDim)
    } else if t == "%threadIdx"@ {
        Some(Register::ThreadIdx)
    } else {
        None
    }
}

/// The 4-bit code of the register a raw operand token names, commas ignored.
pub open spec fn reg_code_of(s: Seq<char>) -> Option<u16> {
    match register_of(strip_char_spec(s, ',')) {
        Some(r) => Some(reg_bits_of(r)),
        None => None,
    }
}

impl Register {
    /// The canonical spelling of the register.
    pub fn name(&self) -> (r: &'static str)
        ensures
            r@ == reg_name_of(*self),
    {
        match self {
            Register::R0 => "R0",
            Register::R1 => "R1",
            Register::R2 => "R2",
            Register::R3 => "R3",
            Register::R4 => "R4",
            Register::R5 => "R5",
            Register::R6 => "R6",
            Register::R7 => "R7",
            Register::R8 => "R8",
            Register::R9 => "R9",
            Register::R10 => "R10",
            Register::R11 => "R11",
            Register::R12 => "R12",
            Register::BlockIdx => "%blockIdx",
            Register::BlockDim => "%blockDim",
            Register::ThreadIdx => "%threadIdx",
        }
    }

    /// The unique 4-bit code of the register.
    pub fn bits(&self) -> (r: u16)
        ensures
            r == reg_bits_of(*self),
            r < 16,
    {
        match self {
            Register::R0 => 0,
            Register::R1 => 1,
            Register::R2 => 2,
            Register::R3 => 3,
            Register::R4 => 4,
            Register::R5 => 5,
            Register::R6 => 6,
            Register::R7 => 7,
            Register::R8 => 8,
            Register::R9 => 9,
            Register::R10 => 10,
            Register::R11 => 11,
            Register::R12 => 12,
            Register::BlockIdx => 13,
            Register::BlockDim => 14,
            Register::ThreadIdx => 15,
        }
    }

    /// Resolves a register operand token. Commas are stripped first, so a
    /// trailing list separator is accepted.
    pub fn from_str(s: &str) -> (r: Result<Register, LexError>)
        ensures
            match r {
                Ok(reg) => register_of(strip_char_spec(s@, ',')) == Some(reg),
                Err(e) => register_of(strip_char_spec(s@, ',')) is None && e matches
                    LexError::InvalidArgument(_),
            },
    {
        let no_commas = strip_char(s, ',');
        let t = no_commas.as_str();
        if str_eq(t, "R0") {
            Ok(Register::R0)
        } else if str_eq(t, "R1") {
            Ok(Register::R1)
        } else if str_eq(t, "R2") {
            Ok(Register::R2)
        } else if str_eq(t, "R3") {
            Ok(Register::R3)
        } else if str_eq(t, "R4") {
            Ok(Register::R4)
        } else if str_eq(t, "R5") {
            Ok(Register::R5)
        } else if str_eq(t, "R6") {
            Ok(Register::R6)
        } else if str_eq(t, "R7") {
            Ok(Register::R7)
        } else if str_eq(t, "R8") {
            Ok(Register::R8)
        } else if str_eq(t, "R9") {
            Ok(Register::R9)
        } else if str_eq(t, "R10") {
            Ok(Register::R10)
        } else if str_eq(t, "R11") {
            Ok(Register::R11)
        } else if str_eq(t, "R12") {
            Ok(Register::R12)
        } else if str_eq(t, "%blockIdx") {
            Ok(Register::BlockIdx)
        } else if str_eq(t, "%blockDim") {
            Ok(Register::BlockDim)
        } else if str_eq(t, "%threadIdx") {
            Ok(Register::ThreadIdx)
        } else {
            Err(LexError::InvalidArgument("invalid register string".to_owned()))
        }
    }
}

} // verus!
