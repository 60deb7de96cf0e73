//! A two-pass assembler for a small 16-bit register-machine instruction set.
//!
//! The pipeline tokenizes source lines, classifies them, assigns dense
//! instruction addresses to operation lines, resolves labels to addresses,
//! encodes each operation into a 16-bit machine word, and collects memory
//! directives into an output artifact.
pub mod artifact;
pub mod encoder;
pub mod error;
pub mod laws;
pub mod lexer;
pub mod operation;
pub mod passes;
pub mod register;
pub mod text;

pub use crate::artifact::{assemble, OutputArtifact};
pub use crate::encoder::{operation_conv, MachineLine};
pub use crate::error::LexError;
pub use crate::lexer::{identify_line, parse_line, BadLine, HumanLine, LabelLine, LexedLine,
    LineType, MemoryLine, OperationLine, ParsedLine};
pub use crate::passes::extract_label_assoc_lines;
pub use crate::register::Register;

use vstd::prelude::*;

verus! {

/// The 4-bit opcode field of a 16-bit machine word.
pub open spec fn opcode_field(w: u16) -> u16 {
    w / 4096
}

} // verus!
