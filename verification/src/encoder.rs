//! Bit-exact encoding of one operation line into a 16-bit machine word.
use crate::error::{kind_of, ErrKind, LexError};
use crate::lexer::{LexedLine, LineType, ParsedLine};
use crate::operation::{arity_of, mnemonic_of, opcode_of, operation_of_opcode, Operation};
use crate::register::{reg_code_of, Register};
use crate::text::{parse_dec, parse_dec_u32, str_eq, strip_char, strip_char_spec};
use vstd::prelude::*;

verus! {

/// The outcome of assembling one line: its classification, the tokenized
/// line, and the 16-bit code word if the line is an operation.
#[derive(Debug, Clone)]
pub struct MachineLine {
    pub line_type: LineType,
    pub parsed_line: ParsedLine,
    pub bin: Option<u16>,
    pub comment: Option<String>,
    pub line_num: u32,
}

/// A 16-bit word from four 4-bit fields, most significant first.
pub open spec fn word4(a: u16, b: u16, c: u16, d: u16) -> u16 {
    (a * 4096 + b * 256 + c * 16 + d) as u16
}

/// A 16-bit word from two 4-bit fields and an 8-bit low field.
pub open spec fn word_imm(a: u16, b: u16, imm: u16) -> u16 {
    (a * 4096 + b * 256 + imm) as u16
}

/// The branch condition field of a condition token: bit 3 for `n`, bit 2
/// for `z`, bit 1 for `p`; order-independent, duplicates ignored; bit 0
/// always zero.
pub open spec fn nzp_of(s: Seq<char>) -> u16 {
    ((if s.contains('n') {
        8u16
    } else {
        0u16
    }) + (if s.contains('z') {
        4u16
    } else {
        0u16
    }) + (if s.contains('p') {
        2u16
    } else {
        0u16
    })) as u16
}

/// First-defined-wins lookup of a label name in the label table.
pub open spec fn lookup_label(t: Seq<(Seq<char>, u16)>, name: Seq<char>) -> Option<u16>
    decreases t.len(),
{
    if t.len() == 0 {
        None
    } else if t[0].0 == name {
        Some(t[0].1)
    } else {
        lookup_label(t.subrange(1, t.len() as int), name)
    }
}

/// Whether an operand count satisfies an operation's declared arity. The
/// branch counts its condition-and-label pair as one argument, so it admits
/// one or two operand tokens.
pub open spec fn arity_ok(op: Operation, n_args: nat) -> bool {
    if op is BRnzp {
        n_args == 1 || n_args == 2
    } else {
        n_args == arity_of(op)
    }
}

/// Encoding of a branch line after the arity check: the condition field
/// must be nonzero (an empty condition set could never fire), the target
/// must be present, resolve in the label table, and fit in 8 bits.
pub open spec fn encode_branch_spec(tokens: Seq<Seq<char>>, labels: Seq<(Seq<char>, u16)>) -> Result<
    u16,
    ErrKind,
> {
    let nzp = nzp_of(tokens[1]);
    if nzp == 0 {
        Err(ErrKind::InvalidArgument)
    } else if tokens.len() == 2 {
        Err(ErrKind::InvalidArgument)
    } else {
        match lookup_label(labels, tokens[2]) {
            None => Err(ErrKind::InvalidArgument),
            Some(a) => if a <= 255 {
                Ok(word_imm(1, nzp, a))
            } else {
                Err(ErrKind::InvalidArgument)
            },
        }
    }
}

/// Encoding of an operation line whose mnemonic is known and whose arity
/// has been checked, by the fixed per-opcode operand layout.
pub open spec fn encode_fields_spec(
    op: Operation,
    tokens: Seq<Seq<char>>,
    labels: Seq<(Seq<char>, u16)>,
) -> Result<u16, ErrKind> {
    match op {
        Operation::NOP => Ok(word4(0, 0, 0, 0)),
        Operation::RET => Ok(word4(15, 0, 0, 0)),
        Operation::BRnzp => encode_branch_spec(tokens, labels),
        Operation::CMP => match (reg_code_of(tokens[1]), reg_code_of(tokens[2])) {
            (Some(rs), Some(rt)) => Ok(word4(2, 0, rs, rt)),
            _ => Err(ErrKind::InvalidArgument),
        },
        Operation::ADD | Operation::SUB | Operation::MUL | Operation::DIV => match (
            reg_code_of(tokens[1]),
            reg_code_of(tokens[2]),
            reg_code_of(tokens[3]),
        ) {
            (Some(rd), Some(rs), Some(rt)) => Ok(word4(opcode_of(op), rd, rs, rt)),
            _ => Err(ErrKind::InvalidArgument),
        },
        Operation::LDR => match (reg_code_of(tokens[1]), reg_code_of(tokens[2])) {
            (Some(rd), Some(rs)) => Ok(word4(7, rd, rs, 0)),
            _ => Err(ErrKind::InvalidArgument),
        },
        Operation::STR => match (reg_code_of(tokens[1]), reg_code_of(tokens[2])) {
            (Some(rs), Some(rt)) => Ok(word4(8, 0, rs, rt)),
            _ => Err(ErrKind::InvalidArgument),
        },
        Operation::CONST => match (
            reg_code_of(tokens[1]),
            parse_dec(strip_char_spec(tokens[2], '#'), 256),
        ) {
            (Some(rd), Some(imm)) => Ok(word_imm(9, rd, imm as u16)),
            _ => Err(ErrKind::InvalidArgument),
        },
    }
}

/// The complete encoding contract for one operation line: an unknown
/// mnemonic or an arity mismatch is an invalid operation; after that, the
/// fixed per-opcode layout decides, and every operand failure is an invalid
/// argument.
pub open spec fn encode_op_spec(tokens: Seq<Seq<char>>, labels: Seq<(Seq<char>, u16)>) -> Result<
    u16,
    ErrKind,
> {
    if tokens.len() == 0 {
        Err(ErrKind::InvalidOperation)
    } else {
        match mnemonic_of(tokens[0]) {
            None => Err(ErrKind::InvalidOperation),
            Some(op) => if !arity_ok(op, (tokens.len() - 1) as nat) {
                Err(ErrKind::InvalidOperation)
            } else {
                encode_fields_spec(op, tokens, labels)
            },
        }
    }
}

/// The branch condition field of a condition token.
pub fn nzp_flags(s: &str) -> (r: u16)
    ensures
        r == nzp_of(s@),
        r < 16,
{
    let n = s.unicode_len();
    let mut has_n = false;
    let mut has_z = false;
    let mut has_p = false;
    let mut i: usize = 0;
    while i < n
        invariant
            i <= n,
            n == s@.len(),
            has_n <==> exists|j: int| 0 <= j < i && s@[j] == 'n',
            has_z <==> exists|j: int| 0 <= j < i && s@[j] == 'z',
            has_p <==> exists|j: int| 0 <= j < i && s@[j] == 'p',
        decreases n - i,
    {
        let c = s.get_char(i);
        if c == 'n' {
            has_n = true;
        } else if c == 'z' {
            has_z = true;
        } else if c == 'p' {
            has_p = true;
        }
        i += 1;
    }
    (if has_n {
        8u16
    } else {
        0u16
    }) + (if has_z {
        4u16
    } else {
        0u16
    }) + (if has_p {
        2u16
    } else {
        0u16
    })
}

/// First-defined-wins lookup of a label name in the label table.
pub fn find_label(labels: &Vec<(String, u16)>, name: &str) -> (r: Option<u16>)
    ensures
        r == lookup_label(labels.deep_view(), name@),
{
    let n = labels.len();
    let ghost t = labels.deep_view();
    let mut i: usize = 0;
    proof {
        assert(t.subrange(0, n as int) =~= t);
    }
    while i < n
        invariant
            i <= n,
            n == labels.len(),
            t == labels.deep_view(),
            lookup_label(t.subrange(i as int, n as int), name@) == lookup_label(t, name@),
        decreases n - i,
    {
        let ghost suf = t.subrange(i as int, n as int);
        proof {
            assert(suf.len() > 0);
            assert(suf[0] == t[i as int]);
            assert(suf.subrange(1, suf.len() as int) =~= t.subrange(i as int + 1, n as int));
        }
        let pair = &labels[i];
        if str_eq(pair.0.as_str(), name) {
            return Some(pair.1);
        }
        i += 1;
    }
    proof {
        assert(t.subrange(n as int, n as int) =~= Seq::<(Seq<char>, u16)>::empty());
    }
    None
}

/// Encodes the tokens of one operation line into a 16-bit machine word,
/// consulting the label table for branch targets. The result and every
/// error kind are exactly those of `encode_op_spec`.
pub fn encode_operation(tokens: &Vec<String>, labels: &Vec<(String, u16)>) -> (r: Result<
    u16,
    LexError,
>)
    ensures
        match r {
            Ok(w) => encode_op_spec(tokens.deep_view(), labels.deep_view()) == Ok::<u16, ErrKind>(
                w,
            ),
            Err(e) => encode_op_spec(tokens.deep_view(), labels.deep_view()) == Err::<
                u16,
                ErrKind,
            >(kind_of(e)),
        },
{
    let ghost toks = tokens.deep_view();
    if tokens.len() == 0 {
        return Err(LexError::InvalidOperation("empty line has no operation".to_owned()));
    }
    proof {
        assert(toks[0] == tokens@[0]@);
    }
    let op = match Operation::from_str(tokens[0].as_str()) {
        Ok(op) => op,
        Err(_) => {
            return Err(LexError::InvalidOperation("unknown mnemonic".to_owned()));
        },
    };
    let n_args = tokens.len() - 1;
    let arity_holds = if op.is_branch() {
        n_args == 1 || n_args == 2
    } else {
        n_args == op.num_args() as usize
    };
    if !arity_holds {
        return Err(LexError::InvalidOperation("operand count does not match arity".to_owned()));
    }
    proof {
        assert(toks.len() == tokens.len());
        if toks.len() > 1 {
            assert(toks[1] == tokens@[1]@);
        }
        if toks.len() > 2 {
            assert(toks[2] == tokens@[2]@);
        }
        if toks.len() > 3 {
            assert(toks[3] == tokens@[3]@);
        }
    }
    match op {
        Operation::NOP => Ok(0),
        Operation::RET => Ok(61440),
        Operation::BRnzp => {
            let nzp = nzp_flags(tokens[1].as_str());
            if nzp == 0 {
                Err(
                    LexError::InvalidArgument(
                        "branch with no condition flags would never fire".to_owned(),
                    ),
                )
            } else if tokens.len() == 2 {
                Err(LexError::InvalidArgument("branch is missing its target label".to_owned()))
            } else {
                match find_label(labels, tokens[2].as_str()) {
                    None => Err(LexError::InvalidArgument("unresolved label".to_owned())),
                    Some(a) => {
                        if a <= 255 {
                            Ok(4096 + nzp * 256 + a)
                        } else {
                            Err(
                                LexError::InvalidArgument(
                                    "branch target does not fit in 8 bits".to_owned(),
                                ),
                            )
                        }
                    },
                }
            }
        },
        Operation::CMP => {
            let rs = Register::from_str(tokens[1].as_str())?;
            let rt = Register::from_str(tokens[2].as_str())?;
            Ok(2 * 4096 + rs.bits() * 16 + rt.bits())
        },
        Operation::ADD | Operation::SUB | Operation::MUL | Operation::DIV => {
            let rd = Register::from_str(tokens[1].as_str())?;
            let rs = Register::from_str(tokens[2].as_str())?;
            let rt = Register::from_str(tokens[3].as_str())?;
            Ok(op.as_opcode() * 4096 + rd.bits() * 256 + rs.bits() * 16 + rt.bits())
        },
        Operation::LDR => {
            let rd = Register::from_str(tokens[1].as_str())?;
            let rs = Register::from_str(tokens[2].as_str())?;
            Ok(7 * 4096 + rd.bits() * 256 + rs.bits() * 16)
        },
        Operation::STR => {
            let rs = Register::from_str(tokens[1].as_str())?;
            let rt = Register::from_str(tokens[2].as_str())?;
            Ok(8 * 4096 + rs.bits() * 16 + rt.bits())
        },
        Operation::CONST => {
            let rd = Register::from_str(tokens[1].as_str())?;
            let stripped = strip_char(tokens[2].as_str(), '#');
            match parse_dec_u32(stripped.as_str()) {
                Some(v) => {
                    if v <= 255 {
                        Ok(9 * 4096 + rd.bits() * 256 + v as u16)
                    } else {
                        Err(
                            LexError::InvalidArgument(
                                "immediate out of 8-bit range".to_owned(),
                            ),
                        )
                    }
                },
                None => Err(LexError::InvalidArgument("immediate is not a number".to_owned())),
            }
        },
    }
}

/// Converts one classified line to its assembled form. Non-operation lines
/// pass through with no code word; an operation line is encoded against the
/// label table, and its failure aborts the line with the exact error kind
/// of `encode_op_spec`.
pub fn operation_conv(lexed_line: LexedLine, label_addresses: &Vec<(String, u16)>) -> (r: Result<
    MachineLine,
    LexError,
>)
    ensures
        lexed_line.kind() != LineType::Operation ==> (r matches Ok(ml) && ml.line_type
            == lexed_line.kind() && ml.bin is None && ml.parsed_line == lexed_line.parsed_spec()
            && ml.comment == lexed_line.parsed_spec().comment && ml.line_num
            == lexed_line.parsed_spec().line_num),
        lexed_line.kind() == LineType::Operation ==> match r {
            Ok(ml) => {
                &&& ml.line_type == LineType::Operation
                &&& ml.parsed_line == lexed_line.parsed_spec()
                &&& ml.comment == lexed_line.parsed_spec().comment
                &&& ml.line_num == lexed_line.parsed_spec().line_num
                &&& ml.bin matches Some(w) && encode_op_spec(
                    lexed_line.parsed_spec().toks(),
                    label_addresses.deep_view(),
                ) == Ok::<u16, ErrKind>(w)
            },
            Err(e) => encode_op_spec(
                lexed_line.parsed_spec().toks(),
                label_addresses.deep_view(),
            ) == Err::<u16, ErrKind>(kind_of(e)),
        },
{
    let kind = match &lexed_line {
        LexedLine::Operation(_) => LineType::Operation,
        LexedLine::Label(_) => LineType::Label,
        LexedLine::Memory(_) => LineType::Memory,
        LexedLine::Human(_) => LineType::Human,
        LexedLine::Bad(_) => LineType::Bad,
    };
    let parsed = match lexed_line {
        LexedLine::Operation(l) => l.parsed,
        LexedLine::Label(l) => l.parsed,
        LexedLine::Memory(l) => l.parsed,
        LexedLine::Human(l) => l.parsed,
        LexedLine::Bad(l) => l.parsed,
    };
    let bin: Option<u16> = if let LineType::Operation = kind {
        Some(encode_operation(&parsed.tokens, label_addresses)?)
    } else {
        None
    };
    let comment: Option<String> = match &parsed.comment {
        Some(c) => Some(c.clone()),
        None => None,
    };
    Ok(
        MachineLine {
            line_type: kind,
            bin,
            comment,
            line_num: parsed.line_num,
            parsed_line: parsed,
        },
    )
}

/// The operation named by the opcode field of a machine word, if the field
/// is an assigned opcode.
pub fn decode_opcode(w: u16) -> (r: Option<Operation>)
    ensures
        r == operation_of_opcode(crate::opcode_field(w)),
{
    let code = w / 4096;
    if code == 0 {
        Some(Operation::NOP)
    } else if code == 1 {
        Some(Operation::BRnzp)
    } else if code == 2 {
        Some(Operation::CMP)
    } else if code == 3 {
        Some(Operation::ADD)
    } else if code == 4 {
        Some(Operation::SUB)
    } else if code == 5 {
        Some(Operation::MUL)
    } else if code == 6 {
        Some(Operation::DIV)
    } else if code == 7 {
        Some(Operation::LDR)
    } else if code == 8 {
        Some(Operation::STR)
    } else if code == 9 {
        Some(Operation::CONST)
    } else if code == 15 {
        Some(Operation::RET)
    } else {
        None
    }
}

} // verus!
