use asm16::operation::Operation;
use asm16::{identify_line, parse_line, LexedLine, Register};

fn parsed(line: &str) -> asm16::ParsedLine {
    parse_line(7, line).expect("parse_line never fails")
}

#[test]
fn tokenizes_simple_line() {
    let pl = parsed("ADD R1, R2, R3");
    assert_eq!(pl.tokens, vec!["ADD", "R1,", "R2,", "R3"]);
    assert_eq!(pl.comment, None);
    assert_eq!(pl.line_num, 7);
}

#[test]
fn tokenizes_comment_only() {
    let pl = parsed("; just a remark");
    assert!(pl.tokens.is_empty());
    assert_eq!(pl.comment.as_deref(), Some(" just a remark"));
}

#[test]
fn splits_code_from_comment_at_first_semicolon() {
    let pl = parsed("NOP ; first; second");
    assert_eq!(pl.tokens, vec!["NOP"]);
    assert_eq!(pl.comment.as_deref(), Some(" first; second"));
}

#[test]
fn tokenizes_blank_line() {
    let pl = parsed("   \t ");
    assert!(pl.tokens.is_empty());
    assert_eq!(pl.comment, None);
}

#[test]
fn tokenizes_runs_of_whitespace() {
    let pl = parsed("  CONST   R0,\t#5  ");
    assert_eq!(pl.tokens, vec!["CONST", "R0,", "#5"]);
}

#[test]
fn classifies_operation_line() {
    assert!(matches!(identify_line(parsed("ADD R1, R2, R3")), LexedLine::Operation(_)));
}

#[test]
fn classifies_label_line() {
    assert!(matches!(identify_line(parsed("LOOP:")), LexedLine::Label(_)));
}

#[test]
fn classifies_memory_line() {
    assert!(matches!(identify_line(parsed(".data 1 2 3")), LexedLine::Memory(_)));
}

#[test]
fn classifies_blank_as_human() {
    assert!(matches!(identify_line(parsed("  ; hi")), LexedLine::Human(_)));
}

#[test]
fn classifies_unknown_token_as_bad() {
    assert!(matches!(identify_line(parsed("FROB R1")), LexedLine::Bad(_)));
}

#[test]
fn classification_order_prefers_directive_over_label() {
    // A first token both starting with `.` and ending with `:` is a directive.
    assert!(matches!(identify_line(parsed(".odd:")), LexedLine::Memory(_)));
}

#[test]
fn operation_line_has_no_address_before_assignment() {
    match identify_line(parsed("NOP")) {
        LexedLine::Operation(l) => assert_eq!(l.instruct_num, None),
        _ => panic!("expected an operation line"),
    }
}

#[test]
fn register_from_str_accepts_plain_and_comma_forms() {
    assert!(matches!(Register::from_str("R3"), Ok(Register::R3)));
    assert!(matches!(Register::from_str("R3,"), Ok(Register::R3)));
    assert!(matches!(Register::from_str("%blockIdx"), Ok(Register::BlockIdx)));
    assert!(matches!(Register::from_str("%blockDim"), Ok(Register::BlockDim)));
    assert!(matches!(Register::from_str("%threadIdx"), Ok(Register::ThreadIdx)));
    assert!(Register::from_str("R13").is_err());
    assert!(Register::from_str("").is_err());
}

#[test]
fn register_bits_are_the_sixteen_codes() {
    let regs = [
        Register::R0,
        Register::R1,
        Register::R2,
        Register::R3,
        Register::R4,
        Register::R5,
        Register::R6,
        Register::R7,
        Register::R8,
        Register::R9,
        Register::R10,
        Register::R11,
        Register::R12,
        Register::BlockIdx,
        Register::BlockDim,
        Register::ThreadIdx,
    ];
    for (i, r) in regs.iter().enumerate() {
        assert_eq!(r.bits(), i as u16);
    }
}

#[test]
fn register_names_round_trip() {
    assert_eq!(Register::R12.name(), "R12");
    assert_eq!(Register::ThreadIdx.name(), "%threadIdx");
    assert!(matches!(Register::from_str(Register::BlockDim.name()), Ok(Register::BlockDim)));
}

#[test]
fn operation_from_str_knows_all_mnemonics() {
    assert!(matches!(Operation::from_str("NOP"), Ok(Operation::NOP)));
    assert!(matches!(Operation::from_str("BRnzp"), Ok(Operation::BRnzp)));
    assert!(matches!(Operation::from_str("BRn"), Ok(Operation::BRnzp)));
    assert!(matches!(Operation::from_str("CMP"), Ok(Operation::CMP)));
    assert!(matches!(Operation::from_str("ADD"), Ok(Operation::ADD)));
    assert!(matches!(Operation::from_str("SUB"), Ok(Operation::SUB)));
    assert!(matches!(Operation::from_str("MUL"), Ok(Operation::MUL)));
    assert!(matches!(Operation::from_str("DIV"), Ok(Operation::DIV)));
    assert!(matches!(Operation::from_str("LDR"), Ok(Operation::LDR)));
    assert!(matches!(Operation::from_str("STR"), Ok(Operation::STR)));
    assert!(matches!(Operation::from_str("CONST"), Ok(Operation::CONST)));
    assert!(matches!(Operation::from_str("RET"), Ok(Operation::RET)));
    assert!(Operation::from_str("add").is_err());
    assert!(Operation::from_str("").is_err());
}

#[test]
fn operation_table_values() {
    assert_eq!(Operation::NOP.as_opcode(), 0b0000);
    assert_eq!(Operation::BRnzp.as_opcode(), 0b0001);
    assert_eq!(Operation::CMP.as_opcode(), 0b0010);
    assert_eq!(Operation::ADD.as_opcode(), 0b0011);
    assert_eq!(Operation::SUB.as_opcode(), 0b0100);
    assert_eq!(Operation::MUL.as_opcode(), 0b0101);
    assert_eq!(Operation::DIV.as_opcode(), 0b0110);
    assert_eq!(Operation::LDR.as_opcode(), 0b0111);
    assert_eq!(Operation::STR.as_opcode(), 0b1000);
    assert_eq!(Operation::CONST.as_opcode(), 0b1001);
    assert_eq!(Operation::RET.as_opcode(), 0b1111);
    assert_eq!(Operation::NOP.num_args(), 0);
    assert_eq!(Operation::BRnzp.num_args(), 1);
    assert_eq!(Operation::CMP.num_args(), 2);
    assert_eq!(Operation::ADD.num_args(), 3);
    assert_eq!(Operation::LDR.num_args(), 2);
    assert_eq!(Operation::STR.num_args(), 2);
    assert_eq!(Operation::CONST.num_args(), 2);
    assert_eq!(Operation::RET.num_args(), 0);
    assert_eq!(Operation::MUL.name(), "MUL");
}
