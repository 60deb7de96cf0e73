use asm16::encoder::decode_opcode;
use asm16::operation::Operation;
use asm16::{identify_line, operation_conv, parse_line, LexError, LineType};

fn table(labels: &[(&str, u16)]) -> Vec<(String, u16)> {
    labels.iter().map(|(n, a)| (n.to_string(), *a)).collect()
}

fn encode_with(line: &str, labels: &[(&str, u16)]) -> Result<u16, LexError> {
    let lexed = identify_line(parse_line(0, line).expect("parse_line never fails"));
    operation_conv(lexed, &table(labels)).map(|ml| ml.bin.expect("operation line carries a word"))
}

fn encode(line: &str) -> Result<u16, LexError> {
    encode_with(line, &[])
}

#[test]
fn encodes_add_registers_exactly() {
    // ADD opcode 0011, then Rd=0001, Rs=0010, Rt=0011.
    assert_eq!(encode("ADD R1, R2, R3").unwrap(), 0b0011_0001_0010_0011);
}

#[test]
fn encodes_nop_and_ret_as_all_zero_operands() {
    assert_eq!(encode("NOP").unwrap(), 0b0000_0000_0000_0000);
    assert_eq!(encode("RET").unwrap(), 0b1111_0000_0000_0000);
}

#[test]
fn encodes_cmp_str_in_low_fields() {
    assert_eq!(encode("CMP R4, R5").unwrap(), 0b0010_0000_0100_0101);
    assert_eq!(encode("STR R6, R7").unwrap(), 0b1000_0000_0110_0111);
}

#[test]
fn encodes_ldr_in_high_fields() {
    assert_eq!(encode("LDR R8, R9").unwrap(), 0b0111_1000_1001_0000);
}

#[test]
fn encodes_special_registers() {
    // MUL opcode 0101, %blockIdx=1101, %blockDim=1110, %threadIdx=1111.
    assert_eq!(encode("MUL %blockIdx, %blockDim, %threadIdx").unwrap(), 0b0101_1101_1110_1111);
}

#[test]
fn encodes_const_immediate_255() {
    let w = encode("CONST R0, #255").unwrap();
    assert_eq!(w, 0b1001_0000_1111_1111);
    assert_eq!(w & 0xFF, 0b1111_1111);
}

#[test]
fn rejects_const_immediate_256() {
    assert!(matches!(encode("CONST R0, #256"), Err(LexError::InvalidArgument(_))));
}

#[test]
fn rejects_const_non_numeric_immediate() {
    assert!(matches!(encode("CONST R0, #ten"), Err(LexError::InvalidArgument(_))));
    assert!(matches!(encode("CONST R0, #-1"), Err(LexError::InvalidArgument(_))));
}

#[test]
fn const_accepts_plain_and_signed_plus_immediates() {
    assert_eq!(encode("CONST R2, 9").unwrap(), 0b1001_0010_0000_1001);
    assert_eq!(encode("CONST R2, #+9").unwrap(), 0b1001_0010_0000_1001);
}

#[test]
fn branch_packs_condition_and_target() {
    let w = encode_with("BRnzp nz TARGET", &[("TARGET", 3)]).unwrap();
    assert_eq!(w >> 12, 0b0001);
    assert_eq!((w >> 8) & 0xF, 0b1100);
    assert_eq!(w & 0xFF, 3);
}

#[test]
fn branch_condition_is_order_independent_and_dedup() {
    let a = encode_with("BRnzp pzn LOOP", &[("LOOP", 1)]).unwrap();
    let b = encode_with("BRnzp nnzzpp LOOP", &[("LOOP", 1)]).unwrap();
    assert_eq!(a, b);
    assert_eq!((a >> 8) & 0xF, 0b1110);
}

#[test]
fn branch_without_condition_letters_is_rejected() {
    assert!(matches!(
        encode_with("BRnzp TARGET", &[("TARGET", 3)]),
        Err(LexError::InvalidArgument(_))
    ));
}

#[test]
fn branch_to_undefined_label_is_rejected() {
    assert!(matches!(
        encode_with("BRnzp nzp GHOST", &[("OTHER", 3)]),
        Err(LexError::InvalidArgument(_))
    ));
}

#[test]
fn branch_label_match_is_exact_not_substring() {
    assert!(matches!(
        encode_with("BRnzp nzp LOO", &[("LOOP", 3)]),
        Err(LexError::InvalidArgument(_))
    ));
}

#[test]
fn label_lookup_takes_first_definition() {
    let w = encode_with("BRnzp nzp L", &[("L", 2), ("L", 9)]).unwrap();
    assert_eq!(w & 0xFF, 2);
}

#[test]
fn arity_mismatch_is_invalid_operation_for_every_mnemonic() {
    let too_many = [
        "NOP R0",
        "CMP R1, R2, R3",
        "ADD R1, R2, R3, R4",
        "SUB R1, R2, R3, R4",
        "MUL R1, R2, R3, R4",
        "DIV R1, R2, R3, R4",
        "LDR R1, R2, R3",
        "STR R1, R2, R3",
        "CONST R0, #1, #2",
        "RET R0",
        "BRnzp nzp L extra",
    ];
    for line in too_many {
        assert!(
            matches!(encode_with(line, &[("L", 0)]), Err(LexError::InvalidOperation(_))),
            "expected arity rejection for {line}"
        );
    }
    let too_few = ["CMP R1", "ADD R1, R2", "SUB R1", "MUL", "DIV R1", "LDR R1", "STR", "CONST R0",
        "BRnzp"];
    for line in too_few {
        assert!(
            matches!(encode_with(line, &[("L", 0)]), Err(LexError::InvalidOperation(_))),
            "expected arity rejection for {line}"
        );
    }
}

#[test]
fn bad_register_is_invalid_argument() {
    assert!(matches!(encode("ADD R1, R2, R99"), Err(LexError::InvalidArgument(_))));
    assert!(matches!(encode("CMP R1, banana"), Err(LexError::InvalidArgument(_))));
}

#[test]
fn opcode_round_trips_for_every_mnemonic() {
    let cases: [(&str, Operation); 11] = [
        ("NOP", Operation::NOP),
        ("BRnzp nzp L", Operation::BRnzp),
        ("CMP R1, R2", Operation::CMP),
        ("ADD R1, R2, R3", Operation::ADD),
        ("SUB R1, R2, R3", Operation::SUB),
        ("MUL R1, R2, R3", Operation::MUL),
        ("DIV R1, R2, R3", Operation::DIV),
        ("LDR R1, R2", Operation::LDR),
        ("STR R1, R2", Operation::STR),
        ("CONST R1, #7", Operation::CONST),
        ("RET", Operation::RET),
    ];
    for (line, op) in cases {
        let w = encode_with(line, &[("L", 0)]).unwrap();
        let decoded = decode_opcode(w).expect("assigned opcode decodes");
        assert_eq!(decoded, op, "round trip failed for {line}");
        assert_eq!(w >> 12, op.as_opcode());
    }
}

#[test]
fn reserved_opcodes_do_not_decode() {
    for code in 10u16..15u16 {
        assert_eq!(decode_opcode(code << 12), None);
    }
}

#[test]
fn non_operation_lines_pass_through_without_code() {
    let lexed = identify_line(parse_line(4, "LOOP: ; back edge").expect("parses"));
    let ml = operation_conv(lexed, &Vec::new()).unwrap();
    assert_eq!(ml.line_type, LineType::Label);
    assert_eq!(ml.bin, None);
    assert_eq!(ml.line_num, 4);
    assert_eq!(ml.comment.as_deref(), Some(" back edge"));
}

#[test]
fn error_messages_name_their_kind() {
    let err = encode("CONST R0, #999").unwrap_err();
    assert!(err.message().starts_with("invalid argument: "));
    let err = encode("ADD R1, R2").unwrap_err();
    assert!(err.message().starts_with("invalid operation: "));
}
