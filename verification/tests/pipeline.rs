use asm16::artifact::lex_lines;
use asm16::passes::{assign_addresses, collect_directives, resolve_labels, unknown_directives};
use asm16::{assemble, extract_label_assoc_lines, LexError, LexedLine};

fn src(lines: &[&str]) -> Vec<String> {
    lines.iter().map(|l| l.to_string()).collect()
}

fn addresses(lines: &[&str]) -> Vec<Option<u16>> {
    let assigned = assign_addresses(lex_lines(&src(lines)));
    assigned
        .iter()
        .map(|l| match l {
            LexedLine::Operation(op) => op.instruct_num,
            _ => None,
        })
        .collect()
}

#[test]
fn addresses_are_dense_and_skip_non_operations() {
    let addrs = addresses(&[
        "LOOP:",
        "NOP",
        "; commentary",
        ".data 1 2",
        "ADD R1, R2, R3",
        "whatnow",
        "",
        "RET",
    ]);
    assert_eq!(
        addrs,
        vec![None, Some(0), None, None, Some(1), None, None, Some(2)]
    );
}

#[test]
fn addresses_of_pure_operation_program_count_up() {
    let addrs = addresses(&["NOP", "NOP", "NOP"]);
    assert_eq!(addrs, vec![Some(0), Some(1), Some(2)]);
}

#[test]
fn label_resolves_to_following_operation_address() {
    // FIVE: precedes the operation at address 5; the branch target byte
    // must be 00000101.
    let program = src(&[
        "NOP",
        "NOP",
        "NOP",
        "NOP",
        "NOP",
        "FIVE:",
        "NOP",
        "BRnzp nzp FIVE",
    ]);
    let art = assemble(&program).unwrap();
    assert_eq!(art.program_memory.len(), 7);
    let branch = art.program_memory[6];
    assert_eq!(branch & 0xFF, 0b0000_0101);
}

#[test]
fn end_to_end_loop_scenario() {
    let program = src(&["LOOP:", "CONST R0, #5", "BRnzp nzp LOOP"]);
    let art = assemble(&program).unwrap();
    assert_eq!(art.program_memory.len(), 2);
    assert_eq!(art.program_memory[0], 0b1001_0000_0000_0101);
    let branch = art.program_memory[1];
    assert_eq!(branch & 0xFF, 0b0000_0000);
    assert_eq!(branch, 0b0001_1110_0000_0000);
    assert_eq!(art.initial_data, Vec::<u8>::new());
    assert_eq!(art.threads, 1);
}

#[test]
fn assemble_empty_source_yields_empty_artifact() {
    let art = assemble(&src(&[])).unwrap();
    assert!(art.program_memory.is_empty());
    assert!(art.initial_data.is_empty());
    assert_eq!(art.threads, 1);
}

#[test]
fn data_directives_concatenate_in_source_order() {
    let program = src(&[".data 1 2 3", "NOP", ".data 250 0", ".threads 4"]);
    let art = assemble(&program).unwrap();
    assert_eq!(art.initial_data, vec![1, 2, 3, 250, 0]);
    assert_eq!(art.threads, 4);
}

#[test]
fn malformed_data_byte_aborts_assembly() {
    assert!(matches!(
        assemble(&src(&[".data 1 banana 3", "NOP"])),
        Err(LexError::InvalidArgument(_))
    ));
    assert!(matches!(
        assemble(&src(&[".data 256", "NOP"])),
        Err(LexError::InvalidArgument(_))
    ));
}

#[test]
fn threads_directive_defaults_to_one_when_malformed_or_absent() {
    assert_eq!(assemble(&src(&["NOP"])).unwrap().threads, 1);
    assert_eq!(assemble(&src(&[".threads"])).unwrap().threads, 1);
    assert_eq!(assemble(&src(&[".threads soon"])).unwrap().threads, 1);
    assert_eq!(assemble(&src(&[".threads 8", ".threads 2"])).unwrap().threads, 8);
}

#[test]
fn label_without_following_operation_is_rejected() {
    assert!(matches!(
        assemble(&src(&["NOP", "END:"])),
        Err(LexError::InvalidArgument(_))
    ));
}

#[test]
fn multi_token_label_line_is_rejected() {
    assert!(matches!(
        assemble(&src(&["HERE: NOP", "NOP"])),
        Err(LexError::InvalidArgument(_))
    ));
}

#[test]
fn duplicate_labels_resolve_to_first_definition() {
    let program = src(&["A:", "NOP", "A:", "NOP", "BRnzp nzp A"]);
    let art = assemble(&program).unwrap();
    assert_eq!(art.program_memory[2] & 0xFF, 0);
}

#[test]
fn branch_target_beyond_eight_bits_is_rejected() {
    let mut lines = vec!["BRnzp nzp FAR".to_string()];
    for _ in 0..299 {
        lines.push("NOP".to_string());
    }
    lines.push("FAR:".to_string());
    lines.push("NOP".to_string());
    assert!(matches!(assemble(&lines), Err(LexError::InvalidArgument(_))));
}

#[test]
fn unresolved_branch_aborts_whole_run() {
    assert!(matches!(
        assemble(&src(&["NOP", "BRnzp nzp NOWHERE"])),
        Err(LexError::InvalidArgument(_))
    ));
}

#[test]
fn extract_label_assoc_maps_to_next_operation_line_number() {
    let lexed = lex_lines(&src(&["LOOP:", "; note", "NOP", "NEXT:", "ADD R1, R2, R3"]));
    let assoc = extract_label_assoc_lines(&lexed).unwrap();
    assert_eq!(assoc.len(), 2);
    assert_eq!(assoc[0], ("LOOP".to_string(), 2));
    assert_eq!(assoc[1], ("NEXT".to_string(), 4));
}

#[test]
fn extract_label_assoc_rejects_label_with_no_operation() {
    let lexed = lex_lines(&src(&["NOP", "TAIL:"]));
    assert!(matches!(extract_label_assoc_lines(&lexed), Err(LexError::InvalidArgument(_))));
}

#[test]
fn resolve_labels_builds_address_table() {
    let lexed = assign_addresses(lex_lines(&src(&["NOP", "L:", "NOP", "M:", "RET"])));
    let table = resolve_labels(&lexed).unwrap();
    assert_eq!(table, vec![("L".to_string(), 1), ("M".to_string(), 2)]);
}

#[test]
fn collect_directives_reads_data_and_threads() {
    let lexed = lex_lines(&src(&[".threads 3", ".data 9 8", "NOP"]));
    let (data, threads) = collect_directives(&lexed).unwrap();
    assert_eq!(data, vec![9, 8]);
    assert_eq!(threads, 3);
}

#[test]
fn unknown_directives_are_reported_by_line_number() {
    let lexed = lex_lines(&src(&[".data 1", ".frobnicate", "NOP", ".threads 2", ".mystery 7"]));
    assert_eq!(unknown_directives(&lexed), vec![1, 4]);
}
