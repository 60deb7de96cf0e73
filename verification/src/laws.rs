//! The library-wide laws: properties of the encoding and the passes that
//! hold for all inputs, proved once and for all.
use crate::artifact::{assemble_spec, lex_model, words_aux};
use crate::encoder::{arity_ok, encode_op_spec,
    lookup_label, nzp_of, word4, word_imm};
use crate::error::ErrKind;
use crate::lexer::{LineModel, LineType};
use crate::operation::{mnemonic_of, opcode_of, operation_of_opcode, Operation};
use crate::passes::{assign_model, label_table_aux, lemma_ops_before_mono, ops_before};
use crate::register::reg_code_of;
use crate::text::{parse_dec, strip_char_spec};
use vstd::prelude::*;

verus! {

/// A 16-bit word built from 4-bit fields has its first field as opcode.
proof fn lemma_word4_opcode(a: u16, b: u16, c: u16, d: u16)
    requires
        a < 16,
        b < 16,
        c < 16,
        d < 16,
    ensures
        word4(a, b, c, d) / 4096 == a,
{
}

/// A 16-bit word built from two 4-bit fields and an 8-bit field has its
/// first field as opcode.
proof fn lemma_word_imm_opcode(a: u16, b: u16, imm: u16)
    requires
        a < 16,
        b < 16,
        imm < 256,
    ensures
        word_imm(a, b, imm) / 4096 == a,
{
}

/// Round-trip: whenever an operation line encodes successfully, the opcode
/// field of the produced word decodes back to exactly the mnemonic the
/// line was written with.
pub proof fn lemma_encode_round_trip(
    tokens: Seq<Seq<char>>,
    labels: Seq<(Seq<char>, u16)>,
    w: u16,
)
    requires
        encode_op_spec(tokens, labels) == Ok::<u16, ErrKind>(w),
    ensures
        tokens.len() > 0,
        mnemonic_of(tokens[0]) is Some,
        operation_of_opcode(crate::opcode_field(w)) == mnemonic_of(tokens[0]),
{
    let op = mnemonic_of(tokens[0]).unwrap();
    match op {
        Operation::NOP => {
            lemma_word4_opcode(0, 0, 0, 0);
        },
        Operation::RET => {
            lemma_word4_opcode(15, 0, 0, 0);
        },
        Operation::BRnzp => {
            let nzp = nzp_of(tokens[1]);
            let a = lookup_label(labels, tokens[2]).unwrap();
            lemma_word_imm_opcode(1, nzp, a);
        },
        Operation::CMP => {
            lemma_word4_opcode(2, 0, reg_code_of(tokens[1]).unwrap(), reg_code_of(
                tokens[2],
            ).unwrap());
        },
        Operation::ADD | Operation::SUB | Operation::MUL | Operation::DIV => {
            lemma_word4_opcode(opcode_of(op), reg_code_of(tokens[1]).unwrap(), reg_code_of(
                tokens[2],
            ).unwrap(), reg_code_of(tokens[3]).unwrap());
        },
        Operation::LDR => {
            lemma_word4_opcode(7, reg_code_of(tokens[1]).unwrap(), reg_code_of(
                tokens[2],
            ).unwrap(), 0);
        },
        Operation::STR => {
            lemma_word4_opcode(8, 0, reg_code_of(tokens[1]).unwrap(), reg_code_of(
                tokens[2],
            ).unwrap());
        },
        Operation::CONST => {
            let imm = parse_dec(strip_char_spec(tokens[2], '#'), 256).unwrap();
            lemma_word_imm_opcode(9, reg_code_of(tokens[1]).unwrap(), imm as u16);
        },
    }
}

/// Arity invariant: for every known mnemonic, an operand count that does
/// not satisfy its declared arity is rejected as an invalid operation,
/// whatever the operands and the label table hold.
pub proof fn lemma_arity_mismatch(tokens: Seq<Seq<char>>, labels: Seq<(Seq<char>, u16)>)
    requires
        tokens.len() > 0,
        mnemonic_of(tokens[0]) is Some,
        !arity_ok(mnemonic_of(tokens[0]).unwrap(), (tokens.len() - 1) as nat),
    ensures
        encode_op_spec(tokens, labels) == Err::<u16, ErrKind>(ErrKind::InvalidOperation),
{
}

/// Empty branch condition: a branch whose condition token carries none of
/// the letters `n`, `z`, `p` could never fire and is rejected as an
/// invalid argument.
pub proof fn lemma_empty_condition_rejected(tokens: Seq<Seq<char>>, labels: Seq<(Seq<char>, u16)>)
    requires
        tokens.len() == 2 || tokens.len() == 3,
        mnemonic_of(tokens[0]) == Some(Operation::BRnzp),
        nzp_of(tokens[1]) == 0,
    ensures
        encode_op_spec(tokens, labels) == Err::<u16, ErrKind>(ErrKind::InvalidArgument),
{
}

/// Unresolvable label: a branch whose target is defined nowhere in the
/// label table is rejected as an invalid argument, never encoded with a
/// default address.
pub proof fn lemma_unresolved_label(tokens: Seq<Seq<char>>, labels: Seq<(Seq<char>, u16)>)
    requires
        tokens.len() == 3,
        mnemonic_of(tokens[0]) == Some(Operation::BRnzp),
        nzp_of(tokens[1]) != 0,
        lookup_label(labels, tokens[2]) is None,
    ensures
        encode_op_spec(tokens, labels) == Err::<u16, ErrKind>(ErrKind::InvalidArgument),
{
}

/// Immediate bounds: a `CONST` whose immediate token does not denote an
/// unsigned decimal below 256 is rejected as an invalid argument; one that
/// does carries the immediate in the low 8 bits of the word.
pub proof fn lemma_immediate_bounds(tokens: Seq<Seq<char>>, labels: Seq<(Seq<char>, u16)>)
    requires
        tokens.len() == 3,
        mnemonic_of(tokens[0]) == Some(Operation::CONST),
        reg_code_of(tokens[1]) is Some,
    ensures
        parse_dec(strip_char_spec(tokens[2], '#'), 256) is None ==> encode_op_spec(tokens, labels)
            == Err::<u16, ErrKind>(ErrKind::InvalidArgument),
        parse_dec(strip_char_spec(tokens[2], '#'), 256) matches Some(imm) ==> encode_op_spec(
            tokens,
            labels,
        ) == Ok::<u16, ErrKind>(word_imm(9, reg_code_of(tokens[1]).unwrap(), imm as u16))
            && word_imm(9, reg_code_of(tokens[1]).unwrap(), imm as u16) % 256 == imm,
{
    if let Some(imm) = parse_dec(strip_char_spec(tokens[2], '#'), 256) {
        let rd = reg_code_of(tokens[1]).unwrap();
        assert(rd < 16);
        assert(word_imm(9, rd, imm as u16) % 256 == imm) by {
            assert(word_imm(9, rd, imm as u16) == 9 * 4096 + rd * 256 + imm);
        };
    }
}

/// Between two operation lines, the earlier one is counted first: counting
/// grows by exactly one across an operation line.
proof fn lemma_ops_before_step(ms: Seq<LineModel>, i: int)
    requires
        0 <= i < ms.len(),
        ms[i].kind == LineType::Operation,
    ensures
        ops_before(ms, i + 1) == ops_before(ms, i) + 1,
{
}

/// Every address below the operation count is assigned somewhere.
proof fn lemma_ops_before_surjective(ms: Seq<LineModel>, n: int, a: int)
    requires
        0 <= n <= ms.len(),
        0 <= a < ops_before(ms, n),
    ensures
        exists|i: int|
            0 <= i < n && #[trigger] ms[i].kind == LineType::Operation && ops_before(ms, i) == a,
    decreases n,
{
    if n > 0 {
        if ms[n - 1].kind == LineType::Operation && ops_before(ms, n - 1) == a {
            assert(0 <= n - 1 < n && ms[n - 1].kind == LineType::Operation && ops_before(
                ms,
                n - 1,
            ) == a);
        } else {
            lemma_ops_before_surjective(ms, n - 1, a);
        }
    }
}

/// Address density: after address assignment, the operation lines carry
/// exactly the addresses `0, 1, ..., k-1` where `k` is the number of
/// operation lines — each operation line holds the count of operation
/// lines before it, distinct lines hold distinct addresses, and every
/// address below `k` is held by some operation line — no matter how many
/// other lines are interleaved.
pub proof fn lemma_address_density(ms: Seq<LineModel>)
    requires
        ops_before(ms, ms.len() as int) <= 0x10000,
    ensures
        forall|i: int|
            0 <= i < ms.len() && #[trigger] ms[i].kind == LineType::Operation ==> assign_model(
                ms,
            )[i].addr == Some(ops_before(ms, i) as u16) && ops_before(ms, i) < ops_before(
                ms,
                ms.len() as int,
            ),
        forall|i: int, j: int|
            0 <= i < j < ms.len() && #[trigger] ms[i].kind == LineType::Operation
                && #[trigger] ms[j].kind == LineType::Operation ==> assign_model(ms)[i].addr
                != assign_model(ms)[j].addr,
{
    let n = ms.len() as int;
    assert forall|i: int|
        0 <= i < n && #[trigger] ms[i].kind == LineType::Operation implies assign_model(ms)[i].addr
        == Some(ops_before(ms, i) as u16) && ops_before(ms, i) < ops_before(ms, n) by {
        lemma_ops_before_step(ms, i);
        lemma_ops_before_mono(ms, i + 1, n);
    }
    assert forall|i: int, j: int|
        0 <= i < j < n && #[trigger] ms[i].kind == LineType::Operation && #[trigger] ms[j].kind
        == LineType::Operation implies assign_model(ms)[i].addr != assign_model(ms)[j].addr by {
        lemma_ops_before_step(ms, i);
        lemma_ops_before_mono(ms, i + 1, j);
        lemma_ops_before_mono(ms, j, n);
        lemma_ops_before_step(ms, j);
        assert(ops_before(ms, i) < ops_before(ms, j));
        assert(ops_before(ms, j) < ops_before(ms, n));
    }
}

/// The words produced from position `p` on are one per operation line.
proof fn lemma_words_aux_len(ms: Seq<LineModel>, labels: Seq<(Seq<char>, u16)>, p: int)
    requires
        0 <= p <= ms.len(),
        words_aux(ms, labels, p) is Ok,
    ensures
        words_aux(ms, labels, p).unwrap().len() == ops_before(ms, ms.len() as int) - ops_before(
            ms,
            p,
        ),
    decreases ms.len() - p,
{
    if p < ms.len() {
        if ms[p].kind == LineType::Operation {
            lemma_ops_before_step(ms, p);
        }
        lemma_words_aux_len(ms, labels, p + 1);
    }
}

/// The word encoded from the operation line at position `i` stands at the
/// offset given by the count of operation lines between `p` and `i`.
proof fn lemma_words_aux_index(ms: Seq<LineModel>, labels: Seq<(Seq<char>, u16)>, p: int, i: int)
    requires
        0 <= p <= i < ms.len(),
        ms[i].kind == LineType::Operation,
        words_aux(ms, labels, p) is Ok,
    ensures
        ops_before(ms, i) >= ops_before(ms, p),
        ops_before(ms, i) - ops_before(ms, p) < words_aux(ms, labels, p).unwrap().len(),
        encode_op_spec(ms[i].toks, labels) == Ok::<u16, ErrKind>(
            words_aux(ms, labels, p).unwrap()[ops_before(ms, i) - ops_before(ms, p)],
        ),
    decreases i - p,
{
    lemma_words_aux_len(ms, labels, p);
    lemma_ops_before_mono(ms, p, i);
    if p == i {
        lemma_words_aux_len(ms, labels, p + 1);
        lemma_ops_before_step(ms, p);
    } else {
        lemma_words_aux_index(ms, labels, p + 1, i);
        if ms[p].kind == LineType::Operation {
            lemma_ops_before_step(ms, p);
        }
    }
}

/// A successfully assembled program holds exactly one word per operation
/// line of the source.
pub proof fn lemma_program_length(raw: Seq<Seq<char>>)
    requires
        assemble_spec(raw) is Ok,
    ensures
        ({
            let ms = assign_model(lex_model(raw));
            assemble_spec(raw).unwrap().0.len() == ops_before(ms, ms.len() as int)
        }),
{
    let ms = assign_model(lex_model(raw));
    let tab = label_table_aux(ms, 0).unwrap();
    lemma_words_aux_len(ms, tab, 0);
}

/// Program memory is in address order: in a successfully assembled
/// program, the word of every operation line stands at the index that was
/// assigned to that line as its instruction address.
pub proof fn lemma_program_in_address_order(raw: Seq<Seq<char>>, i: int)
    requires
        assemble_spec(raw) is Ok,
        0 <= i < lex_model(raw).len(),
        lex_model(raw)[i].kind == LineType::Operation,
        ops_before(assign_model(lex_model(raw)), assign_model(lex_model(raw)).len() as int)
            <= 0x10000,
    ensures
        ({
            let ms = assign_model(lex_model(raw));
            let tab = label_table_aux(ms, 0).unwrap();
            &&& ms[i].addr == Some(ops_before(ms, i) as u16)
            &&& ops_before(ms, i) < assemble_spec(raw).unwrap().0.len()
            &&& encode_op_spec(ms[i].toks, tab) == Ok::<u16, ErrKind>(
                assemble_spec(raw).unwrap().0[ops_before(ms, i) as int],
            )
        }),
{
    let ms = assign_model(lex_model(raw));
    let tab = label_table_aux(ms, 0).unwrap();
    assert(ms[i].kind == LineType::Operation);
    assert(ops_before(ms, i) == ops_before(lex_model(raw), i)) by {
        lemma_ops_before_same_kinds(lex_model(raw), ms, i);
    }
    lemma_ops_before_mono(ms, i + 1, ms.len() as int);
    lemma_ops_before_step(ms, i);
    lemma_words_aux_index(ms, tab, 0, i);
}

/// Counting operation lines sees only the line kinds, which address
/// assignment preserves.
proof fn lemma_ops_before_same_kinds(ms1: Seq<LineModel>, ms2: Seq<LineModel>, i: int)
    requires
        0 <= i <= ms1.len(),
        ms1.len() == ms2.len(),
        forall|j: int| 0 <= j < ms1.len() ==> ms1[j].kind == ms2[j].kind,
    ensures
        ops_before(ms1, i) == ops_before(ms2, i),
    decreases i,
{
    if i > 0 {
        lemma_ops_before_same_kinds(ms1, ms2, i - 1);
    }
}

/// Address density, the other direction: every address below the count of
/// operation lines is assigned to some operation line.
pub proof fn lemma_address_density_surjective(ms: Seq<LineModel>, a: int)
    requires
        ops_before(ms, ms.len() as int) <= 0x10000,
        0 <= a < ops_before(ms, ms.len() as int),
    ensures
        exists|i: int|
            0 <= i < ms.len() && #[trigger] ms[i].kind == LineType::Operation && assign_model(
                ms,
            )[i].addr == Some(a as u16),
{
    let n = ms.len() as int;
    lemma_ops_before_surjective(ms, n, a);
    let i = choose|i: int|
        0 <= i < n && #[trigger] ms[i].kind == LineType::Operation && ops_before(ms, i) == a;
    lemma_ops_before_mono(ms, i + 1, n);
    lemma_ops_before_step(ms, i);
    assert(assign_model(ms)[i].addr == Some(a as u16));
}

} // verus!
