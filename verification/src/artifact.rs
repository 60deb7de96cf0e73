//! The end-to-end assembly pipeline and its output artifact.
use crate::encoder::encode_op_spec;
use crate::error::{kind_of, ErrKind, LexError};
use crate::lexer::{classify, identify_line, models_of, parse_line, LexedLine, LineModel, LineType};
use crate::passes::{assign_addresses, assign_model, collect_directives, data_bytes_aux,
    label_table_aux, lemma_ops_before_le, resolve_labels, threads_aux};
use crate::text::{code_of, comment_of, split_ws};
use vstd::prelude::*;

verus! {

/// The assembled program: the 16-bit code words in address order, the
/// initial data segment, and the thread count.
#[derive(Debug, Clone)]
pub struct OutputArtifact {
    pub program_memory: Vec<u16>,
    pub initial_data: Vec<u8>,
    pub threads: u32,
}

/// The model of one raw source line after tokenizing and classification.
pub open spec fn line_model_of(s: Seq<char>, ln: u32) -> LineModel {
    LineModel {
        kind: classify(split_ws(code_of(s))),
        toks: split_ws(code_of(s)),
        comment: comment_of(s),
        line_num: ln,
        addr: None,
    }
}

/// The models of a raw source text, line by line.
pub open spec fn lex_model(raw: Seq<Seq<char>>) -> Seq<LineModel> {
    Seq::new(raw.len(), |i: int| line_model_of(raw[i], i as u32))
}

/// The code words of the operation lines from position `p` on, in source
/// order; the encoding error of the earliest failing line wins.
pub open spec fn words_aux(ms: Seq<LineModel>, labels: Seq<(Seq<char>, u16)>, p: int) -> Result<
    Seq<u16>,
    ErrKind,
>
    decreases ms.len() - p,
{
    if p < 0 || p >= ms.len() {
        Ok(Seq::empty())
    } else if ms[p].kind == LineType::Operation {
        match encode_op_spec(ms[p].toks, labels) {
            Err(k) => Err(k),
            Ok(w) => match words_aux(ms, labels, p + 1) {
                Err(k) => Err(k),
                Ok(rest) => Ok(seq![w] + rest),
            },
        }
    } else {
        words_aux(ms, labels, p + 1)
    }
}

/// What assembling a source text yields: the code words, data segment and
/// thread count, or the first error, in pass order: label resolution
/// errors, then encoding errors by line, then data directive errors.
pub open spec fn assemble_spec(raw: Seq<Seq<char>>) -> Result<(Seq<u16>, Seq<u8>, u32), ErrKind> {
    let ms = assign_model(lex_model(raw));
    match label_table_aux(ms, 0) {
        Err(k) => Err(k),
        Ok(tab) => match words_aux(ms, tab, 0) {
            Err(k) => Err(k),
            Ok(ws) => match data_bytes_aux(ms, 0) {
                Err(k) => Err(k),
                Ok(d) => Ok((ws, d, threads_aux(ms, 0))),
            },
        },
    }
}

/// Tokenizes and classifies every raw source line, in order, with 0-based
/// line numbers.
pub fn lex_lines(raw: &Vec<String>) -> (r: Vec<LexedLine>)
    requires
        raw@.len() <= u32::MAX,
    ensures
        models_of(r@) == lex_model(raw.deep_view()),
{
    let ghost rawdv = raw.deep_view();
    let n = raw.len();
    let mut out: Vec<LexedLine> = Vec::new();
    let mut i: usize = 0;
    while i < n
        invariant
            i <= n,
            n == raw@.len(),
            n <= u32::MAX,
            rawdv == raw.deep_view(),
            out@.len() == i,
            forall|j: int| 0 <= j < i ==> models_of(out@)[j] == lex_model(rawdv)[j],
        decreases n - i,
    {
        let ghost old_out = out@;
        proof {
            assert(rawdv[i as int] == raw@[i as int]@);
        }
        let pl = match parse_line(i, raw[i].as_str()) {
            Some(pl) => pl,
            None => {
                proof {
                    assert(false);
                }
                return out;
            },
        };
        let ln = identify_line(pl);
        out.push(ln);
        proof {
            assert(models_of(out@) =~= models_of(old_out).push(out@[out@.len() - 1].model()));
            assert(models_of(out@)[i as int] == lex_model(rawdv)[i as int]);
        }
        i += 1;
    }
    proof {
        assert(models_of(out@) =~= lex_model(rawdv));
    }
    out
}

/// Runs the whole pipeline over a raw source text: tokenize and classify
/// each line, assign dense addresses to the operation lines, resolve
/// labels, encode every operation line, and collect the memory directives.
/// Any failing line aborts the run with its error; no partial artifact is
/// produced.
pub fn assemble(source_lines: &Vec<String>) -> (r: Result<OutputArtifact, LexError>)
    requires
        source_lines@.len() <= 0x10000,
    ensures
        match r {
            Ok(a) => assemble_spec(source_lines.deep_view()) == Ok::<_, ErrKind>(
                (a.program_memory@, a.initial_data@, a.threads),
            ),
            Err(e) => assemble_spec(source_lines.deep_view()) == Err::<
                (Seq<u16>, Seq<u8>, u32),
                _,
            >(kind_of(e)),
        },
{
    let ghost rawdv = source_lines.deep_view();
    let lexed = lex_lines(source_lines);
    proof {
        lemma_ops_before_le(models_of(lexed@), lexed@.len() as int);
    }
    let assigned = assign_addresses(lexed);
    let ghost ms = assign_model(lex_model(rawdv));
    proof {
        assert(models_of(assigned@) == ms);
        assert forall|i: int|
            0 <= i < assigned@.len() && #[trigger] models_of(assigned@)[i].kind
                == LineType::Operation implies models_of(assigned@)[i].addr is Some by {
            assert(ms[i] == assign_model(lex_model(rawdv))[i]);
        }
    }
    let table = match resolve_labels(&assigned) {
        Ok(t) => t,
        Err(e) => {
            return Err(e);
        },
    };
    let ghost tab = table.deep_view();

    let n = assigned.len();
    let mut words: Vec<u16> = Vec::new();
    let mut p: usize = 0;
    while p < n
        invariant
            p <= n,
            n == assigned@.len(),
            ms == models_of(assigned@),
            ms == assign_model(lex_model(rawdv)),
            rawdv == source_lines.deep_view(),
            tab == table.deep_view(),
            label_table_aux(ms, 0) == Ok::<_, ErrKind>(tab),
            match words_aux(ms, tab, p as int) {
                Ok(ws) => words_aux(ms, tab, 0) == Ok::<_, ErrKind>(words@ + ws),
                Err(k) => words_aux(ms, tab, 0) == Err::<Seq<u16>, _>(k),
            },
        decreases n - p,
    {
        proof {
            assert(ms[p as int] == assigned@[p as int].model());
        }
        match &assigned[p] {
            LexedLine::Operation(l) => {
                match crate::encoder::encode_operation(&l.parsed.tokens, &table) {
                    Ok(w) => {
                        let ghost old_words = words@;
                        words.push(w);
                        proof {
                            if let Ok(ws) = words_aux(ms, tab, p as int + 1) {
                                assert(old_words + (seq![w] + ws) =~= words@ + ws);
                            }
                        }
                    },
                    Err(e) => {
                        proof {
                            assert(ms[p as int].toks == l.parsed.tokens.deep_view());
                            assert(words_aux(ms, tab, p as int) == Err::<Seq<u16>, _>(kind_of(e)));
                        }
                        return Err(e);
                    },
                }
            },
            _ => {},
        }
        p += 1;
    }
    proof {
        assert(words_aux(ms, tab, n as int) == Ok::<_, ErrKind>(Seq::<u16>::empty()));
        assert(words@ + Seq::<u16>::empty() =~= words@);
    }

    let (data, threads) = match collect_directives(&assigned) {
        Ok(dt) => dt,
        Err(e) => {
            return Err(e);
        },
    };
    Ok(OutputArtifact { program_memory: words, initial_data: data, threads })
}

} // verus!
