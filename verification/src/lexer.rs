//! Tokenizing one raw source line and classifying it by its first token.
use crate::operation::{mnemonic_of, Operation};
use crate::text::{code_of, comment_of, lemma_find_semi_unique, split_ws,
    split_ws_aux};
use vstd::prelude::*;

verus! {

/// One tokenized source line: its whitespace-delimited tokens, the comment
/// text after the first `;` (if any), and its 0-based line number.
#[derive(Debug, Clone)]
pub struct ParsedLine {
    pub tokens: Vec<String>,
    pub comment: Option<String>,
    pub line_num: u32,
}

impl ParsedLine {
    /// The tokens as character sequences.
    pub open spec fn toks(self) -> Seq<Seq<char>> {
        self.tokens.deep_view()
    }

    /// The comment as a character sequence.
    pub open spec fn com(self) -> Option<Seq<char>> {
        self.comment.deep_view()
    }
}

/// The five classifications a tokenized line can receive.
#[derive(Debug, Clone, Copy, PartialEq, Eq, Structural)]
pub enum LineType {
    Operation,
    Bad,
    Human,
    Memory,
    Label,
}

/// A line whose first token is no directive, label or known mnemonic.
#[derive(Debug, Clone)]
pub struct BadLine {
    pub parsed: ParsedLine,
}

/// An instruction line. Its address is unset until address assignment runs.
#[derive(Debug, Clone)]
pub struct OperationLine {
    pub parsed: ParsedLine,
    pub instruct_num: Option<u16>,
}

/// A blank or comment-only line.
#[derive(Debug, Clone)]
pub struct HumanLine {
    pub parsed: ParsedLine,
}

/// A memory directive line: its first token starts with `.`.
#[derive(Debug, Clone)]
pub struct MemoryLine {
    pub parsed: ParsedLine,
}

/// A label line: its first token ends with `:`.
#[derive(Debug, Clone)]
pub struct LabelLine {
    pub parsed: ParsedLine,
}

/// A classified line: exactly one of the five classifications, each wrapping
/// the tokenized line it was made from.
#[derive(Debug, Clone)]
pub enum LexedLine {
    Operation(OperationLine),
    Label(LabelLine),
    Memory(MemoryLine),
    Human(HumanLine),
    Bad(BadLine),
}

impl LexedLine {
    /// The classification of this line.
    pub open spec fn kind(self) -> LineType {
        match self {
            LexedLine::Operation(_) => LineType::Operation,
            LexedLine::Label(_) => LineType::Label,
            LexedLine::Memory(_) => LineType::Memory,
            LexedLine::Human(_) => LineType::Human,
            LexedLine::Bad(_) => LineType::Bad,
        }
    }

    /// The tokenized line inside, whatever the classification.
    pub open spec fn parsed_spec(self) -> ParsedLine {
        match self {
            LexedLine::Operation(l) => l.parsed,
            LexedLine::Label(l) => l.parsed,
            LexedLine::Memory(l) => l.parsed,
            LexedLine::Human(l) => l.parsed,
            LexedLine::Bad(l) => l.parsed,
        }
    }

    /// The assigned instruction address, if this is an operation line and
    /// address assignment has run.
    pub open spec fn addr(self) -> Option<u16> {
        match self {
            LexedLine::Operation(l) => l.instruct_num,
            _ => None,
        }
    }

    /// The tokenized line inside, whatever the classification.
    pub fn parsed(&self) -> (r: &ParsedLine)
        ensures
            *r == self.parsed_spec(),
    {
        match self {
            LexedLine::Operation(l) => &l.parsed,
            LexedLine::Label(l) => &l.parsed,
            LexedLine::Memory(l) => &l.parsed,
            LexedLine::Human(l) => &l.parsed,
            LexedLine::Bad(l) => &l.parsed,
        }
    }
}

/// The specification-level model of a classified line: everything the
/// assembly passes read of it.
pub ghost struct LineModel {
    pub kind: LineType,
    pub toks: Seq<Seq<char>>,
    pub comment: Option<Seq<char>>,
    pub line_num: u32,
    pub addr: Option<u16>,
}

impl LexedLine {
    /// The model of this classified line.
    pub open spec fn model(self) -> LineModel {
        LineModel {
            kind: self.kind(),
            toks: self.parsed_spec().toks(),
            comment: self.parsed_spec().com(),
            line_num: self.parsed_spec().line_num,
            addr: self.addr(),
        }
    }
}

/// The models of a sequence of classified lines.
pub open spec fn models_of(lines: Seq<LexedLine>) -> Seq<LineModel> {
    lines.map_values(|l: LexedLine| l.model())
}

/// The fixed, order-sensitive classification rule, decided by the first
/// token alone: a leading `.` makes a memory directive, a trailing `:` a
/// label, a known mnemonic an operation; any other token is bad, and a line
/// with no tokens is human text.
pub open spec fn classify(tokens: Seq<Seq<char>>) -> LineType {
    if tokens.len() == 0 {
        LineType::Human
    } else if tokens[0].len() > 0 && tokens[0][0] == '.' {
        LineType::Memory
    } else if tokens[0].len() > 0 && tokens[0].last() == ':' {
        LineType::Label
    } else if mnemonic_of(tokens[0]) is Some {
        LineType::Operation
    } else {
        LineType::Bad
    }
}

/// Classifies a tokenized line by the fixed rule of `classify`.
pub fn identify_line(line: ParsedLine) -> (r: LexedLine)
    ensures
        r.kind() == classify(line.toks()),
        r.parsed_spec() == line,
        r.addr() is None,
{
    if line.tokens.len() == 0 {
        return LexedLine::Human(HumanLine { parsed: line });
    }
    let first: &String = &line.tokens[0];
    proof {
        assert(line.toks()[0] == first@);
    }
    let flen = first.as_str().unicode_len();
    if flen > 0 && first.as_str().get_char(0) == '.' {
        LexedLine::Memory(MemoryLine { parsed: line })
    } else if flen > 0 && first.as_str().get_char(flen - 1) == ':' {
        LexedLine::Label(LabelLine { parsed: line })
    } else if Operation::from_str(first.as_str()).is_ok() {
        LexedLine::Operation(OperationLine { parsed: line, instruct_num: None })
    } else {
        LexedLine::Bad(BadLine { parsed: line })
    }
}

/// Splits one raw source line into tokens and an optional comment. The
/// comment is everything after the first `;`; the rest is split on runs of
/// whitespace. Never fails: a line with no tokens and no comment still
/// yields a record, so line numbers stay stable.
pub fn parse_line(line_num: usize, line: &str) -> (r: Option<ParsedLine>)
    requires
        line_num <= u32::MAX,
    ensures
        r matches Some(pl) ==> {
            &&& pl.toks() == split_ws(code_of(line@))
            &&& pl.com() == comment_of(line@)
            &&& pl.line_num == line_num as u32
        },
        r is Some,
{
    let n = line.unicode_len();

    // Find the first `;`, if any.
    let mut semi: usize = n;
    let mut i: usize = 0;
    let mut found = false;
    while i < n && !found
        invariant
            i <= n,
            n == line@.len(),
            !found ==> semi == n && forall|j: int| 0 <= j < i ==> line@[j] != ';',
            found ==> semi < n && line@[semi as int] == ';' && forall|j: int|
                0 <= j < semi ==> line@[j] != ';',
        decreases n - i + (if found {
            0int
        } else {
            1int
        }),
    {
        if line.get_char(i) == ';' {
            semi = i;
            found = true;
        } else {
            i += 1;
        }
    }
    proof {
        if found {
            lemma_find_semi_unique(line@, semi as int);
        } else {
            lemma_find_semi_unique(line@, n as int);
        }
    }

    let comment: Option<String> = if semi < n {
        Some(line.substring_char(semi + 1, n).to_owned())
    } else {
        None
    };

    // Tokenize the code part, the characters before the `;`.
    let ghost code = code_of(line@);
    proof {
        assert(code =~= line@.subrange(0, semi as int));
    }
    let mut toks: Vec<String> = Vec::new();
    let mut cur = String::new();
    let mut k: usize = 0;
    proof {
        assert(code.subrange(0, semi as int) =~= code);
        assert(toks.deep_view() + split_ws_aux(code, cur@) =~= split_ws_aux(code, cur@));
    }
    while k < semi
        invariant
            k <= semi,
            semi <= n,
            n == line@.len(),
            code == code_of(line@),
            code.len() == semi,
            forall|j: int| 0 <= j < semi ==> code[j] == line@[j],
            toks.deep_view() + split_ws_aux(code.subrange(k as int, semi as int), cur@)
                == split_ws(code),
        decreases semi - k,
    {
        let c = line.get_char(k);
        let ghost suf = code.subrange(k as int, semi as int);
        proof {
            assert(suf.len() > 0);
            assert(suf[0] == c);
            assert(suf.subrange(1, suf.len() as int) =~= code.subrange(k as int + 1, semi as int));
        }
        if c == ' ' || c == '\t' || c == '\r' || c == '\n' {
            let ghost old_toks = toks.deep_view();
            let ghost old_cur = cur@;
            let ghost rest = split_ws_aux(suf.subrange(1, suf.len() as int), Seq::empty());
            if !cur.as_str().is_empty() {
                toks.push(cur);
                cur = String::new();
                proof {
                    assert(split_ws_aux(suf, old_cur) == seq![old_cur] + rest);
                    assert(toks.deep_view() =~= old_toks.push(old_cur));
                    assert(old_toks + (seq![old_cur] + rest) =~= old_toks.push(old_cur) + rest);
                }
            } else {
                proof {
                    assert(old_cur =~= Seq::<char>::empty());
                    assert(split_ws_aux(suf, old_cur) == Seq::<Seq<char>>::empty() + rest);
                    assert(Seq::<Seq<char>>::empty() + rest =~= rest);
                }
            }
        } else {
            let piece = line.substring_char(k, k + 1);
            let ghost old_cur = cur@;
            cur.append(piece);
            proof {
                assert(piece@ =~= seq![c]);
                assert(cur@ =~= old_cur.push(c));
                assert(split_ws_aux(code.subrange(k as int + 1, semi as int), cur@) == split_ws_aux(
                    suf.subrange(1, suf.len() as int),
                    old_cur.push(suf[0]),
                ));
            }
        }
        k += 1;
    }
    proof {
        assert(code.subrange(semi as int, semi as int) =~= Seq::<char>::empty());
    }
    let ghost old_toks = toks.deep_view();
    let ghost old_cur = cur@;
    if !cur.as_str().is_empty() {
        toks.push(cur);
        proof {
            assert(toks.deep_view() =~= old_toks.push(old_cur));
            assert(old_toks + seq![old_cur] =~= old_toks.push(old_cur));
        }
    } else {
        proof {
            assert(old_toks + Seq::<Seq<char>>::empty() =~= old_toks);
        }
    }

    Some(ParsedLine { tokens: toks, comment, line_num: line_num as u32 })
}

} // verus!
