//! The assembly passes over the classified lines: address assignment,
//! label resolution and directive collection.
use crate::error::{kind_of, ErrKind, LexError};
use crate::lexer::{models_of, LexedLine, LineModel, LineType, OperationLine};
use vstd::prelude::*;

verus! {

/// How many of the first `i` lines are operation lines.
pub open spec fn ops_before(ms: Seq<LineModel>, i: int) -> nat
    decreases i,
{
    if i <= 0 {
        0
    } else {
        ops_before(ms, i - 1) + (if ms[i - 1].kind == LineType::Operation {
            1nat
        } else {
            0nat
        })
    }
}

/// Counting operation lines over a longer prefix never counts fewer.
pub proof fn lemma_ops_before_mono(ms: Seq<LineModel>, i: int, j: int)
    requires
        i <= j,
    ensures
        ops_before(ms, i) <= ops_before(ms, j),
    decreases j - i,
{
    if i < j {
        lemma_ops_before_mono(ms, i, j - 1);
    }
}

/// At most `i` of the first `i` lines are operation lines.
pub proof fn lemma_ops_before_le(ms: Seq<LineModel>, i: int)
    requires
        0 <= i,
    ensures
        ops_before(ms, i) <= i,
    decreases i,
{
    if i > 0 {
        lemma_ops_before_le(ms, i - 1);
    }
}

/// The model after address assignment: every operation line carries the
/// count of operation lines before it as its address; every other line is
/// untouched.
pub open spec fn assign_model(ms: Seq<LineModel>) -> Seq<LineModel> {
    Seq::new(
        ms.len(),
        |i: int|
            if ms[i].kind == LineType::Operation {
                LineModel { addr: Some(ops_before(ms, i) as u16), ..ms[i] }
            } else {
                ms[i]
            },
    )
}

/// Walks the classified lines in source order and assigns the dense
/// addresses `0, 1, 2, ...` to the operation lines, in source order, with
/// no gaps and no reuse; all other lines receive no address and are
/// returned unchanged.
pub fn assign_addresses(lines: Vec<LexedLine>) -> (r: Vec<LexedLine>)
    requires
        ops_before(models_of(lines@), lines@.len() as int) <= 0x10000,
    ensures
        models_of(r@) == assign_model(models_of(lines@)),
{
    let ghost orig = models_of(lines@);
    let mut rest = lines;
    let mut out: Vec<LexedLine> = Vec::new();
    let mut next: u32 = 0;
    proof {
        assert(rest@.map_values(|l: LexedLine| l.model()) =~= orig.subrange(0, orig.len() as int));
        assert(orig.subrange(0, orig.len() as int) =~= orig);
    }
    while rest.len() > 0
        invariant
            models_of(rest@) =~= orig.subrange(out.len() as int, orig.len() as int),
            out.len() + rest.len() == orig.len(),
            next == ops_before(orig, out.len() as int),
            ops_before(orig, orig.len() as int) <= 0x10000,
            forall|j: int| 0 <= j < out.len() ==> models_of(out@)[j] == assign_model(orig)[j],
        decreases rest.len(),
    {
        let ghost p = out.len() as int;
        let ghost old_out = out@;
        proof {
            assert(models_of(rest@)[0] == orig[p]);
            assert(rest@[0].model() == orig[p]);
            lemma_ops_before_mono(orig, p + 1, orig.len() as int);
        }
        let ghost old_rest = rest@;
        let ln = rest.remove(0);
        proof {
            assert forall|j: int| 0 <= j < rest@.len() implies models_of(rest@)[j] == orig[p + 1
                + j] by {
                assert(rest@[j] == old_rest[j + 1]);
                assert(models_of(old_rest)[j + 1] == old_rest[j + 1].model());
            }
        }
        match ln {
            LexedLine::Operation(l) => {
                let addr = next as u16;
                out.push(
                    LexedLine::Operation(
                        OperationLine { parsed: l.parsed, instruct_num: Some(addr) },
                    ),
                );
                next = next + 1;
            },
            other => {
                out.push(other);
            },
        }
        proof {
            assert(models_of(out@) =~= models_of(old_out).push(out@[out.len() - 1].model()));
            assert(models_of(out@)[p] == assign_model(orig)[p]);
            assert(models_of(rest@) =~= orig.subrange(p + 1, orig.len() as int));
        }
    }
    proof {
        assert(models_of(out@) =~= assign_model(orig));
    }
    out
}

/// The assigned address of the first operation line at or after position
/// `p`, if any.
pub open spec fn next_op_addr(ms: Seq<LineModel>, p: int) -> Option<u16>
    decreases ms.len() - p,
{
    if p < 0 || p >= ms.len() {
        None
    } else if ms[p].kind == LineType::Operation {
        ms[p].addr
    } else {
        next_op_addr(ms, p + 1)
    }
}

/// The line number of the first operation line at or after position `p`,
/// if any.
pub open spec fn next_op_line(ms: Seq<LineModel>, p: int) -> Option<u32>
    decreases ms.len() - p,
{
    if p < 0 || p >= ms.len() {
        None
    } else if ms[p].kind == LineType::Operation {
        Some(ms[p].line_num)
    } else {
        next_op_line(ms, p + 1)
    }
}

/// The label table built from position `p` on: one entry per label line, in
/// source order, name with colons stripped, resolved to the address of the
/// nearest following operation line. A label line with more than one token,
/// or with no following operation line, is an invalid argument; the error
/// of the earliest offending label wins.
pub open spec fn label_table_aux(ms: Seq<LineModel>, p: int) -> Result<
    Seq<(Seq<char>, u16)>,
    ErrKind,
>
    decreases ms.len() - p,
{
    if p < 0 || p >= ms.len() {
        Ok(Seq::empty())
    } else if ms[p].kind == LineType::Label {
        if ms[p].toks.len() != 1 {
            Err(ErrKind::InvalidArgument)
        } else {
            match next_op_addr(ms, p + 1) {
                None => Err(ErrKind::InvalidArgument),
                Some(a) => match label_table_aux(ms, p + 1) {
                    Err(k) => Err(k),
                    Ok(t) => Ok(
                        seq![(crate::text::strip_char_spec(ms[p].toks[0], ':'), a)] + t,
                    ),
                },
            }
        }
    } else {
        label_table_aux(ms, p + 1)
    }
}

/// The label-to-line-number association built from position `p` on, the
/// same way as `label_table_aux` but recording the line number of the
/// nearest following operation line.
pub open spec fn label_lines_aux(ms: Seq<LineModel>, p: int) -> Result<
    Seq<(Seq<char>, u32)>,
    ErrKind,
>
    decreases ms.len() - p,
{
    if p < 0 || p >= ms.len() {
        Ok(Seq::empty())
    } else if ms[p].kind == LineType::Label {
        if ms[p].toks.len() != 1 {
            Err(ErrKind::InvalidArgument)
        } else {
            match next_op_line(ms, p + 1) {
                None => Err(ErrKind::InvalidArgument),
                Some(ln) => match label_lines_aux(ms, p + 1) {
                    Err(k) => Err(k),
                    Ok(t) => Ok(
                        seq![(crate::text::strip_char_spec(ms[p].toks[0], ':'), ln)] + t,
                    ),
                },
            }
        }
    } else {
        label_lines_aux(ms, p + 1)
    }
}

/// Finds the assigned address of the first operation line at or after
/// position `p`.
fn scan_next_op_addr(lines: &Vec<LexedLine>, p: usize) -> (r: Option<u16>)
    requires
        forall|i: int|
            0 <= i < lines@.len() && #[trigger] models_of(lines@)[i].kind == LineType::Operation
                ==> models_of(lines@)[i].addr is Some,
    ensures
        r == next_op_addr(models_of(lines@), p as int),
{
    let ghost ms = models_of(lines@);
    let n = lines.len();
    let mut q = p;
    while q < n
        invariant
            p <= q,
            n == lines@.len(),
            ms == models_of(lines@),
            next_op_addr(ms, p as int) == next_op_addr(ms, q as int),
            forall|i: int|
                0 <= i < ms.len() && #[trigger] ms[i].kind == LineType::Operation ==> ms[i].addr
                    is Some,
        decreases n - q,
    {
        proof {
            assert(ms[q as int] == lines@[q as int].model());
        }
        match &lines[q] {
            LexedLine::Operation(l) => {
                return Some(l.instruct_num.unwrap());
            },
            _ => {},
        }
        q += 1;
    }
    None
}

/// Finds the line number of the first operation line at or after position
/// `p`.
fn scan_next_op_line(lines: &Vec<LexedLine>, p: usize) -> (r: Option<u32>)
    ensures
        r == next_op_line(models_of(lines@), p as int),
{
    let ghost ms = models_of(lines@);
    let n = lines.len();
    let mut q = p;
    while q < n
        invariant
            p <= q,
            n == lines@.len(),
            ms == models_of(lines@),
            next_op_line(ms, p as int) == next_op_line(ms, q as int),
        decreases n - q,
    {
        proof {
            assert(ms[q as int] == lines@[q as int].model());
        }
        match &lines[q] {
            LexedLine::Operation(l) => {
                return Some(l.parsed.line_num);
            },
            _ => {},
        }
        q += 1;
    }
    None
}

/// Builds the label table: every label line, in source order, mapped to the
/// address of the nearest following operation line. Addresses must already
/// be assigned. Duplicate label names are kept in order; lookups take the
/// first definition. A label line with more than one token, or one with no
/// following operation line, is an invalid argument.
pub fn resolve_labels(lines: &Vec<LexedLine>) -> (r: Result<Vec<(String, u16)>, LexError>)
    requires
        forall|i: int|
            0 <= i < lines@.len() && #[trigger] models_of(lines@)[i].kind == LineType::Operation
                ==> models_of(lines@)[i].addr is Some,
    ensures
        match r {
            Ok(t) => label_table_aux(models_of(lines@), 0) == Ok::<_, ErrKind>(t.deep_view()),
            Err(e) => label_table_aux(models_of(lines@), 0) == Err::<Seq<(Seq<char>, u16)>, _>(
                kind_of(e),
            ),
        },
{
    let ghost ms = models_of(lines@);
    let n = lines.len();
    let mut acc: Vec<(String, u16)> = Vec::new();
    let mut p: usize = 0;
    while p < n
        invariant
            p <= n,
            n == lines@.len(),
            ms == models_of(lines@),
            forall|i: int|
                0 <= i < ms.len() && #[trigger] ms[i].kind == LineType::Operation ==> ms[i].addr
                    is Some,
            match label_table_aux(ms, p as int) {
                Ok(t) => label_table_aux(ms, 0) == Ok::<_, ErrKind>(acc.deep_view() + t),
                Err(k) => label_table_aux(ms, 0) == Err::<Seq<(Seq<char>, u16)>, _>(k),
            },
        decreases n - p,
    {
        proof {
            assert(ms[p as int] == lines@[p as int].model());
        }
        match &lines[p] {
            LexedLine::Label(l) => {
                if l.parsed.tokens.len() != 1 {
                    return Err(
                        LexError::InvalidArgument(
                            "label line must hold exactly one token".to_owned(),
                        ),
                    );
                }
                proof {
                    assert(ms[p as int].toks[0] == l.parsed.tokens@[0]@);
                }
                let name = crate::text::strip_char(l.parsed.tokens[0].as_str(), ':');
                match scan_next_op_addr(lines, p + 1) {
                    None => {
                        return Err(
                            LexError::InvalidArgument(
                                "label has no following operation line".to_owned(),
                            ),
                        );
                    },
                    Some(a) => {
                        let ghost old_acc = acc.deep_view();
                        acc.push((name, a));
                        proof {
                            assert(acc.deep_view() =~= old_acc.push(
                                (label_name_at(ms, p as int), a),
                            ));
                            if let Ok(t) = label_table_aux(ms, p as int + 1) {
                                assert(old_acc + (seq![(label_name_at(ms, p as int), a)] + t)
                                    =~= acc.deep_view() + t);
                            }
                        }
                    },
                }
            },
            _ => {},
        }
        p += 1;
    }
    proof {
        assert(label_table_aux(ms, n as int) == Ok::<_, ErrKind>(Seq::<(Seq<char>, u16)>::empty()));
        assert(acc.deep_view() + Seq::<(Seq<char>, u16)>::empty() =~= acc.deep_view());
    }
    Ok(acc)
}

/// The colon-stripped name of the label at position `p`.
pub open spec fn label_name_at(ms: Seq<LineModel>, p: int) -> Seq<char> {
    crate::text::strip_char_spec(ms[p].toks[0], ':')
}

/// For every label line, in source order: the label name (colons stripped)
/// and the line number of the nearest following operation line. The same
/// error rule as `resolve_labels` applies, but addresses need not be
/// assigned yet.
pub fn extract_label_assoc_lines(lexed_lines: &Vec<LexedLine>) -> (r: Result<
    Vec<(String, u32)>,
    LexError,
>)
    ensures
        match r {
            Ok(t) => label_lines_aux(models_of(lexed_lines@), 0) == Ok::<_, ErrKind>(
                t.deep_view(),
            ),
            Err(e) => label_lines_aux(models_of(lexed_lines@), 0) == Err::<
                Seq<(Seq<char>, u32)>,
                _,
            >(kind_of(e)),
        },
{
    let ghost ms = models_of(lexed_lines@);
    let n = lexed_lines.len();
    let mut acc: Vec<(String, u32)> = Vec::new();
    let mut p: usize = 0;
    while p < n
        invariant
            p <= n,
            n == lexed_lines@.len(),
            ms == models_of(lexed_lines@),
            match label_lines_aux(ms, p as int) {
                Ok(t) => label_lines_aux(ms, 0) == Ok::<_, ErrKind>(acc.deep_view() + t),
                Err(k) => label_lines_aux(ms, 0) == Err::<Seq<(Seq<char>, u32)>, _>(k),
            },
        decreases n - p,
    {
        proof {
            assert(ms[p as int] == lexed_lines@[p as int].model());
        }
        match &lexed_lines[p] {
            LexedLine::Label(l) => {
                if l.parsed.tokens.len() != 1 {
                    return Err(
                        LexError::InvalidArgument(
                            "label line must hold exactly one token".to_owned(),
                        ),
                    );
                }
                proof {
                    assert(ms[p as int].toks[0] == l.parsed.tokens@[0]@);
                }
                let name = crate::text::strip_char(l.parsed.tokens[0].as_str(), ':');
                match scan_next_op_line(lexed_lines, p + 1) {
                    None => {
                        return Err(
                            LexError::InvalidArgument(
                                "label has no following operation line".to_owned(),
                            ),
                        );
                    },
                    Some(ln) => {
                        let ghost old_acc = acc.deep_view();
                        acc.push((name, ln));
                        proof {
                            assert(acc.deep_view() =~= old_acc.push(
                                (label_name_at(ms, p as int), ln),
                            ));
                            if let Ok(t) = label_lines_aux(ms, p as int + 1) {
                                assert(old_acc + (seq![(label_name_at(ms, p as int), ln)] + t)
                                    =~= acc.deep_view() + t);
                            }
                        }
                    },
                }
            },
            _ => {},
        }
        p += 1;
    }
    proof {
        assert(label_lines_aux(ms, n as int) == Ok::<_, ErrKind>(Seq::<(Seq<char>, u32)>::empty()));
        assert(acc.deep_view() + Seq::<(Seq<char>, u32)>::empty() =~= acc.deep_view());
    }
    Ok(acc)
}

/// A `.data` directive line.
pub open spec fn is_data_line(m: LineModel) -> bool {
    m.kind == LineType::Memory && m.toks.len() > 0 && m.toks[0] == ".data"@
}

/// A `.threads` directive line.
pub open spec fn is_threads_line(m: LineModel) -> bool {
    m.kind == LineType::Memory && m.toks.len() > 0 && m.toks[0] == ".threads"@
}

/// The bytes contributed by one `.data` line from token `j` on: each token
/// after the directive name parses as an 8-bit unsigned decimal, in order;
/// a malformed token is an invalid argument.
pub open spec fn line_bytes_aux(toks: Seq<Seq<char>>, j: int) -> Result<Seq<u8>, ErrKind>
    decreases toks.len() - j,
{
    if j < 1 || j >= toks.len() {
        Ok(Seq::empty())
    } else {
        match crate::text::parse_dec(toks[j], 256) {
            None => Err(ErrKind::InvalidArgument),
            Some(v) => match line_bytes_aux(toks, j + 1) {
                Err(k) => Err(k),
                Ok(rest) => Ok(seq![v as u8] + rest),
            },
        }
    }
}

/// The data segment built from position `p` on: the bytes of every `.data`
/// line, concatenated in source order; the error of the earliest malformed
/// token wins.
pub open spec fn data_bytes_aux(ms: Seq<LineModel>, p: int) -> Result<Seq<u8>, ErrKind>
    decreases ms.len() - p,
{
    if p < 0 || p >= ms.len() {
        Ok(Seq::empty())
    } else if is_data_line(ms[p]) {
        match line_bytes_aux(ms[p].toks, 1) {
            Err(k) => Err(k),
            Ok(b) => match data_bytes_aux(ms, p + 1) {
                Err(k) => Err(k),
                Ok(rest) => Ok(b + rest),
            },
        }
    } else {
        data_bytes_aux(ms, p + 1)
    }
}

/// The thread count from position `p` on: the first `.threads` line whose
/// following token parses as an unsigned decimal decides; a missing or
/// malformed count falls back to the default of 1.
pub open spec fn threads_aux(ms: Seq<LineModel>, p: int) -> u32
    decreases ms.len() - p,
{
    if p < 0 || p >= ms.len() {
        1
    } else if is_threads_line(ms[p]) {
        if ms[p].toks.len() >= 2 {
            match crate::text::parse_dec(ms[p].toks[1], 0x1_0000_0000) {
                Some(v) => v as u32,
                None => 1,
            }
        } else {
            1
        }
    } else {
        threads_aux(ms, p + 1)
    }
}

/// The line numbers of memory directive lines from position `p` on whose
/// directive name is neither `.data` nor `.threads`, in source order.
pub open spec fn unknown_dirs_aux(ms: Seq<LineModel>, p: int) -> Seq<u32>
    decreases ms.len() - p,
{
    if p < 0 || p >= ms.len() {
        Seq::empty()
    } else if ms[p].kind == LineType::Memory && !is_data_line(ms[p]) && !is_threads_line(ms[p]) {
        seq![ms[p].line_num] + unknown_dirs_aux(ms, p + 1)
    } else {
        unknown_dirs_aux(ms, p + 1)
    }
}

/// Gathers the memory directives: the flat `.data` byte segment in source
/// order, and the thread count of the first `.threads` directive (default
/// 1 when it is absent or its count is missing or malformed). A malformed
/// `.data` byte is an invalid argument.
pub fn collect_directives(lines: &Vec<LexedLine>) -> (r: Result<(Vec<u8>, u32), LexError>)
    ensures
        match r {
            Ok(dt) => data_bytes_aux(models_of(lines@), 0) == Ok::<_, ErrKind>(dt.0@) && dt.1
                == threads_aux(models_of(lines@), 0),
            Err(e) => data_bytes_aux(models_of(lines@), 0) == Err::<Seq<u8>, _>(kind_of(e)),
        },
{
    let ghost ms = models_of(lines@);
    let n = lines.len();
    let mut bytes: Vec<u8> = Vec::new();
    let mut threads: u32 = 1;
    let mut threads_found = false;
    let mut p: usize = 0;
    while p < n
        invariant
            p <= n,
            n == lines@.len(),
            ms == models_of(lines@),
            match data_bytes_aux(ms, p as int) {
                Ok(b) => data_bytes_aux(ms, 0) == Ok::<_, ErrKind>(bytes@ + b),
                Err(k) => data_bytes_aux(ms, 0) == Err::<Seq<u8>, _>(k),
            },
            threads_found ==> threads_aux(ms, 0) == threads,
            !threads_found ==> threads_aux(ms, 0) == threads_aux(ms, p as int) && threads == 1,
        decreases n - p,
    {
        proof {
            assert(ms[p as int] == lines@[p as int].model());
        }
        match &lines[p] {
            LexedLine::Memory(l) => {
                let ntoks = l.parsed.tokens.len();
                proof {
                    reveal_strlit(".data");
                    reveal_strlit(".threads");
                    assert(".data"@.len() != ".threads"@.len());
                    if ntoks > 0 {
                        assert(ms[p as int].toks[0] == l.parsed.tokens@[0]@);
                    }
                    if ntoks > 1 {
                        assert(ms[p as int].toks[1] == l.parsed.tokens@[1]@);
                    }
                }
                if ntoks > 0 && crate::text::str_eq(l.parsed.tokens[0].as_str(), ".data") {
                    // Parse every byte token of this `.data` line.
                    let ghost tk = ms[p as int].toks;
                    let ghost pre = bytes@;
                    let ghost start_len = bytes@.len() as int;
                    let mut j: usize = 1;
                    while j < ntoks
                        invariant
                            1 <= j <= ntoks,
                            ntoks == tk.len(),
                            tk == ms[p as int].toks,
                            ms == models_of(lines@),
                            ms[p as int] == lines@[p as int].model(),
                            p < lines@.len(),
                            lines@[p as int] matches LexedLine::Memory(ll) && ll == l,
                            0 <= start_len <= bytes@.len(),
                            start_len == pre.len(),
                            bytes@.subrange(0, start_len) == pre,
                            is_data_line(ms[p as int]),
                            match data_bytes_aux(ms, p as int) {
                                Ok(b) => data_bytes_aux(ms, 0) == Ok::<_, ErrKind>(pre + b),
                                Err(k) => data_bytes_aux(ms, 0) == Err::<Seq<u8>, _>(k),
                            },
                            match line_bytes_aux(tk, j as int) {
                                Ok(b) => line_bytes_aux(tk, 1) == Ok::<_, ErrKind>(
                                    bytes@.subrange(start_len, bytes@.len() as int) + b,
                                ),
                                Err(k) => line_bytes_aux(tk, 1) == Err::<Seq<u8>, _>(k),
                            },
                        decreases ntoks - j,
                    {
                        proof {
                            assert(tk[j as int] == l.parsed.tokens@[j as int]@);
                        }
                        let v = match crate::text::parse_dec_u32(l.parsed.tokens[j].as_str()) {
                            Some(v) => {
                                if v > 255 {
                                    return Err(
                                        LexError::InvalidArgument(
                                            "data byte out of 8-bit range".to_owned(),
                                        ),
                                    );
                                }
                                v as u8
                            },
                            None => {
                                return Err(
                                    LexError::InvalidArgument(
                                        "data byte is not a number".to_owned(),
                                    ),
                                );
                            },
                        };
                        let ghost old_bytes = bytes@;
                        bytes.push(v);
                        proof {
                            assert(bytes@.subrange(0, start_len) =~= old_bytes.subrange(
                                0,
                                start_len,
                            ));
                            assert(bytes@.subrange(start_len, bytes@.len() as int) =~= old_bytes
                                .subrange(start_len, old_bytes.len() as int).push(v));
                            if let Ok(b) = line_bytes_aux(tk, j as int + 1) {
                                assert(old_bytes.subrange(start_len, old_bytes.len() as int) + (
                                seq![v] + b) =~= bytes@.subrange(start_len, bytes@.len() as int)
                                    + b);
                            }
                        }
                        j += 1;
                    }
                    proof {
                        assert(line_bytes_aux(tk, ntoks as int) == Ok::<_, ErrKind>(
                            Seq::<u8>::empty(),
                        ));
                        let added = bytes@.subrange(start_len, bytes@.len() as int);
                        assert(added + Seq::<u8>::empty() =~= added);
                        assert(line_bytes_aux(tk, 1) == Ok::<_, ErrKind>(added));
                        if let Ok(rest) = data_bytes_aux(ms, p as int + 1) {
                            assert(data_bytes_aux(ms, p as int) == Ok::<_, ErrKind>(added + rest));
                            assert(data_bytes_aux(ms, 0) == Ok::<_, ErrKind>(pre + (added + rest)));
                            assert(pre + (added + rest) =~= bytes@ + rest);
                        }
                    }
                } else if !threads_found && ntoks > 0 && crate::text::str_eq(
                    l.parsed.tokens[0].as_str(),
                    ".threads",
                ) {
                    threads_found = true;
                    if ntoks >= 2 {
                        match crate::text::parse_dec_u32(l.parsed.tokens[1].as_str()) {
                            Some(v) => {
                                threads = v;
                            },
                            None => {
                                threads = 1;
                            },
                        }
                    } else {
                        threads = 1;
                    }
                }
            },
            _ => {},
        }
        p += 1;
    }
    proof {
        assert(data_bytes_aux(ms, n as int) == Ok::<_, ErrKind>(Seq::<u8>::empty()));
        assert(bytes@ + Seq::<u8>::empty() =~= bytes@);
    }
    Ok((bytes, threads))
}

/// The line numbers of memory directive lines whose directive name is
/// neither `.data` nor `.threads`: likely mistakes worth a diagnostic.
pub fn unknown_directives(lines: &Vec<LexedLine>) -> (r: Vec<u32>)
    ensures
        r@ == unknown_dirs_aux(models_of(lines@), 0),
{
    let ghost ms = models_of(lines@);
    let n = lines.len();
    let mut acc: Vec<u32> = Vec::new();
    let mut p: usize = 0;
    while p < n
        invariant
            p <= n,
            n == lines@.len(),
            ms == models_of(lines@),
            acc@ + unknown_dirs_aux(ms, p as int) == unknown_dirs_aux(ms, 0),
        decreases n - p,
    {
        proof {
            assert(ms[p as int] == lines@[p as int].model());
        }
        match &lines[p] {
            LexedLine::Memory(l) => {
                let ntoks = l.parsed.tokens.len();
                proof {
                    if ntoks > 0 {
                        assert(ms[p as int].toks[0] == l.parsed.tokens@[0]@);
                    }
                }
                let known = ntoks > 0 && (crate::text::str_eq(l.parsed.tokens[0].as_str(), ".data")
                    || crate::text::str_eq(l.parsed.tokens[0].as_str(), ".threads"));
                if !known {
                    let ghost old_acc = acc@;
                    acc.push(l.parsed.line_num);
                    proof {
                        assert(old_acc + (seq![ms[p as int].line_num] + unknown_dirs_aux(
                            ms,
                            p as int + 1,
                        )) =~= acc@ + unknown_dirs_aux(ms, p as int + 1));
                    }
                }
            },
            _ => {},
        }
        p += 1;
    }
    proof {
        assert(unknown_dirs_aux(ms, n as int) == Seq::<u32>::empty());
        assert(acc@ + Seq::<u32>::empty() =~= acc@);
    }
    acc
}

} // verus!
