//! Character-level models and verified helpers for the assembler's lexical
//! work: whitespace splitting, comment detection, character stripping and
//! decimal parsing.
use vstd::prelude::*;

verus! {

/// Whitespace for token splitting: the ASCII whitespace characters.
pub open spec fn is_ws(c: char) -> bool {
    c == ' ' || c == '\t' || c == '\r' || c == '\n'
}

/// Helper for `split_ws`: tokens of `s` when a partial token `cur` has
/// already been read.
pub open spec fn split_ws_aux(s: Seq<char>, cur: Seq<char>) -> Seq<Seq<char>>
    decreases s.len(),
{
    if s.len() == 0 {
        if cur.len() == 0 {
            Seq::empty()
        } else {
            seq![cur]
        }
    } else if is_ws(s[0]) {
        (if cur.len() == 0 {
            Seq::<Seq<char>>::empty()
        } else {
            seq![cur]
        }) + split_ws_aux(s.subrange(1, s.len() as int), Seq::empty())
    } else {
        split_ws_aux(s.subrange(1, s.len() as int), cur.push(s[0]))
    }
}

/// The sequence of whitespace-separated tokens of `s`, in order.
pub open spec fn split_ws(s: Seq<char>) -> Seq<Seq<char>> {
    split_ws_aux(s, Seq::empty())
}

/// Index of the first `;` in `s`, or `s.len()` if there is none.
pub open spec fn find_semi(s: Seq<char>) -> int
    decreases s.len(),
{
    if s.len() == 0 {
        0
    } else if s[0] == ';' {
        0
    } else {
        1 + find_semi(s.subrange(1, s.len() as int))
    }
}

/// `find_semi` points at the first `;`, or past the end if there is none.
pub proof fn lemma_find_semi(s: Seq<char>)
    ensures
        0 <= find_semi(s) <= s.len(),
        forall|j: int| 0 <= j < find_semi(s) ==> s[j] != ';',
        find_semi(s) < s.len() ==> s[find_semi(s)] == ';',
    decreases s.len(),
{
    if s.len() == 0 {
    } else if s[0] == ';' {
    } else {
        let t = s.subrange(1, s.len() as int);
        lemma_find_semi(t);
        assert forall|j: int| 0 <= j < find_semi(s) implies s[j] != ';' by {
            if j >= 1 {
                assert(s[j] == t[j - 1]);
            }
        }
        if find_semi(s) < s.len() {
            assert(s[find_semi(s)] == t[find_semi(s) - 1]);
        }
    }
}

/// Any boundary with the properties of `lemma_find_semi` is `find_semi(s)`.
pub proof fn lemma_find_semi_unique(s: Seq<char>, p: int)
    requires
        0 <= p <= s.len(),
        forall|j: int| 0 <= j < p ==> s[j] != ';',
        p < s.len() ==> s[p] == ';',
    ensures
        find_semi(s) == p,
{
    lemma_find_semi(s);
    if find_semi(s) < p {
        assert(s[find_semi(s)] == ';');
    } else if p < find_semi(s) {
        assert(s[p] != ';');
    }
}

/// The part of a raw line before its first `;`.
pub open spec fn code_of(s: Seq<char>) -> Seq<char> {
    s.subrange(0, find_semi(s))
}

/// The comment of a raw line: everything after the first `;`, if any.
pub open spec fn comment_of(s: Seq<char>) -> Option<Seq<char>> {
    if find_semi(s) < s.len() {
        Some(s.subrange(find_semi(s) + 1, s.len() as int))
    } else {
        None
    }
}

/// `s` with every occurrence of `unwanted` removed.
pub open spec fn strip_char_spec(s: Seq<char>, unwanted: char) -> Seq<char>
    decreases s.len(),
{
    if s.len() == 0 {
        Seq::empty()
    } else if s[0] == unwanted {
        strip_char_spec(s.subrange(1, s.len() as int), unwanted)
    } else {
        seq![s[0]] + strip_char_spec(s.subrange(1, s.len() as int), unwanted)
    }
}

/// An ASCII decimal digit.
pub open spec fn is_digit(c: char) -> bool {
    '0' <= c && c <= '9'
}

pub open spec fn digit_val(c: char) -> nat {
    (c as nat - '0' as nat) as nat
}

/// Value of a digit string, most significant digit first.
pub open spec fn dec_val(s: Seq<char>) -> nat
    decreases s.len(),
{
    if s.len() == 0 {
        0
    } else {
        dec_val(s.subrange(0, s.len() - 1)) * 10 + digit_val(s[s.len() - 1])
    }
}

/// A well-formed unsigned decimal numeral: an optional leading `+` followed
/// by at least one digit.
pub open spec fn numeral_digits(s: Seq<char>) -> Seq<char> {
    if s.len() > 0 && s[0] == '+' {
        s.subrange(1, s.len() as int)
    } else {
        s
    }
}

pub open spec fn is_numeral(s: Seq<char>) -> bool {
    numeral_digits(s).len() > 0 && forall|j: int|
        0 <= j < numeral_digits(s).len() ==> is_digit(numeral_digits(s)[j])
}

/// The value a string denotes as an unsigned decimal number below `bound`,
/// if it is a well-formed numeral in range.
pub open spec fn parse_dec(s: Seq<char>, bound: nat) -> Option<nat> {
    if is_numeral(s) && dec_val(numeral_digits(s)) < bound {
        Some(dec_val(numeral_digits(s)))
    } else {
        None
    }
}

/// Appending digits never decreases the value of a digit string.
pub proof fn lemma_dec_val_prefix(s: Seq<char>, i: int)
    requires
        0 <= i <= s.len(),
    ensures
        dec_val(s.subrange(0, i)) <= dec_val(s),
    decreases s.len() - i,
{
    if i < s.len() {
        let t = s.subrange(0, i + 1);
        assert(t.subrange(0, i) =~= s.subrange(0, i));
        assert(dec_val(s.subrange(0, i)) <= dec_val(t));
        lemma_dec_val_prefix(s, i + 1);
        assert(s.subrange(0, s.len() as int) =~= s);
    } else {
        assert(s.subrange(0, i) =~= s);
    }
}

/// Parses `s` as an unsigned decimal numeral that fits in a `u32`.
pub fn parse_dec_u32(s: &str) -> (r: Option<u32>)
    ensures
        r matches Some(v) ==> parse_dec(s@, 0x1_0000_0000) == Some(v as nat),
        r is None ==> parse_dec(s@, 0x1_0000_0000) is None,
{
    let n = s.unicode_len();
    let mut i: usize = 0;
    if n > 0 && s.get_char(0) == '+' {
        i = 1;
    }
    let ghost start = i as int;
    let ghost d = numeral_digits(s@);
    proof {
        assert(d =~= s@.subrange(start, n as int));
    }
    if i == n {
        return None;
    }
    let mut acc: u64 = 0;
    while i < n
        invariant
            start <= i <= n,
            n == s@.len(),
            start == if s@.len() > 0 && s@[0] == '+' {
                1int
            } else {
                0int
            },
            d == numeral_digits(s@),
            d == s@.subrange(start, n as int),
            forall|j: int| start <= j < i ==> is_digit(s@[j]),
            acc == dec_val(s@.subrange(start, i as int)),
            acc <= u32::MAX,
        decreases n - i,
    {
        let c = s.get_char(i);
        if !('0' <= c && c <= '9') {
            proof {
                assert(d[i - start] == s@[i as int]);
            }
            return None;
        }
        let v: u64 = (c as u32) as u64 - 48;
        proof {
            assert(v == digit_val(c));
        }
        acc = acc * 10 + v;
        proof {
            let t = s@.subrange(start, i + 1);
            assert(t.subrange(0, t.len() - 1) =~= s@.subrange(start, i as int));
            assert(t[t.len() - 1] == s@[i as int]);
        }
        if acc > u32::MAX as u64 {
            proof {
                lemma_dec_val_prefix(d, i + 1 - start);
                assert(d.subrange(0, i + 1 - start) =~= s@.subrange(start, i + 1));
            }
            return None;
        }
        i += 1;
    }
    proof {
        assert(s@.subrange(start, n as int) =~= d);
    }
    Some(acc as u32)
}

/// Whether two string slices hold the same characters.
pub fn str_eq(a: &str, b: &str) -> (r: bool)
    ensures
        r == (a@ == b@),
{
    let alen = a.unicode_len();
    let blen = b.unicode_len();
    if alen != blen {
        return false;
    }
    let mut i: usize = 0;
    while i < alen
        invariant
            i <= alen,
            alen == a@.len(),
            alen == b@.len(),
            forall|j: int| 0 <= j < i ==> a@[j] == b@[j],
        decreases alen - i,
    {
        if a.get_char(i) != b.get_char(i) {
            return false;
        }
        i += 1;
    }
    proof {
        assert(a@ =~= b@);
    }
    true
}

/// `s` with every occurrence of `unwanted` removed, as a fresh string.
pub fn strip_char(s: &str, unwanted: char) -> (r: String)
    ensures
        r@ == strip_char_spec(s@, unwanted),
{
    let n = s.unicode_len();
    let mut out = String::new();
    let mut i: usize = 0;
    proof {
        assert(s@.subrange(0, n as int) =~= s@);
    }
    while i < n
        invariant
            i <= n,
            n == s@.len(),
            out@ + strip_char_spec(s@.subrange(i as int, n as int), unwanted) == strip_char_spec(
                s@,
                unwanted,
            ),
        decreases n - i,
    {
        let c = s.get_char(i);
        let ghost suf = s@.subrange(i as int, n as int);
        proof {
            assert(suf.len() > 0);
            assert(suf[0] == s@[i as int]);
            assert(suf.subrange(1, suf.len() as int) =~= s@.subrange(i as int + 1, n as int));
        }
        if c != unwanted {
            let piece = s.substring_char(i, i + 1);
            out.append(piece);
            proof {
                assert(piece@ =~= seq![c]);
            }
        }
        proof {
            assert(strip_char_spec(suf, unwanted) == if suf[0] == unwanted {
                strip_char_spec(suf.subrange(1, suf.len() as int), unwanted)
            } else {
                seq![suf[0]] + strip_char_spec(suf.subrange(1, suf.len() as int), unwanted)
            });
        }
        i += 1;
    }
    proof {
        assert(s@.subrange(n as int, n as int) =~= Seq::<char>::empty());
        assert(out@ + Seq::<char>::empty() =~= out@);
    }
    out
}

} // verus!
