//! Byte-level text utilities shared by the parsers: splitting on a separator,
//! decimal numbers, and comparison of byte strings.

use vstd::prelude::*;

verus! {

/// The byte that ends a line.
pub const NEWLINE: u8 = 0x0a;

/// The byte that sets the words of a line apart.
pub const SPACE: u8 = 0x20;

/// The byte that starts a comment line, `#`.
pub const HASH: u8 = 0x23;

/// A half-open range `start..end` of positions in a byte string.
#[derive(Clone, Copy, Debug)]
pub struct Span {
    pub start: usize,
    pub end: usize,
}

/// The bytes that an optional buffer holds.
pub open spec fn optional_bytes(buffer: Option<Vec<u8>>) -> Option<Seq<u8>> {
    match buffer {
        Some(bytes) => Some(bytes@),
        None => None,
    }
}

/// The bytes that an optional slice holds.
pub open spec fn optional_slice(slice: Option<&[u8]>) -> Option<Seq<u8>> {
    match slice {
        Some(bytes) => Some(bytes@),
        None => None,
    }
}

/// The pieces of `s` that lie between the occurrences of `sep`, in order.
/// A string without any separator is a single piece; `n` separators give `n + 1`
/// pieces, some of which may be empty.
pub open spec fn split(s: Seq<u8>, sep: u8) -> Seq<Seq<u8>>
    decreases s.len(),
{
    if s.len() == 0 {
        seq![Seq::<u8>::empty()]
    } else {
        let before = split(s.drop_last(), sep);
        if s.last() == sep {
            before.push(Seq::<u8>::empty())
        } else {
            before.update(before.len() - 1, before.last().push(s.last()))
        }
    }
}

/// `spans` locates the pieces of `split(s, sep)` inside `s`: one span per piece,
/// the first starting at 0, each but the last ending at a separator, each next
/// one starting right after that separator, the last ending where `s` ends.
pub open spec fn spans_locate_split(spans: Seq<Span>, s: Seq<u8>, sep: u8) -> bool {
    let parts = split(s, sep);
    &&& spans.len() == parts.len()
    &&& spans.len() > 0
    &&& spans[0].start == 0
    &&& spans.last().end == s.len()
    &&& forall|i: int|
        0 <= i < spans.len() ==> {
            &&& (#[trigger] spans[i]).start <= spans[i].end <= s.len()
            &&& s.subrange(spans[i].start as int, spans[i].end as int) == parts[i]
        }
    &&& forall|i: int|
        0 <= i < spans.len() - 1 ==> {
            &&& (#[trigger] spans[i]).end + 1 == spans[i + 1].start
            &&& s[spans[i].end as int] == sep
        }
}

/// Splitting never yields an empty list of pieces.
pub proof fn lemma_split_nonempty(s: Seq<u8>, sep: u8)
    ensures
        split(s, sep).len() >= 1,
    decreases s.len(),
{
    if s.len() > 0 {
        lemma_split_nonempty(s.drop_last(), sep);
    }
}

/// Where a string has more than one piece, it ends with the separator and the
/// last piece.
pub proof fn lemma_split_last(s: Seq<u8>, sep: u8)
    requires
        split(s, sep).len() >= 2,
    ensures
        s.len() >= split(s, sep).last().len() + 1,
        s[s.len() - split(s, sep).last().len() - 1] == sep,
        s.skip(s.len() - split(s, sep).last().len()) == split(s, sep).last(),
        split(s.take(s.len() - split(s, sep).last().len() - 1), sep) == split(s, sep).drop_last(),
    decreases s.len(),
{
    let parts = split(s, sep);
    let before = split(s.drop_last(), sep);
    lemma_split_nonempty(s.drop_last(), sep);
    if s.last() == sep {
        assert(s.skip(s.len() as int) =~= parts.last());
        assert(s.take(s.len() - 1) =~= s.drop_last());
        assert(parts.drop_last() =~= before);
    } else {
        lemma_split_last(s.drop_last(), sep);
        let n = before.last().len();
        assert(s.skip(s.len() - n - 1) =~= s.drop_last().skip(s.len() - 1 - n).push(s.last()));
        assert(s.take(s.len() - n - 2) =~= s.drop_last().take(s.len() - 1 - n - 1));
        assert(parts.drop_last() =~= before.drop_last());
    }
}

/// Finds the pieces of `s` separated by `sep`.
pub fn split_spans(s: &[u8], sep: u8) -> (spans: Vec<Span>)
    ensures
        spans_locate_split(spans@, s@, sep),
{
    let mut spans: Vec<Span> = Vec::new();
    let mut start: usize = 0;
    let mut i: usize = 0;
    while i < s.len()
        invariant
            start <= i <= s.len(),
            spans.len() + 1 == split(s@.take(i as int), sep).len(),
            split(s@.take(i as int), sep).last() == s@.subrange(start as int, i as int),
            spans.len() == 0 ==> start == 0,
            spans.len() > 0 ==> spans[0].start == 0 && spans@.last().end + 1 == start,
            forall|k: int|
                0 <= k < spans.len() ==> {
                    &&& (#[trigger] spans[k]).start <= spans[k].end < start
                    &&& s@.subrange(spans[k].start as int, spans[k].end as int) == split(
                        s@.take(i as int),
                        sep,
                    )[k]
                },
            forall|k: int|
                0 <= k < spans.len() - 1 ==> (#[trigger] spans[k]).end + 1 == spans[k + 1].start,
            forall|k: int| 0 <= k < spans.len() ==> s@[(#[trigger] spans[k]).end as int] == sep,
        decreases s.len() - i,
    {
        proof {
            assert(s@.take(i + 1).drop_last() =~= s@.take(i as int));
            assert(s@.take(i + 1).last() == s@[i as int]);
            assert(s@.subrange(start as int, i as int).push(s@[i as int]) =~= s@.subrange(
                start as int,
                i + 1,
            ));
            assert(s@.subrange(i + 1, i + 1) =~= Seq::<u8>::empty());
        }
        if s[i] == sep {
            spans.push(Span { start, end: i });
            start = i + 1;
        }
        i += 1;
    }
    proof {
        assert(s@.take(s.len() as int) =~= s@);
    }
    spans.push(Span { start, end: s.len() });
    spans
}

/// Compares two byte strings.
pub fn bytes_eq(a: &[u8], b: &[u8]) -> (same: bool)
    ensures
        same == (a@ == b@),
{
    if a.len() != b.len() {
        return false;
    }
    let mut i: usize = 0;
    while i < a.len()
        invariant
            i <= a.len(),
            a.len() == b.len(),
            forall|k: int| 0 <= k < i ==> a@[k] == b@[k],
        decreases a.len() - i,
    {
        if a[i] != b[i] {
            return false;
        }
        i += 1;
    }
    assert(a@ =~= b@);
    true
}

/// The non-empty pieces of `s` between occurrences of `sep`: the words of a line
/// whose words are set apart by one or more separators.
pub open spec fn words(s: Seq<u8>, sep: u8) -> Seq<Seq<u8>> {
    split(s, sep).filter(|piece: Seq<u8>| piece.len() > 0)
}

/// `spans` locates the given `pieces` inside `s`, one span per piece.
pub open spec fn spans_locate(spans: Seq<Span>, s: Seq<u8>, pieces: Seq<Seq<u8>>) -> bool {
    &&& spans.len() == pieces.len()
    &&& forall|i: int|
        0 <= i < spans.len() ==> {
            &&& (#[trigger] spans[i]).start <= spans[i].end <= s.len()
            &&& s.subrange(spans[i].start as int, spans[i].end as int) == pieces[i]
        }
}

/// Finds the words of `s`, set apart by `sep`.
pub fn word_spans(s: &[u8], sep: u8) -> (found: Vec<Span>)
    ensures
        spans_locate(found@, s@, words(s@, sep)),
{
    let pieces = split_spans(s, sep);
    let ghost nonempty = |piece: Seq<u8>| piece.len() > 0;
    let ghost parts = split(s@, sep);
    let mut found: Vec<Span> = Vec::new();
    let mut i: usize = 0;
    proof {
        reveal(Seq::filter);
        assert(parts.take(0).filter(nonempty) =~= Seq::<Seq<u8>>::empty());
    }
    while i < pieces.len()
        invariant
            i <= pieces.len(),
            parts == split(s@, sep),
            nonempty == (|piece: Seq<u8>| piece.len() > 0),
            spans_locate_split(pieces@, s@, sep),
            spans_locate(found@, s@, parts.take(i as int).filter(nonempty)),
        decreases pieces.len() - i,
    {
        let span = pieces[i];
        proof {
            reveal(Seq::filter);
            assert(parts.take(i + 1).drop_last() =~= parts.take(i as int));
            assert(parts.take(i + 1).last() == parts[i as int]);
        }
        if span.start < span.end {
            found.push(span);
        }
        i += 1;
    }
    proof {
        assert(parts.take(pieces.len() as int) =~= parts);
    }
    found
}

/// Whether a line of a rule or record file carries nothing: it has no words, or
/// its first word starts with `#`.
pub open spec fn is_ignored(line: Seq<u8>) -> bool {
    let w = words(line, SPACE);
    w.len() == 0 || w[0][0] == HASH
}

/// Tells whether a line carries nothing, from where its words lie.
pub(crate) fn is_ignored_line(line: &[u8], found: &Vec<Span>) -> (ignored: bool)
    requires
        spans_locate(found@, line@, words(line@, SPACE)),
    ensures
        ignored == is_ignored(line@),
{
    if found.len() == 0 {
        return true;
    }
    line[found[0].start] == HASH
}

/// Whether `b` is an ASCII decimal digit.
pub open spec fn is_digit(b: u8) -> bool {
    0x30 <= b <= 0x39
}

/// The number that the digits of `s` denote in base ten; a byte that is no digit
/// counts as zero.
pub open spec fn decimal_value(s: Seq<u8>) -> nat
    decreases s.len(),
{
    if s.len() == 0 {
        0
    } else {
        decimal_value(s.drop_last()) * 10 + (if is_digit(s.last()) {
            (s.last() - 0x30) as nat
        } else {
            0
        })
    }
}

/// Whether `s` is a decimal numeral: one or more digits and nothing else.
pub open spec fn is_decimal(s: Seq<u8>) -> bool {
    s.len() > 0 && forall|i: int| 0 <= i < s.len() ==> is_digit(#[trigger] s[i])
}

/// The value of the decimal numeral `s`, where `s` is one and its value fits in
/// 64 bits. Leading zeros are accepted.
pub open spec fn decimal_u64(s: Seq<u8>) -> Option<u64> {
    if is_decimal(s) && decimal_value(s) <= u64::MAX {
        Some(decimal_value(s) as u64)
    } else {
        None
    }
}

/// A numeral is worth at least as much as each of its prefixes.
pub proof fn lemma_decimal_value_prefix(s: Seq<u8>, n: int)
    requires
        0 <= n <= s.len(),
    ensures
        decimal_value(s.take(n)) <= decimal_value(s),
    decreases s.len(),
{
    if n == s.len() {
        assert(s.take(n) =~= s);
    } else {
        assert(s.drop_last().take(n) =~= s.take(n));
        lemma_decimal_value_prefix(s.drop_last(), n);
    }
}

/// Reads a decimal numeral.
pub fn parse_decimal(s: &[u8]) -> (value: Option<u64>)
    ensures
        value == decimal_u64(s@),
{
    if s.len() == 0 {
        return None;
    }
    let mut acc: u64 = 0;
    let mut i: usize = 0;
    while i < s.len()
        invariant
            i <= s.len(),
            forall|k: int| 0 <= k < i ==> is_digit(#[trigger] s@[k]),
            acc == decimal_value(s@.take(i as int)),
        decreases s.len() - i,
    {
        let b: u8 = s[i];
        if b < 0x30 || b > 0x39 {
            return None;
        }
        let d: u64 = (b - 0x30) as u64;
        proof {
            assert(s@.take(i + 1).drop_last() =~= s@.take(i as int));
            assert(s@.take(i + 1).last() == b);
            lemma_decimal_value_prefix(s@, i + 1);
        }
        if acc > (u64::MAX - d) / 10 {
            return None;
        }
        acc = acc * 10 + d;
        i += 1;
    }
    proof {
        assert(s@.take(s.len() as int) =~= s@);
    }
    Some(acc)
}

} // verus!
