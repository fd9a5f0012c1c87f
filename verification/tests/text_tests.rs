use zauth::text::{bytes_eq, parse_decimal, split_spans, word_spans, Span};

fn pieces<'a>(s: &'a [u8], spans: &[Span]) -> Vec<&'a [u8]> {
    spans.iter().map(|span| &s[span.start..span.end]).collect()
}

#[test]
fn splitting_keeps_empty_pieces() {
    let cases: [(&[u8], Vec<&[u8]>); 7] = [
        (b"", vec![b""]),
        (b"a", vec![b"a"]),
        (b".", vec![b"", b""]),
        (b"a.b", vec![b"a", b"b"]),
        (b"a..b", vec![b"a", b"", b"b"]),
        (b".a.", vec![b"", b"a", b""]),
        (b"ab.cd.ef", vec![b"ab", b"cd", b"ef"]),
    ];
    for (text, expected) in cases {
        assert_eq!(pieces(text, &split_spans(text, b'.')), expected);
    }
}

#[test]
fn spans_follow_each_other() {
    let spans = split_spans(b"ab.cd..e", b'.');
    let bounds: Vec<(usize, usize)> = spans.iter().map(|s| (s.start, s.end)).collect();
    assert_eq!(bounds, vec![(0, 2), (3, 5), (6, 6), (7, 8)]);
}

#[test]
fn words_are_the_pieces_that_are_not_empty() {
    let cases: [(&[u8], Vec<&[u8]>); 6] = [
        (b"", vec![]),
        (b"   ", vec![]),
        (b"a", vec![b"a"]),
        (b"  a  bc ", vec![b"a", b"bc"]),
        (b"a\tb c", vec![b"a\tb", b"c"]),
        (b"u GET /x", vec![b"u", b"GET", b"/x"]),
    ];
    for (text, expected) in cases {
        assert_eq!(pieces(text, &word_spans(text, b' ')), expected);
    }
}

#[test]
fn decimals_are_read_exactly() {
    assert_eq!(parse_decimal(b"0"), Some(0));
    assert_eq!(parse_decimal(b"7"), Some(7));
    assert_eq!(parse_decimal(b"007"), Some(7));
    assert_eq!(parse_decimal(b"1467640768"), Some(1467640768));
    assert_eq!(parse_decimal(b"18446744073709551615"), Some(u64::MAX));
    assert_eq!(parse_decimal(b"018446744073709551615"), Some(u64::MAX));
    assert_eq!(parse_decimal(b"18446744073709551616"), None);
    assert_eq!(parse_decimal(b"99999999999999999999"), None);
    assert_eq!(parse_decimal(b"184467440737095516150"), None);
    assert_eq!(parse_decimal(b""), None);
    assert_eq!(parse_decimal(b"-1"), None);
    assert_eq!(parse_decimal(b"+1"), None);
    assert_eq!(parse_decimal(b"1 "), None);
    assert_eq!(parse_decimal(b"12a"), None);
    assert_eq!(parse_decimal(b"0x10"), None);
    assert_eq!(parse_decimal(b"1.5"), None);
}

#[test]
fn byte_strings_compare_by_content() {
    assert!(bytes_eq(b"", b""));
    assert!(bytes_eq(b"abc", b"abc"));
    assert!(!bytes_eq(b"abc", b"abd"));
    assert!(!bytes_eq(b"abc", b"ab"));
    assert!(!bytes_eq(b"", b"a"));
}
