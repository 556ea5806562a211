use heap_permute::{GraphemeString, PermuteIter};

fn pull_all<B: heap_permute::Permutable>(mut it: PermuteIter<B>, bound: usize) -> Vec<B> {
    let mut out = Vec::new();
    while out.len() < bound {
        match it.next() {
            Some(v) => out.push(v),
            None => break,
        }
    }
    out
}

#[test]
fn slice_and_str() {
    let expected = ["ABC", "BAC", "CAB", "ACB", "BCA", "CBA"];
    let val = String::from("ABC").into_bytes();
    let got = pull_all(PermuteIter::from(val), 6);
    assert_eq!(got.len(), expected.len());
    for (p, cmp) in got.iter().zip(expected.iter()) {
        assert_eq!(p.as_slice(), cmp.as_bytes());
    }
}

#[test]
fn bits() {
    let expected: Vec<u8> = vec![
        0b10101001, 0b10101010, 0b10101010, 0b10101001, 0b10101100, 0b10101100, 0b10100101,
        0b10100110, 0b10100011, 0b10100011,
    ];
    let got = pull_all(PermuteIter::from(0b1010_1001u8), 10);
    assert_eq!(got, expected);
}

#[test]
fn grapheme_string() {
    let base = "g\u{308}a";
    let graphemes = GraphemeString::from(base);
    assert_eq!(graphemes.as_ref(), base);
}
