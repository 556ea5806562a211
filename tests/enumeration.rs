use heap_permute::heap::HeapPermutor;
use heap_permute::iterator::PermuteIter;
use heap_permute::permutable::Permutable;
use heap_permute::Permutor;
use std::collections::BTreeSet;

fn collect_all<B: Permutable>(source: B) -> Vec<B> {
    let mut it = PermuteIter::from(source);
    let mut out = Vec::new();
    while let Some(v) = it.next() {
        out.push(v);
    }
    out
}

fn factorial(n: usize) -> usize {
    (1..=n).product()
}

fn text(v: &[Vec<u8>]) -> Vec<String> {
    v.iter().map(|b| String::from_utf8(b.clone()).unwrap()).collect()
}

#[test]
fn abc_in_order() {
    let got = text(&collect_all(b"ABC".to_vec()));
    assert_eq!(got, vec!["ABC", "BAC", "CAB", "ACB", "BCA", "CBA"]);
}

#[test]
fn abcd_yields_every_arrangement_once() {
    let got = text(&collect_all(b"ABCD".to_vec()));
    let listed = [
        "ABCD", "BACD", "CABD", "ACBD", "BCAD", "CBAD", "DBCA", "BDCA", "CDBA", "DCBA", "BCDA",
        "CBDA", "DACB", "ADCB", "CDAB", "DCAB", "ACDB", "CADB", "DABC", "ADBC", "BDAC", "DBAC",
        "ABDC", "BADC",
    ];
    assert_eq!(got.len(), 24);
    assert_eq!(&got[..6], &listed[..6]);
    let got_set: BTreeSet<&str> = got.iter().map(|s| s.as_str()).collect();
    let listed_set: BTreeSet<&str> = listed.iter().copied().collect();
    assert_eq!(got_set.len(), 24);
    assert_eq!(got_set, listed_set);
}

#[test]
fn abcd_follows_single_swaps() {
    let got = text(&collect_all(b"ABCD".to_vec()));
    let expected = [
        "ABCD", "BACD", "CABD", "ACBD", "BCAD", "CBAD", "DBAC", "BDAC", "ADBC", "DABC", "BADC",
        "ABDC", "ACDB", "CADB", "DACB", "ADCB", "CDAB", "DCAB", "DCBA", "CDBA", "BDCA", "DBCA",
        "CBDA", "BCDA",
    ];
    assert_eq!(got, expected);
}

#[test]
fn counts_are_factorials() {
    for n in 0..=7usize {
        let source: Vec<u8> = (0..n as u8).collect();
        let all = collect_all(source);
        assert_eq!(all.len(), factorial(n));
        let distinct: BTreeSet<Vec<u8>> = all.iter().cloned().collect();
        assert_eq!(distinct.len(), factorial(n));
        for p in &all {
            let mut sorted = p.clone();
            sorted.sort();
            assert_eq!(sorted, (0..n as u8).collect::<Vec<u8>>());
        }
    }
}

#[test]
fn first_is_the_input() {
    let source = vec![3u32, 1, 4, 1, 5];
    let mut it = PermuteIter::from(source.clone());
    assert_eq!(it.next(), Some(source));
}

#[test]
fn rebuilt_sequences_agree() {
    let source = vec![9i64, -2, 7, 0];
    assert_eq!(collect_all(source.clone()), collect_all(source));
}

#[test]
fn empty_and_single_yield_once() {
    let empty: Vec<u8> = Vec::new();
    assert_eq!(collect_all(empty.clone()), vec![empty]);
    assert_eq!(collect_all(vec![42u8]), vec![vec![42u8]]);
}

#[test]
fn exhausted_stays_exhausted() {
    let mut it = PermuteIter::from(vec![1u8, 2]);
    assert_eq!(it.next(), Some(vec![1, 2]));
    assert_eq!(it.next(), Some(vec![2, 1]));
    assert_eq!(it.next(), None);
    assert_eq!(it.next(), None);
}

#[test]
fn repeated_elements_are_not_deduplicated() {
    let all = collect_all(b"AAB".to_vec());
    assert_eq!(all.len(), 6);
    let distinct: BTreeSet<Vec<u8>> = all.into_iter().collect();
    assert_eq!(distinct.len(), 3);
}

#[test]
fn permutor_steps_in_place() {
    let mut v = b"ABC".to_vec();
    let mut p = HeapPermutor::new(v.len());
    let mut seen = vec![v.clone()];
    while !HeapPermutor::finished(&p) {
        p.permute(&mut v);
        if !HeapPermutor::finished(&p) {
            seen.push(v.clone());
        }
    }
    assert_eq!(seen.len(), 6);
    assert_eq!(seen[1], b"BAC".to_vec());
    assert_eq!(v, b"CBA".to_vec());
    p.permute(&mut v);
    assert!(Permutor::<Vec<u8>>::finished(&p));
    assert_eq!(v, b"CBA".to_vec());
}

#[test]
fn permutor_trait_steps() {
    let mut v = vec![1u8, 2, 3];
    let mut p = HeapPermutor::new(3);
    Permutor::permute(&mut p, &mut v);
    assert_eq!(v, vec![2, 1, 3]);
    Permutor::permute(&mut p, &mut v);
    assert_eq!(v, vec![3, 1, 2]);
}

#[test]
fn vec_swap_and_len() {
    let mut v = vec!['a', 'b', 'c', 'd'];
    Permutable::swap(&mut v, 0, 3);
    assert_eq!(v, vec!['d', 'b', 'c', 'a']);
    Permutable::swap(&mut v, 2, 2);
    assert_eq!(v, vec!['d', 'b', 'c', 'a']);
    assert_eq!(Permutable::len(&v), 4);
    assert_eq!(Permutable::snapshot(&v), v);
}

#[test]
fn permutor_from_value() {
    let mut v = vec![1u8, 2, 3];
    let mut p = HeapPermutor::from(&v);
    assert!(!HeapPermutor::finished(&p));
    p.permute(&mut v);
    assert_eq!(v, vec![2, 1, 3]);
    let mut empty: Vec<u8> = Vec::new();
    let mut q = HeapPermutor::from(&empty);
    q.permute(&mut empty);
    assert!(HeapPermutor::finished(&q));
}
