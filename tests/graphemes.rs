use heap_permute::permutable::Permutable;
use heap_permute::{GraphemeString, PermuteIter};

fn swapped(s: &str, a: usize, b: usize) -> String {
    let mut g = GraphemeString::from(s);
    g.swap(a, b);
    g.as_ref().to_string()
}

#[test]
fn counts_clusters_not_characters() {
    assert_eq!(GraphemeString::from("g\u{308}a").len(), 2);
    assert_eq!(GraphemeString::from("").len(), 0);
    assert_eq!(GraphemeString::from("abc").len(), 3);
    assert_eq!(GraphemeString::from("e\u{301}\r\n\u{1F1EB}\u{1F1F7}").len(), 3);
}

#[test]
fn as_ref_gives_the_text() {
    let g = GraphemeString::from("h\u{e9}llo");
    assert_eq!(g.as_ref(), "h\u{e9}llo");
    assert_eq!(GraphemeString::from("").as_ref(), "");
}

#[test]
fn swap_equal_widths() {
    assert_eq!(swapped("abcd", 0, 3), "dbca");
    assert_eq!(swapped("abcd", 2, 1), "acbd");
}

#[test]
fn swap_longer_first() {
    assert_eq!(swapped("g\u{308}xa", 0, 2), "axg\u{308}");
    assert_eq!(swapped("g\u{308}a", 1, 0), "ag\u{308}");
}

#[test]
fn swap_longer_second() {
    assert_eq!(swapped("axg\u{308}", 0, 2), "g\u{308}xa");
    assert_eq!(swapped("a\u{1F1EB}\u{1F1F7}bc", 0, 1), "\u{1F1EB}\u{1F1F7}abc");
    assert_eq!(swapped("zq\u{e9}\u{301}", 1, 2), "z\u{e9}\u{301}q");
}

#[test]
fn swap_same_position_is_no_op() {
    assert_eq!(swapped("g\u{308}a", 1, 1), "g\u{308}a");
}

#[test]
fn swap_twice_restores() {
    let base = "x\u{1F1EB}\u{1F1F7}ye\u{301}z";
    let mut g = GraphemeString::from(base);
    g.swap(1, 3);
    assert_eq!(g.as_ref(), "xe\u{301}y\u{1F1EB}\u{1F1F7}z");
    g.swap(1, 3);
    assert_eq!(g.as_ref(), base);
    g.swap(0, 4);
    g.swap(4, 0);
    assert_eq!(g.as_ref(), base);
}

#[test]
fn clusters_enumerate() {
    let mut it = PermuteIter::from(GraphemeString::from("g\u{308}ab"));
    let mut got = Vec::new();
    while let Some(g) = it.next() {
        got.push(g.as_ref().to_string());
    }
    assert_eq!(
        got,
        vec![
            "g\u{308}ab",
            "ag\u{308}b",
            "bg\u{308}a",
            "g\u{308}ba",
            "abg\u{308}",
            "bag\u{308}",
        ]
    );
}

#[test]
fn exchange_ranges_splices_unequal_spans() {
    let mut bytes = b"aXYbcdZ".to_vec();
    let mut buf = Vec::new();
    heap_permute::grapheme::exchange_ranges(&mut bytes, &mut buf, 1, 3, 6, 7);
    assert_eq!(bytes, b"aZbcdXY".to_vec());
    heap_permute::grapheme::exchange_ranges(&mut bytes, &mut buf, 1, 2, 5, 7);
    assert_eq!(bytes, b"aXYbcdZ".to_vec());
    heap_permute::grapheme::exchange_ranges(&mut bytes, &mut buf, 0, 1, 1, 2);
    assert_eq!(bytes, b"XaYbcdZ".to_vec());
}
