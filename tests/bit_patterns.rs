use heap_permute::permutable::Permutable;
use heap_permute::PermuteIter;

#[test]
fn bit_widths() {
    assert_eq!(Permutable::len(&0u8), 8);
    assert_eq!(Permutable::len(&0u16), 16);
    assert_eq!(Permutable::len(&0u32), 32);
    assert_eq!(Permutable::len(&0u64), 64);
    assert_eq!(Permutable::len(&0u128), 128);
    assert_eq!(Permutable::len(&0i8), 8);
    assert_eq!(Permutable::len(&0i16), 16);
    assert_eq!(Permutable::len(&0i32), 32);
    assert_eq!(Permutable::len(&0i64), 64);
    assert_eq!(Permutable::len(&0i128), 128);
}

#[test]
fn swapping_differing_bits_flips_both() {
    let mut x = 0b0000_0001u8;
    Permutable::swap(&mut x, 0, 7);
    assert_eq!(x, 0b1000_0000);
    let mut y = 0x0001u16;
    Permutable::swap(&mut y, 0, 15);
    assert_eq!(y, 0x8000);
    let mut z = 1u128;
    Permutable::swap(&mut z, 0, 127);
    assert_eq!(z, 1u128 << 127);
    let mut w = 0b10u64;
    Permutable::swap(&mut w, 1, 40);
    assert_eq!(w, 1u64 << 40);
}

#[test]
fn swapping_equal_bits_changes_nothing() {
    let mut x = 0b1000_0001u8;
    Permutable::swap(&mut x, 0, 7);
    assert_eq!(x, 0b1000_0001);
    let mut y = 0u32;
    Permutable::swap(&mut y, 3, 30);
    assert_eq!(y, 0);
}

#[test]
fn signed_patterns_swap_the_sign_bit() {
    let mut x = 1i8;
    Permutable::swap(&mut x, 0, 7);
    assert_eq!(x, i8::MIN);
    let mut y = -1i32;
    Permutable::swap(&mut y, 0, 31);
    assert_eq!(y, -1);
    let mut z = i64::MIN;
    Permutable::swap(&mut z, 63, 2);
    assert_eq!(z, 4);
    let mut h = 0x0100i16;
    Permutable::swap(&mut h, 8, 15);
    assert_eq!(h, i16::MIN);
    let mut q = 1i128;
    Permutable::swap(&mut q, 0, 1);
    assert_eq!(q, 2);
}

#[test]
fn bit_pattern_enumeration_keeps_popcount() {
    let mut it = PermuteIter::from(0b0000_0111u8);
    let mut n = 0usize;
    while let Some(v) = it.next() {
        assert_eq!(v.count_ones(), 3);
        n += 1;
        if n == 500 {
            break;
        }
    }
    assert_eq!(n, 500);
}

#[test]
fn word_sized_patterns() {
    assert_eq!(Permutable::len(&0usize), usize::BITS as usize);
    assert_eq!(Permutable::len(&0isize), isize::BITS as usize);
    let mut x = 1usize;
    Permutable::swap(&mut x, 0, 5);
    assert_eq!(x, 32);
    let mut y = 1isize;
    Permutable::swap(&mut y, 0, (isize::BITS - 1) as usize);
    assert_eq!(y, isize::MIN);
}
