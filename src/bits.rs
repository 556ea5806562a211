//! Integers as fixed-width patterns of bits, each bit one logical unit.
use crate::permutable::{seq_swap, Permutable};
use vstd::prelude::*;

verus! {

/// The bits of `v`, least significant first.
pub open spec fn bits_u8(v: u8) -> Seq<bool> {
    Seq::new(8, |i: int| (v >> (i as u8)) & 1 == 1)
}

/// `v` with bits `a` and `b` exchanged: both flip when they differ.
pub open spec fn bit_swap_u8(v: u8, a: u8, b: u8) -> u8 {
    if (v >> a) & 1 != (v >> b) & 1 {
        v ^ (1u8 << a) ^ (1u8 << b)
    } else {
        v
    }
}

proof fn lemma_bit_swap_u8_at(v: u8, a: u8, b: u8, i: u8)
    requires
        a < 8,
        b < 8,
        i < 8,
    ensures
        (v >> a) & 1 != (v >> b) & 1 ==> ((v ^ (1u8 << a) ^ (1u8 << b)) >> i) & 1 == (if i == a {
            (v >> b) & 1
        } else if i == b {
            (v >> a) & 1
        } else {
            (v >> i) & 1
        }),
        (v >> a) & 1 == (v >> b) & 1 ==> (v >> i) & 1 == (if i == a {
            (v >> b) & 1
        } else if i == b {
            (v >> a) & 1
        } else {
            (v >> i) & 1
        }),
{
    assert((v >> a) & 1 != (v >> b) & 1 ==> ((v ^ (1u8 << a) ^ (1u8 << b)) >> i) & 1 == (if i == a {
        (v >> b) & 1
    } else if i == b {
        (v >> a) & 1
    } else {
        (v >> i) & 1
    })) by (bit_vector)
        requires
            a < 8,
            b < 8,
            i < 8,
    ;
    assert((v >> a) & 1 == (v >> b) & 1 ==> (v >> i) & 1 == (if i == a {
        (v >> b) & 1
    } else if i == b {
        (v >> a) & 1
    } else {
        (v >> i) & 1
    })) by (bit_vector)
        requires
            a < 8,
            b < 8,
            i < 8,
    ;
}

/// Swapping two positions of a `u8` exchanges those two of its bits and
/// keeps the others.
pub proof fn lemma_u8_swapped_bits(v: u8, a: int, b: int)
    requires
        0 <= a < 8,
        0 <= b < 8,
    ensures
        bits_u8(bit_swap_u8(v, a as u8, b as u8)) == seq_swap(bits_u8(v), a, b),
{
    assert forall|i: int| 0 <= i < 8 implies #[trigger] bits_u8(bit_swap_u8(v, a as u8, b as u8))[i]
        == seq_swap(bits_u8(v), a, b)[i] by {
        lemma_bit_swap_u8_at(v, a as u8, b as u8, i as u8);
    }
    assert(bits_u8(bit_swap_u8(v, a as u8, b as u8)) =~= seq_swap(bits_u8(v), a, b));
}

impl Permutable for u8 {
    open spec fn unit_count(v: u8) -> nat {
        8
    }

    open spec fn swapped(v: u8, a: int, b: int) -> u8 {
        bit_swap_u8(v, a as u8, b as u8)
    }

    proof fn lemma_swap_keeps_count(v: u8, a: int, b: int) {
    }

    fn swap(&mut self, a: usize, b: usize) {
        let x = *self;
        let (a, b) = (a as u8, b as u8);
        if (x >> a) & 1 != (x >> b) & 1 {
            *self = x ^ (1u8 << a) ^ (1u8 << b);
        }
    }

    fn len(&self) -> (r: usize) {
        8
    }

    fn snapshot(&self) -> (r: Self) {
        *self
    }
}

/// The bits of `v`, least significant first.
pub open spec fn bits_u16(v: u16) -> Seq<bool> {
    Seq::new(16, |i: int| (v >> (i as u16)) & 1 == 1)
}

/// `v` with bits `a` and `b` exchanged: both flip when they differ.
pub open spec fn bit_swap_u16(v: u16, a: u16, b: u16) -> u16 {
    if (v >> a) & 1 != (v >> b) & 1 {
        v ^ (1u16 << a) ^ (1u16 << b)
    } else {
        v
    }
}

proof fn lemma_bit_swap_u16_at(v: u16, a: u16, b: u16, i: u16)
    requires
        a < 16,
        b < 16,
        i < 16,
    ensures
        (v >> a) & 1 != (v >> b) & 1 ==> ((v ^ (1u16 << a) ^ (1u16 << b)) >> i) & 1 == (if i == a {
            (v >> b) & 1
        } else if i == b {
            (v >> a) & 1
        } else {
            (v >> i) & 1
        }),
        (v >> a) & 1 == (v >> b) & 1 ==> (v >> i) & 1 == (if i == a {
            (v >> b) & 1
        } else if i == b {
            (v >> a) & 1
        } else {
            (v >> i) & 1
        }),
{
    assert((v >> a) & 1 != (v >> b) & 1 ==> ((v ^ (1u16 << a) ^ (1u16 << b)) >> i) & 1 == (if i == a {
        (v >> b) & 1
    } else if i == b {
        (v >> a) & 1
    } else {
        (v >> i) & 1
    })) by (bit_vector)
        requires
            a < 16,
            b < 16,
            i < 16,
    ;
    assert((v >> a) & 1 == (v >> b) & 1 ==> (v >> i) & 1 == (if i == a {
        (v >> b) & 1
    } else if i == b {
        (v >> a) & 1
    } else {
        (v >> i) & 1
    })) by (bit_vector)
        requires
            a < 16,
            b < 16,
            i < 16,
    ;
}

/// Swapping two positions of a `u16` exchanges those two of its bits and
/// keeps the others.
pub proof fn lemma_u16_swapped_bits(v: u16, a: int, b: int)
    requires
        0 <= a < 16,
        0 <= b < 16,
    ensures
        bits_u16(bit_swap_u16(v, a as u16, b as u16)) == seq_swap(bits_u16(v), a, b),
{
    assert forall|i: int| 0 <= i < 16 implies #[trigger] bits_u16(bit_swap_u16(v, a as u16, b as u16))[i]
        == seq_swap(bits_u16(v), a, b)[i] by {
        lemma_bit_swap_u16_at(v, a as u16, b as u16, i as u16);
    }
    assert(bits_u16(bit_swap_u16(v, a as u16, b as u16)) =~= seq_swap(bits_u16(v), a, b));
}

impl Permutable for u16 {
    open spec fn unit_count(v: u16) -> nat {
        16
    }

    open spec fn swapped(v: u16, a: int, b: int) -> u16 {
        bit_swap_u16(v, a as u16, b as u16)
    }

    proof fn lemma_swap_keeps_count(v: u16, a: int, b: int) {
    }

    fn swap(&mut self, a: usize, b: usize) {
        let x = *self;
        let (a, b) = (a as u16, b as u16);
        if (x >> a) & 1 != (x >> b) & 1 {
            *self = x ^ (1u16 << a) ^ (1u16 << b);
        }
    }

    fn len(&self) -> (r: usize) {
        16
    }

    fn snapshot(&self) -> (r: Self) {
        *self
    }
}

/// The bits of `v`, least significant first.
pub open spec fn bits_u32(v: u32) -> Seq<bool> {
    Seq::new(32, |i: int| (v >> (i as u32)) & 1 == 1)
}

/// `v` with bits `a` and `b` exchanged: both flip when they differ.
pub open spec fn bit_swap_u32(v: u32, a: u32, b: u32) -> u32 {
    if (v >> a) & 1 != (v >> b) & 1 {
        v ^ (1u32 << a) ^ (1u32 << b)
    } else {
        v
    }
}

proof fn lemma_bit_swap_u32_at(v: u32, a: u32, b: u32, i: u32)
    requires
        a < 32,
        b < 32,
        i < 32,
    ensures
        (v >> a) & 1 != (v >> b) & 1 ==> ((v ^ (1u32 << a) ^ (1u32 << b)) >> i) & 1 == (if i == a {
            (v >> b) & 1
        } else if i == b {
            (v >> a) & 1
        } else {
            (v >> i) & 1
        }),
        (v >> a) & 1 == (v >> b) & 1 ==> (v >> i) & 1 == (if i == a {
            (v >> b) & 1
        } else if i == b {
            (v >> a) & 1
        } else {
            (v >> i) & 1
        }),
{
    assert((v >> a) & 1 != (v >> b) & 1 ==> ((v ^ (1u32 << a) ^ (1u32 << b)) >> i) & 1 == (if i == a {
        (v >> b) & 1
    } else if i == b {
        (v >> a) & 1
    } else {
        (v >> i) & 1
    })) by (bit_vector)
        requires
            a < 32,
            b < 32,
            i < 32,
    ;
    assert((v >> a) & 1 == (v >> b) & 1 ==> (v >> i) & 1 == (if i == a {
        (v >> b) & 1
    } else if i == b {
        (v >> a) & 1
    } else {
        (v >> i) & 1
    })) by (bit_vector)
        requires
            a < 32,
            b < 32,
            i < 32,
    ;
}

/// Swapping two positions of a `u32` exchanges those two of its bits and
/// keeps the others.
pub proof fn lemma_u32_swapped_bits(v: u32, a: int, b: int)
    requires
        0 <= a < 32,
        0 <= b < 32,
    ensures
        bits_u32(bit_swap_u32(v, a as u32, b as u32)) == seq_swap(bits_u32(v), a, b),
{
    assert forall|i: int| 0 <= i < 32 implies #[trigger] bits_u32(bit_swap_u32(v, a as u32, b as u32))[i]
        == seq_swap(bits_u32(v), a, b)[i] by {
        lemma_bit_swap_u32_at(v, a as u32, b as u32, i as u32);
    }
    assert(bits_u32(bit_swap_u32(v, a as u32, b as u32)) =~= seq_swap(bits_u32(v), a, b));
}

impl Permutable for u32 {
    open spec fn unit_count(v: u32) -> nat {
        32
    }

    open spec fn swapped(v: u32, a: int, b: int) -> u32 {
        bit_swap_u32(v, a as u32, b as u32)
    }

    proof fn lemma_swap_keeps_count(v: u32, a: int, b: int) {
    }

    fn swap(&mut self, a: usize, b: usize) {
        let x = *self;
        let (a, b) = (a as u32, b as u32);
        if (x >> a) & 1 != (x >> b) & 1 {
            *self = x ^ (1u32 << a) ^ (1u32 << b);
        }
    }

    fn len(&self) -> (r: usize) {
        32
    }

    fn snapshot(&self) -> (r: Self) {
        *self
    }
}

/// The bits of `v`, least significant first.
pub open spec fn bits_u64(v: u64) -> Seq<bool> {
    Seq::new(64, |i: int| (v >> (i as u64)) & 1 == 1)
}

/// `v` with bits `a` and `b` exchanged: both flip when they differ.
pub open spec fn bit_swap_u64(v: u64, a: u64, b: u64) -> u64 {
    if (v >> a) & 1 != (v >> b) & 1 {
        v ^ (1u64 << a) ^ (1u64 << b)
    } else {
        v
    }
}

proof fn lemma_bit_swap_u64_at(v: u64, a: u64, b: u64, i: u64)
    requires
        a < 64,
        b < 64,
        i < 64,
    ensures
        (v >> a) & 1 != (v >> b) & 1 ==> ((v ^ (1u64 << a) ^ (1u64 << b)) >> i) & 1 == (if i == a {
            (v >> b) & 1
        } else if i == b {
            (v >> a) & 1
        } else {
            (v >> i) & 1
        }),
        (v >> a) & 1 == (v >> b) & 1 ==> (v >> i) & 1 == (if i == a {
            (v >> b) & 1
        } else if i == b {
            (v >> a) & 1
        } else {
            (v >> i) & 1
        }),
{
    assert((v >> a) & 1 != (v >> b) & 1 ==> ((v ^ (1u64 << a) ^ (1u64 << b)) >> i) & 1 == (if i == a {
        (v >> b) & 1
    } else if i == b {
        (v >> a) & 1
    } else {
        (v >> i) & 1
    })) by (bit_vector)
        requires
            a < 64,
            b < 64,
            i < 64,
    ;
    assert((v >> a) & 1 == (v >> b) & 1 ==> (v >> i) & 1 == (if i == a {
        (v >> b) & 1
    } else if i == b {
        (v >> a) & 1
    } else {
        (v >> i) & 1
    })) by (bit_vector)
        requires
            a < 64,
            b < 64,
            i < 64,
    ;
}

/// Swapping two positions of a `u64` exchanges those two of its bits and
/// keeps the others.
pub proof fn lemma_u64_swapped_bits(v: u64, a: int, b: int)
    requires
        0 <= a < 64,
        0 <= b < 64,
    ensures
        bits_u64(bit_swap_u64(v, a as u64, b as u64)) == seq_swap(bits_u64(v), a, b),
{
    assert forall|i: int| 0 <= i < 64 implies #[trigger] bits_u64(bit_swap_u64(v, a as u64, b as u64))[i]
        == seq_swap(bits_u64(v), a, b)[i] by {
        lemma_bit_swap_u64_at(v, a as u64, b as u64, i as u64);
    }
    assert(bits_u64(bit_swap_u64(v, a as u64, b as u64)) =~= seq_swap(bits_u64(v), a, b));
}

impl Permutable for u64 {
    open spec fn unit_count(v: u64) -> nat {
        64
    }

    open spec fn swapped(v: u64, a: int, b: int) -> u64 {
        bit_swap_u64(v, a as u64, b as u64)
    }

    proof fn lemma_swap_keeps_count(v: u64, a: int, b: int) {
    }

    fn swap(&mut self, a: usize, b: usize) {
        let x = *self;
        let (a, b) = (a as u64, b as u64);
        if (x >> a) & 1 != (x >> b) & 1 {
            *self = x ^ (1u64 << a) ^ (1u64 << b);
        }
    }

    fn len(&self) -> (r: usize) {
        64
    }

    fn snapshot(&self) -> (r: Self) {
        *self
    }
}

/// The bits of `v`, least significant first.
pub open spec fn bits_u128(v: u128) -> Seq<bool> {
    Seq::new(128, |i: int| (v >> (i as u128)) & 1 == 1)
}

/// `v` with bits `a` and `b` exchanged: both flip when they differ.
pub open spec fn bit_swap_u128(v: u128, a: u128, b: u128) -> u128 {
    if (v >> a) & 1 != (v >> b) & 1 {
        v ^ (1u128 << a) ^ (1u128 << b)
    } else {
        v
    }
}

proof fn lemma_bit_swap_u128_at(v: u128, a: u128, b: u128, i: u128)
    requires
        a < 128,
        b < 128,
        i < 128,
    ensures
        (v >> a) & 1 != (v >> b) & 1 ==> ((v ^ (1u128 << a) ^ (1u128 << b)) >> i) & 1 == (if i == a {
            (v >> b) & 1
        } else if i == b {
            (v >> a) & 1
        } else {
            (v >> i) & 1
        }),
        (v >> a) & 1 == (v >> b) & 1 ==> (v >> i) & 1 == (if i == a {
            (v >> b) & 1
        } else if i == b {
            (v >> a) & 1
        } else {
            (v >> i) & 1
        }),
{
    assert((v >> a) & 1 != (v >> b) & 1 ==> ((v ^ (1u128 << a) ^ (1u128 << b)) >> i) & 1 == (if i == a {
        (v >> b) & 1
    } else if i == b {
        (v >> a) & 1
    } else {
        (v >> i) & 1
    })) by (bit_vector)
        requires
            a < 128,
            b < 128,
            i < 128,
    ;
    assert((v >> a) & 1 == (v >> b) & 1 ==> (v >> i) & 1 == (if i == a {
        (v >> b) & 1
    } else if i == b {
        (v >> a) & 1
    } else {
        (v >> i) & 1
    })) by (bit_vector)
        requires
            a < 128,
            b < 128,
            i < 128,
    ;
}

/// Swapping two positions of a `u128` exchanges those two of its bits and
/// keeps the others.
pub proof fn lemma_u128_swapped_bits(v: u128, a: int, b: int)
    requires
        0 <= a < 128,
        0 <= b < 128,
    ensures
        bits_u128(bit_swap_u128(v, a as u128, b as u128)) == seq_swap(bits_u128(v), a, b),
{
    assert forall|i: int| 0 <= i < 128 implies #[trigger] bits_u128(bit_swap_u128(v, a as u128, b as u128))[i]
        == seq_swap(bits_u128(v), a, b)[i] by {
        lemma_bit_swap_u128_at(v, a as u128, b as u128, i as u128);
    }
    assert(bits_u128(bit_swap_u128(v, a as u128, b as u128)) =~= seq_swap(bits_u128(v), a, b));
}

impl Permutable for u128 {
    open spec fn unit_count(v: u128) -> nat {
        128
    }

    open spec fn swapped(v: u128, a: int, b: int) -> u128 {
        bit_swap_u128(v, a as u128, b as u128)
    }

    proof fn lemma_swap_keeps_count(v: u128, a: int, b: int) {
    }

    fn swap(&mut self, a: usize, b: usize) {
        let x = *self;
        let (a, b) = (a as u128, b as u128);
        if (x >> a) & 1 != (x >> b) & 1 {
            *self = x ^ (1u128 << a) ^ (1u128 << b);
        }
    }

    fn len(&self) -> (r: usize) {
        128
    }

    fn snapshot(&self) -> (r: Self) {
        *self
    }
}

/// The bits of `v`, least significant first.
pub open spec fn bits_i8(v: i8) -> Seq<bool> {
    Seq::new(8, |i: int| (v >> (i as u32)) & 1 == 1)
}

/// `v` with bits `a` and `b` exchanged: both flip when they differ.
pub open spec fn bit_swap_i8(v: i8, a: u32, b: u32) -> i8 {
    if (v >> a) & 1 != (v >> b) & 1 {
        v ^ (1i8 << a) ^ (1i8 << b)
    } else {
        v
    }
}

proof fn lemma_bit_swap_i8_at(v: i8, a: u32, b: u32, i: u32)
    requires
        a < 8,
        b < 8,
        i < 8,
    ensures
        (v >> a) & 1 != (v >> b) & 1 ==> ((v ^ (1i8 << a) ^ (1i8 << b)) >> i) & 1 == (if i == a {
            (v >> b) & 1
        } else if i == b {
            (v >> a) & 1
        } else {
            (v >> i) & 1
        }),
        (v >> a) & 1 == (v >> b) & 1 ==> (v >> i) & 1 == (if i == a {
            (v >> b) & 1
        } else if i == b {
            (v >> a) & 1
        } else {
            (v >> i) & 1
        }),
{
    assert((v >> a) & 1 != (v >> b) & 1 ==> ((v ^ (1i8 << a) ^ (1i8 << b)) >> i) & 1 == (if i == a {
        (v >> b) & 1
    } else if i == b {
        (v >> a) & 1
    } else {
        (v >> i) & 1
    })) by (bit_vector)
        requires
            a < 8,
            b < 8,
            i < 8,
    ;
    assert((v >> a) & 1 == (v >> b) & 1 ==> (v >> i) & 1 == (if i == a {
        (v >> b) & 1
    } else if i == b {
        (v >> a) & 1
    } else {
        (v >> i) & 1
    })) by (bit_vector)
        requires
            a < 8,
            b < 8,
            i < 8,
    ;
}

/// Swapping two positions of a `i8` exchanges those two of its bits and
/// keeps the others.
pub proof fn lemma_i8_swapped_bits(v: i8, a: int, b: int)
    requires
        0 <= a < 8,
        0 <= b < 8,
    ensures
        bits_i8(bit_swap_i8(v, a as u32, b as u32)) == seq_swap(bits_i8(v), a, b),
{
    assert forall|i: int| 0 <= i < 8 implies #[trigger] bits_i8(bit_swap_i8(v, a as u32, b as u32))[i]
        == seq_swap(bits_i8(v), a, b)[i] by {
        lemma_bit_swap_i8_at(v, a as u32, b as u32, i as u32);
    }
    assert(bits_i8(bit_swap_i8(v, a as u32, b as u32)) =~= seq_swap(bits_i8(v), a, b));
}

impl Permutable for i8 {
    open spec fn unit_count(v: i8) -> nat {
        8
    }

    open spec fn swapped(v: i8, a: int, b: int) -> i8 {
        bit_swap_i8(v, a as u32, b as u32)
    }

    proof fn lemma_swap_keeps_count(v: i8, a: int, b: int) {
    }

    fn swap(&mut self, a: usize, b: usize) {
        let x = *self;
        let (a, b) = (a as u32, b as u32);
        if (x >> a) & 1 != (x >> b) & 1 {
            *self = x ^ (1i8 << a) ^ (1i8 << b);
        }
    }

    fn len(&self) -> (r: usize) {
        8
    }

    fn snapshot(&self) -> (r: Self) {
        *self
    }
}

/// The bits of `v`, least significant first.
pub open spec fn bits_i16(v: i16) -> Seq<bool> {
    Seq::new(16, |i: int| (v >> (i as u32)) & 1 == 1)
}

/// `v` with bits `a` and `b` exchanged: both flip when they differ.
pub open spec fn bit_swap_i16(v: i16, a: u32, b: u32) -> i16 {
    if (v >> a) & 1 != (v >> b) & 1 {
        v ^ (1i16 << a) ^ (1i16 << b)
    } else {
        v
    }
}

proof fn lemma_bit_swap_i16_at(v: i16, a: u32, b: u32, i: u32)
    requires
        a < 16,
        b < 16,
        i < 16,
    ensures
        (v >> a) & 1 != (v >> b) & 1 ==> ((v ^ (1i16 << a) ^ (1i16 << b)) >> i) & 1 == (if i == a {
            (v >> b) & 1
        } else if i == b {
            (v >> a) & 1
        } else {
            (v >> i) & 1
        }),
        (v >> a) & 1 == (v >> b) & 1 ==> (v >> i) & 1 == (if i == a {
            (v >> b) & 1
        } else if i == b {
            (v >> a) & 1
        } else {
            (v >> i) & 1
        }),
{
    assert((v >> a) & 1 != (v >> b) & 1 ==> ((v ^ (1i16 << a) ^ (1i16 << b)) >> i) & 1 == (if i == a {
        (v >> b) & 1
    } else if i == b {
        (v >> a) & 1
    } else {
        (v >> i) & 1
    })) by (bit_vector)
        requires
            a < 16,
            b < 16,
            i < 16,
    ;
    assert((v >> a) & 1 == (v >> b) & 1 ==> (v >> i) & 1 == (if i == a {
        (v >> b) & 1
    } else if i == b {
        (v >> a) & 1
    } else {
        (v >> i) & 1
    })) by (bit_vector)
        requires
            a < 16,
            b < 16,
            i < 16,
    ;
}

/// Swapping two positions of a `i16` exchanges those two of its bits and
/// keeps the others.
pub proof fn lemma_i16_swapped_bits(v: i16, a: int, b: int)
    requires
        0 <= a < 16,
        0 <= b < 16,
    ensures
        bits_i16(bit_swap_i16(v, a as u32, b as u32)) == seq_swap(bits_i16(v), a, b),
{
    assert forall|i: int| 0 <= i < 16 implies #[trigger] bits_i16(bit_swap_i16(v, a as u32, b as u32))[i]
        == seq_swap(bits_i16(v), a, b)[i] by {
        lemma_bit_swap_i16_at(v, a as u32, b as u32, i as u32);
    }
    assert(bits_i16(bit_swap_i16(v, a as u32, b as u32)) =~= seq_swap(bits_i16(v), a, b));
}

impl Permutable for i16 {
    open spec fn unit_count(v: i16) -> nat {
        16
    }

    open spec fn swapped(v: i16, a: int, b: int) -> i16 {
        bit_swap_i16(v, a as u32, b as u32)
    }

    proof fn lemma_swap_keeps_count(v: i16, a: int, b: int) {
    }

    fn swap(&mut self, a: usize, b: usize) {
        let x = *self;
        let (a, b) = (a as u32, b as u32);
        if (x >> a) & 1 != (x >> b) & 1 {
            *self = x ^ (1i16 << a) ^ (1i16 << b);
        }
    }

    fn len(&self) -> (r: usize) {
        16
    }

    fn snapshot(&self) -> (r: Self) {
        *self
    }
}

/// The bits of `v`, least significant first.
pub open spec fn bits_i32(v: i32) -> Seq<bool> {
    Seq::new(32, |i: int| (v >> (i as u32)) & 1 == 1)
}

/// `v` with bits `a` and `b` exchanged: both flip when they differ.
pub open spec fn bit_swap_i32(v: i32, a: u32, b: u32) -> i32 {
    if (v >> a) & 1 != (v >> b) & 1 {
        v ^ (1i32 << a) ^ (1i32 << b)
    } else {
        v
    }
}

proof fn lemma_bit_swap_i32_at(v: i32, a: u32, b: u32, i: u32)
    requires
        a < 32,
        b < 32,
        i < 32,
    ensures
        (v >> a) & 1 != (v >> b) & 1 ==> ((v ^ (1i32 << a) ^ (1i32 << b)) >> i) & 1 == (if i == a {
            (v >> b) & 1
        } else if i == b {
            (v >> a) & 1
        } else {
            (v >> i) & 1
        }),
        (v >> a) & 1 == (v >> b) & 1 ==> (v >> i) & 1 == (if i == a {
            (v >> b) & 1
        } else if i == b {
            (v >> a) & 1
        } else {
            (v >> i) & 1
        }),
{
    assert((v >> a) & 1 != (v >> b) & 1 ==> ((v ^ (1i32 << a) ^ (1i32 << b)) >> i) & 1 == (if i == a {
        (v >> b) & 1
    } else if i == b {
        (v >> a) & 1
    } else {
        (v >> i) & 1
    })) by (bit_vector)
        requires
            a < 32,
            b < 32,
            i < 32,
    ;
    assert((v >> a) & 1 == (v >> b) & 1 ==> (v >> i) & 1 == (if i == a {
        (v >> b) & 1
    } else if i == b {
        (v >> a) & 1
    } else {
        (v >> i) & 1
    })) by (bit_vector)
        requires
            a < 32,
            b < 32,
            i < 32,
    ;
}

/// Swapping two positions of a `i32` exchanges those two of its bits and
/// keeps the others.
pub proof fn lemma_i32_swapped_bits(v: i32, a: int, b: int)
    requires
        0 <= a < 32,
        0 <= b < 32,
    ensures
        bits_i32(bit_swap_i32(v, a as u32, b as u32)) == seq_swap(bits_i32(v), a, b),
{
    assert forall|i: int| 0 <= i < 32 implies #[trigger] bits_i32(bit_swap_i32(v, a as u32, b as u32))[i]
        == seq_swap(bits_i32(v), a, b)[i] by {
        lemma_bit_swap_i32_at(v, a as u32, b as u32, i as u32);
    }
    assert(bits_i32(bit_swap_i32(v, a as u32, b as u32)) =~= seq_swap(bits_i32(v), a, b));
}

impl Permutable for i32 {
    open spec fn unit_count(v: i32) -> nat {
        32
    }

    open spec fn swapped(v: i32, a: int, b: int) -> i32 {
        bit_swap_i32(v, a as u32, b as u32)
    }

    proof fn lemma_swap_keeps_count(v: i32, a: int, b: int) {
    }

    fn swap(&mut self, a: usize, b: usize) {
        let x = *self;
        let (a, b) = (a as u32, b as u32);
        if (x >> a) & 1 != (x >> b) & 1 {
            *self = x ^ (1i32 << a) ^ (1i32 << b);
        }
    }

    fn len(&self) -> (r: usize) {
        32
    }

    fn snapshot(&self) -> (r: Self) {
        *self
    }
}

/// The bits of `v`, least significant first.
pub open spec fn bits_i64(v: i64) -> Seq<bool> {
    Seq::new(64, |i: int| (v >> (i as u32)) & 1 == 1)
}

/// `v` with bits `a` and `b` exchanged: both flip when they differ.
pub open spec fn bit_swap_i64(v: i64, a: u32, b: u32) -> i64 {
    if (v >> a) & 1 != (v >> b) & 1 {
        v ^ (1i64 << a) ^ (1i64 << b)
    } else {
        v
    }
}

proof fn lemma_bit_swap_i64_at(v: i64, a: u32, b: u32, i: u32)
    requires
        a < 64,
        b < 64,
        i < 64,
    ensures
        (v >> a) & 1 != (v >> b) & 1 ==> ((v ^ (1i64 << a) ^ (1i64 << b)) >> i) & 1 == (if i == a {
            (v >> b) & 1
        } else if i == b {
            (v >> a) & 1
        } else {
            (v >> i) & 1
        }),
        (v >> a) & 1 == (v >> b) & 1 ==> (v >> i) & 1 == (if i == a {
            (v >> b) & 1
        } else if i == b {
            (v >> a) & 1
        } else {
            (v >> i) & 1
        }),
{
    assert((v >> a) & 1 != (v >> b) & 1 ==> ((v ^ (1i64 << a) ^ (1i64 << b)) >> i) & 1 == (if i == a {
        (v >> b) & 1
    } else if i == b {
        (v >> a) & 1
    } else {
        (v >> i) & 1
    })) by (bit_vector)
        requires
            a < 64,
            b < 64,
            i < 64,
    ;
    assert((v >> a) & 1 == (v >> b) & 1 ==> (v >> i) & 1 == (if i == a {
        (v >> b) & 1
    } else if i == b {
        (v >> a) & 1
    } else {
        (v >> i) & 1
    })) by (bit_vector)
        requires
            a < 64,
            b < 64,
            i < 64,
    ;
}

/// Swapping two positions of a `i64` exchanges those two of its bits and
/// keeps the others.
pub proof fn lemma_i64_swapped_bits(v: i64, a: int, b: int)
    requires
        0 <= a < 64,
        0 <= b < 64,
    ensures
        bits_i64(bit_swap_i64(v, a as u32, b as u32)) == seq_swap(bits_i64(v), a, b),
{
    assert forall|i: int| 0 <= i < 64 implies #[trigger] bits_i64(bit_swap_i64(v, a as u32, b as u32))[i]
        == seq_swap(bits_i64(v), a, b)[i] by {
        lemma_bit_swap_i64_at(v, a as u32, b as u32, i as u32);
    }
    assert(bits_i64(bit_swap_i64(v, a as u32, b as u32)) =~= seq_swap(bits_i64(v), a, b));
}

impl Permutable for i64 {
    open spec fn unit_count(v: i64) -> nat {
        64
    }

    open spec fn swapped(v: i64, a: int, b: int) -> i64 {
        bit_swap_i64(v, a as u32, b as u32)
    }

    proof fn lemma_swap_keeps_count(v: i64, a: int, b: int) {
    }

    fn swap(&mut self, a: usize, b: usize) {
        let x = *self;
        let (a, b) = (a as u32, b as u32);
        if (x >> a) & 1 != (x >> b) & 1 {
            *self = x ^ (1i64 << a) ^ (1i64 << b);
        }
    }

    fn len(&self) -> (r: usize) {
        64
    }

    fn snapshot(&self) -> (r: Self) {
        *self
    }
}

/// The bits of `v`, least significant first.
pub open spec fn bits_i128(v: i128) -> Seq<bool> {
    Seq::new(128, |i: int| (v >> (i as u32)) & 1 == 1)
}

/// `v` with bits `a` and `b` exchanged: both flip when they differ.
pub open spec fn bit_swap_i128(v: i128, a: u32, b: u32) -> i128 {
    if (v >> a) & 1 != (v >> b) & 1 {
        v ^ (1i128 << a) ^ (1i128 << b)
    } else {
        v
    }
}

proof fn lemma_bit_swap_i128_at(v: i128, a: u32, b: u32, i: u32)
    requires
        a < 128,
        b < 128,
        i < 128,
    ensures
        (v >> a) & 1 != (v >> b) & 1 ==> ((v ^ (1i128 << a) ^ (1i128 << b)) >> i) & 1 == (if i == a {
            (v >> b) & 1
        } else if i == b {
            (v >> a) & 1
        } else {
            (v >> i) & 1
        }),
        (v >> a) & 1 == (v >> b) & 1 ==> (v >> i) & 1 == (if i == a {
            (v >> b) & 1
        } else if i == b {
            (v >> a) & 1
        } else {
            (v >> i) & 1
        }),
{
    assert((v >> a) & 1 != (v >> b) & 1 ==> ((v ^ (1i128 << a) ^ (1i128 << b)) >> i) & 1 == (if i == a {
        (v >> b) & 1
    } else if i == b {
        (v >> a) & 1
    } else {
        (v >> i) & 1
    })) by (bit_vector)
        requires
            a < 128,
            b < 128,
            i < 128,
    ;
    assert((v >> a) & 1 == (v >> b) & 1 ==> (v >> i) & 1 == (if i == a {
        (v >> b) & 1
    } else if i == b {
        (v >> a) & 1
    } else {
        (v >> i) & 1
    })) by (bit_vector)
        requires
            a < 128,
            b < 128,
            i < 128,
    ;
}

/// Swapping two positions of a `i128` exchanges those two of its bits and
/// keeps the others.
pub proof fn lemma_i128_swapped_bits(v: i128, a: int, b: int)
    requires
        0 <= a < 128,
        0 <= b < 128,
    ensures
        bits_i128(bit_swap_i128(v, a as u32, b as u32)) == seq_swap(bits_i128(v), a, b),
{
    assert forall|i: int| 0 <= i < 128 implies #[trigger] bits_i128(bit_swap_i128(v, a as u32, b as u32))[i]
        == seq_swap(bits_i128(v), a, b)[i] by {
        lemma_bit_swap_i128_at(v, a as u32, b as u32, i as u32);
    }
    assert(bits_i128(bit_swap_i128(v, a as u32, b as u32)) =~= seq_swap(bits_i128(v), a, b));
}

impl Permutable for i128 {
    open spec fn unit_count(v: i128) -> nat {
        128
    }

    open spec fn swapped(v: i128, a: int, b: int) -> i128 {
        bit_swap_i128(v, a as u32, b as u32)
    }

    proof fn lemma_swap_keeps_count(v: i128, a: int, b: int) {
    }

    fn swap(&mut self, a: usize, b: usize) {
        let x = *self;
        let (a, b) = (a as u32, b as u32);
        if (x >> a) & 1 != (x >> b) & 1 {
            *self = x ^ (1i128 << a) ^ (1i128 << b);
        }
    }

    fn len(&self) -> (r: usize) {
        128
    }

    fn snapshot(&self) -> (r: Self) {
        *self
    }
}

/// The bits of `v`, least significant first.
pub open spec fn bits_usize(v: usize) -> Seq<bool> {
    Seq::new(usize::BITS as nat, |i: int| (v >> (i as usize)) & 1 == 1)
}

/// `v` with bits `a` and `b` exchanged: both flip when they differ.
pub open spec fn bit_swap_usize(v: usize, a: usize, b: usize) -> usize {
    if (v >> a) & 1 != (v >> b) & 1 {
        v ^ (1usize << a) ^ (1usize << b)
    } else {
        v
    }
}

proof fn lemma_bit_swap_usize_at(v: usize, a: usize, b: usize, i: usize)
    requires
        a < usize::BITS,
        b < usize::BITS,
        i < usize::BITS,
    ensures
        (v >> a) & 1 != (v >> b) & 1 ==> ((v ^ (1usize << a) ^ (1usize << b)) >> i) & 1 == (if i == a {
            (v >> b) & 1
        } else if i == b {
            (v >> a) & 1
        } else {
            (v >> i) & 1
        }),
        (v >> a) & 1 == (v >> b) & 1 ==> (v >> i) & 1 == (if i == a {
            (v >> b) & 1
        } else if i == b {
            (v >> a) & 1
        } else {
            (v >> i) & 1
        }),
{
    assert((v >> a) & 1 != (v >> b) & 1 ==> ((v ^ (1usize << a) ^ (1usize << b)) >> i) & 1 == (if i == a {
        (v >> b) & 1
    } else if i == b {
        (v >> a) & 1
    } else {
        (v >> i) & 1
    })) by (bit_vector)
        requires
            a < usize::BITS,
            b < usize::BITS,
            i < usize::BITS,
    ;
    assert((v >> a) & 1 == (v >> b) & 1 ==> (v >> i) & 1 == (if i == a {
        (v >> b) & 1
    } else if i == b {
        (v >> a) & 1
    } else {
        (v >> i) & 1
    })) by (bit_vector)
        requires
            a < usize::BITS,
            b < usize::BITS,
            i < usize::BITS,
    ;
}

/// Swapping two positions of a `usize` exchanges those two of its bits and
/// keeps the others.
pub proof fn lemma_usize_swapped_bits(v: usize, a: int, b: int)
    requires
        0 <= a < usize::BITS,
        0 <= b < usize::BITS,
    ensures
        bits_usize(bit_swap_usize(v, a as usize, b as usize)) == seq_swap(bits_usize(v), a, b),
{
    assert forall|i: int| 0 <= i < usize::BITS implies #[trigger] bits_usize(bit_swap_usize(v, a as usize, b as usize))[i]
        == seq_swap(bits_usize(v), a, b)[i] by {
        lemma_bit_swap_usize_at(v, a as usize, b as usize, i as usize);
    }
    assert(bits_usize(bit_swap_usize(v, a as usize, b as usize)) =~= seq_swap(bits_usize(v), a, b));
}

impl Permutable for usize {
    open spec fn unit_count(v: usize) -> nat {
        usize::BITS as nat
    }

    open spec fn swapped(v: usize, a: int, b: int) -> usize {
        bit_swap_usize(v, a as usize, b as usize)
    }

    proof fn lemma_swap_keeps_count(v: usize, a: int, b: int) {
    }

    fn swap(&mut self, a: usize, b: usize) {
        let x = *self;
        if (x >> a) & 1 != (x >> b) & 1 {
            *self = x ^ (1usize << a) ^ (1usize << b);
        }
    }

    fn len(&self) -> (r: usize) {
        usize::BITS as usize
    }

    fn snapshot(&self) -> (r: Self) {
        *self
    }
}

/// The bits of `v`, least significant first.
pub open spec fn bits_isize(v: isize) -> Seq<bool> {
    Seq::new(isize::BITS as nat, |i: int| (v >> (i as u32)) & 1 == 1)
}

/// `v` with bits `a` and `b` exchanged: both flip when they differ.
pub open spec fn bit_swap_isize(v: isize, a: u32, b: u32) -> isize {
    if (v >> a) & 1 != (v >> b) & 1 {
        v ^ (1isize << a) ^ (1isize << b)
    } else {
        v
    }
}

proof fn lemma_bit_swap_isize_at(v: isize, a: u32, b: u32, i: u32)
    requires
        a < isize::BITS,
        b < isize::BITS,
        i < isize::BITS,
    ensures
        (v >> a) & 1 != (v >> b) & 1 ==> ((v ^ (1isize << a) ^ (1isize << b)) >> i) & 1 == (if i == a {
            (v >> b) & 1
        } else if i == b {
            (v >> a) & 1
        } else {
            (v >> i) & 1
        }),
        (v >> a) & 1 == (v >> b) & 1 ==> (v >> i) & 1 == (if i == a {
            (v >> b) & 1
        } else if i == b {
            (v >> a) & 1
        } else {
            (v >> i) & 1
        }),
{
    assert((v >> a) & 1 != (v >> b) & 1 ==> ((v ^ (1isize << a) ^ (1isize << b)) >> i) & 1 == (if i == a {
        (v >> b) & 1
    } else if i == b {
        (v >> a) & 1
    } else {
        (v >> i) & 1
    })) by (bit_vector)
        requires
            a < isize::BITS,
            b < isize::BITS,
            i < isize::BITS,
    ;
    assert((v >> a) & 1 == (v >> b) & 1 ==> (v >> i) & 1 == (if i == a {
        (v >> b) & 1
    } else if i == b {
        (v >> a) & 1
    } else {
        (v >> i) & 1
    })) by (bit_vector)
        requires
            a < isize::BITS,
            b < isize::BITS,
            i < isize::BITS,
    ;
}

/// Swapping two positions of a `isize` exchanges those two of its bits and
/// keeps the others.
pub proof fn lemma_isize_swapped_bits(v: isize, a: int, b: int)
    requires
        0 <= a < isize::BITS,
        0 <= b < isize::BITS,
    ensures
        bits_isize(bit_swap_isize(v, a as u32, b as u32)) == seq_swap(bits_isize(v), a, b),
{
    assert forall|i: int| 0 <= i < isize::BITS implies #[trigger] bits_isize(bit_swap_isize(v, a as u32, b as u32))[i]
        == seq_swap(bits_isize(v), a, b)[i] by {
        lemma_bit_swap_isize_at(v, a as u32, b as u32, i as u32);
    }
    assert(bits_isize(bit_swap_isize(v, a as u32, b as u32)) =~= seq_swap(bits_isize(v), a, b));
}

impl Permutable for isize {
    open spec fn unit_count(v: isize) -> nat {
        isize::BITS as nat
    }

    open spec fn swapped(v: isize, a: int, b: int) -> isize {
        bit_swap_isize(v, a as u32, b as u32)
    }

    proof fn lemma_swap_keeps_count(v: isize, a: int, b: int) {
    }

    fn swap(&mut self, a: usize, b: usize) {
        let x = *self;
        let (a, b) = (a as u32, b as u32);
        if (x >> a) & 1 != (x >> b) & 1 {
            *self = x ^ (1isize << a) ^ (1isize << b);
        }
    }

    fn len(&self) -> (r: usize) {
        isize::BITS as usize
    }

    fn snapshot(&self) -> (r: Self) {
        *self
    }
}

} // verus!
