//! Text permuted by grapheme clusters: the logical units are clusters of
//! one or more characters, and so of varying byte length.
use crate::permutable::Permutable;
use unicode_segmentation::UnicodeSegmentation;
use vstd::prelude::*;
use vstd::string::StringSliceAdditionalSpecFns;
use vstd::utf8::*;

verus! {

broadcast use encode_utf8_decode_utf8, encode_utf8_valid_utf8;

/// The byte offsets at which the extended grapheme clusters of the text `s`
/// begin, in order.
pub uninterp spec fn grapheme_starts(s: Seq<char>) -> Seq<usize>;

/// Offsets `st` that cut the UTF-8 bytes `bytes` into non-empty pieces: in
/// increasing order, the first at zero, each a character boundary inside
/// the text, and none at all for empty text.
pub open spec fn cuts_text(st: Seq<usize>, bytes: Seq<u8>) -> bool {
    &&& st.len() == 0 <==> bytes.len() == 0
    &&& st.len() > 0 ==> st[0] == 0
    &&& forall|i: int| 0 <= i < st.len() ==> #[trigger] st[i] < bytes.len()
    &&& forall|i: int| 0 <= i < st.len() ==> is_char_boundary(bytes, #[trigger] st[i] as int)
    &&& forall|i: int, j: int| 0 <= i < j < st.len() ==> #[trigger] st[i] < #[trigger] st[j]
}

/// Relies on `UnicodeSegmentation::grapheme_indices` (extended clusters):
/// it yields each cluster with its byte offset, in order, each cluster a
/// non-empty slice of the text that starts where the one before ended.
#[verifier::external_body]
fn cluster_starts(s: &str) -> (r: Vec<usize>)
    ensures
        r@ == grapheme_starts(s@),
        cuts_text(r@, s.spec_bytes()),
{
    s.grapheme_indices(true).map(|(i, _)| i).collect()
}

/// Relies on `std::str::from_utf8`: valid UTF-8 is read as the text that
/// those bytes encode.
#[verifier::external_body]
fn utf8_text<'a>(b: &'a [u8]) -> (r: &'a str)
    requires
        valid_utf8(b@),
    ensures
        r.spec_bytes() == b@,
{
    std::str::from_utf8(b).unwrap()
}

/// Where cluster `k` ends: where the next begins, or at the end of the text.
pub open spec fn unit_end(st: Seq<usize>, k: int, len: int) -> int {
    if k + 1 < st.len() {
        st[k + 1] as int
    } else {
        len
    }
}

/// `bytes` with the ranges `[a0, a1)` and `[b0, b1)` (the first before the
/// second) exchanged, whatever lies between them kept in place.
pub open spec fn exchange(bytes: Seq<u8>, a0: int, a1: int, b0: int, b1: int) -> Seq<u8> {
    bytes.subrange(0, a0) + bytes.subrange(b0, b1) + bytes.subrange(a1, b0) + bytes.subrange(a0, a1)
        + bytes.subrange(b1, bytes.len() as int)
}

/// The text encoded by `bytes` with its grapheme clusters `a` and `b`
/// exchanged; unchanged where `a == b` or the text has fewer clusters.
pub open spec fn swap_clusters(bytes: Seq<u8>, a: int, b: int) -> Seq<u8> {
    let st = grapheme_starts(decode_utf8(bytes));
    let lo = if a <= b { a } else { b };
    let hi = if a <= b { b } else { a };
    if 0 <= lo < hi < st.len() {
        exchange(
            bytes,
            st[lo] as int,
            unit_end(st, lo, bytes.len() as int),
            st[hi] as int,
            unit_end(st, hi, bytes.len() as int),
        )
    } else {
        bytes
    }
}

/// Moves `len` bytes of `v` from offset `src` to offset `dst`; the two
/// ranges may overlap.
fn move_bytes(v: &mut Vec<u8>, src: usize, dst: usize, len: usize)
    requires
        src + len <= old(v)@.len(),
        dst + len <= old(v)@.len(),
    ensures
        final(v)@.len() == old(v)@.len(),
        forall|i: int| dst <= i < dst + len ==> final(v)@[i] == old(v)@[src + i - dst],
        forall|i: int|
            0 <= i < old(v)@.len() && !(dst <= i < dst + len) ==> final(v)@[i] == old(v)@[i],
{
    let n = v.len();
    if dst <= src {
        let mut k: usize = 0;
        while k < len
            invariant
                v@.len() == n,
                src + len <= v@.len(),
                dst + len <= v@.len(),
                v@.len() == old(v)@.len(),
                dst <= src,
                k <= len,
                forall|i: int| dst <= i < dst + k ==> v@[i] == old(v)@[src + i - dst],
                forall|i: int| 0 <= i < v@.len() && !(dst <= i < dst + k) ==> v@[i] == old(v)@[i],
            decreases len - k,
        {
            let x = v[src + k];
            v.set(dst + k, x);
            k += 1;
        }
    } else {
        let mut k: usize = len;
        while k > 0
            invariant
                v@.len() == n,
                src + len <= v@.len(),
                dst + len <= v@.len(),
                v@.len() == old(v)@.len(),
                dst > src,
                k <= len,
                forall|i: int| dst + k <= i < dst + len ==> v@[i] == old(v)@[src + i - dst],
                forall|i: int|
                    0 <= i < v@.len() && !(dst + k <= i < dst + len) ==> v@[i] == old(v)@[i],
            decreases k,
        {
            let x = v[src + k - 1];
            v.set(dst + k - 1, x);
            k -= 1;
        }
    }
}

/// Writes the bytes of `src` into `v` from offset `dst` on.
fn put_bytes(v: &mut Vec<u8>, dst: usize, src: &Vec<u8>)
    requires
        dst + src@.len() <= old(v)@.len(),
    ensures
        final(v)@.len() == old(v)@.len(),
        forall|i: int| dst <= i < dst + src@.len() ==> final(v)@[i] == src@[i - dst],
        forall|i: int|
            0 <= i < old(v)@.len() && !(dst <= i < dst + src@.len()) ==> final(v)@[i]
                == old(v)@[i],
{
    let n = v.len();
    let mut k: usize = 0;
    while k < src.len()
        invariant
            v@.len() == n,
            dst + src@.len() <= v@.len(),
            v@.len() == old(v)@.len(),
            k <= src@.len(),
            forall|i: int| dst <= i < dst + k ==> v@[i] == src@[i - dst],
            forall|i: int| 0 <= i < v@.len() && !(dst <= i < dst + k) ==> v@[i] == old(v)@[i],
        decreases src@.len() - k,
    {
        v.set(dst + k, src[k]);
        k += 1;
    }
}

/// Fills `buf` with the bytes of `v` in `[start, end)`.
fn copy_out(buf: &mut Vec<u8>, v: &Vec<u8>, start: usize, end: usize)
    requires
        start <= end <= v@.len(),
    ensures
        final(buf)@ == v@.subrange(start as int, end as int),
{
    buf.clear();
    let mut k: usize = start;
    while k < end
        invariant
            start <= k <= end <= v@.len(),
            buf@ == v@.subrange(start as int, k as int),
        decreases end - k,
    {
        buf.push(v[k]);
        k += 1;
        assert(buf@ =~= v@.subrange(start as int, k as int));
    }
}

/// Exchanges the ranges `[a0, a1)` and `[b0, b1)` of `bytes` in place: the
/// longer one is set aside in `buf`, the shorter written into its place, and
/// the bytes between them shifted by the difference in length.
pub fn exchange_ranges(
    bytes: &mut Vec<u8>,
    buf: &mut Vec<u8>,
    a0: usize,
    a1: usize,
    b0: usize,
    b1: usize,
)
    requires
        a0 <= a1 <= b0 <= b1 <= old(bytes)@.len(),
    ensures
        final(bytes)@ == exchange(old(bytes)@, a0 as int, a1 as int, b0 as int, b1 as int),
{
    if a1 - a0 <= b1 - b0 {
        exchange_longer_second(bytes, buf, a0, a1, b0, b1);
    } else {
        exchange_longer_first(bytes, buf, a0, a1, b0, b1);
    }
}

fn exchange_longer_second(
    bytes: &mut Vec<u8>,
    buf: &mut Vec<u8>,
    a0: usize,
    a1: usize,
    b0: usize,
    b1: usize,
)
    requires
        a0 <= a1 <= b0 <= b1 <= old(bytes)@.len(),
        a1 - a0 <= b1 - b0,
    ensures
        final(bytes)@ == exchange(old(bytes)@, a0 as int, a1 as int, b0 as int, b1 as int),
{
    let ghost s0 = bytes@;
    let la = a1 - a0;
    let lb = b1 - b0;
    copy_out(buf, bytes, b0, b1);
    move_bytes(bytes, a0, b1 - la, la);
    let ghost s1 = bytes@;
    move_bytes(bytes, a1, a1 + (lb - la), b0 - a1);
    let ghost s2 = bytes@;
    put_bytes(bytes, a0, buf);
    let ghost e = exchange(s0, a0 as int, a1 as int, b0 as int, b1 as int);
    assert forall|i: int| 0 <= i < s0.len() implies #[trigger] bytes@[i] == e[i] by {
        if i < a0 {
        } else if i < a0 + lb {
            assert(e[i] == s0[b0 + i - a0]);
        } else if i < b1 - la {
            assert(s2[i] == s1[i - (lb - la)]);
            assert(e[i] == s0[a1 + i - a0 - lb]);
        } else if i < b1 {
            assert(e[i] == s0[a0 + i - (b1 - la)]);
        } else {
        }
    }
    assert(bytes@ =~= e);
}

fn exchange_longer_first(
    bytes: &mut Vec<u8>,
    buf: &mut Vec<u8>,
    a0: usize,
    a1: usize,
    b0: usize,
    b1: usize,
)
    requires
        a0 <= a1 <= b0 <= b1 <= old(bytes)@.len(),
        a1 - a0 > b1 - b0,
    ensures
        final(bytes)@ == exchange(old(bytes)@, a0 as int, a1 as int, b0 as int, b1 as int),
{
    let ghost s0 = bytes@;
    let la = a1 - a0;
    let lb = b1 - b0;
    copy_out(buf, bytes, a0, a1);
    move_bytes(bytes, b0, a0, lb);
    let ghost s1 = bytes@;
    move_bytes(bytes, a1, a0 + lb, b0 - a1);
    let ghost s2 = bytes@;
    put_bytes(bytes, b1 - la, buf);
    let ghost e = exchange(s0, a0 as int, a1 as int, b0 as int, b1 as int);
    assert forall|i: int| 0 <= i < s0.len() implies #[trigger] bytes@[i] == e[i] by {
        if i < a0 {
        } else if i < a0 + lb {
            assert(e[i] == s0[b0 + i - a0]);
        } else if i < b1 - la {
            assert(s2[i] == s1[a1 + i - (a0 + lb)]);
            assert(e[i] == s0[a1 + i - a0 - lb]);
        } else if i < b1 {
            assert(e[i] == s0[a0 + i - (b1 - la)]);
        } else {
        }
    }
    assert(bytes@ =~= e);
}

/// The bytes between two character boundaries of valid UTF-8 are valid
/// UTF-8.
proof fn lemma_piece_valid(bytes: Seq<u8>, x: int, y: int)
    requires
        valid_utf8(bytes),
        0 <= x <= y <= bytes.len(),
        is_char_boundary(bytes, x),
        is_char_boundary(bytes, y),
    ensures
        valid_utf8(bytes.subrange(x, y)),
{
    let p = bytes.subrange(0, y);
    valid_utf8_split(bytes, y);
    if x < y {
        is_char_boundary_iff_not_is_continuation_byte(bytes, x);
        is_char_boundary_iff_not_is_continuation_byte(p, x);
    } else {
        is_char_boundary_start_end_of_seq(p);
    }
    valid_utf8_split(p, x);
    assert(p.subrange(x, y) =~= bytes.subrange(x, y));
}

/// Exchanging two ranges whose ends are character boundaries keeps UTF-8
/// valid.
proof fn lemma_exchange_valid(bytes: Seq<u8>, a0: int, a1: int, b0: int, b1: int)
    requires
        valid_utf8(bytes),
        0 <= a0 <= a1 <= b0 <= b1 <= bytes.len(),
        is_char_boundary(bytes, a0),
        is_char_boundary(bytes, a1),
        is_char_boundary(bytes, b0),
        is_char_boundary(bytes, b1),
    ensures
        valid_utf8(exchange(bytes, a0, a1, b0, b1)),
{
    let n = bytes.len() as int;
    is_char_boundary_start_end_of_seq(bytes);
    lemma_piece_valid(bytes, 0, a0);
    lemma_piece_valid(bytes, b0, b1);
    lemma_piece_valid(bytes, a1, b0);
    lemma_piece_valid(bytes, a0, a1);
    lemma_piece_valid(bytes, b1, n);
    let before = bytes.subrange(0, a0);
    let second = bytes.subrange(b0, b1);
    let between = bytes.subrange(a1, b0);
    let first = bytes.subrange(a0, a1);
    let after = bytes.subrange(b1, n);
    valid_utf8_concat(before, second);
    valid_utf8_concat(before + second, between);
    valid_utf8_concat(before + second + between, first);
    valid_utf8_concat(before + second + between + first, after);
}

/// Text whose logical units are its grapheme clusters.
///
/// The number of clusters is counted once, when the value is built; each
/// swap finds the two clusters by segmenting the text anew.
pub struct GraphemeString {
    inner: Vec<u8>,
    length: usize,
    buf: Vec<u8>,
}

impl View for GraphemeString {
    /// The UTF-8 bytes of the text, and the number of clusters counted
    /// when it was built.
    type V = (Seq<u8>, nat);

    closed spec fn view(&self) -> (Seq<u8>, nat) {
        (self.inner@, self.length as nat)
    }
}

impl GraphemeString {
    /// Valid UTF-8, cut into clusters by the offsets of its segmentation;
    /// empty text has no clusters.
    #[verifier::type_invariant]
    spec fn wf(&self) -> bool {
        &&& valid_utf8(self.inner@)
        &&& self.inner@.len() > 0 ==> cuts_text(grapheme_starts(decode_utf8(self.inner@)), self.inner@)
        &&& self.inner@.len() == 0 ==> self.length == 0
    }

    /// The text `value`, with its clusters counted.
    pub fn from(value: &str) -> (r: GraphemeString)
        ensures
            r@ == (value.spec_bytes(), grapheme_starts(value@).len()),
    {
        let inner = vstd::slice::slice_to_vec(value.as_bytes());
        let starts = cluster_starts(value);
        GraphemeString { inner, length: starts.len(), buf: Vec::with_capacity(3) }
    }

    /// The text. It is valid UTF-8, its cluster offsets cut it into
    /// clusters, and empty text has a cluster count of zero.
    pub fn as_ref(&self) -> (r: &str)
        ensures
            r.spec_bytes() == self@.0,
            r@ == decode_utf8(self@.0),
            valid_utf8(self@.0),
            self@.0.len() > 0 ==> cuts_text(grapheme_starts(r@), self@.0),
            self@.0.len() == 0 ==> self@.1 == 0,
    {
        proof {
            use_type_invariant(self);
        }
        utf8_text(self.inner.as_slice())
    }
}

impl Permutable for GraphemeString {
    open spec fn unit_count(v: (Seq<u8>, nat)) -> nat {
        v.1
    }

    open spec fn swapped(v: (Seq<u8>, nat), a: int, b: int) -> (Seq<u8>, nat) {
        (swap_clusters(v.0, a, b), v.1)
    }

    proof fn lemma_swap_keeps_count(v: (Seq<u8>, nat), a: int, b: int) {
    }

    fn swap(&mut self, a: usize, b: usize) {
        proof {
            use_type_invariant(&*self);
        }
        if a == b {
            return ;
        }
        let lo = if a < b { a } else { b };
        let hi = if a < b { b } else { a };
        let starts = cluster_starts(utf8_text(self.inner.as_slice()));
        if hi >= starts.len() {
            return ;
        }
        let ghost old_bytes = self.inner@;
        let total = self.inner.len();
        let a0 = starts[lo];
        let a1 = starts[lo + 1];
        let b0 = starts[hi];
        let b1 = if hi + 1 < starts.len() {
            starts[hi + 1]
        } else {
            total
        };
        proof {
            is_char_boundary_start_end_of_seq(old_bytes);
            if lo + 1 < hi {
                assert(starts@[lo + 1] < starts@[hi as int]);
            }
            if hi + 1 < starts.len() {
                assert(starts@[hi as int] < starts@[hi + 1]);
            }
            assert(starts@[lo as int] < starts@[lo + 1]);
        }
        let mut this = GraphemeString { inner: Vec::new(), length: 0, buf: Vec::new() };
        std::mem::swap(&mut this, self);
        let GraphemeString { inner: mut bytes, length, buf: mut buf } = this;
        exchange_ranges(&mut bytes, &mut buf, a0, a1, b0, b1);
        proof {
            lemma_exchange_valid(old_bytes, a0 as int, a1 as int, b0 as int, b1 as int);
        }
        // the new text is segmented once more, so that its offsets are known
        // to cut it into clusters
        let _ = cluster_starts(utf8_text(bytes.as_slice()));
        *self = GraphemeString { inner: bytes, length, buf };
    }

    fn len(&self) -> (r: usize) {
        self.length
    }

    fn snapshot(&self) -> (r: Self) {
        proof {
            use_type_invariant(self);
        }
        GraphemeString {
            inner: vstd::slice::slice_to_vec(self.inner.as_slice()),
            length: self.length,
            buf: Vec::with_capacity(3),
        }
    }
}

} // verus!
