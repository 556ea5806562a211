//! What holds of every enumeration, and of exchanging grapheme clusters.
use crate::grapheme::{cuts_text, exchange, grapheme_starts, swap_clusters, unit_end, GraphemeString};
use crate::heap::{counters_at, fact, lemma_fact_positive, lemma_step_at, run, snapshots, swap_pair};
use crate::permutable::{seq_swap, Permutable};
use vstd::prelude::*;
use vstd::utf8::{decode_utf8, valid_utf8};

verus! {

/// A value of `n` units is enumerated in exactly `n!` arrangements.
pub proof fn lemma_count_is_factorial<T: Permutable>(v: T::V)
    ensures
        snapshots::<T>(v).len() == fact(T::unit_count(v)),
{
}

/// Exchanging two elements keeps the multiset of elements.
proof fn lemma_seq_swap_multiset<A>(s: Seq<A>, a: int, b: int)
    requires
        0 <= a < s.len(),
        0 <= b < s.len(),
    ensures
        seq_swap(s, a, b).to_multiset() == s.to_multiset(),
{
    broadcast use vstd::seq_lib::to_multiset_update, vstd::multiset::group_multiset_axioms;

    let m = s.to_multiset();
    let t = s.update(a, s[b]);
    if a == b {
        assert(seq_swap(s, a, b) =~= s);
    } else {
        assert(t[b] == s[b]);
        assert(m.count(s[a]) > 0) by {
            vstd::seq_lib::to_multiset_contains(s, s[a]);
        }
        assert(m.insert(s[b]).remove(s[a]).insert(s[a]).remove(s[b]) =~= m);
    }
}

/// Every arrangement of a sequence holds the same elements as the sequence,
/// each as many times: the enumeration only ever reorders.
pub proof fn lemma_arrangements_are_permutations<A: Copy>(s: Seq<A>, k: int)
    requires
        s.len() <= usize::MAX,
        0 <= k < snapshots::<Vec<A>>(s).len(),
    ensures
        snapshots::<Vec<A>>(s)[k].to_multiset() == s.to_multiset(),
    decreases k,
{
    let n = s.len();
    if k > 0 {
        let j = (k - 1) as nat;
        lemma_arrangements_are_permutations(s, j as int);
        lemma_step_at(n, j);
        let p = swap_pair(counters_at(n, j), n);
        let prev = run::<Vec<A>>(s, n, j);
        lemma_arrangements_len(s, j);
        lemma_seq_swap_multiset(prev, p.0, p.1);
    }
}

proof fn lemma_arrangements_len<A: Copy>(s: Seq<A>, k: nat)
    requires
        s.len() <= usize::MAX,
        k < fact(s.len()),
    ensures
        run::<Vec<A>>(s, s.len(), k).len() == s.len(),
{
    crate::iterator::lemma_run_keeps_count::<Vec<A>>(s, k);
}

/// The first arrangement yielded is the value itself.
pub proof fn lemma_first_is_input<T: Permutable>(v: T::V)
    ensures
        snapshots::<T>(v).len() >= 1,
        snapshots::<T>(v)[0] == v,
{
    lemma_fact_positive(T::unit_count(v));
}

/// Two enumerations built from equal values yield the same arrangements in
/// the same order.
pub proof fn lemma_enumeration_is_deterministic<T: Permutable>(v: T::V, w: T::V)
    requires
        v == w,
    ensures
        snapshots::<T>(v) == snapshots::<T>(w),
{
}

/// A value of no unit or of one is yielded once, as it is, and nothing
/// after it.
pub proof fn lemma_small_values_yield_once<T: Permutable>(v: T::V)
    requires
        T::unit_count(v) <= 1,
    ensures
        snapshots::<T>(v) == seq![v],
{
    assert(fact(1) == 1 * fact(0));
    assert(snapshots::<T>(v) =~= seq![v]);
}

/// Whether the text `bytes`, once clusters `a` and `b` are exchanged, is
/// segmented so that its clusters `a` and `b` are the exchanged ones.
/// Segmentation depends on neighbouring characters, so this can fail (a
/// Hangul vowel brought next to a leading consonant joins its cluster).
pub open spec fn exchange_keeps_clusters(bytes: Seq<u8>, a: int, b: int) -> bool {
    let st = grapheme_starts(decode_utf8(bytes));
    let lo = if a <= b { a } else { b };
    let hi = if a <= b { b } else { a };
    let len = bytes.len() as int;
    let t = swap_clusters(bytes, a, b);
    let st2 = grapheme_starts(decode_utf8(t));
    let la = unit_end(st, lo, len) - st[lo];
    let lb = unit_end(st, hi, len) - st[hi];
    0 <= lo < hi < st.len() ==> {
        &&& hi < st2.len()
        &&& st2[lo] == st[lo]
        &&& unit_end(st2, lo, len) == st[lo] + lb
        &&& st2[hi] == unit_end(st, hi, len) - la
        &&& unit_end(st2, hi, len) == unit_end(st, hi, len)
    }
}

/// Exchanging clusters `a` and `b` of a text twice gives back the text,
/// wherever the first exchange leaves the clusters in place.
pub proof fn lemma_cluster_swap_round_trip(bytes: Seq<u8>, a: int, b: int)
    requires
        cuts_text(grapheme_starts(decode_utf8(bytes)), bytes),
        exchange_keeps_clusters(bytes, a, b),
    ensures
        swap_clusters(swap_clusters(bytes, a, b), a, b) == bytes,
{
    let st = grapheme_starts(decode_utf8(bytes));
    let lo = if a <= b { a } else { b };
    let hi = if a <= b { b } else { a };
    let len = bytes.len() as int;
    if 0 <= lo < hi < st.len() {
        let a0 = st[lo] as int;
        let a1 = unit_end(st, lo, len);
        let b0 = st[hi] as int;
        let b1 = unit_end(st, hi, len);
        if lo + 1 < hi {
            assert(st[lo + 1] < st[hi]);
        }
        if hi + 1 < st.len() {
            assert(st[hi] < st[hi + 1]);
        }
        let t = exchange(bytes, a0, a1, b0, b1);
        let la = a1 - a0;
        let lb = b1 - b0;
        let u = exchange(t, a0, a0 + lb, b1 - la, b1);
        assert(u =~= bytes);
    }
}

/// Swapping clusters `a` and `b` of a `GraphemeString` twice gives back its
/// text, wherever the first swap leaves the clusters in place. Besides that
/// condition, `v` need only be what `as_ref` states of every
/// `GraphemeString`, and `a`, `b` what `swap` admits.
pub proof fn lemma_grapheme_swap_round_trip(v: (Seq<u8>, nat), a: int, b: int)
    requires
        valid_utf8(v.0),
        v.0.len() > 0 ==> cuts_text(grapheme_starts(decode_utf8(v.0)), v.0),
        v.0.len() == 0 ==> v.1 == 0,
        0 <= a < v.1,
        0 <= b < v.1,
        exchange_keeps_clusters(v.0, a, b),
    ensures
        GraphemeString::swapped(GraphemeString::swapped(v, a, b), a, b) == v,
{
    lemma_cluster_swap_round_trip(v.0, a, b);
}

} // verus!
