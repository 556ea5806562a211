//! A lazy sequence of the arrangements of one owned value.
use crate::heap::{counters_at, fact, lemma_step_at, run, snapshots, swap_pair, HeapPermutor};
use crate::permutable::Permutable;
use vstd::prelude::*;

verus! {

/// The swaps of the first `k` steps keep the number of units.
pub proof fn lemma_run_keeps_count<T: Permutable>(v: T::V, k: nat)
    requires
        k < fact(T::unit_count(v)),
        T::unit_count(v) <= usize::MAX,
    ensures
        T::unit_count(run::<T>(v, T::unit_count(v), k)) == T::unit_count(v),
    decreases k,
{
    let n = T::unit_count(v);
    if k > 0 {
        let j = (k - 1) as nat;
        lemma_run_keeps_count::<T>(v, j);
        lemma_step_at(n, j);
        let p = swap_pair(counters_at(n, j), n);
        T::lemma_swap_keeps_count(run::<T>(v, n, j), p.0, p.1);
    }
}

/// Owns a value and yields each of its arrangements in turn, starting with
/// the value itself.
pub struct PermuteIter<B: Permutable> {
    p: HeapPermutor,
    source: B,
    origin: Ghost<B::V>,
    taken: Ghost<nat>,
}

impl<B: Permutable> PermuteIter<B> {
    /// The value the sequence was built from.
    pub closed spec fn origin(&self) -> B::V {
        self.origin@
    }

    /// How many arrangements have been yielded so far.
    pub closed spec fn yielded(&self) -> nat {
        self.taken@
    }

    /// The yielded count matches the permutor's counters, and the owned
    /// value is the arrangement that comes next.
    pub closed spec fn inv(&self) -> bool {
        let n = B::unit_count(self.origin@);
        &&& n <= usize::MAX
        &&& self.p.inv()
        &&& self.p.counters().len() == n
        &&& B::unit_count(self.source@) == n
        &&& !self.p.is_finished() ==> {
            &&& self.taken@ < fact(n)
            &&& self.p.counters() == counters_at(n, self.taken@)
            &&& self.source@ == run::<B>(self.origin@, n, self.taken@)
        }
        &&& self.p.is_finished() ==> self.taken@ == fact(n)
    }

    /// A sequence over the arrangements of `source`.
    pub fn from(source: B) -> (r: Self)
        ensures
            r.inv(),
            r.origin() == source@,
            r.yielded() == 0,
    {
        let p = HeapPermutor::from(&source);
        proof {
            crate::heap::lemma_fact_positive(B::unit_count(source@));
        }
        PermuteIter { p, source, origin: Ghost(source@), taken: Ghost(0) }
    }

    /// The next arrangement: the one after `yielded()` steps, while fewer
    /// than `n!` have been yielded; `None` after that.
    pub fn next(&mut self) -> (r: Option<B>)
        requires
            old(self).inv(),
        ensures
            final(self).inv(),
            final(self).origin() == old(self).origin(),
            r is Some <==> old(self).yielded() < snapshots::<B>(old(self).origin()).len(),
            r is Some ==> final(self).yielded() == old(self).yielded() + 1,
            r is Some ==> r->0@ == snapshots::<B>(old(self).origin())[old(self).yielded() as int],
            r is None ==> final(self).yielded() == old(self).yielded(),
    {
        if self.p.finished() {
            None
        } else {
            let val = self.source.snapshot();
            let ghost n = B::unit_count(self.origin@);
            let ghost k = self.taken@;
            proof {
                lemma_step_at(n, k);
                if k + 1 < fact(n) {
                    lemma_run_keeps_count::<B>(self.origin@, k + 1);
                }
            }
            self.p.permute(&mut self.source);
            self.taken = Ghost(k + 1);
            Some(val)
        }
    }
}

} // verus!
