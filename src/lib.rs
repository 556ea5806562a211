//! Lazy, in-place enumeration of every ordering of a value, driven by the
//! iterative form of Heap's algorithm.
pub mod bits;
pub mod grapheme;
pub mod heap;
pub mod iterator;
pub mod laws;
pub mod permutable;

pub use crate::grapheme::GraphemeString;
pub use crate::heap::HeapPermutor;
pub use crate::iterator::PermuteIter;
pub use crate::permutable::Permutable;

use crate::heap::{first_open, swap_pair};
use vstd::prelude::*;

verus! {

/// Something that steps a permutable value through its arrangements, one
/// swap at a time.
pub trait Permutor<T: Permutable>: Sized {
    /// Whether the enumeration is over.
    spec fn is_done(&self) -> bool;

    /// Whether the permutor is between two steps for values of `n` units.
    spec fn fits(&self, n: nat) -> bool;

    /// The two positions that the next step exchanges on a value of `n`
    /// units; `None` where that step takes no swap and ends the enumeration
    /// (or it is already over).
    spec fn next_swap(&self, n: nat) -> Option<(int, int)>;

    /// Takes one step on `source`: exchanges the two positions of
    /// `next_swap`, or, where there are none, leaves `source` as it is and
    /// the enumeration over. Once over it stays over.
    fn permute(&mut self, source: &mut T)
        requires
            old(self).fits(T::unit_count(old(source)@)),
        ensures
            T::unit_count(final(source)@) == T::unit_count(old(source)@),
            final(self).fits(T::unit_count(old(source)@)),
            old(self).is_done() ==> final(self).is_done() && final(source)@ == old(source)@,
            final(source)@ == match old(self).next_swap(T::unit_count(old(source)@)) {
                Some(p) => T::swapped(old(source)@, p.0, p.1),
                None => old(source)@,
            },
            final(self).is_done() <==> old(self).next_swap(T::unit_count(old(source)@)) is None,
    ;

    /// Whether the enumeration is over.
    fn finished(&self) -> (r: bool)
        ensures
            r == self.is_done(),
    ;
}

impl<T: Permutable> Permutor<T> for HeapPermutor {
    open spec fn is_done(&self) -> bool {
        self.is_finished()
    }

    open spec fn fits(&self, n: nat) -> bool {
        self.inv() && self.counters().len() == n
    }

    open spec fn next_swap(&self, n: nat) -> Option<(int, int)> {
        if !self.is_finished() && first_open(self.counters(), 1, n) < n {
            Some(swap_pair(self.counters(), n))
        } else {
            None
        }
    }

    fn permute(&mut self, source: &mut T) {
        let ghost c = self.counters();
        let ghost v = source@;
        HeapPermutor::permute(self, source);
        proof {
            if !old(self).is_finished() && !self.is_finished() {
                let p = swap_pair(c, c.len());
                T::lemma_swap_keeps_count(v, p.0, p.1);
            }
        }
    }

    fn finished(&self) -> (r: bool) {
        HeapPermutor::finished(self)
    }
}

} // verus!
