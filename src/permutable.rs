//! Values whose logical units can be exchanged in place.
use vstd::prelude::*;

verus! {

/// `s` with the elements at `a` and `b` exchanged.
pub open spec fn seq_swap<A>(s: Seq<A>, a: int, b: int) -> Seq<A> {
    s.update(a, s[b]).update(b, s[a])
}

/// A value made of `len()` logical units, any two of which can trade places.
///
/// The abstract value is the view; `unit_count` and `swapped` describe the
/// units over it.
pub trait Permutable: View + Sized {
    /// The number of logical units of the value `v`.
    spec fn unit_count(v: Self::V) -> nat;

    /// The value `v` after the units at `a` and `b` have been exchanged.
    spec fn swapped(v: Self::V, a: int, b: int) -> Self::V;

    /// Exchanging two units leaves the number of units as it was.
    proof fn lemma_swap_keeps_count(v: Self::V, a: int, b: int)
        requires
            0 <= a < Self::unit_count(v),
            0 <= b < Self::unit_count(v),
        ensures
            Self::unit_count(Self::swapped(v, a, b)) == Self::unit_count(v),
    ;

    /// Exchanges the units at positions `a` and `b`.
    fn swap(&mut self, a: usize, b: usize)
        requires
            a < Self::unit_count(old(self)@),
            b < Self::unit_count(old(self)@),
        ensures
            final(self)@ == Self::swapped(old(self)@, a as int, b as int),
    ;

    /// The number of logical units.
    fn len(&self) -> (r: usize)
        ensures
            r as nat == Self::unit_count(self@),
    ;

    /// An independent copy of the value.
    fn snapshot(&self) -> (r: Self)
        ensures
            r@ == self@,
    ;
}

impl<T: Copy> Permutable for Vec<T> {
    open spec fn unit_count(v: Seq<T>) -> nat {
        v.len()
    }

    open spec fn swapped(v: Seq<T>, a: int, b: int) -> Seq<T> {
        seq_swap(v, a, b)
    }

    proof fn lemma_swap_keeps_count(v: Seq<T>, a: int, b: int) {
    }

    fn swap(&mut self, a: usize, b: usize) {
        let x = self[a];
        let y = self[b];
        self.set(a, y);
        self.set(b, x);
    }

    fn len(&self) -> (r: usize) {
        self.len()
    }

    fn snapshot(&self) -> (r: Self) {
        let mut out: Vec<T> = Vec::with_capacity(self.len());
        let mut i: usize = 0;
        while i < self.len()
            invariant
                i <= self@.len(),
                out@ == self@.subrange(0, i as int),
            decreases self@.len() - i,
        {
            out.push(self[i]);
            i += 1;
        }
        assert(out@ == self@);
        out
    }
}

} // verus!
