//! The iterative form of Heap's algorithm: its state, one step of it, and
//! the mathematical model of the steps it takes.
use crate::permutable::Permutable;
use vstd::prelude::*;

verus! {

/// `n!`
pub open spec fn fact(n: nat) -> nat
    decreases n,
{
    if n == 0 {
        1
    } else {
        n * fact((n - 1) as nat)
    }
}

/// Counters fit for `n` units: one per position, position 0 unused and
/// zero, position `i` at most `i`.
pub open spec fn valid_counters(c: Seq<usize>, n: nat) -> bool {
    &&& c.len() == n
    &&& n <= usize::MAX
    &&& n > 0 ==> c[0] == 0
    &&& forall|i: int| 1 <= i < n ==> #[trigger] c[i] <= i
}

/// The first position from `i` on (below `n`) whose counter is below the
/// position itself; `n` when there is none.
pub open spec fn first_open(c: Seq<usize>, i: int, n: nat) -> int
    decreases n - i,
{
    if i >= n {
        n as int
    } else if c[i] < i {
        i
    } else {
        first_open(c, i + 1, n)
    }
}

/// The counters after one step: the positions below the first open one are
/// reset to zero and the open one counts up. With no open position every
/// counter is reset.
pub open spec fn step(c: Seq<usize>, n: nat) -> Seq<usize> {
    let i = first_open(c, 1, n);
    Seq::new(
        n,
        |j: int|
            if 1 <= j < i {
                0usize
            } else if j == i {
                (c[j] + 1) as usize
            } else {
                c[j]
            },
    )
}

/// The two positions that a step from counters `c` exchanges, when it has
/// an open position `i`: `0` and `i` for even `i`, `c[i]` and `i` for odd.
pub open spec fn swap_pair(c: Seq<usize>, n: nat) -> (int, int) {
    let i = first_open(c, 1, n);
    if i % 2 == 0 {
        (0, i)
    } else {
        (c[i] as int, i)
    }
}

/// The counters for `n` units after `k` steps from the start.
pub open spec fn counters_at(n: nat, k: nat) -> Seq<usize>
    decreases k,
{
    if k == 0 {
        Seq::new(n, |j: int| 0usize)
    } else {
        step(counters_at(n, (k - 1) as nat), n)
    }
}

/// The value `v` of `n` units after the swaps of the first `k` steps.
pub open spec fn run<T: Permutable>(v: T::V, n: nat, k: nat) -> T::V
    decreases k,
{
    if k == 0 {
        v
    } else {
        let p = swap_pair(counters_at(n, (k - 1) as nat), n);
        T::swapped(run::<T>(v, n, (k - 1) as nat), p.0, p.1)
    }
}

/// Every arrangement that the enumeration of `v` yields, in order.
pub open spec fn snapshots<T: Permutable>(v: T::V) -> Seq<T::V> {
    let n = T::unit_count(v);
    Seq::new(fact(n), |k: int| run::<T>(v, n, k as nat))
}

/// The number of steps that the counters `c` stand for, read in the mixed
/// radix where position `i` has weight `i!`; positions below `m` count.
pub open spec fn rank(c: Seq<usize>, m: nat) -> int
    decreases m,
{
    if m <= 1 {
        0
    } else {
        rank(c, (m - 1) as nat) + c[m - 1] * fact((m - 1) as nat)
    }
}

pub proof fn lemma_fact_positive(n: nat)
    ensures
        fact(n) >= 1,
    decreases n,
{
    if n > 0 {
        lemma_fact_positive((n - 1) as nat);
        assert(n * fact((n - 1) as nat) >= 1) by (nonlinear_arith)
            requires
                n >= 1,
                fact((n - 1) as nat) >= 1,
        ;
    }
}

/// Valid counters stand for at most `m! - 1` steps, and for exactly that
/// many when every position below `m` is at its largest.
proof fn lemma_rank_bounds(c: Seq<usize>, m: nat)
    requires
        m <= c.len(),
        forall|i: int| 1 <= i < m ==> #[trigger] c[i] <= i,
    ensures
        0 <= rank(c, m) <= fact(m) - 1,
        rank(c, m) == fact(m) - 1 <==> forall|i: int| 1 <= i < m ==> #[trigger] c[i] == i,
    decreases m,
{
    if m <= 1 {
        if m == 1 {
            assert(fact(1) == 1 * fact(0));
        }
    } else {
        let k = (m - 1) as nat;
        lemma_rank_bounds(c, k);
        lemma_fact_positive(k);
        let f = fact(k);
        let d = c[m - 1] as int;
        assert(fact(m) == m * f);
        assert(0 <= d * f <= k * f) by (nonlinear_arith)
            requires
                0 <= d <= k,
                f >= 1,
        ;
        assert(m * f == k * f + f) by (nonlinear_arith)
            requires
                m == k + 1,
        ;
        if rank(c, m) == fact(m) - 1 {
            assert(d * f == k * f);
            assert(d == k) by (nonlinear_arith)
                requires
                    d * f == k * f,
                    f >= 1,
            ;
        }
        if forall|i: int| 1 <= i < m ==> #[trigger] c[i] == i {
            assert(c[m - 1] == k);
        }
    }
}

/// Counters that are zero at every position below `m` stand for no step.
proof fn lemma_rank_zero(c: Seq<usize>, m: nat)
    requires
        m <= c.len(),
        forall|i: int| 1 <= i < m ==> #[trigger] c[i] == 0,
    ensures
        rank(c, m) == 0,
    decreases m,
{
    if m > 1 {
        lemma_rank_zero(c, (m - 1) as nat);
    }
}

/// What `first_open` finds.
proof fn lemma_first_open(c: Seq<usize>, i: int, n: nat)
    requires
        0 <= i,
        n <= c.len(),
    ensures
        i <= n ==> i <= first_open(c, i, n) <= n,
        i > n ==> first_open(c, i, n) == n,
        forall|j: int| i <= j < first_open(c, i, n) ==> #[trigger] c[j] >= j,
        first_open(c, i, n) < n ==> c[first_open(c, i, n)] < first_open(c, i, n),
    decreases n - i,
{
    if i < n && c[i] >= i {
        lemma_first_open(c, i + 1, n);
    }
}

/// A step keeps the counters valid. It finds an open position exactly when
/// fewer than `n! - 1` steps lie behind, and then it stands for one step
/// more.
proof fn lemma_step(c: Seq<usize>, n: nat)
    requires
        valid_counters(c, n),
    ensures
        valid_counters(step(c, n), n),
        first_open(c, 1, n) < n <==> rank(c, n) < fact(n) - 1,
        first_open(c, 1, n) < n ==> rank(step(c, n), n) == rank(c, n) + 1,
        first_open(c, 1, n) < n ==> 0 <= swap_pair(c, n).0 < n && 0 <= swap_pair(c, n).1 < n,
{
    let i = first_open(c, 1, n);
    let s = step(c, n);
    lemma_first_open(c, 1, n);
    lemma_rank_bounds(c, n);
    if i < n {
        assert(c[i] != i);
        lemma_rank_up(c, n, n);
    } else {
        assert forall|j: int| 1 <= j < n implies #[trigger] c[j] == j by {
            assert(c[j] >= j);
        }
    }
}

/// Below the open position `i` the old counters are at their largest and
/// the new ones zero; from `i` on the new ones stand for one step more.
proof fn lemma_rank_up(c: Seq<usize>, n: nat, m: nat)
    requires
        valid_counters(c, n),
        first_open(c, 1, n) < n,
        m <= n,
        forall|j: int| 1 <= j < first_open(c, 1, n) ==> #[trigger] c[j] >= j,
    ensures
        m <= first_open(c, 1, n) ==> rank(step(c, n), m) == 0 && rank(c, m) == fact(m) - 1,
        m > first_open(c, 1, n) ==> rank(step(c, n), m) == rank(c, m) + 1,
    decreases m,
{
    let i = first_open(c, 1, n);
    let s = step(c, n);
    lemma_first_open(c, 1, n);
    if m <= i {
        lemma_rank_zero(s, m);
        lemma_rank_bounds(c, m);
        assert forall|j: int| 1 <= j < m implies #[trigger] c[j] == j by {
            assert(c[j] >= j);
        }
    } else {
        let k = (m - 1) as nat;
        lemma_rank_up(c, n, k);
        if k == i {
            let f = fact(k);
            assert(s[k as int] == c[k as int] + 1);
            assert((c[k as int] + 1) * f == c[k as int] * f + f) by (nonlinear_arith);
        }
    }
}

/// The counters after `k` steps, for `k` below `n!`, are valid and stand
/// for `k` steps.
proof fn lemma_counters_at(n: nat, k: nat)
    requires
        k < fact(n),
        n <= usize::MAX,
    ensures
        valid_counters(counters_at(n, k), n),
        rank(counters_at(n, k), n) == k,
    decreases k,
{
    if k == 0 {
        let z = counters_at(n, 0);
        lemma_rank_zero(z, n);
    } else {
        let p = (k - 1) as nat;
        lemma_counters_at(n, p);
        lemma_step(counters_at(n, p), n);
    }
}

/// At `k` steps from the start, a step finds an open position exactly
/// when `k + 1 < n!`; the positions it then exchanges are in range.
pub proof fn lemma_step_at(n: nat, k: nat)
    requires
        k < fact(n),
        n <= usize::MAX,
    ensures
        valid_counters(counters_at(n, k), n),
        valid_counters(counters_at(n, k + 1), n),
        first_open(counters_at(n, k), 1, n) < n <==> k + 1 < fact(n),
        k + 1 < fact(n) ==> {
            let p = swap_pair(counters_at(n, k), n);
            0 <= p.0 < n && 0 <= p.1 < n
        },
{
    lemma_counters_at(n, k);
    lemma_step(counters_at(n, k), n);
}

/// A step from valid counters that finds an open position exchanges two
/// positions below `n`.
pub proof fn lemma_step_valid(c: Seq<usize>, n: nat)
    requires
        valid_counters(c, n),
        first_open(c, 1, n) < n,
    ensures
        0 <= swap_pair(c, n).0 < n,
        0 <= swap_pair(c, n).1 < n,
{
    lemma_step(c, n);
}

/// The state of the iterative Heap's algorithm for a value of a fixed
/// number of units.
pub struct HeapPermutor {
    finished: bool,
    index: usize,
    stack: Vec<usize>,
}

impl HeapPermutor {
    /// Whether the enumeration is over.
    pub closed spec fn is_finished(&self) -> bool {
        self.finished
    }

    /// The per-position counters.
    pub closed spec fn counters(&self) -> Seq<usize> {
        self.stack@
    }

    /// The state between two steps: valid counters; the cursor back at 1
    /// while running, and past every position once finished.
    pub closed spec fn inv(&self) -> bool {
        &&& valid_counters(self.stack@, self.stack@.len())
        &&& !self.finished ==> self.index == 1
        &&& self.finished ==> self.index >= 1 && self.index >= self.stack@.len()
    }

    /// A permutor for values of `size` units, at the start of the
    /// enumeration.
    pub fn new(size: usize) -> (r: HeapPermutor)
        ensures
            r.inv(),
            !r.is_finished(),
            r.counters() == counters_at(size as nat, 0),
    {
        let mut stack: Vec<usize> = Vec::with_capacity(size);
        let mut i: usize = 0;
        while i < size
            invariant
                i <= size,
                stack@ == Seq::new(i as nat, |j: int| 0usize),
            decreases size - i,
        {
            stack.push(0);
            i += 1;
        }
        HeapPermutor { finished: false, index: 1, stack }
    }

    /// A permutor for values of as many units as `value` has, at the start
    /// of the enumeration.
    pub fn from<T: Permutable>(value: &T) -> (r: HeapPermutor)
        ensures
            r.inv(),
            !r.is_finished(),
            r.counters() == counters_at(T::unit_count(value@), 0),
            T::unit_count(value@) <= usize::MAX,
    {
        HeapPermutor::new(value.len())
    }

    /// Whether the enumeration is over.
    pub fn finished(&self) -> (r: bool)
        ensures
            r == self.is_finished(),
    {
        self.finished
    }

    /// Takes one step: performs at most one swap on `source`. Once no
    /// position is open the enumeration is finished, and `source` is left
    /// as it is from then on.
    pub fn permute<T: Permutable>(&mut self, source: &mut T)
        requires
            old(self).inv(),
            T::unit_count(old(source)@) == old(self).counters().len(),
        ensures
            final(self).inv(),
            final(self).counters().len() == old(self).counters().len(),
            old(self).is_finished() ==> {
                &&& final(self).is_finished()
                &&& final(self).counters() == old(self).counters()
                &&& final(source)@ == old(source)@
            },
            !old(self).is_finished() ==> {
                let c = old(self).counters();
                let n = c.len();
                let p = swap_pair(c, n);
                &&& final(self).counters() == step(c, n)
                &&& final(self).is_finished() <==> first_open(c, 1, n) >= n
                &&& final(self).is_finished() ==> final(source)@ == old(source)@
                &&& !final(self).is_finished() ==> 0 <= p.0 < n && 0 <= p.1 < n
                &&& !final(self).is_finished() ==> final(source)@ == T::swapped(
                    old(source)@,
                    p.0,
                    p.1,
                )
            },
    {
        let ghost c = self.stack@;
        let n = source.len();
        while self.index < n
            invariant
                n == c.len(),
                n == T::unit_count(source@),
                source@ == old(source)@,
                self.finished == old(self).finished,
                valid_counters(c, n as nat),
                old(self).inv(),
                c == old(self).stack@,
                1 <= self.index,
                old(self).finished ==> self.index >= n && self.stack@ == c,
                !old(self).finished ==> {
                    &&& self.index <= n || self.index == 1
                    &&& first_open(c, 1, n as nat) == first_open(c, self.index as int, n as nat)
                    &&& self.stack@ == Seq::new(
                        n as nat,
                        |j: int|
                            if 1 <= j < self.index {
                                0usize
                            } else {
                                c[j]
                            },
                    )
                },
            decreases n - self.index,
        {
            let i = self.index;
            let ci = self.stack[i];
            if ci < i {
                if i % 2 == 0 {
                    source.swap(0, i);
                } else {
                    source.swap(ci, i);
                }
                self.stack.set(i, ci + 1);
                self.index = 1;
                assert(self.stack@ =~= step(c, n as nat));
                proof {
                    lemma_step_valid(c, n as nat);
                }
                return ;
            } else {
                self.stack.set(i, 0);
                self.index = i + 1;
                assert(self.stack@ =~= Seq::new(
                    n as nat,
                    |j: int|
                        if 1 <= j < self.index {
                            0usize
                        } else {
                            c[j]
                        },
                ));
            }
        }
        if !self.finished {
            assert(self.stack@ =~= step(c, n as nat));
        }
        self.finished = true;
    }
}

} // verus!
