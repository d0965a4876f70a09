//! Bisection search over a large pool of positions (e.g. block numbers) to
//! locate a pair of adjacent positions where an observed state changes
//! (e.g. the spec version changes).

use vstd::prelude::*;

verus! {

use vstd::std_specs::cmp::PartialEqSpec;

/// The goal of this type is to search a large pool of values (eg block numbers)
/// to locate a pair of values where a change occurs (eg the spec version changes).
#[derive(Debug)]
pub struct BinaryChopper<N, T> {
    pub min: (N, T),
    pub max: (N, T),
}

/// What the chopper asks of its driver next: either fetch the state at the
/// proposed position, or nothing more, the bounding pair has been found.
#[derive(Debug)]
pub enum Next<N, T> {
    NeedsState(N),
    Finished { min: (N, T), max: (N, T) },
}

impl<N, T> Next<N, T> {
    /// Unwrap [`Next`] and return the values from [`Next::Finished`].
    pub fn unwrap_finished(self) -> (r: ((N, T), (N, T)))
        requires
            self matches Next::Finished { .. },
        ensures
            self matches Next::Finished { min, max } && r == (min, max),
    {
        match self {
            Next::Finished { min, max } => (min, max),
            Next::NeedsState(_) => unreached(),
        }
    }
}

/// A small trait so that the chopper can be generic over a few number types.
/// `position` gives the mathematical value a number stands for; the three
/// executable methods are specified against it.
pub trait BinaryChopNumber: Sized + Copy {
    spec fn position(self) -> int;

    spec fn max_position() -> int;

    fn same(&self, other: &Self) -> (r: bool)
        ensures
            r == (self.position() == other.position()),
    ;

    fn increment(&self) -> (r: Self)
        requires
            0 <= self.position(),
            self.position() + 1 <= Self::max_position(),
        ensures
            r.position() == self.position() + 1,
    ;

    fn mid(&self, other: &Self) -> (r: Self)
        requires
            0 <= self.position() <= other.position() <= Self::max_position(),
        ensures
            r.position() == (self.position() + other.position()) / 2,
    ;
}

impl BinaryChopNumber for usize {
    open spec fn position(self) -> int {
        self as int
    }

    open spec fn max_position() -> int {
        usize::MAX as int
    }

    fn same(&self, other: &Self) -> (r: bool) {
        *self == *other
    }

    fn increment(&self) -> (r: Self) {
        *self + 1
    }

    fn mid(&self, other: &Self) -> (r: Self) {
        *self + (*other - *self) / 2
    }
}

impl BinaryChopNumber for u64 {
    open spec fn position(self) -> int {
        self as int
    }

    open spec fn max_position() -> int {
        u64::MAX as int
    }

    fn same(&self, other: &Self) -> (r: bool) {
        *self == *other
    }

    fn increment(&self) -> (r: Self) {
        *self + 1
    }

    fn mid(&self, other: &Self) -> (r: Self) {
        *self + (*other - *self) / 2
    }
}

impl BinaryChopNumber for u32 {
    open spec fn position(self) -> int {
        self as int
    }

    open spec fn max_position() -> int {
        u32::MAX as int
    }

    fn same(&self, other: &Self) -> (r: bool) {
        *self == *other
    }

    fn increment(&self) -> (r: Self) {
        *self + 1
    }

    fn mid(&self, other: &Self) -> (r: Self) {
        *self + (*other - *self) / 2
    }
}

impl<N: BinaryChopNumber, T: Copy + PartialEq> BinaryChopper<N, T> {
    /// The bounds are ordered and within the number type's range.
    pub open spec fn wf(self) -> bool {
        0 <= self.min.0.position() <= self.max.0.position() <= N::max_position()
    }

    /// Give an initial start and end value and state.
    pub fn new(min: (N, T), max: (N, T)) -> (r: Self)
        requires
            0 <= min.0.position() <= max.0.position() <= N::max_position(),
        ensures
            r.wf(),
            r.min == min,
            r.max == max,
    {
        BinaryChopper { min, max }
    }

    /// Ask for the next value. This either returns [`Next::Finished`] to indicate that
    /// it's found the pair of values with a state change, or it returns [`Next::NeedsState`]
    /// to indicate that you should turn the given number into some state, and then provide
    /// it via [`Self::set_state_for_next_value`].
    pub fn next_value(&self) -> (r: Next<N, T>)
        requires
            self.wf(),
        ensures
            chop_finished(self.min.0.position(), self.max.0.position()) ==> r == (Next::Finished {
                min: self.min,
                max: self.max,
            }),
            !chop_finished(self.min.0.position(), self.max.0.position()) ==> (r matches Next::NeedsState(n)
                && n.position() == (self.min.0.position() + self.max.0.position()) / 2),
    {
        // If we start with the same numbers, this will end. If the two numbers are
        // adjacent to each other then we also end; no further chopping to do!
        if self.min.0.same(&self.max.0) || self.min.0.increment().same(&self.max.0) {
            Next::Finished { min: self.min, max: self.max }
        } else {
            Next::NeedsState(self.mid())
        }
    }

    /// Hand the state corresponding to the position from [`Self::next_value`] back to the
    /// chopper. The probed bound replaces whichever existing bound its state agrees with,
    /// exactly as [`chop_step`] says.
    pub fn set_state_for_next_value(&mut self, state: T)
        requires
            old(self).wf(),
            <T as vstd::std_specs::cmp::PartialEqSpec>::obeys_eq_spec(),
        ensures
            final(self).wf(),
            ({
                let m = (old(self).min.0.position() + old(self).max.0.position()) / 2;
                if state.eq_spec(&old(self).min.1) {
                    &&& final(self).min.0.position() == m
                    &&& final(self).min.1 == state
                    &&& final(self).max == old(self).max
                } else {
                    &&& final(self).max.0.position() == m
                    &&& final(self).max.1 == state
                    &&& final(self).min == old(self).min
                }
            }),
    {
        let mid = self.mid();
        if state == self.min.1 {
            self.min = (mid, state);
        } else {
            self.max = (mid, state);
        }
    }

    fn mid(&self) -> (r: N)
        requires
            self.wf(),
        ensures
            r.position() == (self.min.0.position() + self.max.0.position()) / 2,
    {
        self.min.0.mid(&self.max.0)
    }
}

/// The chopper stops once its bounds are equal or adjacent.
pub open spec fn chop_finished(lo: int, hi: int) -> bool {
    lo == hi || lo + 1 == hi
}

/// One probe of the bisection: the midpoint replaces the bound whose state
/// it agrees with, where `f` gives the state at each position.
pub open spec fn chop_step(lo: int, hi: int, f: spec_fn(int) -> int) -> (int, int) {
    let m = (lo + hi) / 2;
    if f(m) == f(lo) {
        (m, hi)
    } else {
        (lo, m)
    }
}

/// The bounds reached by running [`chop_step`] until [`chop_finished`].
pub open spec fn chop_run(lo: int, hi: int, f: spec_fn(int) -> int) -> (int, int)
    decreases hi - lo,
        when lo <= hi
{
    if chop_finished(lo, hi) {
        (lo, hi)
    } else {
        chop_run(chop_step(lo, hi, f).0, chop_step(lo, hi, f).1, f)
    }
}

/// `f` changes state exactly once in `[lo, hi]`, at position `c`.
pub open spec fn single_transition(f: spec_fn(int) -> int, lo: int, hi: int, c: int) -> bool {
    &&& lo < c <= hi
    &&& forall|p: int| lo <= p < c ==> #[trigger] f(p) == f(lo)
    &&& forall|p: int| c <= p <= hi ==> #[trigger] f(p) == f(hi)
    &&& f(lo) != f(hi)
}

/// Law: over any position domain whose abstract state function `f` has exactly
/// one transition point `c` within `[lo, hi]`, the bisection converges to the
/// adjacent pair `(c - 1, c)`: the last position with the old state and the
/// first with the new one.
pub proof fn lemma_chopper_converges(f: spec_fn(int) -> int, lo: int, hi: int, c: int)
    requires
        single_transition(f, lo, hi, c),
    ensures
        chop_run(lo, hi, f) == (c - 1, c),
    decreases hi - lo,
{
    if chop_finished(lo, hi) {
        // lo == hi is impossible because f(lo) != f(hi), so the bounds are adjacent
        // and c (strictly above lo, at most hi) must be hi itself.
        assert(f(lo) == f(lo));
        assert(lo + 1 == hi);
        assert(c == hi);
    } else {
        let m = (lo + hi) / 2;
        assert(lo < m < hi) by {
            assert(lo + 2 <= hi);
        }
        if f(m) == f(lo) {
            // The midpoint still carries the old state, so it lies below c.
            assert(m < c);
            assert(single_transition(f, m, hi, c)) by {
                assert(forall|p: int| m <= p < c ==> #[trigger] f(p) == f(m));
            }
            lemma_chopper_converges(f, m, hi, c);
        } else {
            // The midpoint carries the new state, so it lies at or above c.
            assert(c <= m) by {
                if m < c {
                    assert(f(m) == f(lo));
                }
            }
            assert(f(m) == f(hi));
            assert(single_transition(f, lo, m, c)) by {
                assert(forall|p: int| c <= p <= m ==> #[trigger] f(p) == f(m));
            }
            lemma_chopper_converges(f, lo, m, c);
        }
    }
}

} // verus!
