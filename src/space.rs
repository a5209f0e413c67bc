//! The index-driven sequence: a strategy that maps an index to a value, and a
//! cursor over the half-open range of indices not yet produced.
use vstd::prelude::*;

verus! {

/// An end point of a sequence, in the value domain.
#[derive(Clone, Copy, Debug, PartialEq, Eq)]
pub enum Bound<T> {
    Included(T),
    Excluded(T),
    Unbounded,
}

/// A pure function from a step index to a value.
pub trait Interpolate: Sized {
    type Item;

    /// Whether `interpolate` can compute the value at `x`.
    spec fn defined_at(&self, x: int) -> bool;

    /// The value at index `x`.
    spec fn value_at(&self, x: int) -> Self::Item;

    /// Whether `interpolate_exclusive_end` can compute the end value at `x`.
    spec fn end_defined_at(&self, x: int) -> bool;

    /// The value that an exclusive end at index `x` stands for.
    spec fn end_value_at(&self, x: int) -> Self::Item;

    fn interpolate(&self, x: usize) -> (r: Self::Item)
        requires
            self.defined_at(x as int),
        ensures
            r == self.value_at(x as int),
    ;

    /// The value that an exclusive end at `x` stands for. Grid strategies wrap
    /// around at their length, so they compute the end from each axis instead.
    fn interpolate_exclusive_end(&self, x: usize) -> (r: Self::Item)
        requires
            self.end_defined_at(x as int),
        ensures
            r == self.end_value_at(x as int),
    ;
}

/// A strategy together with the range of indices that it will be asked for.
#[derive(Clone, Copy)]
pub struct IntoSpace<I> {
    interpolate: I,
    start: usize,
    end: usize,
    inclusive: bool,
}

/// The values of `strategy` at the indices `lo..hi`.
pub open spec fn values_between<I: Interpolate>(strategy: I, lo: int, hi: int) -> Seq<I::Item> {
    Seq::new((hi - lo) as nat, |k: int| strategy.value_at(lo + k))
}

/// Whether `strategy` is defined at every index of `lo..hi`.
pub open spec fn defined_between<I: Interpolate>(strategy: I, lo: int, hi: int) -> bool {
    forall|x: int| lo <= x < hi ==> #[trigger] strategy.defined_at(x)
}

impl<I: Interpolate> IntoSpace<I> {
    pub closed spec fn strategy(&self) -> I {
        self.interpolate
    }

    pub closed spec fn front(&self) -> int {
        self.start as int
    }

    pub closed spec fn back(&self) -> int {
        self.end as int
    }

    /// Whether the range was declared with an inclusive end.
    pub closed spec fn is_inclusive(&self) -> bool {
        self.inclusive
    }

    pub open spec fn wf(&self) -> bool {
        &&& 0 <= self.front() <= self.back()
        &&& defined_between(self.strategy(), self.front(), self.back())
    }

    /// A space over the indices of `range`; an empty one where `range.end`
    /// is below `range.start`.
    pub fn new(interpolate: I, range: core::ops::Range<usize>) -> (r: Self)
        requires
            defined_between(interpolate, range.start as int, range.end as int),
        ensures
            r.wf(),
            r.strategy() == interpolate,
            r.front() == range.start,
            r.back() == if range.end < range.start {
                range.start
            } else {
                range.end
            },
            !r.is_inclusive(),
    {
        let end = if range.end < range.start {
            range.start
        } else {
            range.end
        };
        IntoSpace { interpolate, start: range.start, end, inclusive: false }
    }

    /// The indices `0..steps`, with an exclusive end at `steps`.
    pub fn new_exclusive(steps: usize, interpolate: I) -> (r: Self)
        requires
            defined_between(interpolate, 0, steps as int),
        ensures
            r.wf(),
            r.strategy() == interpolate,
            r.front() == 0,
            r.back() == steps,
            !r.is_inclusive(),
    {
        IntoSpace { interpolate, start: 0, end: steps, inclusive: false }
    }

    /// The indices `0..=steps - 1`: `steps` of them, the last one included.
    pub fn new_inclusive(steps: usize, interpolate: I) -> (r: Self)
        requires
            defined_between(interpolate, 0, steps as int),
        ensures
            r.wf(),
            r.strategy() == interpolate,
            r.front() == 0,
            r.back() == steps,
            r.is_inclusive(),
    {
        IntoSpace { interpolate, start: 0, end: steps, inclusive: true }
    }

    /// The same range over the strategy that `f` makes of this one.
    pub fn map<J: Interpolate, F: FnOnce(I) -> J>(self, f: F) -> (r: IntoSpace<J>)
        requires
            self.wf(),
            f.requires((self.strategy(),)),
            forall|j: J|
                #[trigger] f.ensures((self.strategy(),), j) ==> defined_between(
                    j,
                    self.front(),
                    self.back(),
                ),
        ensures
            r.wf(),
            f.ensures((self.strategy(),), r.strategy()),
            r.front() == self.front(),
            r.back() == self.back(),
            r.is_inclusive() == self.is_inclusive(),
    {
        let interpolate = f(self.interpolate);
        IntoSpace { interpolate, start: self.start, end: self.end, inclusive: self.inclusive }
    }

    /// The number of indices in the range.
    pub fn len(&self) -> (r: usize)
        requires
            self.wf(),
        ensures
            r == self.back() - self.front(),
    {
        self.end - self.start
    }

    /// The strategy, without the range.
    pub fn into_strategy(self) -> (r: I)
        ensures
            r == self.strategy(),
    {
        self.interpolate
    }

    pub fn into_space(self) -> (r: Space<I>)
        requires
            self.wf(),
        ensures
            r.wf(),
            r.strategy() == self.strategy(),
            r.front() == self.front(),
            r.back() == self.back(),
            r.is_inclusive() == self.is_inclusive(),
    {
        Space { interpolate: self.interpolate, lo: self.start, hi: self.end, inclusive: self.inclusive }
    }
}

/// A double-ended, exact-size sequence: the values of a strategy at the
/// indices `lo..hi` that have not been produced yet.
#[derive(Clone, Copy)]
pub struct Space<I> {
    interpolate: I,
    lo: usize,
    hi: usize,
    inclusive: bool,
}

impl<I: Interpolate> Space<I> {
    pub closed spec fn strategy(&self) -> I {
        self.interpolate
    }

    /// The first index not yet produced from the front.
    pub closed spec fn front(&self) -> int {
        self.lo as int
    }

    /// One past the last index not yet produced from the back.
    pub closed spec fn back(&self) -> int {
        self.hi as int
    }

    /// Whether the range was declared with an inclusive end.
    pub closed spec fn is_inclusive(&self) -> bool {
        self.inclusive
    }

    pub open spec fn wf(&self) -> bool {
        &&& 0 <= self.front() <= self.back()
        &&& defined_between(self.strategy(), self.front(), self.back())
    }

    /// The space once the first value still to come is taken.
    pub closed spec fn take_front(self) -> Self {
        if self.lo < self.hi {
            Space { lo: (self.lo + 1) as usize, ..self }
        } else {
            self
        }
    }

    /// The space once the last value still to come is taken.
    pub closed spec fn take_back(self) -> Self {
        if self.lo < self.hi {
            Space { hi: (self.hi - 1) as usize, ..self }
        } else {
            self
        }
    }

    /// The space once `n` values are skipped from the front, or all of them
    /// where fewer are left.
    pub closed spec fn skip_front(self, n: nat) -> Self {
        if n <= self.hi - self.lo {
            Space { lo: (self.lo + n) as usize, ..self }
        } else {
            Space { lo: self.hi, ..self }
        }
    }

    /// The space once `n` values are skipped from the back, or all of them
    /// where fewer are left.
    pub closed spec fn skip_back(self, n: nat) -> Self {
        if n <= self.hi - self.lo {
            Space { hi: (self.hi - n) as usize, ..self }
        } else {
            Space { hi: self.lo, ..self }
        }
    }

    /// The first value still to come, if any.
    pub open spec fn first_value(self) -> Option<I::Item> {
        if self.remaining().len() > 0 {
            Some(self.remaining()[0])
        } else {
            None
        }
    }

    /// The last value still to come, if any.
    pub open spec fn last_value(self) -> Option<I::Item> {
        if self.remaining().len() > 0 {
            Some(self.remaining().last())
        } else {
            None
        }
    }

    /// The space after `n` values are taken one at a time from the front.
    pub open spec fn take_front_times(self, n: nat) -> Self
        decreases n,
    {
        if n == 0 {
            self
        } else {
            self.take_front().take_front_times((n - 1) as nat)
        }
    }

    /// The space after `n` values are taken one at a time from the back.
    pub open spec fn take_back_times(self, n: nat) -> Self
        decreases n,
    {
        if n == 0 {
            self
        } else {
            self.take_back().take_back_times((n - 1) as nat)
        }
    }

    /// The values that `n` calls of `next` produce, in order.
    pub open spec fn forward_values(self, n: nat) -> Seq<I::Item>
        decreases n,
    {
        if n == 0 || self.remaining().len() == 0 {
            Seq::empty()
        } else {
            seq![self.remaining()[0]] + self.take_front().forward_values((n - 1) as nat)
        }
    }

    /// The values that `n` calls of `next_back` produce, in order.
    pub open spec fn backward_values(self, n: nat) -> Seq<I::Item>
        decreases n,
    {
        if n == 0 || self.remaining().len() == 0 {
            Seq::empty()
        } else {
            seq![self.remaining().last()] + self.take_back().backward_values((n - 1) as nat)
        }
    }

    /// The values still to come, first to last.
    pub open spec fn remaining(&self) -> Seq<I::Item> {
        values_between(self.strategy(), self.front(), self.back())
    }

    /// Whether the bounds of the space can be computed.
    pub open spec fn bounds_defined(&self) -> bool {
        &&& self.strategy().defined_at(self.front())
        &&& if self.is_inclusive() && self.front() < self.back() {
            self.strategy().defined_at(self.back() - 1)
        } else {
            self.strategy().end_defined_at(self.back())
        }
    }

    pub open spec fn spec_start_bound(&self) -> Bound<I::Item> {
        Bound::Included(self.strategy().value_at(self.front()))
    }

    pub open spec fn spec_end_bound(&self) -> Bound<I::Item> {
        if self.is_inclusive() && self.front() < self.back() {
            Bound::Included(self.strategy().value_at(self.back() - 1))
        } else {
            Bound::Excluded(self.strategy().end_value_at(self.back()))
        }
    }

    pub fn new(interpolate: I, range: core::ops::Range<usize>) -> (r: Self)
        requires
            defined_between(interpolate, range.start as int, range.end as int),
        ensures
            r.wf(),
            r.strategy() == interpolate,
            r.front() == range.start,
            r.back() == if range.end < range.start {
                range.start
            } else {
                range.end
            },
            !r.is_inclusive(),
    {
        let hi = if range.end < range.start {
            range.start
        } else {
            range.end
        };
        Space { interpolate, lo: range.start, hi, inclusive: false }
    }

    pub fn start_bound(&self) -> (r: Bound<I::Item>)
        requires
            self.bounds_defined(),
        ensures
            r matches Bound::Included(v) && self.spec_start_bound() == Bound::Included(v),
    {
        Bound::Included(self.interpolate.interpolate(self.lo))
    }

    pub fn end_bound(&self) -> (r: Bound<I::Item>)
        requires
            self.wf(),
            self.bounds_defined(),
        ensures
            match r {
                Bound::Included(v) => self.spec_end_bound() == Bound::Included(v),
                Bound::Excluded(v) => self.spec_end_bound() == Bound::Excluded(v),
                Bound::Unbounded => false,
            },
    {
        if self.inclusive && self.lo < self.hi {
            Bound::Included(self.interpolate.interpolate(self.hi - 1))
        } else {
            Bound::Excluded(self.interpolate.interpolate_exclusive_end(self.hi))
        }
    }

    /// The start and end bounds together.
    pub fn bounds(&self) -> (r: (Bound<I::Item>, Bound<I::Item>))
        requires
            self.wf(),
            self.bounds_defined(),
        ensures
            r.0 matches Bound::Included(v) && self.spec_start_bound() == Bound::Included(v),
            match r.1 {
                Bound::Included(v) => self.spec_end_bound() == Bound::Included(v),
                Bound::Excluded(v) => self.spec_end_bound() == Bound::Excluded(v),
                Bound::Unbounded => false,
            },
    {
        (self.start_bound(), self.end_bound())
    }

    /// The number of values still to come.
    pub fn len(&self) -> (r: usize)
        requires
            self.wf(),
        ensures
            r == self.remaining().len(),
    {
        self.hi - self.lo
    }

    /// The exact number of values still to come, as lower and upper bound.
    pub fn size_hint(&self) -> (r: (usize, Option<usize>))
        requires
            self.wf(),
        ensures
            r.0 == self.remaining().len(),
            r.1 == Some(r.0),
    {
        let n = self.hi - self.lo;
        (n, Some(n))
    }

    /// Produces the first value still to come.
    pub fn next(&mut self) -> (r: Option<I::Item>)
        requires
            old(self).wf(),
        ensures
            final(self).wf(),
            final(self).strategy() == old(self).strategy(),
            final(self).is_inclusive() == old(self).is_inclusive(),
            final(self).back() == old(self).back(),
            *final(self) == old(self).take_front(),
            r == old(self).first_value(),
            old(self).remaining().len() == 0 ==> r is None && *final(self) == *old(self),
            old(self).remaining().len() > 0 ==> {
                &&& r matches Some(v) && v == old(self).remaining()[0]
                &&& final(self).front() == old(self).front() + 1
                &&& final(self).remaining() == old(self).remaining().drop_first()
            },
    {
        if self.lo < self.hi {
            let v = self.interpolate.interpolate(self.lo);
            self.lo = self.lo + 1;
            proof {
                assert(self.remaining() =~= old(self).remaining().drop_first());
            }
            Some(v)
        } else {
            None
        }
    }

    /// Produces the last value still to come.
    pub fn next_back(&mut self) -> (r: Option<I::Item>)
        requires
            old(self).wf(),
        ensures
            final(self).wf(),
            final(self).strategy() == old(self).strategy(),
            final(self).is_inclusive() == old(self).is_inclusive(),
            final(self).front() == old(self).front(),
            *final(self) == old(self).take_back(),
            r == old(self).last_value(),
            old(self).remaining().len() == 0 ==> r is None && *final(self) == *old(self),
            old(self).remaining().len() > 0 ==> {
                &&& r matches Some(v) && v == old(self).remaining().last()
                &&& final(self).back() == old(self).back() - 1
                &&& final(self).remaining() == old(self).remaining().drop_last()
            },
    {
        if self.lo < self.hi {
            self.hi = self.hi - 1;
            proof {
                assert(self.remaining() =~= old(self).remaining().drop_last());
            }
            Some(self.interpolate.interpolate(self.hi))
        } else {
            None
        }
    }

    /// Skips `n` values from the front and produces the next one; where fewer
    /// than `n + 1` are left, takes them all and produces none.
    pub fn nth(&mut self, n: usize) -> (r: Option<I::Item>)
        requires
            old(self).wf(),
        ensures
            final(self).wf(),
            final(self).strategy() == old(self).strategy(),
            final(self).is_inclusive() == old(self).is_inclusive(),
            final(self).back() == old(self).back(),
            *final(self) == old(self).skip_front((n + 1) as nat),
            r == old(self).skip_front(n as nat).first_value(),
            n < old(self).remaining().len() ==> {
                &&& r matches Some(v) && v == old(self).remaining()[n as int]
                &&& final(self).front() == old(self).front() + n + 1
                &&& final(self).remaining() == old(self).remaining().skip(n + 1)
            },
            n >= old(self).remaining().len() ==> r is None && final(self).remaining().len() == 0
                && final(self).front() == old(self).back(),
    {
        if n < self.hi - self.lo {
            let x = self.lo + n;
            self.lo = x + 1;
            proof {
                assert(self.remaining() =~= old(self).remaining().skip(n + 1));
            }
            Some(self.interpolate.interpolate(x))
        } else {
            self.lo = self.hi;
            None
        }
    }

    /// Skips `n` values from the back and produces the one before them; where
    /// fewer than `n + 1` are left, takes them all and produces none.
    pub fn nth_back(&mut self, n: usize) -> (r: Option<I::Item>)
        requires
            old(self).wf(),
        ensures
            final(self).wf(),
            final(self).strategy() == old(self).strategy(),
            final(self).is_inclusive() == old(self).is_inclusive(),
            final(self).front() == old(self).front(),
            *final(self) == old(self).skip_back((n + 1) as nat),
            r == old(self).skip_back(n as nat).last_value(),
            n < old(self).remaining().len() ==> {
                let k = old(self).remaining().len() - 1 - n;
                &&& r matches Some(v) && v == old(self).remaining()[k]
                &&& final(self).back() == old(self).back() - n - 1
                &&& final(self).remaining() == old(self).remaining().take(k)
            },
            n >= old(self).remaining().len() ==> r is None && final(self).remaining().len() == 0
                && final(self).back() == old(self).front(),
    {
        if n < self.hi - self.lo {
            self.hi = self.hi - n - 1;
            proof {
                let k = old(self).remaining().len() - 1 - n;
                assert(self.remaining() =~= old(self).remaining().take(k));
            }
            Some(self.interpolate.interpolate(self.hi))
        } else {
            self.hi = self.lo;
            None
        }
    }

    /// Skips `n` values from the front; `Err(k)` where `k` of them were
    /// missing.
    pub fn advance_by(&mut self, n: usize) -> (r: Result<(), usize>)
        requires
            old(self).wf(),
        ensures
            final(self).wf(),
            final(self).strategy() == old(self).strategy(),
            final(self).is_inclusive() == old(self).is_inclusive(),
            final(self).back() == old(self).back(),
            *final(self) == old(self).skip_front(n as nat),
            n <= old(self).remaining().len() ==> r is Ok && final(self).front() == old(
                self,
            ).front() + n && final(self).remaining() == old(self).remaining().skip(n as int),
            n > old(self).remaining().len() ==> r == Err::<(), usize>(
                (n - old(self).remaining().len()) as usize,
            ) && final(self).front() == old(self).back(),
    {
        let left = self.hi - self.lo;
        if n <= left {
            self.lo = self.lo + n;
            proof {
                assert(self.remaining() =~= old(self).remaining().skip(n as int));
            }
            Ok(())
        } else {
            self.lo = self.hi;
            Err(n - left)
        }
    }

    /// Skips `n` values from the back; `Err(k)` where `k` of them were
    /// missing.
    pub fn advance_back_by(&mut self, n: usize) -> (r: Result<(), usize>)
        requires
            old(self).wf(),
        ensures
            final(self).wf(),
            final(self).strategy() == old(self).strategy(),
            final(self).is_inclusive() == old(self).is_inclusive(),
            final(self).front() == old(self).front(),
            *final(self) == old(self).skip_back(n as nat),
            n <= old(self).remaining().len() ==> r is Ok && final(self).back() == old(
                self,
            ).back() - n && final(self).remaining() == old(self).remaining().take(
                old(self).remaining().len() - n,
            ),
            n > old(self).remaining().len() ==> r == Err::<(), usize>(
                (n - old(self).remaining().len()) as usize,
            ) && final(self).back() == old(self).front(),
    {
        let left = self.hi - self.lo;
        if n <= left {
            self.hi = self.hi - n;
            proof {
                assert(self.remaining() =~= old(self).remaining().take(
                    old(self).remaining().len() - n,
                ));
            }
            Ok(())
        } else {
            self.hi = self.lo;
            Err(n - left)
        }
    }

    /// All values still to come, first to last.
    pub fn collect_vec(self) -> (r: Vec<I::Item>)
        requires
            self.wf(),
        ensures
            r@ == self.remaining(),
    {
        let mut s = self;
        let mut out: Vec<I::Item> = Vec::new();
        while s.lo < s.hi
            invariant
                s.wf(),
                out@ + s.remaining() == self.remaining(),
            decreases s.hi - s.lo,
        {
            let ghost before = s;
            match s.next() {
                Some(v) => {
                    out.push(v);
                    proof {
                        assert(out@ + s.remaining() =~= self.remaining()) by {
                            assert(before.remaining() =~= seq![v] + s.remaining());
                        }
                    }
                },
                None => {},
            }
        }
        proof {
            assert(s.remaining().len() == 0);
            assert(out@ =~= self.remaining());
        }
        out
    }

    /// All values still to come, last to first.
    pub fn collect_rev_vec(self) -> (r: Vec<I::Item>)
        requires
            self.wf(),
        ensures
            r@ == self.remaining().reverse(),
    {
        let mut s = self;
        let mut out: Vec<I::Item> = Vec::new();
        while s.lo < s.hi
            invariant
                s.wf(),
                out@ + s.remaining().reverse() == self.remaining().reverse(),
            decreases s.hi - s.lo,
        {
            let ghost before = s;
            match s.next_back() {
                Some(v) => {
                    out.push(v);
                    proof {
                        assert(before.remaining() =~= s.remaining().push(v));
                        assert(before.remaining().reverse() =~= seq![v] + s.remaining().reverse());
                        assert(out@ + s.remaining().reverse() =~= self.remaining().reverse());
                    }
                },
                None => {},
            }
        }
        proof {
            assert(s.remaining().reverse() =~= Seq::<I::Item>::empty());
            assert(out@ =~= self.remaining().reverse());
        }
        out
    }

    /// The number of values still to come, consuming the space.
    pub fn count(self) -> (r: usize)
        requires
            self.wf(),
        ensures
            r == self.remaining().len(),
    {
        self.hi - self.lo
    }

    /// The last value still to come, consuming the space.
    pub fn last(self) -> (r: Option<I::Item>)
        requires
            self.wf(),
        ensures
            self.remaining().len() == 0 ==> r is None,
            self.remaining().len() > 0 ==> (r matches Some(v) && v == self.remaining().last()),
    {
        if self.lo < self.hi {
            Some(self.interpolate.interpolate(self.hi - 1))
        } else {
            None
        }
    }
}

/// Collects `space` from the front and from the back; the second collection
/// is reversed, so both list the values first to last.
pub fn check_double_ended_iter<I: Interpolate + Copy>(space: Space<I>) -> (r: (Vec<I::Item>, Vec<I::Item>))
    requires
        space.wf(),
    ensures
        r.0@ == space.remaining(),
        r.1@ == space.remaining(),
{
    let forward = space.collect_vec();
    let mut backward = space.collect_rev_vec();
    let mut reversed: Vec<I::Item> = Vec::new();
    while backward.len() > 0
        invariant
            backward@ + reversed@.reverse() == space.remaining().reverse(),
        decreases backward.len(),
    {
        let ghost before = backward@;
        let ghost done = reversed@;
        match backward.pop() {
            Some(v) => {
                reversed.push(v);
                proof {
                    assert(before =~= backward@.push(v));
                    assert(reversed@.reverse() =~= seq![v] + done.reverse());
                    assert(backward@ + reversed@.reverse() =~= space.remaining().reverse());
                }
            },
            None => {},
        }
    }
    proof {
        assert(reversed@.reverse() =~= space.remaining().reverse());
        assert(reversed@ =~= reversed@.reverse().reverse());
        assert(space.remaining().reverse().reverse() =~= space.remaining());
    }
    (forward, reversed)
}

/// Taking a value from either end keeps the space well formed and its
/// strategy, and drops that value from the values still to come.
pub proof fn lemma_take_one<I: Interpolate>(s: Space<I>)
    requires
        s.wf(),
    ensures
        s.take_front().wf(),
        s.take_back().wf(),
        s.take_front().strategy() == s.strategy(),
        s.take_back().strategy() == s.strategy(),
        s.take_front().is_inclusive() == s.is_inclusive(),
        s.take_back().is_inclusive() == s.is_inclusive(),
        s.remaining().len() > 0 ==> s.take_front().remaining() == s.remaining().drop_first(),
        s.remaining().len() > 0 ==> s.take_back().remaining() == s.remaining().drop_last(),
        s.remaining().len() == 0 ==> s.take_front() == s && s.take_back() == s,
{
    if s.remaining().len() > 0 {
        assert(s.take_front().remaining() =~= s.remaining().drop_first());
        assert(s.take_back().remaining() =~= s.remaining().drop_last());
    }
}

/// Each `next` or `next_back` leaves exactly one value fewer, and as many
/// calls of `next` as there are values exhaust the space.
pub proof fn law_length_counts_down<I: Interpolate>(s: Space<I>, n: nat)
    requires
        s.wf(),
    ensures
        s.remaining().len() > 0 ==> s.take_front().remaining().len() == s.remaining().len() - 1,
        s.remaining().len() > 0 ==> s.take_back().remaining().len() == s.remaining().len() - 1,
        s.take_front_times(n).wf(),
        s.take_front_times(n).remaining().len() == if n <= s.remaining().len() {
            s.remaining().len() - n
        } else {
            0
        },
    decreases n,
{
    lemma_take_one(s);
    if n > 0 {
        law_length_counts_down(s.take_front(), (n - 1) as nat);
    }
}

/// Collecting from the front yields the values still to come; collecting
/// from the back yields the same values in reverse.
pub proof fn law_reversible<I: Interpolate>(s: Space<I>, n: nat)
    requires
        s.wf(),
        n >= s.remaining().len(),
    ensures
        s.forward_values(n) == s.remaining(),
        s.backward_values(n) == s.remaining().reverse(),
        s.forward_values(n) == s.backward_values(n).reverse(),
    decreases n,
{
    lemma_take_one(s);
    if n > 0 && s.remaining().len() > 0 {
        law_reversible(s.take_front(), (n - 1) as nat);
        law_reversible(s.take_back(), (n - 1) as nat);
        assert(s.forward_values(n) =~= s.remaining());
        assert(s.backward_values(n) =~= s.remaining().reverse());
    } else {
        assert(s.remaining().reverse() =~= Seq::<I::Item>::empty());
    }
    assert(s.remaining().reverse().reverse() =~= s.remaining());
}

/// Skipping `k` values at once leaves the space where `k` calls of `next`
/// (or of `next_back`) leave it. So `nth(k)` produces what the last of `k + 1`
/// calls of `next` produces, and once past the end both exhaust the space.
pub proof fn law_skip_consistency<I: Interpolate>(s: Space<I>, k: nat)
    requires
        s.wf(),
    ensures
        s.skip_front(k) == s.take_front_times(k),
        s.skip_back(k) == s.take_back_times(k),
        s.skip_front(k).first_value() == s.take_front_times(k).first_value(),
        s.skip_back(k).last_value() == s.take_back_times(k).last_value(),
        k >= s.remaining().len() ==> s.skip_front(k).remaining().len() == 0,
        k >= s.remaining().len() ==> s.skip_back(k).remaining().len() == 0,
    decreases k,
{
    lemma_take_one(s);
    if k > 0 {
        law_skip_consistency(s.take_front(), (k - 1) as nat);
        law_skip_consistency(s.take_back(), (k - 1) as nat);
    }
}

/// Taking values from either end never changes the strategy, so
/// `interpolate` yields the same value at an index before and after.
pub proof fn law_interpolation_stable<I: Interpolate>(s: Space<I>, n: nat, x: int)
    ensures
        s.take_front_times(n).strategy() == s.strategy(),
        s.take_back_times(n).strategy() == s.strategy(),
        s.take_back_times(n).strategy().value_at(x) == s.strategy().value_at(x),
        s.take_front_times(n).strategy().value_at(x) == s.strategy().value_at(x),
    decreases n,
{
    if n > 0 {
        law_interpolation_stable(s.take_front(), (n - 1) as nat, x);
        law_interpolation_stable(s.take_back(), (n - 1) as nat, x);
    }
}

} // verus!
