//! Linear interpolation as a function object over step indices.
use vstd::prelude::*;
use crate::map::Function;
use crate::numeric::{div_toward_zero, Numeric};

verus! {

/// Maps `x` to `start + x / steps * len`, where `len` is the span of the range.
#[derive(Clone, Copy)]
pub struct LinSpaceFn<T> {
    start: T,
    len: T,
    steps: T,
}

impl<T: Numeric> LinSpaceFn<T> {
    pub closed spec fn start(&self) -> T {
        self.start
    }

    pub closed spec fn len(&self) -> T {
        self.len
    }

    pub closed spec fn steps(&self) -> T {
        self.steps
    }

    /// The value at `x`, as an integer.
    pub open spec fn value_at(&self, x: int) -> int {
        self.start().model() + div_toward_zero(x, self.steps().model()) * self.len().model()
    }

    /// The interpolation over `range` in `steps` steps.
    pub fn new(range: core::ops::RangeInclusive<T>, steps: usize) -> (r: Self)
        requires
            T::fits(range@.end.model() - range@.start.model()),
            T::fits(steps as int),
        ensures
            r.start() == range@.start,
            r.len().model() == range@.end.model() - range@.start.model(),
            r.steps().model() == steps,
    {
        let (start, end) = range.into_inner();
        let steps = match T::from_index(steps) {
            Some(s) => s,
            None => start,
        };
        LinSpaceFn { start, len: end.sub(start), steps }
    }
}

impl<T: Numeric> Function<usize> for LinSpaceFn<T> {
    type Output = T;

    open spec fn call_requires(&self, x: usize) -> bool {
        let q = div_toward_zero(x as int, self.steps().model());
        &&& self.steps().model() != 0
        &&& T::fits(x as int)
        &&& T::fits(q)
        &&& T::fits(q * self.len().model())
        &&& T::fits(self.value_at(x as int))
    }

    open spec fn call_ensures(&self, x: usize, r: T) -> bool {
        r.model() == self.value_at(x as int)
    }

    fn call(&self, x: usize) -> (r: T) {
        let i = match T::from_index(x) {
            Some(i) => i,
            None => self.start,
        };
        self.start.add(i.div(self.steps).mul(self.len))
    }
}

} // verus!
