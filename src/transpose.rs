//! Turns a range of tuples into a tuple of ranges.
use vstd::prelude::*;
use core::ops::{Range, RangeInclusive};

verus! {

/// Converts a range of tuples, such as `Range<(A, B)>`, into a tuple of
/// ranges, such as `(Range<A>, Range<B>)`.
pub trait Transpose: Sized {
    type Output;

    /// Whether `r` holds, for each position, the range between that position
    /// of the start and of the end.
    spec fn transposes_to(&self, r: Self::Output) -> bool;

    fn transpose(self) -> (r: Self::Output)
        ensures
            self.transposes_to(r),
    ;
}

impl<A, B> Transpose for Range<(A, B)> {
    type Output = (Range<A>, Range<B>);

    open spec fn transposes_to(&self, r: (Range<A>, Range<B>)) -> bool {
        &&& r.0.start == self.start.0 && r.0.end == self.end.0
        &&& r.1.start == self.start.1 && r.1.end == self.end.1
    }

    fn transpose(self) -> (r: (Range<A>, Range<B>)) {
        let Range { start: (a0, a1), end: (b0, b1) } = self;
        (Range { start: a0, end: b0 }, Range { start: a1, end: b1 })
    }
}

impl<A, B, C> Transpose for Range<(A, B, C)> {
    type Output = (Range<A>, Range<B>, Range<C>);

    open spec fn transposes_to(&self, r: (Range<A>, Range<B>, Range<C>)) -> bool {
        &&& r.0.start == self.start.0 && r.0.end == self.end.0
        &&& r.1.start == self.start.1 && r.1.end == self.end.1
        &&& r.2.start == self.start.2 && r.2.end == self.end.2
    }

    fn transpose(self) -> (r: (Range<A>, Range<B>, Range<C>)) {
        let Range { start: (a0, a1, a2), end: (b0, b1, b2) } = self;
        (Range { start: a0, end: b0 }, Range { start: a1, end: b1 }, Range { start: a2, end: b2 })
    }
}

impl<A, B, C, D> Transpose for Range<(A, B, C, D)> {
    type Output = (Range<A>, Range<B>, Range<C>, Range<D>);

    open spec fn transposes_to(&self, r: (Range<A>, Range<B>, Range<C>, Range<D>)) -> bool {
        &&& r.0.start == self.start.0 && r.0.end == self.end.0
        &&& r.1.start == self.start.1 && r.1.end == self.end.1
        &&& r.2.start == self.start.2 && r.2.end == self.end.2
        &&& r.3.start == self.start.3 && r.3.end == self.end.3
    }

    fn transpose(self) -> (r: (Range<A>, Range<B>, Range<C>, Range<D>)) {
        let Range { start: (a0, a1, a2, a3), end: (b0, b1, b2, b3) } = self;
        (
            Range { start: a0, end: b0 },
            Range { start: a1, end: b1 },
            Range { start: a2, end: b2 },
            Range { start: a3, end: b3 },
        )
    }
}

impl<A, B> Transpose for RangeInclusive<(A, B)> {
    type Output = (RangeInclusive<A>, RangeInclusive<B>);

    open spec fn transposes_to(&self, r: (RangeInclusive<A>, RangeInclusive<B>)) -> bool {
        &&& r.0@.start == self@.start.0 && r.0@.end == self@.end.0 && !r.0@.exhausted
        &&& r.1@.start == self@.start.1 && r.1@.end == self@.end.1 && !r.1@.exhausted
    }

    fn transpose(self) -> (r: (RangeInclusive<A>, RangeInclusive<B>)) {
        let ((a0, a1), (b0, b1)) = self.into_inner();
        (RangeInclusive::new(a0, b0), RangeInclusive::new(a1, b1))
    }
}

impl<A, B, C> Transpose for RangeInclusive<(A, B, C)> {
    type Output = (RangeInclusive<A>, RangeInclusive<B>, RangeInclusive<C>);

    open spec fn transposes_to(&self, r: (RangeInclusive<A>, RangeInclusive<B>, RangeInclusive<C>)) -> bool {
        &&& r.0@.start == self@.start.0 && r.0@.end == self@.end.0 && !r.0@.exhausted
        &&& r.1@.start == self@.start.1 && r.1@.end == self@.end.1 && !r.1@.exhausted
        &&& r.2@.start == self@.start.2 && r.2@.end == self@.end.2 && !r.2@.exhausted
    }

    fn transpose(self) -> (r: (RangeInclusive<A>, RangeInclusive<B>, RangeInclusive<C>)) {
        let ((a0, a1, a2), (b0, b1, b2)) = self.into_inner();
        (RangeInclusive::new(a0, b0), RangeInclusive::new(a1, b1), RangeInclusive::new(a2, b2))
    }
}

impl<A, B, C, D> Transpose for RangeInclusive<(A, B, C, D)> {
    type Output = (RangeInclusive<A>, RangeInclusive<B>, RangeInclusive<C>, RangeInclusive<D>);

    open spec fn transposes_to(
        &self,
        r: (RangeInclusive<A>, RangeInclusive<B>, RangeInclusive<C>, RangeInclusive<D>),
    ) -> bool {
        &&& r.0@.start == self@.start.0 && r.0@.end == self@.end.0 && !r.0@.exhausted
        &&& r.1@.start == self@.start.1 && r.1@.end == self@.end.1 && !r.1@.exhausted
        &&& r.2@.start == self@.start.2 && r.2@.end == self@.end.2 && !r.2@.exhausted
        &&& r.3@.start == self@.start.3 && r.3@.end == self@.end.3 && !r.3@.exhausted
    }

    fn transpose(self) -> (r: (RangeInclusive<A>, RangeInclusive<B>, RangeInclusive<C>, RangeInclusive<D>)) {
        let ((a0, a1, a2, a3), (b0, b1, b2, b3)) = self.into_inner();
        (
            RangeInclusive::new(a0, b0),
            RangeInclusive::new(a1, b1),
            RangeInclusive::new(a2, b2),
            RangeInclusive::new(a3, b3),
        )
    }
}

} // verus!
