//! Flattens nested pairs: `((a, b), c)` into `(a, b, c)`, and
//! `((a, b, c), d)` into `(a, b, c, d)`.
use vstd::prelude::*;
use vstd::std_specs::iter::IteratorSpec;
use crate::map::{Function, MapWith};

verus! {

/// The function object that flattens a nested tuple.
#[derive(Clone, Copy)]
pub struct CombineFn;

impl<A, B, C> Function<((A, B), C)> for CombineFn {
    type Output = (A, B, C);

    open spec fn call_requires(&self, x: ((A, B), C)) -> bool {
        true
    }

    open spec fn call_ensures(&self, x: ((A, B), C), r: (A, B, C)) -> bool {
        r == (x.0.0, x.0.1, x.1)
    }

    fn call(&self, x: ((A, B), C)) -> (r: (A, B, C)) {
        let ((a, b), c) = x;
        (a, b, c)
    }
}

impl<A, B, C, D> Function<((A, B, C), D)> for CombineFn {
    type Output = (A, B, C, D);

    open spec fn call_requires(&self, x: ((A, B, C), D)) -> bool {
        true
    }

    open spec fn call_ensures(&self, x: ((A, B, C), D), r: (A, B, C, D)) -> bool {
        r == (x.0.0, x.0.1, x.0.2, x.1)
    }

    fn call(&self, x: ((A, B, C), D)) -> (r: (A, B, C, D)) {
        let ((a, b, c), d) = x;
        (a, b, c, d)
    }
}

/// An iterator over flattened tuples.
pub type Combine<I> = MapWith<I, CombineFn>;

/// Flattens each nested tuple that `iter` yields.
pub fn combine<I: Iterator>(iter: I) -> (r: Combine<I>) where CombineFn: Function<I::Item>
    requires
        iter.obeys_prophetic_iter_laws(),
        forall|x: I::Item| #[trigger] CombineFn.call_requires(x),
    ensures
        r.wf(),
        r.inner() == iter,
{
    MapWith::new(iter, CombineFn)
}

} // verus!
