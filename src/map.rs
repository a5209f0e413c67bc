//! An iterator adapter that applies a function object to each item.
use vstd::prelude::*;
use vstd::std_specs::iter::IteratorSpec;

verus! {

/// A function from `T`, as a value: closures are function objects, and so
/// are named types that implement this trait by hand.
pub trait Function<T> {
    type Output;

    /// Whether the function may be called on `x`.
    spec fn call_requires(&self, x: T) -> bool;

    /// What holds of `r`, the result on `x`.
    spec fn call_ensures(&self, x: T, r: Self::Output) -> bool;

    fn call(&self, x: T) -> (r: Self::Output)
        requires
            self.call_requires(x),
        ensures
            self.call_ensures(x, r),
    ;
}

impl<F: Fn(T) -> O, T, O> Function<T> for F {
    type Output = O;

    open spec fn call_requires(&self, x: T) -> bool {
        self.requires((x,))
    }

    open spec fn call_ensures(&self, x: T, r: O) -> bool {
        self.ensures((x,), r)
    }

    fn call(&self, x: T) -> (r: O) {
        self(x)
    }
}

/// An iterator that applies `f` to each item of `i`.
#[derive(Clone, Copy)]
pub struct MapWith<I, F> {
    i: I,
    f: F,
}

impl<I: Iterator, F: Function<I::Item>> MapWith<I, F> {
    pub closed spec fn inner(&self) -> I {
        self.i
    }

    pub closed spec fn function(&self) -> F {
        self.f
    }

    /// The inner iterator follows its specification, and `f` may be called
    /// on every item.
    pub closed spec fn wf(&self) -> bool {
        &&& self.i.obeys_prophetic_iter_laws()
        &&& forall|x: I::Item| #[trigger] self.f.call_requires(x)
    }

    pub fn new(i: I, f: F) -> (r: Self)
        requires
            i.obeys_prophetic_iter_laws(),
            forall|x: I::Item| #[trigger] f.call_requires(x),
        ensures
            r.wf(),
            r.inner() == i,
            r.function() == f,
    {
        MapWith { i, f }
    }

    pub fn next(&mut self) -> (r: Option<F::Output>)
        requires
            old(self).wf(),
        ensures
            final(self).wf(),
            final(self).function() == old(self).function(),
            old(self).inner().remaining().len() == 0 ==> r is None,
            old(self).inner().remaining().len() > 0 ==> (r matches Some(v) && old(self).function().call_ensures(
                old(self).inner().remaining()[0],
                v,
            )),
            final(self).inner().remaining() == if old(self).inner().remaining().len() > 0 {
                old(self).inner().remaining().drop_first()
            } else {
                old(self).inner().remaining()
            },
    {
        match self.i.next() {
            Some(x) => Some(self.f.call(x)),
            None => None,
        }
    }

    /// Applies `f` to the last item.
    pub fn next_back(&mut self) -> (r: Option<F::Output>) where I: DoubleEndedIterator
        requires
            old(self).wf(),
        ensures
            final(self).wf(),
            final(self).function() == old(self).function(),
            old(self).inner().remaining().len() == 0 ==> r is None,
            old(self).inner().remaining().len() > 0 ==> (r matches Some(v) && old(self).function().call_ensures(
                old(self).inner().remaining().last(),
                v,
            )),
            final(self).inner().remaining() == if old(self).inner().remaining().len() > 0 {
                old(self).inner().remaining().drop_last()
            } else {
                old(self).inner().remaining()
            },
    {
        match self.i.next_back() {
            Some(x) => Some(self.f.call(x)),
            None => None,
        }
    }

    /// The number of items, consuming the iterator.
    pub fn count(self) -> (r: usize)
        requires
            self.wf(),
            self.inner().decrease() is Some,
            self.inner().remaining().len() <= usize::MAX,
        ensures
            r == self.inner().remaining().len(),
    {
        let mut it = self;
        let mut n: usize = 0;
        while n < usize::MAX
            invariant
                it.wf(),
                it.inner().decrease() is Some,
                n + it.inner().remaining().len() == self.inner().remaining().len(),
                self.inner().remaining().len() <= usize::MAX,
            decreases it.inner().decrease()->0,
        {
            match it.i.next() {
                Some(_) => {
                    n = n + 1;
                },
                None => {
                    return n;
                },
            }
        }
        n
    }

    /// The result of `f` on the last item, consuming the iterator.
    pub fn last(self) -> (r: Option<F::Output>)
        requires
            self.wf(),
            self.inner().decrease() is Some,
        ensures
            self.inner().remaining().len() == 0 ==> r is None,
            self.inner().remaining().len() > 0 ==> (r matches Some(v) && self.function().call_ensures(
                self.inner().remaining().last(),
                v,
            )),
    {
        let mut it = self;
        let mut last: Option<I::Item> = None;
        loop
            invariant
                it.wf(),
                it.inner().decrease() is Some,
                it.function() == self.function(),
                self.inner().remaining() == if last is Some {
                    self.inner().remaining().take(
                        self.inner().remaining().len() - it.inner().remaining().len(),
                    ) + it.inner().remaining()
                } else {
                    it.inner().remaining()
                },
                it.inner().remaining().len() <= self.inner().remaining().len(),
                last matches Some(x) ==> self.inner().remaining().len() > it.inner().remaining().len()
                    && x == self.inner().remaining()[self.inner().remaining().len() - it.inner().remaining().len() - 1],
                last is None ==> it.inner().remaining() == self.inner().remaining(),
            ensures
                it.wf(),
                it.function() == self.function(),
                it.inner().remaining().len() == 0,
                last matches Some(x) ==> self.inner().remaining().len() > 0
                    && x == self.inner().remaining().last(),
                last is None ==> self.inner().remaining().len() == 0,
            decreases it.inner().decrease()->0,
        {
            match it.i.next() {
                Some(x) => {
                    last = Some(x);
                },
                None => {
                    break;
                },
            }
        }
        match last {
            Some(x) => Some(it.f.call(x)),
            None => None,
        }
    }
}

} // verus!
