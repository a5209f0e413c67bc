//! Grids over steppable types: every point between two corners, one
//! successor step apart on each axis.
use vstd::prelude::*;
use crate::grid::{axis_lengths, grid_from_axes, steps_product, Axis, GridInterpolation};
use crate::space::{Interpolate, IntoSpace, Space};
use crate::step::Step;

verus! {

/// The value at index `x` is the value `x` successor steps after `start`.
#[derive(Clone, Copy)]
pub struct StepFrom<T> {
    pub start: T,
}

impl<T: Step> Interpolate for StepFrom<T> {
    type Item = T;

    open spec fn defined_at(&self, x: int) -> bool {
        &&& 0 <= x <= usize::MAX
        &&& T::spec_forward(self.start, x) is Some
    }

    open spec fn value_at(&self, x: int) -> T {
        T::spec_forward(self.start, x)->0
    }

    open spec fn end_defined_at(&self, x: int) -> bool {
        self.defined_at(x)
    }

    open spec fn end_value_at(&self, x: int) -> T {
        T::spec_forward(self.start, x)->0
    }

    fn interpolate(&self, x: usize) -> (r: T) {
        match T::forward(self.start, x) {
            Some(v) => v,
            None => self.start,
        }
    }

    fn interpolate_exclusive_end(&self, x: usize) -> (r: T) {
        self.interpolate(x)
    }
}

/// The strategy of a grid over a steppable type.
pub type GridStepInterpolation<T, const N: usize> = GridInterpolation<StepFrom<T>, N>;

/// The number of values from `start` to `end` on one axis: the steps between
/// them, plus one where the end is included.
pub open spec fn axis_count<T: Step>(start: T, end: T, inclusive: bool) -> int {
    let n = T::spec_steps_between(start, end)->0 as int;
    if inclusive {
        n + 1
    } else {
        n
    }
}

/// The number of values on each axis.
pub open spec fn step_lengths<T: Step>(starts: Seq<T>, ends: Seq<T>, inclusive: bool) -> Seq<usize> {
    Seq::new(starts.len(), |k: int| axis_count(starts[k], ends[k], inclusive) as usize)
}

/// What a grid over a steppable type needs: at least one axis, each end
/// reachable from its start, at least one value on each axis, and a number
/// of points that fits in `usize`.
pub open spec fn grid_step_ok<T: Step>(starts: Seq<T>, ends: Seq<T>, inclusive: bool) -> bool {
    &&& starts.len() >= 1
    &&& ends.len() == starts.len()
    &&& forall|k: int|
        0 <= k < starts.len() ==> {
            &&& (#[trigger] T::spec_steps_between(starts[k], ends[k])) is Some
            &&& 1 <= axis_count(starts[k], ends[k], inclusive) <= usize::MAX
        }
    &&& steps_product(step_lengths(starts, ends, inclusive), starts.len() as int) <= usize::MAX
}

/// `a` is axis `k` of the grid from `starts` to `ends`.
pub open spec fn step_axis_ok<T: Step>(
    starts: Seq<T>,
    ends: Seq<T>,
    inclusive: bool,
    k: int,
    a: Axis<StepFrom<T>>,
) -> bool {
    &&& a.wf()
    &&& a.interpolate == (StepFrom { start: starts[k] })
    &&& a.len() == axis_count(starts[k], ends[k], inclusive)
    &&& !inclusive ==> a.interpolate.end_defined_at(a.len())
}

/// One axis of a grid over a steppable type.
fn step_axis<T: Step>(start: T, end: T, inclusive: bool) -> (r: Axis<StepFrom<T>>)
    requires
        T::spec_steps_between(start, end) is Some,
        1 <= axis_count(start, end, inclusive) <= usize::MAX,
    ensures
        r.wf(),
        r.interpolate == (StepFrom { start }),
        r.len() == axis_count(start, end, inclusive),
        !inclusive ==> r.interpolate.end_defined_at(r.len()),
{
    let n = match T::steps_between(&start, &end) {
        Some(n) => n,
        None => 0,
    };
    let len = if inclusive {
        n + 1
    } else {
        n
    };
    let strategy = StepFrom { start };
    proof {
        assert forall|x: int| 0 <= x <= n implies strategy.defined_at(x) by {
            T::lemma_forward_within(start, end, x);
        }
    }
    Axis::new(IntoSpace::new(strategy, 0..len))
}

/// The axes of a grid over a steppable type.
fn step_axes<T: Step, const N: usize>(starts: [T; N], ends: [T; N], inclusive: bool) -> (r: [Axis<StepFrom<T>>; N])
    requires
        grid_step_ok(starts@, ends@, inclusive),
    ensures
        forall|k: int| 0 <= k < N ==> step_axis_ok(starts@, ends@, inclusive, k, #[trigger] r@[k]),
{
    proof {
        assert(T::spec_steps_between(starts@[0], ends@[0]) is Some);
    }
    let first = step_axis(starts[0], ends[0], inclusive);
    // The first axis fills the array; the loop then sets every entry.
    let mut r = [first; N];
    let mut k: usize = 0;
    while k < N
        invariant
            grid_step_ok(starts@, ends@, inclusive),
            0 <= k <= N,
            r@.len() == N,
            forall|j: int| 0 <= j < k ==> step_axis_ok(starts@, ends@, inclusive, j, #[trigger] r@[j]),
        decreases N - k,
    {
        proof {
            assert(T::spec_steps_between(starts@[k as int], ends@[k as int]) is Some);
        }
        r[k] = step_axis(starts[k], ends[k], inclusive);
        k = k + 1;
    }
    r
}

/// A range of points that a grid over a steppable type can be built over.
pub trait ToGridStep<const N: usize>: Sized {
    type Item: Step;

    /// The first point, one coordinate per axis.
    spec fn grid_start(&self) -> Seq<Self::Item>;

    /// The end point, one coordinate per axis.
    spec fn grid_end(&self) -> Seq<Self::Item>;

    /// Whether the range includes its end.
    spec fn includes_end() -> bool;

    fn into_grid_step(self) -> (r: IntoSpace<GridStepInterpolation<Self::Item, N>>)
        requires
            grid_step_ok(self.grid_start(), self.grid_end(), Self::includes_end()),
        ensures
            r.wf(),
            r.strategy().axes_wf(),
            r.front() == 0,
            r.back() == r.strategy().size(),
            r.back() >= 1,
            r.back() == steps_product(
                step_lengths(self.grid_start(), self.grid_end(), Self::includes_end()),
                N as int,
            ),
            r.is_inclusive() == Self::includes_end(),
            !Self::includes_end() ==> r.strategy().end_defined_at(r.back()),
            forall|k: int|
                0 <= k < N ==> step_axis_ok(
                    self.grid_start(),
                    self.grid_end(),
                    Self::includes_end(),
                    k,
                    #[trigger] r.strategy().axes@[k],
                ),
    ;
}

impl<T: Step, const N: usize> ToGridStep<N> for core::ops::Range<[T; N]> {
    type Item = T;

    open spec fn grid_start(&self) -> Seq<T> {
        self.start@
    }

    open spec fn grid_end(&self) -> Seq<T> {
        self.end@
    }

    open spec fn includes_end() -> bool {
        false
    }

    fn into_grid_step(self) -> (r: IntoSpace<GridStepInterpolation<T, N>>) {
        let axes = step_axes(self.start, self.end, false);
        proof {
            assert(axis_lengths(axes@) =~= step_lengths(self.start@, self.end@, false));
        }
        grid_from_axes(axes, false)
    }
}

impl<T: Step, const N: usize> ToGridStep<N> for core::ops::RangeInclusive<[T; N]> {
    type Item = T;

    open spec fn grid_start(&self) -> Seq<T> {
        self@.start@
    }

    open spec fn grid_end(&self) -> Seq<T> {
        self@.end@
    }

    open spec fn includes_end() -> bool {
        true
    }

    fn into_grid_step(self) -> (r: IntoSpace<GridStepInterpolation<T, N>>) {
        let (start, end) = self.into_inner();
        let axes = step_axes(start, end, true);
        proof {
            assert(axis_lengths(axes@) =~= step_lengths(start@, end@, true));
        }
        grid_from_axes(axes, true)
    }
}

/// Creates the grid of every point between the corners of `range`, one step
/// apart on each axis. Axis 0 varies fastest.
pub fn grid_step<R: ToGridStep<N>, const N: usize>(range: R) -> (r: Space<GridStepInterpolation<R::Item, N>>)
    requires
        grid_step_ok(range.grid_start(), range.grid_end(), R::includes_end()),
    ensures
        r.wf(),
        r.strategy().axes_wf(),
        r.front() == 0,
        r.back() == steps_product(
            step_lengths(range.grid_start(), range.grid_end(), R::includes_end()),
            N as int,
        ),
        r.is_inclusive() == R::includes_end(),
        r.bounds_defined(),
        forall|k: int|
            0 <= k < N ==> step_axis_ok(
                range.grid_start(),
                range.grid_end(),
                R::includes_end(),
                k,
                #[trigger] r.strategy().axes@[k],
            ),
{
    range.into_grid_step().into_space()
}

} // verus!
