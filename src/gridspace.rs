//! Linear spaces on several axes at once, iterated as one grid.
use vstd::prelude::*;
use crate::grid::{axis_lengths, grid_from_axes, steps_product, Axis, GridInterpolation};
use crate::linspace::{lin_intervals, lin_space_ok, spec_lin_interpolation, LinearInterpolation, ToLinSpace};
use crate::numeric::Numeric;
use crate::space::{Interpolate, IntoSpace, Space};

verus! {

/// The strategy of a grid of linear spaces.
pub type GridSpaceInterpolation<T, const N: usize> = GridInterpolation<LinearInterpolation<T>, N>;

/// A number of steps for each of `N` axes: one count for all of them, or one
/// count per axis.
pub trait AxisSteps<const N: usize>: Sized {
    /// The count for each axis.
    spec fn per_axis_spec(&self) -> Seq<usize>;

    fn per_axis(self) -> (r: [usize; N])
        ensures
            r@ == self.per_axis_spec(),
    ;
}

impl<const N: usize> AxisSteps<N> for usize {
    open spec fn per_axis_spec(&self) -> Seq<usize> {
        Seq::new(N as nat, |k: int| *self)
    }

    fn per_axis(self) -> (r: [usize; N]) {
        let r = [self; N];
        proof {
            assert(r@ =~= Seq::new(N as nat, |k: int| self));
        }
        r
    }
}

impl<const N: usize> AxisSteps<N> for [usize; N] {
    open spec fn per_axis_spec(&self) -> Seq<usize> {
        self@
    }

    fn per_axis(self) -> (r: [usize; N]) {
        self
    }
}

/// What a grid of linear spaces needs: at least one axis, at least one value
/// on each, a representable span and interval count on each, and a number of
/// points that fits in `usize`.
pub open spec fn grid_space_ok<T: Numeric>(
    starts: Seq<T>,
    ends: Seq<T>,
    steps: Seq<usize>,
    inclusive: bool,
) -> bool {
    &&& steps.len() >= 1
    &&& starts.len() == steps.len()
    &&& ends.len() == steps.len()
    &&& forall|k: int|
        0 <= k < steps.len() ==> #[trigger] steps[k] >= 1 && lin_space_ok(
            starts[k],
            ends[k],
            lin_intervals(steps[k] as int, inclusive),
        )
    &&& steps_product(steps, steps.len() as int) <= usize::MAX
}

/// `space` is the grid of the linear spaces with `steps[k]` values over
/// `starts[k]` to `ends[k]`.
pub open spec fn is_linear_grid<T: Numeric, const N: usize>(
    space: IntoSpace<GridSpaceInterpolation<T, N>>,
    starts: Seq<T>,
    ends: Seq<T>,
    steps: Seq<usize>,
    inclusive: bool,
) -> bool {
    &&& space.wf()
    &&& space.strategy().axes_wf()
    &&& space.front() == 0
    &&& space.back() == steps_product(steps, N as int)
    &&& space.back() == space.strategy().size()
    &&& space.back() >= 1
    &&& space.is_inclusive() == inclusive
    &&& forall|k: int|
        0 <= k < N ==> {
            &&& (#[trigger] space.strategy().axes@[k]).interpolate == spec_lin_interpolation(
                starts[k],
                ends[k],
                lin_intervals(steps[k] as int, inclusive),
            )
            &&& space.strategy().axes@[k].len() == steps[k]
        }
    &&& !inclusive ==> space.strategy().end_defined_at(space.back())
}

/// The axes of a grid of linear spaces.
fn linear_axes<T: Numeric, const N: usize>(
    starts: [T; N],
    ends: [T; N],
    steps: [usize; N],
    inclusive: bool,
) -> (r: [Axis<LinearInterpolation<T>>; N])
    requires
        grid_space_ok(starts@, ends@, steps@, inclusive),
    ensures
        forall|k: int|
            0 <= k < N ==> linear_axis_ok(starts@, ends@, steps@, inclusive, k, #[trigger] r@[k]),
{
    // The first axis fills the array; the loop then sets every entry.
    let first = linear_axis(starts[0], ends[0], steps[0], inclusive);
    let mut r = [first; N];
    let mut k: usize = 0;
    while k < N
        invariant
            grid_space_ok(starts@, ends@, steps@, inclusive),
            0 <= k <= N,
            r@.len() == N,
            forall|j: int|
                0 <= j < k ==> linear_axis_ok(starts@, ends@, steps@, inclusive, j, #[trigger] r@[j]),
        decreases N - k,
    {
        r[k] = linear_axis(starts[k], ends[k], steps[k], inclusive);
        k = k + 1;
    }
    r
}

/// `a` is axis `k` of the grid of linear spaces with `steps[k]` values over
/// `starts[k]` to `ends[k]`.
pub open spec fn linear_axis_ok<T: Numeric>(
    starts: Seq<T>,
    ends: Seq<T>,
    steps: Seq<usize>,
    inclusive: bool,
    k: int,
    a: Axis<LinearInterpolation<T>>,
) -> bool {
    &&& a.wf()
    &&& a.interpolate == spec_lin_interpolation(
        starts[k],
        ends[k],
        lin_intervals(steps[k] as int, inclusive),
    )
    &&& a.len() == steps[k]
    &&& !inclusive ==> a.interpolate.end_defined_at(a.len())
}

/// One axis of a grid of linear spaces.
fn linear_axis<T: Numeric>(start: T, end: T, steps: usize, inclusive: bool) -> (r: Axis<LinearInterpolation<T>>)
    requires
        steps >= 1,
        lin_space_ok(start, end, lin_intervals(steps as int, inclusive)),
    ensures
        r.wf(),
        r.interpolate == spec_lin_interpolation(start, end, lin_intervals(steps as int, inclusive)),
        r.len() == steps,
        !inclusive ==> r.interpolate.end_defined_at(r.len()),
{
    if inclusive {
        Axis::new((start..=end).into_lin_space(steps))
    } else {
        Axis::new((start..end).into_lin_space(steps))
    }
}

/// A range of points that a grid of linear spaces can be built over.
pub trait ToGridSpace<S: AxisSteps<N>, const N: usize>: Sized {
    type Item: Numeric;

    /// The first point, one coordinate per axis.
    spec fn grid_start(&self) -> Seq<Self::Item>;

    /// The end point, one coordinate per axis.
    spec fn grid_end(&self) -> Seq<Self::Item>;

    /// Whether the range includes its end.
    spec fn includes_end() -> bool;

    fn into_grid_space(self, steps: S) -> (r: IntoSpace<GridSpaceInterpolation<Self::Item, N>>)
        requires
            grid_space_ok(self.grid_start(), self.grid_end(), steps.per_axis_spec(), Self::includes_end()),
        ensures
            is_linear_grid(r, self.grid_start(), self.grid_end(), steps.per_axis_spec(), Self::includes_end()),
    ;
}

impl<T: Numeric, S: AxisSteps<N>, const N: usize> ToGridSpace<S, N> for core::ops::Range<[T; N]> {
    type Item = T;

    open spec fn grid_start(&self) -> Seq<T> {
        self.start@
    }

    open spec fn grid_end(&self) -> Seq<T> {
        self.end@
    }

    open spec fn includes_end() -> bool {
        false
    }

    fn into_grid_space(self, steps: S) -> (r: IntoSpace<GridSpaceInterpolation<T, N>>) {
        let steps = steps.per_axis();
        let axes = linear_axes(self.start, self.end, steps, false);
        proof {
            assert(axis_lengths(axes@) =~= steps@);
        }
        grid_from_axes(axes, false)
    }
}

impl<T: Numeric, S: AxisSteps<N>, const N: usize> ToGridSpace<S, N> for core::ops::RangeInclusive<[T; N]> {
    type Item = T;

    open spec fn grid_start(&self) -> Seq<T> {
        self@.start@
    }

    open spec fn grid_end(&self) -> Seq<T> {
        self@.end@
    }

    open spec fn includes_end() -> bool {
        true
    }

    fn into_grid_space(self, steps: S) -> (r: IntoSpace<GridSpaceInterpolation<T, N>>) {
        let (start, end) = self.into_inner();
        let steps = steps.per_axis();
        let axes = linear_axes(start, end, steps, true);
        proof {
            assert(axis_lengths(axes@) =~= steps@);
        }
        grid_from_axes(axes, true)
    }
}

/// Creates a grid of linear spaces over `range`, with `steps` values on each
/// axis (one count for all, or one per axis). Axis 0 varies fastest.
pub fn grid_space<R: ToGridSpace<S, N>, S: AxisSteps<N>, const N: usize>(range: R, steps: S) -> (r:
    Space<GridSpaceInterpolation<R::Item, N>>)
    requires
        grid_space_ok(range.grid_start(), range.grid_end(), steps.per_axis_spec(), R::includes_end()),
    ensures
        r.wf(),
        r.strategy().axes_wf(),
        r.front() == 0,
        r.back() == steps_product(steps.per_axis_spec(), N as int),
        r.is_inclusive() == R::includes_end(),
        forall|k: int|
            0 <= k < N ==> {
                &&& (#[trigger] r.strategy().axes@[k]).interpolate == spec_lin_interpolation(
                    range.grid_start()[k],
                    range.grid_end()[k],
                    lin_intervals(steps.per_axis_spec()[k] as int, R::includes_end()),
                )
                &&& r.strategy().axes@[k].len() == steps.per_axis_spec()[k]
            },
        r.bounds_defined(),
{
    range.into_grid_space(steps).into_space()
}

} // verus!
