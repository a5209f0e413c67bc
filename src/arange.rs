//! Values from a start, a fixed step apart, up to an exclusive end.
//!
//! The number of values is derived: the span divided by the step, rounded up.
//! There is no inclusive form, since the end is in general not a value that
//! the steps ever meet.
use vstd::prelude::*;
use crate::grid::{axis_lengths, grid_from_axes, steps_product, Axis};
use crate::gridspace::GridSpaceInterpolation;
use crate::linspace::{linear_at, LinearInterpolation};
use crate::numeric::{div_ceil, div_toward_zero, Numeric};
use crate::space::{Interpolate, IntoSpace, Space};

verus! {

/// The number of values from `start` toward `end` taken `step` apart.
pub open spec fn arange_len(start: int, end: int, step: int) -> int {
    div_ceil(end - start, step)
}

/// What a fixed-step space needs: a non-zero step that points from the start
/// toward the end (or an empty span), and a count and an end value that are
/// representable.
pub open spec fn arange_ok<T: Numeric>(start: T, end: T, step: T) -> bool {
    let (s, e, d) = (start.model(), end.model(), step.model());
    let n = arange_len(s, e, d);
    &&& d != 0
    &&& (e == s || (e > s) == (d > 0))
    &&& T::fits(e - s)
    &&& n <= usize::MAX
    &&& T::fits(n)
    &&& T::fits(n * d)
    &&& T::fits(linear_at(s, d, n))
}

/// For a quotient that is not negative, the rounded-down quotient, its
/// product with the divisor and the rest.
proof fn lemma_same_sign_division(a: int, b: int)
    requires
        b != 0,
        a == 0 || (a > 0) == (b > 0),
    ensures
        div_toward_zero(a, b) >= 0,
        a >= 0 ==> 0 <= div_toward_zero(a, b) * b <= a,
        a < 0 ==> a <= div_toward_zero(a, b) * b <= 0,
        (a - div_toward_zero(a, b) * b == 0) == (div_ceil(a, b) == div_toward_zero(a, b)),
        a - div_toward_zero(a, b) * b != 0 ==> div_ceil(a, b) == div_toward_zero(a, b) + 1,
        div_toward_zero(a, b) <= div_ceil(a, b),
{
    let (m, d) = if b > 0 {
        (a, b)
    } else {
        (-a, -b)
    };
    let q = m / d;
    vstd::arithmetic::div_mod::lemma_fundamental_div_mod(m, d);
    vstd::arithmetic::div_mod::lemma_mod_pos_bound(m, d);
    vstd::arithmetic::div_mod::lemma_div_pos_is_pos(m, d);
    assert(div_toward_zero(a, b) == q);
    assert(0 <= q * d <= m) by (nonlinear_arith)
        requires
            m == d * q + m % d,
            0 <= m % d,
            q >= 0,
            d > 0,
    ;
    if b < 0 {
        assert(q * b == -(q * d)) by (nonlinear_arith)
            requires
                b == -d,
        ;
    }
}

/// Each multiple `x * step` with `0 <= x <= n` lies between zero and
/// `n * step`.
proof fn lemma_multiple_between(step: int, n: int, x: int)
    requires
        0 <= x <= n,
    ensures
        step >= 0 ==> 0 <= x * step <= n * step,
        step < 0 ==> n * step <= x * step <= 0,
{
    if step >= 0 {
        assert(0 <= x * step <= n * step) by (nonlinear_arith)
            requires
                0 <= x <= n,
                step >= 0,
        ;
    } else {
        assert(n * step <= x * step <= 0) by (nonlinear_arith)
            requires
                0 <= x <= n,
                step < 0,
        ;
    }
}

/// Every index up to the derived count can be computed.
proof fn lemma_arange_defined<T: Numeric>(start: T, end: T, step: T, x: int)
    requires
        arange_ok(start, end, step),
        0 <= x <= arange_len(start.model(), end.model(), step.model()),
    ensures
        (LinearInterpolation { start, step }).defined_at(x),
{
    let (s, e, d) = (start.model(), end.model(), step.model());
    let n = arange_len(s, e, d);
    T::lemma_model_fits(start);
    T::lemma_zero_fits();
    T::lemma_fits_between(0, x, n);
    lemma_multiple_between(d, n, x);
    if d >= 0 {
        T::lemma_fits_between(0, x * d, n * d);
        T::lemma_fits_between(s, s + x * d, s + n * d);
    } else {
        T::lemma_fits_between(n * d, x * d, 0);
        T::lemma_fits_between(s + n * d, s + x * d, s);
    }
}

/// The number of values from `start` toward `end` taken `step` apart.
fn arange_count<T: Numeric>(start: T, end: T, step: T) -> (r: usize)
    requires
        arange_ok(start, end, step),
    ensures
        r == arange_len(start.model(), end.model(), step.model()),
{
    let ghost (s, e, d) = (start.model(), end.model(), step.model());
    let span = end.sub(start);
    proof {
        lemma_same_sign_division(e - s, d);
        let q = div_toward_zero(e - s, d);
        T::lemma_zero_fits();
        if e - s >= 0 {
            T::lemma_fits_between(0, q * d, e - s);
        } else {
            T::lemma_fits_between(e - s, q * d, 0);
        }
        T::lemma_fits_between(0, q, arange_len(s, e, d));
    }
    let q = span.div(step);
    let whole = q.mul(step);
    proof {
        T::lemma_zero_fits();
        if e - s >= 0 {
            T::lemma_fits_between(0, e - s - q.model() * d, e - s);
        } else {
            T::lemma_fits_between(e - s, e - s - q.model() * d, 0);
        }
    }
    let rest = span.sub(whole);
    let n = if rest.is_zero() {
        q
    } else {
        proof {
            T::lemma_fits_between(0, 1, arange_len(s, e, d));
        }
        match T::from_index(1) {
            Some(one) => q.add(one),
            None => q,
        }
    };
    match n.to_index() {
        Some(n) => n,
        None => 0,
    }
}

/// A range that a fixed-step space can be built over, with a step of type `S`.
pub trait ToArange<S>: Sized {
    type Item: Numeric;

    /// Whether the range and the step can make a space.
    spec fn arange_ok(&self, step: S) -> bool;

    /// The strategy of the space.
    spec fn arange_strategy(&self, step: S) -> LinearInterpolation<Self::Item>;

    /// The number of values of the space.
    spec fn arange_len(&self, step: S) -> int;

    fn into_arange(self, step: S) -> (r: IntoSpace<LinearInterpolation<Self::Item>>)
        requires
            self.arange_ok(step),
        ensures
            r.wf(),
            r.strategy() == self.arange_strategy(step),
            r.front() == 0,
            r.back() == self.arange_len(step),
            !r.is_inclusive(),
            r.strategy().end_defined_at(r.back()),
            r.strategy().defined_at(0),
    ;
}

impl<T: Numeric> ToArange<T> for core::ops::Range<T> {
    type Item = T;

    open spec fn arange_ok(&self, step: T) -> bool {
        arange_ok(self.start, self.end, step)
    }

    open spec fn arange_strategy(&self, step: T) -> LinearInterpolation<T> {
        LinearInterpolation { start: self.start, step }
    }

    open spec fn arange_len(&self, step: T) -> int {
        arange_len(self.start.model(), self.end.model(), step.model())
    }

    fn into_arange(self, step: T) -> (r: IntoSpace<LinearInterpolation<T>>) {
        let start = self.start;
        let n = arange_count(start, self.end, step);
        proof {
            assert forall|x: int| 0 <= x <= n implies (LinearInterpolation { start, step }).defined_at(x) by {
                lemma_arange_defined(start, self.end, step, x);
            }
        }
        IntoSpace::new(LinearInterpolation { start, step }, 0..n)
    }
}

/// Creates the values from the start of `range` toward its end, `step` apart:
/// `ceil((end - start) / step)` of them.
pub fn arange<R: ToArange<S>, S>(range: R, step: S) -> (r: Space<LinearInterpolation<R::Item>>)
    requires
        range.arange_ok(step),
    ensures
        r.wf(),
        r.strategy() == range.arange_strategy(step),
        r.front() == 0,
        r.back() == range.arange_len(step),
        r.remaining().len() == range.arange_len(step),
        !r.is_inclusive(),
        r.bounds_defined(),
{
    range.into_arange(step).into_space()
}

/// A step for each of `N` axes: one step for all of them, or one per axis.
pub trait AxisStep<T, const N: usize>: Sized {
    /// The step on each axis.
    spec fn per_axis_spec(&self) -> Seq<T>;

    fn per_axis(self) -> (r: [T; N])
        ensures
            r@ == self.per_axis_spec(),
    ;
}

impl<T: Numeric, const N: usize> AxisStep<T, N> for T {
    open spec fn per_axis_spec(&self) -> Seq<T> {
        Seq::new(N as nat, |k: int| *self)
    }

    fn per_axis(self) -> (r: [T; N]) {
        let r = [self; N];
        proof {
            assert(r@ =~= Seq::new(N as nat, |k: int| self));
        }
        r
    }
}

impl<T: Numeric, const N: usize> AxisStep<T, N> for [T; N] {
    open spec fn per_axis_spec(&self) -> Seq<T> {
        self@
    }

    fn per_axis(self) -> (r: [T; N]) {
        self
    }
}

/// The number of values on each axis of a fixed-step grid.
pub open spec fn arange_lengths<T: Numeric>(starts: Seq<T>, ends: Seq<T>, steps: Seq<T>) -> Seq<usize> {
    Seq::new(
        steps.len(),
        |k: int| arange_len(starts[k].model(), ends[k].model(), steps[k].model()) as usize,
    )
}

/// What a fixed-step grid needs: at least one axis, each one a fixed-step
/// space with at least one value, and a number of points that fits in
/// `usize`.
pub open spec fn arange_grid_ok<T: Numeric>(starts: Seq<T>, ends: Seq<T>, steps: Seq<T>) -> bool {
    &&& steps.len() >= 1
    &&& starts.len() == steps.len()
    &&& ends.len() == steps.len()
    &&& forall|k: int|
        0 <= k < steps.len() ==> #[trigger] arange_ok(starts[k], ends[k], steps[k]) && arange_len(
            starts[k].model(),
            ends[k].model(),
            steps[k].model(),
        ) >= 1
    &&& steps_product(arange_lengths(starts, ends, steps), steps.len() as int) <= usize::MAX
}

/// `a` is axis `k` of the fixed-step grid over `starts` to `ends`.
pub open spec fn arange_axis_ok<T: Numeric>(
    starts: Seq<T>,
    ends: Seq<T>,
    steps: Seq<T>,
    k: int,
    a: Axis<LinearInterpolation<T>>,
) -> bool {
    &&& a.wf()
    &&& a.interpolate == (LinearInterpolation { start: starts[k], step: steps[k] })
    &&& a.len() == arange_len(starts[k].model(), ends[k].model(), steps[k].model())
    &&& a.interpolate.end_defined_at(a.len())
}

/// The axes of a fixed-step grid.
fn arange_axes<T: Numeric, const N: usize>(starts: [T; N], ends: [T; N], steps: [T; N]) -> (r: [Axis<LinearInterpolation<T>>; N])
    requires
        arange_grid_ok(starts@, ends@, steps@),
    ensures
        forall|k: int| 0 <= k < N ==> arange_axis_ok(starts@, ends@, steps@, k, #[trigger] r@[k]),
{
    proof {
        assert(arange_ok(starts@[0], ends@[0], steps@[0]));
    }
    let first = Axis::new((starts[0]..ends[0]).into_arange(steps[0]));
    // The first axis fills the array; the loop then sets every entry.
    let mut r = [first; N];
    let mut k: usize = 0;
    while k < N
        invariant
            arange_grid_ok(starts@, ends@, steps@),
            0 <= k <= N,
            r@.len() == N,
            forall|j: int| 0 <= j < k ==> arange_axis_ok(starts@, ends@, steps@, j, #[trigger] r@[j]),
        decreases N - k,
    {
        proof {
            assert(arange_ok(starts@[k as int], ends@[k as int], steps@[k as int]));
        }
        r[k] = Axis::new((starts[k]..ends[k]).into_arange(steps[k]));
        k = k + 1;
    }
    r
}

/// A range of points that a fixed-step grid can be built over.
pub trait ToArangeGrid<S, const N: usize>: Sized {
    type Item: Numeric;

    /// The first point, one coordinate per axis.
    spec fn grid_start(&self) -> Seq<Self::Item>;

    /// The exclusive end point, one coordinate per axis.
    spec fn grid_end(&self) -> Seq<Self::Item>;

    /// The step on each axis.
    spec fn grid_steps(step: S) -> Seq<Self::Item>;

    fn into_arange_grid(self, step: S) -> (r: IntoSpace<GridSpaceInterpolation<Self::Item, N>>)
        requires
            arange_grid_ok(self.grid_start(), self.grid_end(), Self::grid_steps(step)),
        ensures
            r.wf(),
            r.strategy().axes_wf(),
            r.front() == 0,
            r.back() == r.strategy().size(),
            r.back() == steps_product(
                arange_lengths(self.grid_start(), self.grid_end(), Self::grid_steps(step)),
                N as int,
            ),
            !r.is_inclusive(),
            r.strategy().end_defined_at(r.back()),
            forall|k: int|
                0 <= k < N ==> arange_axis_ok(
                    self.grid_start(),
                    self.grid_end(),
                    Self::grid_steps(step),
                    k,
                    #[trigger] r.strategy().axes@[k],
                ),
    ;
}

impl<T: Numeric, S: AxisStep<T, N>, const N: usize> ToArangeGrid<S, N> for core::ops::Range<[T; N]> {
    type Item = T;

    open spec fn grid_start(&self) -> Seq<T> {
        self.start@
    }

    open spec fn grid_end(&self) -> Seq<T> {
        self.end@
    }

    open spec fn grid_steps(step: S) -> Seq<T> {
        step.per_axis_spec()
    }

    fn into_arange_grid(self, step: S) -> (r: IntoSpace<GridSpaceInterpolation<T, N>>) {
        let steps = step.per_axis();
        let axes = arange_axes(self.start, self.end, steps);
        proof {
            assert(axis_lengths(axes@) =~= arange_lengths(self.start@, self.end@, steps@));
        }
        grid_from_axes(axes, false)
    }
}

/// Creates a grid of fixed-step spaces over `range`, with one step for all
/// axes or one per axis. Axis 0 varies fastest.
pub fn arange_grid<R: ToArangeGrid<S, N>, S, const N: usize>(range: R, step: S) -> (r: Space<
    GridSpaceInterpolation<R::Item, N>,
>)
    requires
        arange_grid_ok(range.grid_start(), range.grid_end(), R::grid_steps(step)),
    ensures
        r.wf(),
        r.strategy().axes_wf(),
        r.front() == 0,
        r.back() == steps_product(
            arange_lengths(range.grid_start(), range.grid_end(), R::grid_steps(step)),
            N as int,
        ),
        !r.is_inclusive(),
        r.bounds_defined(),
        forall|k: int|
            0 <= k < N ==> arange_axis_ok(
                range.grid_start(),
                range.grid_end(),
                R::grid_steps(step),
                k,
                #[trigger] r.strategy().axes@[k],
            ),
{
    range.into_arange_grid(step).into_space()
}

} // verus!
