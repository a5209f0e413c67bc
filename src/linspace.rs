//! Evenly spaced values between two bounds, computed from the step index.
use vstd::prelude::*;
use crate::numeric::{div_toward_zero, Numeric};
use crate::space::{defined_between, values_between, Interpolate, IntoSpace, Space};

verus! {

/// The value at index `x` is `start + x * step`.
#[derive(Clone, Copy)]
pub struct LinearInterpolation<T> {
    pub start: T,
    pub step: T,
}

/// The step between neighbouring values when `intervals` intervals span
/// `start..end`; zero where there are no intervals.
pub open spec fn lin_step(start: int, end: int, intervals: int) -> int {
    if intervals == 0 {
        0
    } else {
        div_toward_zero(end - start, intervals)
    }
}

/// The value at index `x` of a linear interpolation, as an integer.
pub open spec fn linear_at(start: int, step: int, x: int) -> int {
    start + x * step
}

impl<T: Numeric> LinearInterpolation<T> {
    /// The value at index `x`.
    pub open spec fn point(&self, x: int) -> T {
        T::from_model(linear_at(self.start.model(), self.step.model(), x))
    }
}

impl<T: Numeric> Interpolate for LinearInterpolation<T> {
    type Item = T;

    open spec fn defined_at(&self, x: int) -> bool {
        &&& 0 <= x <= usize::MAX
        &&& T::fits(x)
        &&& T::fits(x * self.step.model())
        &&& T::fits(linear_at(self.start.model(), self.step.model(), x))
    }

    open spec fn value_at(&self, x: int) -> T {
        self.point(x)
    }

    open spec fn end_defined_at(&self, x: int) -> bool {
        self.defined_at(x)
    }

    open spec fn end_value_at(&self, x: int) -> T {
        self.point(x)
    }

    fn interpolate(&self, x: usize) -> (r: T) {
        let r = match T::from_index(x) {
            Some(i) => self.start.add(i.mul(self.step)),
            None => self.start,
        };
        proof {
            T::lemma_model_fits(r);
        }
        r
    }

    fn interpolate_exclusive_end(&self, x: usize) -> (r: T) {
        self.interpolate(x)
    }
}

/// Each multiple `x * (d / n)` with `0 <= x <= n` lies between zero and `d`.
pub proof fn lemma_scaled_step_between(d: int, n: int, x: int)
    requires
        n >= 1,
        0 <= x <= n,
    ensures
        d >= 0 ==> 0 <= x * div_toward_zero(d, n) <= d,
        d < 0 ==> d <= x * div_toward_zero(d, n) <= 0,
{
    let m = if d >= 0 {
        d
    } else {
        -d
    };
    let q = m / n;
    vstd::arithmetic::div_mod::lemma_fundamental_div_mod(m, n);
    vstd::arithmetic::div_mod::lemma_mod_pos_bound(m, n);
    vstd::arithmetic::div_mod::lemma_div_pos_is_pos(m, n);
    assert(0 <= x * q <= n * q) by (nonlinear_arith)
        requires
            0 <= x <= n,
            q >= 0,
    ;
    if d < 0 {
        assert(x * div_toward_zero(d, n) == -(x * q)) by (nonlinear_arith)
            requires
                div_toward_zero(d, n) == -q,
        ;
    }
}

/// Rounding toward zero: `n * (d / n)` falls short of `d` by less than `n`, and
/// reaches it exactly where `n` divides `d`.
proof fn lemma_division_rest(d: int, n: int)
    requires
        n >= 1,
    ensures
        d >= 0 ==> 0 <= d - n * div_toward_zero(d, n) < n,
        d < 0 ==> -n < d - n * div_toward_zero(d, n) <= 0,
        d % n == 0 ==> n * div_toward_zero(d, n) == d,
{
    let m = if d >= 0 {
        d
    } else {
        -d
    };
    vstd::arithmetic::div_mod::lemma_fundamental_div_mod(m, n);
    vstd::arithmetic::div_mod::lemma_mod_pos_bound(m, n);
    vstd::arithmetic::div_mod::lemma_fundamental_div_mod(d, n);
    vstd::arithmetic::div_mod::lemma_mod_bound(d, n);
    if d < 0 {
        assert(n * div_toward_zero(d, n) == -(n * (m / n))) by (nonlinear_arith)
            requires
                div_toward_zero(d, n) == -(m / n),
        ;
        if d % n == 0 {
            assert(m == (-(d / n)) * n + 0) by (nonlinear_arith)
                requires
                    d == n * (d / n) + d % n,
                    d % n == 0,
                    m == -d,
            ;
            vstd::arithmetic::div_mod::lemma_fundamental_div_mod_converse_mod(m, n, -(d / n), 0);
        }
    }
}

/// What a linear space needs of its bounds and step count: the span and the
/// number of intervals are representable. Every value then lies between the
/// bounds and is representable too.
pub open spec fn lin_space_ok<T: Numeric>(start: T, end: T, intervals: int) -> bool {
    &&& T::fits(end.model() - start.model())
    &&& T::fits(intervals)
}

/// The linear interpolation whose `intervals` intervals span `start..end`.
pub open spec fn spec_lin_interpolation<T: Numeric>(start: T, end: T, intervals: int) -> LinearInterpolation<T> {
    LinearInterpolation {
        start,
        step: T::from_model(lin_step(start.model(), end.model(), intervals)),
    }
}

/// Every index up to `intervals` of the interpolation over `start..end` can be
/// computed.
proof fn lemma_linear_defined<T: Numeric>(start: T, end: T, intervals: int, x: int)
    requires
        lin_space_ok(start, end, intervals),
        0 <= intervals <= usize::MAX,
        0 <= x <= intervals,
    ensures
        spec_lin_interpolation(start, end, intervals).defined_at(x),
        spec_lin_interpolation(start, end, intervals).step.model() == lin_step(
            start.model(),
            end.model(),
            intervals,
        ),
{
    let (s, e) = (start.model(), end.model());
    let d = e - s;
    T::lemma_model_fits(start);
    T::lemma_model_fits(end);
    T::lemma_zero_fits();
    T::lemma_fits_between(0, x, intervals);
    let q = lin_step(s, e, intervals);
    if intervals == 0 {
        T::lemma_from_model(0);
        assert(x * q == 0);
    } else {
        lemma_scaled_step_between(d, intervals, 1);
        lemma_scaled_step_between(d, intervals, x);
        if d >= 0 {
            T::lemma_fits_between(0, q, d);
            T::lemma_fits_between(0, x * q, d);
            T::lemma_fits_between(s, s + x * q, e);
        } else {
            T::lemma_fits_between(d, q, 0);
            T::lemma_fits_between(d, x * q, 0);
            T::lemma_fits_between(e, s + x * q, s);
        }
        T::lemma_from_model(q);
    }
}

/// The last of `steps` values of an inclusive linear space is its end where
/// the span splits evenly into `steps - 1` intervals; elsewhere rounding
/// leaves it less than `steps - 1` away from the end.
pub proof fn law_inclusive_end<T: Numeric>(start: T, end: T, steps: int)
    requires
        steps >= 2,
        steps - 1 <= usize::MAX,
        lin_space_ok(start, end, steps - 1),
    ensures
        (end.model() - start.model()) % (steps - 1) == 0 ==> spec_lin_interpolation(
            start,
            end,
            steps - 1,
        ).point(steps - 1) == end,
        -(steps - 1) < end.model() - spec_lin_interpolation(start, end, steps - 1).point(
            steps - 1,
        ).model() < steps - 1,
{
    let n = steps - 1;
    let li = spec_lin_interpolation(start, end, n);
    lemma_linear_defined(start, end, n, n);
    lemma_division_rest(end.model() - start.model(), n);
    T::lemma_from_model(linear_at(start.model(), li.step.model(), n));
    T::lemma_model_fits(end);
    assert(n * li.step.model() == li.step.model() * n) by (nonlinear_arith);
}

/// An exclusive linear space whose start and end differ never yields its
/// end; the index one past its last value stands for the end where the span
/// splits evenly into `steps` intervals.
pub proof fn law_exclusive_end<T: Numeric>(start: T, end: T, steps: int, k: int)
    requires
        1 <= steps <= usize::MAX,
        lin_space_ok(start, end, steps),
        start.model() != end.model(),
        0 <= k < steps,
    ensures
        spec_lin_interpolation(start, end, steps).point(k) != end,
        (end.model() - start.model()) % steps == 0 ==> spec_lin_interpolation(start, end, steps).point(
            steps,
        ) == end,
{
    let d = end.model() - start.model();
    let li = spec_lin_interpolation(start, end, steps);
    let q = li.step.model();
    lemma_linear_defined(start, end, steps, k);
    lemma_linear_defined(start, end, steps, steps);
    lemma_division_rest(d, steps);
    T::lemma_from_model(linear_at(start.model(), q, k));
    T::lemma_from_model(linear_at(start.model(), q, steps));
    T::lemma_model_fits(end);
    let m = if d >= 0 {
        d
    } else {
        -d
    };
    let a = if q >= 0 {
        q
    } else {
        -q
    };
    assert(a * steps <= m) by (nonlinear_arith)
        requires
            d >= 0 ==> 0 <= d - steps * q,
            d < 0 ==> d - steps * q <= 0,
            d >= 0 ==> q >= 0,
            d < 0 ==> q <= 0,
            m == if d >= 0 { d } else { -d },
            a == if q >= 0 { q } else { -q },
            steps >= 1,
    ;
    if q >= 0 {
        assert(d >= 0 ==> q >= 0);
    }
    assert(k * q != d) by (nonlinear_arith)
        requires
            a * steps <= m,
            m > 0,
            0 <= k < steps,
            m == if d >= 0 { d } else { -d },
            a == if q >= 0 { q } else { -q },
            d >= 0 ==> q >= 0,
            d < 0 ==> q <= 0,
    ;
    assert(steps * q == q * steps) by (nonlinear_arith);
}

/// The step of the linear space with `intervals` intervals over `start..end`.
fn linear_step<T: Numeric>(start: T, end: T, intervals: usize) -> (r: T)
    requires
        lin_space_ok(start, end, intervals as int),
    ensures
        r == spec_lin_interpolation(start, end, intervals as int).step,
        r.model() == lin_step(start.model(), end.model(), intervals as int),
{
    proof {
        lemma_linear_defined(start, end, intervals as int, 0);
    }
    let n = match T::from_index(intervals) {
        Some(n) => n,
        None => start,
    };
    let r = if intervals == 0 {
        n
    } else {
        proof {
            let d = end.model() - start.model();
            lemma_scaled_step_between(d, intervals as int, 1);
            T::lemma_zero_fits();
            if d >= 0 {
                T::lemma_fits_between(0, div_toward_zero(d, intervals as int), d);
            } else {
                T::lemma_fits_between(d, div_toward_zero(d, intervals as int), 0);
            }
        }
        end.sub(start).div(n)
    };
    proof {
        T::lemma_model_fits(r);
    }
    r
}

/// A range of values that a linear space can be built over.
pub trait ToLinSpace: Sized {
    type Item: Numeric;

    spec fn range_start(&self) -> Self::Item;

    spec fn range_end(&self) -> Self::Item;

    /// Whether the range includes its end.
    spec fn includes_end() -> bool;

    /// Creates the space of `steps` values.
    fn into_lin_space(self, steps: usize) -> (r: IntoSpace<LinearInterpolation<Self::Item>>)
        requires
            Self::includes_end() ==> steps >= 1,
            lin_space_ok(self.range_start(), self.range_end(), lin_intervals(steps as int, Self::includes_end())),
        ensures
            r.wf(),
            r.strategy() == spec_lin_interpolation(
                self.range_start(),
                self.range_end(),
                lin_intervals(steps as int, Self::includes_end()),
            ),
            r.front() == 0,
            r.back() == steps,
            r.is_inclusive() == Self::includes_end(),
            r.strategy().end_defined_at(lin_intervals(steps as int, Self::includes_end())),
    ;
}

/// The number of intervals between `steps` values: one fewer where the end is
/// included.
pub open spec fn lin_intervals(steps: int, includes_end: bool) -> int {
    if includes_end {
        steps - 1
    } else {
        steps
    }
}

impl<T: Numeric> ToLinSpace for core::ops::Range<T> {
    type Item = T;

    open spec fn range_start(&self) -> T {
        self.start
    }

    open spec fn range_end(&self) -> T {
        self.end
    }

    open spec fn includes_end() -> bool {
        false
    }

    fn into_lin_space(self, steps: usize) -> (r: IntoSpace<LinearInterpolation<T>>) {
        let start = self.start;
        let end = self.end;
        let step = linear_step(start, end, steps);
        proof {
            assert forall|x: int| 0 <= x <= steps implies (LinearInterpolation { start, step }).defined_at(x) by {
                lemma_linear_defined(start, end, steps as int, x);
            }
        }
        IntoSpace::new_exclusive(steps, LinearInterpolation { start, step })
    }
}

impl<T: Numeric> ToLinSpace for core::ops::RangeInclusive<T> {
    type Item = T;

    open spec fn range_start(&self) -> T {
        self@.start
    }

    open spec fn range_end(&self) -> T {
        self@.end
    }

    open spec fn includes_end() -> bool {
        true
    }

    fn into_lin_space(self, steps: usize) -> (r: IntoSpace<LinearInterpolation<T>>) {
        let (start, end) = self.into_inner();
        let step = linear_step(start, end, steps - 1);
        proof {
            assert forall|x: int| 0 <= x <= steps - 1 implies (LinearInterpolation { start, step }).defined_at(x) by {
                lemma_linear_defined(start, end, steps - 1, x);
            }
        }
        IntoSpace::new_inclusive(steps, LinearInterpolation { start, step })
    }
}

/// Creates a linear space over `range` with `steps` values: for an exclusive
/// range the values before the end, for an inclusive one the values from the
/// start up to the end.
pub fn lin_space<R: ToLinSpace>(range: R, steps: usize) -> (r: Space<LinearInterpolation<R::Item>>)
    requires
        R::includes_end() ==> steps >= 1,
        lin_space_ok(range.range_start(), range.range_end(), lin_intervals(steps as int, R::includes_end())),
    ensures
        r.wf(),
        r.strategy() == spec_lin_interpolation(
            range.range_start(),
            range.range_end(),
            lin_intervals(steps as int, R::includes_end()),
        ),
        r.is_inclusive() == R::includes_end(),
        r.remaining() == values_between(r.strategy(), 0, steps as int),
        r.remaining().len() == steps,
        r.bounds_defined(),
{
    let r = range.into_lin_space(steps).into_space();
    r
}

} // verus!
