//! Several one-dimensional strategies combined into one over a flattened
//! index space.
//!
//! A flat index is read as a mixed-radix number whose digits are the indices
//! on each axis. Axis 0 is the least significant digit, so it varies fastest:
//! a two-dimensional grid runs along axis 0 first, then steps axis 1.
use vstd::prelude::*;
use crate::external::divisor_of;
use crate::space::{defined_between, Interpolate, IntoSpace};
use strength_reduce::StrengthReducedUsize;

verus! {

/// One axis of a grid: a strategy and the number of values along it.
#[derive(Clone, Copy)]
pub struct Axis<I> {
    pub interpolate: I,
    pub length: StrengthReducedUsize,
}

impl<I: Interpolate> Axis<I> {
    /// The number of values along the axis.
    pub open spec fn len(&self) -> int {
        divisor_of(self.length) as int
    }

    /// The axis has values, and its strategy is defined at each of them.
    pub open spec fn wf(&self) -> bool {
        &&& self.len() > 0
        &&& defined_between(self.interpolate, 0, self.len())
    }

    /// The axis over the indices of a space that starts at index 0.
    pub fn new(space: IntoSpace<I>) -> (r: Self)
        requires
            space.wf(),
            space.front() == 0,
            space.back() > 0,
        ensures
            r.wf(),
            r.interpolate == space.strategy(),
            r.len() == space.back(),
    {
        let len = space.len();
        Axis { interpolate: space.into_strategy(), length: StrengthReducedUsize::new(len) }
    }
}

/// The quotient left of flat index `x` once the digits of the first `k` axes
/// are taken off.
pub open spec fn quotient<I: Interpolate>(axes: Seq<Axis<I>>, x: int, k: int) -> int
    decreases k,
{
    if k <= 0 {
        x
    } else {
        quotient(axes, x, k - 1) / axes[k - 1].len()
    }
}

/// The index on axis `k` of flat index `x`.
pub open spec fn digit<I: Interpolate>(axes: Seq<Axis<I>>, x: int, k: int) -> int {
    quotient(axes, x, k) % axes[k].len()
}

/// The number of points of the grid made of the first `k` axes.
pub open spec fn grid_size<I: Interpolate>(axes: Seq<Axis<I>>, k: int) -> int
    decreases k,
{
    if k <= 0 {
        1
    } else {
        grid_size(axes, k - 1) * axes[k - 1].len()
    }
}

/// The product of the first `k` step counts.
pub open spec fn steps_product(steps: Seq<usize>, k: int) -> int
    decreases k,
{
    if k <= 0 {
        1
    } else {
        steps_product(steps, k - 1) * steps[k - 1]
    }
}

/// A product of counts that are each at least one grows with every factor.
proof fn lemma_steps_product_grows(steps: Seq<usize>, j: int, k: int)
    requires
        0 <= j <= k <= steps.len(),
        forall|i: int| 0 <= i < steps.len() ==> steps[i] >= 1,
    ensures
        1 <= steps_product(steps, j) <= steps_product(steps, k),
    decreases k,
{
    if k > j {
        lemma_steps_product_grows(steps, j, k - 1);
        let p = steps_product(steps, k - 1);
        assert(p <= p * steps[k - 1]) by (nonlinear_arith)
            requires
                p >= 1,
                steps[k - 1] >= 1,
        ;
    } else if k > 0 {
        lemma_steps_product_grows(steps, 0, k - 1);
        let p = steps_product(steps, k - 1);
        assert(1 <= p * steps[k - 1]) by (nonlinear_arith)
            requires
                p >= 1,
                steps[k - 1] >= 1,
        ;
    }
}

/// The number of values along each axis.
pub open spec fn axis_lengths<I: Interpolate>(axes: Seq<Axis<I>>) -> Seq<usize> {
    Seq::new(axes.len(), |k: int| divisor_of(axes[k].length))
}

proof fn lemma_grid_size_is_product<I: Interpolate>(axes: Seq<Axis<I>>, k: int)
    requires
        0 <= k <= axes.len(),
    ensures
        grid_size(axes, k) == steps_product(axis_lengths(axes), k),
    decreases k,
{
    if k > 0 {
        lemma_grid_size_is_product(axes, k - 1);
    }
}

/// The flat index of the point whose index on axis `j` is `digits[j]`,
/// counting the axes from `k` on.
pub open spec fn flat_index<I: Interpolate>(axes: Seq<Axis<I>>, digits: Seq<int>, k: int) -> int
    decreases axes.len() - k,
{
    if k >= axes.len() || k < 0 {
        0
    } else {
        digits[k] + axes[k].len() * flat_index(axes, digits, k + 1)
    }
}

/// Taking off the digits of the first `k` axes divides by the size of the
/// grid that they make.
proof fn lemma_quotient_divides<I: Interpolate>(axes: Seq<Axis<I>>, x: int, k: int)
    requires
        0 <= x,
        0 <= k <= axes.len(),
        forall|j: int| 0 <= j < axes.len() ==> (#[trigger] axes[j]).len() > 0,
    ensures
        grid_size(axes, k) > 0,
        quotient(axes, x, k) == x / grid_size(axes, k),
    decreases k,
{
    if k > 0 {
        lemma_quotient_divides(axes, x, k - 1);
        let g = grid_size(axes, k - 1);
        let l = axes[k - 1].len();
        vstd::arithmetic::div_mod::lemma_div_denominator(x, g, l);
        vstd::arithmetic::mul::lemma_mul_strictly_positive(g, l);
    } else {
        vstd::arithmetic::div_mod::lemma_div_basics(x);
    }
}

/// The digits of the axes from `k` on rebuild the quotient left at axis `k`.
proof fn lemma_digits_rebuild<I: Interpolate>(axes: Seq<Axis<I>>, x: int, k: int)
    requires
        0 <= x < grid_size(axes, axes.len() as int),
        0 <= k <= axes.len(),
        forall|j: int| 0 <= j < axes.len() ==> (#[trigger] axes[j]).len() > 0,
    ensures
        quotient(axes, x, k) == flat_index(
            axes,
            Seq::new(axes.len(), |j: int| digit(axes, x, j)),
            k,
        ),
    decreases axes.len() - k,
{
    let digits = Seq::new(axes.len(), |j: int| digit(axes, x, j));
    if k == axes.len() {
        lemma_quotient_divides(axes, x, k);
        vstd::arithmetic::div_mod::lemma_basic_div(x, grid_size(axes, k));
    } else {
        lemma_digits_rebuild(axes, x, k + 1);
        lemma_quotient_divides(axes, x, k);
        vstd::arithmetic::div_mod::lemma_div_pos_is_pos(x, grid_size(axes, k));
        let q = quotient(axes, x, k);
        let l = axes[k].len();
        vstd::arithmetic::div_mod::lemma_fundamental_div_mod(q, l);
        assert(quotient(axes, x, k + 1) == q / l);
        assert(digits[k] == q % l);
    }
}

/// Flattening numbers the points of a grid in mixed radix, axis 0 the least
/// significant digit: every flat index below the grid's size has on each axis
/// an index within that axis, and those indices give the flat index back. So
/// axis 0 varies fastest, and each point comes exactly once.
pub proof fn law_grid_flattening<I: Interpolate, const N: usize>(
    g: GridInterpolation<I, N>,
    x: int,
) where I::Item: Copy
    requires
        g.axes_wf(),
        0 <= x < g.size(),
    ensures
        forall|k: int|
            0 <= k < N ==> 0 <= #[trigger] digit(g.axes@, x, k) < g.axes@[k].len(),
        x == flat_index(g.axes@, Seq::new(N as nat, |k: int| digit(g.axes@, x, k)), 0),
{
    let axes = g.axes@;
    assert forall|j: int| 0 <= j < axes.len() implies (#[trigger] axes[j]).len() > 0 by {
        assert(axes[j].wf());
    }
    lemma_digits_rebuild(axes, x, 0);
    assert forall|k: int| 0 <= k < N implies 0 <= #[trigger] digit(axes, x, k) < axes[k].len() by {
        lemma_quotient_divides(axes, x, k);
        vstd::arithmetic::div_mod::lemma_div_pos_is_pos(x, grid_size(axes, k));
        vstd::arithmetic::div_mod::lemma_mod_pos_bound(quotient(axes, x, k), axes[k].len());
    }
}

/// The strategy of a grid of `N` axes: the value at a flat index holds the
/// value of each axis at its digit of the index.
#[derive(Clone, Copy)]
pub struct GridInterpolation<I, const N: usize> {
    pub axes: [Axis<I>; N],
}

impl<I: Interpolate, const N: usize> GridInterpolation<I, N> where I::Item: Copy {
    /// Every axis is well formed, and there is at least one.
    pub open spec fn axes_wf(&self) -> bool {
        &&& N >= 1
        &&& forall|k: int| 0 <= k < N ==> (#[trigger] self.axes@[k]).wf()
    }

    /// The coordinates of the point at flat index `x`.
    pub open spec fn coordinates(&self, x: int) -> Seq<I::Item> {
        Seq::new(N as nat, |k: int| self.axes@[k].interpolate.value_at(digit(self.axes@, x, k)))
    }

    /// The coordinates of the exclusive end: each axis at its own end.
    pub open spec fn end_coordinates(&self) -> Seq<I::Item> {
        Seq::new(N as nat, |k: int| self.axes@[k].interpolate.end_value_at(self.axes@[k].len()))
    }

    /// The number of points of the grid.
    pub open spec fn size(&self) -> int {
        grid_size(self.axes@, N as int)
    }
}

impl<I: Interpolate, const N: usize> Interpolate for GridInterpolation<I, N> where I::Item: Copy {
    type Item = [I::Item; N];

    open spec fn defined_at(&self, x: int) -> bool {
        &&& self.axes_wf()
        &&& 0 <= x <= usize::MAX
    }

    open spec fn value_at(&self, x: int) -> [I::Item; N] {
        choose|p: [I::Item; N]| p@ == self.coordinates(x)
    }

    open spec fn end_defined_at(&self, x: int) -> bool {
        &&& self.axes_wf()
        &&& x == self.size()
        &&& forall|k: int|
            0 <= k < N ==> (#[trigger] self.axes@[k]).interpolate.end_defined_at(self.axes@[k].len())
    }

    open spec fn end_value_at(&self, x: int) -> [I::Item; N] {
        choose|p: [I::Item; N]| p@ == self.end_coordinates()
    }

    fn interpolate(&self, x: usize) -> (r: [I::Item; N]) {
        let first = self.axes[0].interpolate.interpolate(0);
        let mut r: [I::Item; N] = [first; N];
        let mut q = x;
        let mut k: usize = 0;
        while k < N
            invariant
                self.axes_wf(),
                0 <= k <= N,
                q == quotient(self.axes@, x as int, k as int),
                r@.len() == N,
                forall|j: int| 0 <= j < k ==> r@[j] == self.coordinates(x as int)[j],
            decreases N - k,
        {
            let axis = &self.axes[k];
            let (next_q, z) = StrengthReducedUsize::div_rem(q, axis.length);
            proof {
                vstd::arithmetic::div_mod::lemma_mod_pos_bound(q as int, axis.len());
            }
            r[k] = axis.interpolate.interpolate(z);
            q = next_q;
            k = k + 1;
        }
        proof {
            assert(r@ =~= self.coordinates(x as int));
            let c = self.value_at(x as int);
            assert(c@ == self.coordinates(x as int));
            assert(r =~= c);
        }
        r
    }

    fn interpolate_exclusive_end(&self, x: usize) -> (r: [I::Item; N]) {
        let first = self.axes[0].interpolate.interpolate(0);
        let mut r: [I::Item; N] = [first; N];
        let mut k: usize = 0;
        while k < N
            invariant
                self.end_defined_at(x as int),
                0 <= k <= N,
                r@.len() == N,
                forall|j: int| 0 <= j < k ==> r@[j] == self.end_coordinates()[j],
            decreases N - k,
        {
            let axis = &self.axes[k];
            r[k] = axis.interpolate.interpolate_exclusive_end(axis.length.get());
            k = k + 1;
        }
        proof {
            assert(r@ =~= self.end_coordinates());
            let c = self.end_value_at(x as int);
            assert(c@ == self.end_coordinates());
            assert(r =~= c);
        }
        r
    }
}

/// The space over every point of a grid of the given axes, with an exclusive
/// end or with the last point included.
pub fn grid_from_axes<I: Interpolate, const N: usize>(axes: [Axis<I>; N], inclusive: bool) -> (r:
    IntoSpace<GridInterpolation<I, N>>) where I::Item: Copy
    requires
        N >= 1,
        forall|k: int| 0 <= k < N ==> (#[trigger] axes@[k]).wf(),
        steps_product(axis_lengths(axes@), N as int) <= usize::MAX,
    ensures
        r.wf(),
        r.strategy().axes == axes,
        r.strategy().axes_wf(),
        r.front() == 0,
        r.back() == steps_product(axis_lengths(axes@), N as int),
        r.back() == r.strategy().size(),
        r.back() >= 1,
        r.is_inclusive() == inclusive,
{
    let ghost lengths = axis_lengths(axes@);
    proof {
        assert forall|i: int| 0 <= i < lengths.len() implies lengths[i] >= 1 by {
            assert(axes@[i].wf());
        }
    }
    let mut len: usize = 1;
    let mut k: usize = 0;
    while k < N
        invariant
            0 <= k <= N,
            len == steps_product(lengths, k as int),
            steps_product(lengths, N as int) <= usize::MAX,
            lengths == axis_lengths(axes@),
            forall|i: int| 0 <= i < lengths.len() ==> lengths[i] >= 1,
        decreases N - k,
    {
        proof {
            lemma_steps_product_grows(lengths, k + 1, N as int);
        }
        len = len * axes[k].length.get();
        k = k + 1;
    }
    let grid = GridInterpolation { axes };
    proof {
        lemma_steps_product_grows(lengths, 0, N as int);
        lemma_grid_size_is_product(axes@, N as int);
    }
    if inclusive {
        IntoSpace::new_inclusive(len, grid)
    } else {
        IntoSpace::new_exclusive(len, grid)
    }
}

} // verus!
