//! Sums and products over a slice. For `Option` and `Result` items the
//! aggregate stops at the first `None` or `Err` and hands that back.
use vstd::prelude::*;

verus! {

/// The sum of the first `k` integers of `s`.
pub open spec fn sum_of(s: Seq<int>, k: int) -> int
    decreases k,
{
    if k <= 0 {
        0
    } else {
        sum_of(s, k - 1) + s[k - 1]
    }
}

/// The product of the first `k` integers of `s`.
pub open spec fn product_of(s: Seq<int>, k: int) -> int
    decreases k,
{
    if k <= 0 {
        1
    } else {
        product_of(s, k - 1) * s[k - 1]
    }
}

/// Adds up a slice of items.
pub trait Sum2: Sized {
    type Output;

    /// Whether the sum can be computed without overflow.
    spec fn sum_ok(items: Seq<Self>) -> bool;

    /// The sum of the items.
    spec fn spec_sum(items: Seq<Self>) -> Self::Output;

    fn sum2(items: &[Self]) -> (r: Self::Output)
        requires
            Self::sum_ok(items@),
        ensures
            r == Self::spec_sum(items@),
    ;
}

/// Multiplies a slice of items.
pub trait Product2: Sized {
    type Output;

    /// Whether the product can be computed without overflow.
    spec fn product_ok(items: Seq<Self>) -> bool;

    /// The product of the items.
    spec fn spec_product(items: Seq<Self>) -> Self::Output;

    fn product2(items: &[Self]) -> (r: Self::Output)
        requires
            Self::product_ok(items@),
        ensures
            r == Self::spec_product(items@),
    ;
}

/// The items as integers.
pub open spec fn widen_i32(items: Seq<i32>) -> Seq<int> {
    items.map_values(|x: i32| x as int)
}

impl Sum2 for i32 {
    type Output = i32;

    open spec fn sum_ok(items: Seq<i32>) -> bool {
        forall|k: int|
            0 <= k <= items.len() ==> i32::MIN <= #[trigger] sum_of(
                widen_i32(items),
                k,
            ) <= i32::MAX
    }

    open spec fn spec_sum(items: Seq<i32>) -> i32 {
        sum_of(widen_i32(items), items.len() as int) as i32
    }

    fn sum2(items: &[i32]) -> (r: i32) {
        let ghost ints = widen_i32(items@);
        let mut acc: i32 = 0;
        let mut i: usize = 0;
        while i < items.len()
            invariant
                Self::sum_ok(items@),
                ints == widen_i32(items@),
                0 <= i <= items.len(),
                acc == sum_of(ints, i as int),
            decreases items.len() - i,
        {
            proof {
                assert(sum_of(ints, i + 1) == sum_of(ints, i as int) + ints[i as int]);
            }
            acc = acc + items[i];
            i = i + 1;
        }
        acc
    }
}

impl Product2 for i32 {
    type Output = i32;

    open spec fn product_ok(items: Seq<i32>) -> bool {
        forall|k: int|
            0 <= k <= items.len() ==> i32::MIN <= #[trigger] product_of(
                widen_i32(items),
                k,
            ) <= i32::MAX
    }

    open spec fn spec_product(items: Seq<i32>) -> i32 {
        product_of(widen_i32(items), items.len() as int) as i32
    }

    fn product2(items: &[i32]) -> (r: i32) {
        let ghost ints = widen_i32(items@);
        let mut acc: i32 = 1;
        let mut i: usize = 0;
        while i < items.len()
            invariant
                Self::product_ok(items@),
                ints == widen_i32(items@),
                0 <= i <= items.len(),
                acc == product_of(ints, i as int),
            decreases items.len() - i,
        {
            proof {
                assert(product_of(ints, i + 1) == product_of(ints, i as int) * ints[i as int]);
            }
            acc = acc * items[i];
            i = i + 1;
        }
        acc
    }
}

/// The items as integers.
pub open spec fn widen_i64(items: Seq<i64>) -> Seq<int> {
    items.map_values(|x: i64| x as int)
}

impl Sum2 for i64 {
    type Output = i64;

    open spec fn sum_ok(items: Seq<i64>) -> bool {
        forall|k: int|
            0 <= k <= items.len() ==> i64::MIN <= #[trigger] sum_of(
                widen_i64(items),
                k,
            ) <= i64::MAX
    }

    open spec fn spec_sum(items: Seq<i64>) -> i64 {
        sum_of(widen_i64(items), items.len() as int) as i64
    }

    fn sum2(items: &[i64]) -> (r: i64) {
        let ghost ints = widen_i64(items@);
        let mut acc: i64 = 0;
        let mut i: usize = 0;
        while i < items.len()
            invariant
                Self::sum_ok(items@),
                ints == widen_i64(items@),
                0 <= i <= items.len(),
                acc == sum_of(ints, i as int),
            decreases items.len() - i,
        {
            proof {
                assert(sum_of(ints, i + 1) == sum_of(ints, i as int) + ints[i as int]);
            }
            acc = acc + items[i];
            i = i + 1;
        }
        acc
    }
}

impl Product2 for i64 {
    type Output = i64;

    open spec fn product_ok(items: Seq<i64>) -> bool {
        forall|k: int|
            0 <= k <= items.len() ==> i64::MIN <= #[trigger] product_of(
                widen_i64(items),
                k,
            ) <= i64::MAX
    }

    open spec fn spec_product(items: Seq<i64>) -> i64 {
        product_of(widen_i64(items), items.len() as int) as i64
    }

    fn product2(items: &[i64]) -> (r: i64) {
        let ghost ints = widen_i64(items@);
        let mut acc: i64 = 1;
        let mut i: usize = 0;
        while i < items.len()
            invariant
                Self::product_ok(items@),
                ints == widen_i64(items@),
                0 <= i <= items.len(),
                acc == product_of(ints, i as int),
            decreases items.len() - i,
        {
            proof {
                assert(product_of(ints, i + 1) == product_of(ints, i as int) * ints[i as int]);
            }
            acc = acc * items[i];
            i = i + 1;
        }
        acc
    }
}

/// The items as integers.
pub open spec fn widen_u32(items: Seq<u32>) -> Seq<int> {
    items.map_values(|x: u32| x as int)
}

impl Sum2 for u32 {
    type Output = u32;

    open spec fn sum_ok(items: Seq<u32>) -> bool {
        forall|k: int|
            0 <= k <= items.len() ==> u32::MIN <= #[trigger] sum_of(
                widen_u32(items),
                k,
            ) <= u32::MAX
    }

    open spec fn spec_sum(items: Seq<u32>) -> u32 {
        sum_of(widen_u32(items), items.len() as int) as u32
    }

    fn sum2(items: &[u32]) -> (r: u32) {
        let ghost ints = widen_u32(items@);
        let mut acc: u32 = 0;
        let mut i: usize = 0;
        while i < items.len()
            invariant
                Self::sum_ok(items@),
                ints == widen_u32(items@),
                0 <= i <= items.len(),
                acc == sum_of(ints, i as int),
            decreases items.len() - i,
        {
            proof {
                assert(sum_of(ints, i + 1) == sum_of(ints, i as int) + ints[i as int]);
            }
            acc = acc + items[i];
            i = i + 1;
        }
        acc
    }
}

impl Product2 for u32 {
    type Output = u32;

    open spec fn product_ok(items: Seq<u32>) -> bool {
        forall|k: int|
            0 <= k <= items.len() ==> u32::MIN <= #[trigger] product_of(
                widen_u32(items),
                k,
            ) <= u32::MAX
    }

    open spec fn spec_product(items: Seq<u32>) -> u32 {
        product_of(widen_u32(items), items.len() as int) as u32
    }

    fn product2(items: &[u32]) -> (r: u32) {
        let ghost ints = widen_u32(items@);
        let mut acc: u32 = 1;
        let mut i: usize = 0;
        while i < items.len()
            invariant
                Self::product_ok(items@),
                ints == widen_u32(items@),
                0 <= i <= items.len(),
                acc == product_of(ints, i as int),
            decreases items.len() - i,
        {
            proof {
                assert(product_of(ints, i + 1) == product_of(ints, i as int) * ints[i as int]);
            }
            acc = acc * items[i];
            i = i + 1;
        }
        acc
    }
}

/// The items as integers.
pub open spec fn widen_u64(items: Seq<u64>) -> Seq<int> {
    items.map_values(|x: u64| x as int)
}

impl Sum2 for u64 {
    type Output = u64;

    open spec fn sum_ok(items: Seq<u64>) -> bool {
        forall|k: int|
            0 <= k <= items.len() ==> u64::MIN <= #[trigger] sum_of(
                widen_u64(items),
                k,
            ) <= u64::MAX
    }

    open spec fn spec_sum(items: Seq<u64>) -> u64 {
        sum_of(widen_u64(items), items.len() as int) as u64
    }

    fn sum2(items: &[u64]) -> (r: u64) {
        let ghost ints = widen_u64(items@);
        let mut acc: u64 = 0;
        let mut i: usize = 0;
        while i < items.len()
            invariant
                Self::sum_ok(items@),
                ints == widen_u64(items@),
                0 <= i <= items.len(),
                acc == sum_of(ints, i as int),
            decreases items.len() - i,
        {
            proof {
                assert(sum_of(ints, i + 1) == sum_of(ints, i as int) + ints[i as int]);
            }
            acc = acc + items[i];
            i = i + 1;
        }
        acc
    }
}

impl Product2 for u64 {
    type Output = u64;

    open spec fn product_ok(items: Seq<u64>) -> bool {
        forall|k: int|
            0 <= k <= items.len() ==> u64::MIN <= #[trigger] product_of(
                widen_u64(items),
                k,
            ) <= u64::MAX
    }

    open spec fn spec_product(items: Seq<u64>) -> u64 {
        product_of(widen_u64(items), items.len() as int) as u64
    }

    fn product2(items: &[u64]) -> (r: u64) {
        let ghost ints = widen_u64(items@);
        let mut acc: u64 = 1;
        let mut i: usize = 0;
        while i < items.len()
            invariant
                Self::product_ok(items@),
                ints == widen_u64(items@),
                0 <= i <= items.len(),
                acc == product_of(ints, i as int),
            decreases items.len() - i,
        {
            proof {
                assert(product_of(ints, i + 1) == product_of(ints, i as int) * ints[i as int]);
            }
            acc = acc * items[i];
            i = i + 1;
        }
        acc
    }
}

/// The values of items that are all `Some`.
pub open spec fn unwrap_all<T>(items: Seq<Option<T>>) -> Seq<T> {
    items.map_values(|o: Option<T>| o->0)
}

/// Whether every item is `Some`.
pub open spec fn all_some<T>(items: Seq<Option<T>>) -> bool {
    forall|j: int| 0 <= j < items.len() ==> (#[trigger] items[j]) is Some
}

/// The `Some` values before the first `None`, in order; the whole slice where
/// there is none.
fn some_prefix<T: Copy>(items: &[Option<T>]) -> (r: Option<Vec<T>>)
    ensures
        r is Some <==> all_some(items@),
        r matches Some(v) ==> v@ == unwrap_all(items@),
{
    let mut values: Vec<T> = Vec::new();
    let mut i: usize = 0;
    while i < items.len()
        invariant
            0 <= i <= items.len(),
            values@ == unwrap_all(items@.take(i as int)),
            all_some(items@.take(i as int)),
        decreases items.len() - i,
    {
        match items[i] {
            Some(v) => {
                values.push(v);
            },
            None => {
                proof {
                    assert(items@[i as int] is None);
                }
                return None;
            },
        }
        proof {
            assert(items@.take(i + 1) =~= items@.take(i as int).push(items@[i as int]));
            assert(values@ =~= unwrap_all(items@.take(i + 1)));
        }
        i = i + 1;
    }
    proof {
        assert(items@.take(i as int) =~= items@);
    }
    Some(values)
}

impl<T: Sum2 + Copy> Sum2 for Option<T> {
    type Output = Option<T::Output>;

    open spec fn sum_ok(items: Seq<Option<T>>) -> bool {
        all_some(items) ==> T::sum_ok(unwrap_all(items))
    }

    open spec fn spec_sum(items: Seq<Option<T>>) -> Option<T::Output> {
        if all_some(items) {
            Some(T::spec_sum(unwrap_all(items)))
        } else {
            None
        }
    }

    fn sum2(items: &[Option<T>]) -> (r: Option<T::Output>) {
        match some_prefix(items) {
            Some(values) => Some(T::sum2(values.as_slice())),
            None => None,
        }
    }
}

impl<T: Product2 + Copy> Product2 for Option<T> {
    type Output = Option<T::Output>;

    open spec fn product_ok(items: Seq<Option<T>>) -> bool {
        all_some(items) ==> T::product_ok(unwrap_all(items))
    }

    open spec fn spec_product(items: Seq<Option<T>>) -> Option<T::Output> {
        if all_some(items) {
            Some(T::spec_product(unwrap_all(items)))
        } else {
            None
        }
    }

    fn product2(items: &[Option<T>]) -> (r: Option<T::Output>) {
        match some_prefix(items) {
            Some(values) => Some(T::product2(values.as_slice())),
            None => None,
        }
    }
}

/// The first error among the items, if any.
pub open spec fn first_error<T, E>(items: Seq<Result<T, E>>) -> Option<E>
    decreases items.len(),
{
    if items.len() == 0 {
        None
    } else if items[0] is Err {
        Some(items[0]->Err_0)
    } else {
        first_error(items.drop_first())
    }
}

/// The values of items that are all `Ok`.
pub open spec fn unwrap_oks<T, E>(items: Seq<Result<T, E>>) -> Seq<T> {
    items.map_values(|r: Result<T, E>| r->Ok_0)
}

proof fn lemma_first_error_extends<T, E>(items: Seq<Result<T, E>>, i: int)
    requires
        0 <= i < items.len(),
        first_error(items.take(i)) is None,
    ensures
        items[i] is Err ==> first_error(items) == Some(items[i]->Err_0),
        items[i] is Ok ==> first_error(items.take(i + 1)) is None,
    decreases i,
{
    let next = items.take(i + 1);
    assert(next.len() == i + 1);
    assert(next[0] == items[0]);
    if i > 0 {
        let prefix = items.take(i);
        assert(prefix[0] == items[0]);
        assert(prefix.drop_first() =~= items.drop_first().take(i - 1));
        assert(next.drop_first() =~= items.drop_first().take(i));
        lemma_first_error_extends(items.drop_first(), i - 1);
    } else {
        assert(next.drop_first() =~= Seq::<Result<T, E>>::empty());
        assert(first_error(Seq::<Result<T, E>>::empty()) is None);
    }
}

proof fn lemma_no_error_all_ok<T, E>(items: Seq<Result<T, E>>, j: int)
    requires
        first_error(items) is None,
        0 <= j < items.len(),
    ensures
        items[j] is Ok,
    decreases items.len(),
{
    if j > 0 {
        lemma_no_error_all_ok(items.drop_first(), j - 1);
    }
}

/// The `Ok` values of the items, or the first error.
fn ok_values<T: Copy, E: Copy>(items: &[Result<T, E>]) -> (r: Result<Vec<T>, E>)
    ensures
        first_error(items@) is None ==> (r matches Ok(v) && v@ == unwrap_oks(items@)),
        first_error(items@) matches Some(e) ==> r == Err::<Vec<T>, E>(e),
{
    let mut values: Vec<T> = Vec::new();
    let mut i: usize = 0;
    while i < items.len()
        invariant
            0 <= i <= items.len(),
            values@ == unwrap_oks(items@.take(i as int)),
            first_error(items@.take(i as int)) is None,
        decreases items.len() - i,
    {
        proof {
            lemma_first_error_extends(items@, i as int);
        }
        match items[i] {
            Ok(v) => {
                values.push(v);
            },
            Err(e) => {
                return Err(e);
            },
        }
        proof {
            assert(items@.take(i + 1) =~= items@.take(i as int).push(items@[i as int]));
            assert(values@ =~= unwrap_oks(items@.take(i + 1)));
        }
        i = i + 1;
    }
    proof {
        assert(items@.take(i as int) =~= items@);
    }
    Ok(values)
}

impl<T: Sum2 + Copy, E: Copy> Sum2 for Result<T, E> {
    type Output = Result<T::Output, E>;

    open spec fn sum_ok(items: Seq<Result<T, E>>) -> bool {
        first_error(items) is None ==> T::sum_ok(unwrap_oks(items))
    }

    open spec fn spec_sum(items: Seq<Result<T, E>>) -> Result<T::Output, E> {
        match first_error(items) {
            Some(e) => Err(e),
            None => Ok(T::spec_sum(unwrap_oks(items))),
        }
    }

    fn sum2(items: &[Result<T, E>]) -> (r: Result<T::Output, E>) {
        match ok_values(items) {
            Ok(values) => Ok(T::sum2(values.as_slice())),
            Err(e) => Err(e),
        }
    }
}

impl<T: Product2 + Copy, E: Copy> Product2 for Result<T, E> {
    type Output = Result<T::Output, E>;

    open spec fn product_ok(items: Seq<Result<T, E>>) -> bool {
        first_error(items) is None ==> T::product_ok(unwrap_oks(items))
    }

    open spec fn spec_product(items: Seq<Result<T, E>>) -> Result<T::Output, E> {
        match first_error(items) {
            Some(e) => Err(e),
            None => Ok(T::spec_product(unwrap_oks(items))),
        }
    }

    fn product2(items: &[Result<T, E>]) -> (r: Result<T::Output, E>) {
        match ok_values(items) {
            Ok(values) => Ok(T::product2(values.as_slice())),
            Err(e) => Err(e),
        }
    }
}

/// `sum2` and `product2` as methods of a vector of items.
pub trait IterAdapter<T: Sum2 + Product2> {
    spec fn items(&self) -> Seq<T>;

    /// Adds up the items.
    fn sum2(&self) -> (r: <T as Sum2>::Output)
        requires
            T::sum_ok(self.items()),
        ensures
            r == T::spec_sum(self.items()),
    ;

    /// Multiplies the items.
    fn product2(&self) -> (r: <T as Product2>::Output)
        requires
            T::product_ok(self.items()),
        ensures
            r == T::spec_product(self.items()),
    ;
}

impl<T: Sum2 + Product2> IterAdapter<T> for Vec<T> {
    open spec fn items(&self) -> Seq<T> {
        self@
    }

    fn sum2(&self) -> (r: <T as Sum2>::Output) {
        T::sum2(self.as_slice())
    }

    fn product2(&self) -> (r: <T as Product2>::Output) {
        T::product2(self.as_slice())
    }
}

} // verus!
