//! The value types that a sequence can range over.
//!
//! A value type is modelled by the integer it stands for. Its arithmetic is
//! exact wherever the result is representable, and the operations state when
//! that is the case.
use vstd::prelude::*;

verus! {

/// Integer division rounded toward zero, as Rust's `/` rounds.
pub open spec fn div_toward_zero(a: int, b: int) -> int {
    if a >= 0 {
        if b > 0 {
            a / b
        } else {
            -(a / (-b))
        }
    } else {
        if b > 0 {
            -((-a) / b)
        } else {
            (-a) / (-b)
        }
    }
}

/// The smallest integer not below `a / b`, for a quotient that is not negative.
pub open spec fn div_ceil(a: int, b: int) -> int {
    let (m, d) = if b > 0 {
        (a, b)
    } else {
        (-a, -b)
    };
    if m % d == 0 {
        m / d
    } else {
        m / d + 1
    }
}

/// A number that sequences can be built over: it adds, subtracts, multiplies,
/// divides and is made from a step index.
pub trait Numeric: Copy + Sized {
    /// The integer that this value stands for.
    spec fn model(self) -> int;

    /// The value that stands for `v`, where `v` is representable.
    spec fn from_model(v: int) -> Self;

    /// Whether the integer `v` is representable in this type.
    spec fn fits(v: int) -> bool;

    proof fn lemma_model_fits(a: Self)
        ensures
            Self::fits(a.model()),
            Self::from_model(a.model()) == a,
    ;

    proof fn lemma_from_model(v: int)
        requires
            Self::fits(v),
        ensures
            Self::from_model(v).model() == v,
    ;

    /// Representable integers form an interval.
    proof fn lemma_fits_between(a: int, b: int, c: int)
        requires
            Self::fits(a),
            Self::fits(c),
            a <= b <= c,
        ensures
            Self::fits(b),
    ;

    proof fn lemma_zero_fits()
        ensures
            Self::fits(0),
    ;

    /// The value of a step index, if the type can hold it.
    fn from_index(i: usize) -> (r: Option<Self>)
        ensures
            r is Some <==> Self::fits(i as int),
            r is Some ==> r->0.model() == i,
    ;

    /// The step index that this value stands for, if it is one.
    fn to_index(self) -> (r: Option<usize>)
        ensures
            r is Some <==> 0 <= self.model() <= usize::MAX,
            r is Some ==> r->0 == self.model(),
    ;

    fn add(self, rhs: Self) -> (r: Self)
        requires
            Self::fits(self.model() + rhs.model()),
        ensures
            r.model() == self.model() + rhs.model(),
    ;

    fn sub(self, rhs: Self) -> (r: Self)
        requires
            Self::fits(self.model() - rhs.model()),
        ensures
            r.model() == self.model() - rhs.model(),
    ;

    fn mul(self, rhs: Self) -> (r: Self)
        requires
            Self::fits(self.model() * rhs.model()),
        ensures
            r.model() == self.model() * rhs.model(),
    ;

    /// Division rounded toward zero.
    fn div(self, rhs: Self) -> (r: Self)
        requires
            rhs.model() != 0,
            Self::fits(div_toward_zero(self.model(), rhs.model())),
        ensures
            r.model() == div_toward_zero(self.model(), rhs.model()),
    ;

    fn is_zero(self) -> (r: bool)
        ensures
            r == (self.model() == 0),
    ;
}

/// The magnitude of a signed value.
fn magnitude(a: i64) -> (r: u64)
    ensures
        r as int == if a >= 0 {
            a as int
        } else {
            -(a as int)
        },
{
    if a >= 0 {
        a as u64
    } else {
        ((-(a + 1)) as u64) + 1
    }
}

impl Numeric for i64 {
    open spec fn model(self) -> int {
        self as int
    }

    open spec fn from_model(v: int) -> Self {
        v as i64
    }

    open spec fn fits(v: int) -> bool {
        i64::MIN <= v <= i64::MAX
    }

    proof fn lemma_model_fits(a: Self) {
    }

    proof fn lemma_from_model(v: int) {
    }

    proof fn lemma_fits_between(a: int, b: int, c: int) {
    }

    proof fn lemma_zero_fits() {
    }

    fn from_index(i: usize) -> (r: Option<Self>) {
        if (i as u128) <= (i64::MAX as u128) {
            Some(i as i64)
        } else {
            None
        }
    }

    fn to_index(self) -> (r: Option<usize>) {
        if self >= 0 && (self as u64) <= usize::MAX as u64 {
            Some(self as usize)
        } else {
            None
        }
    }

    fn add(self, rhs: Self) -> (r: Self) {
        self + rhs
    }

    fn sub(self, rhs: Self) -> (r: Self) {
        self - rhs
    }

    fn mul(self, rhs: Self) -> (r: Self) {
        self * rhs
    }

    fn div(self, rhs: Self) -> (r: Self) {
        let q = magnitude(self) / magnitude(rhs);
        if (self >= 0) == (rhs > 0) {
            q as i64
        } else if q == 0 {
            0
        } else {
            -((q - 1) as i64) - 1
        }
    }

    fn is_zero(self) -> (r: bool) {
        self == 0
    }
}

impl Numeric for u64 {
    open spec fn model(self) -> int {
        self as int
    }

    open spec fn from_model(v: int) -> Self {
        v as u64
    }

    open spec fn fits(v: int) -> bool {
        0 <= v <= u64::MAX
    }

    proof fn lemma_model_fits(a: Self) {
    }

    proof fn lemma_from_model(v: int) {
    }

    proof fn lemma_fits_between(a: int, b: int, c: int) {
    }

    proof fn lemma_zero_fits() {
    }

    fn from_index(i: usize) -> (r: Option<Self>) {
        Some(i as u64)
    }

    fn to_index(self) -> (r: Option<usize>) {
        if self <= usize::MAX as u64 {
            Some(self as usize)
        } else {
            None
        }
    }

    fn add(self, rhs: Self) -> (r: Self) {
        self + rhs
    }

    fn sub(self, rhs: Self) -> (r: Self) {
        self - rhs
    }

    fn mul(self, rhs: Self) -> (r: Self) {
        self * rhs
    }

    fn div(self, rhs: Self) -> (r: Self) {
        self / rhs
    }

    fn is_zero(self) -> (r: bool) {
        self == 0
    }
}


/// The magnitude of a signed 32-bit value.
fn magnitude_i32(a: i32) -> (r: u32)
    ensures
        r as int == if a >= 0 {
            a as int
        } else {
            -(a as int)
        },
{
    if a >= 0 {
        a as u32
    } else {
        ((-(a + 1)) as u32) + 1
    }
}

impl Numeric for i32 {
    open spec fn model(self) -> int {
        self as int
    }

    open spec fn from_model(v: int) -> Self {
        v as i32
    }

    open spec fn fits(v: int) -> bool {
        i32::MIN <= v <= i32::MAX
    }

    proof fn lemma_model_fits(a: Self) {
    }

    proof fn lemma_from_model(v: int) {
    }

    proof fn lemma_fits_between(a: int, b: int, c: int) {
    }

    proof fn lemma_zero_fits() {
    }

    fn from_index(i: usize) -> (r: Option<Self>) {
        if (i as u128) <= (i32::MAX as u128) {
            Some(i as i32)
        } else {
            None
        }
    }

    fn to_index(self) -> (r: Option<usize>) {
        if self >= 0 && (self as u128) <= usize::MAX as u128 {
            Some(self as usize)
        } else {
            None
        }
    }

    fn add(self, rhs: Self) -> (r: Self) {
        self + rhs
    }

    fn sub(self, rhs: Self) -> (r: Self) {
        self - rhs
    }

    fn mul(self, rhs: Self) -> (r: Self) {
        self * rhs
    }

    fn div(self, rhs: Self) -> (r: Self) {
        let q = magnitude_i32(self) / magnitude_i32(rhs);
        if (self >= 0) == (rhs > 0) {
            q as i32
        } else if q == 0 {
            0
        } else {
            -((q - 1) as i32) - 1
        }
    }

    fn is_zero(self) -> (r: bool) {
        self == 0
    }
}

impl Numeric for u32 {
    open spec fn model(self) -> int {
        self as int
    }

    open spec fn from_model(v: int) -> Self {
        v as u32
    }

    open spec fn fits(v: int) -> bool {
        0 <= v <= u32::MAX
    }

    proof fn lemma_model_fits(a: Self) {
    }

    proof fn lemma_from_model(v: int) {
    }

    proof fn lemma_fits_between(a: int, b: int, c: int) {
    }

    proof fn lemma_zero_fits() {
    }

    fn from_index(i: usize) -> (r: Option<Self>) {
        if (i as u128) <= (u32::MAX as u128) {
            Some(i as u32)
        } else {
            None
        }
    }

    fn to_index(self) -> (r: Option<usize>) {
        if (self as u128) <= usize::MAX as u128 {
            Some(self as usize)
        } else {
            None
        }
    }

    fn add(self, rhs: Self) -> (r: Self) {
        self + rhs
    }

    fn sub(self, rhs: Self) -> (r: Self) {
        self - rhs
    }

    fn mul(self, rhs: Self) -> (r: Self) {
        self * rhs
    }

    fn div(self, rhs: Self) -> (r: Self) {
        self / rhs
    }

    fn is_zero(self) -> (r: bool) {
        self == 0
    }
}

} // verus!
