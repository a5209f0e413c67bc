//! Types with a successor operation: integers and `char`.
use vstd::prelude::*;

verus! {

/// Objects that have a notion of successor. `steps_between(a, b)` is `Some(n)`
/// exactly when `forward(a, n)` is `Some(b)`.
pub trait Step: Copy + Sized {
    /// The number of successor steps from `start` to `end`, where `start`
    /// comes first and the count fits in `usize`.
    spec fn spec_steps_between(start: Self, end: Self) -> Option<usize>;

    /// The value `count` successor steps after `start`, where there is one.
    spec fn spec_forward(start: Self, count: int) -> Option<Self>;

    /// Every count up to `steps_between(start, end)` leads somewhere, and that
    /// count itself leads to `end`.
    proof fn lemma_forward_within(start: Self, end: Self, m: int)
        requires
            Self::spec_steps_between(start, end) is Some,
            0 <= m <= Self::spec_steps_between(start, end)->0,
        ensures
            Self::spec_forward(start, m) is Some,
            m == Self::spec_steps_between(start, end)->0 ==> Self::spec_forward(start, m) == Some(
                end,
            ),
    ;

    /// No step is needed to stay in place.
    proof fn lemma_forward_zero(start: Self)
        ensures
            Self::spec_forward(start, 0) == Some(start),
    ;

    fn steps_between(start: &Self, end: &Self) -> (r: Option<usize>)
        ensures
            r == Self::spec_steps_between(*start, *end),
    ;

    fn forward(start: Self, count: usize) -> (r: Option<Self>)
        ensures
            r == Self::spec_forward(start, count as int),
    ;
}

impl Step for i64 {
    open spec fn spec_steps_between(start: Self, end: Self) -> Option<usize> {
        if start <= end && end - start <= usize::MAX {
            Some((end - start) as usize)
        } else {
            None
        }
    }

    open spec fn spec_forward(start: Self, count: int) -> Option<Self> {
        if start + count <= i64::MAX {
            Some((start + count) as i64)
        } else {
            None
        }
    }

    proof fn lemma_forward_within(start: Self, end: Self, m: int) {
    }

    proof fn lemma_forward_zero(start: Self) {
    }

    fn steps_between(start: &Self, end: &Self) -> (r: Option<usize>) {
        if *start <= *end {
            let d = (*end as i128) - (*start as i128);
            if d <= usize::MAX as i128 {
                Some(d as usize)
            } else {
                None
            }
        } else {
            None
        }
    }

    fn forward(start: Self, count: usize) -> (r: Option<Self>) {
        let v = (start as i128) + (count as i128);
        if v <= i64::MAX as i128 {
            Some(v as i64)
        } else {
            None
        }
    }
}

impl Step for i32 {
    open spec fn spec_steps_between(start: Self, end: Self) -> Option<usize> {
        if start <= end && end - start <= usize::MAX {
            Some((end - start) as usize)
        } else {
            None
        }
    }

    open spec fn spec_forward(start: Self, count: int) -> Option<Self> {
        if start + count <= i32::MAX {
            Some((start + count) as i32)
        } else {
            None
        }
    }

    proof fn lemma_forward_within(start: Self, end: Self, m: int) {
    }

    proof fn lemma_forward_zero(start: Self) {
    }

    fn steps_between(start: &Self, end: &Self) -> (r: Option<usize>) {
        if *start <= *end {
            let d = (*end as i64) - (*start as i64);
            if d as u64 as u128 <= usize::MAX as u128 {
                Some(d as usize)
            } else {
                None
            }
        } else {
            None
        }
    }

    fn forward(start: Self, count: usize) -> (r: Option<Self>) {
        let v = (start as i128) + (count as i128);
        if v <= i32::MAX as i128 {
            Some(v as i32)
        } else {
            None
        }
    }
}

impl Step for u64 {
    open spec fn spec_steps_between(start: Self, end: Self) -> Option<usize> {
        if start <= end && end - start <= usize::MAX {
            Some((end - start) as usize)
        } else {
            None
        }
    }

    open spec fn spec_forward(start: Self, count: int) -> Option<Self> {
        if start + count <= u64::MAX {
            Some((start + count) as u64)
        } else {
            None
        }
    }

    proof fn lemma_forward_within(start: Self, end: Self, m: int) {
    }

    proof fn lemma_forward_zero(start: Self) {
    }

    fn steps_between(start: &Self, end: &Self) -> (r: Option<usize>) {
        if *start <= *end {
            let d = *end - *start;
            if d as u128 <= usize::MAX as u128 {
                Some(d as usize)
            } else {
                None
            }
        } else {
            None
        }
    }

    fn forward(start: Self, count: usize) -> (r: Option<Self>) {
        let v = (start as u128) + (count as u128);
        if v <= u64::MAX as u128 {
            Some(v as u64)
        } else {
            None
        }
    }
}

impl Step for usize {
    open spec fn spec_steps_between(start: Self, end: Self) -> Option<usize> {
        if start <= end {
            Some((end - start) as usize)
        } else {
            None
        }
    }

    open spec fn spec_forward(start: Self, count: int) -> Option<Self> {
        if start + count <= usize::MAX {
            Some((start + count) as usize)
        } else {
            None
        }
    }

    proof fn lemma_forward_within(start: Self, end: Self, m: int) {
    }

    proof fn lemma_forward_zero(start: Self) {
    }

    fn steps_between(start: &Self, end: &Self) -> (r: Option<usize>) {
        if *start <= *end {
            Some(*end - *start)
        } else {
            None
        }
    }

    fn forward(start: Self, count: usize) -> (r: Option<Self>) {
        start.checked_add(count)
    }
}

/// The number of the scalar value `c` when the surrogate gap is skipped.
pub open spec fn char_index(c: char) -> int {
    if (c as u32) < 0xD800 {
        c as int
    } else {
        c as int - 0x800
    }
}

/// The scalar value numbered `i` when the surrogate gap is skipped.
pub open spec fn char_at(i: int) -> char {
    if i < 0xD800 {
        i as char
    } else {
        (i + 0x800) as char
    }
}

/// A char is a scalar value, and numbering it and back gives it again.
proof fn lemma_char_index(c: char)
    ensures
        (c as u32) <= 0x10FFFF,
        !(0xD800 <= (c as u32) && (c as u32) <= 0xDFFF),
        0 <= char_index(c) <= last_char_index(),
        char_at(char_index(c)) == c,
{
    assert((c as int) as char == c);
}

/// Numbering is monotone.
proof fn lemma_char_index_monotone(a: char, b: char)
    requires
        (a as u32) <= (b as u32),
    ensures
        char_index(a) <= char_index(b),
{
    lemma_char_index(a);
    lemma_char_index(b);
}

/// The number of the last scalar value.
pub open spec fn last_char_index() -> int {
    0x10FFFF - 0x800
}

impl Step for char {
    open spec fn spec_steps_between(start: Self, end: Self) -> Option<usize> {
        if (start as u32) <= (end as u32) && char_index(end) - char_index(start) <= usize::MAX {
            Some((char_index(end) - char_index(start)) as usize)
        } else {
            None
        }
    }

    open spec fn spec_forward(start: Self, count: int) -> Option<Self> {
        if char_index(start) + count <= last_char_index() {
            Some(char_at(char_index(start) + count))
        } else {
            None
        }
    }

    proof fn lemma_forward_within(start: Self, end: Self, m: int) {
        lemma_char_index_monotone(start, end);
        lemma_char_index(end);
    }

    proof fn lemma_forward_zero(start: Self) {
        lemma_char_index(start);
    }

    fn steps_between(start: &Self, end: &Self) -> (r: Option<usize>) {
        proof {
            lemma_char_index(*start);
            lemma_char_index(*end);
        }
        let start = *start as u32;
        let end = *end as u32;
        if start <= end {
            let count = end - start;
            let count = if start < 0xD800 && 0xE000 <= end {
                count - 0x800
            } else {
                count
            };
            if count as u128 <= usize::MAX as u128 {
                Some(count as usize)
            } else {
                None
            }
        } else {
            None
        }
    }

    fn forward(start: Self, count: usize) -> (r: Option<Self>) {
        proof {
            lemma_char_index(start);
        }
        let start_value = start as u32;
        if count as u128 > 0xFFFF_FFFFu128 - start_value as u128 {
            return None;
        }
        let mut res = start_value + count as u32;
        if start_value < 0xD800 && 0xD800 <= res {
            if res > 0xFFFF_FFFF - 0x800 {
                return None;
            }
            res = res + 0x800;
        }
        if res <= 0x10FFFF {
            let r = char::from_u32(res);
            proof {
                let i = char_index(start) + count;
                assert(res == if i < 0xD800 { i } else { i + 0x800 });
                assert(char_at(i) == res as char);
            }
            r
        } else {
            None
        }
    }
}

} // verus!
