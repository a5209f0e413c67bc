//! Contracts for the functions of std and of outside crates that the library
//! calls and that Verus has no specification of.
use vstd::prelude::*;

verus! {

/// Relies on `RangeInclusive::into_inner`: it hands back the bounds that the
/// range was built with.
pub assume_specification<Idx>[ core::ops::RangeInclusive::<Idx>::into_inner ](
    range: core::ops::RangeInclusive<Idx>,
) -> (r: (Idx, Idx))
    ensures
        r.0 == range@.start,
        r.1 == range@.end,
;

/// Relies on `char::from_u32`: `Some` exactly for the Unicode scalar values,
/// which are then the char of that value.
pub assume_specification[ <char>::from_u32 ](i: u32) -> (r: Option<char>)
    ensures
        r is Some <==> (i <= 0xD7FF || (0xE000 <= i && i <= 0x10FFFF)),
        r is Some ==> r == Some(i as char),
;

/// strength_reduce's `StrengthReducedUsize`, a divisor prepared for fast
/// division, held by each axis of a grid.
#[verifier::external_type_specification]
#[verifier::external_body]
pub struct ExStrengthReducedUsize(strength_reduce::StrengthReducedUsize);

/// The divisor that a strength-reduced divisor was made from.
pub uninterp spec fn divisor_of(d: strength_reduce::StrengthReducedUsize) -> usize;

/// Relies on `StrengthReducedUsize::new`: it panics on zero and keeps the
/// divisor it was given.
pub assume_specification[ strength_reduce::StrengthReducedUsize::new ](divisor: usize) -> (r:
    strength_reduce::StrengthReducedUsize)
    requires
        divisor > 0,
    ensures
        divisor_of(r) == divisor,
;

/// Relies on the derived `Clone` of `StrengthReducedUsize`, a `Copy` type:
/// the clone is the same value.
pub assume_specification[ <strength_reduce::StrengthReducedUsize as core::clone::Clone>::clone ](
    d: &strength_reduce::StrengthReducedUsize,
) -> (r: strength_reduce::StrengthReducedUsize)
    ensures
        r == *d,
;

/// Relies on `StrengthReducedUsize::get`: it returns the divisor the value
/// was made from.
pub assume_specification[ strength_reduce::StrengthReducedUsize::get ](
    d: &strength_reduce::StrengthReducedUsize,
) -> (r: usize)
    ensures
        r == divisor_of(*d),
;

/// Relies on `StrengthReducedUsize::div_rem`: truncated quotient and remainder
/// by the divisor.
pub assume_specification[ strength_reduce::StrengthReducedUsize::div_rem ](
    numerator: usize,
    denom: strength_reduce::StrengthReducedUsize,
) -> (r: (usize, usize))
    requires
        divisor_of(denom) > 0,
    ensures
        r.0 == numerator as int / divisor_of(denom) as int,
        r.1 == numerator as int % divisor_of(denom) as int,
;

} // verus!
