//! Lazily evaluated numeric sequences.
//!
//! A sequence maps each index of a range to a value through a strategy, and
//! never keeps a running value: each value is computed from its index, so
//! iterating from either end, skipping ahead and asking for the length all
//! take constant time and agree with each other.
//!
//! - [`lin_space`]: a fixed number of evenly spaced values.
//! - [`arange`]: values a fixed step apart; the count is derived.
//! - [`grid_space`], [`arange_grid`], [`grid_step`]: the same on several axes
//!   at once, flattened into one sequence with axis 0 varying fastest.
pub mod accum;
pub mod arange;
pub mod combine;
mod external;
pub mod grid;
pub mod gridspace;
pub mod gridstep;
pub mod lerp;
pub mod linspace;
pub mod map;
pub mod numeric;
pub mod space;
pub mod step;
pub mod transpose;

pub use accum::{IterAdapter, Product2, Sum2};
pub use arange::{arange, arange_grid, ToArange, ToArangeGrid};
pub use combine::{combine, Combine, CombineFn};
pub use gridspace::{grid_space, GridSpaceInterpolation, ToGridSpace};
pub use gridstep::{grid_step, GridStepInterpolation, ToGridStep};
pub use lerp::LinSpaceFn;
pub use linspace::{lin_space, LinearInterpolation, ToLinSpace};
pub use map::{Function, MapWith};
pub use numeric::Numeric;
pub use space::{check_double_ended_iter, Bound, Interpolate, IntoSpace, Space};
pub use step::Step;
pub use transpose::Transpose;
