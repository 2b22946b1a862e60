//! Piecewise-linear interpolation of tabulated samples at ascending query
//! points, generic over the numeric type of the samples.
//!
//! A table is a non-decreasing reference sequence `x` and a value sequence
//! `y` of the same length. [`binary_search`] finds the interval of `x` that
//! holds the first query point; [`monointerp`] then walks the table forward
//! once, blending the two ends of the interval that holds each query point.
//!
//! The contracts hold for every element type whose comparisons form a total
//! order and whose operators compute what the type specifies for them; the
//! primitive integer types are such types. They say which inputs fail and
//! with which error, and give each value of a successful call as a blend in
//! the arithmetic of the element type.
//!
//! - [`order`]: total orders and non-decreasing sequences.
//! - [`sample`]: the element type and the arithmetic of one blend.
//! - [`locate`]: the floor search.
//! - [`interp`]: the walk and the interpolator.
//! - [`laws`]: what holds of the interpolator on every table.
//! - [`integers`]: the primitive integer types as element types.

#![allow(unused_imports)]

pub mod order;
pub mod sample;
pub mod locate;
pub mod interp;
pub mod laws;
pub mod integers;

pub use interp::{monointerp, InterpError};
pub use locate::binary_search;
pub use sample::Sample;
