//! A statistical contrast stretch for single-band greyscale rasters.
//!
//! Pixel intensities are rescaled into a fixed number of discrete tone
//! levels using a clip window derived from the image's mean and standard
//! deviation.  All real-valued quantities are carried as fixed-point
//! integers at a scale chosen by the caller, which makes every step of the
//! stretch exact integer arithmetic.

pub mod aggregate;
mod arith;
pub mod clip;
pub mod engine;
pub mod error;
pub mod partition;
pub mod raster;
pub mod stretch;

use vstd::prelude::*;

verus! {

/// Largest magnitude admitted for a pixel value, a mean or a standard
/// deviation (in the caller's fixed-point scale).
pub const VALUE_LIMIT: i64 = 0x100_0000_0000;

/// Largest magnitude admitted for the clip multiplier's numerator and
/// denominator and for the tone count.
pub const FACTOR_LIMIT: i64 = 0x10_0000;

} // verus!
