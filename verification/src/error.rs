//! Errors reported by the stretch engine.

use vstd::prelude::*;

verus! {

/// Why a stretch run was refused before any row was processed.
#[derive(Clone, Copy, Debug, PartialEq, Eq, Structural)]
pub enum StretchError {
    /// The raster is a multi-channel colour composite, which the stretch
    /// does not accept: it works on single-band greyscale data only.
    InvalidInput,
    /// The clip window derived from the statistics is degenerate: its
    /// width is negative, or zero (a zero-width window would make the
    /// quantization formula divide by zero, so it is rejected outright
    /// rather than left to numeric division semantics).
    InvalidRange,
}

} // verus!
