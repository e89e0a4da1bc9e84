//! The in-memory raster model.
//!
//! A raster is a rectangular grid of fixed-point intensity samples plus a
//! no-data sentinel.  Real-valued pixels are carried as `i64` at a scale
//! chosen by the caller (the same scale as the image statistics handed to
//! the engine); the sentinel is compared for equality only and never enters
//! any arithmetic, so it may be any `i64`.

use vstd::prelude::*;

use crate::VALUE_LIMIT;

verus! {

/// The storage class of a raster's samples.  The stretch accepts only
/// single-band greyscale data; the colour-composite kinds are recognized so
/// that they can be rejected explicitly.
#[derive(Clone, Copy, Debug, PartialEq, Eq, Structural)]
pub enum RasterDataType {
    /// One numeric sample per pixel.
    Greyscale,
    /// Three 8-bit colour channels per pixel.
    Rgb24,
    /// Three 16-bit colour channels per pixel.
    Rgb48,
    /// Four 8-bit channels per pixel (colour plus alpha).
    Rgba32,
}

impl RasterDataType {
    /// Whether this kind packs several colour channels into one pixel.
    pub open spec fn is_colour(self) -> bool {
        self is Rgb24 || self is Rgb48 || self is Rgba32
    }

    /// Runtime test matching [`RasterDataType::is_colour`].
    pub fn is_colour_composite(&self) -> (b: bool)
        ensures
            b == self.is_colour(),
    {
        matches!(*self, RasterDataType::Rgb24 | RasterDataType::Rgb48 | RasterDataType::Rgba32)
    }
}

/// A single-band raster: `data` holds one `Vec` per row, each of length
/// `columns`; `nodata` marks pixels with no valid measurement.
pub struct Raster {
    /// Number of samples in every row.
    pub columns: usize,
    /// Sentinel value standing for "no measurement here".
    pub nodata: i64,
    /// Storage class of the samples.
    pub data_type: RasterDataType,
    /// Row-major sample grid; `data[r][c]` is the pixel at row `r`, column `c`.
    pub data: Vec<Vec<i64>>,
}

impl Raster {
    /// Number of rows.
    pub open spec fn rows_spec(&self) -> int {
        self.data@.len() as int
    }

    /// The pixel at row `r`, column `c`, as a mathematical integer.
    pub open spec fn px(&self, r: int, c: int) -> int {
        self.data@[r]@[c] as int
    }

    /// The whole sample grid as a sequence of rows of mathematical integers.
    pub open spec fn grid(&self) -> Seq<Seq<int>> {
        Seq::new(
            self.rows_spec() as nat,
            |r: int| Seq::new(self.columns as nat, |c: int| self.px(r, c)),
        )
    }

    /// Geometric well-formedness: every row has exactly `columns` samples.
    pub open spec fn wf(&self) -> bool {
        forall|r: int|
            0 <= r < self.data@.len() ==> (#[trigger] self.data@[r])@.len() == self.columns
    }

    /// Every valid (non-sentinel) pixel is within the magnitude the stretch
    /// arithmetic admits.  The sentinel itself is unconstrained: it is only
    /// ever compared, never computed with.
    pub open spec fn values_bounded(&self) -> bool {
        forall|r: int, c: int|
            0 <= r < self.rows_spec() && 0 <= c < self.columns ==> {
                let z = #[trigger] self.px(r, c);
                z == self.nodata || -VALUE_LIMIT <= z <= VALUE_LIMIT
            }
    }

    /// Number of rows.
    pub fn rows_count(&self) -> (n: usize)
        ensures
            n == self.rows_spec(),
    {
        self.data.len()
    }

    /// The pixel at row `r`, column `c`.
    pub fn value_at(&self, r: usize, c: usize) -> (z: i64)
        requires
            self.wf(),
            r < self.rows_spec(),
            c < self.columns,
        ensures
            z == self.px(r as int, c as int),
    {
        self.data[r][c]
    }

    /// Runtime validation of the two input invariants, for callers that
    /// receive a raster from outside and cannot establish them otherwise.
    pub fn is_valid_input(&self) -> (b: bool)
        ensures
            b == (self.wf() && self.values_bounded()),
    {
        let rows = self.data.len();
        let mut r: usize = 0;
        while r < rows
            invariant
                r <= rows,
                rows == self.rows_spec(),
                forall|i: int|
                    0 <= i < r ==> (#[trigger] self.data@[i])@.len() == self.columns,
                forall|i: int, c: int|
                    0 <= i < r && 0 <= c < self.columns ==> {
                        let z = #[trigger] self.px(i, c);
                        z == self.nodata || -VALUE_LIMIT <= z <= VALUE_LIMIT
                    },
            decreases rows - r,
        {
            let row = &self.data[r];
            if row.len() != self.columns {
                return false;
            }
            let mut c: usize = 0;
            while c < self.columns
                invariant
                    c <= self.columns,
                    r < rows,
                    rows == self.rows_spec(),
                    self.data@[r as int]@.len() == self.columns,
                    row == self.data@[r as int],
                    forall|j: int|
                        0 <= j < c ==> {
                            let z = #[trigger] self.px(r as int, j);
                            z == self.nodata || -VALUE_LIMIT <= z <= VALUE_LIMIT
                        },
                decreases self.columns - c,
            {
                let z = row[c];
                if z != self.nodata && (z < -VALUE_LIMIT || z > VALUE_LIMIT) {
                    assert(self.px(r as int, c as int) == z);
                    return false;
                }
                c += 1;
            }
            r += 1;
        }
        true
    }
}

} // verus!
