//! The result aggregator.
//!
//! The aggregator owns the output grid.  It consumes row results in
//! whatever order they arrive and places each by the row index carried in
//! the message — never by arrival order — so the finished grid does not
//! depend on worker scheduling or message delivery order.  Each row may be
//! written exactly once; the run is complete only when every row has been.

use vstd::arithmetic::div_mod::lemma_div_is_ordered;
use vstd::arithmetic::div_mod::lemma_div_multiples_vanish;
use vstd::prelude::*;

use crate::raster::Raster;
use crate::raster::RasterDataType;
use crate::stretch::RowResult;

verus! {

/// How many entries of `s` are `true`.
pub open spec fn count_true(s: Seq<bool>) -> int
    decreases s.len(),
{
    if s.len() == 0 {
        0
    } else {
        count_true(s.drop_last()) + if s.last() {
            1int
        } else {
            0int
        }
    }
}

/// `count_true` never exceeds the sequence's length.
proof fn lemma_count_true_bounds(s: Seq<bool>)
    ensures
        0 <= count_true(s) <= s.len(),
    decreases s.len(),
{
    if s.len() > 0 {
        lemma_count_true_bounds(s.drop_last());
    }
}

/// A sequence with a `false` entry has strictly fewer `true`s than entries.
proof fn lemma_count_true_lt(s: Seq<bool>, i: int)
    requires
        0 <= i < s.len(),
        !s[i],
    ensures
        count_true(s) < s.len(),
    decreases s.len(),
{
    if i == s.len() - 1 {
        lemma_count_true_bounds(s.drop_last());
    } else {
        lemma_count_true_lt(s.drop_last(), i);
    }
}

/// Flipping one `false` entry to `true` raises the count by one.
proof fn lemma_count_true_update(s: Seq<bool>, i: int)
    requires
        0 <= i < s.len(),
        !s[i],
    ensures
        count_true(s.update(i, true)) == count_true(s) + 1,
    decreases s.len(),
{
    let t = s.update(i, true);
    if i == s.len() - 1 {
        assert(t.drop_last() =~= s.drop_last());
    } else {
        assert(t.drop_last() =~= s.drop_last().update(i, true));
        lemma_count_true_update(s.drop_last(), i);
    }
}

/// Collects the stretched rows into the output raster, in arbitrary
/// arrival order, each placed at the row index its message carries.
pub struct Aggregator {
    /// Number of samples in every output row.
    pub columns: usize,
    /// The output's no-data sentinel (the input's, passed through).
    pub nodata: i64,
    /// The output's storage class (the input's, passed through).
    pub data_type: RasterDataType,
    /// The output grid under construction; row `r` is meaningful only once
    /// `written[r]` holds.
    pub data: Vec<Vec<i64>>,
    /// Which rows have been received so far.
    pub written: Vec<bool>,
    /// How many rows have been received so far.
    pub received: usize,
}

impl Aggregator {
    /// Number of rows the finished output will have.
    pub open spec fn rows_spec(&self) -> int {
        self.written@.len() as int
    }

    /// Whether row `r` has been received.
    pub open spec fn row_written(&self, r: int) -> bool {
        self.written@[r]
    }

    /// The values stored for row `r` (meaningful once the row is written).
    pub open spec fn row_values(&self, r: int) -> Seq<i64> {
        self.data@[r]@
    }

    /// Internal invariant: the grid and the bookkeeping agree — one flag
    /// per row, `received` counts the flags set, and every written row has
    /// exactly `columns` samples.
    pub open spec fn wf(&self) -> bool {
        &&& self.data@.len() == self.written@.len()
        &&& self.received == count_true(self.written@)
        &&& forall|r: int|
            0 <= r < self.written@.len() && self.written@[r] ==> (#[trigger] self.data@[r])@.len()
                == self.columns
    }

    /// A fresh aggregator for a `rows` by `columns` output raster with no
    /// row received yet.
    pub fn new(rows: usize, columns: usize, nodata: i64, data_type: RasterDataType) -> (agg:
        Aggregator)
        ensures
            agg.wf(),
            agg.rows_spec() == rows,
            agg.columns == columns,
            agg.nodata == nodata,
            agg.data_type == data_type,
            agg.received == 0,
            forall|r: int| 0 <= r < rows ==> !agg.row_written(r),
    {
        let mut data: Vec<Vec<i64>> = Vec::new();
        let mut written: Vec<bool> = Vec::new();
        let mut r: usize = 0;
        while r < rows
            invariant
                r <= rows,
                data@.len() == r,
                written@.len() == r,
                count_true(written@) == 0,
                forall|i: int| 0 <= i < r ==> !written@[i],
            decreases rows - r,
        {
            let ghost before = written@;
            data.push(Vec::new());
            written.push(false);
            proof {
                assert(written@.drop_last() =~= before);
            }
            r += 1;
        }
        Aggregator { columns, nodata, data_type, data, written, received: 0 }
    }

    /// Whether every row has been received.
    pub fn is_complete(&self) -> (b: bool)
        requires
            self.wf(),
        ensures
            b == (self.received == self.rows_spec()),
    {
        self.received == self.written.len()
    }

    /// Accepts one row result and writes it at its carried row index.  The
    /// row must not have been written before: under the round-robin
    /// partition every row is produced exactly once, so a duplicate can
    /// only mean a corrupted message stream.
    pub fn push_row(&mut self, rr: RowResult)
        requires
            old(self).wf(),
            rr.row_index < old(self).rows_spec(),
            !old(self).row_written(rr.row_index as int),
            rr.values@.len() == old(self).columns,
        ensures
            final(self).wf(),
            final(self).columns == old(self).columns,
            final(self).nodata == old(self).nodata,
            final(self).data_type == old(self).data_type,
            final(self).rows_spec() == old(self).rows_spec(),
            final(self).received == old(self).received + 1,
            final(self).written@ == old(self).written@.update(rr.row_index as int, true),
            final(self).data@ == old(self).data@.update(rr.row_index as int, rr.values),
    {
        let rows = self.written.len();
        proof {
            lemma_count_true_lt(self.written@, rr.row_index as int);
            lemma_count_true_update(self.written@, rr.row_index as int);
            assert(self.received < rows);
        }
        let idx = rr.row_index;
        self.data[idx] = rr.values;
        self.written[idx] = true;
        self.received += 1;
    }

    /// Hands back the finished output raster.  Callable only when every row
    /// has been received; the result carries the input's geometry, sentinel
    /// and storage class, and row `r` holds exactly the values that were
    /// pushed for row `r`.
    pub fn finish(self) -> (out: Raster)
        requires
            self.wf(),
            forall|r: int| 0 <= r < self.rows_spec() ==> self.row_written(r),
        ensures
            out.wf(),
            out.rows_spec() == self.rows_spec(),
            out.columns == self.columns,
            out.nodata == self.nodata,
            out.data_type == self.data_type,
            forall|r: int| 0 <= r < self.rows_spec() ==> out.data@[r]@ == self.row_values(r),
    {
        proof {
            assert forall|r: int|
                0 <= r < self.data@.len() implies (#[trigger] self.data@[r])@.len()
                == self.columns by {
                assert(self.row_written(r));
            }
        }
        Raster {
            columns: self.columns,
            nodata: self.nodata,
            data_type: self.data_type,
            data: self.data,
        }
    }
}

/// The share of `rows` represented by `received` rows, as a whole
/// percentage rounded down; the aggregator's progress reporting prints it
/// only when it changes.
pub fn progress_percent(received: usize, rows: usize) -> (p: usize)
    requires
        1 <= rows,
        received <= rows,
    ensures
        p == 100 * received as int / rows as int,
        p <= 100,
{
    let wide: u128 = (100u128 * received as u128) / (rows as u128);
    proof {
        lemma_div_is_ordered(100 * received as int, 100 * rows as int, rows as int);
        lemma_div_multiples_vanish(100, rows as int);
    }
    wide as usize
}

} // verus!
