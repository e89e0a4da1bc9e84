//! The concurrent statistical stretch engine, end to end.
//!
//! The pipeline derives the clip window from the image statistics, deals
//! the rows round-robin across a worker pool, stretches each worker's rows,
//! and reassembles the results into the output raster by each result's
//! carried row index.  [`stretch_raster`] runs the whole pipeline in one
//! execution context; a threaded driver can instead call
//! [`crate::stretch::worker_run`] once per worker, deliver the row results
//! over a channel in any order, and feed them to an
//! [`crate::aggregate::Aggregator`] — the contracts here show that the
//! finished raster is the same either way.

use vstd::arithmetic::div_mod::lemma_mod_bound;
use vstd::prelude::*;

use crate::FACTOR_LIMIT;
use crate::VALUE_LIMIT;
use crate::aggregate::Aggregator;
use crate::clip::ClipRange;
use crate::clip::StretchParameters;
use crate::clip::compute_clip_range;
use crate::error::StretchError;
use crate::raster::Raster;
use crate::stretch::lemma_nodata_preserved;
use crate::stretch::lemma_tone_in_range;
use crate::stretch::row_ok;
use crate::stretch::stretched_pixel;
use crate::stretch::worker_run;

verus! {

/// The clip window that [`compute_clip_range`] derives from `mean`,
/// `stdev` and the clip multiplier, as a value (defined whenever the
/// magnitudes respect the limits, so that the numerators fit).
pub open spec fn spec_clip(mean: int, stdev: int, params: StretchParameters) -> ClipRange {
    ClipRange {
        min_num: (mean * params.clip_den - stdev * params.clip_num) as i64,
        max_num: (mean * params.clip_den + stdev * params.clip_num) as i64,
        range_num: (2 * (stdev * params.clip_num)) as i64,
        den: params.clip_den,
    }
}

/// What it means for `out` to be the stretched version of `input` under
/// the window `clip` with `tones` tone levels: same geometry, same
/// sentinel, same storage class, and every pixel quantized by the stretch
/// formula (with the sentinel passed through).
pub open spec fn stretch_output_ok(input: Raster, clip: ClipRange, tones: int, out: Raster) -> bool {
    &&& out.wf()
    &&& out.rows_spec() == input.rows_spec()
    &&& out.columns == input.columns
    &&& out.nodata == input.nodata
    &&& out.data_type == input.data_type
    &&& forall|r: int, c: int|
        0 <= r < input.rows_spec() && 0 <= c < input.columns ==> #[trigger] out.px(r, c)
            == stretched_pixel(input.px(r, c), input.nodata as int, clip, tones)
}

/// The output raster is a deterministic function of the input and the
/// parameters alone: any two rasters that satisfy the engine's contract
/// for the same input, window and tone count are identical, cell for cell.
/// `stretch_output_ok` never mentions the worker count, the scheduling or
/// the arrival order, so runs with different pools agree as well.
pub proof fn lemma_stretch_deterministic(
    input: Raster,
    clip: ClipRange,
    tones: int,
    a: Raster,
    b: Raster,
)
    requires
        stretch_output_ok(input, clip, tones, a),
        stretch_output_ok(input, clip, tones, b),
    ensures
        a.rows_spec() == b.rows_spec(),
        a.columns == b.columns,
        a.nodata == b.nodata,
        a.data_type == b.data_type,
        a.grid() == b.grid(),
{
    assert forall|r: int| 0 <= r < a.rows_spec() implies a.grid()[r] =~= b.grid()[r] by {
        assert forall|c: int| 0 <= c < a.columns implies a.px(r, c) == b.px(r, c) by {
            assert(a.px(r, c) == stretched_pixel(input.px(r, c), input.nodata as int, clip, tones));
            assert(b.px(r, c) == stretched_pixel(input.px(r, c), input.nodata as int, clip, tones));
        }
    }
    assert(a.grid() =~= b.grid());
}

/// In the engine's output, a pixel is the no-data sentinel exactly where
/// the input pixel was: absent measurements pass through, and no valid
/// measurement can turn into the sentinel.  As at the pixel level, this
/// needs the sentinel to lie outside the tone range `[0, tones - 1]`.
pub proof fn lemma_output_nodata_iff(
    input: Raster,
    clip: ClipRange,
    tones: int,
    out: Raster,
    r: int,
    c: int,
)
    requires
        stretch_output_ok(input, clip, tones, out),
        clip.range_num >= 1,
        tones >= 1,
        !(0 <= input.nodata <= tones - 1),
        0 <= r < input.rows_spec(),
        0 <= c < input.columns,
    ensures
        (out.px(r, c) == input.nodata) <==> (input.px(r, c) == input.nodata),
{
    lemma_nodata_preserved(input.px(r, c), input.nodata as int, clip, tones);
}

/// Every valid pixel of the engine's output is a tone index: an integer in
/// the closed range `[0, tones - 1]`.
pub proof fn lemma_output_tones_in_range(
    input: Raster,
    clip: ClipRange,
    tones: int,
    out: Raster,
    r: int,
    c: int,
)
    requires
        stretch_output_ok(input, clip, tones, out),
        clip.range_num >= 1,
        tones >= 1,
        0 <= r < input.rows_spec(),
        0 <= c < input.columns,
        input.px(r, c) != input.nodata,
    ensures
        0 <= out.px(r, c) <= tones - 1,
{
    lemma_tone_in_range(input.px(r, c), clip, tones);
}

/// Relies on `num_cpus::get`: the number of available logical CPUs, which
/// its documentation promises to be at least 1.
#[verifier::external_body]
fn available_cpus() -> (n: usize)
    ensures
        1 <= n,
{
    num_cpus::get()
}

/// The worker pool size used when the caller does not pick one: the number
/// of parallel execution units available on the host, always at least 1.
pub fn default_worker_count() -> (n: usize)
    ensures
        1 <= n,
{
    available_cpus()
}

/// Runs the whole stretch pipeline: rejects colour-composite input, derives
/// the clip window from the statistics, stretches every row under the
/// round-robin partition, and gathers the results into the output raster by
/// their carried row indices.
///
/// Fails with `InvalidInput` exactly on colour-composite rasters, and with
/// `InvalidRange` exactly when the clip window is degenerate: of negative
/// width (`stdev * clip_num < 0`), or of zero width, where the quantization
/// formula would divide by zero.  On every other input it succeeds, and the
/// output is the stretched raster — a function of the input, the statistics
/// and the parameters only, not of `num_workers`.
pub fn stretch_raster(
    input: &Raster,
    mean: i64,
    stdev: i64,
    params: &StretchParameters,
    num_workers: usize,
) -> (result: Result<Raster, StretchError>)
    requires
        input.wf(),
        input.values_bounded(),
        -VALUE_LIMIT <= mean <= VALUE_LIMIT,
        -VALUE_LIMIT <= stdev <= VALUE_LIMIT,
        params.wf(),
        1 <= num_workers,
    ensures
        match result {
            Ok(out) => {
                &&& !input.data_type.is_colour()
                &&& stdev * params.clip_num > 0
                &&& stretch_output_ok(
                    *input,
                    spec_clip(mean as int, stdev as int, *params),
                    params.num_tones as int,
                    out,
                )
            },
            Err(StretchError::InvalidInput) => input.data_type.is_colour(),
            Err(StretchError::InvalidRange) => !input.data_type.is_colour() && stdev
                * params.clip_num <= 0,
        },
{
    if input.data_type.is_colour_composite() {
        return Err(StretchError::InvalidInput);
    }
    let clip = match compute_clip_range(mean, stdev, params) {
        Ok(c) => c,
        Err(e) => {
            return Err(e);
        },
    };
    if clip.range_num == 0 {
        return Err(StretchError::InvalidRange);
    }
    assert(clip == spec_clip(mean as int, stdev as int, *params));
    let tones = params.num_tones;
    let rows = input.rows_count();
    let mut agg = Aggregator::new(rows, input.columns, input.nodata, input.data_type);
    let mut tid: usize = 0;
    while tid < num_workers
        invariant
            input.wf(),
            input.values_bounded(),
            clip.wf(),
            clip.range_num >= 1,
            1 <= tones <= FACTOR_LIMIT,
            tid <= num_workers,
            1 <= num_workers,
            rows == input.rows_spec(),
            agg.wf(),
            agg.rows_spec() == rows,
            agg.columns == input.columns,
            agg.nodata == input.nodata,
            agg.data_type == input.data_type,
            forall|r: int| #![trigger agg.row_written(r)]
                0 <= r < rows ==> (agg.row_written(r) <==> r % (num_workers as int) < tid),
            forall|r: int|
                0 <= r < rows && #[trigger] agg.row_written(r) ==> gathered_row_ok(
                    *input,
                    clip,
                    tones as int,
                    agg,
                    r,
                ),
        decreases num_workers - tid,
    {
        let mut results = worker_run(input, tid, num_workers, &clip, tones);
        let ghost all = results@;
        while results.len() > 0
            invariant
                input.wf(),
                input.values_bounded(),
                clip.wf(),
                clip.range_num >= 1,
                1 <= tones <= FACTOR_LIMIT,
                tid < num_workers,
                rows == input.rows_spec(),
                agg.wf(),
                agg.rows_spec() == rows,
                agg.columns == input.columns,
                agg.nodata == input.nodata,
                agg.data_type == input.data_type,
                results@.len() <= all.len(),
                results@ =~= all.subrange(0, results@.len() as int),
                forall|i: int|
                    0 <= i < all.len() ==> {
                        &&& row_ok(*input, clip, tones as int, #[trigger] all[i])
                        &&& all[i].row_index as int % num_workers as int == tid
                    },
                forall|i: int, j: int| 0 <= i < j < all.len() ==> all[i].row_index < all[j].row_index,
                forall|r: int| #![trigger agg.row_written(r)]
                    0 <= r < rows ==> (agg.row_written(r) <==> (r % (num_workers as int) < tid
                        || exists|i: int|
                            results@.len() <= i < all.len() && (#[trigger] all[i].row_index)
                                == r)),
                forall|r: int|
                    0 <= r < rows && #[trigger] agg.row_written(r) ==> gathered_row_ok(
                        *input,
                        clip,
                        tones as int,
                        agg,
                        r,
                    ),
            decreases results@.len(),
        {
            let ghost n = results@.len() as int;
            let rr = results.pop().unwrap();
            proof {
                assert(rr == all[n - 1]);
                assert(results@ =~= all.subrange(0, n - 1));
                let r0 = rr.row_index as int;
                assert(row_ok(*input, clip, tones as int, all[n - 1]));
                // The row cannot have been written yet: its worker id says
                // it was not written by an earlier worker, and within this
                // worker's batch the indices are strictly increasing, so no
                // already-pushed result carried it.
                if exists|i: int| n <= i < all.len() && (#[trigger] all[i].row_index) == r0 {
                    let i = choose|i: int| n <= i < all.len() && (#[trigger] all[i].row_index) == r0;
                    assert(all[n - 1].row_index < all[i].row_index);
                    assert(false);
                }
                assert(!agg.row_written(r0));
            }
            let ghost prev = agg;
            agg.push_row(rr);
            proof {
                let r0 = rr.row_index as int;
                assert forall|r: int| #![trigger agg.row_written(r)]
                    0 <= r < rows implies (agg.row_written(r) <==> (r % (num_workers as int) < tid
                        || exists|i: int|
                            results@.len() <= i < all.len() && (#[trigger] all[i].row_index)
                                == r)) by {
                    if r == r0 {
                        assert(all[n - 1].row_index == r);
                        assert(agg.row_written(r));
                    } else {
                        assert(agg.row_written(r) == prev.row_written(r));
                        if exists|i: int| n - 1 <= i < all.len() && (#[trigger] all[i].row_index)
                            == r {
                            let i = choose|i: int|
                                n - 1 <= i < all.len() && (#[trigger] all[i].row_index) == r;
                            assert(i != n - 1);
                        }
                    }
                }
                assert forall|r: int|
                    0 <= r < rows && #[trigger] agg.row_written(r) implies gathered_row_ok(
                    *input,
                    clip,
                    tones as int,
                    agg,
                    r,
                ) by {
                    if r == r0 {
                        assert(agg.row_values(r) == rr.values@);
                    } else {
                        assert(agg.row_values(r) == prev.row_values(r));
                        assert(prev.row_written(r));
                    }
                }
            }
        }
        proof {
            assert forall|r: int| #![trigger agg.row_written(r)]
                0 <= r < rows implies (agg.row_written(r) <==> r % (num_workers as int) < tid
                    + 1) by {
                lemma_mod_bound(r, num_workers as int);
                if r % num_workers as int == tid {
                    assert(exists|i: int|
                        0 <= i < all.len() && (#[trigger] all[i].row_index) == r);
                }
            }
        }
        tid += 1;
    }
    proof {
        assert forall|r: int| 0 <= r < rows implies agg.row_written(r) by {
            lemma_mod_bound(r, num_workers as int);
        }
    }
    let out = agg.finish();
    proof {
        assert forall|r: int, c: int|
            0 <= r < input.rows_spec() && 0 <= c < input.columns implies #[trigger] out.px(r, c)
            == stretched_pixel(input.px(r, c), input.nodata as int, clip, tones as int) by {
            assert(agg.row_written(r));
            assert(gathered_row_ok(*input, clip, tones as int, agg, r));
            assert(out.data@[r]@ == agg.row_values(r));
        }
    }
    Ok(out)
}

/// Whether the values the aggregator holds for row `r` are the correctly
/// stretched version of row `r` of `input`.
pub open spec fn gathered_row_ok(
    input: Raster,
    clip: ClipRange,
    tones: int,
    agg: Aggregator,
    r: int,
) -> bool {
    &&& agg.row_values(r).len() == input.columns
    &&& forall|c: int|
        0 <= c < input.columns ==> (#[trigger] agg.row_values(r)[c]) as int == stretched_pixel(
            input.px(r, c),
            input.nodata as int,
            clip,
            tones,
        )
}

} // verus!
