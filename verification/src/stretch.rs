//! The per-pixel quantization and the per-row stretch worker.
//!
//! For a valid pixel `z` the stretch computes
//! `floor((z - min_val) / value_range * num_tones)` and clamps the result to
//! the closed tone range `[0, num_tones - 1]`; the no-data sentinel passes
//! through unchanged.  With the window held as rationals over `den`
//! (`min_val == min_num / den`, `value_range == range_num / den`) the raw
//! quotient is exactly `(z * den - min_num) * num_tones / range_num` in
//! integer (floor) division, so the whole computation is exact.

use vstd::arithmetic::div_mod::lemma_div_multiples_vanish;
use vstd::arithmetic::div_mod::lemma_div_of0;
use vstd::arithmetic::div_mod::lemma_fundamental_div_mod;
use vstd::arithmetic::div_mod::lemma_mod_bound;
use vstd::prelude::*;

use crate::FACTOR_LIMIT;
use crate::VALUE_LIMIT;
use crate::arith::lemma_neg_times_pos;
use crate::arith::lemma_prod_bound;
use crate::clip::ClipRange;
use crate::raster::Raster;

verus! {

/// The unclamped tone index of a valid pixel `z`:
/// `floor((z - min_val) / value_range * num_tones)`, written over the
/// window's numerators.  Meaningful only for a positive-width window.
pub open spec fn raw_tone(z: int, clip: ClipRange, tones: int) -> int
    recommends
        clip.range_num >= 1,
{
    ((z * clip.den - clip.min_num) * tones) / (clip.range_num as int)
}

/// The tone a valid pixel maps to: the raw tone hard-clipped to the closed
/// range `[0, tones - 1]`.
pub open spec fn tone_of(z: int, clip: ClipRange, tones: int) -> int
    recommends
        clip.range_num >= 1,
        tones >= 1,
{
    let raw = raw_tone(z, clip, tones);
    if raw < 0 {
        0
    } else if raw >= tones {
        tones - 1
    } else {
        raw
    }
}

/// What the stretch makes of one pixel: the no-data sentinel passes through
/// unchanged, every other value is quantized to its tone.
pub open spec fn stretched_pixel(z: int, nodata: int, clip: ClipRange, tones: int) -> int
    recommends
        clip.range_num >= 1,
        tones >= 1,
{
    if z == nodata {
        nodata
    } else {
        tone_of(z, clip, tones)
    }
}

/// A negative number divided by a positive one stays negative
/// (floor division).
proof fn lemma_div_neg(x: int, d: int)
    requires
        x < 0,
        0 < d,
    ensures
        x / d < 0,
{
    lemma_fundamental_div_mod(x, d);
    lemma_mod_bound(x, d);
    if x / d >= 0 {
        assert(d * (x / d) >= 0) by (nonlinear_arith)
            requires
                0 < d,
                x / d >= 0,
        ;
    }
}

/// Every tone is a valid index: the clamp confines the output of the
/// quantization to the closed range `[0, tones - 1]`, whatever the pixel.
pub proof fn lemma_tone_in_range(z: int, clip: ClipRange, tones: int)
    requires
        clip.range_num >= 1,
        tones >= 1,
    ensures
        0 <= tone_of(z, clip, tones) <= tones - 1,
{
}

/// The no-data sentinel is preserved in both directions: an output pixel is
/// the sentinel exactly when the input pixel was.  This needs the sentinel
/// to lie outside the tone range `[0, tones - 1]` (as the conventional
/// large-negative sentinels do); a sentinel that collides with a tone index
/// is indistinguishable from that tone in the output.
pub proof fn lemma_nodata_preserved(z: int, nodata: int, clip: ClipRange, tones: int)
    requires
        clip.range_num >= 1,
        tones >= 1,
        !(0 <= nodata <= tones - 1),
    ensures
        (stretched_pixel(z, nodata, clip, tones) == nodata) <==> (z == nodata),
{
    if z != nodata {
        lemma_tone_in_range(z, clip, tones);
    }
}

/// A pixel exactly at the window's lower bound maps to tone `0`.
pub proof fn lemma_min_val_maps_to_zero(z: int, clip: ClipRange, tones: int)
    requires
        clip.range_num >= 1,
        tones >= 1,
        z * clip.den == clip.min_num,
    ensures
        tone_of(z, clip, tones) == 0,
{
    assert((z * clip.den - clip.min_num) * tones == 0);
    lemma_div_of0(clip.range_num as int);
}

/// A pixel exactly at the window's upper bound maps to the top tone
/// `tones - 1`: the raw quotient there is exactly `tones`, which the clamp
/// folds back onto the last tone.
pub proof fn lemma_max_val_maps_to_top(z: int, clip: ClipRange, tones: int)
    requires
        clip.range_num >= 1,
        tones >= 1,
        clip.range_num == clip.max_num - clip.min_num,
        z * clip.den == clip.max_num,
    ensures
        raw_tone(z, clip, tones) == tones,
        tone_of(z, clip, tones) == tones - 1,
{
    let r = clip.range_num as int;
    assert((z * clip.den - clip.min_num) * tones == r * tones);
    lemma_div_multiples_vanish(tones, r);
}

/// Quantizes one pixel.
pub fn stretch_pixel(z: i64, nodata: i64, clip: &ClipRange, tones: i64) -> (t: i64)
    requires
        clip.wf(),
        clip.range_num >= 1,
        1 <= tones <= FACTOR_LIMIT,
        z == nodata || -VALUE_LIMIT <= z <= VALUE_LIMIT,
    ensures
        t == stretched_pixel(z as int, nodata as int, *clip, tones as int),
        z != nodata ==> 0 <= t <= tones - 1,
{
    if z == nodata {
        return nodata;
    }
    proof {
        lemma_prod_bound(z as int, clip.den as int, VALUE_LIMIT as int, FACTOR_LIMIT as int);
    }
    let scaled_z: i128 = (z as i128) * (clip.den as i128);
    let offset: i128 = scaled_z - (clip.min_num as i128);
    if offset < 0 {
        proof {
            lemma_neg_times_pos(offset as int, tones as int);
            lemma_div_neg(offset as int * tones as int, clip.range_num as int);
        }
        return 0;
    }
    proof {
        lemma_prod_bound(
            offset as int,
            tones as int,
            3 * VALUE_LIMIT * FACTOR_LIMIT,
            FACTOR_LIMIT as int,
        );
    }
    let numerator: u128 = (offset as u128) * (tones as u128);
    let quotient: u128 = numerator / (clip.range_num as u128);
    if quotient >= tones as u128 {
        tones - 1
    } else {
        quotient as i64
    }
}

/// One row's worth of stretched output, carried from a worker to the
/// aggregator together with the row's semantic index; the aggregator places
/// it by this index, never by arrival order.
pub struct RowResult {
    /// Which row of the raster these values belong to.
    pub row_index: usize,
    /// The stretched values of that row, one per column.
    pub values: Vec<i64>,
}

/// Whether `rr` is the correctly stretched version of row `rr.row_index`
/// of `input`.
pub open spec fn row_ok(input: Raster, clip: ClipRange, tones: int, rr: RowResult) -> bool {
    &&& rr.row_index < input.rows_spec()
    &&& rr.values@.len() == input.columns
    &&& forall|c: int|
        0 <= c < input.columns ==> rr.values@[c] as int == stretched_pixel(
            input.px(rr.row_index as int, c),
            input.nodata as int,
            clip,
            tones,
        )
}

/// Stretches one row of the input raster.
pub fn stretch_row(input: &Raster, row: usize, clip: &ClipRange, tones: i64) -> (out: Vec<i64>)
    requires
        input.wf(),
        input.values_bounded(),
        row < input.rows_spec(),
        clip.wf(),
        clip.range_num >= 1,
        1 <= tones <= FACTOR_LIMIT,
    ensures
        out@.len() == input.columns,
        forall|c: int|
            0 <= c < input.columns ==> out@[c] as int == stretched_pixel(
                input.px(row as int, c),
                input.nodata as int,
                *clip,
                tones as int,
            ),
{
    let mut out: Vec<i64> = Vec::new();
    let mut c: usize = 0;
    while c < input.columns
        invariant
            c <= input.columns,
            input.wf(),
            input.values_bounded(),
            row < input.rows_spec(),
            clip.wf(),
            clip.range_num >= 1,
            1 <= tones <= FACTOR_LIMIT,
            out@.len() == c,
            forall|j: int|
                0 <= j < c ==> out@[j] as int == stretched_pixel(
                    input.px(row as int, j),
                    input.nodata as int,
                    *clip,
                    tones as int,
                ),
        decreases input.columns - c,
    {
        let z = input.value_at(row, c);
        out.push(stretch_pixel(z, input.nodata, clip, tones));
        c += 1;
    }
    out
}

/// Runs one stretch worker to completion: stretches every row assigned to
/// worker `tid` under the round-robin partition, in increasing row order,
/// and returns the row results in that order.
pub fn worker_run(
    input: &Raster,
    tid: usize,
    num_workers: usize,
    clip: &ClipRange,
    tones: i64,
) -> (out: Vec<RowResult>)
    requires
        input.wf(),
        input.values_bounded(),
        tid < num_workers,
        clip.wf(),
        clip.range_num >= 1,
        1 <= tones <= FACTOR_LIMIT,
    ensures
        forall|i: int|
            0 <= i < out@.len() ==> {
                &&& row_ok(*input, *clip, tones as int, #[trigger] out@[i])
                &&& out@[i].row_index as int % num_workers as int == tid
            },
        forall|i: int, j: int|
            0 <= i < j < out@.len() ==> out@[i].row_index < out@[j].row_index,
        forall|r: int|
            0 <= r < input.rows_spec() && #[trigger] (r % num_workers as int) == tid
                ==> exists|i: int| 0 <= i < out@.len() && (#[trigger] out@[i].row_index) == r,
{
    let rows = input.rows_count();
    let mut out: Vec<RowResult> = Vec::new();
    let mut r: usize = 0;
    while r < rows
        invariant
            r <= rows,
            rows == input.rows_spec(),
            input.wf(),
            input.values_bounded(),
            tid < num_workers,
            clip.wf(),
            clip.range_num >= 1,
            1 <= tones <= FACTOR_LIMIT,
            forall|i: int|
                0 <= i < out@.len() ==> {
                    &&& row_ok(*input, *clip, tones as int, #[trigger] out@[i])
                    &&& out@[i].row_index as int % num_workers as int == tid
                    &&& out@[i].row_index < r
                },
            forall|i: int, j: int|
                0 <= i < j < out@.len() ==> out@[i].row_index < out@[j].row_index,
            forall|q: int|
                0 <= q < r && #[trigger] (q % num_workers as int) == tid
                    ==> exists|i: int| 0 <= i < out@.len() && (#[trigger] out@[i].row_index) == q,
        decreases rows - r,
    {
        let ghost prev = out@;
        if r % num_workers == tid {
            let values = stretch_row(input, r, clip, tones);
            out.push(RowResult { row_index: r, values });
        }
        proof {
            assert forall|q: int|
                0 <= q < r + 1 && #[trigger] (q % num_workers as int) == tid implies exists|i: int|
                0 <= i < out@.len() && (#[trigger] out@[i].row_index) == q by {
                if q < r {
                    let i = choose|i: int|
                        0 <= i < prev.len() && (#[trigger] prev[i].row_index) == q;
                    assert(out@[i].row_index == q);
                } else {
                    assert(out@[prev.len() as int].row_index == q);
                }
            }
        }
        r += 1;
    }
    out
}

} // verus!
