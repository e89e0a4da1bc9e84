use contrast_stretch::aggregate::Aggregator;
use contrast_stretch::aggregate::progress_percent;
use contrast_stretch::clip::ClipRange;
use contrast_stretch::clip::StretchParameters;
use contrast_stretch::clip::compute_clip_range;
use contrast_stretch::engine::default_worker_count;
use contrast_stretch::engine::stretch_raster;
use contrast_stretch::error::StretchError;
use contrast_stretch::partition::assign_worker;
use contrast_stretch::raster::Raster;
use contrast_stretch::raster::RasterDataType;
use contrast_stretch::stretch::RowResult;
use contrast_stretch::stretch::stretch_pixel;
use contrast_stretch::stretch::stretch_row;
use contrast_stretch::stretch::worker_run;

const NODATA: i64 = -32768;

fn grey_raster(data: Vec<Vec<i64>>, columns: usize) -> Raster {
    Raster { columns, nodata: NODATA, data_type: RasterDataType::Greyscale, data }
}

fn params(clip_num: i64, clip_den: i64, num_tones: i64) -> StretchParameters {
    StretchParameters { clip_num, clip_den, num_tones }
}

// A 2-by-2 raster with values [[1, 5], [nodata, 9]], mean 5 and stdev 4,
// clip multiplier 1, four tones: the window is [1, 9] of width 8, and the
// pixels map to [[0, 2], [nodata, 3]] (9 hits the raw tone 4, clamped to 3).
#[test]
fn scenario_two_by_two() {
    let input = grey_raster(vec![vec![1, 5], vec![NODATA, 9]], 2);
    let out = stretch_raster(&input, 5, 4, &params(1, 1, 4), 2).unwrap();
    assert_eq!(out.data, vec![vec![0, 2], vec![NODATA, 3]]);
    assert_eq!(out.columns, 2);
    assert_eq!(out.nodata, NODATA);
}

#[test]
fn clip_range_of_scenario() {
    let c = compute_clip_range(5, 4, &params(1, 1, 4)).unwrap();
    assert_eq!(c.min_num, 1);
    assert_eq!(c.max_num, 9);
    assert_eq!(c.range_num, 8);
    assert_eq!(c.den, 1);
}

// A fractional clip multiplier keeps the window exact: mean 5, stdev 4,
// clip 1/2 gives the window [3, 7] held as numerators over denominator 2.
#[test]
fn clip_range_with_fractional_multiplier() {
    let c = compute_clip_range(5, 4, &params(1, 2, 4)).unwrap();
    assert_eq!(c.min_num, 6);
    assert_eq!(c.max_num, 14);
    assert_eq!(c.range_num, 8);
    assert_eq!(c.den, 2);
    // Window [3, 7], width 4, four tones: pixel 5 sits at tone 2.
    assert_eq!(stretch_pixel(5, NODATA, &c, 4), 2);
}

#[test]
fn negative_width_window_is_invalid_range() {
    let r = compute_clip_range(5, 4, &params(-1, 1, 4));
    assert!(matches!(r, Err(StretchError::InvalidRange)));
}

// A pixel exactly at min_val maps to tone 0; one exactly at max_val maps to
// the top tone (its raw quotient is the tone count, folded back by the clamp).
#[test]
fn boundary_pixels_map_to_extreme_tones() {
    // mean 100, stdev 10, clip 2: window [80, 120].
    let c = compute_clip_range(100, 10, &params(2, 1, 256)).unwrap();
    assert_eq!(c.min_num, 80);
    assert_eq!(c.max_num, 120);
    assert_eq!(stretch_pixel(80, NODATA, &c, 256), 0);
    assert_eq!(stretch_pixel(120, NODATA, &c, 256), 255);
}

// Values outside the window are hard-clipped to the nearest boundary tone.
#[test]
fn out_of_window_pixels_are_clamped() {
    let c = compute_clip_range(100, 10, &params(2, 1, 256)).unwrap();
    assert_eq!(stretch_pixel(50, NODATA, &c, 256), 0);
    assert_eq!(stretch_pixel(500, NODATA, &c, 256), 255);
}

#[test]
fn nodata_passes_through_and_tones_stay_in_range() {
    let input = grey_raster(
        vec![vec![10, NODATA, 30], vec![NODATA, 50, 70], vec![90, 110, NODATA]],
        3,
    );
    // mean 53, stdev 33, clip 2: window [-13, 119].
    let out = stretch_raster(&input, 53, 33, &params(2, 1, 16), 3).unwrap();
    for r in 0..3 {
        for c in 0..3 {
            let z_in = input.data[r][c];
            let z_out = out.data[r][c];
            if z_in == NODATA {
                assert_eq!(z_out, NODATA);
            } else {
                assert_ne!(z_out, NODATA);
                assert!(0 <= z_out && z_out <= 15);
            }
        }
    }
}

// The output raster always has the input's geometry, including for an
// empty raster.
#[test]
fn output_keeps_input_geometry() {
    let input = grey_raster(vec![vec![1, 2, 3, 4], vec![5, 6, 7, 8]], 4);
    let out = stretch_raster(&input, 4, 2, &params(2, 1, 256), 3).unwrap();
    assert_eq!(out.data.len(), 2);
    for row in &out.data {
        assert_eq!(row.len(), 4);
    }

    let empty = grey_raster(vec![], 5);
    let out = stretch_raster(&empty, 0, 1, &params(2, 1, 256), 4).unwrap();
    assert_eq!(out.data.len(), 0);
    assert_eq!(out.columns, 5);
}

// Running the engine twice on the same input and parameters yields
// identical output, whatever the worker count.
#[test]
fn deterministic_across_worker_counts() {
    let input = grey_raster(
        vec![
            vec![3, 14, 15, 92, 65],
            vec![35, NODATA, 89, 79, 32],
            vec![38, 46, NODATA, 26, 43],
            vec![38, 32, 79, 50, 28],
        ],
        5,
    );
    let p = params(2, 1, 256);
    let first = stretch_raster(&input, 45, 25, &p, 1).unwrap();
    let again = stretch_raster(&input, 45, 25, &p, 1).unwrap();
    assert_eq!(first.data, again.data);
    for workers in [2, 3, 7, 64] {
        let out = stretch_raster(&input, 45, 25, &p, workers).unwrap();
        assert_eq!(out.data, first.data);
    }
}

#[test]
fn colour_composite_input_is_rejected() {
    for dt in [RasterDataType::Rgb24, RasterDataType::Rgb48, RasterDataType::Rgba32] {
        let input = Raster { columns: 1, nodata: NODATA, data_type: dt, data: vec![vec![1]] };
        let r = stretch_raster(&input, 1, 1, &params(2, 1, 256), 1);
        assert!(matches!(r, Err(StretchError::InvalidInput)));
    }
}

// A window of zero width (stdev 0, or clip multiplier 0) would divide by
// zero in the quantization formula; the engine rejects it as InvalidRange
// rather than inheriting numeric division semantics.
#[test]
fn zero_width_window_is_invalid_range() {
    let input = grey_raster(vec![vec![1, 2]], 2);
    let r = stretch_raster(&input, 5, 0, &params(2, 1, 256), 1);
    assert!(matches!(r, Err(StretchError::InvalidRange)));
    let r = stretch_raster(&input, 5, 4, &params(0, 1, 256), 1);
    assert!(matches!(r, Err(StretchError::InvalidRange)));
}

// Round-robin partitioning: row r goes to worker r mod num_workers, so the
// workers' row sets tile [0, rows) with no duplicates and no gaps.
#[test]
fn round_robin_partition_covers_rows_exactly_once() {
    let rows = 7usize;
    let workers = 3usize;
    for r in 0..rows {
        assert_eq!(assign_worker(r, workers), r % workers);
    }
    let input = grey_raster((0..rows).map(|r| vec![r as i64 * 10]).collect(), 1);
    let c = compute_clip_range(30, 20, &params(1, 1, 8)).unwrap();
    let mut seen = vec![0usize; rows];
    for tid in 0..workers {
        for rr in worker_run(&input, tid, workers, &c, 8) {
            assert_eq!(rr.row_index % workers, tid);
            seen[rr.row_index] += 1;
        }
    }
    assert_eq!(seen, vec![1; rows]);
}

#[test]
fn worker_rows_come_in_increasing_order() {
    let input = grey_raster((0..9).map(|r| vec![r]).collect(), 1);
    let c = compute_clip_range(4, 3, &params(1, 1, 4)).unwrap();
    let out = worker_run(&input, 1, 3, &c, 4);
    let indices: Vec<usize> = out.iter().map(|rr| rr.row_index).collect();
    assert_eq!(indices, vec![1, 4, 7]);
}

#[test]
fn stretch_row_matches_per_pixel_stretch() {
    let input = grey_raster(vec![vec![80, 100, NODATA, 120]], 4);
    let c = compute_clip_range(100, 10, &params(2, 1, 256)).unwrap();
    let row = stretch_row(&input, 0, &c, 256);
    assert_eq!(row, vec![0, 128, NODATA, 255]);
}

// The aggregator places each row by its carried index, not by arrival
// order: feeding rows 2, 0, 1 still produces the grid in row order.
#[test]
fn aggregator_places_rows_by_carried_index() {
    let mut agg = Aggregator::new(3, 2, NODATA, RasterDataType::Greyscale);
    for (row_index, values) in [(2usize, vec![20, 21]), (0, vec![0, 1]), (1, vec![10, 11])] {
        assert!(!agg.written[row_index]);
        agg.push_row(RowResult { row_index, values });
    }
    assert!(agg.is_complete());
    let out = agg.finish();
    assert_eq!(out.data, vec![vec![0, 1], vec![10, 11], vec![20, 21]]);
}

#[test]
fn progress_is_a_whole_percentage_of_rows() {
    assert_eq!(progress_percent(0, 4), 0);
    assert_eq!(progress_percent(1, 4), 25);
    assert_eq!(progress_percent(1, 3), 33);
    assert_eq!(progress_percent(3, 3), 100);
    assert_eq!(progress_percent(1, 1), 100);
}

#[test]
fn default_worker_count_is_at_least_one() {
    assert!(default_worker_count() >= 1);
}

#[test]
fn validity_checks_match_the_invariants() {
    let good = grey_raster(vec![vec![1, 2], vec![3, 4]], 2);
    assert!(good.is_valid_input());
    let ragged = grey_raster(vec![vec![1, 2], vec![3]], 2);
    assert!(!ragged.is_valid_input());
    let huge = grey_raster(vec![vec![i64::MAX]], 1);
    assert!(!huge.is_valid_input());

    assert!(params(2, 1, 256).is_valid());
    assert!(!params(2, 0, 256).is_valid());
    assert!(!params(2, 1, 0).is_valid());
}

// The clip range really is derived from the statistics: with a different
// mean the same pixel lands on a different tone.
#[test]
fn window_follows_the_statistics() {
    let lo = compute_clip_range(40, 10, &params(2, 1, 256)).unwrap();
    let hi = compute_clip_range(60, 10, &params(2, 1, 256)).unwrap();
    assert_ne!(stretch_pixel(40, NODATA, &lo, 256), stretch_pixel(40, NODATA, &hi, 256));
    let c = ClipRange { min_num: 0, max_num: 100, range_num: 100, den: 1 };
    assert_eq!(stretch_pixel(50, NODATA, &c, 10), 5);
}
