//! The row partitioner.
//!
//! Rows are dealt to the worker pool round-robin: row `r` belongs to worker
//! `r mod num_workers`.  The rule is a pure function of the index and the
//! pool size, so the partition is the same on every run, and it splits
//! `[0, rows)` into per-worker sets with no overlaps and no gaps.

use vstd::arithmetic::div_mod::lemma_mod_bound;
use vstd::prelude::*;

verus! {

/// The rows of `[0, rows)` that the round-robin rule deals to worker `tid`
/// out of a pool of `num_workers`.
pub open spec fn assigned_rows(tid: int, num_workers: int, rows: int) -> Set<int> {
    Set::new(|r: int| 0 <= r < rows && r % num_workers == tid)
}

/// Assigns a row index to a worker.
pub fn assign_worker(row: usize, num_workers: usize) -> (tid: usize)
    requires
        num_workers >= 1,
    ensures
        tid == row as int % num_workers as int,
        tid < num_workers,
{
    row % num_workers
}

/// The round-robin partition is exact: every row index in `[0, rows)` lies
/// in the assigned set of worker `r mod num_workers`, whose id is a valid
/// worker id, and in no other worker's set.  Across all workers the
/// assigned sets therefore cover `[0, rows)` with no duplicates and no
/// gaps, for any pool size of at least one.
pub proof fn lemma_round_robin_partition(num_workers: int, rows: int, r: int)
    requires
        1 <= num_workers,
        0 <= r < rows,
    ensures
        0 <= r % num_workers < num_workers,
        forall|t: int|
            #[trigger] assigned_rows(t, num_workers, rows).contains(r) <==> t == r % num_workers,
{
    lemma_mod_bound(r, num_workers);
}

} // verus!
