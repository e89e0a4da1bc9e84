//! The clip range calculator.
//!
//! The admissible intensity window is `mean ± stdev * clip`, where the clip
//! multiplier is a rational `clip_num / clip_den`.  To keep the arithmetic
//! exact, the window's bounds are stored as rationals over the common
//! denominator `clip_den`: the real lower bound is `min_num / den`, the
//! upper bound `max_num / den`, and the window's width `range_num / den`.

use vstd::prelude::*;

use crate::FACTOR_LIMIT;
use crate::VALUE_LIMIT;
use crate::arith::lemma_prod_bound;
use crate::error::StretchError;

verus! {

/// The run's user-supplied knobs: the clip multiplier (how many standard
/// deviations around the mean the window spans, as the rational
/// `clip_num / clip_den`) and the number of output tone levels.
pub struct StretchParameters {
    /// Numerator of the clip multiplier.
    pub clip_num: i64,
    /// Denominator of the clip multiplier; at least 1.
    pub clip_den: i64,
    /// Number of discrete tone levels in the output; at least 1.
    pub num_tones: i64,
}

impl StretchParameters {
    /// The magnitude bounds under which every intermediate product of the
    /// stretch fits comfortably in 128-bit arithmetic.
    pub open spec fn wf(&self) -> bool {
        &&& -FACTOR_LIMIT <= self.clip_num <= FACTOR_LIMIT
        &&& 1 <= self.clip_den <= FACTOR_LIMIT
        &&& 1 <= self.num_tones <= FACTOR_LIMIT
    }

    /// Runtime validation matching [`StretchParameters::wf`], for callers
    /// that build parameters from unchecked input.
    pub fn is_valid(&self) -> (b: bool)
        ensures
            b == self.wf(),
    {
        -FACTOR_LIMIT <= self.clip_num && self.clip_num <= FACTOR_LIMIT
            && 1 <= self.clip_den && self.clip_den <= FACTOR_LIMIT
            && 1 <= self.num_tones && self.num_tones <= FACTOR_LIMIT
    }
}

/// The admissible intensity window, as rationals over the common
/// denominator `den`: lower bound `min_num / den`, upper bound
/// `max_num / den`, width `range_num / den`.
pub struct ClipRange {
    /// Numerator of the window's lower bound.
    pub min_num: i64,
    /// Numerator of the window's upper bound.
    pub max_num: i64,
    /// Numerator of the window's width; always `max_num - min_num`.
    pub range_num: i64,
    /// Common denominator of the three numerators; at least 1.
    pub den: i64,
}

impl ClipRange {
    /// Internal invariant: the width is the distance between the bounds and
    /// is non-negative, the denominator is positive, and the numerators are
    /// small enough that the per-pixel arithmetic cannot overflow.
    pub open spec fn wf(&self) -> bool {
        &&& 1 <= self.den <= FACTOR_LIMIT
        &&& self.range_num == self.max_num - self.min_num
        &&& 0 <= self.range_num
        &&& -2 * VALUE_LIMIT * FACTOR_LIMIT <= self.min_num <= 2 * VALUE_LIMIT * FACTOR_LIMIT
        &&& -2 * VALUE_LIMIT * FACTOR_LIMIT <= self.max_num <= 2 * VALUE_LIMIT * FACTOR_LIMIT
    }
}

/// Derives the clip window from the image statistics: the window is
/// `[mean - stdev * clip, mean + stdev * clip]` with `clip` the rational
/// `clip_num / clip_den`.  Fails with `InvalidRange` exactly when the
/// window's width would be negative, which happens precisely when
/// `stdev * clip_num < 0` (a negative multiplier against a positive spread,
/// or the reverse).  A zero-width window is *not* rejected here; the engine
/// refuses it separately before any division could take place.
pub fn compute_clip_range(mean: i64, stdev: i64, params: &StretchParameters) -> (result: Result<
    ClipRange,
    StretchError,
>)
    requires
        -VALUE_LIMIT <= mean <= VALUE_LIMIT,
        -VALUE_LIMIT <= stdev <= VALUE_LIMIT,
        params.wf(),
    ensures
        match result {
            Ok(c) => {
                &&& c.wf()
                &&& c.den == params.clip_den
                &&& c.min_num == mean * params.clip_den - stdev * params.clip_num
                &&& c.max_num == mean * params.clip_den + stdev * params.clip_num
                &&& 0 <= stdev * params.clip_num
            },
            Err(e) => e == StretchError::InvalidRange && stdev * params.clip_num < 0,
        },
{
    proof {
        lemma_prod_bound(mean as int, params.clip_den as int, VALUE_LIMIT as int, FACTOR_LIMIT as int);
        lemma_prod_bound(stdev as int, params.clip_num as int, VALUE_LIMIT as int, FACTOR_LIMIT as int);
    }
    let centre: i128 = (mean as i128) * (params.clip_den as i128);
    let spread: i128 = (stdev as i128) * (params.clip_num as i128);
    if spread < 0 {
        return Err(StretchError::InvalidRange);
    }
    let lo: i128 = centre - spread;
    let hi: i128 = centre + spread;
    Ok(ClipRange {
        min_num: lo as i64,
        max_num: hi as i64,
        range_num: (hi - lo) as i64,
        den: params.clip_den,
    })
}

} // verus!
