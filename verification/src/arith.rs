//! Small nonlinear-arithmetic facts shared by the clip and stretch proofs.

use vstd::prelude::*;

verus! {

/// A product is bounded by the product of the factors' bounds.
pub(crate) proof fn lemma_prod_bound(a: int, b: int, al: int, bl: int)
    by (nonlinear_arith)
    requires
        -al <= a <= al,
        -bl <= b <= bl,
        0 <= al,
        0 <= bl,
    ensures
        -(al * bl) <= a * b <= al * bl,
{
}

/// A negative number times a positive one is negative.
pub(crate) proof fn lemma_neg_times_pos(a: int, b: int)
    by (nonlinear_arith)
    requires
        a < 0,
        1 <= b,
    ensures
        a * b < 0,
{
}

} // verus!
