//! Integer square root, used by the distribution fitting and by the
//! standard-deviation step of the statistics aggregation.

use vstd::prelude::*;

verus! {

/// `r` is the integer square root of `x`: the greatest integer whose square
/// does not exceed `x`.
pub open spec fn is_isqrt(x: int, r: int) -> bool {
    0 <= r && r * r <= x && x < (r + 1) * (r + 1)
}

/// The integer square root of `x`, as a mathematical value.
pub open spec fn spec_isqrt(x: int) -> int
    decreases x,
{
    if x <= 0 {
        0
    } else {
        let r = spec_isqrt(x - 1);
        if x < (r + 1) * (r + 1) {
            r
        } else {
            r + 1
        }
    }
}

/// Two integer square roots of the same number are equal.
pub proof fn lemma_isqrt_unique(x: int, r1: int, r2: int)
    requires
        is_isqrt(x, r1),
        is_isqrt(x, r2),
    ensures
        r1 == r2,
{
    if r1 < r2 {
        assert((r1 + 1) * (r1 + 1) <= r2 * r2) by (nonlinear_arith)
            requires 0 <= r1, r1 + 1 <= r2;
    }
    if r2 < r1 {
        assert((r2 + 1) * (r2 + 1) <= r1 * r1) by (nonlinear_arith)
            requires 0 <= r2, r2 + 1 <= r1;
    }
}

/// The recursive definition indeed yields the integer square root: the
/// properties callers rely on.
pub proof fn lemma_isqrt(x: int)
    requires
        0 <= x,
    ensures
        is_isqrt(x, spec_isqrt(x)),
        0 <= spec_isqrt(x),
        spec_isqrt(x) * spec_isqrt(x) <= x,
        x < (spec_isqrt(x) + 1) * (spec_isqrt(x) + 1),
    decreases x,
{
    if x == 0 {
        assert(is_isqrt(0, 0));
    } else {
        lemma_isqrt(x - 1);
        let r = spec_isqrt(x - 1);
        if x < (r + 1) * (r + 1) {
            assert(is_isqrt(x, r));
        } else {
            assert(x == (r + 1) * (r + 1));
            assert(((r + 1) + 1) * ((r + 1) + 1) > x) by (nonlinear_arith)
                requires 0 <= r, x == (r + 1) * (r + 1);
            assert(is_isqrt(x, r + 1));
        }
    }
}

/// Integer square root by bisection over the 64-bit root range.
pub fn isqrt(x: u128) -> (r: u64)
    ensures
        r as int == spec_isqrt(x as int),
        is_isqrt(x as int, r as int),
{
    let mut lo: u128 = 0;
    let mut hi: u128 = 18_446_744_073_709_551_616;
    proof {
        assert((hi as int) * (hi as int) > u128::MAX as int) by (nonlinear_arith)
            requires hi == 18_446_744_073_709_551_616u128;
    }
    while hi - lo > 1
        invariant
            lo < hi,
            hi <= 18_446_744_073_709_551_616u128,
            lo * lo <= x,
            (x as int) < (hi as int) * (hi as int),
        decreases hi - lo,
    {
        let mid: u128 = lo + (hi - lo) / 2;
        assert(lo < mid && mid < hi);
        proof {
            assert((mid as int) * (mid as int) < (hi as int) * (hi as int)) by (nonlinear_arith)
                requires 0 <= mid, mid < hi;
            assert((mid as int) * (mid as int) <= 18_446_744_073_709_551_615int
                * 18_446_744_073_709_551_615int) by (nonlinear_arith)
                requires 0 <= mid, mid <= 18_446_744_073_709_551_615int;
        }
        if mid * mid <= x {
            lo = mid;
        } else {
            hi = mid;
        }
    }
    proof {
        assert(is_isqrt(x as int, lo as int));
        lemma_isqrt(x as int);
        lemma_isqrt_unique(x as int, lo as int, spec_isqrt(x as int));
    }
    lo as u64
}

} // verus!
