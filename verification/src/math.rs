use vstd::arithmetic::mul::lemma_mul_upper_bound;
use vstd::prelude::*;

verus! {

/// `r` is the integer square root of `n`, rounded down.
pub open spec fn is_floor_sqrt(r: int, n: int) -> bool {
    &&& 0 <= r
    &&& r * r <= n
    &&& n < (r + 1) * (r + 1)
}

/// Integer square root of `n`, rounded down, as a total function.
pub open spec fn spec_isqrt(n: int) -> int
    decreases n,
{
    if n < 1 {
        0
    } else {
        let p = spec_isqrt(n - 1);
        if (p + 1) * (p + 1) <= n {
            p + 1
        } else {
            p
        }
    }
}

/// `spec_isqrt` indeed computes the rounded-down square root.
pub proof fn lemma_isqrt_is_floor_sqrt(n: int)
    requires
        0 <= n,
    ensures
        is_floor_sqrt(spec_isqrt(n), n),
    decreases n,
{
    if n >= 1 {
        lemma_isqrt_is_floor_sqrt(n - 1);
        let p = spec_isqrt(n - 1);
        if (p + 1) * (p + 1) <= n {
            assert((p + 1) * (p + 1) < (p + 2) * (p + 2)) by (nonlinear_arith)
                requires
                    p >= 0,
            ;
        }
    }
}

/// Two integers that both satisfy `is_floor_sqrt` for the same `n` are equal.
pub proof fn lemma_floor_sqrt_unique(r1: int, r2: int, n: int)
    requires
        is_floor_sqrt(r1, n),
        is_floor_sqrt(r2, n),
    ensures
        r1 == r2,
{
    if r1 < r2 {
        assert((r1 + 1) * (r1 + 1) <= r2 * r2) by (nonlinear_arith)
            requires
                0 <= r1,
                r1 < r2,
        ;
    }
    if r2 < r1 {
        assert((r2 + 1) * (r2 + 1) <= r1 * r1) by (nonlinear_arith)
            requires
                0 <= r2,
                r2 < r1,
        ;
    }
}

/// A product of two 64-bit amounts always fits in 128 bits.
pub proof fn lemma_u64_mul_fits_u128(a: int, b: int)
    requires
        0 <= a <= u64::MAX,
        0 <= b <= u64::MAX,
    ensures
        0 <= a * b <= u128::MAX,
{
    lemma_mul_upper_bound(a, u64::MAX as int, b, u64::MAX as int);
    vstd::arithmetic::mul::lemma_mul_nonnegative(a, b);
}

/// Integer square root of a 128-bit radicand, rounded down.
///
/// The result of the binary search always fits in 64 bits, since the root
/// of any 128-bit value does.
pub fn sqrt(radicand: u128) -> (r: u64)
    ensures
        is_floor_sqrt(r as int, radicand as int),
        r == spec_isqrt(radicand as int),
{
    let mut lo: u128 = 0;
    let mut hi: u128 = 0x1_0000_0000_0000_0000;
    proof {
        assert(radicand < hi * hi) by (nonlinear_arith)
            requires
                hi == 0x1_0000_0000_0000_0000u128,
                radicand <= u128::MAX,
        ;
    }
    while lo + 1 < hi
        invariant
            lo < hi <= 0x1_0000_0000_0000_0000u128,
            lo * lo <= radicand,
            radicand < hi * hi,
        decreases hi - lo,
    {
        let mid = lo + (hi - lo) / 2;
        proof {
            assert(mid * mid <= u128::MAX) by (nonlinear_arith)
                requires
                    mid < 0x1_0000_0000_0000_0000u128,
            ;
        }
        if mid * mid <= radicand {
            lo = mid;
        } else {
            hi = mid;
        }
    }
    proof {
        lemma_isqrt_is_floor_sqrt(radicand as int);
        lemma_floor_sqrt_unique(lo as int, spec_isqrt(radicand as int), radicand as int);
    }
    lo as u64
}

} // verus!
