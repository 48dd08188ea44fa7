//! Fixed-point scalar arithmetic shared by all noise generators.
//!
//! Every scalar the generators exchange — noise values, coordinates,
//! amplitudes, frequencies, interpolation fractions — is a binary
//! fixed-point number: an `i64` holding the numerator of a fraction with
//! the fixed denominator [`SCALE`].  The value one is `SCALE`, one half is
//! `SCALE / 2`, and so on.  This keeps every operation in exact integer
//! arithmetic, so the contracts below can pin each result down precisely.

use vstd::prelude::*;

verus! {

/// Denominator of the fixed-point representation: an `i64` scalar `n`
/// stands for the real number `n / SCALE`.  Equal to two to the thirtieth,
/// so every hash-noise output (a fraction with denominator `2^30`) is
/// represented exactly.
pub const SCALE: i64 = 1073741824;

/// Magnitude bound (two to the sixty-second) on the scalars fed to the
/// arithmetic helpers below; it leaves room for sums and differences of two
/// operands inside `i64`.
pub const VAL_LIMIT: i64 = 0x4000000000000000;

/// Quotient of `n` by [`SCALE`], rounded toward zero.
pub open spec fn div_scale(n: int) -> int {
    if n >= 0 {
        n / (SCALE as int)
    } else {
        -((-n) / (SCALE as int))
    }
}

/// The fixed-point product: `a * b / SCALE`, rounded toward zero.
pub open spec fn spec_mul_fixed(a: int, b: int) -> int {
    div_scale(a * b)
}

/// Multiplies two fixed-point scalars.
pub fn mul_fixed(a: i64, b: i64) -> (r: i64)
    requires
        -(VAL_LIMIT as int) * (SCALE as int) <= a * b <= (VAL_LIMIT as int) * (SCALE as int),
    ensures
        r == spec_mul_fixed(a as int, b as int),
        -VAL_LIMIT <= r <= VAL_LIMIT,
{
    proof {
        assert(-0x8000000000000000 * 0x8000000000000000 <= a * b <= 0x8000000000000000
            * 0x8000000000000000) by (nonlinear_arith)
            requires
                i64::MIN <= a <= i64::MAX,
                i64::MIN <= b <= i64::MAX,
        ;
    }
    let wide: i128 = (a as i128) * (b as i128);
    let q: i128 = if wide >= 0 {
        wide / (SCALE as i128)
    } else {
        -((-wide) / (SCALE as i128))
    };
    proof {
        assert(q == div_scale(a * b));
        assert(-(VAL_LIMIT as int) <= q <= VAL_LIMIT as int) by (nonlinear_arith)
            requires
                q == div_scale(a * b),
                -(VAL_LIMIT as int) * (SCALE as int) <= a * b <= (VAL_LIMIT as int) * (
                SCALE as int),
                SCALE == 1073741824,
                VAL_LIMIT == 0x4000000000000000,
        ;
    }
    q as i64
}

/// A product bounded by `bound * SCALE` divides down to at most `bound`.
pub proof fn lemma_div_scale_bound(n: int, bound: int)
    requires
        0 <= bound,
        -bound * (SCALE as int) <= n <= bound * (SCALE as int),
    ensures
        -bound <= div_scale(n) <= bound,
{
    let s = SCALE as int;
    vstd::arithmetic::div_mod::lemma_div_multiples_vanish(bound, s);
    assert(bound * s == s * bound) by (nonlinear_arith);
    if n >= 0 {
        vstd::arithmetic::div_mod::lemma_div_pos_is_pos(n, s);
        vstd::arithmetic::div_mod::lemma_div_is_ordered(n, bound * s, s);
    } else {
        vstd::arithmetic::div_mod::lemma_div_pos_is_pos(-n, s);
        vstd::arithmetic::div_mod::lemma_div_is_ordered(-n, bound * s, s);
    }
}

/// Remainder of `x` by [`SCALE`] in the Euclidean sense: the result is in
/// `[0, SCALE)` whatever the sign of `x`.
pub fn rem_scale(x: i64) -> (r: i64)
    ensures
        r == (x as int) % (SCALE as int),
        0 <= r < SCALE,
{
    let m = x % SCALE;
    if m < 0 {
        m + SCALE
    } else {
        m
    }
}

/// Quotient of `x` by [`SCALE`] in the Euclidean sense (floor division).
pub fn floor_scale(x: i64) -> (r: i64)
    ensures
        r == (x as int) / (SCALE as int),
{
    let m = rem_scale(x);
    let f = x - m;
    let q = f / SCALE;
    proof {
        assert((f as int) % (SCALE as int) == 0 && q == (f as int) / (SCALE as int) && (
        f as int) / (SCALE as int) == (x as int) / (SCALE as int)) by (nonlinear_arith)
            requires
                m == (x as int) % (SCALE as int),
                f == x - m,
                q == (f as int) / (SCALE as int),
                SCALE == 1073741824,
        ;
    }
    q
}

/// Integer square root: the largest `r` with `r * r <= n`.
pub fn isqrt(n: u64) -> (r: u64)
    ensures
        r * r <= n,
        n < (r + 1) * (r + 1),
{
    let mut low: u64 = 0;
    let mut high: u64 = 0x100000000;
    proof {
        assert((high as int) * (high as int) > n as int) by (nonlinear_arith)
            requires
                high == 0x100000000u64,
                n <= u64::MAX,
        ;
    }
    while high - low > 1
        invariant
            0 <= low < high <= 0x100000000,
            (low as int) * (low as int) <= n as int,
            (high as int) * (high as int) > n as int,
        decreases high - low,
    {
        let mid = low + (high - low) / 2;
        proof {
            assert((mid as int) * (mid as int) <= 0xffffffff * 0xffffffff) by (nonlinear_arith)
                requires
                    0 <= mid <= 0xffffffffu64,
            ;
        }
        let sq = mid * mid;
        if sq <= n {
            low = mid;
        } else {
            high = mid;
        }
    }
    low
}

} // verus!
