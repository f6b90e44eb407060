//! Fixed-point scalar arithmetic: the unit scale, division helpers with
//! exact rounding behaviour, and an integer square root.

use vstd::arithmetic::div_mod::{
    lemma_div_is_ordered, lemma_div_is_ordered_by_denominator, lemma_div_multiples_vanish,
    lemma_div_pos_is_pos, lemma_fundamental_div_mod,
};
use vstd::arithmetic::mul::lemma_mul_is_commutative;
use vstd::prelude::*;

verus! {

/// Number of fixed-point sub-units in one world unit. A world coordinate
/// `x` is stored as the `i64` value `x * UNIT`, truncated toward zero.
pub const UNIT: i64 = 1_000_000;

/// Largest coordinate magnitude (in sub-units) the engine accepts, i.e.
/// ten thousand million world units. Keeping coordinates within this range
/// lets every intermediate product fit in an `i128`.
pub const MAX_COORD: i64 = 10_000_000_000_000_000;

/// Number of point samples used for rings and for rasterized edges.
pub const VERTEX_DENSITY: usize = 100;

/// Magnitude of an integer.
pub open spec fn abs_val(x: int) -> int {
    if x < 0 {
        -x
    } else {
        x
    }
}

/// Quotient of `n` by `d`, rounded toward zero (the rounding a float cast
/// to an integer performs).
pub open spec fn div_tz(n: int, d: int) -> int
    recommends
        d > 0,
{
    if n >= 0 {
        n / d
    } else {
        -((-n) / d)
    }
}

/// Quotient of `n` by `d`, rounded to the nearest integer with halves
/// going away from zero.
pub open spec fn div_round(n: int, d: int) -> int
    recommends
        d > 0,
{
    if n >= 0 {
        (2 * n + d) / (2 * d)
    } else {
        -((2 * -n + d) / (2 * d))
    }
}

/// For a non-negative dividend, the quotient lies between zero and the
/// dividend.
pub proof fn lemma_div_le(n: int, d: int)
    requires
        n >= 0,
        d >= 1,
    ensures
        0 <= n / d <= n,
{
    lemma_div_pos_is_pos(n, d);
    assert(n <= n * d) by (nonlinear_arith)
        requires
            n >= 0,
            d >= 1,
    ;
    lemma_div_is_ordered(n, n * d, d);
    lemma_fundamental_div_mod(n * d, d);
    assert(n * d / d == n) by (nonlinear_arith)
        requires
            d >= 1,
            n * d == d * (n * d / d) + (n * d) % d,
            0 <= (n * d) % d < d,
    ;
}

/// Division toward zero never increases magnitude and respects bounds on
/// the dividend: if `|n| <= b * d` then `|div_tz(n, d)| <= b`.
pub proof fn lemma_div_tz_bound(n: int, d: int, b: int)
    requires
        d >= 1,
        b >= 0,
        -(b * d) <= n <= b * d,
    ensures
        -b <= div_tz(n, d) <= b,
        abs_val(div_tz(n, d)) <= abs_val(n),
{
    let m = if n >= 0 {
        n
    } else {
        -n
    };
    lemma_div_le(m, d);
    lemma_div_is_ordered(m, b * d, d);
    lemma_fundamental_div_mod(b * d, d);
    assert(b * d / d == b) by (nonlinear_arith)
        requires
            d >= 1,
            b * d == d * (b * d / d) + (b * d) % d,
            0 <= (b * d) % d < d,
    ;
}

/// Squaring through a truncating division: `div_tz(n, d)^2 * d^2 <= n^2`.
pub proof fn lemma_div_tz_square(n: int, d: int)
    requires
        d >= 1,
    ensures
        div_tz(n, d) * div_tz(n, d) * (d * d) <= n * n,
{
    let m = if n >= 0 {
        n
    } else {
        -n
    };
    let q = m / d;
    lemma_div_le(m, d);
    lemma_fundamental_div_mod(m, d);
    assert(q * d <= m) by (nonlinear_arith)
        requires
            d >= 1,
            q >= 0,
            m == d * q + m % d,
            0 <= m % d,
    ;
    assert(q * q * (d * d) <= m * m) by (nonlinear_arith)
        requires
            0 <= q,
            0 <= q * d <= m,
    ;
    assert(div_tz(n, d) * div_tz(n, d) == q * q) by (nonlinear_arith)
        requires
            div_tz(n, d) == q || div_tz(n, d) == -q,
    ;
    assert(n * n == m * m) by (nonlinear_arith)
        requires
            m == n || m == -n,
    ;
}

/// Divides `n` by `d`, rounding toward zero.
pub fn div_tz_i128(n: i128, d: i128) -> (q: i128)
    requires
        0 < d,
        i128::MIN < n,
    ensures
        q == div_tz(n as int, d as int),
{
    if n >= 0 {
        let q: u128 = (n as u128) / (d as u128);
        proof {
            lemma_div_le(n as int, d as int);
        }
        q as i128
    } else {
        let q: u128 = ((-n) as u128) / (d as u128);
        proof {
            lemma_div_le(-n as int, d as int);
        }
        -(q as i128)
    }
}

/// Divides `n` by `d`, rounding to the nearest integer with halves away
/// from zero.
pub fn div_round_i128(n: i128, d: i128) -> (q: i128)
    requires
        0 < d < 0x8000_0000_0000_0000_0000_0000_0000_0000,
        -0x2000_0000_0000_0000_0000_0000_0000_0000 < n
            < 0x2000_0000_0000_0000_0000_0000_0000_0000,
        2 * n + d < 0x1_0000_0000_0000_0000_0000_0000_0000_0000,
        2 * -n + d < 0x1_0000_0000_0000_0000_0000_0000_0000_0000,
    ensures
        q == div_round(n as int, d as int),
{
    if n >= 0 {
        let num: u128 = 2 * (n as u128) + (d as u128);
        let den: u128 = 2 * (d as u128);
        let q: u128 = num / den;
        proof {
            lemma_div_le(num as int, den as int);
            lemma_div_is_ordered_by_denominator(num as int, 2, den as int);
            lemma_div_is_ordered(num as int, u128::MAX as int, 2);
        }
        q as i128
    } else {
        let num: u128 = 2 * ((-n) as u128) + (d as u128);
        let den: u128 = 2 * (d as u128);
        let q: u128 = num / den;
        proof {
            lemma_div_le(num as int, den as int);
            lemma_div_is_ordered_by_denominator(num as int, 2, den as int);
            lemma_div_is_ordered(num as int, u128::MAX as int, 2);
        }
        -(q as i128)
    }
}

/// A product respects bounds on its factors.
pub proof fn lemma_mul_bounds(a: int, b: int, ma: int, mb: int)
    requires
        0 <= ma,
        0 <= mb,
        -ma <= a <= ma,
        -mb <= b <= mb,
    ensures
        -(ma * mb) <= a * b <= ma * mb,
{
    assert(-(ma * mb) <= a * b <= ma * mb) by (nonlinear_arith)
        requires
            0 <= ma,
            0 <= mb,
            -ma <= a <= ma,
            -mb <= b <= mb,
    ;
}

/// Dividing an exact multiple is exact: `div_tz(n * d, d) == n`.
pub proof fn lemma_div_tz_exact(n: int, d: int)
    requires
        d >= 1,
    ensures
        div_tz(n * d, d) == n,
{
    if n >= 0 {
        lemma_div_multiples_vanish(n, d);
        lemma_mul_is_commutative(n, d);
        assert(n * d >= 0) by (nonlinear_arith)
            requires
                n >= 0,
                d >= 1,
        ;
    } else {
        lemma_div_multiples_vanish(-n, d);
        lemma_mul_is_commutative(-n, d);
        assert(n * d < 0 && -(n * d) == (-n) * d) by (nonlinear_arith)
            requires
                n < 0,
                d >= 1,
        ;
    }
}

/// A square is non-negative.
pub proof fn lemma_sq_nonneg(a: int)
    ensures
        0 <= a * a,
{
    assert(0 <= a * a) by (nonlinear_arith);
}

/// Squares order magnitudes: if `a*a <= b*b` and `b >= 0` then
/// `|a| <= b`.
pub proof fn lemma_abs_le_of_sq_le(a: int, b: int)
    requires
        a * a <= b * b,
        0 <= b,
    ensures
        -b <= a <= b,
{
    assert(-b <= a <= b) by (nonlinear_arith)
        requires
            a * a <= b * b,
            0 <= b,
    ;
}

/// The floor of the square root, as a mathematical function.
pub open spec fn sqrt_floor(n: int) -> int
    decreases n,
{
    if n <= 0 {
        0
    } else {
        let p = sqrt_floor(n - 1);
        if (p + 1) * (p + 1) <= n {
            p + 1
        } else {
            p
        }
    }
}

/// `sqrt_floor(n)` really is the floor of the square root of `n`.
pub proof fn lemma_sqrt_floor(n: int)
    ensures
        0 <= sqrt_floor(n),
        n >= 0 ==> sqrt_floor(n) * sqrt_floor(n) <= n,
        n >= 0 ==> n < (sqrt_floor(n) + 1) * (sqrt_floor(n) + 1),
    decreases
            if n >= 0 {
                n
            } else {
                0
            },
{
    if n > 0 {
        lemma_sqrt_floor(n - 1);
        let p = sqrt_floor(n - 1);
        if (p + 1) * (p + 1) <= n {
            assert(n < (p + 2) * (p + 2)) by (nonlinear_arith)
                requires
                    p >= 0,
                    n - 1 < (p + 1) * (p + 1),
            ;
        }
    }
}

/// A square root is unique: any `r` with `r^2 <= n < (r+1)^2` is the floor
/// of the square root.
pub proof fn lemma_sqrt_floor_unique(n: int, r: int)
    requires
        0 <= r,
        r * r <= n,
        n < (r + 1) * (r + 1),
    ensures
        r == sqrt_floor(n),
{
    lemma_sqrt_floor(n);
    let s = sqrt_floor(n);
    assert(!(r < s) && !(s < r)) by (nonlinear_arith)
        requires
            0 <= r,
            0 <= s,
            r * r <= n < (r + 1) * (r + 1),
            s * s <= n < (s + 1) * (s + 1),
    ;
}

/// Floor of the square root of a 128-bit integer, by binary search.
pub fn isqrt_u128(n: u128) -> (r: u128)
    ensures
        r == sqrt_floor(n as int),
        r * r <= n,
        n < (r + 1) * (r + 1),
        r <= 0xffff_ffff_ffff_ffff,
{
    let mut lo: u128 = 0;
    let mut hi: u128 = 0xffff_ffff_ffff_ffff;
    proof {
        assert((hi + 1) * (hi + 1) > u128::MAX) by (nonlinear_arith)
            requires
                hi == 0xffff_ffff_ffff_ffff,
        ;
    }
    while lo < hi
        invariant
            lo <= hi,
            hi <= 0xffff_ffff_ffff_ffff,
            lo * lo <= n,
            n < (hi + 1) * (hi + 1),
        decreases hi - lo,
    {
        let mid: u128 = lo + (hi - lo + 1) / 2;
        proof {
            assert(mid * mid <= u128::MAX) by (nonlinear_arith)
                requires
                    0 <= mid <= 0xffff_ffff_ffff_ffff,
            ;
        }
        if mid * mid <= n {
            lo = mid;
        } else {
            hi = mid - 1;
        }
    }
    proof {
        lemma_sqrt_floor_unique(n as int, lo as int);
    }
    lo
}

} // verus!
