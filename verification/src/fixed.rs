//! Fixed-point numbers.
//!
//! Every scalar of the renderer (a coordinate, an angle, a colour channel, a
//! ray parameter) is an `i64` that counts units of `1 / ONE`. Products and
//! quotients are formed in `i128` and rounded down, once, to the unit.

use vstd::prelude::*;

verus! {

/// The integer that stands for 1.0.
///
/// It is a multiple of 255 and of 65535, so that an 8-bit or 16-bit sample
/// divided by its range is exact, and of 1000, so that the decimal constants
/// of the renderer (0.001, 0.005, 0.33, 0.99) are exact as well.
pub const ONE: i64 = 65_535_000;

/// One half.
pub const HALF: i64 = 32_767_500;

/// The largest magnitude of a world coordinate: 2^56 units, about a
/// thousand million.
pub const MAX_COORD: i64 = 0x100_0000_0000_0000;

/// `v` limited to the closed range from `lo` to `hi`.
pub open spec fn clamp_int(v: int, lo: int, hi: int) -> int {
    if v < lo {
        lo
    } else if v > hi {
        hi
    } else {
        v
    }
}

/// The absolute value of `v`.
pub open spec fn abs_int(v: int) -> int {
    if v < 0 {
        -v
    } else {
        v
    }
}

/// The rational `n / d` rounded down to an integer, for `d != 0`.
pub open spec fn floor_ratio(n: int, d: int) -> int {
    if d > 0 {
        n / d
    } else {
        (-n) / (-d)
    }
}

/// `r` is the integer square root of `n`.
pub open spec fn is_int_sqrt(n: int, r: int) -> bool {
    0 <= r && r * r <= n < (r + 1) * (r + 1)
}

/// The integer square root of `n`: the largest `r` with `r * r <= n`.
pub open spec fn int_sqrt(n: int) -> int {
    choose|r: int| is_int_sqrt(n, r)
}

/// A number has at most one integer square root.
pub proof fn lemma_int_sqrt_unique(n: int, r1: int, r2: int)
    requires
        is_int_sqrt(n, r1),
        is_int_sqrt(n, r2),
    ensures
        r1 == r2,
{
    if r1 < r2 {
        assert((r1 + 1) * (r1 + 1) <= r2 * r2) by (nonlinear_arith)
            requires
                0 <= r1,
                r1 + 1 <= r2,
        ;
    } else if r2 < r1 {
        assert((r2 + 1) * (r2 + 1) <= r1 * r1) by (nonlinear_arith)
            requires
                0 <= r2,
                r2 + 1 <= r1,
        ;
    }
}

/// A product is bounded by the product of the bounds of its factors.
pub proof fn lemma_mul_bound(a: int, b: int, ba: int, bb: int)
    requires
        -ba <= a <= ba,
        -bb <= b <= bb,
    ensures
        -(ba * bb) <= a * b <= ba * bb,
{
    assert(-(ba * bb) <= a * b <= ba * bb) by (nonlinear_arith)
        requires
            -ba <= a <= ba,
            -bb <= b <= bb,
    ;
}

/// Rounding a ratio down keeps it between the bounds of the numerator, when
/// the divisor is at least 1 in magnitude.
pub proof fn lemma_floor_ratio_bound(n: int, d: int, bn: int)
    requires
        d != 0,
        -bn <= n <= bn,
    ensures
        -bn <= floor_ratio(n, d) <= bn,
{
    if d > 0 {
        assert(-bn <= n / d <= bn) by (nonlinear_arith)
            requires
                d > 0,
                -bn <= n <= bn,
        ;
    } else {
        let m = -n;
        let e = -d;
        assert(-bn <= m / e <= bn) by (nonlinear_arith)
            requires
                e > 0,
                -bn <= m <= bn,
        ;
    }
}

/// Where the numerator is at most `t` times the divisor in magnitude, the
/// floor of the ratio is at most `t` in magnitude.
pub proof fn lemma_floor_ratio_scaled(n: int, d: int, t: int)
    requires
        d != 0,
        t >= 0,
        -(t * abs_int(d)) <= n <= t * abs_int(d),
    ensures
        -t <= floor_ratio(n, d) <= t,
{
    let e = abs_int(d);
    let m = if d > 0 {
        n
    } else {
        -n
    };
    assert(-t <= m / e <= t) by (nonlinear_arith)
        requires
            e > 0,
            t >= 0,
            -(t * e) <= m <= t * e,
    ;
}

/// A fixed-point product with a factor of at most `ONE` in magnitude is at
/// most the other factor's bound in magnitude.
pub proof fn lemma_scale_bound(a: int, t: int, bound: int)
    requires
        -ONE <= a <= ONE,
        -bound <= t <= bound,
    ensures
        -bound <= floor_ratio(a * t, ONE as int) <= bound,
{
    let one = ONE as int;
    assert(-(bound * one) <= a * t <= bound * one) by (nonlinear_arith)
        requires
            -one <= a <= one,
            -bound <= t <= bound,
    ;
    assert(-bound <= (a * t) / one <= bound) by (nonlinear_arith)
        requires
            one > 0,
            -(bound * one) <= a * t <= bound * one,
    ;
}

/// A whole multiple divides exactly.
pub proof fn lemma_floor_ratio_exact(q: int, d: int)
    requires
        d > 0,
    ensures
        floor_ratio(q * d, d) == q,
{
    assert((q * d) / d == q) by (nonlinear_arith)
        requires
            d > 0,
    ;
}

/// `v` limited to the closed range from `lo` to `hi`.
pub fn clamp(v: i64, lo: i64, hi: i64) -> (r: i64)
    requires
        lo <= hi,
    ensures
        r == clamp_int(v as int, lo as int, hi as int),
{
    if v < lo {
        lo
    } else if v > hi {
        hi
    } else {
        v
    }
}

/// The exact product of two fixed-point numbers, not yet brought back to the
/// unit.
pub fn wide_mul(a: i64, b: i64) -> (p: i128)
    ensures
        p == a * b,
        -0x4000_0000_0000_0000_0000_0000_0000_0000 <= p,
        p <= 0x4000_0000_0000_0000_0000_0000_0000_0000,
{
    proof {
        lemma_mul_bound(a as int, b as int, 0x8000_0000_0000_0000, 0x8000_0000_0000_0000);
    }
    (a as i128) * (b as i128)
}

/// The rational `n / d` rounded down.
pub fn floor_div(n: i128, d: i128) -> (q: i128)
    requires
        d != 0,
        n > i128::MIN,
        d > i128::MIN,
    ensures
        q == floor_ratio(n as int, d as int),
{
    let (num, den): (i128, i128) = if d > 0 {
        (n, d)
    } else {
        (-n, -d)
    };
    if num >= 0 {
        num / den
    } else {
        let m: i128 = -num;
        let q: i128 = m / den;
        let r: i128 = m % den;
        proof {
            vstd::arithmetic::div_mod::lemma_fundamental_div_mod(m as int, den as int);
        }
        if r == 0 {
            assert((-m) / (den as int) == -q) by (nonlinear_arith)
                requires
                    den > 0,
                    m == den * q,
            ;
            -q
        } else {
            assert((-m) / (den as int) == -q - 1) by (nonlinear_arith)
                requires
                    den > 0,
                    0 < r < den,
                    m == den * q + r,
            ;
            -q - 1
        }
    }
}

/// The integer square root of `n`.
pub fn isqrt(n: u128) -> (r: u128)
    ensures
        is_int_sqrt(n as int, r as int),
        r == int_sqrt(n as int),
        r < 0x1_0000_0000_0000_0000,
{
    let mut lo: u128 = 0;
    let mut hi: u128 = 0x1_0000_0000_0000_0000;
    while hi - lo > 1
        invariant
            lo < hi <= 0x1_0000_0000_0000_0000,
            lo * lo <= n,
            n < hi * hi,
        decreases hi - lo,
    {
        let mid: u128 = lo + (hi - lo) / 2;
        assert(mid * mid < 0x1_0000_0000_0000_0000 * 0x1_0000_0000_0000_0000) by (nonlinear_arith)
            requires
                0 <= mid < 0x1_0000_0000_0000_0000,
        ;
        if mid * mid <= n {
            lo = mid;
        } else {
            hi = mid;
        }
    }
    proof {
        lemma_int_sqrt_unique(n as int, lo as int, int_sqrt(n as int));
    }
    lo
}

} // verus!
