//! Exact integer arithmetic shared by the rasterizers: floor division,
//! rounded division and the identities that relate them.

use vstd::prelude::*;
use vstd::arithmetic::div_mod::lemma_fundamental_div_mod_converse;

verus! {

/// `n / d` rounded to the nearest integer, halves rounded away from zero.
/// Meaningful for `d > 0`.
pub open spec fn round_div(n: int, d: int) -> int {
    if n >= 0 {
        (2 * n + d) / (2 * d)
    } else {
        -((2 * (-n) + d) / (2 * d))
    }
}

/// The distance between two integers.
pub open spec fn dist(a: int, b: int) -> int {
    if a >= b {
        a - b
    } else {
        b - a
    }
}

/// `v` limited to the range of an `i32`.
pub open spec fn clamp_i32(v: int) -> int {
    if v < i32::MIN {
        i32::MIN as int
    } else if v > i32::MAX {
        i32::MAX as int
    } else {
        v
    }
}

/// If `n == q * d + r` with `0 <= r < d`, then `q` and `r` are the quotient
/// and remainder of `n` by `d`.
pub proof fn lemma_div_mod_unique(n: int, d: int, q: int, r: int)
    requires
        d > 0,
        0 <= r < d,
        n == q * d + r,
    ensures
        n / d == q,
        n % d == r,
{
    lemma_fundamental_div_mod_converse(n, d, q, r);
}

/// A product is bounded by the product of the bounds of its factors.
pub proof fn lemma_mul_bounds(a: int, b: int, ma: int, mb: int)
    by (nonlinear_arith)
    requires
        -ma <= a <= ma,
        -mb <= b <= mb,
    ensures
        -(ma * mb) <= a * b <= ma * mb,
{
}

/// Floor division: the quotient and remainder of `n` by a positive `d`, with
/// the remainder never negative.
pub(crate) fn div_floor(n: i128, d: i128) -> (qr: (i128, i128))
    requires
        d > 0,
    ensures
        qr.0 == n / d,
        qr.1 == n % d,
        0 <= qr.1 < d,
        n == qr.0 * d + qr.1,
{
    if n >= 0 {
        let q: i128 = n / d;
        let r: i128 = n % d;
        proof {
            vstd::arithmetic::div_mod::lemma_fundamental_div_mod(n as int, d as int);
            assert(d * q == q * d) by (nonlinear_arith);
        }
        (q, r)
    } else {
        // -(n + 1) is in range even for the least value of n.
        let m: i128 = -(n + 1);
        let q0: i128 = m / d;
        let r0: i128 = m % d;
        // n == -(q0 * d + r0) - 1 == (-q0 - 1) * d + (d - 1 - r0)
        let q: i128 = -q0 - 1;
        let r: i128 = d - 1 - r0;
        proof {
            assert(m == q0 * d + r0) by {
                vstd::arithmetic::div_mod::lemma_fundamental_div_mod(m as int, d as int);
                assert(d * q0 == q0 * d) by (nonlinear_arith);
            }
            assert(n == q * d + r) by (nonlinear_arith)
                requires
                    m == q0 * d + r0,
                    m == -(n + 1),
                    q == -q0 - 1,
                    r == d - 1 - r0,
            ;
            lemma_div_mod_unique(n as int, d as int, q as int, r as int);
        }
        (q, r)
    }
}

/// Division rounded to the nearest integer, halves away from zero.
pub(crate) fn div_round(n: i128, d: i128) -> (q: i128)
    requires
        d > 0,
        -0x1fff_ffff_ffff_ffff_ffff_ffff_ffff_ffff <= n <= 0x1fff_ffff_ffff_ffff_ffff_ffff_ffff_ffff,
        d <= 0x1fff_ffff_ffff_ffff_ffff_ffff_ffff_ffff,
    ensures
        q == round_div(n as int, d as int),
{
    if n >= 0 {
        (2 * n + d) / (2 * d)
    } else {
        -((2 * (-n) + d) / (2 * d))
    }
}

/// Rounding to the nearest integer never moves a value past an integer: a
/// ratio between two integers rounds to a value between them.
pub proof fn lemma_round_div_bounds(n: int, d: int, lo: int, hi: int)
    requires
        d > 0,
        lo * d <= n <= hi * d,
    ensures
        lo <= round_div(n, d) <= hi,
{
    if n >= 0 {
        let q = (2 * n + d) / (2 * d);
        vstd::arithmetic::div_mod::lemma_fundamental_div_mod(2 * n + d, 2 * d);
        let r = (2 * n + d) % (2 * d);
        assert(0 <= r < 2 * d) by {
            vstd::arithmetic::div_mod::lemma_mod_bound(2 * n + d, 2 * d);
        }
        assert(lo <= q <= hi) by (nonlinear_arith)
            requires
                2 * n + d == (2 * d) * q + r,
                0 <= r < 2 * d,
                d > 0,
                lo * d <= n <= hi * d,
        ;
    } else {
        let m = -n;
        let q = (2 * m + d) / (2 * d);
        vstd::arithmetic::div_mod::lemma_fundamental_div_mod(2 * m + d, 2 * d);
        let r = (2 * m + d) % (2 * d);
        assert(0 <= r < 2 * d) by {
            vstd::arithmetic::div_mod::lemma_mod_bound(2 * m + d, 2 * d);
        }
        assert(lo <= -q <= hi) by (nonlinear_arith)
            requires
                2 * m + d == (2 * d) * q + r,
                0 <= r < 2 * d,
                d > 0,
                m == -n,
                lo * d <= n <= hi * d,
        ;
    }
}

/// A whole multiple of the divisor is divided without rounding.
pub proof fn lemma_round_div_exact(k: int, d: int)
    requires
        d > 0,
    ensures
        round_div(k * d, d) == k,
{
    lemma_round_div_bounds(k * d, d, k, k);
}

/// Limits a wide integer to the range of an `i32`.
pub(crate) fn clamp_to_i32(v: i128) -> (c: i32)
    ensures
        c == clamp_i32(v as int),
{
    if v < i32::MIN as i128 {
        i32::MIN
    } else if v > i32::MAX as i128 {
        i32::MAX
    } else {
        v as i32
    }
}

} // verus!
