//! Saturating fixed-point scalars: an `i64` holds a real number scaled by
//! `SCALE`, so `SCALE` itself stands for one. Products and quotients round
//! toward zero; every operation saturates at the `i64` bounds instead of
//! overflowing, so all of them are total.

use vstd::prelude::*;

verus! {

/// The fixed-point unit: the `i64` representation of the real number one.
pub const SCALE: i64 = 65536;

/// Clamp a mathematical integer into the symmetric range
/// `[-i64::MAX, i64::MAX]`. The rails are symmetric on purpose: negating a
/// saturated value saturates to the negated rail, so negation stays an
/// involution on every result the operations produce.
pub open spec fn sat64(x: int) -> int {
    if x > i64::MAX as int {
        i64::MAX as int
    } else if x < -(i64::MAX as int) {
        -(i64::MAX as int)
    } else {
        x
    }
}

/// Absolute value of a mathematical integer.
pub open spec fn abs_i(x: int) -> int {
    if x < 0 { -x } else { x }
}

/// Division truncated toward zero (the behaviour of hardware division),
/// defined through Euclidean division of the magnitudes.
pub open spec fn tdiv(a: int, b: int) -> int {
    let q = abs_i(a) / abs_i(b);
    if (a < 0) != (b < 0) { -q } else { q }
}

/// Saturating fixed-point addition.
pub open spec fn fadd(a: int, b: int) -> int {
    sat64(a + b)
}

/// Saturating fixed-point subtraction.
pub open spec fn fsub(a: int, b: int) -> int {
    sat64(a - b)
}

/// Saturating fixed-point negation.
pub open spec fn fneg(a: int) -> int {
    sat64(-a)
}

/// Saturating fixed-point multiplication: the double-width product scaled
/// back down, rounding toward zero.
pub open spec fn fmul(a: int, b: int) -> int {
    sat64(tdiv(a * b, SCALE as int))
}

/// Saturating fixed-point division (meaningful only for `b != 0`).
pub open spec fn fdiv(a: int, b: int) -> int {
    sat64(tdiv(a * (SCALE as int), b))
}

/// Floor of the square root of a nonnegative integer.
pub open spec fn sqrt_floor(n: int) -> int
    decreases n,
{
    if n <= 0 {
        0
    } else {
        let r = sqrt_floor(n - 1);
        if (r + 1) * (r + 1) <= n { r + 1 } else { r }
    }
}

/// Fixed-point square root; a nonpositive argument maps to zero, which is
/// the domain guard the callers rely on.
pub open spec fn fsqrt(a: int) -> int {
    if a <= 0 { 0 } else { sqrt_floor(a * (SCALE as int)) }
}

/// `sqrt_floor(n)` is the unique `r >= 0` with `r * r <= n < (r + 1) * (r + 1)`.
pub proof fn lemma_sqrt_floor(n: int)
    requires
        n >= 0,
    ensures
        sqrt_floor(n) >= 0,
        sqrt_floor(n) * sqrt_floor(n) <= n,
        n < (sqrt_floor(n) + 1) * (sqrt_floor(n) + 1),
    decreases n,
{
    if n == 0 {
    } else {
        lemma_sqrt_floor(n - 1);
        let r = sqrt_floor(n - 1);
        if (r + 1) * (r + 1) <= n {
            assert((r + 2) * (r + 2) > n) by (nonlinear_arith)
                requires
                    r >= 0,
                    n - 1 < (r + 1) * (r + 1),
            ;
        }
    }
}

/// Any `r` in the square-root bracket of `n` is `sqrt_floor(n)`.
pub proof fn lemma_sqrt_unique(n: int, r: int)
    requires
        n >= 0,
        r >= 0,
        r * r <= n,
        n < (r + 1) * (r + 1),
    ensures
        r == sqrt_floor(n),
{
    lemma_sqrt_floor(n);
    let s = sqrt_floor(n);
    if r < s {
        assert((r + 1) * (r + 1) <= s * s) by (nonlinear_arith)
            requires
                0 <= r,
                r < s,
        ;
    }
    if r > s {
        assert((s + 1) * (s + 1) <= r * r) by (nonlinear_arith)
            requires
                0 <= s,
                s < r,
        ;
    }
}

/// A fixed-point square root is never negative.
pub proof fn lemma_fsqrt_nonneg(a: int)
    ensures
        fsqrt(a) >= 0,
{
    if a > 0 {
        lemma_sqrt_floor(a * (SCALE as int));
    }
}

/// Multiplying and then truncating-dividing by the same positive factor is
/// the identity: `tdiv(x * c, c) == x`.
pub proof fn lemma_tdiv_cancel(x: int, c: int)
    requires
        c > 0,
    ensures
        tdiv(x * c, c) == x,
{
    lemma_abs_mul(x, c);
    assert(abs_i(x) * abs_i(c) / abs_i(c) == abs_i(x)) by (nonlinear_arith)
        requires
            abs_i(c) > 0,
    ;
    assert(x < 0 ==> x * c < 0) by (nonlinear_arith)
        requires
            c > 0,
    ;
}

/// The magnitude of an `i64` as a `u64`.
fn mag(a: i64) -> (r: u64)
    ensures
        r as int == abs_i(a as int),
{
    if a >= 0 {
        a as u64
    } else {
        (-(a as i128)) as u64
    }
}

/// Clamp a signed magnitude into the `i64` range.
fn sat_signed(neg: bool, m: u128) -> (r: i64)
    ensures
        r as int == sat64(if neg { -(m as int) } else { m as int }),
{
    if neg {
        if m >= 9223372036854775807u128 {
            -i64::MAX
        } else {
            -(m as i64)
        }
    } else {
        if m >= 9223372036854775807u128 {
            i64::MAX
        } else {
            m as i64
        }
    }
}

/// Clamp an `i128` into the `i64` range.
fn clamp_i128(s: i128) -> (r: i64)
    ensures
        r as int == sat64(s as int),
{
    if s > i64::MAX as i128 {
        i64::MAX
    } else if s < -(i64::MAX as i128) {
        -i64::MAX
    } else {
        s as i64
    }
}

/// Saturating fixed-point addition.
pub fn fx_add(a: i64, b: i64) -> (r: i64)
    ensures
        r as int == fadd(a as int, b as int),
{
    clamp_i128(a as i128 + b as i128)
}

/// Saturating fixed-point subtraction.
pub fn fx_sub(a: i64, b: i64) -> (r: i64)
    ensures
        r as int == fsub(a as int, b as int),
{
    clamp_i128(a as i128 - b as i128)
}

/// Saturating fixed-point negation.
pub fn fx_neg(a: i64) -> (r: i64)
    ensures
        r as int == fneg(a as int),
{
    clamp_i128(-(a as i128))
}

/// The product of the magnitudes of two factors is the magnitude of their
/// product.
proof fn lemma_abs_mul(a: int, b: int)
    ensures
        abs_i(a) * abs_i(b) == abs_i(a * b),
        ((a < 0) != (b < 0)) ==> a * b <= 0,
        !((a < 0) != (b < 0)) ==> a * b >= 0,
{
    assert(abs_i(a) * abs_i(b) == abs_i(a * b)
        && (((a < 0) != (b < 0)) ==> a * b <= 0)
        && (!((a < 0) != (b < 0)) ==> a * b >= 0)) by (nonlinear_arith);
}

/// Saturating fixed-point multiplication.
pub fn fx_mul(a: i64, b: i64) -> (r: i64)
    ensures
        r as int == fmul(a as int, b as int),
{
    let neg = (a < 0) != (b < 0);
    let ma = mag(a) as u128;
    let mb = mag(b) as u128;
    proof {
        assert(ma * mb <= 0x8000000000000000u128 * 0x8000000000000000u128) by (nonlinear_arith)
            requires
                ma <= 0x8000000000000000u128,
                mb <= 0x8000000000000000u128,
        ;
    }
    let m = (ma * mb) / (SCALE as u128);
    proof {
        lemma_abs_mul(a as int, b as int);
        assert(abs_i(a as int * b as int) / abs_i(SCALE as int)
            == abs_i(a as int) * abs_i(b as int) / (SCALE as int));
    }
    sat_signed(neg, m)
}

/// Saturating fixed-point division; the caller keeps the divisor nonzero.
pub fn fx_div(a: i64, b: i64) -> (r: i64)
    requires
        b != 0,
    ensures
        r as int == fdiv(a as int, b as int),
{
    let neg = (a < 0) != (b < 0);
    let ma = mag(a) as u128;
    let mb = mag(b) as u128;
    let m = (ma * 65536u128) / mb;
    proof {
        lemma_abs_mul(a as int, SCALE as int);
        assert(abs_i(a as int * SCALE as int) / abs_i(b as int)
            == abs_i(a as int) * (SCALE as int) / abs_i(b as int));
    }
    sat_signed(neg, m)
}

/// Fixed-point square root by bracketing the integer square root.
pub fn fx_sqrt(a: i64) -> (r: i64)
    ensures
        r as int == fsqrt(a as int),
{
    if a <= 0 {
        return 0;
    }
    let n = (a as u128) * 65536u128;
    let mut lo: u128 = 0;
    let mut hi: u128 = 1099511627776u128;
    assert(hi * hi > n) by (nonlinear_arith)
        requires
            n < 1099511627776u128 * 1099511627776u128,
            hi == 1099511627776u128,
    ;
    while lo + 1 < hi
        invariant
            lo < hi,
            hi <= 1099511627776u128,
            lo * lo <= n,
            n < hi * hi,
        decreases hi - lo,
    {
        let mid = lo + (hi - lo) / 2;
        proof {
            assert(mid * mid <= 1099511627776u128 * 1099511627776u128) by (nonlinear_arith)
                requires
                    mid <= 1099511627776u128,
            ;
        }
        if mid * mid <= n {
            lo = mid;
        } else {
            hi = mid;
        }
    }
    proof {
        lemma_sqrt_unique(n as int, lo as int);
    }
    lo as i64
}

/// A `usize` count as a saturating fixed-point scalar.
pub fn fx_from_usize(n: usize) -> (r: i64)
    ensures
        r as int == sat64(n as int * SCALE as int),
{
    proof {
        assert((n as u128) * 65536u128 <= 0xFFFFFFFFFFFFFFFFu128 * 65536u128) by (nonlinear_arith)
            requires
                n as u128 <= 0xFFFFFFFFFFFFFFFFu128,
        ;
    }
    let p = (n as u128) * 65536u128;
    if p > i64::MAX as u128 {
        i64::MAX
    } else {
        p as i64
    }
}

} // verus!
