//! Saturating Q47.16 fixed-point scalars.
//!
//! A scalar is an `i64` holding `value * SCALE`. Every operation saturates at
//! the `i64` range instead of overflowing; the saturated extremes play the
//! role of the infinities of a floating-point renderer: they propagate through
//! later steps and are discarded by coverage tests and clamping downstream.
//! Division by zero is likewise total: it yields the saturated extreme of the
//! dividend's sign (zero for a zero dividend).

use vstd::prelude::*;

verus! {

/// Fixed-point scale: a scalar `a: i64` stands for the real number `a / SCALE`.
pub const SCALE: i64 = 65536;

/// The fixed-point representation of 1.
pub const FX_ONE: i64 = 65536;

/// Absolute value of a mathematical integer.
pub open spec fn iabs(x: int) -> int {
    if x >= 0 {
        x
    } else {
        -x
    }
}

/// Saturation of a mathematical integer into the `i64` range.
pub open spec fn sat(x: int) -> int {
    if x > i64::MAX as int {
        i64::MAX as int
    } else if x < i64::MIN as int {
        i64::MIN as int
    } else {
        x
    }
}

/// Truncating (round-toward-zero) division, the rounding used by hardware
/// division; `d` is expected to be nonzero.
pub open spec fn tdiv(n: int, d: int) -> int {
    if (n >= 0) == (d >= 0) {
        iabs(n) / iabs(d)
    } else {
        -(iabs(n) / iabs(d))
    }
}

/// Saturating fixed-point addition.
pub open spec fn s_add(a: int, b: int) -> int {
    sat(a + b)
}

/// Saturating fixed-point subtraction.
pub open spec fn s_sub(a: int, b: int) -> int {
    sat(a - b)
}

/// Saturating fixed-point negation.
pub open spec fn s_neg(a: int) -> int {
    sat(-a)
}

/// Saturating fixed-point multiplication: the true product, rescaled with
/// truncation toward zero, then saturated.
pub open spec fn s_mul(a: int, b: int) -> int {
    sat(tdiv(a * b, SCALE as int))
}

/// Saturating fixed-point division. A zero divisor yields the saturated
/// extreme of the dividend's sign (the analogue of the infinities a float
/// division by zero produces), and zero for a zero dividend.
pub open spec fn s_div(a: int, b: int) -> int {
    if b == 0 {
        if a > 0 {
            i64::MAX as int
        } else if a < 0 {
            i64::MIN as int
        } else {
            0
        }
    } else {
        sat(tdiv(a * (SCALE as int), b))
    }
}

pub open spec fn s_min(a: int, b: int) -> int {
    if a <= b {
        a
    } else {
        b
    }
}

pub open spec fn s_max(a: int, b: int) -> int {
    if a >= b {
        a
    } else {
        b
    }
}

/// The largest multiple of `SCALE` that is at most `a` (`floor` on scalars);
/// `/` on `int` is Euclidean division, which rounds toward minus infinity.
pub open spec fn s_floor(a: int) -> int {
    (a / (SCALE as int)) * (SCALE as int)
}

/// The integer part of a nonnegative scalar, saturating negative scalars to 0
/// (the behaviour of Rust's float-to-unsigned cast).
pub open spec fn s_to_u64(a: int) -> int {
    if a < 0 {
        0
    } else {
        a / (SCALE as int)
    }
}

/// The floor of the square root of a nonnegative integer.
pub open spec fn sqrt_floor(x: int) -> int {
    choose|r: int| 0 <= r && #[trigger] (r * r) <= x && x < (r + 1) * (r + 1)
}

proof fn lemma_mul_i64_in_i128(a: int, b: int)
    requires
        i64::MIN as int <= a <= i64::MAX as int,
        i64::MIN as int <= b <= i64::MAX as int,
    ensures
        iabs(a * b) <= 0x40000000000000000000000000000000,
{
    assert(iabs(a * b) <= 0x40000000000000000000000000000000) by (nonlinear_arith)
        requires
            -0x8000000000000000 <= a <= 0x7fffffffffffffff,
            -0x8000000000000000 <= b <= 0x7fffffffffffffff,
    ;
}

/// A value `r` with `r*r <= x < (r+1)*(r+1)` is the floor square root of `x`.
pub proof fn lemma_sqrt_floor_is(x: int, r: int)
    requires
        0 <= r,
        r * r <= x,
        x < (r + 1) * (r + 1),
    ensures
        sqrt_floor(x) == r,
{
    assert(0 <= r && r * r <= x && x < (r + 1) * (r + 1));
    let r2 = sqrt_floor(x);
    assert(0 <= r2 && r2 * r2 <= x && x < (r2 + 1) * (r2 + 1));
    assert(r == r2) by (nonlinear_arith)
        requires
            0 <= r,
            r * r <= x,
            x < (r + 1) * (r + 1),
            0 <= r2,
            r2 * r2 <= x,
            x < (r2 + 1) * (r2 + 1),
    ;
}

/// Saturating addition.
pub fn fx_add(a: i64, b: i64) -> (r: i64)
    ensures
        r as int == s_add(a as int, b as int),
{
    let x: i128 = a as i128 + b as i128;
    if x > i64::MAX as i128 {
        i64::MAX
    } else if x < i64::MIN as i128 {
        i64::MIN
    } else {
        x as i64
    }
}

/// Saturating subtraction.
pub fn fx_sub(a: i64, b: i64) -> (r: i64)
    ensures
        r as int == s_sub(a as int, b as int),
{
    let x: i128 = a as i128 - b as i128;
    if x > i64::MAX as i128 {
        i64::MAX
    } else if x < i64::MIN as i128 {
        i64::MIN
    } else {
        x as i64
    }
}

/// Saturating negation.
pub fn fx_neg(a: i64) -> (r: i64)
    ensures
        r as int == s_neg(a as int),
{
    if a == i64::MIN {
        i64::MAX
    } else {
        -a
    }
}

/// Saturating fixed-point multiplication.
pub fn fx_mul(a: i64, b: i64) -> (r: i64)
    ensures
        r as int == s_mul(a as int, b as int),
{
    proof {
        lemma_mul_i64_in_i128(a as int, b as int);
    }
    let p: i128 = (a as i128) * (b as i128);
    let m: u128 = if p < 0 {
        (-p) as u128
    } else {
        p as u128
    };
    assert(m as int == iabs(p as int));
    let q: u128 = m / 65536;
    if p < 0 {
        if q >= 0x8000000000000000u128 {
            i64::MIN
        } else {
            let qi: i64 = q as i64;
            -qi
        }
    } else {
        if q > i64::MAX as u128 {
            i64::MAX
        } else {
            q as i64
        }
    }
}

/// Saturating fixed-point division; total, with the degenerate cases of
/// `s_div`.
pub fn fx_div(a: i64, b: i64) -> (r: i64)
    ensures
        r as int == s_div(a as int, b as int),
{
    if b == 0 {
        if a > 0 {
            i64::MAX
        } else if a < 0 {
            i64::MIN
        } else {
            0
        }
    } else {
        let n: i128 = (a as i128) * 65536;
        let opposite: bool = (n < 0) != (b < 0);
        let mn: u128 = if n < 0 {
            (-n) as u128
        } else {
            n as u128
        };
        let mb: u128 = if b < 0 {
            (-(b as i128)) as u128
        } else {
            b as u128
        };
        assert(mn as int == iabs(a as int * (SCALE as int)));
        assert(mb as int == iabs(b as int));
        let q: u128 = mn / mb;
        if opposite {
            if q >= 0x8000000000000000u128 {
                i64::MIN
            } else {
                let qi: i64 = q as i64;
                -qi
            }
        } else {
            if q > i64::MAX as u128 {
                i64::MAX
            } else {
                q as i64
            }
        }
    }
}

pub fn fx_min(a: i64, b: i64) -> (r: i64)
    ensures
        r as int == s_min(a as int, b as int),
{
    if a <= b {
        a
    } else {
        b
    }
}

pub fn fx_max(a: i64, b: i64) -> (r: i64)
    ensures
        r as int == s_max(a as int, b as int),
{
    if a >= b {
        a
    } else {
        b
    }
}

proof fn lemma_div_neg(m: int, d: int)
    requires
        0 < m,
        0 < d,
    ensures
        (-m) / d == -((m + d - 1) / d),
{
    let q = m / d;
    let r = m % d;
    vstd::arithmetic::div_mod::lemma_fundamental_div_mod(m, d);
    assert(m == d * q + r);
    assert((-q) * d == -(d * q) && (-q - 1) * d == -(d * q) - d && (q + 1) * d == d * q + d
        && q * d == d * q) by (nonlinear_arith);
    if r == 0 {
        vstd::arithmetic::div_mod::lemma_fundamental_div_mod_converse(-m, d, -q, 0);
        vstd::arithmetic::div_mod::lemma_fundamental_div_mod_converse(m + d - 1, d, q, d - 1);
    } else {
        vstd::arithmetic::div_mod::lemma_fundamental_div_mod_converse(-m, d, -q - 1, d - r);
        vstd::arithmetic::div_mod::lemma_fundamental_div_mod_converse(m + d - 1, d, q + 1, r - 1);
    }
}

/// Fixed-point floor: rounds down to the nearest whole multiple of `SCALE`.
pub fn fx_floor(a: i64) -> (r: i64)
    ensures
        r as int == s_floor(a as int),
{
    if a >= 0 {
        let q: u64 = (a as u64) / 65536;
        (q * 65536) as i64
    } else {
        proof {
            lemma_div_neg(-(a as int), SCALE as int);
        }
        let m: u128 = (-(a as i128)) as u128;
        let q: u128 = (m + 65535) / 65536;
        let s: i128 = -((q * 65536) as i128);
        s as i64
    }
}

/// Integer part of a scalar as an unsigned count, saturating negative
/// scalars to 0 (the behaviour of a float-to-unsigned cast).
pub fn fx_to_u64(a: i64) -> (r: u64)
    ensures
        r as int == s_to_u64(a as int),
{
    if a < 0 {
        0
    } else {
        (a as u64) / 65536
    }
}

/// A whole number as a scalar; the bound keeps the product inside `i64`.
pub fn fx_from_i64(i: i64) -> (r: i64)
    requires
        -140737488355328 <= i as int <= 140737488355327,
    ensures
        r as int == i as int * SCALE as int,
{
    let p: i128 = (i as i128) * 65536;
    p as i64
}

/// Floor square root of a `u128`, by bisection.
fn isqrt_u128(x: u128) -> (r: u128)
    ensures
        r * r <= x < (r + 1) * (r + 1),
{
    let mut lo: u128 = 0;
    let mut hi: u128 = 0xffffffffffffffffu128 + 1;
    proof {
        assert(x < hi * hi) by (nonlinear_arith)
            requires
                hi == 0x10000000000000000u128,
                x <= 0xffffffffffffffffffffffffffffffffu128,
        ;
    }
    while lo + 1 < hi
        invariant
            lo < hi,
            hi <= 0x10000000000000000u128,
            lo * lo <= x,
            (x as int) < (hi as int) * (hi as int),
        decreases hi - lo,
    {
        let mid: u128 = lo + (hi - lo) / 2;
        proof {
            assert((mid as int) * (mid as int) < 0x100000000000000000000000000000000int)
                by (nonlinear_arith)
                requires
                    mid < 0x10000000000000000u128,
            ;
        }
        if mid * mid <= x {
            lo = mid;
        } else {
            hi = mid;
        }
    }
    lo
}

/// Fixed-point square root of a nonnegative scalar: the floor square root of
/// the rescaled magnitude, so that the result is again a scalar.
pub fn fx_sqrt(a: i64) -> (r: i64)
    requires
        a >= 0,
    ensures
        r as int == sqrt_floor(a as int * SCALE as int),
        r >= 0,
{
    let m: u128 = (a as u128) * 65536;
    let s: u128 = isqrt_u128(m);
    proof {
        assert(m as int == a as int * SCALE as int);
        if s as int > 0x10000000000 {
            assert((s as int) * (s as int) > 0x100000000000000000000int) by (nonlinear_arith)
                requires
                    s as int > 0x10000000000,
            ;
            assert(false);
        }
        lemma_sqrt_floor_is(m as int, s as int);
    }
    s as i64
}

/// Fixed-point power with a whole exponent, by repeated saturating
/// multiplication.
pub open spec fn s_powi(a: int, n: nat) -> int
    decreases n,
{
    if n == 0 {
        FX_ONE as int
    } else {
        s_mul(a, s_powi(a, (n - 1) as nat))
    }
}

/// Fixed-point exponentiation by a whole exponent.
pub fn fx_powi(a: i64, n: u32) -> (r: i64)
    ensures
        r as int == s_powi(a as int, n as nat),
{
    let mut acc: i64 = FX_ONE;
    let mut i: u32 = 0;
    while i < n
        invariant
            i <= n,
            acc as int == s_powi(a as int, i as nat),
        decreases n - i,
    {
        acc = fx_mul(a, acc);
        i = i + 1;
    }
    acc
}

} // verus!
