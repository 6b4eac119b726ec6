//! Fixed-point helpers.
//!
//! Saturation, lightness and every style factor are thousandths: the
//! value 1000 stands for 1.0.  These helpers do the scaling and
//! clamping that the pipeline stages share, together with the division
//! bounds their callers need.

use vstd::arithmetic::div_mod::{lemma_div_is_ordered, lemma_div_multiples_vanish};
use vstd::arithmetic::mul::lemma_mul_inequality;
use vstd::prelude::*;

verus! {

/// `a * k / b` cannot exceed `k` when `a <= b`.
pub proof fn lemma_scaled_div_le(a: int, b: int, k: int)
    requires
        0 <= a <= b,
        1 <= b,
        0 <= k,
    ensures
        0 <= a * k <= b * k,
        a * k / b <= k,
{
    lemma_mul_inequality(a, b, k);
    lemma_div_is_ordered(a * k, b * k, b);
    lemma_div_multiples_vanish(k, b);
    vstd::arithmetic::mul::lemma_mul_nonnegative(a, k);
}

/// Scale a thousandths value by a thousandths factor.
pub open spec fn spec_mul_div_1000(v: int, f: int) -> int {
    v * f / 1000
}

/// `v * f / 1000` for small fixed-point operands.
pub fn mul_div_1000(v: u32, f: u32) -> (r: u32)
    requires
        v <= 2000,
        f <= 10000,
    ensures
        r == spec_mul_div_1000(v as int, f as int),
        r <= 20000,
{
    proof {
        assert(v * f <= 20000000) by (nonlinear_arith)
            requires
                v <= 2000,
                f <= 10000,
        ;
    }
    (v * f) / 1000
}

/// Scale a thousandths value by a thousandths factor, then cap it.
pub open spec fn spec_scale_capped(v: int, f: int, cap: int) -> int {
    let scaled = spec_mul_div_1000(v, f);
    if scaled > cap {
        cap
    } else {
        scaled
    }
}

pub fn scale_capped(v: u32, f: u32, cap: u32) -> (r: u32)
    requires
        v <= 2000,
        f <= 10000,
    ensures
        r == spec_scale_capped(v as int, f as int, cap as int),
        r <= cap,
{
    let scaled = mul_div_1000(v, f);
    if scaled > cap {
        cap
    } else {
        scaled
    }
}

/// Clamp into `[lo, hi]`.
pub open spec fn spec_clamp(v: int, lo: int, hi: int) -> int {
    if v < lo {
        lo
    } else if v > hi {
        hi
    } else {
        v
    }
}

pub fn clamp_u32(v: u32, lo: u32, hi: u32) -> (r: u32)
    requires
        lo <= hi,
    ensures
        r == spec_clamp(v as int, lo as int, hi as int),
        lo <= r <= hi,
{
    if v < lo {
        lo
    } else if v > hi {
        hi
    } else {
        v
    }
}

/// Absolute difference of two bytes, widened.
pub open spec fn spec_abs_diff(a: int, b: int) -> int {
    if a >= b {
        a - b
    } else {
        b - a
    }
}

pub fn abs_diff_u8(a: u8, b: u8) -> (r: u32)
    ensures
        r == spec_abs_diff(a as int, b as int),
        r <= 255,
{
    if a >= b {
        (a - b) as u32
    } else {
        (b - a) as u32
    }
}

} // verus!
