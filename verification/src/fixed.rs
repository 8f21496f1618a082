//! Saturating fixed-point arithmetic on `i64` values holding millionths.
//!
//! Every scalar of the engine is an `i64` counting `1/SCALE` units, so that
//! `SCALE` stands for one. Sums and products clamp to the `i64` range instead
//! of wrapping or trapping, which makes every operation total; products round
//! toward zero when the scale is divided back out.

use vstd::prelude::*;

verus! {

/// Number of fixed-point units in one whole.
pub const SCALE: i64 = 1_000_000;

/// True when a mathematical integer fits in the `i64` range.
pub open spec fn in_i64(x: int) -> bool {
    i64::MIN <= x <= i64::MAX
}

/// Clamp a mathematical integer to the `i64` range.
pub open spec fn sat64(x: int) -> int {
    if x > i64::MAX {
        i64::MAX as int
    } else if x < i64::MIN {
        i64::MIN as int
    } else {
        x
    }
}

/// Integer division rounding toward zero, as the machine division does.
pub open spec fn div_trunc(x: int, d: int) -> int
    recommends
        d != 0,
{
    if x == 0 {
        0
    } else if x > 0 && d > 0 {
        x / d
    } else if x < 0 && d < 0 {
        (x * -1) / (d * -1)
    } else if x < 0 {
        ((x * -1) / d) * -1
    } else {
        (x / (d * -1)) * -1
    }
}

/// Saturating fixed-point sum.
pub open spec fn fx_add_s(a: int, b: int) -> int {
    sat64(a + b)
}

/// Saturating fixed-point difference.
pub open spec fn fx_sub_s(a: int, b: int) -> int {
    sat64(a - b)
}

/// Saturating fixed-point product: multiply exactly, divide the scale back
/// out rounding toward zero, then clamp.
pub open spec fn fx_mul_s(a: int, b: int) -> int {
    sat64(div_trunc(a * b, SCALE as int))
}

/// A fixed-point value divided by a positive whole count, rounding toward
/// zero; used to average accumulated values over a batch.
pub open spec fn fx_div_count_s(a: int, n: int) -> int {
    div_trunc(a, n)
}

pub fn fx_add(a: i64, b: i64) -> (r: i64)
    ensures
        r == fx_add_s(a as int, b as int),
{
    match a.checked_add(b) {
        Some(v) => v,
        None => {
            if a >= 0 {
                i64::MAX
            } else {
                i64::MIN
            }
        },
    }
}

pub fn fx_sub(a: i64, b: i64) -> (r: i64)
    ensures
        r == fx_sub_s(a as int, b as int),
{
    match a.checked_sub(b) {
        Some(v) => v,
        None => {
            if a >= 0 {
                i64::MAX
            } else {
                i64::MIN
            }
        },
    }
}

/// The quotient of a division that rounds toward zero never grows in
/// magnitude, so dividing an `i64`-ranged value by a positive count stays in
/// range.
proof fn lemma_div_trunc_in_i64(x: int, d: int)
    requires
        in_i64(x),
        d >= 1,
    ensures
        in_i64(div_trunc(x, d)),
        x >= 0 ==> 0 <= div_trunc(x, d) <= x,
        x < 0 ==> x <= div_trunc(x, d) <= 0,
{
    if x > 0 {
        vstd::arithmetic::div_mod::lemma_div_pos_is_pos(x, d);
        vstd::arithmetic::div_mod::lemma_div_nonincreasing(x, d);
    } else if x < 0 {
        vstd::arithmetic::div_mod::lemma_div_pos_is_pos(x * -1, d);
        vstd::arithmetic::div_mod::lemma_div_nonincreasing(x * -1, d);
    }
}

pub fn fx_mul(a: i64, b: i64) -> (r: i64)
    ensures
        r == fx_mul_s(a as int, b as int),
{
    proof {
        assert(a * b <= i128::MAX && a * b >= i128::MIN) by (nonlinear_arith)
            requires
                i64::MIN <= a <= i64::MAX,
                i64::MIN <= b <= i64::MAX,
        ;
    }
    let wide: i128 = (a as i128) * (b as i128);
    proof {
        lemma_div_trunc_wide_in_range(wide as int);
    }
    let q: i128 = match wide.checked_div(SCALE as i128) {
        Some(v) => v,
        None => 0,
    };
    if q > i64::MAX as i128 {
        i64::MAX
    } else if q < i64::MIN as i128 {
        i64::MIN
    } else {
        q as i64
    }
}

/// Dividing any `i128` value by the (positive) scale keeps it in the `i128`
/// range, so the checked division in `fx_mul` always succeeds.
proof fn lemma_div_trunc_wide_in_range(x: int)
    requires
        i128::MIN <= x <= i128::MAX,
    ensures
        i128::MIN <= div_trunc(x, SCALE as int) <= i128::MAX,
{
    if x > 0 {
        vstd::arithmetic::div_mod::lemma_div_pos_is_pos(x, SCALE as int);
        vstd::arithmetic::div_mod::lemma_div_nonincreasing(x, SCALE as int);
    } else if x < 0 {
        vstd::arithmetic::div_mod::lemma_div_pos_is_pos(x * -1, SCALE as int);
        vstd::arithmetic::div_mod::lemma_div_nonincreasing(x * -1, SCALE as int);
    }
}

pub fn fx_div_count(a: i64, n: usize) -> (r: i64)
    requires
        1 <= n <= i64::MAX,
    ensures
        r == fx_div_count_s(a as int, n as int),
{
    let d: i64 = n as i64;
    proof {
        lemma_div_trunc_in_i64(a as int, d as int);
    }
    match a.checked_div(d) {
        Some(v) => v,
        None => 0,
    }
}

} // verus!
