//! Q31.32 fixed-point scalars.
//!
//! A signal value is an `i64` holding `v / 2^32` in real terms. Every
//! operation saturates to `[-FX_MAX, FX_MAX]` and rounds toward zero, and its
//! result is pinned exactly by a spec function, so the whole signal path is
//! deterministic and total: no overflow, no wrap, no undefined case.

use vstd::arithmetic::div_mod::{
    lemma_div_by_multiple, lemma_div_is_ordered, lemma_div_nonincreasing, lemma_div_pos_is_pos,
};
use vstd::prelude::*;

verus! {

/// The fixed-point representation of 1.0: 2^32.
pub const FX_ONE: i64 = 4294967296;

/// Largest magnitude a signal value may take: 2^62.
pub const FX_MAX: i64 = 4611686018427387904;

/// Magnitude of an integer.
pub open spec fn abs_val(x: int) -> int {
    if x >= 0 {
        x
    } else {
        -x
    }
}

/// Saturation to the representable range.
pub open spec fn fx_sat(x: int) -> int {
    if x > FX_MAX {
        FX_MAX as int
    } else if x < -FX_MAX {
        -FX_MAX as int
    } else {
        x
    }
}

/// Quotient rounded toward zero, in sign-magnitude form.
pub open spec fn div_to_zero(p: int, d: int) -> int
    recommends
        d != 0,
{
    let m = abs_val(p) / abs_val(d);
    if (p >= 0) == (d >= 0) {
        m
    } else {
        -m
    }
}

/// Saturating sum.
pub open spec fn fx_add_val(a: int, b: int) -> int {
    fx_sat(a + b)
}

/// Saturating difference.
pub open spec fn fx_sub_val(a: int, b: int) -> int {
    fx_sat(a - b)
}

/// Fixed-point product: `a * b / 2^32`, rounded toward zero, saturated.
pub open spec fn fx_mul_val(a: int, b: int) -> int {
    fx_sat(div_to_zero(a * b, FX_ONE as int))
}

/// Fixed-point quotient: `a * 2^32 / b`, rounded toward zero, saturated.
pub open spec fn fx_div_val(a: int, b: int) -> int
    recommends
        b != 0,
{
    fx_sat(div_to_zero(a * FX_ONE, b))
}

/// Quotient by a small positive integer (not a fixed-point scale).
pub open spec fn fx_divn_val(a: int, n: int) -> int
    recommends
        n > 0,
{
    div_to_zero(a, n)
}

/// The magnitude of a product is the product of the magnitudes, and the sign
/// of a product follows the signs of its factors.
pub proof fn lemma_mul_sign_abs(a: int, b: int)
    by (nonlinear_arith)
    ensures
        abs_val(a * b) == abs_val(a) * abs_val(b),
        ((a < 0) != (b < 0)) ==> a * b <= 0,
        ((a < 0) == (b < 0)) ==> a * b >= 0,
{
}

/// Magnitude of an `i64`, as a `u64`.
pub fn fx_mag(a: i64) -> (r: u64)
    ensures
        r as int == abs_val(a as int),
{
    if a >= 0 {
        a as u64
    } else {
        (-(a as i128)) as u64
    }
}

/// Clamp a wide intermediate back into the representable range.
fn sat_i128(x: i128) -> (r: i64)
    ensures
        r as int == fx_sat(x as int),
{
    if x > FX_MAX as i128 {
        FX_MAX
    } else if x < -(FX_MAX as i128) {
        -FX_MAX
    } else {
        x as i64
    }
}

/// Saturating addition.
pub fn fx_add(a: i64, b: i64) -> (r: i64)
    ensures
        r as int == fx_add_val(a as int, b as int),
{
    sat_i128(a as i128 + b as i128)
}

/// Saturating subtraction.
pub fn fx_sub(a: i64, b: i64) -> (r: i64)
    ensures
        r as int == fx_sub_val(a as int, b as int),
{
    sat_i128(a as i128 - b as i128)
}

/// Saturating magnitude (rectifier).
pub fn fx_abs(a: i64) -> (r: i64)
    ensures
        r as int == fx_sat(abs_val(a as int)),
{
    if a >= 0 {
        if a > FX_MAX {
            FX_MAX
        } else {
            a
        }
    } else {
        sat_i128(-(a as i128))
    }
}

/// Fixed-point multiplication, exact to `fx_mul_val`.
pub fn fx_mul(a: i64, b: i64) -> (r: i64)
    ensures
        r as int == fx_mul_val(a as int, b as int),
{
    let neg: bool = (a < 0) != (b < 0);
    let ma: u64 = fx_mag(a);
    let mb: u64 = fx_mag(b);
    proof {
        assert(ma as int * mb as int <= 0x8000000000000000 * 0x8000000000000000int)
            by (nonlinear_arith)
            requires
                0 <= ma as int <= 0x8000000000000000,
                0 <= mb as int <= 0x8000000000000000,
        ;
    }
    let p: u128 = (ma as u128) * (mb as u128);
    let q: u128 = p / (FX_ONE as u128);
    proof {
        lemma_mul_sign_abs(a as int, b as int);
        lemma_div_pos_is_pos(p as int, FX_ONE as int);
        lemma_div_nonincreasing(p as int, FX_ONE as int);
    }
    if neg {
        if q >= FX_MAX as u128 {
            -FX_MAX
        } else {
            -(q as i64)
        }
    } else {
        if q >= FX_MAX as u128 {
            FX_MAX
        } else {
            q as i64
        }
    }
}

/// Fixed-point division, exact to `fx_div_val`.
pub fn fx_div(a: i64, b: i64) -> (r: i64)
    requires
        b != 0,
    ensures
        r as int == fx_div_val(a as int, b as int),
{
    let neg: bool = (a < 0) != (b < 0);
    let p: u128 = (fx_mag(a) as u128) * (FX_ONE as u128);
    let q: u128 = p / (fx_mag(b) as u128);
    proof {
        lemma_mul_sign_abs(a as int, FX_ONE as int);
        lemma_mul_sign_abs(a as int, b as int);
        lemma_div_pos_is_pos(p as int, abs_val(b as int));
    }
    if neg {
        if q >= FX_MAX as u128 {
            -FX_MAX
        } else {
            -(q as i64)
        }
    } else {
        if q >= FX_MAX as u128 {
            FX_MAX
        } else {
            q as i64
        }
    }
}

/// Division by a small positive integer, exact to `fx_divn_val`.
pub fn fx_divn(a: i64, n: i64) -> (r: i64)
    requires
        n > 0,
    ensures
        r as int == fx_divn_val(a as int, n as int),
{
    let q: u64 = fx_mag(a) / (n as u64);
    proof {
        lemma_div_pos_is_pos(abs_val(a as int), n as int);
        lemma_div_nonincreasing(abs_val(a as int), n as int);
    }
    if a >= 0 {
        q as i64
    } else {
        (-(q as i128)) as i64
    }
}

/// Saturating product of two plain integers (no fixed-point rescaling).
pub fn int_mul_sat(a: i64, b: i64) -> (r: i64)
    ensures
        r as int == fx_sat(a as int * b as int),
{
    proof {
        assert(-0x8000000000000000 * 0x8000000000000000 <= a as int * b as int
            <= 0x8000000000000000 * 0x8000000000000000int) by (nonlinear_arith)
            requires
                -0x8000000000000000 <= a as int <= 0x8000000000000000,
                -0x8000000000000000 <= b as int <= 0x8000000000000000,
        ;
    }
    let p: i128 = (a as i128) * (b as i128);
    sat_i128(p)
}

/// Multiplying by the fixed-point unit is the identity on representable values.
pub proof fn lemma_fx_mul_one(a: int)
    requires
        -FX_MAX <= a <= FX_MAX,
    ensures
        fx_mul_val(a, FX_ONE as int) == a,
{
    lemma_mul_sign_abs(a, FX_ONE as int);
    lemma_div_by_multiple(abs_val(a), FX_ONE as int);
}

/// Dividing by the fixed-point unit is the identity on representable values.
pub proof fn lemma_fx_div_one(a: int)
    requires
        -FX_MAX <= a <= FX_MAX,
    ensures
        fx_div_val(a, FX_ONE as int) == a,
{
    lemma_mul_sign_abs(a, FX_ONE as int);
    lemma_div_by_multiple(abs_val(a), FX_ONE as int);
}

/// Integer division by a positive count keeps the sign and never grows the
/// magnitude.
pub proof fn lemma_fx_divn_mag(a: int, n: int)
    requires
        n > 0,
    ensures
        abs_val(fx_divn_val(a, n)) <= abs_val(a),
        a >= 0 ==> 0 <= fx_divn_val(a, n) <= a,
        a < 0 ==> a <= fx_divn_val(a, n) <= 0,
{
    lemma_div_pos_is_pos(abs_val(a), n);
    lemma_div_nonincreasing(abs_val(a), n);
}

/// A product with a coefficient in `[0, 1]` keeps the sign of the other
/// factor and never grows its magnitude.
pub proof fn lemma_fx_mul_coeff(c: int, d: int)
    requires
        0 <= c <= FX_ONE,
    ensures
        d >= 0 ==> 0 <= fx_mul_val(c, d) <= d,
        d < 0 ==> d <= fx_mul_val(c, d) <= 0,
{
    lemma_mul_sign_abs(c, d);
    assert(abs_val(c * d) <= FX_ONE * abs_val(d)) by (nonlinear_arith)
        requires
            0 <= c <= FX_ONE,
    ;
    lemma_div_is_ordered(abs_val(c * d), FX_ONE * abs_val(d), FX_ONE as int);
    lemma_div_by_multiple(abs_val(d), FX_ONE as int);
    lemma_div_pos_is_pos(abs_val(c * d), FX_ONE as int);
}

} // verus!
