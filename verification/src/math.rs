//! Fixed-point transcendental kernels: exp, ln, pow, tanh and tan.
//!
//! Each function is an ordinary fixed-point algorithm (range reduction plus a
//! truncated series) and its contract pins the result exactly to the spec
//! function describing that algorithm. The spec functions are the reference
//! semantics of the engine's nonlinear stages.

use crate::fixed::{
    abs_val, div_to_zero, fx_abs, fx_add, fx_add_val, fx_div, fx_div_val, fx_divn, fx_divn_val,
    fx_mag, fx_mul, fx_mul_val, fx_sat, fx_sub, fx_sub_val, int_mul_sat, FX_MAX, FX_ONE,
};
use vstd::arithmetic::div_mod::{
    lemma_div_of0, lemma_div_pos_is_pos, lemma_fundamental_div_mod,
    lemma_mod_division_less_than_divisor, lemma_mod_pos_bound, lemma_multiply_divide_lt,
};
use vstd::arithmetic::mul::{lemma_mul_inequality, lemma_mul_strict_inequality};
use vstd::arithmetic::power2::{
    lemma_pow2_adds, lemma_pow2_pos, lemma_pow2_strictly_increases, pow2,
};
use vstd::prelude::*;

verus! {

/// ln 2 in Q31.32 (rounded down).
pub const LN2_FX: i64 = 2977044471;

/// Horner evaluation of the truncated exponential series on `[0, ln 2]`:
/// `t_13 = 1` and `t_i = 1 + r * t_(i+1) / i`, so `exp(r)` is `t_1`.
pub open spec fn exp_series_val(r: int, i: int) -> int
    decreases 13 - i,
{
    if i >= 13 || i < 1 {
        FX_ONE as int
    } else {
        fx_add_val(FX_ONE as int, fx_divn_val(fx_mul_val(r, exp_series_val(r, i + 1)), i))
    }
}

/// `k` saturating doublings.
pub open spec fn shl_sat_val(v: int, k: int) -> int
    decreases k,
{
    if k <= 0 {
        v
    } else {
        fx_sat(2 * shl_sat_val(v, k - 1))
    }
}

/// `k` halvings, each rounded toward zero.
pub open spec fn shr_trunc_val(v: int, k: int) -> int
    decreases k,
{
    if k <= 0 {
        v
    } else {
        div_to_zero(shr_trunc_val(v, k - 1), 2)
    }
}

/// The fixed-point exponential: range reduction by `ln 2` followed by the
/// truncated series, with saturation above and flush-to-zero below.
pub open spec fn exp_val(x: int) -> int {
    if x >= 0 {
        let k = x / (LN2_FX as int);
        let r = x % (LN2_FX as int);
        if k >= 32 {
            FX_MAX as int
        } else {
            shl_sat_val(exp_series_val(r, 1), k)
        }
    } else {
        let k = (-x) / (LN2_FX as int);
        let r = (-x) % (LN2_FX as int);
        if k >= 63 {
            0
        } else {
            shr_trunc_val(exp_series_val(LN2_FX - r, 1), k + 1)
        }
    }
}

fn exp_series(r: i64) -> (t: i64)
    ensures
        t as int == exp_series_val(r as int, 1),
{
    let mut t: i64 = FX_ONE;
    let mut i: u64 = 13;
    while i > 1
        invariant
            1 <= i <= 13,
            t as int == exp_series_val(r as int, i as int),
        decreases i,
    {
        i = i - 1;
        t = fx_add(FX_ONE, fx_divn(fx_mul(r, t), i as i64));
    }
    t
}

fn shl_sat(v: i64, k: u64) -> (r: i64)
    ensures
        r as int == shl_sat_val(v as int, k as int),
{
    let mut r: i64 = v;
    let mut j: u64 = 0;
    while j < k
        invariant
            j <= k,
            r as int == shl_sat_val(v as int, j as int),
        decreases k - j,
    {
        r = fx_add(r, r);
        j = j + 1;
    }
    r
}

fn shr_trunc(v: i64, k: u64) -> (r: i64)
    ensures
        r as int == shr_trunc_val(v as int, k as int),
{
    let mut r: i64 = v;
    let mut j: u64 = 0;
    while j < k
        invariant
            j <= k,
            r as int == shr_trunc_val(v as int, j as int),
        decreases k - j,
    {
        r = fx_divn(r, 2);
        j = j + 1;
    }
    r
}

/// The fixed-point exponential, exact to `exp_val`.
pub fn exp_fx(x: i64) -> (r: i64)
    ensures
        r as int == exp_val(x as int),
{
    if x >= 0 {
        let k: u64 = (x as u64) / (LN2_FX as u64);
        let rem: u64 = (x as u64) % (LN2_FX as u64);
        proof {
            lemma_mod_division_less_than_divisor(x as int, LN2_FX as int);
        }
        if k >= 32 {
            FX_MAX
        } else {
            shl_sat(exp_series(rem as i64), k)
        }
    } else {
        let m: u64 = fx_mag(x);
        let k: u64 = m / (LN2_FX as u64);
        let rem: u64 = m % (LN2_FX as u64);
        proof {
            lemma_mod_division_less_than_divisor(m as int, LN2_FX as int);
        }
        if k >= 63 {
            0
        } else {
            shr_trunc(exp_series(LN2_FX - (rem as i64)), k + 1)
        }
    }
}

proof fn lemma_exp_series_of_zero(i: int)
    requires
        1 <= i <= 13,
    ensures
        exp_series_val(0, i) == FX_ONE as int,
    decreases 13 - i,
{
    if i < 13 {
        lemma_exp_series_of_zero(i + 1);
    }
}

/// The exponential of zero is exactly one: the series collapses to its
/// leading term and no scaling step runs.
pub proof fn lemma_exp_zero()
    ensures
        exp_val(0) == FX_ONE as int,
{
    lemma_exp_series_of_zero(1);
    lemma_div_of0(LN2_FX as int);
    lemma_mod_pos_bound(0, LN2_FX as int);
    assert(0int % (LN2_FX as int) == 0) by {
        lemma_fundamental_div_mod(0, LN2_FX as int);
    }
    assert(shl_sat_val(exp_series_val(0, 1), 0) == exp_series_val(0, 1));
}

proof fn lemma_exp_series_range(r: int, i: int)
    requires
        1 <= i <= 13,
    ensures
        -FX_MAX <= exp_series_val(r, i) <= FX_MAX,
    decreases 13 - i,
{
    if i < 13 {
        lemma_exp_series_range(r, i + 1);
    }
}

proof fn lemma_shl_sat_range(v: int, k: int)
    requires
        -FX_MAX <= v <= FX_MAX,
    ensures
        -FX_MAX <= shl_sat_val(v, k) <= FX_MAX,
    decreases k,
{
    if k > 0 {
        lemma_shl_sat_range(v, k - 1);
    }
}

proof fn lemma_shr_trunc_range(v: int, k: int)
    requires
        -FX_MAX <= v <= FX_MAX,
    ensures
        -FX_MAX <= shr_trunc_val(v, k) <= FX_MAX,
    decreases k,
{
    if k > 0 {
        lemma_shr_trunc_range(v, k - 1);
        crate::fixed::lemma_fx_divn_mag(shr_trunc_val(v, k - 1), 2);
    }
}

/// The exponential always lands in the representable range.
pub proof fn lemma_exp_range(x: int)
    ensures
        -FX_MAX <= exp_val(x) <= FX_MAX,
{
    if x >= 0 {
        let k = x / (LN2_FX as int);
        let r = x % (LN2_FX as int);
        if k < 32 {
            lemma_exp_series_range(r, 1);
            lemma_shl_sat_range(exp_series_val(r, 1), k);
        }
    } else {
        let k = (-x) / (LN2_FX as int);
        let r = (-x) % (LN2_FX as int);
        if k < 63 {
            lemma_exp_series_range(LN2_FX - r, 1);
            lemma_shr_trunc_range(exp_series_val(LN2_FX - r, 1), k + 1);
        }
    }
}

/// Mantissa and halving count of the binary normalization used by `ln_val`:
/// halve until the value falls below 2.0.
pub open spec fn ln_norm(u: int) -> (int, int)
    decreases u,
    via ln_norm_decreases
{
    if u < 2 * (FX_ONE as int) {
        (u, 0)
    } else {
        let inner = ln_norm(div_to_zero(u, 2));
        (inner.0, inner.1 + 1)
    }
}

#[via_fn]
proof fn ln_norm_decreases(u: int) {
    if u >= 2 * (FX_ONE as int) {
        lemma_div_pos_is_pos(u, 2);
        vstd::arithmetic::div_mod::lemma_div_is_strictly_smaller(u, 2);
    }
}

/// Accumulation of the odd atanh series terms `z^(2j+1) / (2j+1)` used by
/// `ln_val`, carried out in the same truncating steps the code takes.
pub open spec fn ln_acc(zz: int, p: int, s: int, j: int) -> int
    decreases 8 - j,
{
    if j >= 8 || j < 1 {
        s
    } else {
        let p2 = fx_mul_val(p, zz);
        ln_acc(zz, p2, fx_add_val(s, fx_divn_val(p2, 2 * j + 1)), j + 1)
    }
}

/// The fixed-point natural logarithm of a value at least 1.0: binary
/// normalization to `[0.75, 1.5)`, then `ln u = 2 atanh((u-1)/(u+1))`
/// by a truncated odd series, recombined with the halving count times `ln 2`.
pub open spec fn ln_val(x: int) -> int
    recommends
        x >= FX_ONE,
{
    let m0 = ln_norm(x).0;
    let k0 = ln_norm(x).1;
    let m = if m0 >= 6442450944 {
        div_to_zero(m0, 2)
    } else {
        m0
    };
    let k = if m0 >= 6442450944 {
        k0 + 1
    } else {
        k0
    };
    let z = fx_div_val(m - FX_ONE, m + FX_ONE);
    let s = ln_acc(fx_mul_val(z, z), z, z, 1);
    fx_add_val(fx_sat(k * LN2_FX), fx_add_val(s, s))
}

/// The fixed-point natural logarithm, exact to `ln_val`.
pub fn ln_fx(x: i64) -> (r: i64)
    requires
        x >= FX_ONE,
    ensures
        r as int == ln_val(x as int),
{
    let mut u: i64 = x;
    let mut k: i64 = 0;
    proof {
        vstd::arithmetic::power2::lemma2_to64();
        assert(u as int * pow2(0) <= x as int);
    }
    while u >= 8589934592i64
        invariant
            FX_ONE <= u,
            0 <= k <= 62,
            u as int * pow2(k as nat) <= x as int,
            x < 0x8000000000000000,
            ln_norm(x as int).0 == ln_norm(u as int).0,
            ln_norm(x as int).1 == ln_norm(u as int).1 + k,
        decreases u,
    {
        proof {
            vstd::arithmetic::power2::lemma2_to64();
            vstd::arithmetic::power2::lemma2_to64_rest();
            lemma_pow2_adds(33, k as nat);
            assert(pow2(33) * pow2(k as nat) <= u as int * pow2(k as nat)) by {
                lemma_pow2_pos(k as nat);
                lemma_mul_inequality(pow2(33) as int, u as int, pow2(k as nat) as int);
            }
            assert(33 + k < 63) by {
                if 33 + k >= 63 {
                    lemma_pow2_strictly_increases(63, (34 + k) as nat);
                    lemma_pow2_adds(33 + k as nat, 0);
                    if 33 + k > 63 {
                        lemma_pow2_strictly_increases(63, (33 + k) as nat);
                    }
                }
            }
        }
        let u2: i64 = ((u as u64) / 2) as i64;
        proof {
            lemma_fundamental_div_mod(u as int, 2);
            lemma_pow2_adds(k as nat, 1);
            vstd::arithmetic::power2::lemma2_to64();
            assert(u2 as int * pow2((k + 1) as nat) <= u as int * pow2(k as nat)) by {
                lemma_pow2_pos(k as nat);
                assert(u2 as int * (pow2(k as nat) * 2) == (u2 as int * 2) * pow2(k as nat))
                    by (nonlinear_arith);
                lemma_mul_inequality(u2 as int * 2, u as int, pow2(k as nat) as int);
            }
        }
        u = u2;
        k = k + 1;
    }
    let halve: bool = u >= 6442450944i64;
    let m: i64 = if halve {
        ((u as u64) / 2) as i64
    } else {
        u
    };
    let kk: i64 = if halve {
        k + 1
    } else {
        k
    };
    let z = fx_div(m - FX_ONE, m + FX_ONE);
    let zz = fx_mul(z, z);
    let mut p: i64 = z;
    let mut s: i64 = z;
    let mut j: i64 = 1;
    while j < 8
        invariant
            1 <= j <= 8,
            ln_acc(zz as int, p as int, s as int, j as int) == ln_acc(
                zz as int,
                z as int,
                z as int,
                1,
            ),
        decreases 8 - j,
    {
        p = fx_mul(p, zz);
        s = fx_add(s, fx_divn(p, 2 * j + 1));
        j = j + 1;
    }
    fx_add(int_mul_sat(kk, LN2_FX), fx_add(s, s))
}

/// The power law used by the compressor: `x^e == exp(e * ln x)`.
pub open spec fn pow_gain_val(x: int, e: int) -> int
    recommends
        x >= FX_ONE,
{
    exp_val(fx_mul_val(e, ln_val(x)))
}

/// Fixed-point power of a base at least 1.0, exact to `pow_gain_val`.
pub fn pow_fx(x: i64, e: i64) -> (r: i64)
    requires
        x >= FX_ONE,
    ensures
        r as int == pow_gain_val(x as int, e as int),
{
    exp_fx(fx_mul(e, ln_fx(x)))
}

/// The hyperbolic tangent: `tanh x == (exp(2|x|) - 1) / (exp(2|x|) + 1)`
/// with the sign of `x`, the exponential floored at 1.0.
pub open spec fn tanh_val(x: int) -> int {
    let ax = fx_sat(abs_val(x));
    let t0 = exp_val(fx_add_val(ax, ax));
    let t = if t0 < FX_ONE {
        FX_ONE as int
    } else {
        t0
    };
    let q = fx_div_val(fx_sub_val(t, FX_ONE as int), fx_add_val(t, FX_ONE as int));
    if x >= 0 {
        q
    } else {
        -q
    }
}

/// The fixed-point soft saturator, exact to `tanh_val`; its magnitude stays
/// strictly below 1.0.
pub fn tanh_fx(x: i64) -> (r: i64)
    ensures
        r as int == tanh_val(x as int),
        -FX_ONE < r < FX_ONE,
{
    let ax = fx_abs(x);
    let mut t = exp_fx(fx_add(ax, ax));
    proof {
        lemma_exp_range(fx_add_val(ax as int, ax as int));
    }
    if t < FX_ONE {
        t = FX_ONE;
    }
    let num = fx_sub(t, FX_ONE);
    let den = fx_add(t, FX_ONE);
    let q = fx_div(num, den);
    proof {
        assert(0 <= num < den);
        crate::fixed::lemma_mul_sign_abs(num as int, FX_ONE as int);
        assert(num as int * FX_ONE < den as int * FX_ONE) by {
            lemma_mul_strict_inequality(num as int, den as int, FX_ONE as int);
        }
        lemma_multiply_divide_lt(num as int * FX_ONE, den as int, FX_ONE as int);
        lemma_div_pos_is_pos(num as int * FX_ONE, den as int);
    }
    if x >= 0 {
        q
    } else {
        -q
    }
}

/// Accumulation of the alternating sine series terms, each new term built
/// from the previous by `term * th2 / (2j) / (2j+1)` and a sign flip.
pub open spec fn sin_acc(th2: int, term: int, s: int, j: int) -> int
    decreases 9 - j,
{
    if j >= 9 || j < 1 {
        s
    } else {
        let t2 = -fx_divn_val(fx_divn_val(fx_mul_val(term, th2), 2 * j), 2 * j + 1);
        sin_acc(th2, t2, fx_add_val(s, t2), j + 1)
    }
}

/// Accumulation of the alternating cosine series terms, each new term built
/// from the previous by `term * th2 / (2j-1) / (2j)` and a sign flip.
pub open spec fn cos_acc(th2: int, term: int, s: int, j: int) -> int
    decreases 9 - j,
{
    if j >= 9 || j < 1 {
        s
    } else {
        let t2 = -fx_divn_val(fx_divn_val(fx_mul_val(term, th2), 2 * j - 1), 2 * j);
        cos_acc(th2, t2, fx_add_val(s, t2), j + 1)
    }
}

/// Truncated sine series.
pub open spec fn sin_val(th: int) -> int {
    sin_acc(fx_mul_val(th, th), th, th, 1)
}

/// Truncated cosine series.
pub open spec fn cos_val(th: int) -> int {
    cos_acc(fx_mul_val(th, th), FX_ONE as int, FX_ONE as int, 1)
}

/// Tangent as the quotient of the two series.
pub open spec fn tan_val(th: int) -> int
    recommends
        cos_val(th) > 0,
{
    fx_div_val(sin_val(th), cos_val(th))
}

fn sin_series(th: i64, th2: i64) -> (s: i64)
    requires
        th2 as int == fx_mul_val(th as int, th as int),
    ensures
        s as int == sin_val(th as int),
{
    let mut term: i64 = th;
    let mut s: i64 = th;
    let mut j: i64 = 1;
    while j < 9
        invariant
            1 <= j <= 9,
            sin_acc(th2 as int, term as int, s as int, j as int) == sin_val(th as int),
        decreases 9 - j,
    {
        let d = fx_divn(fx_divn(fx_mul(term, th2), 2 * j), 2 * j + 1);
        proof {
            crate::fixed::lemma_fx_divn_mag(fx_mul_val(term as int, th2 as int), 2 * j as int);
            crate::fixed::lemma_fx_divn_mag(
                fx_divn_val(fx_mul_val(term as int, th2 as int), 2 * j as int),
                2 * j + 1 as int,
            );
        }
        term = -d;
        s = fx_add(s, term);
        j = j + 1;
    }
    s
}

fn cos_series(th2: i64) -> (s: i64)
    ensures
        s as int == cos_acc(th2 as int, FX_ONE as int, FX_ONE as int, 1),
{
    let mut term: i64 = FX_ONE;
    let mut s: i64 = FX_ONE;
    let mut j: i64 = 1;
    while j < 9
        invariant
            1 <= j <= 9,
            cos_acc(th2 as int, term as int, s as int, j as int) == cos_acc(
                th2 as int,
                FX_ONE as int,
                FX_ONE as int,
                1,
            ),
        decreases 9 - j,
    {
        let d = fx_divn(fx_divn(fx_mul(term, th2), 2 * j - 1), 2 * j);
        proof {
            crate::fixed::lemma_fx_divn_mag(fx_mul_val(term as int, th2 as int), 2 * j - 1 as int);
            crate::fixed::lemma_fx_divn_mag(
                fx_divn_val(fx_mul_val(term as int, th2 as int), 2 * j - 1 as int),
                2 * j as int,
            );
        }
        term = -d;
        s = fx_add(s, term);
        j = j + 1;
    }
    s
}

/// The fixed-point tangent by truncated series; `None` when the cosine
/// series does not come out positive, which the filter treats as an
/// unusable frequency warp.
pub fn tan_fx(th: i64) -> (r: Option<i64>)
    ensures
        r is Some <==> cos_val(th as int) > 0,
        r matches Some(v) ==> v as int == tan_val(th as int),
{
    let th2 = fx_mul(th, th);
    let s = sin_series(th, th2);
    let c = cos_series(th2);
    if c <= 0 {
        None
    } else {
        Some(fx_div(s, c))
    }
}

} // verus!
