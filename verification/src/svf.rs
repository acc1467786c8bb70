//! The second-order topology-preserving-transform state-variable filter,
//! fixed to its bandpass tap.
//!
//! Coefficients are a pure function of (sample rate, center frequency, Q) and
//! live in their own immutable value type, so many filter instances can share
//! one coefficient set without sharing their live integrator registers.

use crate::fixed::{fx_add, fx_add_val, fx_div, fx_div_val, fx_mul, fx_mul_val, fx_sub, fx_sub_val, FX_ONE};
use crate::math::{cos_val, tan_fx, tan_val};
use crate::ConfigError;
use vstd::prelude::*;

verus! {

/// Pi in Q31.32.
pub const PI_FX: i64 = 13493037705;

/// The filter response tap. The engine only uses the bandpass response.
#[derive(Clone, Copy, Debug, PartialEq, Eq, Structural)]
pub enum FilterKind {
    BandPass,
}

/// Immutable coefficient set of one filter configuration.
#[derive(Clone, Copy, Debug, PartialEq, Eq, Structural)]
pub struct SvfCoefficients {
    pub a1: i64,
    pub a2: i64,
    pub a3: i64,
}

/// One filter cell: shared-able coefficients plus its own two integrator
/// registers.
#[derive(Clone, Copy, Debug, PartialEq, Eq, Structural)]
pub struct Svf {
    pub coeffs: SvfCoefficients,
    pub ic1: i64,
    pub ic2: i64,
}

/// The normalized angular frequency handed to the tangent warp.
pub open spec fn svf_theta(sample_rate: int, freq: int) -> int {
    fx_mul_val(PI_FX as int, fx_div_val(freq, sample_rate))
}

/// The warped cutoff factor `g = tan(pi * freq / sample_rate)`.
pub open spec fn svf_g(sample_rate: int, freq: int) -> int {
    tan_val(svf_theta(sample_rate, freq))
}

/// The damping factor `k = 1 / Q`.
pub open spec fn svf_k(q: int) -> int {
    fx_div_val(FX_ONE as int, q)
}

/// When configuration succeeds: positive rate, positive frequency strictly
/// below Nyquist, positive Q, and a frequency warp that comes out positive.
pub open spec fn svf_config_ok(sample_rate: int, freq: int, q: int) -> bool {
    &&& sample_rate > 0
    &&& freq > 0
    &&& 2 * freq < sample_rate
    &&& q > 0
    &&& cos_val(svf_theta(sample_rate, freq)) > 0
    &&& svf_g(sample_rate, freq) > 0
}

/// The error reported for a rejected configuration: the first failed check.
pub open spec fn svf_config_err(sample_rate: int, freq: int, q: int) -> ConfigError {
    if sample_rate <= 0 {
        ConfigError::NonPositiveSampleRate
    } else if freq <= 0 {
        ConfigError::NonPositiveFrequency
    } else if 2 * freq >= sample_rate {
        ConfigError::FrequencyAboveNyquist
    } else if q <= 0 {
        ConfigError::NonPositiveResonance
    } else {
        ConfigError::UnstableFrequencyWarp
    }
}

/// Denominator of the coefficient normalization: `1 + g * (g + k)`.
pub open spec fn svf_denom(sample_rate: int, freq: int, q: int) -> int {
    fx_add_val(
        FX_ONE as int,
        fx_mul_val(svf_g(sample_rate, freq), fx_add_val(svf_g(sample_rate, freq), svf_k(q))),
    )
}

/// Coefficient `a1 = 1 / (1 + g * (g + k))`.
pub open spec fn svf_a1(sample_rate: int, freq: int, q: int) -> int {
    fx_div_val(FX_ONE as int, svf_denom(sample_rate, freq, q))
}

/// Coefficient `a2 = g * a1`.
pub open spec fn svf_a2(sample_rate: int, freq: int, q: int) -> int {
    fx_mul_val(svf_g(sample_rate, freq), svf_a1(sample_rate, freq, q))
}

/// Coefficient `a3 = g * a2`.
pub open spec fn svf_a3(sample_rate: int, freq: int, q: int) -> int {
    fx_mul_val(svf_g(sample_rate, freq), svf_a2(sample_rate, freq, q))
}

/// The bandpass tap produced by one step: `v1 = a1*ic1 + a2*(x - ic2)`.
pub open spec fn svf_v1_val(s: Svf, x: int) -> int {
    fx_add_val(
        fx_mul_val(s.coeffs.a1 as int, s.ic1 as int),
        fx_mul_val(s.coeffs.a2 as int, fx_sub_val(x, s.ic2 as int)),
    )
}

/// The lowpass integrator value of one step: `v2 = ic2 + a2*ic1 + a3*(x - ic2)`.
pub open spec fn svf_v2_val(s: Svf, x: int) -> int {
    fx_add_val(
        s.ic2 as int,
        fx_add_val(
            fx_mul_val(s.coeffs.a2 as int, s.ic1 as int),
            fx_mul_val(s.coeffs.a3 as int, fx_sub_val(x, s.ic2 as int)),
        ),
    )
}

/// First register after one step: `2*v1 - ic1`.
pub open spec fn svf_ic1_next(s: Svf, x: int) -> int {
    fx_sub_val(fx_add_val(svf_v1_val(s, x), svf_v1_val(s, x)), s.ic1 as int)
}

/// Second register after one step: `2*v2 - ic2`.
pub open spec fn svf_ic2_next(s: Svf, x: int) -> int {
    fx_sub_val(fx_add_val(svf_v2_val(s, x), svf_v2_val(s, x)), s.ic2 as int)
}

/// The whole filter state after one step.
pub open spec fn svf_next(s: Svf, x: int) -> Svf {
    Svf { coeffs: s.coeffs, ic1: svf_ic1_next(s, x) as i64, ic2: svf_ic2_next(s, x) as i64 }
}

impl SvfCoefficients {
    /// Computes the coefficient set for a bandpass filter, rejecting any
    /// configuration the topology cannot realize stably.
    pub fn from_params(kind: FilterKind, sample_rate: i64, freq: i64, q: i64) -> (r: Result<
        SvfCoefficients,
        ConfigError,
    >)
        ensures
            r is Ok <==> svf_config_ok(sample_rate as int, freq as int, q as int),
            r matches Ok(c) ==> {
                &&& c.a1 as int == svf_a1(sample_rate as int, freq as int, q as int)
                &&& c.a2 as int == svf_a2(sample_rate as int, freq as int, q as int)
                &&& c.a3 as int == svf_a3(sample_rate as int, freq as int, q as int)
            },
            r matches Err(e) ==> e == svf_config_err(sample_rate as int, freq as int, q as int),
    {
        let _ = kind;
        if sample_rate <= 0 {
            return Err(ConfigError::NonPositiveSampleRate);
        }
        if freq <= 0 {
            return Err(ConfigError::NonPositiveFrequency);
        }
        if freq >= sample_rate - freq {
            return Err(ConfigError::FrequencyAboveNyquist);
        }
        if q <= 0 {
            return Err(ConfigError::NonPositiveResonance);
        }
        let theta = fx_mul(PI_FX, fx_div(freq, sample_rate));
        let g = match tan_fx(theta) {
            Some(g) => g,
            None => {
                return Err(ConfigError::UnstableFrequencyWarp);
            },
        };
        if g <= 0 {
            return Err(ConfigError::UnstableFrequencyWarp);
        }
        let k = fx_div(FX_ONE, q);
        let denom = fx_add(FX_ONE, fx_mul(g, fx_add(g, k)));
        assert(denom as int == svf_denom(sample_rate as int, freq as int, q as int));
        assert(denom >= 1) by {
            let gi = svf_g(sample_rate as int, freq as int);
            let ki = svf_k(q as int);
            crate::fixed::lemma_mul_sign_abs(gi, fx_add_val(gi, ki));
            vstd::arithmetic::div_mod::lemma_div_pos_is_pos(
                crate::fixed::abs_val(gi * fx_add_val(gi, ki)),
                FX_ONE as int,
            );
        }
        let a1 = fx_div(FX_ONE, denom);
        let a2 = fx_mul(g, a1);
        let a3 = fx_mul(g, a2);
        Ok(SvfCoefficients { a1, a2, a3 })
    }
}

impl Svf {
    /// A fresh filter cell: the given coefficients and cleared registers.
    pub fn new(coeffs: SvfCoefficients) -> (r: Svf)
        ensures
            r.coeffs == coeffs,
            r.ic1 == 0,
            r.ic2 == 0,
    {
        Svf { coeffs, ic1: 0, ic2: 0 }
    }

    /// Replaces the coefficient set, keeping the live registers.
    pub fn update_coefficients(&mut self, coeffs: SvfCoefficients)
        ensures
            final(self).coeffs == coeffs,
            final(self).ic1 == old(self).ic1,
            final(self).ic2 == old(self).ic2,
    {
        self.coeffs = coeffs;
    }

    /// Advances the filter one sample and returns the bandpass tap.
    pub fn run(&mut self, input: i64) -> (out: i64)
        ensures
            out as int == svf_v1_val(*old(self), input as int),
            *final(self) == svf_next(*old(self), input as int),
    {
        let v3 = fx_sub(input, self.ic2);
        let v1 = fx_add(fx_mul(self.coeffs.a1, self.ic1), fx_mul(self.coeffs.a2, v3));
        let v2 = fx_add(
            self.ic2,
            fx_add(fx_mul(self.coeffs.a2, self.ic1), fx_mul(self.coeffs.a3, v3)),
        );
        let new_ic1 = fx_sub(fx_add(v1, v1), self.ic1);
        let new_ic2 = fx_sub(fx_add(v2, v2), self.ic2);
        self.ic1 = new_ic1;
        self.ic2 = new_ic2;
        v1
    }
}

} // verus!
