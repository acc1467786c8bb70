//! The envelope follower and compressor gain computer.
//!
//! It tracks a rectified signal with asymmetric one-pole smoothing (attack
//! when the input rises above the previous envelope, release otherwise) and
//! maps the smoothed envelope through a static downward-compression law.

use crate::fixed::{
    fx_add, fx_add_val, fx_div, fx_div_val, fx_mul, fx_mul_val, fx_sub, fx_sub_val,
    lemma_fx_div_one, lemma_fx_mul_coeff, FX_MAX, FX_ONE,
};
use crate::math::{exp_fx, exp_val, lemma_exp_zero, pow_fx, pow_gain_val, ln_val};
use crate::ConfigError;
use vstd::arithmetic::div_mod::{lemma_div_by_multiple, lemma_div_is_ordered};
use vstd::prelude::*;

verus! {

/// ln(10) / 20 in Q31.32: scales a decibel value into a natural exponent.
pub const DB_TO_LN_FX: i64 = 494476384;

/// 2 * pi * 1000 in Q31.32: numerator of the smoothing-coefficient exponent.
pub const TWO_PI_MS_FX: i64 = 26986075409044;

/// The envelope detector. `prev_env` is the one sample of state; the other
/// fields are fixed at configuration time.
#[derive(Clone, Copy, Debug, PartialEq, Eq, Structural)]
pub struct Comp {
    pub prev_env: i64,
    pub cte_attack: i64,
    pub cte_release: i64,
    pub thrlin: i64,
    pub ratio: i64,
}

/// Well-formedness established by configuration and kept by processing.
pub open spec fn comp_wf(c: Comp) -> bool {
    &&& 0 <= c.cte_attack <= FX_ONE
    &&& 0 <= c.cte_release <= FX_ONE
    &&& 1 <= c.thrlin <= FX_MAX
    &&& 1 <= c.ratio
    &&& 0 <= c.prev_env <= FX_MAX
}

/// When configuration succeeds: positive sample rate, time constants that
/// survive the fixed-point product with the sample rate, positive ratio.
pub open spec fn comp_config_ok(attack: int, release: int, sample_rate: int, ratio: int) -> bool {
    &&& sample_rate > 0
    &&& attack > 0
    &&& fx_mul_val(attack, sample_rate) > 0
    &&& release > 0
    &&& fx_mul_val(release, sample_rate) > 0
    &&& ratio > 0
}

/// The error reported for a rejected configuration: the first failed check.
pub open spec fn comp_config_err(attack: int, release: int, sample_rate: int, ratio: int) -> ConfigError {
    if sample_rate <= 0 {
        ConfigError::NonPositiveSampleRate
    } else if attack <= 0 || fx_mul_val(attack, sample_rate) <= 0 {
        ConfigError::NonPositiveTimeConstant
    } else if release <= 0 || fx_mul_val(release, sample_rate) <= 0 {
        ConfigError::NonPositiveTimeConstant
    } else {
        ConfigError::NonPositiveRatio
    }
}

/// Decibels to linear scale: `10^(db/20) == exp(db * ln 10 / 20)`, floored
/// at the smallest positive fixed-point value so the threshold stays usable
/// as a divisor.
pub open spec fn db_to_lin_val(db: int) -> int {
    let e = exp_val(fx_mul_val(db, DB_TO_LN_FX as int));
    if e < 1 {
        1
    } else {
        e
    }
}

/// One-pole smoothing coefficient `exp(-2*pi*1000 / (time_ms * sample_rate))`,
/// clamped into `[0, 1]`.
pub open spec fn smoothing_coeff_val(time_ms: int, sample_rate: int) -> int {
    let c = exp_val(-fx_div_val(TWO_PI_MS_FX as int, fx_mul_val(time_ms, sample_rate)));
    if c < 0 {
        0
    } else if c > FX_ONE {
        FX_ONE as int
    } else {
        c
    }
}

/// The detector a successful configuration produces, given the envelope
/// state it starts from.
pub open spec fn comp_configured(
    prev_env: int,
    threshold_db: int,
    attack: int,
    release: int,
    sample_rate: int,
    ratio: int,
) -> Comp {
    Comp {
        prev_env: prev_env as i64,
        cte_attack: smoothing_coeff_val(attack, sample_rate) as i64,
        cte_release: smoothing_coeff_val(release, sample_rate) as i64,
        thrlin: db_to_lin_val(threshold_db) as i64,
        ratio: ratio as i64,
    }
}

/// The smoothing coefficient the next sample will use: attack when the
/// input reaches the previous envelope, release when it falls short.
pub open spec fn comp_cte_sel(c: Comp, x: int) -> int {
    if x >= c.prev_env {
        c.cte_attack as int
    } else {
        c.cte_release as int
    }
}

/// The smoothed envelope after one sample: `x + cte * (prev - x)`.
pub open spec fn comp_env_val(c: Comp, x: int) -> int {
    fx_add_val(x, fx_mul_val(comp_cte_sel(c, x), fx_sub_val(c.prev_env as int, x)))
}

/// The gain multiplier returned for one sample: unity at or below the
/// threshold, otherwise `(env/threshold)^(1/ratio - 1)` clamped to stay
/// positive, and (for ratios of at least one) to stay at or below unity.
pub open spec fn comp_gain_val(c: Comp, x: int) -> int {
    let env = comp_env_val(c, x);
    if env <= c.thrlin {
        FX_ONE as int
    } else {
        let e = fx_sub_val(fx_div_val(FX_ONE as int, c.ratio as int), FX_ONE as int);
        let g = pow_gain_val(fx_div_val(env, c.thrlin as int), e);
        let g1 = if g < 1 {
            1
        } else {
            g
        };
        if c.ratio >= FX_ONE && g1 > FX_ONE {
            FX_ONE as int
        } else {
            g1
        }
    }
}

/// The detector state after one sample: only the envelope changes.
pub open spec fn comp_next(c: Comp, x: int) -> Comp {
    Comp {
        prev_env: comp_env_val(c, x) as i64,
        cte_attack: c.cte_attack,
        cte_release: c.cte_release,
        thrlin: c.thrlin,
        ratio: c.ratio,
    }
}

/// The envelope after one sample stays between the previous envelope and
/// the rectified input: the detector approaches the signal monotonically
/// and never overshoots it.
pub proof fn lemma_envelope_approach(c: Comp, x: int)
    requires
        comp_wf(c),
        0 <= x <= FX_MAX,
    ensures
        x >= c.prev_env ==> c.prev_env <= comp_env_val(c, x) <= x,
        x < c.prev_env ==> x <= comp_env_val(c, x) <= c.prev_env,
        0 <= comp_env_val(c, x) <= FX_MAX,
{
    lemma_fx_mul_coeff(comp_cte_sel(c, x), fx_sub_val(c.prev_env as int, x));
}

/// Exact gap contraction: each sample of a constant input multiplies the
/// remaining distance between envelope and input by the active smoothing
/// coefficient, in fixed point, with no other error term.
pub proof fn lemma_envelope_gap(c: Comp, x: int)
    requires
        comp_wf(c),
        0 <= x <= FX_MAX,
    ensures
        comp_env_val(c, x) - x == fx_mul_val(comp_cte_sel(c, x), c.prev_env - x),
{
    lemma_fx_mul_coeff(comp_cte_sel(c, x), fx_sub_val(c.prev_env as int, x));
}

/// The detector state after `n` samples of the same rectified input.
pub open spec fn comp_after(c: Comp, x: int, n: nat) -> Comp
    decreases n,
{
    if n == 0 {
        c
    } else {
        comp_next(comp_after(c, x, (n - 1) as nat), x)
    }
}

/// The step response of the envelope follower: on a constant input the
/// active branch never flips, the envelope approaches the input
/// monotonically without overshooting, and every sample multiplies the
/// remaining gap by exactly the attack (input at or above the starting
/// envelope) or release (input below it) coefficient. This is the one-pole
/// exponential-smoothing law, stated in exact fixed-point arithmetic.
pub proof fn lemma_envelope_step_response(c: Comp, x: int, n: nat)
    requires
        comp_wf(c),
        0 <= x <= FX_MAX,
        n >= 1,
    ensures
        comp_wf(comp_after(c, x, n)),
        comp_after(c, x, n).cte_attack == c.cte_attack,
        comp_after(c, x, n).cte_release == c.cte_release,
        x >= c.prev_env ==> {
            &&& comp_after(c, x, (n - 1) as nat).prev_env <= comp_after(c, x, n).prev_env <= x
            &&& comp_after(c, x, n).prev_env - x == fx_mul_val(
                c.cte_attack as int,
                comp_after(c, x, (n - 1) as nat).prev_env - x,
            )
        },
        x < c.prev_env ==> {
            &&& x <= comp_after(c, x, n).prev_env <= comp_after(c, x, (n - 1) as nat).prev_env
            &&& comp_after(c, x, n).prev_env - x == fx_mul_val(
                c.cte_release as int,
                comp_after(c, x, (n - 1) as nat).prev_env - x,
            )
        },
    decreases n,
{
    let prev = comp_after(c, x, (n - 1) as nat);
    if n > 1 {
        lemma_envelope_step_response(c, x, (n - 1) as nat);
    }
    lemma_envelope_approach(prev, x);
    lemma_envelope_gap(prev, x);
    // Once the gap has closed completely, the branch flips to attack, but
    // both coefficients keep the gap at exactly zero.
    lemma_fx_mul_coeff(c.cte_release as int, 0);
    lemma_fx_mul_coeff(c.cte_attack as int, 0);
}

/// A ratio of exactly one makes the compression exponent zero, and the
/// gain multiplier is exactly unity for every envelope value.
pub proof fn lemma_ratio_one_unity(c: Comp, x: int)
    requires
        comp_wf(c),
        c.ratio == FX_ONE,
        x >= 0,
    ensures
        comp_gain_val(c, x) == FX_ONE,
{
    let env = comp_env_val(c, x);
    if env > c.thrlin {
        lemma_fx_div_one(FX_ONE as int);
        let arg = fx_div_val(env, c.thrlin as int);
        assert(0 * ln_val(arg) == 0) by (nonlinear_arith);
        lemma_exp_zero();
    }
}

impl Comp {
    /// Reconfigures the detector, keeping the envelope state. Relies on the
    /// exponential kernel for the decibel threshold and both smoothing
    /// coefficients; a rejected configuration leaves the detector unchanged.
    pub fn update(
        &mut self,
        threshold_db: i64,
        attack: i64,
        release: i64,
        sample_rate: i64,
        ratio: i64,
    ) -> (r: Result<(), ConfigError>)
        ensures
            r is Ok <==> comp_config_ok(attack as int, release as int, sample_rate as int, ratio as int),
            r is Ok ==> *final(self) == comp_configured(
                old(self).prev_env as int,
                threshold_db as int,
                attack as int,
                release as int,
                sample_rate as int,
                ratio as int,
            ),
            r is Ok && 0 <= old(self).prev_env <= FX_MAX ==> comp_wf(*final(self)),
            r is Err ==> *final(self) == *old(self),
            r matches Err(e) ==> e == comp_config_err(
                attack as int,
                release as int,
                sample_rate as int,
                ratio as int,
            ),
    {
        if sample_rate <= 0 {
            return Err(ConfigError::NonPositiveSampleRate);
        }
        let attack_span = fx_mul(attack, sample_rate);
        if attack <= 0 || attack_span <= 0 {
            return Err(ConfigError::NonPositiveTimeConstant);
        }
        let release_span = fx_mul(release, sample_rate);
        if release <= 0 || release_span <= 0 {
            return Err(ConfigError::NonPositiveTimeConstant);
        }
        if ratio <= 0 {
            return Err(ConfigError::NonPositiveRatio);
        }
        proof {
            crate::math::lemma_exp_range(fx_mul_val(threshold_db as int, DB_TO_LN_FX as int));
        }
        let mut thr = exp_fx(fx_mul(threshold_db, DB_TO_LN_FX));
        if thr < 1 {
            thr = 1;
        }
        let mut ca = exp_fx(-fx_div(TWO_PI_MS_FX, attack_span));
        if ca < 0 {
            ca = 0;
        }
        if ca > FX_ONE {
            ca = FX_ONE;
        }
        let mut cr = exp_fx(-fx_div(TWO_PI_MS_FX, release_span));
        if cr < 0 {
            cr = 0;
        }
        if cr > FX_ONE {
            cr = FX_ONE;
        }
        self.thrlin = thr;
        self.cte_attack = ca;
        self.cte_release = cr;
        self.ratio = ratio;
        Ok(())
    }

    /// A fresh detector: the envelope starts at unity (fully open), the
    /// remaining fields come from the configuration.
    pub fn new(threshold_db: i64, attack: i64, release: i64, sample_rate: i64, ratio: i64) -> (r:
        Result<Comp, ConfigError>)
        ensures
            r is Ok <==> comp_config_ok(attack as int, release as int, sample_rate as int, ratio as int),
            r matches Ok(c) ==> c == comp_configured(
                FX_ONE as int,
                threshold_db as int,
                attack as int,
                release as int,
                sample_rate as int,
                ratio as int,
            ),
            r matches Ok(c) ==> comp_wf(c),
            r matches Err(e) ==> e == comp_config_err(
                attack as int,
                release as int,
                sample_rate as int,
                ratio as int,
            ),
    {
        let mut c = Comp { prev_env: FX_ONE, cte_attack: 0, cte_release: 0, thrlin: 1, ratio: 1 };
        match c.update(threshold_db, attack, release, sample_rate, ratio) {
            Ok(()) => Ok(c),
            Err(e) => Err(e),
        }
    }

    /// The current envelope value (the one sample of state).
    pub fn envelope(&self) -> (r: i64)
        ensures
            r == self.prev_env,
    {
        self.prev_env
    }

    /// Advances the envelope one sample of rectified input and returns the
    /// gain multiplier. The result is always positive, and never exceeds
    /// unity while the ratio is at least one, so a caller may divide by it.
    pub fn process(&mut self, detector_input: i64) -> (r: i64)
        requires
            comp_wf(*old(self)),
            detector_input >= 0,
        ensures
            r as int == comp_gain_val(*old(self), detector_input as int),
            *final(self) == comp_next(*old(self), detector_input as int),
            comp_wf(*final(self)),
            1 <= r,
            old(self).ratio >= FX_ONE ==> r <= FX_ONE,
            comp_env_val(*old(self), detector_input as int) <= old(self).thrlin ==> r == FX_ONE,
    {
        let cte = if detector_input >= self.prev_env {
            self.cte_attack
        } else {
            self.cte_release
        };
        let env = fx_add(detector_input, fx_mul(cte, fx_sub(self.prev_env, detector_input)));
        proof {
            lemma_fx_mul_coeff(cte as int, fx_sub_val(self.prev_env as int, detector_input as int));
        }
        self.prev_env = env;
        if env <= self.thrlin {
            FX_ONE
        } else {
            let x = fx_div(env, self.thrlin);
            proof {
                assert(env as int * FX_ONE >= self.thrlin as int * FX_ONE) by (nonlinear_arith)
                    requires
                        env as int >= self.thrlin as int,
                ;
                lemma_div_is_ordered(
                    self.thrlin as int * FX_ONE,
                    env as int * FX_ONE,
                    self.thrlin as int,
                );
                lemma_div_by_multiple(FX_ONE as int, self.thrlin as int);
                assert((self.thrlin as int * FX_ONE) / (self.thrlin as int) == FX_ONE) by {
                    assert(self.thrlin as int * FX_ONE == FX_ONE * self.thrlin as int)
                        by (nonlinear_arith);
                }
            }
            let e = fx_sub(fx_div(FX_ONE, self.ratio), FX_ONE);
            let mut g = pow_fx(x, e);
            if g < 1 {
                g = 1;
            }
            if self.ratio >= FX_ONE && g > FX_ONE {
                g = FX_ONE;
            }
            g
        }
    }
}

} // verus!
