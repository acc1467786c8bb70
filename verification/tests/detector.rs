//! Tests of the envelope detector: configuration errors, the compression
//! transfer law, and the attack/release step response.

use dynsat::comp::Comp;
use dynsat::fixed::FX_ONE;
use dynsat::ConfigError;

fn to_f(x: i64) -> f64 {
    x as f64 / 4294967296.0
}

fn from_f(x: f64) -> i64 {
    (x * 4294967296.0) as i64
}

const SR_48K: i64 = 48000 * FX_ONE;
const MS_10: i64 = 10 * FX_ONE;
const MS_20: i64 = 20 * FX_ONE;
const RATIO_5: i64 = 5 * FX_ONE;

#[test]
fn detector_config_rejects_bad_parameters() {
    assert_eq!(
        Comp::new(0, MS_10, MS_20, 0, RATIO_5),
        Err(ConfigError::NonPositiveSampleRate)
    );
    assert_eq!(
        Comp::new(0, 0, MS_20, SR_48K, RATIO_5),
        Err(ConfigError::NonPositiveTimeConstant)
    );
    assert_eq!(
        Comp::new(0, MS_10, -MS_20, SR_48K, RATIO_5),
        Err(ConfigError::NonPositiveTimeConstant)
    );
    assert_eq!(
        Comp::new(0, MS_10, MS_20, SR_48K, 0),
        Err(ConfigError::NonPositiveRatio)
    );
    assert_eq!(
        Comp::new(0, MS_10, MS_20, SR_48K, -FX_ONE),
        Err(ConfigError::NonPositiveRatio)
    );
}

#[test]
fn configured_fields_match_formulas() {
    let c = Comp::new(0, MS_10, MS_20, SR_48K, RATIO_5).unwrap();
    // A 0 dB threshold is exactly unity in linear scale.
    assert_eq!(c.thrlin, FX_ONE);
    // The detector starts fully open.
    assert_eq!(c.prev_env, FX_ONE);
    // Attack and release coefficients are exp(-2*pi*1000 / (ms * sr)).
    let ca = (-2.0 * std::f64::consts::PI * 1000.0 / 10.0 / 48000.0).exp();
    let cr = (-2.0 * std::f64::consts::PI * 1000.0 / 20.0 / 48000.0).exp();
    assert!((to_f(c.cte_attack) - ca).abs() < 1e-6);
    assert!((to_f(c.cte_release) - cr).abs() < 1e-6);
    // A -6 dB threshold is about 0.5012 linear.
    let c2 = Comp::new(-6 * FX_ONE, MS_10, MS_20, SR_48K, RATIO_5).unwrap();
    assert!((to_f(c2.thrlin) - 10f64.powf(-6.0 / 20.0)).abs() < 1e-6);
}

#[test]
fn ratio_one_gain_is_always_unity() {
    // Exponent-zero law, swept over envelope inputs from 0 to 10.
    let mut c = Comp::new(0, MS_10, MS_20, SR_48K, FX_ONE).unwrap();
    for k in 0..=100i64 {
        let x = from_f(k as f64 * 0.1);
        assert_eq!(c.process(x), FX_ONE);
    }
}

#[test]
fn gain_below_threshold_is_unity() {
    let mut c = Comp::new(0, MS_10, MS_20, SR_48K, RATIO_5).unwrap();
    // Inputs below the unity threshold keep the envelope below it.
    for _ in 0..100 {
        assert_eq!(c.process(from_f(0.25)), FX_ONE);
    }
}

#[test]
fn gain_above_threshold_follows_power_law() {
    let mut c = Comp::new(0, MS_10, MS_20, SR_48K, RATIO_5).unwrap();
    // Drive the envelope well above the threshold and let it settle.
    let x = from_f(4.0);
    let mut g: i64 = FX_ONE;
    for _ in 0..5000 {
        g = c.process(x);
    }
    // Settled envelope is the input; gain is (env/thr)^(1/5 - 1).
    let expect = 4.0f64.powf(1.0 / 5.0 - 1.0);
    assert!((to_f(g) - expect).abs() < 1e-4);
    assert!(g >= 1);
    assert!(g <= FX_ONE);
}

#[test]
fn attack_step_response_closes_at_one_time_constant() {
    let mut c = Comp::new(0, MS_10, MS_20, SR_48K, RATIO_5).unwrap();
    let x = from_f(3.0);
    let gap0 = to_f(x - c.envelope());
    // One time constant of the attack smoothing: ms * sr / 1000 / (2*pi)
    // samples, about 76 at 10 ms and 48 kHz.
    let tau = (10.0 * 48000.0 / 1000.0 / (2.0 * std::f64::consts::PI)) as usize;
    for _ in 0..tau {
        c.process(x);
    }
    let closed = 1.0 - to_f(x - c.envelope()) / gap0;
    assert!(closed > 0.59 && closed < 0.67, "closed {closed}");
    // After the full 10 ms the envelope has essentially arrived.
    for _ in 0..(480 - tau) {
        c.process(x);
    }
    let closed_full = 1.0 - to_f(x - c.envelope()) / gap0;
    assert!(closed_full > 0.99);
}

#[test]
fn release_step_response_decays_at_one_time_constant() {
    let mut c = Comp::new(0, MS_10, MS_20, SR_48K, RATIO_5).unwrap();
    // Open the envelope to 3.0 first.
    let x = from_f(3.0);
    for _ in 0..5000 {
        c.process(x);
    }
    let start = to_f(c.envelope());
    // Step back to zero: one release time constant is about 153 samples.
    let tau = (20.0 * 48000.0 / 1000.0 / (2.0 * std::f64::consts::PI)) as usize;
    for _ in 0..tau {
        c.process(0);
    }
    let remaining = to_f(c.envelope()) / start;
    assert!(remaining > 0.33 && remaining < 0.41, "remaining {remaining}");
}

#[test]
fn update_keeps_envelope_state() {
    let mut c = Comp::new(0, MS_10, MS_20, SR_48K, RATIO_5).unwrap();
    for _ in 0..100 {
        c.process(from_f(2.0));
    }
    let env = c.envelope();
    assert!(env != FX_ONE);
    c.update(0, MS_20, MS_10, SR_48K, FX_ONE).unwrap();
    assert_eq!(c.envelope(), env);
    // A rejected update leaves everything untouched.
    let before = c;
    assert_eq!(
        c.update(0, MS_10, MS_20, SR_48K, 0),
        Err(ConfigError::NonPositiveRatio)
    );
    assert_eq!(c, before);
}
