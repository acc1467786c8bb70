//! Tests of the multiband engine: mode dispatch, the band frequency map,
//! construction errors, and the per-mode processing laws on concrete data.

use dynsat::comp::Comp;
use dynsat::engine::{
    band_frequency, mode_from_signal, Mode, MultibandEngine, ATTACK_MS_FX, BAND_COUNT, BAND_Q_FX,
    NORM_FX, RATIO_FX, RELEASE_MS_FX, THRESHOLD_DB_FX,
};
use dynsat::fixed::{fx_abs, fx_div, fx_mul, FX_ONE};
use dynsat::math::tanh_fx;
use dynsat::svf::{FilterKind, Svf, SvfCoefficients};
use dynsat::ConfigError;

fn to_f(x: i64) -> f64 {
    x as f64 / 4294967296.0
}

fn from_f(x: f64) -> i64 {
    (x * 4294967296.0) as i64
}

const SR_48K: i64 = 48000 * FX_ONE;

#[test]
fn mode_dispatch_with_default_fallback() {
    assert_eq!(mode_from_signal(1), Mode::MultibandSaturate);
    assert_eq!(mode_from_signal(2), Mode::MultibandCompress);
    assert_eq!(mode_from_signal(3), Mode::WidebandCompress);
    assert_eq!(mode_from_signal(0), Mode::Clean);
    assert_eq!(mode_from_signal(4), Mode::Clean);
    assert_eq!(mode_from_signal(-1), Mode::Clean);
    assert_eq!(mode_from_signal(100), Mode::Clean);
}

#[test]
fn band_frequencies_span_audible_range_monotonically() {
    // Band 0 sits at exactly 20 Hz: the exponent is exactly zero there.
    assert_eq!(band_frequency(0), 20 * FX_ONE);
    // The top band is 20 kHz within kernel tolerance.
    assert!((to_f(band_frequency(BAND_COUNT - 1)) - 20000.0).abs() < 1.0);
    for i in 0..BAND_COUNT - 1 {
        assert!(band_frequency(i) < band_frequency(i + 1));
    }
    // The mapping is the exponential 20 * 1000^(i/15).
    for i in 0..BAND_COUNT {
        let expect = 20.0 * 1000f64.powf(i as f64 / 15.0);
        let got = to_f(band_frequency(i));
        assert!((got - expect).abs() / expect < 1e-4, "band {i}: {got} vs {expect}");
    }
}

#[test]
fn engine_construction_errors() {
    assert!(matches!(
        MultibandEngine::new(0),
        Err(ConfigError::NonPositiveSampleRate)
    ));
    assert!(matches!(
        MultibandEngine::new(-SR_48K),
        Err(ConfigError::NonPositiveSampleRate)
    ));
    // At 30 kHz the top bands sit above Nyquist.
    assert!(matches!(
        MultibandEngine::new(30000 * FX_ONE),
        Err(ConfigError::FrequencyAboveNyquist)
    ));
    assert!(MultibandEngine::new(SR_48K).is_ok());
    assert!(MultibandEngine::new(44100 * FX_ONE).is_ok());
}

#[test]
fn clean_mode_is_identity_for_small_input_at_unity_gains() {
    let mut e = MultibandEngine::new(SR_48K).unwrap();
    for k in 1..20i64 {
        let x = from_f(k as f64 * 0.001);
        let y = e.process_sample(x, Mode::Clean, FX_ONE, FX_ONE);
        assert!((to_f(y) - to_f(x)).abs() < 1e-5);
    }
}

#[test]
fn clean_mode_applies_gains_and_saturator() {
    let mut e = MultibandEngine::new(SR_48K).unwrap();
    let x = from_f(0.4);
    let gain = from_f(2.0);
    let out_gain = from_f(0.5);
    let y = e.process_sample(x, Mode::Clean, gain, out_gain);
    let expect = (0.4f64 * 2.0).tanh() * 0.5;
    assert!((to_f(y) - expect).abs() < 1e-6);
    // The clean path touches no band state.
    for b in e.bands.iter() {
        assert_eq!(b.svf.ic1, 0);
        assert_eq!(b.svf.ic2, 0);
        assert_eq!(b.comp.prev_env, FX_ONE);
    }
}

#[test]
fn saturate_mode_equals_soft_clipped_bands_below_threshold() {
    // When every envelope gain is exactly unity (signal at or below the
    // 0 dB threshold), the saturating mode's band contribution is exactly
    // tanh(band signal): the round trip through the envelope gain is a
    // no-op. Replicate the band loop from the library's own primitives and
    // demand bit-exact agreement.
    let mut e = MultibandEngine::new(SR_48K).unwrap();
    let mut svfs: Vec<Svf> = Vec::new();
    let mut comps: Vec<Comp> = Vec::new();
    for i in 0..BAND_COUNT {
        let coeffs =
            SvfCoefficients::from_params(FilterKind::BandPass, SR_48K, band_frequency(i), BAND_Q_FX)
                .unwrap();
        svfs.push(Svf::new(coeffs));
        comps.push(
            Comp::new(THRESHOLD_DB_FX, ATTACK_MS_FX, RELEASE_MS_FX, SR_48K, RATIO_FX).unwrap(),
        );
    }
    for k in 0..200usize {
        let x = from_f(0.002 * (k as f64 * 0.37).sin());
        let y = e.process_sample(x, Mode::MultibandSaturate, FX_ONE, FX_ONE);
        let mut acc: i64 = 0;
        for i in 0..BAND_COUNT {
            let b = svfs[i].run(fx_mul(x, FX_ONE));
            let cv = comps[i].process(fx_abs(b));
            assert_eq!(cv, FX_ONE, "sample {k} band {i} should be below threshold");
            acc = dynsat::fixed::fx_add(acc, tanh_fx(fx_mul(b, FX_ONE)));
        }
        let expect = fx_mul(fx_div(acc, NORM_FX), FX_ONE);
        assert_eq!(y, expect, "sample {k}");
    }
}

#[test]
fn compress_mode_tracks_band_sum() {
    // Mode 2 applies only the envelope gains: replicate it and demand
    // bit-exact agreement on a loud input as well.
    let mut e = MultibandEngine::new(SR_48K).unwrap();
    let mut svfs: Vec<Svf> = Vec::new();
    let mut comps: Vec<Comp> = Vec::new();
    for i in 0..BAND_COUNT {
        let coeffs =
            SvfCoefficients::from_params(FilterKind::BandPass, SR_48K, band_frequency(i), BAND_Q_FX)
                .unwrap();
        svfs.push(Svf::new(coeffs));
        comps.push(
            Comp::new(THRESHOLD_DB_FX, ATTACK_MS_FX, RELEASE_MS_FX, SR_48K, RATIO_FX).unwrap(),
        );
    }
    let gain = from_f(3.0);
    let out_gain = from_f(0.7);
    for k in 0..200usize {
        let x = from_f(1.5 * (k as f64 * 0.13).sin());
        let y = e.process_sample(x, Mode::MultibandCompress, gain, out_gain);
        let xa = fx_mul(x, gain);
        let mut acc: i64 = 0;
        for i in 0..BAND_COUNT {
            let b = svfs[i].run(xa);
            let cv = comps[i].process(fx_abs(b));
            acc = dynsat::fixed::fx_add(acc, fx_mul(b, cv));
        }
        let expect = fx_mul(fx_div(acc, NORM_FX), out_gain);
        assert_eq!(y, expect, "sample {k}");
    }
}

#[test]
fn wideband_mode_reuses_band_zero_detector() {
    let mut e = MultibandEngine::new(SR_48K).unwrap();
    // A loud sample through the wideband path moves band 0's envelope and
    // no other band's, and touches no filter registers.
    let y = e.process_sample(from_f(2.0), Mode::WidebandCompress, FX_ONE, FX_ONE);
    assert!(e.bands[0].comp.prev_env != FX_ONE);
    for i in 1..BAND_COUNT {
        assert_eq!(e.bands[i].comp.prev_env, FX_ONE);
    }
    for b in e.bands.iter() {
        assert_eq!(b.svf.ic1, 0);
        assert_eq!(b.svf.ic2, 0);
    }
    // And the output is input * gain * cv * out_gain with the cv the
    // detector just produced on the rectified input.
    let mut c = Comp::new(THRESHOLD_DB_FX, ATTACK_MS_FX, RELEASE_MS_FX, SR_48K, RATIO_FX).unwrap();
    let cv = c.process(from_f(2.0));
    assert_eq!(y, fx_mul(fx_mul(from_f(2.0), cv), FX_ONE));
}
