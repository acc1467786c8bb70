//! The multiband engine for one channel: an ordered bank of bands, a
//! per-sample mode dispatch, and gain normalization over the summed bands.
//!
//! Each band pairs one bandpass filter with one envelope detector. State
//! persists across samples and across mode switches: switching modes never
//! resets filter registers or envelope values, so a switch cannot click.

use crate::comp::{
    comp_config_err, comp_config_ok, comp_configured, comp_gain_val, comp_next, comp_wf, Comp,
};
use crate::fixed::{
    abs_val, fx_abs, fx_add, fx_add_val, fx_div, fx_div_val, fx_mul, fx_mul_val, fx_sat,
    lemma_fx_div_one, lemma_fx_mul_one, FX_MAX, FX_ONE,
};
use crate::math::{exp_fx, exp_val, tanh_fx, tanh_val};
use crate::svf::{
    svf_a1, svf_a2, svf_a3, svf_config_err, svf_config_ok, svf_next, svf_v1_val, FilterKind, Svf,
    SvfCoefficients,
};
use crate::ConfigError;
use vstd::prelude::*;

verus! {

/// Number of bands in the multiband split.
pub const BAND_COUNT: usize = 16;

/// The normalization divisor applied to the band sum: `BAND_COUNT * 0.25`
/// in Q31.32, chosen to keep the summed bands in a controlled range while
/// leaving headroom for saturation.
pub const NORM_FX: i64 = 17179869184;

/// Resonance shared by all bands: `sqrt 2` in Q31.32.
pub const BAND_Q_FX: i64 = 6074001000;

/// `ln 1000` in Q31.32: spans the 20 Hz .. 20 kHz mapping exponentially.
pub const LN1000_FX: i64 = 29668583012;

/// The lowest band center frequency: 20 Hz in Q31.32.
pub const FREQ_BASE_FX: i64 = 85899345920;

/// Detector threshold shared by all bands: 0 dB.
pub const THRESHOLD_DB_FX: i64 = 0;

/// Detector attack shared by all bands: 10 ms in Q31.32.
pub const ATTACK_MS_FX: i64 = 42949672960;

/// Detector release shared by all bands: 20 ms in Q31.32.
pub const RELEASE_MS_FX: i64 = 85899345920;

/// Detector ratio shared by all bands: 5.0 in Q31.32.
pub const RATIO_FX: i64 = 21474836480;

/// The per-sample processing mode.
#[derive(Clone, Copy, Debug, PartialEq, Eq, Structural)]
pub enum Mode {
    /// Soft-clip saturation of the full-band signal; the default for any
    /// control value that names no other mode.
    Clean,
    /// Band split, envelope gain, then per-band saturation with the
    /// envelope gain divided back out.
    MultibandSaturate,
    /// Band split and envelope gain only.
    MultibandCompress,
    /// One envelope detector (band 0's) applied to the full-band signal.
    WidebandCompress,
}

/// How an integer-valued control signal selects the mode; anything outside
/// 1..=3 falls back to the clean path.
pub open spec fn mode_of(v: int) -> Mode {
    if v == 1 {
        Mode::MultibandSaturate
    } else if v == 2 {
        Mode::MultibandCompress
    } else if v == 3 {
        Mode::WidebandCompress
    } else {
        Mode::Clean
    }
}

/// Decodes the per-sample mode control value.
pub fn mode_from_signal(v: i64) -> (m: Mode)
    ensures
        m == mode_of(v as int),
{
    if v == 1 {
        Mode::MultibandSaturate
    } else if v == 2 {
        Mode::MultibandCompress
    } else if v == 3 {
        Mode::WidebandCompress
    } else {
        Mode::Clean
    }
}

/// Position of band `i` across the audible range, as a fraction in `[0, 1]`.
pub open spec fn band_ratio_val(i: int) -> int {
    crate::fixed::fx_divn_val(i * FX_ONE, (BAND_COUNT - 1) as int)
}

/// Center frequency of band `i`: `20 Hz * 1000^(i / (BAND_COUNT-1))`, a
/// monotone exponential mapping from 20 Hz up to 20 kHz.
pub open spec fn band_freq_val(i: int) -> int {
    fx_mul_val(FREQ_BASE_FX as int, exp_val(fx_mul_val(band_ratio_val(i), LN1000_FX as int)))
}

/// Center frequency of band `i` in Q31.32 Hz.
pub fn band_frequency(i: usize) -> (r: i64)
    requires
        i < BAND_COUNT,
    ensures
        r as int == band_freq_val(i as int),
{
    let t = crate::fixed::fx_divn((i as i64) * FX_ONE, (BAND_COUNT - 1) as i64);
    fx_mul(FREQ_BASE_FX, exp_fx(fx_mul(t, LN1000_FX)))
}

/// One band: a filter and a detector for a single channel.
#[derive(Clone, Copy, Debug, PartialEq, Eq, Structural)]
pub struct Band {
    pub svf: Svf,
    pub comp: Comp,
}

/// The bandpass signal band `b` extracts from the gained input.
pub open spec fn band_filtered(b: Band, xa: int) -> int {
    svf_v1_val(b.svf, xa)
}

/// The envelope gain the band's detector derives from the rectified
/// bandpass signal.
pub open spec fn band_cv(b: Band, xa: int) -> int {
    comp_gain_val(b.comp, fx_sat(abs_val(band_filtered(b, xa))))
}

/// The band's contribution to the mix: the gained band signal, and in the
/// saturating mode additionally `tanh(band * gain) / cv`, which drives the
/// compressed band into saturation and divides the compression back out.
pub open spec fn band_contrib(b: Band, xa: int, gain: int, saturate: bool) -> int {
    let bb = fx_mul_val(band_filtered(b, xa), band_cv(b, xa));
    if saturate {
        fx_div_val(tanh_val(fx_mul_val(bb, gain)), band_cv(b, xa))
    } else {
        bb
    }
}

/// The band state after one sample: the filter steps on the gained input,
/// the detector steps on the rectified bandpass signal.
pub open spec fn band_next(b: Band, xa: int) -> Band {
    Band {
        svf: svf_next(b.svf, xa),
        comp: comp_next(b.comp, fx_sat(abs_val(band_filtered(b, xa)))),
    }
}

impl Band {
    /// Advances the band one sample and returns its contribution.
    fn step(&mut self, xa: i64, gain: i64, saturate: bool) -> (out: i64)
        requires
            comp_wf(old(self).comp),
        ensures
            out as int == band_contrib(*old(self), xa as int, gain as int, saturate),
            *final(self) == band_next(*old(self), xa as int),
            comp_wf(final(self).comp),
    {
        let b = self.svf.run(xa);
        let cv = self.comp.process(fx_abs(b));
        let bb = fx_mul(b, cv);
        if saturate {
            fx_div(tanh_fx(fx_mul(bb, gain)), cv)
        } else {
            bb
        }
    }
}

/// All detectors in a bank are well-formed.
pub open spec fn bands_wf(bs: Seq<Band>) -> bool {
    forall|i: int| 0 <= i < bs.len() ==> comp_wf(#[trigger] bs[i].comp)
}

/// Every band stepped on the same gained input.
pub open spec fn bands_next_seq(bs: Seq<Band>, xa: int) -> Seq<Band> {
    bs.map_values(|b: Band| band_next(b, xa))
}

/// The saturating left-to-right sum of all band contributions.
pub open spec fn bands_acc(bs: Seq<Band>, xa: int, gain: int, saturate: bool) -> int
    decreases bs.len(),
{
    if bs.len() == 0 {
        0
    } else {
        fx_add_val(
            bands_acc(bs.drop_last(), xa, gain, saturate),
            band_contrib(bs.last(), xa, gain, saturate),
        )
    }
}

/// The output of one sample of the engine, for each mode, over the band
/// states at the start of the sample.
pub open spec fn engine_out_seq(bs: Seq<Band>, x: int, mode: Mode, gain: int, out_gain: int) -> int {
    match mode {
        Mode::Clean => fx_mul_val(tanh_val(fx_mul_val(x, gain)), out_gain),
        Mode::WidebandCompress => {
            let xa = fx_mul_val(x, gain);
            fx_mul_val(fx_mul_val(xa, comp_gain_val(bs[0].comp, fx_sat(abs_val(xa)))), out_gain)
        },
        Mode::MultibandCompress => fx_mul_val(
            fx_div_val(bands_acc(bs, fx_mul_val(x, gain), gain, false), NORM_FX as int),
            out_gain,
        ),
        Mode::MultibandSaturate => fx_mul_val(
            fx_div_val(bands_acc(bs, fx_mul_val(x, gain), gain, true), NORM_FX as int),
            out_gain,
        ),
    }
}

/// The band states after one sample: untouched in the clean mode, only
/// band 0's detector in the wideband mode, every band in the split modes.
pub open spec fn engine_next_seq(bs: Seq<Band>, x: int, mode: Mode, gain: int) -> Seq<Band> {
    match mode {
        Mode::Clean => bs,
        Mode::WidebandCompress => {
            let xa = fx_mul_val(x, gain);
            bs.update(
                0,
                Band { svf: bs[0].svf, comp: comp_next(bs[0].comp, fx_sat(abs_val(xa))) },
            )
        },
        Mode::MultibandCompress => bands_next_seq(bs, fx_mul_val(x, gain)),
        Mode::MultibandSaturate => bands_next_seq(bs, fx_mul_val(x, gain)),
    }
}

/// When a band's envelope gain is exactly unity (signal at or below the
/// threshold), the saturating mode's contribution is exactly the soft-clipped
/// band signal: multiplying and dividing by unity are no-ops in fixed point.
pub proof fn lemma_saturate_band_unity(b: Band, xa: int, gain: int)
    requires
        band_cv(b, xa) == FX_ONE,
    ensures
        band_contrib(b, xa, gain, true) == tanh_val(fx_mul_val(band_filtered(b, xa), gain)),
{
    let bsig = band_filtered(b, xa);
    lemma_fx_mul_one(bsig);
    lemma_fx_div_one(tanh_val(fx_mul_val(bsig, gain)));
}

/// In the clean mode with unity input and output gains, the engine reduces
/// to the soft saturator alone.
pub proof fn lemma_clean_unity(bs: Seq<Band>, x: int)
    requires
        -FX_MAX <= x <= FX_MAX,
    ensures
        engine_out_seq(bs, x, Mode::Clean, FX_ONE as int, FX_ONE as int) == tanh_val(x),
{
    lemma_fx_mul_one(x);
    lemma_fx_mul_one(tanh_val(x));
}

/// When every band's configuration succeeds for this sample rate.
pub open spec fn engine_config_ok(sr: int) -> bool {
    forall|i: int|
        0 <= i < BAND_COUNT ==> {
            &&& svf_config_ok(sr, #[trigger] band_freq_val(i), BAND_Q_FX as int)
            &&& comp_config_ok(ATTACK_MS_FX as int, RELEASE_MS_FX as int, sr, RATIO_FX as int)
        }
}

/// The error construction reports: the first failed check, scanning bands
/// from the lowest upward, filter before detector within a band.
pub open spec fn engine_config_err_from(sr: int, i: int) -> ConfigError
    decreases BAND_COUNT - i,
{
    if i < 0 || i >= BAND_COUNT {
        ConfigError::NonPositiveSampleRate
    } else if !svf_config_ok(sr, band_freq_val(i), BAND_Q_FX as int) {
        svf_config_err(sr, band_freq_val(i), BAND_Q_FX as int)
    } else if !comp_config_ok(ATTACK_MS_FX as int, RELEASE_MS_FX as int, sr, RATIO_FX as int) {
        comp_config_err(ATTACK_MS_FX as int, RELEASE_MS_FX as int, sr, RATIO_FX as int)
    } else {
        engine_config_err_from(sr, i + 1)
    }
}

/// The band a successful construction produces at index `i`: cleared filter
/// registers, detector open at unity envelope.
pub open spec fn band_init(sr: int, i: int) -> Band {
    Band {
        svf: Svf {
            coeffs: SvfCoefficients {
                a1: svf_a1(sr, band_freq_val(i), BAND_Q_FX as int) as i64,
                a2: svf_a2(sr, band_freq_val(i), BAND_Q_FX as int) as i64,
                a3: svf_a3(sr, band_freq_val(i), BAND_Q_FX as int) as i64,
            },
            ic1: 0,
            ic2: 0,
        },
        comp: comp_configured(
            FX_ONE as int,
            THRESHOLD_DB_FX as int,
            ATTACK_MS_FX as int,
            RELEASE_MS_FX as int,
            sr,
            RATIO_FX as int,
        ),
    }
}

/// The engine for one channel: a fixed, ordered bank of bands.
#[derive(Debug)]
pub struct MultibandEngine {
    pub bands: Vec<Band>,
}

impl MultibandEngine {
    /// Structural invariant: the band count is fixed and every detector is
    /// well-formed.
    pub open spec fn wf(&self) -> bool {
        &&& self.bands@.len() == BAND_COUNT
        &&& bands_wf(self.bands@)
    }

    /// Builds the bank of `BAND_COUNT` bands for the given sample rate
    /// (Q31.32 Hz), each with its exponentially mapped center frequency and
    /// an identically configured detector.
    pub fn new(sample_rate: i64) -> (r: Result<MultibandEngine, ConfigError>)
        ensures
            r is Ok <==> engine_config_ok(sample_rate as int),
            r matches Ok(e) ==> {
                &&& e.wf()
                &&& forall|i: int|
                    0 <= i < BAND_COUNT ==> e.bands@[i] == #[trigger] band_init(
                        sample_rate as int,
                        i,
                    )
            },
            r matches Err(err) ==> err == engine_config_err_from(sample_rate as int, 0),
    {
        let mut bands: Vec<Band> = Vec::new();
        let mut i: usize = 0;
        while i < BAND_COUNT
            invariant
                i <= BAND_COUNT,
                bands@.len() == i as int,
                forall|j: int|
                    0 <= j < i ==> {
                        &&& svf_config_ok(
                            sample_rate as int,
                            #[trigger] band_freq_val(j),
                            BAND_Q_FX as int,
                        )
                        &&& comp_config_ok(
                            ATTACK_MS_FX as int,
                            RELEASE_MS_FX as int,
                            sample_rate as int,
                            RATIO_FX as int,
                        )
                    },
                forall|j: int| 0 <= j < i ==> bands@[j] == #[trigger] band_init(sample_rate as int, j),
                forall|j: int| 0 <= j < i ==> comp_wf(#[trigger] bands@[j].comp),
                i < BAND_COUNT ==> engine_config_err_from(sample_rate as int, 0)
                    == engine_config_err_from(sample_rate as int, i as int),
            decreases BAND_COUNT - i,
        {
            let freq = band_frequency(i);
            let coeffs = match SvfCoefficients::from_params(
                FilterKind::BandPass,
                sample_rate,
                freq,
                BAND_Q_FX,
            ) {
                Ok(c) => c,
                Err(e) => {
                    return Err(e);
                },
            };
            let comp = match Comp::new(
                THRESHOLD_DB_FX,
                ATTACK_MS_FX,
                RELEASE_MS_FX,
                sample_rate,
                RATIO_FX,
            ) {
                Ok(c) => c,
                Err(e) => {
                    return Err(e);
                },
            };
            bands.push(Band { svf: Svf::new(coeffs), comp });
            i = i + 1;
        }
        Ok(MultibandEngine { bands })
    }

    /// Processes one sample of one channel. The contract pins the output
    /// and the new band states exactly, mode by mode; processing never
    /// fails once the engine is built, and the output always lies in the
    /// representable range: saturating arithmetic rules out any runaway or
    /// undefined value by construction.
    pub fn process_sample(&mut self, x: i64, mode: Mode, gain: i64, out_gain: i64) -> (out: i64)
        requires
            old(self).wf(),
        ensures
            final(self).wf(),
            -FX_MAX <= out <= FX_MAX,
            out as int == engine_out_seq(
                old(self).bands@,
                x as int,
                mode,
                gain as int,
                out_gain as int,
            ),
            final(self).bands@ == engine_next_seq(old(self).bands@, x as int, mode, gain as int),
    {
        match mode {
            Mode::Clean => fx_mul(tanh_fx(fx_mul(x, gain)), out_gain),
            Mode::WidebandCompress => {
                let xa = fx_mul(x, gain);
                let mut b0 = self.bands[0];
                let cv = b0.comp.process(fx_abs(xa));
                self.bands[0] = b0;
                fx_mul(fx_mul(xa, cv), out_gain)
            },
            Mode::MultibandCompress => self.band_pass(x, gain, out_gain, false),
            Mode::MultibandSaturate => self.band_pass(x, gain, out_gain, true),
        }
    }

    /// The shared band loop of the two split modes: filter, rectify, detect,
    /// apply the envelope gain (and optionally saturate), sum, normalize.
    fn band_pass(&mut self, x: i64, gain: i64, out_gain: i64, saturate: bool) -> (out: i64)
        requires
            old(self).wf(),
        ensures
            final(self).wf(),
            out as int == fx_mul_val(
                fx_div_val(
                    bands_acc(old(self).bands@, fx_mul_val(x as int, gain as int), gain as int, saturate),
                    NORM_FX as int,
                ),
                out_gain as int,
            ),
            final(self).bands@ == bands_next_seq(old(self).bands@, fx_mul_val(x as int, gain as int)),
    {
        let xa = fx_mul(x, gain);
        let mut acc: i64 = 0;
        let mut i: usize = 0;
        let ghost bs0 = self.bands@;
        while i < self.bands.len()
            invariant
                i <= self.bands@.len(),
                self.bands@.len() == bs0.len(),
                bands_wf(bs0),
                xa as int == fx_mul_val(x as int, gain as int),
                forall|j: int| i <= j < bs0.len() ==> self.bands@[j] == bs0[j],
                forall|j: int|
                    0 <= j < i ==> self.bands@[j] == #[trigger] band_next(bs0[j], xa as int),
                forall|j: int| 0 <= j < self.bands@.len() ==> comp_wf(#[trigger] self.bands@[j].comp),
                acc as int == bands_acc(bs0.subrange(0, i as int), xa as int, gain as int, saturate),
            decreases self.bands@.len() - i,
        {
            let mut b = self.bands[i];
            let part = b.step(xa, gain, saturate);
            self.bands[i] = b;
            acc = fx_add(acc, part);
            proof {
                assert(bs0.subrange(0, i + 1).drop_last() =~= bs0.subrange(0, i as int));
                assert(bs0.subrange(0, i + 1).last() == bs0[i as int]);
            }
            i = i + 1;
        }
        proof {
            assert(bs0.subrange(0, bs0.len() as int) =~= bs0);
            assert(self.bands@ =~= bands_next_seq(bs0, xa as int));
        }
        fx_mul(fx_div(acc, NORM_FX), out_gain)
    }
}

} // verus!
