//! A multiband dynamic saturation processor, verified.
//!
//! The engine splits a stereo signal into parallel frequency bands, applies
//! per-band envelope-driven gain control, optionally saturates each band, and
//! recombines the bands. All signal values are Q31.32 fixed-point numbers held
//! in `i64`; every arithmetic step is specified exactly, including saturation
//! to the representable range and truncation toward zero.

use vstd::prelude::*;

pub mod comp;
pub mod engine;
pub mod fixed;
pub mod math;
pub mod stereo;
pub mod svf;

verus! {

/// Errors raised at configuration time. Once a component is configured,
/// processing itself never fails.
#[derive(Clone, Copy, Debug, PartialEq, Eq, Structural)]
pub enum ConfigError {
    /// The sample rate was zero or negative.
    NonPositiveSampleRate,
    /// A filter center frequency was zero or negative.
    NonPositiveFrequency,
    /// A filter center frequency was at or above the Nyquist frequency.
    FrequencyAboveNyquist,
    /// The frequency warp could not produce a positive cutoff factor.
    UnstableFrequencyWarp,
    /// A filter resonance (Q) was zero or negative.
    NonPositiveResonance,
    /// A detector time constant (attack or release) was zero or negative.
    NonPositiveTimeConstant,
    /// A detector ratio was zero or negative.
    NonPositiveRatio,
}

} // verus!
