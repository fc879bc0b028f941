//! Rendering and mixing engine for timed stereo audio plans.
//!
//! A plan is an ordered list of segments: steady tones, transitions between
//! tones, layered colored noise and audio overlays.  This crate holds the
//! deterministic core of the renderer: duration handling, chunk planning,
//! phase accumulation, gain and fade arithmetic, resampling and overlay
//! mixing, cache keys for synthesized speech, and output-format selection.
//! Quantities are held as exact integers (microseconds, millihertz, parts
//! per million), so every rule is stated and checked precisely.

pub mod cache;
pub mod duration;
pub mod engine;
pub mod gain;
pub mod model;
pub mod paths;
pub mod plan;
pub mod resample;
pub mod sinkfmt;

use vstd::prelude::*;

verus! {

/// Number of samples covered by `us` microseconds at `sr` samples per
/// second: `us * sr / 1_000_000`, rounded to nearest (half up), saturating
/// at `u64::MAX`.
pub open spec fn spec_samples_for(us: nat, sr: nat) -> nat {
    let exact = (us * sr + 500_000) / 1_000_000;
    if exact <= u64::MAX as nat {
        exact
    } else {
        u64::MAX as nat
    }
}

/// Convert a span of microseconds to a sample count at the given rate,
/// rounding to the nearest whole sample.
pub fn micros_to_samples(us: u64, sample_rate: u32) -> (r: u64)
    ensures
        r == spec_samples_for(us as nat, sample_rate as nat),
{
    proof {
        assert((us as int) * (sample_rate as int) + 500_000 < u128::MAX) by (nonlinear_arith)
            requires
                us <= u64::MAX,
                sample_rate <= u32::MAX,
        ;
    }
    let wide: u128 = (us as u128) * (sample_rate as u128) + 500_000;
    let q: u128 = wide / 1_000_000;
    if q > u64::MAX as u128 {
        u64::MAX
    } else {
        q as u64
    }
}

} // verus!
