//! Gain arithmetic: interpolation of tone and noise gains across a
//! transition, and the normalization that keeps a tone and a noise voice
//! from summing past unity.  Gains are parts per million; normalized
//! gains are exact fractions.

use vstd::prelude::*;

use crate::engine::{spec_lerp_mhz, transition_freq_mhz};
use crate::plan::{ToneSpec, GAIN_PPM_MAX, GAIN_PPM_ONE};

verus! {

/// The pair of gains a sample is mixed with, as exact fractions over a
/// common denominator: the tone sample is scaled by `tone_num / den` and
/// the noise sample by `noise_num / den`.
#[derive(Debug, Clone, Copy, PartialEq, Eq, Structural)]
pub struct GainSplit {
    pub tone_num: u64,
    pub noise_num: u64,
    pub den: u64,
}

/// What `normalize_gains` yields: gains over the unity denominator when
/// they fit under it, else over their own sum, which makes the effective
/// gains sum to exactly one.
pub open spec fn spec_normalize_gains(tone_ppm: u64, noise_ppm: u64) -> GainSplit {
    if tone_ppm + noise_ppm > GAIN_PPM_ONE {
        GainSplit { tone_num: tone_ppm, noise_num: noise_ppm, den: (tone_ppm + noise_ppm) as u64 }
    } else {
        GainSplit { tone_num: tone_ppm, noise_num: noise_ppm, den: GAIN_PPM_ONE }
    }
}

/// Split a sample's gain between the tone and its noise voice.  When the
/// two gains sum past unity both are divided by that sum, so the
/// effective gains sum to exactly one and keep their ratio; otherwise
/// they apply as given.
pub fn normalize_gains(tone_ppm: u64, noise_ppm: u64) -> (g: GainSplit)
    requires
        tone_ppm <= GAIN_PPM_MAX,
        noise_ppm <= GAIN_PPM_MAX,
    ensures
        g == spec_normalize_gains(tone_ppm, noise_ppm),
        1 <= g.den,
        g.tone_num <= g.den,
        g.noise_num <= g.den,
{
    if tone_ppm + noise_ppm > GAIN_PPM_ONE {
        GainSplit { tone_num: tone_ppm, noise_num: noise_ppm, den: tone_ppm + noise_ppm }
    } else {
        GainSplit { tone_num: tone_ppm, noise_num: noise_ppm, den: GAIN_PPM_ONE }
    }
}

/// Law: when a tone gain and a noise gain sum past unity, the normalized
/// effective gains sum to exactly one — their numerators fill the common
/// denominator — and the ratio between tone and noise is preserved
/// exactly: `tone_num / noise_num == tone_ppm / noise_ppm` as a
/// cross-multiplication.
pub proof fn lemma_gain_normalization(tone_ppm: u64, noise_ppm: u64)
    requires
        tone_ppm <= GAIN_PPM_MAX,
        noise_ppm <= GAIN_PPM_MAX,
        tone_ppm + noise_ppm > GAIN_PPM_ONE,
    ensures
        spec_normalize_gains(tone_ppm, noise_ppm).tone_num + spec_normalize_gains(
            tone_ppm,
            noise_ppm,
        ).noise_num == spec_normalize_gains(tone_ppm, noise_ppm).den,
        spec_normalize_gains(tone_ppm, noise_ppm).tone_num * noise_ppm == spec_normalize_gains(
            tone_ppm,
            noise_ppm,
        ).noise_num * tone_ppm,
{
    assert(tone_ppm as int * noise_ppm as int == noise_ppm as int * tone_ppm as int)
        by (nonlinear_arith);
}

/// Interpolate a gain between `a` and `b` parts per million at fraction
/// `t_num / t_den`, rounding to the nearest part per million.
pub fn lerp_gain_ppm(a: u64, b: u64, t_num: u64, t_den: u64) -> (r: u64)
    requires
        a <= GAIN_PPM_MAX,
        b <= GAIN_PPM_MAX,
        1 <= t_den,
        t_num <= t_den,
    ensures
        r == spec_lerp_mhz(a as int, b as int, t_num as int, t_den as int),
        r <= GAIN_PPM_MAX,
        t_num == 0 ==> r == a,
        t_num == t_den ==> r == b,
{
    proof {
        crate::engine::lemma_lerp_mhz_between(a as int, b as int, t_num as int, t_den as int);
    }
    let v = transition_freq_mhz(a as i64, b as i64, t_num, t_den);
    v as u64
}

/// The tone gain at a point of a transition: interpolated between the
/// two tones' gains and clamped at unity, as the rendering rule asks.
pub fn transition_tone_gain_ppm(from: &ToneSpec, to: &ToneSpec, t_num: u64, t_den: u64) -> (r: u64)
    requires
        from.wf(),
        to.wf(),
        1 <= t_den,
        t_num <= t_den,
    ensures
        ({
            let lerped = spec_lerp_mhz(
                from.gain_ppm as int,
                to.gain_ppm as int,
                t_num as int,
                t_den as int,
            );
            r == if lerped > GAIN_PPM_ONE {
                GAIN_PPM_ONE as int
            } else {
                lerped
            }
        }),
        r <= GAIN_PPM_ONE,
{
    let v = lerp_gain_ppm(from.gain_ppm, to.gain_ppm, t_num, t_den);
    if v > GAIN_PPM_ONE {
        GAIN_PPM_ONE
    } else {
        v
    }
}

/// The gain split at a point of a transition with an active noise voice:
/// the interpolated (and clamped) tone gain against the interpolated
/// noise gain, normalized so they never sum past unity.
pub fn transition_gain_split(from: &ToneSpec, to: &ToneSpec, t_num: u64, t_den: u64) -> (g:
    GainSplit)
    requires
        from.wf(),
        to.wf(),
        1 <= t_den,
        t_num <= t_den,
    ensures
        ({
            let lerped_tone = spec_lerp_mhz(
                from.gain_ppm as int,
                to.gain_ppm as int,
                t_num as int,
                t_den as int,
            );
            let tone = if lerped_tone > GAIN_PPM_ONE {
                GAIN_PPM_ONE as int
            } else {
                lerped_tone
            };
            let noise = spec_lerp_mhz(
                from.spec_noise_gain_ppm() as int,
                to.spec_noise_gain_ppm() as int,
                t_num as int,
                t_den as int,
            );
            g == spec_normalize_gains(tone as u64, noise as u64)
        }),
        1 <= g.den,
        g.tone_num <= g.den,
        g.noise_num <= g.den,
{
    let tone = transition_tone_gain_ppm(from, to, t_num, t_den);
    let noise = lerp_gain_ppm(from.noise_gain_ppm(), to.noise_gain_ppm(), t_num, t_den);
    normalize_gains(tone, noise)
}

} // verus!
