//! The oscillator and transition engine's state and arithmetic.
//!
//! `RenderState` carries the two phase accumulators, the global sample
//! index and the precomputed fade length across the whole render; the
//! accumulators are never reset at chunk boundaries, which is what keeps
//! tones continuous across a plan.  Phases are exact fractions: with the
//! denominator fixed at `1000 * sample_rate`, advancing a phase by a
//! frequency in millihertz adds exactly `freq / sample_rate` cycles.
//! Transition interpolation and the global fade envelope are exact
//! rationals as well.

use vstd::prelude::*;

use vstd::arithmetic::div_mod::{
    lemma_add_mod_noop_right,
    lemma_div_is_ordered,
    lemma_div_multiples_vanish_fancy,
    lemma_div_pos_is_pos,
    lemma_mod_add_multiples_vanish,
    lemma_mod_division_less_than_divisor,
    lemma_small_mod,
    lemma_sub_mod_noop_right,
};
use vstd::arithmetic::mul::lemma_mul_inequality;

use crate::plan::{ToneSpec, FREQ_MHZ_MAX};

verus! {

/// Twice the greatest tone frequency: a bound on any per-channel
/// frequency the engine can see, carrier plus beat offset included.
pub const CHANNEL_MHZ_MAX: i64 = 2_000_000_000_000;

/// One phase step: the accumulator advances by `f` (in units of
/// `1/den` cycles) and wraps into `[0, den)`.
pub open spec fn spec_phase_step(p: int, f: int, den: int) -> int
    recommends
        den >= 1,
{
    (p + f) % den
}

/// The accumulator after `k` equal steps.
pub open spec fn spec_phase_after(p: int, f: int, den: int, k: nat) -> int
    recommends
        den >= 1,
    decreases k,
{
    if k == 0 {
        p
    } else {
        spec_phase_step(spec_phase_after(p, f, den, (k - 1) as nat), f, den)
    }
}

/// Law: over a steady tone, phase accumulates linearly — after `k`
/// samples at frequency `f` the phase is exactly `(p + k*f)` wrapped into
/// `[0, den)`.  With `den == 1000 * sample_rate` and `f` in millihertz,
/// each sample advances the phase by `f / sample_rate` cycles, so the
/// oscillator's frequency over the chunk is exactly the carrier.
pub proof fn lemma_tone_phase_advance(p: int, f: int, den: int, k: nat)
    requires
        den >= 1,
        0 <= p < den,
    ensures
        spec_phase_after(p, f, den, k) == (p + k * f) % den,
    decreases k,
{
    if k == 0 {
        lemma_small_mod(p as nat, den as nat);
    } else {
        lemma_tone_phase_advance(p, f, den, (k - 1) as nat);
        let prev = (p + (k - 1) * f) % den;
        assert(spec_phase_after(p, f, den, k) == (prev + f) % den);
        lemma_add_mod_noop_right(f, p + (k - 1) * f, den);
        assert((f + (p + (k - 1) * f) % den) % den == (f + (p + (k - 1) * f)) % den);
        assert(f + (p + (k - 1) * f) == p + k * f) by (nonlinear_arith);
    }
}

/// Law: phase accumulation composes — running `k2` steps from wherever
/// `k1` steps ended is the same as running `k1 + k2` steps from the
/// start.  A tone split across a chunk boundary therefore renders the
/// very phase sequence of the unsplit tone: the boundary adds no
/// discontinuity.
pub proof fn lemma_phase_after_compose(p: int, f: int, den: int, k1: nat, k2: nat)
    requires
        den >= 1,
        0 <= p < den,
    ensures
        spec_phase_after(spec_phase_after(p, f, den, k1), f, den, k2) == spec_phase_after(
            p,
            f,
            den,
            k1 + k2,
        ),
    decreases k2,
{
    if k2 > 0 {
        lemma_phase_after_compose(p, f, den, k1, (k2 - 1) as nat);
        assert(k1 + k2 - 1 == k1 + (k2 - 1) as nat);
    }
}

/// Round `x / d` to the nearest whole number, halves away from zero
/// upward.
pub open spec fn spec_round_div(x: int, d: int) -> int
    recommends
        d >= 1,
{
    (2 * x + d) / (2 * d)
}

/// Linear interpolation from `a` to `b` at fraction `t_num / t_den`,
/// rounded to the nearest millihertz.
pub open spec fn spec_lerp_mhz(a: int, b: int, t_num: int, t_den: int) -> int
    recommends
        t_den >= 1,
{
    a + spec_round_div((b - a) * t_num, t_den)
}

/// `(q * d + r) / d == q` when `0 <= r < d`.
pub(crate) proof fn lemma_div_of_multiple_plus_rem(q: int, r: int, d: int)
    requires
        d >= 1,
        0 <= r < d,
    ensures
        (q * d + r) / d == q,
{
    lemma_div_multiples_vanish_fancy(q, r, d);
    assert(d * q == q * d) by (nonlinear_arith);
}

/// `spec_round_div` of a value between `0` and `k*d` lies between `0`
/// and `k`; at the exact endpoints it reaches them.
pub(crate) proof fn lemma_round_div_bounds(x: int, d: int, k: int)
    requires
        d >= 1,
        k >= 0,
        0 <= x <= k * d,
    ensures
        0 <= spec_round_div(x, d) <= k,
        x == 0 ==> spec_round_div(x, d) == 0,
        x == k * d ==> spec_round_div(x, d) == k,
{
    let dd = 2 * d;
    lemma_div_pos_is_pos(2 * x + d, dd);
    assert(2 * x + d <= 2 * k * d + d) by (nonlinear_arith)
        requires
            x <= k * d,
    ;
    lemma_div_is_ordered(2 * x + d, 2 * k * d + d, dd);
    assert(2 * k * d + d == k * (2 * d) + d) by (nonlinear_arith);
    lemma_div_of_multiple_plus_rem(k, d, dd);
    if x == k * d {
        assert(2 * x + d == k * (2 * d) + d) by (nonlinear_arith)
            requires
                x == k * d,
        ;
    }
    if x == 0 {
        lemma_small_mod(d as nat, dd as nat);
        assert(d / dd == 0) by {
            lemma_div_of_multiple_plus_rem(0, d, dd);
        }
    }
}

/// Floor division of a possibly negative numerator by a positive
/// divisor, computed on magnitudes.
pub(crate) fn floor_div_i128(x: i128, d: i128) -> (r: i128)
    requires
        1 <= d <= 0x1_0000_0000_0000_0000_0000_0000i128,
        -0x1_0000_0000_0000_0000_0000_0000_0000i128 <= x
            <= 0x1_0000_0000_0000_0000_0000_0000_0000i128,
    ensures
        r == x / d,
{
    if x >= 0 {
        let q = (x as u128) / (d as u128);
        q as i128
    } else {
        let m = ((-x) as u128);
        let dd = d as u128;
        let q = (m + dd - 1) / dd;
        proof {
            lemma_ceil_neg(x as int, d as int);
        }
        -(q as i128)
    }
}

/// For `x < 0 <= d`, the Euclidean floor `x / d` equals the negated
/// ceiling of `-x / d`.
pub(crate) proof fn lemma_ceil_neg(x: int, d: int)
    requires
        d >= 1,
        x < 0,
    ensures
        x / d == -(((-x) + d - 1) / d),
{
    let m = -x;
    let q = (m + d - 1) / d;
    let r = (m + d - 1) % d;
    vstd::arithmetic::div_mod::lemma_fundamental_div_mod(m + d - 1, d);
    lemma_mod_division_less_than_divisor(m + d - 1, d);
    lemma_div_pos_is_pos(m + d - 1, d);
    assert(m + d - 1 == d * q + r);
    // x = -m = -(d*q + r - d + 1) = d*(-q) + (d - 1 - r), with the
    // remainder in [0, d)
    assert(x == d * (-q) + (d - 1 - r)) by (nonlinear_arith)
        requires
            m + d - 1 == d * q + r,
            m == -x,
    ;
    vstd::arithmetic::div_mod::lemma_fundamental_div_mod_converse_div(x, d, -q, d - 1 - r);
}

/// Interpolate a frequency between `a` and `b` millihertz at fraction
/// `t_num / t_den`, rounding to the nearest millihertz.  At the
/// endpoints the result is exactly `a` and exactly `b`.
pub fn transition_freq_mhz(a: i64, b: i64, t_num: u64, t_den: u64) -> (r: i64)
    requires
        -FREQ_MHZ_MAX <= a <= FREQ_MHZ_MAX,
        -FREQ_MHZ_MAX <= b <= FREQ_MHZ_MAX,
        1 <= t_den,
        t_num <= t_den,
    ensures
        r == spec_lerp_mhz(a as int, b as int, t_num as int, t_den as int),
        -FREQ_MHZ_MAX <= r <= FREQ_MHZ_MAX,
{
    proof {
        lemma_lerp_mhz_between(a as int, b as int, t_num as int, t_den as int);
    }
    let diff: i128 = (b as i128) - (a as i128);
    proof {
        assert(-0x200_0000_0000_0000_0000_0000_0000i128 <= diff * (t_num as i128)
            <= 0x200_0000_0000_0000_0000_0000_0000i128) by (nonlinear_arith)
            requires
                -2 * (FREQ_MHZ_MAX as i128) <= diff <= 2 * (FREQ_MHZ_MAX as i128),
                0 <= (t_num as i128) < 0x1_0000_0000_0000_0000i128,
        ;
    }
    let x: i128 = diff * (t_num as i128);
    let d: i128 = t_den as i128;
    let num: i128 = 2 * x + d;
    let q = floor_div_i128(num, 2 * d);
    (a as i128 + q) as i64
}

/// The interpolated frequency lies between `a` and `b`, and meets them
/// exactly at the ends of the fraction's range.
pub proof fn lemma_lerp_mhz_between(a: int, b: int, t_num: int, t_den: int)
    requires
        t_den >= 1,
        0 <= t_num <= t_den,
    ensures
        a <= b ==> a <= spec_lerp_mhz(a, b, t_num, t_den) <= b,
        b <= a ==> b <= spec_lerp_mhz(a, b, t_num, t_den) <= a,
        t_num == 0 ==> spec_lerp_mhz(a, b, t_num, t_den) == a,
        t_num == t_den ==> spec_lerp_mhz(a, b, t_num, t_den) == b,
{
    if a <= b {
        let k = b - a;
        assert(0 <= k * t_num <= k * t_den) by (nonlinear_arith)
            requires
                k >= 0,
                0 <= t_num <= t_den,
        ;
        lemma_round_div_bounds(k * t_num, t_den, k);
        if t_num == 0 {
            assert(k * t_num == 0) by (nonlinear_arith)
                requires
                    t_num == 0,
            ;
        }
        if t_num == t_den {
            assert(k * t_num == k * t_den) by (nonlinear_arith)
                requires
                    t_num == t_den,
            ;
        }
    } else {
        let k = a - b;
        // mirror: round_div(-y, d) == -round_div_down(y, d); bound via the
        // nonnegative case on the negated numerator
        assert(0 <= k * t_num <= k * t_den) by (nonlinear_arith)
            requires
                k >= 0,
                0 <= t_num <= t_den,
        ;
        lemma_round_div_neg(k * t_num, t_den, k);
        if t_num == 0 {
            assert(k * t_num == 0) by (nonlinear_arith)
                requires
                    t_num == 0,
            ;
        }
        if t_num == t_den {
            assert(k * t_num == k * t_den) by (nonlinear_arith)
                requires
                    t_num == t_den,
            ;
        }
        assert((b - a) * t_num == -(k * t_num)) by (nonlinear_arith)
            requires
                k == a - b,
        ;
    }
}

/// `spec_round_div` of a value between `-k*d` and `0` lies between `-k`
/// and `0`, meeting the endpoints exactly.
pub(crate) proof fn lemma_round_div_neg(y: int, d: int, k: int)
    requires
        d >= 1,
        k >= 0,
        0 <= y <= k * d,
    ensures
        -k <= spec_round_div(-y, d) <= 0,
        y == 0 ==> spec_round_div(-y, d) == 0,
        y == k * d ==> spec_round_div(-y, d) == -k,
{
    let dd = 2 * d;
    // -2y + d = (-q)*dd + rem form: bound by ordering against endpoints
    assert(-2 * (k * d) + d <= -2 * y + d <= d) by (nonlinear_arith)
        requires
            0 <= y <= k * d,
    ;
    lemma_div_is_ordered(-2 * y + d, d, dd);
    lemma_div_is_ordered(-2 * (k * d) + d, -2 * y + d, dd);
    lemma_div_of_multiple_plus_rem(0, d, dd);
    assert(-2 * (k * d) + d == (-k) * (2 * d) + d) by (nonlinear_arith);
    lemma_div_of_multiple_plus_rem(-k, d, dd);
    assert(spec_round_div(-y, d) == (-2 * y + d) / dd);
}

/// The normalized ramp position of sample `n` in a transition of
/// `samples` samples: `n / (samples - 1)`, or `1` for a one-sample
/// transition.
pub open spec fn spec_linear_t(n: nat, samples: nat) -> (nat, nat) {
    if samples <= 1 {
        (1, 1)
    } else {
        (n, (samples - 1) as nat)
    }
}

/// The ramp fraction `t = n / (samples - 1)` of a transition, as an
/// exact rational `(numerator, denominator)`.
pub fn linear_t(n: u64, samples: u64) -> (r: (u64, u64))
    requires
        samples <= 1 || n < samples,
    ensures
        (r.0 as nat, r.1 as nat) == spec_linear_t(n as nat, samples as nat),
        r.0 <= r.1,
        1 <= r.1,
{
    if samples <= 1 {
        (1, 1)
    } else {
        (n, samples - 1)
    }
}

/// Law: the linear ramp starts at zero, ends at one, and never
/// decreases along the chunk.
pub proof fn lemma_linear_ramp(n1: nat, n2: nat, samples: nat)
    requires
        samples >= 2,
        n1 <= n2 < samples,
    ensures
        spec_linear_t(0, samples).0 == 0,
        spec_linear_t((samples - 1) as nat, samples) == (((samples - 1) as nat), ((samples
            - 1) as nat)),
        // monotone: t(n1) <= t(n2) as fractions over the common denominator
        spec_linear_t(n1, samples).0 * spec_linear_t(n2, samples).1 <= spec_linear_t(n2, samples).0
            * spec_linear_t(n1, samples).1,
{
    lemma_mul_inequality(n1 as int, n2 as int, (samples - 1) as int);
}

/// The linear easing curve on a nonnegative fraction: the identity,
/// clamped at one.
pub open spec fn spec_ease_linear(t_num: nat, t_den: nat) -> (nat, nat) {
    if t_num > t_den {
        (t_den, t_den)
    } else {
        (t_num, t_den)
    }
}

/// Apply the linear easing curve to a fraction: the identity on `[0, 1]`,
/// clamped at one above it.  (The ramp never hands it a value outside
/// that range; the clamp mirrors how easing is defined.)
pub fn ease_linear(t_num: u64, t_den: u64) -> (r: (u64, u64))
    requires
        1 <= t_den,
    ensures
        (r.0 as nat, r.1 as nat) == spec_ease_linear(t_num as nat, t_den as nat),
        r.0 <= r.1,
        r.1 == t_den,
{
    if t_num > t_den {
        (t_den, t_den)
    } else {
        (t_num, t_den)
    }
}

/// Which noise voice a transition reads at ramp position `t`: with both
/// tones carrying noise, the departing voice below the midpoint and the
/// arriving voice from it on; with one voice, always that voice.
#[derive(Debug, Clone, Copy, PartialEq, Eq, Structural)]
pub enum NoiseChoice {
    FromVoice,
    ToVoice,
    Neither,
}

pub open spec fn spec_noise_choice(has_from: bool, has_to: bool, t_num: nat, t_den: nat)
    -> NoiseChoice {
    if has_from && has_to {
        if 2 * t_num < t_den {
            NoiseChoice::FromVoice
        } else {
            NoiseChoice::ToVoice
        }
    } else if has_from {
        NoiseChoice::FromVoice
    } else if has_to {
        NoiseChoice::ToVoice
    } else {
        NoiseChoice::Neither
    }
}

/// Pick the noise voice a transition reads at ramp position
/// `t_num / t_den`.
pub fn transition_noise_choice(has_from: bool, has_to: bool, t_num: u64, t_den: u64) -> (r:
    NoiseChoice)
    requires
        1 <= t_den,
    ensures
        r == spec_noise_choice(has_from, has_to, t_num as nat, t_den as nat),
{
    if has_from && has_to {
        if 2 * (t_num as u128) < t_den as u128 {
            NoiseChoice::FromVoice
        } else {
            NoiseChoice::ToVoice
        }
    } else if has_from {
        NoiseChoice::FromVoice
    } else if has_to {
        NoiseChoice::ToVoice
    } else {
        NoiseChoice::Neither
    }
}

/// The fade length in samples: the configured fade converted to samples,
/// held to at most half the render and at least one sample.
pub open spec fn spec_fade_len(fade_us: nat, total: nat, sr: nat) -> nat {
    let f = crate::spec_samples_for(fade_us, sr);
    let m = if f < total / 2 {
        f
    } else {
        total / 2
    };
    if m < 1 {
        1
    } else {
        m
    }
}

/// Numerator of the global fade gain at sample `n` of `total`, over the
/// denominator `fade_len`: a rising ramp over the first `fade_len`
/// samples, a falling ramp over the last, and full gain between.
pub open spec fn spec_fade_num(n: nat, total: nat, fade_len: nat) -> nat {
    if n < fade_len {
        n
    } else if n + fade_len >= total {
        (total - n) as nat
    } else {
        fade_len
    }
}

/// Law: the very first sample of a render is scaled to exactly zero.
pub proof fn lemma_fade_first_sample_silent(total: nat, fade_len: nat)
    requires
        fade_len >= 1,
    ensures
        spec_fade_num(0, total, fade_len) == 0,
{
}

/// Law: past both ramps — in particular at the midpoint of any render
/// longer than twice the fade — the fade leaves samples untouched.
pub proof fn lemma_fade_midpoint_full(total: nat, fade_len: nat)
    requires
        fade_len >= 1,
        2 * fade_len < total,
    ensures
        spec_fade_num(total / 2, total, fade_len) == fade_len,
{
}

/// State carried across one whole render: the two phase accumulators as
/// exact fractions over `phase_den == 1000 * sample_rate`, the global
/// sample index, the total length and the fade length.  It is created
/// once per render and never reset at chunk boundaries.
#[derive(Debug, Clone, PartialEq, Eq)]
pub struct RenderState {
    /// Left-channel phase numerator, in `[0, phase_den)`.
    pub phase_l_num: u64,
    /// Right-channel phase numerator, in `[0, phase_den)`.
    pub phase_r_num: u64,
    /// Phase denominator: `1000 * sample_rate`.
    pub phase_den: u64,
    /// Samples emitted so far across all chunks.
    pub n_global: u64,
    /// Total samples the render will emit.
    pub total_samples: u64,
    /// Fade length in samples.
    pub fade_len: u64,
}

impl RenderState {
    pub open spec fn wf(self) -> bool {
        &&& 1000 <= self.phase_den <= 4_295_000_000_000
        &&& self.phase_l_num < self.phase_den
        &&& self.phase_r_num < self.phase_den
        &&& 1 <= self.fade_len
    }

    /// Fresh state for a render of `total_samples` samples: phases and
    /// the sample index start at zero, and the fade length is resolved
    /// from the configured fade.
    pub fn new(total_samples: u64, sample_rate: u32, fade_us: u64) -> (st: RenderState)
        requires
            1 <= sample_rate,
        ensures
            st.wf(),
            st.phase_l_num == 0,
            st.phase_r_num == 0,
            st.phase_den == 1000 * sample_rate,
            st.n_global == 0,
            st.total_samples == total_samples,
            st.fade_len == spec_fade_len(fade_us as nat, total_samples as nat, sample_rate as nat),
    {
        let f = crate::micros_to_samples(fade_us, sample_rate);
        let half = total_samples / 2;
        let m = if f < half {
            f
        } else {
            half
        };
        let fade_len = if m < 1 {
            1
        } else {
            m
        };
        RenderState {
            phase_l_num: 0,
            phase_r_num: 0,
            phase_den: 1000 * (sample_rate as u64),
            n_global: 0,
            total_samples,
            fade_len,
        }
    }

    /// Advance both phase accumulators by one sample at the given
    /// per-channel frequencies in millihertz.  Nothing else changes; in
    /// particular the accumulators carry over whatever chunk the
    /// frequencies come from.
    pub fn update_phases(&mut self, f_l_mhz: i64, f_r_mhz: i64)
        requires
            old(self).wf(),
            -CHANNEL_MHZ_MAX <= f_l_mhz <= CHANNEL_MHZ_MAX,
            -CHANNEL_MHZ_MAX <= f_r_mhz <= CHANNEL_MHZ_MAX,
        ensures
            final(self).wf(),
            final(self).phase_l_num == spec_phase_step(
                old(self).phase_l_num as int,
                f_l_mhz as int,
                old(self).phase_den as int,
            ),
            final(self).phase_r_num == spec_phase_step(
                old(self).phase_r_num as int,
                f_r_mhz as int,
                old(self).phase_den as int,
            ),
            final(self).phase_den == old(self).phase_den,
            final(self).n_global == old(self).n_global,
            final(self).total_samples == old(self).total_samples,
            final(self).fade_len == old(self).fade_len,
    {
        let den = self.phase_den;
        self.phase_l_num = phase_step(self.phase_l_num, f_l_mhz, den);
        self.phase_r_num = phase_step(self.phase_r_num, f_r_mhz, den);
    }

    /// Count one emitted sample.
    pub fn advance(&mut self)
        requires
            old(self).n_global < old(self).total_samples,
        ensures
            *final(self) == (RenderState { n_global: (old(self).n_global + 1) as u64, ..*old(self) }),
    {
        self.n_global = self.n_global + 1;
    }

    /// The global fade gain at the current sample, as the exact fraction
    /// `numerator / fade_len`.
    pub fn fade_gain(&self) -> (r: (u64, u64))
        requires
            self.wf(),
            self.n_global < self.total_samples,
        ensures
            r.0 == spec_fade_num(
                self.n_global as nat,
                self.total_samples as nat,
                self.fade_len as nat,
            ),
            r.1 == self.fade_len,
            r.0 <= r.1,
    {
        let n = self.n_global;
        if n < self.fade_len {
            (n, self.fade_len)
        } else if self.total_samples - n <= self.fade_len {
            (self.total_samples - n, self.fade_len)
        } else {
            (self.fade_len, self.fade_len)
        }
    }
}

/// One accumulator step: wrap `p + f` into `[0, den)`.
fn phase_step(p: u64, f_mhz: i64, den: u64) -> (r: u64)
    requires
        1 <= den <= 4_295_000_000_000,
        p < den,
        -CHANNEL_MHZ_MAX <= f_mhz <= CHANNEL_MHZ_MAX,
    ensures
        r == spec_phase_step(p as int, f_mhz as int, den as int),
        r < den,
{
    if f_mhz >= 0 {
        let s: u64 = p + (f_mhz as u64);
        let r = s % den;
        proof {
            lemma_mod_division_less_than_divisor(s as int, den as int);
        }
        r
    } else {
        let neg: u64 = (-f_mhz) as u64;
        let k: u64 = neg % den;
        proof {
            lemma_mod_division_less_than_divisor(neg as int, den as int);
            lemma_phase_step_neg(p as int, neg as int, den as int);
        }
        if k <= p {
            p - k
        } else {
            p + den - k
        }
    }
}

/// Stepping backward by `neg` wraps the same way as subtracting
/// `neg % den`.
proof fn lemma_phase_step_neg(p: int, neg: int, den: int)
    requires
        den >= 1,
        0 <= p < den,
        neg >= 0,
    ensures
        ({
            let k = neg % den;
            (p - neg) % den == if k <= p {
                p - k
            } else {
                p + den - k
            }
        }),
{
    let k = neg % den;
    lemma_mod_division_less_than_divisor(neg, den);
    lemma_sub_mod_noop_right(p, neg, den);
    assert((p - neg % den) % den == (p - neg) % den);
    if k <= p {
        lemma_small_mod((p - k) as nat, den as nat);
    } else {
        lemma_mod_add_multiples_vanish(p - k, den);
        lemma_small_mod((p + den - k) as nat, den as nat);
    }
}

/// The per-channel frequencies of a steady tone, in millihertz: the
/// carrier on the left, the carrier plus the beat offset on the right.
pub fn tone_freqs(spec: &ToneSpec) -> (r: (i64, i64))
    requires
        spec.wf(),
    ensures
        r.0 == spec.carrier_mhz,
        r.1 == spec.carrier_mhz + spec.hz_mhz,
        -CHANNEL_MHZ_MAX <= r.0 <= CHANNEL_MHZ_MAX,
        -CHANNEL_MHZ_MAX <= r.1 <= CHANNEL_MHZ_MAX,
{
    (spec.carrier_mhz, spec.carrier_mhz + spec.hz_mhz)
}

/// Everything one transition sample is mixed from: the two channel
/// frequencies, the tone and noise gain split, and which noise voice is
/// read.
#[derive(Debug, Clone, Copy, PartialEq, Eq, Structural)]
pub struct TransitionFrame {
    /// Left-channel frequency in millihertz.
    pub freq_l_mhz: i64,
    /// Right-channel frequency in millihertz.
    pub freq_r_mhz: i64,
    /// Normalized tone and noise gains.
    pub gains: crate::gain::GainSplit,
    /// The noise voice read at this sample.
    pub noise: NoiseChoice,
}

/// Resolve one sample of a transition at eased ramp position
/// `t_num / t_den`: both tone parameters interpolate linearly under the
/// eased position — the carrier and beat offset to the channel
/// frequencies, the gains to a normalized split — and the noise voice
/// follows the midpoint rule.
pub fn transition_frame(
    from: &ToneSpec,
    to: &ToneSpec,
    has_from_voice: bool,
    has_to_voice: bool,
    t_num: u64,
    t_den: u64,
) -> (fr: TransitionFrame)
    requires
        from.wf(),
        to.wf(),
        1 <= t_den,
        t_num <= t_den,
    ensures
        fr.freq_l_mhz == spec_lerp_mhz(
            from.carrier_mhz as int,
            to.carrier_mhz as int,
            t_num as int,
            t_den as int,
        ),
        fr.freq_r_mhz == fr.freq_l_mhz + spec_lerp_mhz(
            from.hz_mhz as int,
            to.hz_mhz as int,
            t_num as int,
            t_den as int,
        ),
        -CHANNEL_MHZ_MAX <= fr.freq_l_mhz <= CHANNEL_MHZ_MAX,
        -CHANNEL_MHZ_MAX <= fr.freq_r_mhz <= CHANNEL_MHZ_MAX,
        fr.gains == ({
            let lerped_tone = spec_lerp_mhz(
                from.gain_ppm as int,
                to.gain_ppm as int,
                t_num as int,
                t_den as int,
            );
            let tone = if lerped_tone > crate::plan::GAIN_PPM_ONE {
                crate::plan::GAIN_PPM_ONE as int
            } else {
                lerped_tone
            };
            let noise = spec_lerp_mhz(
                from.spec_noise_gain_ppm() as int,
                to.spec_noise_gain_ppm() as int,
                t_num as int,
                t_den as int,
            );
            crate::gain::spec_normalize_gains(tone as u64, noise as u64)
        }),
        fr.noise == spec_noise_choice(has_from_voice, has_to_voice, t_num as nat, t_den as nat),
{
    let freq_l = transition_freq_mhz(from.carrier_mhz, to.carrier_mhz, t_num, t_den);
    let hz = transition_freq_mhz(from.hz_mhz, to.hz_mhz, t_num, t_den);
    TransitionFrame {
        freq_l_mhz: freq_l,
        freq_r_mhz: freq_l + hz,
        gains: crate::gain::transition_gain_split(from, to, t_num, t_den),
        noise: transition_noise_choice(has_from_voice, has_to_voice, t_num, t_den),
    }
}

/// Law: a transition whose departing tone matches the chunk before it
/// continues that tone exactly at its first sample — the ramp stands at
/// zero there, so both interpolated channel frequencies equal the tone's
/// own, and the phase accumulators, which are never reset, advance just
/// as they would inside the tone.
pub proof fn lemma_transition_continues_tone(tone: ToneSpec, to: ToneSpec, t_den: nat)
    requires
        tone.wf(),
        to.wf(),
        t_den >= 1,
    ensures
        spec_lerp_mhz(tone.carrier_mhz as int, to.carrier_mhz as int, 0, t_den as int)
            == tone.carrier_mhz,
        spec_lerp_mhz(tone.hz_mhz as int, to.hz_mhz as int, 0, t_den as int) == tone.hz_mhz,
{
    lemma_lerp_mhz_between(tone.carrier_mhz as int, to.carrier_mhz as int, 0, t_den as int);
    lemma_lerp_mhz_between(tone.hz_mhz as int, to.hz_mhz as int, 0, t_den as int);
}

} // verus!
