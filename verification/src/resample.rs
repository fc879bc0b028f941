//! The overlay compositor: linear resampling of a source waveform to the
//! render rate, and additive mixing into a destination buffer at a time
//! offset and gain.
//!
//! Samples are whole numbers (the 16-bit range the containers carry);
//! the destination accumulates in 64 bits so several overlays can stack.
//! For output index `i` the source position is the exact rational
//! `i * in_sr / out_sr`; the output sample interpolates linearly between
//! the two source samples around it, rounding to the nearest whole
//! sample, with the last sample held once the position passes the end.

use vstd::prelude::*;

use vstd::arithmetic::div_mod::{
    lemma_div_is_ordered,
    lemma_fundamental_div_mod,
    lemma_mod_division_less_than_divisor,
};
use vstd::arithmetic::mul::lemma_mul_inequality;

use crate::engine::{
    floor_div_i128,
    lemma_div_of_multiple_plus_rem,
    lemma_round_div_bounds,
    lemma_round_div_neg,
    spec_round_div,
};
use crate::plan::{Mixin, GAIN_PPM_MAX, GAIN_PPM_ONE};

verus! {

/// Index of the source sample at or before output index `i`.
pub open spec fn spec_src_idx(i: int, in_sr: int, out_sr: int) -> int
    recommends
        in_sr >= 1,
        out_sr >= 1,
{
    (i * in_sr) / out_sr
}

/// Numerator of the fractional part of the source position of output
/// index `i`, over the denominator `out_sr`.
pub open spec fn spec_src_frac(i: int, in_sr: int, out_sr: int) -> int
    recommends
        in_sr >= 1,
        out_sr >= 1,
{
    (i * in_sr) % out_sr
}

/// Length of the resampled signal: the source length scaled by
/// `out_sr / in_sr`, rounded down.
pub open spec fn spec_out_len(in_len: int, in_sr: int, out_sr: int) -> int
    recommends
        in_sr >= 1,
        out_sr >= 1,
{
    (in_len * out_sr) / in_sr
}

/// The resampled value at output index `i`: linear interpolation between
/// the source samples around the exact position, rounded to nearest,
/// with the last sample held when the position passes the end.
pub open spec fn spec_resampled_at(input: Seq<i32>, in_sr: int, out_sr: int, i: int) -> int
    recommends
        in_sr >= 1,
        out_sr >= 1,
        0 <= spec_src_idx(i, in_sr, out_sr) < input.len(),
{
    let idx = spec_src_idx(i, in_sr, out_sr);
    let f = spec_src_frac(i, in_sr, out_sr);
    if idx + 1 < input.len() {
        input[idx] + spec_round_div((input[idx + 1] - input[idx]) * f, out_sr)
    } else {
        input[idx] as int
    }
}

/// Every source position of an in-range output index lands inside the
/// source.
proof fn lemma_src_idx_in_range(in_len: int, in_sr: int, out_sr: int, i: int)
    requires
        in_sr >= 1,
        out_sr >= 1,
        in_len >= 1,
        0 <= i < spec_out_len(in_len, in_sr, out_sr),
    ensures
        0 <= spec_src_idx(i, in_sr, out_sr) < in_len,
{
    let ol = spec_out_len(in_len, in_sr, out_sr);
    lemma_fundamental_div_mod(in_len * out_sr, in_sr);
    lemma_mod_division_less_than_divisor(in_len * out_sr, in_sr);
    assert(in_sr * ol <= in_len * out_sr);
    lemma_mul_inequality(i, ol - 1, in_sr);
    assert((ol - 1) * in_sr == in_sr * ol - in_sr) by (nonlinear_arith);
    assert(i * in_sr <= in_len * out_sr - in_sr);
    assert(i * in_sr >= 0) by (nonlinear_arith)
        requires
            i >= 0 && in_sr >= 1,
    ;
    lemma_div_is_ordered(i * in_sr, in_len * out_sr - 1, out_sr);
    assert(in_len * out_sr - 1 == (in_len - 1) * out_sr + (out_sr - 1)) by (nonlinear_arith);
    lemma_div_of_multiple_plus_rem(in_len - 1, out_sr - 1, out_sr);
    vstd::arithmetic::div_mod::lemma_div_pos_is_pos(i * in_sr, out_sr);
}

/// The interpolated sample lies between its two source samples.
proof fn lemma_interp_between(s0: int, s1: int, f: int, d: int)
    requires
        d >= 1,
        0 <= f < d,
    ensures
        s0 <= s1 ==> s0 <= s0 + spec_round_div((s1 - s0) * f, d) <= s1,
        s1 <= s0 ==> s1 <= s0 + spec_round_div((s1 - s0) * f, d) <= s0,
{
    if s0 <= s1 {
        let k = s1 - s0;
        assert(0 <= k * f <= k * d) by (nonlinear_arith)
            requires
                k >= 0,
                0 <= f <= d,
        ;
        lemma_round_div_bounds(k * f, d, k);
    } else {
        let k = s0 - s1;
        assert(0 <= k * f <= k * d) by (nonlinear_arith)
            requires
                k >= 0,
                0 <= f <= d,
        ;
        lemma_round_div_neg(k * f, d, k);
        assert((s1 - s0) * f == -(k * f)) by (nonlinear_arith)
            requires
                k == s0 - s1,
        ;
    }
}

/// Resample a signal from `in_sr` to `out_sr` samples per second by
/// linear interpolation.  A signal already at the target rate passes
/// through unchanged.
pub fn resample_linear(input: &Vec<i32>, in_sr: u32, out_sr: u32) -> (out: Vec<i32>)
    requires
        1 <= in_sr,
        1 <= out_sr,
        spec_out_len(input@.len() as int, in_sr as int, out_sr as int) <= usize::MAX,
    ensures
        in_sr == out_sr ==> out@ == input@,
        in_sr != out_sr ==> out@.len() == spec_out_len(
            input@.len() as int,
            in_sr as int,
            out_sr as int,
        ),
        in_sr != out_sr ==> forall|i: int|
            0 <= i < out@.len() ==> out@[i] == spec_resampled_at(
                input@,
                in_sr as int,
                out_sr as int,
                i,
            ),
{
    let n = input.len();
    if in_sr == out_sr {
        let mut out: Vec<i32> = Vec::new();
        let mut i: usize = 0;
        while i < n
            invariant
                i <= n,
                n == input@.len(),
                out@ =~= input@.take(i as int),
            decreases n - i,
        {
            out.push(input[i]);
            i = i + 1;
        }
        proof {
            assert(input@.take(n as int) =~= input@);
        }
        return out;
    }
    proof {
        assert((n as int) * (out_sr as int) <= 0x1_0000_0000_0000_0000_0000_0000_0000_0000int - 1)
            by (nonlinear_arith)
            requires
                0 <= (n as int) < 0x1_0000_0000_0000_0000int,
                0 <= (out_sr as int) < 0x1_0000_0000int,
        ;
    }
    let wide: u128 = (n as u128) * (out_sr as u128) / (in_sr as u128);
    let out_len: usize = wide as usize;
    let mut out: Vec<i32> = Vec::new();
    let mut i: usize = 0;
    while i < out_len
        invariant
            i <= out_len,
            n == input@.len(),
            1 <= in_sr,
            1 <= out_sr,
            out_len == spec_out_len(n as int, in_sr as int, out_sr as int),
            out@.len() == i,
            forall|j: int|
                0 <= j < i ==> out@[j] == spec_resampled_at(input@, in_sr as int, out_sr as int, j),
        decreases out_len - i,
    {
        proof {
            lemma_src_idx_in_range(n as int, in_sr as int, out_sr as int, i as int);
        }
        proof {
            assert(0 <= (i as int) * (in_sr as int) < 0x1_0000_0000_0000_0000_0000_0000int)
                by (nonlinear_arith)
                requires
                    0 <= (i as int) < 0x1_0000_0000_0000_0000int,
                    0 <= (in_sr as int) < 0x1_0000_0000int,
            ;
        }
        let prod: u128 = (i as u128) * (in_sr as u128);
        let idx: usize = (prod / (out_sr as u128)) as usize;
        let f: u64 = (prod % (out_sr as u128)) as u64;
        proof {
            lemma_mod_division_less_than_divisor(prod as int, out_sr as int);
        }
        let val: i32 = if idx + 1 < n {
            let s0: i64 = input[idx] as i64;
            let s1: i64 = input[idx + 1] as i64;
            proof {
                lemma_interp_between(s0 as int, s1 as int, f as int, out_sr as int);
            }
            proof {
                assert(-0x1_0000_0000_0000_0000_0000i128 <= ((s1 - s0) as i128) * (f as i128)
                    <= 0x1_0000_0000_0000_0000_0000i128) by (nonlinear_arith)
                    requires
                        -0x1_0000_0000i128 <= ((s1 - s0) as i128) <= 0x1_0000_0000i128,
                        0 <= (f as i128) < 0x1_0000_0000i128,
                ;
            }
            let x: i128 = ((s1 - s0) as i128) * (f as i128);
            let d: i128 = out_sr as i128;
            let q = floor_div_i128(2 * x + d, 2 * d);
            (s0 + (q as i64)) as i32
        } else {
            input[idx]
        };
        out.push(val);
        i = i + 1;
    }
    out
}

/// Law: resampling a constant signal to any rate yields the same
/// constant at every output index.
pub proof fn lemma_resample_constant(input: Seq<i32>, in_sr: int, out_sr: int, c: i32, i: int)
    requires
        in_sr >= 1,
        out_sr >= 1,
        input.len() >= 1,
        forall|k: int| 0 <= k < input.len() ==> input[k] == c,
        0 <= i < spec_out_len(input.len() as int, in_sr, out_sr),
    ensures
        spec_resampled_at(input, in_sr, out_sr, i) == c,
{
    lemma_src_idx_in_range(input.len() as int, in_sr, out_sr, i);
    let idx = spec_src_idx(i, in_sr, out_sr);
    let f = spec_src_frac(i, in_sr, out_sr);
    if idx + 1 < input.len() {
        assert(input[idx + 1] - input[idx] == 0);
        assert((input[idx + 1] - input[idx]) * f == 0) by (nonlinear_arith)
            requires
                input[idx + 1] - input[idx] == 0,
        ;
        lemma_mod_division_less_than_divisor(i * in_sr, out_sr);
        lemma_round_div_bounds(0, out_sr, 0);
    }
}

/// The pre-rounding interpolated value at output index `i`, scaled by
/// `out_sr` so it is a whole number.
pub open spec fn spec_interp_scaled(input: Seq<i32>, in_sr: int, out_sr: int, i: int) -> int
    recommends
        in_sr >= 1,
        out_sr >= 1,
        0 <= spec_src_idx(i, in_sr, out_sr),
        spec_src_idx(i, in_sr, out_sr) + 1 < input.len(),
{
    let idx = spec_src_idx(i, in_sr, out_sr);
    let f = spec_src_frac(i, in_sr, out_sr);
    input[idx] * out_sr + (input[idx + 1] - input[idx]) * f
}

/// Law: resampling preserves linearity.  On a source that is a linear
/// ramp `a + b*k`, the interpolated value at output index `i` — scaled
/// by `out_sr`, before the final rounding to a whole sample — is exactly
/// `a*out_sr + b*(i*in_sr)`, the same ramp read at the exact rational
/// position `i * in_sr / out_sr`.
pub proof fn lemma_resample_linear_ramp(
    input: Seq<i32>,
    in_sr: int,
    out_sr: int,
    a: int,
    b: int,
    i: int,
)
    requires
        in_sr >= 1,
        out_sr >= 1,
        forall|k: int| 0 <= k < input.len() ==> input[k] == a + b * k,
        i >= 0,
        spec_src_idx(i, in_sr, out_sr) + 1 < input.len(),
    ensures
        spec_interp_scaled(input, in_sr, out_sr, i) == a * out_sr + b * (i * in_sr),
{
    let idx = spec_src_idx(i, in_sr, out_sr);
    let f = spec_src_frac(i, in_sr, out_sr);
    assert(i * in_sr >= 0) by (nonlinear_arith)
        requires
            i >= 0,
            in_sr >= 1,
    ;
    vstd::arithmetic::div_mod::lemma_div_pos_is_pos(i * in_sr, out_sr);
    lemma_fundamental_div_mod(i * in_sr, out_sr);
    assert(input[idx] == a + b * idx);
    assert(input[idx + 1] == a + b * (idx + 1));
    assert(input[idx + 1] - input[idx] == b) by (nonlinear_arith)
        requires
            input[idx] == a + b * idx,
            input[idx + 1] == a + b * (idx + 1),
    ;
    assert((a + b * idx) * out_sr + b * f == a * out_sr + b * (idx * out_sr + f))
        by (nonlinear_arith);
    assert(i * in_sr == out_sr * idx + f);
    assert(idx * out_sr + f == i * in_sr) by (nonlinear_arith)
        requires
            i * in_sr == out_sr * idx + f,
    ;
}

/// Greatest magnitude an overlay accumulator may hold before another
/// overlay is mixed in.
pub const MIX_ACC_MAX: i64 = 36_000_000_000_000_000;

/// Greatest magnitude one scaled overlay sample can add.
pub const MIX_STEP_MAX: i64 = 2_200_000_000_000;

/// A source sample scaled by a gain in parts per million, rounded to
/// nearest.
pub open spec fn spec_scaled_sample(s: int, gain_ppm: int) -> int {
    spec_round_div(s * gain_ppm, GAIN_PPM_ONE as int)
}

/// Add a resampled overlay into the destination, starting at `offset`
/// samples, each sample scaled by `gain_ppm`; writes past the
/// destination's end are dropped.
pub fn mix_overlay(dest: &mut Vec<i64>, src_samples: &Vec<i32>, gain_ppm: u64, offset: usize)
    requires
        gain_ppm <= GAIN_PPM_MAX,
        forall|k: int|
            0 <= k < old(dest)@.len() ==> -MIX_ACC_MAX <= #[trigger] old(dest)@[k] <= MIX_ACC_MAX,
    ensures
        final(dest)@.len() == old(dest)@.len(),
        forall|k: int|
            0 <= k < final(dest)@.len() ==> final(dest)@[k] == (if offset <= k < offset
                + src_samples@.len() {
                old(dest)@[k] + spec_scaled_sample(src_samples@[k - offset] as int, gain_ppm as int)
            } else {
                old(dest)@[k] as int
            }),
        forall|k: int|
            0 <= k < final(dest)@.len() ==> -(MIX_ACC_MAX + MIX_STEP_MAX)
                <= #[trigger] final(dest)@[k] <= MIX_ACC_MAX + MIX_STEP_MAX,
{
    let n = src_samples.len();
    let dn = dest.len();
    let mut j: usize = 0;
    while j < n
        invariant
            j <= n,
            n == src_samples@.len(),
            dn == dest@.len(),
            gain_ppm <= GAIN_PPM_MAX,
            forall|k: int| 0 <= k < dn ==> -MIX_ACC_MAX <= #[trigger] old(dest)@[k] <= MIX_ACC_MAX,
            forall|k: int|
                0 <= k < dn ==> dest@[k] == (if offset <= k < offset + j {
                    old(dest)@[k] + spec_scaled_sample(
                        src_samples@[k - offset] as int,
                        gain_ppm as int,
                    )
                } else {
                    old(dest)@[k] as int
                }),
        ensures
            j == n || offset + j >= dn,
            forall|k: int|
                0 <= k < dn ==> dest@[k] == (if offset <= k < offset + j {
                    old(dest)@[k] + spec_scaled_sample(
                        src_samples@[k - offset] as int,
                        gain_ppm as int,
                    )
                } else {
                    old(dest)@[k] as int
                }),
        decreases n - j,
    {
        let pos = offset;
        if pos >= dn || j >= dn - pos {
            break ;
        }
        let at = pos + j;
        let s: i64 = src_samples[j] as i64;
        proof {
            assert(-0x80_0000_0000_0000_0000i128 <= (s as i128) * (gain_ppm as i128)
                <= 0x80_0000_0000_0000_0000i128) by (nonlinear_arith)
                requires
                    -0x8000_0000i128 <= (s as i128) <= 0x8000_0000i128,
                    0 <= (gain_ppm as i128) <= 1_000_000_000i128,
            ;
            lemma_scaled_sample_bounds(s as int, gain_ppm as int);
        }
        let x: i128 = (s as i128) * (gain_ppm as i128);
        let d: i128 = GAIN_PPM_ONE as i128;
        let q = floor_div_i128(2 * x + d, 2 * d);
        let scaled: i64 = q as i64;
        let prev: i64 = dest[at];
        dest.set(at, prev + scaled);
        j = j + 1;
    }
    proof {
        assert forall|k: int| 0 <= k < dn implies dest@[k] == (if offset <= k < offset
            + src_samples@.len() {
            old(dest)@[k] + spec_scaled_sample(src_samples@[k - offset] as int, gain_ppm as int)
        } else {
            old(dest)@[k] as int
        }) by {
            if offset <= k < offset + src_samples@.len() && !(offset <= k < offset + j) {
                // only indices past the destination's end are skipped
                assert(k >= offset + j);
                assert(offset + j >= dn);
            }
        }
        assert forall|k: int| 0 <= k < dn implies -(MIX_ACC_MAX + MIX_STEP_MAX) <= #[trigger] dest@[k]
            <= MIX_ACC_MAX + MIX_STEP_MAX by {
            if offset <= k < offset + src_samples@.len() {
                lemma_scaled_sample_bounds(src_samples@[k - offset] as int, gain_ppm as int);
            }
        }
    }
}

/// A scaled sample stays within `MIX_STEP_MAX`.
proof fn lemma_scaled_sample_bounds(s: int, gain_ppm: int)
    requires
        -0x8000_0000 <= s <= 0x8000_0000,
        0 <= gain_ppm <= GAIN_PPM_MAX,
    ensures
        -MIX_STEP_MAX <= spec_scaled_sample(s, gain_ppm) <= MIX_STEP_MAX,
{
    let d = GAIN_PPM_ONE as int;
    if s >= 0 {
        assert(0 <= s * gain_ppm <= 2_200_000_000_000 * d) by (nonlinear_arith)
            requires
                0 <= s <= 0x8000_0000,
                0 <= gain_ppm <= GAIN_PPM_MAX,
                d == GAIN_PPM_ONE as int,
        ;
        lemma_round_div_bounds(s * gain_ppm, d, 2_200_000_000_000);
    } else {
        assert(0 <= (-s) * gain_ppm <= 2_200_000_000_000 * d) by (nonlinear_arith)
            requires
                0 <= -s <= 0x8000_0000,
                0 <= gain_ppm <= GAIN_PPM_MAX,
                d == GAIN_PPM_ONE as int,
        ;
        lemma_round_div_neg((-s) * gain_ppm, d, 2_200_000_000_000);
        assert(s * gain_ppm == -((-s) * gain_ppm)) by (nonlinear_arith);
    }
}

impl Mixin {
    /// Overlay this mixin's decoded source signal onto the destination:
    /// resample it from its native rate to the render rate, then add it
    /// in at this mixin's offset and gain, dropping what runs past the
    /// destination's end.
    pub fn mix_in(&self, dest: &mut Vec<i64>, samples: &Vec<i32>, in_sr: u32, out_sr: u32)
        requires
            1 <= in_sr,
            1 <= out_sr,
            self.gain_ppm <= GAIN_PPM_MAX,
            spec_out_len(samples@.len() as int, in_sr as int, out_sr as int) <= usize::MAX,
            forall|k: int|
                0 <= k < old(dest)@.len() ==> -MIX_ACC_MAX <= #[trigger] old(dest)@[k]
                    <= MIX_ACC_MAX,
        ensures
            final(dest)@.len() == old(dest)@.len(),
            // what lands at index k is the scaled resampled sample that the
            // mixin's offset places there; everything else is untouched
            ({
                let off = crate::spec_samples_for(self.offset.0 as nat, out_sr as nat);
                let rlen = if in_sr == out_sr {
                    samples@.len() as int
                } else {
                    spec_out_len(samples@.len() as int, in_sr as int, out_sr as int)
                };
                forall|k: int|
                    0 <= k < final(dest)@.len() ==> final(dest)@[k] == (if off <= k < off + rlen {
                        old(dest)@[k] + spec_scaled_sample(
                            (if in_sr == out_sr {
                                samples@[k - off] as int
                            } else {
                                spec_resampled_at(samples@, in_sr as int, out_sr as int, k - off)
                            }),
                            self.gain_ppm as int,
                        )
                    } else {
                        old(dest)@[k] as int
                    })
            }),
    {
        let resampled = resample_linear(samples, in_sr, out_sr);
        let off64 = self.sample_offset(out_sr);
        let dn = dest.len();
        if off64 > (dn as u64) {
            // every write would land past the destination's end
            return ;
        }
        mix_overlay(dest, &resampled, self.gain_ppm, off64 as usize);
    }
}

} // verus!
