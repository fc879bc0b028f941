//! The declarative plan and its resolution into renderable chunks.
//!
//! A plan is an ordered list of segments; each is a steady tone or a
//! transition between two tones, optionally layered with noise and with
//! audio overlays.  Planning turns every segment into a chunk whose
//! duration is resolved to a whole sample count at the target rate.
//! Frequencies are held in millihertz, gains in parts per million and
//! durations in microseconds, so each rule is exact.

use vstd::prelude::*;

use crate::duration::DurationMicros;
use crate::paths::{parent_dir, resolve_relative};

verus! {

/// Easing curve of a transition.
#[derive(Debug, Clone, Copy, PartialEq, Eq, Structural)]
pub enum Curve {
    Linear,
    Exp,
}

/// Spectrum of a noise voice.
#[derive(Debug, Clone, Copy, PartialEq, Eq, Structural)]
pub enum NoiseColor {
    White,
    Pink,
    Brown,
}

/// Unity gain in parts per million.
pub const GAIN_PPM_ONE: u64 = 1_000_000;

/// Greatest gain a spec may carry: a thousand times unity.
pub const GAIN_PPM_MAX: u64 = 1_000_000_000;

/// Greatest magnitude of a frequency in millihertz: one gigahertz.
pub const FREQ_MHZ_MAX: i64 = 1_000_000_000_000;

/// A noise voice: its gain and color.
#[derive(Debug, Clone, Copy, PartialEq, Eq, Structural)]
pub struct NoiseSpec {
    /// Gain in parts per million.
    pub gain_ppm: u64,
    pub color: NoiseColor,
}

impl NoiseSpec {
    pub open spec fn wf(self) -> bool {
        self.gain_ppm <= GAIN_PPM_MAX
    }
}

/// A steady tone: carrier frequency, beat offset added to the right
/// channel, gain, and an optional noise voice.
#[derive(Debug, Clone, Copy, PartialEq, Eq, Structural)]
pub struct ToneSpec {
    /// Gain in parts per million.
    pub gain_ppm: u64,
    /// Carrier frequency in millihertz.
    pub carrier_mhz: i64,
    /// Beat offset in millihertz; the right channel plays
    /// `carrier_mhz + hz_mhz`.
    pub hz_mhz: i64,
    pub noise: Option<NoiseSpec>,
}

impl ToneSpec {
    pub open spec fn wf(self) -> bool {
        &&& self.gain_ppm <= GAIN_PPM_MAX
        &&& -FREQ_MHZ_MAX <= self.carrier_mhz <= FREQ_MHZ_MAX
        &&& -FREQ_MHZ_MAX <= self.hz_mhz <= FREQ_MHZ_MAX
        &&& match self.noise {
            Some(ns) => ns.wf(),
            None => true,
        }
    }

    /// Gain of the noise voice, read as zero when none is set.
    pub open spec fn spec_noise_gain_ppm(self) -> u64 {
        match self.noise {
            Some(ns) => ns.gain_ppm,
            None => 0,
        }
    }

    /// Gain of the noise voice, read as zero when none is set.
    pub fn noise_gain_ppm(&self) -> (r: u64)
        ensures
            r == self.spec_noise_gain_ppm(),
    {
        match &self.noise {
            Some(ns) => ns.gain_ppm,
            None => 0,
        }
    }
}

/// A file overlay before resolution: a path relative to the audio
/// directory, a gain and a time offset from the owning segment's start.
#[derive(Debug, Clone, PartialEq, Eq)]
pub struct AudioSpec {
    pub offset: DurationMicros,
    /// Gain in parts per million.
    pub gain_ppm: u64,
    pub path: String,
}

impl AudioSpec {
    /// The overlay file's expected place: its path under the audio
    /// directory (an absolute path stands alone once expanded by the
    /// caller's canonicalization).
    pub fn resolved_path(&self, audio_dir: &str) -> (r: String)
        ensures
            r@ == crate::paths::spec_join_path(audio_dir@, self.path@),
    {
        crate::paths::join_path(audio_dir, self.path.as_str())
    }

    /// The resolved overlay this request becomes, once its path is
    /// canonical.
    pub fn to_mixin(&self, canonical_path: String) -> (m: Mixin)
        ensures
            m.gain_ppm == self.gain_ppm,
            m.offset == self.offset,
            m.path == canonical_path,
    {
        Mixin { gain_ppm: self.gain_ppm, path: canonical_path, offset: self.offset }
    }
}

/// A speech overlay before synthesis: the text, the model it is spoken
/// with, an optional explicit cache key and an optional model
/// configuration file.
#[derive(Debug, Clone, PartialEq, Eq)]
pub struct TTSSpec {
    pub offset: DurationMicros,
    /// Gain in parts per million.
    pub gain_ppm: u64,
    pub text: String,
    /// Names the cached result; when absent the key is derived from the
    /// model, configuration and text.
    pub key: Option<String>,
    pub model: String,
    pub config: Option<String>,
}

impl TTSSpec {
    /// The resolved overlay this request becomes, once its synthesized
    /// waveform stands at its cached output path.
    pub fn to_mixin(&self, out_path: String) -> (m: Mixin)
        ensures
            m.gain_ppm == self.gain_ppm,
            m.offset == self.offset,
            m.path == out_path,
    {
        Mixin { gain_ppm: self.gain_ppm, path: out_path, offset: self.offset }
    }
}

/// Either kind of overlay request carried by a segment.
#[derive(Debug, Clone, PartialEq, Eq)]
pub enum AudioMixin {
    File(AudioSpec),
    TTS(TTSSpec),
}

/// A resolved overlay, ready to render: an absolute waveform path, a gain
/// and a time offset from the owning chunk's start.
#[derive(Debug, Clone, PartialEq, Eq)]
pub struct Mixin {
    /// Gain in parts per million.
    pub gain_ppm: u64,
    pub path: String,
    pub offset: DurationMicros,
}

impl Mixin {
    /// Offset of this overlay in whole samples at the render rate.
    pub fn sample_offset(&self, sample_rate: u32) -> (r: u64)
        ensures
            r == crate::spec_samples_for(self.offset.0 as nat, sample_rate as nat),
    {
        self.offset.to_samples(sample_rate)
    }
}

/// One step of the declarative plan.
#[derive(Debug, Clone, PartialEq, Eq)]
pub enum Segment {
    /// Hold a steady tone for the duration.
    Tone {
        dur: DurationMicros,
        carrier_mhz: i64,
        hz_mhz: i64,
        gain_ppm: u64,
        noise: Option<NoiseSpec>,
        audio: Vec<AudioMixin>,
    },
    /// Slide from one tone to another across the duration, with an
    /// optional easing curve.
    Transition {
        dur: DurationMicros,
        from: ToneSpec,
        to: ToneSpec,
        curve: Option<Curve>,
        audio: Vec<AudioMixin>,
    },
}

impl Segment {
    pub open spec fn spec_dur(self) -> DurationMicros {
        match self {
            Segment::Tone { dur, .. } => dur,
            Segment::Transition { dur, .. } => dur,
        }
    }
}

/// A segment with its duration resolved to a whole sample count, carrying
/// its resolved overlays.
#[derive(Debug, Clone, PartialEq, Eq)]
pub enum Chunk {
    Tone { samples: u64, spec: ToneSpec, mixins: Vec<Mixin> },
    Transition { samples: u64, from: ToneSpec, to: ToneSpec, curve: Curve, mixins: Vec<Mixin> },
}

impl Chunk {
    pub open spec fn spec_samples(self) -> u64 {
        match self {
            Chunk::Tone { samples, .. } => samples,
            Chunk::Transition { samples, .. } => samples,
        }
    }

    /// Sample count of the chunk.
    pub fn samples(&self) -> (r: u64)
        ensures
            r == self.spec_samples(),
    {
        match self {
            Chunk::Tone { samples, .. } => *samples,
            Chunk::Transition { samples, .. } => *samples,
        }
    }
}

/// Whether `c` is the chunk that `seg` resolves to at `sr` samples per
/// second with resolved overlays `mixins`: the chunk kind and tone fields
/// carry over, the duration becomes a rounded sample count, a missing
/// transition curve reads as `Linear`, and the chunk holds exactly the
/// given overlays.
pub open spec fn chunk_matches(c: Chunk, seg: Segment, mixins: Seq<Mixin>, sr: nat) -> bool {
    match seg {
        Segment::Tone { dur, carrier_mhz, hz_mhz, gain_ppm, noise, .. } => c matches Chunk::Tone {
            samples,
            spec,
            mixins: cm,
        } && samples == crate::spec_samples_for(dur.0 as nat, sr) && spec == (ToneSpec {
            gain_ppm,
            carrier_mhz,
            hz_mhz,
            noise,
        }) && cm@ == mixins,
        Segment::Transition { dur, from, to, curve, .. } => c matches Chunk::Transition {
            samples,
            from: cf,
            to: ct,
            curve: cc,
            mixins: cm,
        } && samples == crate::spec_samples_for(dur.0 as nat, sr) && cf == from && ct == to && cc
            == (match curve {
            Some(cv) => cv,
            None => Curve::Linear,
        }) && cm@ == mixins,
    }
}

/// Resolve one segment to its chunk, carrying the overlays already
/// resolved for it.
pub fn plan_segment(seg: &Segment, mixins: Vec<Mixin>, sample_rate: u32) -> (c: Chunk)
    ensures
        chunk_matches(c, *seg, mixins@, sample_rate as nat),
        c.spec_samples() == crate::spec_samples_for(seg.spec_dur().0 as nat, sample_rate as nat),
{
    match seg {
        Segment::Tone { dur, carrier_mhz, hz_mhz, gain_ppm, noise, audio: _ } => {
            let samples = dur.to_samples(sample_rate);
            Chunk::Tone {
                samples,
                spec: ToneSpec {
                    gain_ppm: *gain_ppm,
                    carrier_mhz: *carrier_mhz,
                    hz_mhz: *hz_mhz,
                    noise: *noise,
                },
                mixins,
            }
        },
        Segment::Transition { dur, from, to, curve, audio: _ } => {
            let samples = dur.to_samples(sample_rate);
            Chunk::Transition {
                samples,
                from: *from,
                to: *to,
                curve: match curve {
                    Some(c) => *c,
                    None => Curve::Linear,
                },
                mixins,
            }
        },
    }
}

/// Resolve every segment to a chunk, in order.  `resolved` holds, per
/// segment, the overlays already resolved for it.
pub fn plan_chunks(segments: &Vec<Segment>, resolved: Vec<Vec<Mixin>>, sample_rate: u32) -> (cs:
    Vec<Chunk>)
    requires
        resolved@.len() == segments@.len(),
    ensures
        cs@.len() == segments@.len(),
        forall|i: int|
            0 <= i < cs@.len() ==> chunk_matches(
                cs@[i],
                segments@[i],
                resolved@[i]@,
                sample_rate as nat,
            ),
        forall|i: int|
            0 <= i < cs@.len() ==> #[trigger] cs@[i].spec_samples() == crate::spec_samples_for(
                segments@[i].spec_dur().0 as nat,
                sample_rate as nat,
            ),
{
    let mut cs: Vec<Chunk> = Vec::new();
    let mut rest = resolved;
    let n = segments.len();
    let mut i: usize = 0;
    while i < n
        invariant
            i <= n,
            n == segments@.len(),
            rest@.len() == n - i,
            forall|k: int| 0 <= k < n - i ==> rest@[k] == resolved@[k + i],
            cs@.len() == i,
            forall|k: int|
                0 <= k < i ==> chunk_matches(cs@[k], segments@[k], resolved@[k]@, sample_rate as nat),
            forall|k: int|
                0 <= k < i ==> #[trigger] cs@[k].spec_samples() == crate::spec_samples_for(
                    segments@[k].spec_dur().0 as nat,
                    sample_rate as nat,
                ),
        decreases n - i,
    {
        let mixins = rest.remove(0);
        let c = plan_segment(&segments[i], mixins, sample_rate);
        cs.push(c);
        i = i + 1;
    }
    cs
}

/// Total sample count of a chunk sequence.
pub open spec fn spec_total_samples(cs: Seq<Chunk>) -> nat
    decreases cs.len(),
{
    if cs.len() == 0 {
        0
    } else {
        (spec_total_samples(cs.drop_last()) + cs.last().spec_samples()) as nat
    }
}

/// Sum the sample counts of all chunks; the whole render is exactly this
/// long.  `None` when the sum does not fit in a `u64`.
pub fn total_samples(chunks: &Vec<Chunk>) -> (r: Option<u64>)
    ensures
        match r {
            Some(t) => t == spec_total_samples(chunks@),
            None => spec_total_samples(chunks@) > u64::MAX,
        },
{
    let mut total: u64 = 0;
    let n = chunks.len();
    let mut i: usize = 0;
    while i < n
        invariant
            i <= n,
            n == chunks@.len(),
            total == spec_total_samples(chunks@.take(i as int)),
        decreases n - i,
    {
        proof {
            assert(chunks@.take(i + 1 as int).drop_last() =~= chunks@.take(i as int));
            assert(chunks@.take(i + 1 as int).last() == chunks@[i as int]);
        }
        let s = chunks[i].samples();
        if total > u64::MAX - s {
            proof {
                lemma_total_samples_prefix_le(chunks@, i + 1 as int);
            }
            return None;
        }
        total = total + s;
        i = i + 1;
    }
    proof {
        assert(chunks@.take(n as int) =~= chunks@);
    }
    Some(total)
}

/// Default sample rate in samples per second.
pub const DEFAULT_SAMPLE_RATE: u32 = 48_000;

/// Default master gain in parts per million.
pub const DEFAULT_GAIN_PPM: u64 = 950_000;

/// Default global fade length in microseconds.
pub const DEFAULT_FADE_US: u64 = 50_000;

/// A resolved render request: optional overrides of the sample rate,
/// master gain and fade length, the directories that overlays and speech
/// models are found in, and the segment plan.
#[derive(Debug, Clone, PartialEq, Eq)]
pub struct Config {
    pub sample_rate: Option<u32>,
    /// Master gain override in parts per million.
    pub gain_ppm: Option<u64>,
    /// Global fade length override in microseconds.
    pub fade_us: Option<u64>,
    /// Directory that cached and overlay audio lives in, as written.
    pub audio_dir: Option<String>,
    /// `audio_dir` resolved against the configuration file's directory.
    pub resolved_audio_dir: String,
    /// Directory that speech models live in, as written.
    pub model_dir: Option<String>,
    /// `model_dir` resolved against the configuration file's directory.
    pub resolved_model_dir: String,
    /// The ordered segment plan.
    pub segments: Vec<Segment>,
    /// Whether `normalize_paths` has run.
    pub normalized: bool,
}

impl Config {
    pub open spec fn spec_sample_rate(self) -> u32 {
        match self.sample_rate {
            Some(sr) => sr,
            None => DEFAULT_SAMPLE_RATE,
        }
    }

    /// The sample rate to render at, defaulting to 48000.
    pub fn get_sample_rate(&self) -> (r: u32)
        ensures
            r == self.spec_sample_rate(),
    {
        match self.sample_rate {
            Some(sr) => sr,
            None => DEFAULT_SAMPLE_RATE,
        }
    }

    pub open spec fn spec_gain_ppm(self) -> u64 {
        let g = match self.gain_ppm {
            Some(g) => g,
            None => DEFAULT_GAIN_PPM,
        };
        if g > GAIN_PPM_ONE {
            GAIN_PPM_ONE
        } else {
            g
        }
    }

    /// The master gain in parts per million, defaulting to 0.95 of unity
    /// and clamped to at most unity.
    pub fn get_gain_ppm(&self) -> (r: u64)
        ensures
            r == self.spec_gain_ppm(),
            r <= GAIN_PPM_ONE,
    {
        let g = match self.gain_ppm {
            Some(g) => g,
            None => DEFAULT_GAIN_PPM,
        };
        if g > GAIN_PPM_ONE {
            GAIN_PPM_ONE
        } else {
            g
        }
    }

    pub open spec fn spec_fade_us(self) -> u64 {
        match self.fade_us {
            Some(f) => f,
            None => DEFAULT_FADE_US,
        }
    }

    /// The global fade length in microseconds, defaulting to 50
    /// milliseconds.
    pub fn get_fade_us(&self) -> (r: u64)
        ensures
            r == self.spec_fade_us(),
    {
        match self.fade_us {
            Some(f) => f,
            None => DEFAULT_FADE_US,
        }
    }

    /// Microseconds to samples at this configuration's rate.
    pub fn micros_to_samples(&self, us: u64) -> (r: u64)
        ensures
            r == crate::spec_samples_for(us as nat, self.spec_sample_rate() as nat),
    {
        crate::micros_to_samples(us, self.get_sample_rate())
    }

    /// Resolve the audio and model directories against the directory the
    /// configuration file stands in; a missing directory reads as `.`.
    pub fn normalize_paths(&mut self, config_path: &str)
        ensures
            final(self).normalized,
            final(self).sample_rate == old(self).sample_rate,
            final(self).gain_ppm == old(self).gain_ppm,
            final(self).fade_us == old(self).fade_us,
            final(self).audio_dir == old(self).audio_dir,
            final(self).model_dir == old(self).model_dir,
            final(self).segments == old(self).segments,
            old(self).audio_dir is None ==> final(self).resolved_audio_dir@ == seq!['.'],
            old(self).model_dir is None ==> final(self).resolved_model_dir@ == seq!['.'],
            old(self).audio_dir matches Some(p) ==> (!crate::paths::starts_with_tilde(p@)
                ==> final(self).resolved_audio_dir@ == crate::paths::spec_resolve(
                crate::paths::spec_parent_dir(config_path@),
                p@,
            )),
            old(self).model_dir matches Some(p) ==> (!crate::paths::starts_with_tilde(p@)
                ==> final(self).resolved_model_dir@ == crate::paths::spec_resolve(
                crate::paths::spec_parent_dir(config_path@),
                p@,
            )),
    {
        let base = parent_dir(config_path);
        proof {
            reveal_strlit(".");
        }
        self.resolved_audio_dir = match resolve_relative(base.as_str(), &self.audio_dir) {
            Some(p) => p,
            None => String::from_str("."),
        };
        self.resolved_model_dir = match resolve_relative(base.as_str(), &self.model_dir) {
            Some(p) => p,
            None => String::from_str("."),
        };
        self.normalized = true;
    }

    /// Build the flat chunk plan from the segments, at this
    /// configuration's sample rate.  `resolved` holds, per segment, the
    /// overlays already resolved for it.
    pub fn create_chunks(&self, resolved: Vec<Vec<Mixin>>) -> (cs: Vec<Chunk>)
        requires
            resolved@.len() == self.segments@.len(),
        ensures
            cs@.len() == self.segments@.len(),
            forall|i: int|
                0 <= i < cs@.len() ==> chunk_matches(
                    cs@[i],
                    self.segments@[i],
                    resolved@[i]@,
                    self.spec_sample_rate() as nat,
                ),
            forall|i: int|
                0 <= i < cs@.len() ==> #[trigger] cs@[i].spec_samples() == crate::spec_samples_for(
                    self.segments@[i].spec_dur().0 as nat,
                    self.spec_sample_rate() as nat,
                ),
    {
        plan_chunks(&self.segments, resolved, self.get_sample_rate())
    }
}

/// A prefix of a chunk sequence never holds more samples than the whole.
pub proof fn lemma_total_samples_prefix_le(cs: Seq<Chunk>, i: int)
    requires
        0 <= i <= cs.len(),
    ensures
        spec_total_samples(cs.take(i)) <= spec_total_samples(cs),
    decreases cs.len() - i,
{
    if i < cs.len() {
        lemma_total_samples_prefix_le(cs, i + 1);
        assert(cs.take(i + 1).drop_last() =~= cs.take(i));
        assert(cs.take(i + 1).last() == cs[i]);
    } else {
        assert(cs.take(i) =~= cs);
    }
}

} // verus!
