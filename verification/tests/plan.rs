use opengate::duration::DurationMicros;
use opengate::plan::{
    plan_chunks, plan_segment, total_samples, Chunk, Config, Curve, Mixin, NoiseColor, NoiseSpec,
    Segment, ToneSpec,
};

fn tone_segment(dur_us: u64, carrier_mhz: i64, hz_mhz: i64) -> Segment {
    Segment::Tone {
        dur: DurationMicros(dur_us),
        carrier_mhz,
        hz_mhz,
        gain_ppm: 1_000_000,
        noise: None,
        audio: vec![],
    }
}

fn base_config(sample_rate: u32, segments: Vec<Segment>) -> Config {
    Config {
        sample_rate: Some(sample_rate),
        gain_ppm: None,
        fade_us: None,
        audio_dir: None,
        resolved_audio_dir: String::new(),
        model_dir: None,
        resolved_model_dir: String::new(),
        segments,
        normalized: false,
    }
}

#[test]
fn test_one_second_tone_plans_to_exactly_sample_rate_frames() {
    // a 1-second tone at 8000 Hz: exactly 8000 frames, no more, no less
    let cfg = base_config(8_000, vec![tone_segment(1_000_000, 200_000, 7_000)]);
    let chunks = cfg.create_chunks(vec![vec![]]);
    assert_eq!(chunks.len(), 1);
    assert_eq!(chunks[0].samples(), 8_000);
    assert_eq!(total_samples(&chunks), Some(8_000));
}

#[test]
fn test_plan_resolves_durations_and_keeps_order() {
    let segs = vec![
        tone_segment(1_500_000, 200_000, 7_000),
        Segment::Transition {
            dur: DurationMicros(250_000),
            from: ToneSpec { gain_ppm: 1_000_000, carrier_mhz: 200_000, hz_mhz: 7_000, noise: None },
            to: ToneSpec { gain_ppm: 900_000, carrier_mhz: 90_000, hz_mhz: 12_000, noise: None },
            curve: None,
            audio: vec![],
        },
        tone_segment(500_000, 90_000, 12_000),
    ];
    let cfg = base_config(48_000, segs);
    let chunks = cfg.create_chunks(vec![vec![], vec![], vec![]]);
    assert_eq!(chunks.len(), 3);
    assert_eq!(chunks[0].samples(), 72_000);
    assert_eq!(chunks[1].samples(), 12_000);
    assert_eq!(chunks[2].samples(), 24_000);
    assert_eq!(total_samples(&chunks), Some(108_000));
    match &chunks[1] {
        Chunk::Transition { curve, from, to, .. } => {
            // a missing curve reads as Linear
            assert_eq!(*curve, Curve::Linear);
            assert_eq!(from.carrier_mhz, 200_000);
            assert_eq!(to.carrier_mhz, 90_000);
        }
        other => panic!("expected a transition chunk, got {:?}", other),
    }
}

#[test]
fn test_plan_segment_carries_tone_fields_and_mixins() {
    let seg = Segment::Tone {
        dur: DurationMicros(2_000_000),
        carrier_mhz: 432_000,
        hz_mhz: -4_000,
        gain_ppm: 750_000,
        noise: Some(NoiseSpec { gain_ppm: 300_000, color: NoiseColor::Pink }),
        audio: vec![],
    };
    let mixin = Mixin {
        gain_ppm: 500_000,
        path: String::from("/audio/voice.wav"),
        offset: DurationMicros(100_000),
    };
    let chunk = plan_segment(&seg, vec![mixin.clone()], 44_100);
    match chunk {
        Chunk::Tone { samples, spec, mixins } => {
            assert_eq!(samples, 88_200);
            assert_eq!(spec.carrier_mhz, 432_000);
            assert_eq!(spec.hz_mhz, -4_000);
            assert_eq!(spec.gain_ppm, 750_000);
            let noise = spec.noise.unwrap();
            assert_eq!(noise.gain_ppm, 300_000);
            assert!(matches!(noise.color, NoiseColor::Pink));
            assert_eq!(mixins.len(), 1);
            assert_eq!(mixins[0], mixin);
        }
        other => panic!("expected a tone chunk, got {:?}", other),
    }
}

#[test]
fn test_plan_chunks_free_function_matches_config_path() {
    let segs = vec![tone_segment(100_000, 1_000, 0)];
    let chunks = plan_chunks(&segs, vec![vec![]], 10_000);
    assert_eq!(chunks.len(), 1);
    assert_eq!(chunks[0].samples(), 1_000);
}

#[test]
fn test_config_defaults() {
    let cfg = Config {
        sample_rate: None,
        gain_ppm: None,
        fade_us: None,
        audio_dir: None,
        resolved_audio_dir: String::new(),
        model_dir: None,
        resolved_model_dir: String::new(),
        segments: vec![],
        normalized: false,
    };
    assert_eq!(cfg.get_sample_rate(), 48_000);
    assert_eq!(cfg.get_gain_ppm(), 950_000);
    assert_eq!(cfg.get_fade_us(), 50_000);
}

#[test]
fn test_config_overrides_and_gain_clamp() {
    let mut cfg = base_config(22_050, vec![]);
    cfg.gain_ppm = Some(2_000_000);
    cfg.fade_us = Some(10_000);
    assert_eq!(cfg.get_sample_rate(), 22_050);
    // gain past unity is clamped to unity
    assert_eq!(cfg.get_gain_ppm(), 1_000_000);
    assert_eq!(cfg.get_fade_us(), 10_000);
    assert_eq!(cfg.micros_to_samples(1_000_000), 22_050);
}

#[test]
fn test_normalize_paths_resolves_against_config_dir() {
    let mut cfg = base_config(48_000, vec![]);
    cfg.audio_dir = Some(String::from("audio"));
    cfg.model_dir = Some(String::from("/models"));
    cfg.normalize_paths("conf/session.yaml");
    assert!(cfg.normalized);
    assert_eq!(cfg.resolved_audio_dir, "conf/audio");
    // an absolute directory stands alone
    assert_eq!(cfg.resolved_model_dir, "/models");
}

#[test]
fn test_normalize_paths_missing_dirs_read_as_current() {
    let mut cfg = base_config(48_000, vec![]);
    cfg.normalize_paths("session.yaml");
    assert_eq!(cfg.resolved_audio_dir, ".");
    assert_eq!(cfg.resolved_model_dir, ".");
}

#[test]
fn test_mixin_sample_offset() {
    let mixin = Mixin {
        gain_ppm: 1_000_000,
        path: String::from("/a.wav"),
        offset: DurationMicros(1_500_000),
    };
    assert_eq!(mixin.sample_offset(8_000), 12_000);
}

#[test]
fn test_empty_plan_renders_zero_frames() {
    let cfg = base_config(48_000, vec![]);
    let chunks = cfg.create_chunks(vec![]);
    assert!(chunks.is_empty());
    assert_eq!(total_samples(&chunks), Some(0));
}

#[test]
fn test_total_samples_overflow_is_reported() {
    let spec = ToneSpec { gain_ppm: 1_000_000, carrier_mhz: 200_000, hz_mhz: 0, noise: None };
    let huge = Chunk::Tone { samples: u64::MAX, spec, mixins: vec![] };
    let chunks = vec![huge.clone(), huge];
    assert_eq!(total_samples(&chunks), None);
}
