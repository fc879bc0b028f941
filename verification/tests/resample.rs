use opengate::duration::DurationMicros;
use opengate::plan::Mixin;
use opengate::resample::{mix_overlay, resample_linear};

#[test]
fn test_resample_same_rate_passes_through() {
    let input = vec![3, -7, 100, 0, -32_768, 32_767];
    assert_eq!(resample_linear(&input, 44_100, 44_100), input);
}

#[test]
fn test_resample_constant_round_trip() {
    // a constant signal stays the same constant at any target rate
    let input = vec![500i32; 10];
    for &rate in &[8_000u32, 11_025, 16_000, 44_100, 48_000, 96_000, 3] {
        let out = resample_linear(&input, 8_000, rate);
        if rate != 8_000 {
            assert_eq!(out.len(), (10 * rate as usize) / 8_000);
        }
        assert!(out.iter().all(|&s| s == 500), "rate {} broke the constant", rate);
    }
}

#[test]
fn test_resample_preserves_linear_ramp() {
    // doubling the rate of the ramp 0,100,200,... interleaves exact
    // midpoints
    let input: Vec<i32> = (0..10).map(|k| k * 100).collect();
    let out = resample_linear(&input, 8_000, 16_000);
    assert_eq!(out.len(), 20);
    for i in 0..19 {
        assert_eq!(out[i], (i as i32) * 50, "index {}", i);
    }
    // the final position passes the last source sample, which is held
    assert_eq!(out[19], 900);
}

#[test]
fn test_resample_downsamples_by_picking_exact_positions() {
    let input: Vec<i32> = (0..8).map(|k| k * 1000).collect();
    let out = resample_linear(&input, 16_000, 8_000);
    assert_eq!(out.len(), 4);
    assert_eq!(out, vec![0, 2000, 4000, 6000]);
}

#[test]
fn test_mix_overlay_adds_scaled_samples_at_offset() {
    let mut dest = vec![0i64; 10];
    dest[8] = 25;
    let src = vec![1_000, -1_000, 32_767];
    mix_overlay(&mut dest, &src, 500_000, 8);
    // half gain, offset 8: two samples land, the third runs past the end
    assert_eq!(dest[8], 25 + 500);
    assert_eq!(dest[9], -500);
    assert!(dest[..8].iter().all(|&s| s == 0));
}

#[test]
fn test_mix_overlay_rounds_to_nearest() {
    let mut dest = vec![0i64; 2];
    mix_overlay(&mut dest, &vec![3, -3], 500_000, 0);
    // 1.5 rounds half up to 2; -1.5 rounds toward -1
    assert_eq!(dest[0], 2);
    assert_eq!(dest[1], -1);
}

#[test]
fn test_mix_overlay_entirely_past_end_is_dropped() {
    let mut dest = vec![7i64; 4];
    mix_overlay(&mut dest, &vec![100, 200], 1_000_000, 4);
    assert_eq!(dest, vec![7, 7, 7, 7]);
}

#[test]
fn test_mixin_mix_in_resamples_offsets_and_scales() {
    let mixin = Mixin {
        gain_ppm: 500_000,
        path: String::from("/audio/voice.wav"),
        offset: DurationMicros(1_000_000),
    };
    // one second at 4 Hz output rate: offset lands at sample 4
    let samples = vec![1000i32; 4];
    let mut dest = vec![0i64; 8];
    mixin.mix_in(&mut dest, &samples, 2, 4);
    // resampled to 8 samples of the same constant; samples 4..8 get half
    // gain, the rest run past the end
    assert!(dest[..4].iter().all(|&s| s == 0));
    assert!(dest[4..].iter().all(|&s| s == 500));
}

#[test]
fn test_mixin_mix_in_offset_past_end_writes_nothing() {
    let mixin = Mixin {
        gain_ppm: 1_000_000,
        path: String::from("/audio/voice.wav"),
        offset: DurationMicros(10_000_000),
    };
    let samples = vec![1000i32; 4];
    let mut dest = vec![1i64; 4];
    mixin.mix_in(&mut dest, &samples, 4, 4);
    assert_eq!(dest, vec![1, 1, 1, 1]);
}
