use opengate::engine::{
    ease_linear, linear_t, tone_freqs, transition_frame, transition_freq_mhz,
    transition_noise_choice, NoiseChoice, RenderState,
};
use opengate::plan::{NoiseColor, NoiseSpec, ToneSpec};

fn state_at(n_global: u64, total: u64, fade_len: u64) -> RenderState {
    RenderState {
        phase_l_num: 0,
        phase_r_num: 0,
        phase_den: 48_000_000,
        n_global,
        total_samples: total,
        fade_len,
    }
}

#[test]
fn test_apply_global_fade_start_middle_end() {
    let total = 1000u64;
    let fade_len = 100u64;

    // Start of file gain should be 0.0
    assert_eq!(state_at(0, total, fade_len).fade_gain(), (0, 100));

    // Fade in region at 50, gain is 0.5
    assert_eq!(state_at(50, total, fade_len).fade_gain(), (50, 100));

    // Middle should be unaffected...
    assert_eq!(state_at(500, total, fade_len).fade_gain(), (100, 100));

    // At the last sample where n=999, remain is 1 so gain is 1/100
    assert_eq!(state_at(999, total, fade_len).fade_gain(), (1, 100));

    // Inside the tail region where n=950, remainder is 50 so gain is 1/2
    assert_eq!(state_at(950, total, fade_len).fade_gain(), (50, 100));
}

#[test]
fn test_apply_global_fade_near_boundary_no_overlap_issue() {
    let total = 1000u64;
    let fade_len = 100u64;

    // Just after fade in ends
    assert_eq!(state_at(100, total, fade_len).fade_gain(), (100, 100));

    // Just before fade out starts
    assert_eq!(state_at(899, total, fade_len).fade_gain(), (100, 100));
}

#[test]
fn test_fade_len_resolution() {
    // 50 ms at 48 kHz is 2400 samples
    let st = RenderState::new(1_000_000, 48_000, 50_000);
    assert_eq!(st.fade_len, 2_400);
    // clamped to half the render
    let st = RenderState::new(1_000, 48_000, 50_000);
    assert_eq!(st.fade_len, 500);
    // and never below one sample
    let st = RenderState::new(0, 48_000, 0);
    assert_eq!(st.fade_len, 1);
}

#[test]
fn test_tone_phase_is_periodic() {
    // 200 Hz at 8 kHz: one cycle every 40 samples, exactly
    let mut st = RenderState::new(8_000, 8_000, 0);
    assert_eq!(st.phase_den, 8_000_000);
    for _ in 0..39 {
        st.update_phases(200_000, 207_000);
    }
    assert_eq!(st.phase_l_num, 39 * 200_000 % 8_000_000);
    st.update_phases(200_000, 207_000);
    // left channel lands back on zero; the right (207 Hz) does not
    assert_eq!(st.phase_l_num, 0);
    assert_eq!(st.phase_r_num, 40 * 207_000 % 8_000_000);
}

#[test]
fn test_phase_wraps_negative_frequencies() {
    let mut st = RenderState::new(100, 1, 0);
    assert_eq!(st.phase_den, 1_000);
    st.update_phases(-300, 2_300);
    assert_eq!(st.phase_l_num, 700);
    assert_eq!(st.phase_r_num, 300);
}

#[test]
fn test_phase_continuity_into_matching_transition() {
    // a tone, then a transition leaving from the same tone: the first
    // transition step advances the phase exactly as the tone would
    let carrier = 200_000i64;
    let hz = 7_000i64;
    let mut tone_only = RenderState::new(16_000, 8_000, 0);
    let mut with_transition = RenderState::new(16_000, 8_000, 0);
    for _ in 0..8_000 {
        tone_only.update_phases(carrier, carrier + hz);
        with_transition.update_phases(carrier, carrier + hz);
    }
    // first sample of the transition: ramp position 0 of 8000 samples
    let (t_num, t_den) = linear_t(0, 8_000);
    let f_car = transition_freq_mhz(carrier, 90_000, t_num, t_den);
    let f_hz = transition_freq_mhz(hz, 12_000, t_num, t_den);
    assert_eq!(f_car, carrier);
    assert_eq!(f_hz, hz);
    with_transition.update_phases(f_car, f_car + f_hz);
    tone_only.update_phases(carrier, carrier + hz);
    assert_eq!(with_transition.phase_l_num, tone_only.phase_l_num);
    assert_eq!(with_transition.phase_r_num, tone_only.phase_r_num);
}

#[test]
fn test_transition_freq_endpoints_and_midpoint() {
    assert_eq!(transition_freq_mhz(200_000, 300_000, 0, 99), 200_000);
    assert_eq!(transition_freq_mhz(200_000, 300_000, 99, 99), 300_000);
    assert_eq!(transition_freq_mhz(200_000, 300_000, 1, 2), 250_000);
    // downward sweeps too
    assert_eq!(transition_freq_mhz(300_000, 200_000, 1, 2), 250_000);
    // rounding to the nearest millihertz
    assert_eq!(transition_freq_mhz(0, 100, 1, 3), 33);
    assert_eq!(transition_freq_mhz(0, 100, 2, 3), 67);
}

#[test]
fn test_linear_ramp_positions() {
    assert_eq!(linear_t(0, 100), (0, 99));
    assert_eq!(linear_t(99, 100), (99, 99));
    // degenerate one-sample transition sits at the end of the ramp
    assert_eq!(linear_t(0, 1), (1, 1));
    assert_eq!(linear_t(0, 0), (1, 1));
}

#[test]
fn test_ease_linear_identity_on_0_1() {
    assert_eq!(ease_linear(0, 4), (0, 4));
    assert_eq!(ease_linear(1, 4), (1, 4));
    assert_eq!(ease_linear(2, 4), (2, 4));
    assert_eq!(ease_linear(4, 4), (4, 4));
    // above one it clamps
    assert_eq!(ease_linear(8, 4), (4, 4));
}

#[test]
fn test_transition_noise_choice() {
    // both voices: the departing one below the midpoint, the arriving
    // one from it on
    assert_eq!(transition_noise_choice(true, true, 0, 100), NoiseChoice::FromVoice);
    assert_eq!(transition_noise_choice(true, true, 49, 100), NoiseChoice::FromVoice);
    assert_eq!(transition_noise_choice(true, true, 50, 100), NoiseChoice::ToVoice);
    assert_eq!(transition_noise_choice(true, true, 100, 100), NoiseChoice::ToVoice);
    // one voice: always that voice
    assert_eq!(transition_noise_choice(true, false, 99, 100), NoiseChoice::FromVoice);
    assert_eq!(transition_noise_choice(false, true, 0, 100), NoiseChoice::ToVoice);
    assert_eq!(transition_noise_choice(false, false, 0, 100), NoiseChoice::Neither);
}

#[test]
fn test_tone_freqs() {
    let spec = ToneSpec { gain_ppm: 1_000_000, carrier_mhz: 200_000, hz_mhz: 7_000, noise: None };
    assert_eq!(tone_freqs(&spec), (200_000, 207_000));
    let down = ToneSpec { gain_ppm: 1_000_000, carrier_mhz: 200_000, hz_mhz: -7_000, noise: None };
    assert_eq!(tone_freqs(&down), (200_000, 193_000));
}

#[test]
fn test_transition_frame_midpoint() {
    let from = ToneSpec {
        gain_ppm: 1_000_000,
        carrier_mhz: 200_000,
        hz_mhz: 7_000,
        noise: Some(NoiseSpec { gain_ppm: 1_000_000, color: NoiseColor::Pink }),
    };
    let to = ToneSpec { gain_ppm: 500_000, carrier_mhz: 100_000, hz_mhz: 13_000, noise: None };
    let frame = transition_frame(&from, &to, true, false, 1, 2);
    assert_eq!(frame.freq_l_mhz, 150_000);
    assert_eq!(frame.freq_r_mhz, 150_000 + 10_000);
    // tone 0.75 against noise 0.5: past unity, normalized over the sum
    assert_eq!(frame.gains.tone_num, 750_000);
    assert_eq!(frame.gains.noise_num, 500_000);
    assert_eq!(frame.gains.den, 1_250_000);
    // only the departing voice exists, so it is read the whole way
    assert_eq!(frame.noise, NoiseChoice::FromVoice);
}
