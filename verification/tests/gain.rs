use opengate::gain::{lerp_gain_ppm, normalize_gains, transition_tone_gain_ppm};
use opengate::plan::{NoiseColor, NoiseSpec, ToneSpec};

#[test]
fn test_gain_normalization_scenario() {
    // tone 0.8 and noise 0.6 sum past unity: both scale by the sum, so
    // the effective gains are 8/14 and 6/14 — together exactly one
    let g = normalize_gains(800_000, 600_000);
    assert_eq!(g.den, 1_400_000);
    assert_eq!(g.tone_num, 800_000);
    assert_eq!(g.noise_num, 600_000);
    assert_eq!(g.tone_num + g.noise_num, g.den);

    // within unity the gains apply as given
    let g = normalize_gains(500_000, 300_000);
    assert_eq!(g.den, 1_000_000);
    assert_eq!(g.tone_num, 500_000);
    assert_eq!(g.noise_num, 300_000);
}

#[test]
fn test_transition_gain_interpolation() {
    let from = ToneSpec { gain_ppm: 1_000_000, carrier_mhz: 200_000, hz_mhz: 0, noise: None };
    let to = ToneSpec { gain_ppm: 500_000, carrier_mhz: 100_000, hz_mhz: 0, noise: None };
    assert_eq!(transition_tone_gain_ppm(&from, &to, 0, 10), 1_000_000);
    assert_eq!(transition_tone_gain_ppm(&from, &to, 10, 10), 500_000);
    assert_eq!(transition_tone_gain_ppm(&from, &to, 5, 10), 750_000);
    assert_eq!(lerp_gain_ppm(0, 1_000_000, 1, 4), 250_000);
}

#[test]
fn test_transition_gain_split_normalizes_midway() {
    let from = ToneSpec {
        gain_ppm: 1_000_000,
        carrier_mhz: 200_000,
        hz_mhz: 0,
        noise: Some(NoiseSpec { gain_ppm: 1_000_000, color: NoiseColor::Brown }),
    };
    let to = ToneSpec { gain_ppm: 1_000_000, carrier_mhz: 100_000, hz_mhz: 0, noise: None };
    // halfway: tone 1.0, noise 0.5 — sum 1.5 exceeds unity, so the
    // effective gains become 2/3 and 1/3
    let g = opengate::gain::transition_gain_split(&from, &to, 1, 2);
    assert_eq!(g.tone_num, 1_000_000);
    assert_eq!(g.noise_num, 500_000);
    assert_eq!(g.den, 1_500_000);
    // endpoints: no noise at the arrival, so nothing exceeds unity
    let g = opengate::gain::transition_gain_split(&from, &to, 2, 2);
    assert_eq!(g.tone_num, 1_000_000);
    assert_eq!(g.noise_num, 0);
    assert_eq!(g.den, 1_000_000);
}
