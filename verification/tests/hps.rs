use led_curtain::cfg::AnalysisConfig;
use led_curtain::state::hps::{harmonic_span, HpsData};
use led_curtain::state::AudibleSpec;

fn small_config(h_span: usize, p_span: usize) -> AnalysisConfig {
    let mut cfg = AnalysisConfig::default();
    cfg.fft.frame_len = 64;
    cfg.fft.hop_len = 16;
    cfg.fft.sample_rate = 64;
    cfg.spectrogram.min_frequency = 0;
    cfg.spectrogram.max_frequency = 16_000;
    cfg.hps.h_filter_span = h_span;
    cfg.hps.p_filter_span = p_span;
    cfg
}

fn lower_median(window: &[u32]) -> u32 {
    let mut sorted = window.to_vec();
    sorted.sort();
    sorted[(sorted.len() - 1) / 2]
}

#[test]
fn harmonic_span_scales_with_the_bin() {
    // span * (i / len + 1/2), rounded down
    assert_eq!(harmonic_span(46, 0, 743), 23);
    assert_eq!(harmonic_span(46, 742, 743), 68);
    assert_eq!(harmonic_span(46, 371, 743), 45);
    assert_eq!(harmonic_span(46, 372, 743), 46);
    assert_eq!(harmonic_span(2, 0, 16), 1);
    assert_eq!(harmonic_span(4, 8, 16), 4);
    assert_eq!(harmonic_span(4, 15, 16), 5);
}

#[test]
fn blank_medians_are_zero() {
    let cfg = small_config(4, 3);
    assert_eq!(cfg.validate(), Ok(()));
    let data = HpsData::blank(&cfg);
    assert_eq!(data.past_magnitudes.len(), 16);
    assert_eq!(data.h_enhanced.as_slice(), &[0u32; 16][..]);
    assert_eq!(data.p_enhanced.as_slice(), &[0u32; 16][..]);
    for i in 0..16 {
        assert_eq!(data.past_magnitudes.get(i).len(), harmonic_span(4, i, 16));
    }
}

#[test]
fn first_hop_gives_the_powers_back() {
    let cfg = small_config(4, 1);
    let data = HpsData::blank(&cfg);
    let keys: Vec<u32> = (0..16).map(|k| 100 - k * 3).collect();
    let data = data.advance(&cfg, &AudibleSpec::from_iter(keys.clone(), &cfg));
    // one value in every window over time, and a window of one bin over frequency
    assert_eq!(data.h_enhanced.as_slice(), &keys[..]);
    assert_eq!(data.p_enhanced.as_slice(), &keys[..]);
}

#[test]
fn percussive_median_runs_over_the_bins_below() {
    let cfg = small_config(4, 3);
    let data = HpsData::blank(&cfg);
    let keys: Vec<u32> = vec![5, 1, 9, 9, 2, 7, 7, 7, 0, 3, 8, 4, 6, 6, 1, 2];
    let data = data.advance(&cfg, &AudibleSpec::from_iter(keys.clone(), &cfg));
    let expected: Vec<u32> = vec![5, 1, 5, 9, 9, 7, 7, 7, 7, 3, 3, 4, 6, 6, 6, 2];
    assert_eq!(data.p_enhanced.as_slice(), &expected[..]);
}

#[test]
fn medians_match_a_sort_of_the_windows() {
    for (h_span, p_span) in [(2usize, 1usize), (3, 2), (4, 3), (7, 4), (10, 9), (46, 9)] {
        let cfg = small_config(h_span, p_span);
        assert_eq!(cfg.validate(), Ok(()));
        let mut data = HpsData::blank(&cfg);
        let mut history: Vec<Vec<u32>> = vec![Vec::new(); 16];
        let mut seed: u32 = 12345 + h_span as u32;
        for _hop in 0..120 {
            let keys: Vec<u32> = (0..16)
                .map(|_| {
                    seed = seed.wrapping_mul(1664525).wrapping_add(1013904223);
                    (seed >> 24) % 12
                })
                .collect();
            data = data.advance(&cfg, &AudibleSpec::from_iter(keys.clone(), &cfg));
            for i in 0..16 {
                history[i].push(keys[i]);
                let size = harmonic_span(h_span, i, 16);
                let from = history[i].len().saturating_sub(size);
                assert_eq!(*data.h_enhanced.get(i), lower_median(&history[i][from..]));
                let low = (i + 1).saturating_sub(p_span);
                assert_eq!(*data.p_enhanced.get(i), lower_median(&keys[low..=i]));
            }
        }
    }
}

#[test]
fn median_of_an_even_window_is_the_lower_middle() {
    let cfg = small_config(4, 2);
    let data = HpsData::blank(&cfg);
    let keys: Vec<u32> = vec![10, 20, 5, 5, 30, 40, 1, 2, 3, 4, 9, 8, 7, 6, 0, 50];
    let data = data.advance(&cfg, &AudibleSpec::from_iter(keys, &cfg));
    assert_eq!(*data.p_enhanced.get(1), 10);
    assert_eq!(*data.p_enhanced.get(5), 30);
    assert_eq!(*data.p_enhanced.get(15), 0);
}
