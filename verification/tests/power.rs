use led_curtain::cfg::AnalysisConfig;
use led_curtain::state::power::{bass_weight, chroma_band, chroma_bands, BAND_EDGES};

#[test]
fn band_edges_lie_midway_between_semitones() {
    assert_eq!(BAND_EDGES.len(), 49);
    for k in 0..49 {
        let below = 110.0f64 * 2f64.powf((k as f64 - 1.0) / 12.0);
        let at = 110.0f64 * 2f64.powf(k as f64 / 12.0);
        let edge = ((below + at) / 2.0 * 1000.0).round() as u32;
        assert_eq!(BAND_EDGES[k], edge);
    }
}

#[test]
fn bass_weights_fall_off_by_quarters() {
    let weights: Vec<u32> = (0..10).map(bass_weight).collect();
    assert_eq!(weights, vec![4, 4, 4, 4, 4, 3, 2, 1, 0, 0]);
    for i in 0..8usize {
        let expected = f32::min((8 - i) as f32 / 4.0, 1.0);
        assert_eq!(bass_weight(i) as f32 / 4.0, expected);
    }
}

#[test]
fn bands_of_the_default_config() {
    let cfg = AnalysisConfig::default();
    let bands = chroma_bands(&cfg);
    assert_eq!(bands.len(), 48);
    assert_eq!((bands[0].start, bands[0].end), (10, 11));
    assert_eq!((bands[0].class, bands[0].octave), (0, 0));
    assert_eq!((bands[12].start, bands[12].end), (20, 21));
    assert_eq!((bands[12].class, bands[12].octave), (0, 1));
    assert_eq!((bands[47].start, bands[47].end), (150, 159));
    assert_eq!((bands[47].class, bands[47].octave), (11, 3));
    assert_eq!(bands[13], chroma_band(&cfg, 13));
    assert_eq!(bands[47].octave_weight(), 7);
    assert_eq!(bands[0].octave_weight(), 1);
}

#[test]
fn bands_tile_the_spectrum() {
    let cfg = AnalysisConfig::default();
    let bands = chroma_bands(&cfg);
    for i in 0..47 {
        assert_eq!(bands[i].end, bands[i + 1].start);
        assert!(bands[i].start <= bands[i].end);
    }
    assert!(bands[47].end <= cfg.max_aidx());
}

#[test]
fn bands_are_counted_from_the_first_audible_bin() {
    let mut cfg = AnalysisConfig::default();
    // 129.2 Hz is bin 12
    cfg.spectrogram.min_frequency = 129_200;
    assert_eq!(cfg.min_idx(), 12);
    let bands = chroma_bands(&cfg);
    assert_eq!((bands[0].start, bands[0].end), (0, 0));
    assert_eq!((bands[3].start, bands[3].end), (0, 1));
    assert_eq!((bands[12].start, bands[12].end), (8, 9));
}

#[test]
fn bands_are_held_inside_the_audible_band() {
    let mut cfg = AnalysisConfig::default();
    cfg.spectrogram.max_frequency = 1_000_000;
    let top = cfg.max_aidx();
    assert_eq!(top, 93);
    let bands = chroma_bands(&cfg);
    assert_eq!((bands[38].start, bands[38].end), (89, 93));
    assert_eq!((bands[39].start, bands[39].end), (93, 93));
    assert_eq!((bands[47].start, bands[47].end), (93, 93));
}

#[test]
fn a_pure_tone_at_the_reference_pitch_falls_into_class_a() {
    let cfg = AnalysisConfig::default();
    let peak = cfg.hz_to_idx(110_000) - cfg.min_idx();
    let bands = chroma_bands(&cfg);
    let holding: Vec<_> = bands.iter().filter(|b| b.start <= peak && peak < b.end).collect();
    assert_eq!(holding.len(), 1);
    assert_eq!(holding[0].class, 0);
    assert_eq!(holding[0].octave, 0);
    // fold a spectrum that has all its power in the peak bin
    let mut spectrum = vec![0.0f32; cfg.max_aidx()];
    spectrum[peak] = 1.0;
    let mut chroma = [0.0f32; 12];
    for b in bands.iter() {
        chroma[b.class] += spectrum[b.start..b.end].iter().sum::<f32>();
    }
    let total: f32 = chroma.iter().sum();
    assert!(chroma[0] >= 0.9 * total);
    assert!(total > 0.0);
}
