use led_curtain::cfg::{AnalysisConfig, ConfigError};
use led_curtain::state::paint::Canvas;

#[test]
fn default_config_is_valid() {
    let cfg = AnalysisConfig::default();
    assert_eq!(cfg.validate(), Ok(()));
}

#[test]
fn audible_band_of_default_config() {
    let cfg = AnalysisConfig::default();
    assert_eq!(cfg.fft.frame_len, 4096);
    assert_eq!(cfg.fft.hop_len, 1024);
    assert_eq!(cfg.fft.sample_rate, 44100);
    assert_eq!(cfg.spectrogram.min_frequency, 5_000);
    assert_eq!(cfg.spectrogram.max_frequency, 8_000_000);
    assert_eq!(cfg.max_idx(), 743);
    assert_eq!(cfg.min_idx(), 0);
    assert_eq!(cfg.idx_range(), 743);
    assert_eq!(cfg.max_aidx(), 743);
    assert_eq!(cfg.idx_to_aidx(100), 100);
    assert_eq!(cfg.hops(), 4);
}

#[test]
fn hz_to_idx_rounds_to_nearest() {
    let cfg = AnalysisConfig::default();
    // 110 Hz * 4096 / 44100 = 10.217
    assert_eq!(cfg.hz_to_idx(110_000), 10);
    // 113.05 Hz * 4096 / 44100 = 10.5002
    assert_eq!(cfg.hz_to_idx(113_050), 11);
    // 113.03 Hz * 4096 / 44100 = 10.4983
    assert_eq!(cfg.hz_to_idx(113_030), 10);
    assert_eq!(cfg.hz_to_idx(0), 0);
    assert_eq!(cfg.hz_to_idx(22_050_000), 2048);
}

#[test]
fn hz_to_idx_without_sample_rate() {
    let mut cfg = AnalysisConfig::default();
    cfg.fft.sample_rate = 0;
    assert_eq!(cfg.hz_to_idx(0), 0);
    assert_eq!(cfg.hz_to_idx(1), usize::MAX);
}

#[test]
fn hz_to_idx_is_monotone_on_samples() {
    let cfg = AnalysisConfig::default();
    let mut last = 0;
    let mut f: u32 = 0;
    while f < 9_000_000 {
        let idx = cfg.hz_to_idx(f);
        assert!(idx >= last);
        last = idx;
        f += 7_919;
    }
}

#[test]
fn validate_names_each_fault() {
    let mut cfg = AnalysisConfig::default();
    cfg.fft.frame_len = 1;
    assert_eq!(cfg.validate(), Err(ConfigError::FrameLen));

    let mut cfg = AnalysisConfig::default();
    cfg.fft.hop_len = 0;
    assert_eq!(cfg.validate(), Err(ConfigError::HopLen));
    cfg.fft.hop_len = 4097;
    assert_eq!(cfg.validate(), Err(ConfigError::HopLen));

    let mut cfg = AnalysisConfig::default();
    cfg.fft.sample_rate = 0;
    assert_eq!(cfg.validate(), Err(ConfigError::SampleRate));

    let mut cfg = AnalysisConfig::default();
    cfg.spectrogram.min_frequency = 9_000_000;
    assert_eq!(cfg.validate(), Err(ConfigError::FrequencyOrder));

    let mut cfg = AnalysisConfig::default();
    cfg.spectrogram.max_frequency = 23_000_000;
    assert_eq!(cfg.validate(), Err(ConfigError::AboveNyquist));

    let mut cfg = AnalysisConfig::default();
    cfg.spectrogram.max_frequency = 50_000;
    assert_eq!(cfg.validate(), Err(ConfigError::NarrowBand));

    let mut cfg = AnalysisConfig::default();
    cfg.hps.h_filter_span = 1;
    assert_eq!(cfg.validate(), Err(ConfigError::HarmonicSpan));
    cfg.hps.h_filter_span = 32769;
    assert_eq!(cfg.validate(), Err(ConfigError::HarmonicSpan));

    let mut cfg = AnalysisConfig::default();
    cfg.hps.p_filter_span = 0;
    assert_eq!(cfg.validate(), Err(ConfigError::PercussiveSpan));
    cfg.hps.p_filter_span = 65537;
    assert_eq!(cfg.validate(), Err(ConfigError::PercussiveSpan));

    let mut cfg = AnalysisConfig::default();
    cfg.light.width = 11;
    assert_eq!(cfg.validate(), Err(ConfigError::MatrixWidth));
    cfg.light.width = 38;
    assert_eq!(cfg.validate(), Err(ConfigError::MatrixWidth));

    let mut cfg = AnalysisConfig::default();
    cfg.light.height = 0;
    assert_eq!(cfg.validate(), Err(ConfigError::MatrixHeight));

    let mut cfg = AnalysisConfig::default();
    cfg.paint.roll_len = vec![];
    assert_eq!(cfg.validate(), Err(ConfigError::RollEmpty));

    let mut cfg = AnalysisConfig::default();
    cfg.paint.roll_len = vec![12, 5, 3, 2, 2, 1, 2];
    assert_eq!(cfg.validate(), Err(ConfigError::RollHeight));
    cfg.paint.roll_len = vec![u32::MAX, u32::MAX, 1];
    assert_eq!(cfg.validate(), Err(ConfigError::RollHeight));
}

#[test]
fn validate_reports_first_fault() {
    let mut cfg = AnalysisConfig::default();
    cfg.fft.sample_rate = 0;
    cfg.light.width = 3;
    assert_eq!(cfg.validate(), Err(ConfigError::SampleRate));
}

#[test]
fn validate_accepts_the_limits() {
    let mut cfg = AnalysisConfig::default();
    cfg.light.width = 12;
    assert_eq!(cfg.validate(), Ok(()));
    cfg.light.width = 37;
    assert_eq!(cfg.validate(), Ok(()));
    cfg.hps.h_filter_span = 2;
    cfg.hps.p_filter_span = 1;
    assert_eq!(cfg.validate(), Ok(()));
    cfg.fft.hop_len = 4096;
    assert_eq!(cfg.validate(), Ok(()));
}

#[test]
fn canvas_takes_its_size_from_the_config() {
    let cfg = AnalysisConfig::default();
    let canvas: Canvas<u8> = Canvas::new(&cfg, 3);
    assert_eq!(canvas.width(), 20);
    assert_eq!(canvas.height(), 26);
    assert_eq!(canvas.iter_rows().len(), 26);
    assert_eq!(canvas.row_immut(25), &[3u8; 20][..]);
}
