//! The configuration of the analysis, the index arithmetic that follows
//! from it, and its validation.

use crate::state::fft::FftConfig;
use crate::state::hps::{HpsConfig, MAX_SPAN};
use crate::state::light::LightConfig;
use crate::state::paint::{
    lemma_roll_rows_monotone, roll_rows, roll_rows_before, CanvasWidthHeight, PaintConfig,
    MAX_WIDTH,
};
use vstd::prelude::*;

verus! {

/// Size of the spectrogram display and the audible band, the latter in
/// millihertz.
pub struct SpectrogramConfig {
    pub time_width: usize,
    pub image_resolution: usize,
    pub max_frequency: u32,
    pub min_frequency: u32,
}

impl Default for SpectrogramConfig {
    fn default() -> (cfg: Self)
        ensures
            cfg.time_width == 512,
            cfg.image_resolution == 512,
            cfg.min_frequency == 5_000,
            cfg.max_frequency == 8_000_000,
    {
        SpectrogramConfig {
            time_width: 512,
            image_resolution: 512,
            min_frequency: 5_000,
            max_frequency: 8_000_000,
        }
    }
}

/// Everything the pipeline is configured with, read once at start.
pub struct AnalysisConfig {
    pub spectrogram: SpectrogramConfig,
    pub fft: FftConfig,
    pub hps: HpsConfig,
    pub light: LightConfig,
    pub paint: PaintConfig,
}

impl Default for AnalysisConfig {
    fn default() -> (cfg: Self)
        ensures
            cfg.spectrogram.min_frequency == 5_000,
            cfg.spectrogram.max_frequency == 8_000_000,
            cfg.spectrogram.time_width == 512,
            cfg.spectrogram.image_resolution == 512,
            cfg.fft.frame_len == 4096,
            cfg.fft.hop_len == 1024,
            cfg.fft.sample_rate == 44100,
            cfg.hps.p_filter_span == 9,
            cfg.hps.h_filter_span == 46,
            cfg.light.width == 20,
            cfg.light.height == 26,
            cfg.light.gui_delay == 0,
            cfg.paint.roll_len@ == seq![12u32, 5u32, 3u32, 2u32, 2u32, 1u32, 1u32],
    {
        AnalysisConfig {
            spectrogram: SpectrogramConfig::default(),
            fft: FftConfig::default(),
            hps: HpsConfig::default(),
            light: LightConfig::default(),
            paint: PaintConfig::default(),
        }
    }
}

impl CanvasWidthHeight for AnalysisConfig {
    open spec fn spec_width(&self) -> nat {
        self.light.width as nat
    }

    open spec fn spec_height(&self) -> nat {
        self.light.height as nat
    }

    fn width(&self) -> (w: u32) {
        self.light.width
    }

    fn height(&self) -> (h: u32) {
        self.light.height
    }
}

/// Number of the lowest audible bins that make up the bass.
pub const BASS_BINS: usize = 8;

/// The bin nearest to a frequency: `millihertz * frame_len / (1000 *
/// sample_rate)` rounded to the nearest whole number, halves upwards, and
/// held to what a `usize` can take. Without a sample rate the quotient is
/// unbounded, or void where the numerator is zero too.
pub open spec fn spec_hz_to_idx(frame_len: nat, sample_rate: nat, millihertz: nat) -> nat {
    if sample_rate == 0 {
        if millihertz * frame_len == 0 {
            0
        } else {
            usize::MAX as nat
        }
    } else {
        let rounded = (2 * millihertz * frame_len + 1000 * sample_rate) / (2000 * sample_rate);
        if rounded > usize::MAX {
            usize::MAX as nat
        } else {
            rounded as nat
        }
    }
}

/// A higher frequency never falls into a lower bin.
pub proof fn lemma_hz_to_idx_monotone(frame_len: nat, sample_rate: nat, low: nat, high: nat)
    requires
        low <= high,
    ensures
        spec_hz_to_idx(frame_len, sample_rate, low) <= spec_hz_to_idx(
            frame_len,
            sample_rate,
            high,
        ),
{
    assert(low * frame_len <= high * frame_len) by (nonlinear_arith)
        requires
            low <= high,
    ;
    if sample_rate == 0 {
    } else {
        assert(2 * low * frame_len == 2 * (low * frame_len)) by (nonlinear_arith);
        assert(2 * high * frame_len == 2 * (high * frame_len)) by (nonlinear_arith);
        vstd::arithmetic::div_mod::lemma_div_is_ordered(
            (2 * low * frame_len + 1000 * sample_rate) as int,
            (2 * high * frame_len + 1000 * sample_rate) as int,
            (2000 * sample_rate) as int,
        );
    }
}

impl AnalysisConfig {
    /// The bin nearest to a frequency under this configuration.
    pub open spec fn spec_idx(&self, millihertz: u32) -> nat {
        spec_hz_to_idx(self.fft.frame_len as nat, self.fft.sample_rate as nat, millihertz as nat)
    }

    /// First bin of the audible band.
    pub open spec fn spec_min_idx(&self) -> nat {
        self.spec_idx(self.spectrogram.min_frequency)
    }

    /// The bin just past the audible band.
    pub open spec fn spec_max_idx(&self) -> nat {
        self.spec_idx(self.spectrogram.max_frequency)
    }

    /// Number of bins in the audible band.
    pub open spec fn spec_max_aidx(&self) -> nat {
        (self.spec_max_idx() - self.spec_min_idx()) as nat
    }

    /// The bin nearest to a frequency given in millihertz.
    pub fn hz_to_idx(&self, millihertz: u32) -> (idx: usize)
        ensures
            idx == self.spec_idx(millihertz),
    {
        let frame_len: u128 = self.fft.frame_len as u128;
        let rate: u128 = self.fft.sample_rate as u128;
        proof {
            assert(2 * (millihertz as int) * (frame_len as int) <= 2 * 0xffff_ffff
                * 0xffff_ffff_ffff_ffff) by (nonlinear_arith)
                requires
                    0 <= millihertz as int <= 0xffff_ffff,
                    0 <= frame_len as int <= 0xffff_ffff_ffff_ffff,
            ;
            assert(0 <= 2 * (millihertz as int) * (frame_len as int)) by (nonlinear_arith)
                requires
                    0 <= millihertz as int,
                    0 <= frame_len as int,
            ;
            assert((millihertz as int) * (frame_len as int) == 0 <==> 2 * (millihertz as int) * (
            frame_len as int) == 0) by (nonlinear_arith);
        }
        let twice: u128 = 2 * (millihertz as u128) * frame_len;
        if rate == 0 {
            if twice == 0 {
                0
            } else {
                usize::MAX
            }
        } else {
            let rounded: u128 = (twice + 1000 * rate) / (2000 * rate);
            if rounded > usize::MAX as u128 {
                usize::MAX
            } else {
                rounded as usize
            }
        }
    }

    /// First bin of the audible band.
    pub fn min_idx(&self) -> (idx: usize)
        ensures
            idx == self.spec_min_idx(),
    {
        self.hz_to_idx(self.spectrogram.min_frequency)
    }

    /// The bin just past the audible band.
    pub fn max_idx(&self) -> (idx: usize)
        ensures
            idx == self.spec_max_idx(),
    {
        self.hz_to_idx(self.spectrogram.max_frequency)
    }

    /// Number of bins in the audible band.
    pub fn idx_range(&self) -> (n: usize)
        requires
            self.spec_min_idx() <= self.spec_max_idx(),
        ensures
            n == self.spec_max_idx() - self.spec_min_idx(),
    {
        self.max_idx() - self.min_idx()
    }

    /// Turns an index into the whole spectrum into an index into the
    /// audible band.
    pub fn idx_to_aidx(&self, i: usize) -> (a: usize)
        requires
            self.spec_min_idx() <= i <= self.spec_max_idx(),
        ensures
            a == i - self.spec_min_idx(),
    {
        i - self.min_idx()
    }

    /// Number of bins in the audible band.
    pub fn max_aidx(&self) -> (n: usize)
        requires
            self.spec_min_idx() <= self.spec_max_idx(),
        ensures
            n == self.spec_max_aidx(),
    {
        self.idx_to_aidx(self.max_idx())
    }

    /// Number of whole hops in a frame.
    pub fn hops(&self) -> (n: usize)
        requires
            self.fft.hop_len > 0,
        ensures
            n == self.fft.frame_len / self.fft.hop_len,
    {
        self.fft.frame_len / self.fft.hop_len
    }
}

/// Why a configuration cannot drive the pipeline.
#[derive(Clone, Copy, Debug, PartialEq, Eq, Structural)]
pub enum ConfigError {
    /// A frame has fewer than two samples.
    FrameLen,
    /// A hop is empty or longer than a frame.
    HopLen,
    /// The sample rate is zero.
    SampleRate,
    /// The audible band ends below where it begins.
    FrequencyOrder,
    /// The audible band reaches past half the frame.
    AboveNyquist,
    /// The audible band has fewer bins than the bass takes.
    NarrowBand,
    /// The harmonic filter would be empty for the lowest bin, or too wide
    /// for the highest.
    HarmonicSpan,
    /// The percussive filter is empty or too wide.
    PercussiveSpan,
    /// The matrix is too narrow for the strip of notes, or too wide for
    /// its echoes.
    MatrixWidth,
    /// The matrix has no rows, or more cells than can be addressed.
    MatrixHeight,
    /// The scrolling display remembers no row.
    RollEmpty,
    /// The scrolling display takes more rows than the matrix has.
    RollHeight,
}

/// Whether the rows that the scrolling display takes fit into `height`.
fn roll_fits(roll_len: &Vec<u32>, height: u32) -> (fits: bool)
    ensures
        fits == (roll_rows(roll_len@) <= height),
{
    let mut rows: u64 = 0;
    let mut n: usize = 0;
    while n < roll_len.len()
        invariant
            n <= roll_len@.len(),
            rows == roll_rows_before(roll_len@, n as int),
            rows <= height,
        decreases roll_len@.len() - n,
    {
        let len: u64 = roll_len[n] as u64;
        if rows + len > height as u64 {
            proof {
                lemma_roll_rows_monotone(roll_len@, n as int + 1, roll_len@.len() as int);
            }
            return false;
        }
        rows = rows + len;
        n += 1;
    }
    true
}

impl AnalysisConfig {
    /// The configuration can drive the pipeline: frames and hops are
    /// sound, the audible band lies in the lower half of the spectrum and
    /// holds the bass, no filter is empty, and the display fits the matrix.
    pub open spec fn wf(&self) -> bool {
        &&& self.fft.frame_len >= 2
        &&& 0 < self.fft.hop_len <= self.fft.frame_len
        &&& self.fft.sample_rate > 0
        &&& self.spec_min_idx() <= self.spec_max_idx() <= self.fft.frame_len / 2
        &&& self.spec_max_aidx() >= BASS_BINS
        &&& 2 <= self.hps.h_filter_span <= MAX_SPAN / 2
        &&& 1 <= self.hps.p_filter_span <= MAX_SPAN
        &&& 12 <= self.light.width <= MAX_WIDTH
        &&& self.light.height >= 1
        &&& self.light.width * self.light.height <= usize::MAX
        &&& self.paint.roll_len@.len() >= 1
        &&& roll_rows(self.paint.roll_len@) <= self.light.height
    }

    /// The first fault of the configuration, in the order of the checks.
    pub open spec fn spec_validate(&self) -> Result<(), ConfigError> {
        if self.fft.frame_len < 2 {
            Err(ConfigError::FrameLen)
        } else if self.fft.hop_len == 0 || self.fft.hop_len > self.fft.frame_len {
            Err(ConfigError::HopLen)
        } else if self.fft.sample_rate == 0 {
            Err(ConfigError::SampleRate)
        } else if self.spec_min_idx() > self.spec_max_idx() {
            Err(ConfigError::FrequencyOrder)
        } else if self.spec_max_idx() > self.fft.frame_len / 2 {
            Err(ConfigError::AboveNyquist)
        } else if self.spec_max_aidx() < BASS_BINS {
            Err(ConfigError::NarrowBand)
        } else if self.hps.h_filter_span < 2 || self.hps.h_filter_span > MAX_SPAN / 2 {
            Err(ConfigError::HarmonicSpan)
        } else if self.hps.p_filter_span == 0 || self.hps.p_filter_span > MAX_SPAN {
            Err(ConfigError::PercussiveSpan)
        } else if self.light.width < 12 || self.light.width > MAX_WIDTH {
            Err(ConfigError::MatrixWidth)
        } else if self.light.height == 0 || self.light.width * self.light.height > usize::MAX {
            Err(ConfigError::MatrixHeight)
        } else if self.paint.roll_len@.len() == 0 {
            Err(ConfigError::RollEmpty)
        } else if roll_rows(self.paint.roll_len@) > self.light.height {
            Err(ConfigError::RollHeight)
        } else {
            Ok(())
        }
    }

    /// Checks the configuration before any audio is taken: `Ok` exactly
    /// when it can drive the pipeline, else its first fault.
    pub fn validate(&self) -> (checked: Result<(), ConfigError>)
        ensures
            checked == self.spec_validate(),
            checked.is_ok() <==> self.wf(),
    {
        if self.fft.frame_len < 2 {
            return Err(ConfigError::FrameLen);
        }
        if self.fft.hop_len == 0 || self.fft.hop_len > self.fft.frame_len {
            return Err(ConfigError::HopLen);
        }
        if self.fft.sample_rate == 0 {
            return Err(ConfigError::SampleRate);
        }
        let min_idx = self.min_idx();
        let max_idx = self.max_idx();
        if min_idx > max_idx {
            return Err(ConfigError::FrequencyOrder);
        }
        if max_idx > self.fft.frame_len / 2 {
            return Err(ConfigError::AboveNyquist);
        }
        if max_idx - min_idx < BASS_BINS {
            return Err(ConfigError::NarrowBand);
        }
        if self.hps.h_filter_span < 2 || self.hps.h_filter_span > MAX_SPAN / 2 {
            return Err(ConfigError::HarmonicSpan);
        }
        if self.hps.p_filter_span == 0 || self.hps.p_filter_span > MAX_SPAN {
            return Err(ConfigError::PercussiveSpan);
        }
        if self.light.width < 12 || self.light.width > MAX_WIDTH {
            return Err(ConfigError::MatrixWidth);
        }
        if self.light.height == 0 {
            return Err(ConfigError::MatrixHeight);
        }
        proof {
            assert((self.light.width as int) * (self.light.height as int) <= 37 * 0xffff_ffff)
                by (nonlinear_arith)
                requires
                    0 <= self.light.width as int <= 37,
                    0 <= self.light.height as int <= 0xffff_ffff,
            ;
        }
        let cells: u64 = (self.light.width as u64) * (self.light.height as u64);
        if cells > usize::MAX as u64 {
            return Err(ConfigError::MatrixHeight);
        }
        if self.paint.roll_len.len() == 0 {
            return Err(ConfigError::RollEmpty);
        }
        if !roll_fits(&self.paint.roll_len, self.light.height) {
            return Err(ConfigError::RollHeight);
        }
        Ok(())
    }
}

} // verus!
