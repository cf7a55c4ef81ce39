//! Framing parameters of the short-time Fourier transform.

use vstd::prelude::*;

verus! {

/// Window and stride of the transform, in samples, and the sample rate in
/// samples per second.
pub struct FftConfig {
    pub frame_len: usize,
    pub hop_len: usize,
    pub sample_rate: usize,
}

impl Default for FftConfig {
    fn default() -> (cfg: Self)
        ensures
            cfg.frame_len == 4096,
            cfg.hop_len == 1024,
            cfg.sample_rate == 44100,
    {
        FftConfig { frame_len: 4096, hop_len: 1024, sample_rate: 44100 }
    }
}

} // verus!
