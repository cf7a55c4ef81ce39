//! Bookkeeping for the scalar features: differences from hop to hop, the
//! weights of the bass, and the semitone bands behind the twelve pitch
//! classes.

use crate::cfg::{lemma_hz_to_idx_monotone, AnalysisConfig, BASS_BINS};
use std::ops::Sub;
use vstd::prelude::*;
use vstd::std_specs::ops::SubSpec;

verus! {

/// A quantity with its change since the last hop and the change of that
/// change.
#[verifier::reject_recursive_types(T)]
pub struct DData<T: Sub<T, Output = T> + Copy> {
    pub val: T,
    pub dval: T,
    pub ddval: T,
}

impl<T: Sub<T, Output = T> + Copy + Default> Default for DData<T> {
    fn default() -> (d: Self)
        ensures
            call_ensures(T::default, (), d.val),
            call_ensures(T::default, (), d.dval),
            call_ensures(T::default, (), d.ddval),
    {
        DData { val: T::default(), dval: T::default(), ddval: T::default() }
    }
}

impl<T: Sub<T, Output = T> + Copy> DData<T> {
    /// The record after the quantity has moved on to `new`: the first
    /// difference is `new` less the old value, the second the old first
    /// difference less the new one.
    pub fn advance(&self, new: T) -> (next: Self)
        requires
            T::obeys_sub_spec(),
            new.sub_req(self.val),
            self.dval.sub_req(new.sub_spec(self.val)),
        ensures
            next.val == new,
            next.dval == new.sub_spec(self.val),
            next.ddval == self.dval.sub_spec(next.dval),
    {
        let dval = new - self.val;
        let ddval = self.dval - dval;
        DData { val: new, dval, ddval }
    }
}

/// Weight of bass bin `i` in quarters: full for the lowest five bins, then
/// falling by a quarter per bin.
pub open spec fn spec_bass_weight(i: nat) -> nat {
    if i >= 8 {
        0
    } else if 8 - i >= 4 {
        4
    } else {
        (8 - i) as nat
    }
}

/// Weight, in quarters, with which audible bin `i` counts towards the
/// bass; bins past the bass count for nothing.
pub fn bass_weight(i: usize) -> (quarters: u32)
    ensures
        quarters == spec_bass_weight(i as nat),
        quarters <= 4,
        i < BASS_BINS ==> quarters >= 1,
{
    if i >= BASS_BINS {
        0
    } else if BASS_BINS - i >= 4 {
        4
    } else {
        (BASS_BINS - i) as u32
    }
}

/// Width in bins of the median filter that smooths the percussive
/// spectrum across frequency.
pub const FILTERED_SPAN: usize = 5;

/// Octaves covered above the reference pitch.
pub const OCTAVES: usize = 4;

/// Pitch classes in an octave.
pub const CLASSES: usize = 12;

/// Semitone bands covered in all.
pub const SEMITONES: usize = 48;

/// The edges of the semitone bands in millihertz: entry `k` lies midway
/// between semitone `k - 1` and semitone `k` above 110 Hz, so that band
/// `k` runs from entry `k` to entry `k + 1`.
pub const BAND_EDGES: [u32; 49] = [
    106913, 113270, 120006, 127142, 134702, 142712, 151198, 160189, 169714, 179806, 190497,
    201825, 213826, 226541, 240012, 254284, 269404, 285424, 302396, 320377, 339428, 359611,
    380995, 403650, 427652, 453082, 480024, 508567, 538808, 570847, 604792, 640755, 678856,
    719223, 761990, 807300, 855305, 906164, 960047, 1017134, 1077616, 1141695, 1209584, 1281509,
    1357712, 1438445, 1523980, 1614600, 1710609,
];

/// The edges rise from one to the next.
pub proof fn lemma_band_edges_increase(k: int)
    requires
        0 <= k < 48,
    ensures
        BAND_EDGES[k] < BAND_EDGES[k + 1],
{
}

/// A run of bins of the audible spectrum that belongs to one semitone.
#[derive(Clone, Copy, Debug, PartialEq, Eq, Structural)]
pub struct ChromaBand {
    /// Pitch class, 0 for A.
    pub class: usize,
    /// Octave above the reference pitch.
    pub octave: usize,
    /// First bin of the band, counted from the start of the audible band.
    pub start: usize,
    /// The bin just past the band.
    pub end: usize,
}

impl ChromaBand {
    /// Weight of the band's octave in eighths: the middle of octave `o` of
    /// four lies at `(2 o + 1) / 8`.
    pub fn octave_weight(&self) -> (eighths: usize)
        requires
            self.octave < OCTAVES,
        ensures
            eighths == 2 * self.octave + 1,
    {
        2 * self.octave + 1
    }
}

/// Place of band edge `k` in the audible spectrum: the bin nearest to the
/// edge, counted from the first audible bin and held inside the band.
pub open spec fn spec_edge_bin(cfg: AnalysisConfig, k: int) -> nat {
    let idx = cfg.spec_idx(BAND_EDGES[k]);
    if idx <= cfg.spec_min_idx() {
        0
    } else if idx >= cfg.spec_max_idx() {
        cfg.spec_max_aidx()
    } else {
        (idx - cfg.spec_min_idx()) as nat
    }
}

/// Semitone band `i`: its pitch class and octave, and its bins.
pub open spec fn spec_chroma_band(cfg: AnalysisConfig, i: int) -> ChromaBand {
    ChromaBand {
        class: (i % 12) as usize,
        octave: (i / 12) as usize,
        start: spec_edge_bin(cfg, i) as usize,
        end: spec_edge_bin(cfg, i + 1) as usize,
    }
}

/// Edges further up lie at bins no further down.
pub proof fn lemma_edge_bins_ordered(cfg: AnalysisConfig, j: int, k: int)
    requires
        0 <= j <= k <= 48,
        cfg.spec_min_idx() <= cfg.spec_max_idx(),
    ensures
        spec_edge_bin(cfg, j) <= spec_edge_bin(cfg, k) <= cfg.spec_max_aidx(),
    decreases k - j,
{
    if j < k {
        lemma_edge_bins_ordered(cfg, j, k - 1);
        lemma_band_edges_increase(k - 1);
        lemma_hz_to_idx_monotone(
            cfg.fft.frame_len as nat,
            cfg.fft.sample_rate as nat,
            BAND_EDGES[k - 1] as nat,
            BAND_EDGES[k] as nat,
        );
    }
}

/// The bands tile their part of the audible spectrum: each starts where
/// the one before ends, none runs backwards, and two different bands share
/// no bin.
pub proof fn lemma_chroma_bands_tile(cfg: AnalysisConfig, i: int, j: int)
    requires
        0 <= i < j < 48,
        cfg.spec_min_idx() <= cfg.spec_max_idx(),
    ensures
        spec_chroma_band(cfg, i).end == spec_chroma_band(cfg, i + 1).start,
        spec_chroma_band(cfg, i).start <= spec_chroma_band(cfg, i).end,
        spec_chroma_band(cfg, i).end <= spec_chroma_band(cfg, j).start,
        spec_chroma_band(cfg, j).end <= cfg.spec_max_aidx(),
{
    lemma_edge_bins_ordered(cfg, i, i + 1);
    lemma_edge_bins_ordered(cfg, i + 1, j);
    lemma_edge_bins_ordered(cfg, j, j + 1);
}

/// Bin of band edge `k` in the audible spectrum.
fn edge_bin(cfg: &AnalysisConfig, k: usize) -> (bin: usize)
    requires
        k <= SEMITONES,
        cfg.spec_min_idx() <= cfg.spec_max_idx(),
    ensures
        bin == spec_edge_bin(*cfg, k as int),
{
    let idx = cfg.hz_to_idx(BAND_EDGES[k]);
    let min_idx = cfg.min_idx();
    let max_idx = cfg.max_idx();
    if idx <= min_idx {
        0
    } else if idx >= max_idx {
        max_idx - min_idx
    } else {
        idx - min_idx
    }
}

/// Semitone band `i` above the reference pitch of 110 Hz: pitch class
/// `i mod 12` in octave `i / 12`, over the bins between its two edges.
pub fn chroma_band(cfg: &AnalysisConfig, i: usize) -> (band: ChromaBand)
    requires
        i < SEMITONES,
        cfg.spec_min_idx() <= cfg.spec_max_idx(),
    ensures
        band == spec_chroma_band(*cfg, i as int),
        band.class < CLASSES,
        band.octave < OCTAVES,
        band.start <= band.end <= cfg.spec_max_aidx(),
{
    proof {
        lemma_edge_bins_ordered(*cfg, i as int, i as int + 1);
    }
    ChromaBand {
        class: i % CLASSES,
        octave: i / CLASSES,
        start: edge_bin(cfg, i),
        end: edge_bin(cfg, i + 1),
    }
}

/// All semitone bands from the reference pitch upwards.
pub fn chroma_bands(cfg: &AnalysisConfig) -> (bands: Vec<ChromaBand>)
    requires
        cfg.spec_min_idx() <= cfg.spec_max_idx(),
    ensures
        bands@.len() == SEMITONES,
        forall|i: int| 0 <= i < SEMITONES ==> #[trigger] bands@[i] == spec_chroma_band(*cfg, i),
{
    let mut bands: Vec<ChromaBand> = Vec::new();
    let mut i: usize = 0;
    while i < SEMITONES
        invariant
            i <= SEMITONES,
            cfg.spec_min_idx() <= cfg.spec_max_idx(),
            bands@.len() == i,
            forall|k: int| 0 <= k < i ==> #[trigger] bands@[k] == spec_chroma_band(*cfg, k),
        decreases SEMITONES - i,
    {
        bands.push(chroma_band(cfg, i));
        i += 1;
    }
    bands
}

} // verus!
