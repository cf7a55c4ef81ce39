//! The state threaded from one hop to the next, and the two shapes of
//! spectrum it is made of.

pub mod fft;
pub mod hps;
pub mod light;
pub mod paint;
pub mod power;

use crate::cfg::AnalysisConfig;
use crate::util::{vec_clone, vec_default};
use std::collections::VecDeque;
use vstd::prelude::*;

verus! {

/// A whole spectrum, one entry per bin of the transform.
#[derive(Clone, Debug, Default)]
pub struct RawSpec<T>(pub Vec<T>);

impl<T> View for RawSpec<T> {
    type V = Seq<T>;

    open spec fn view(&self) -> Seq<T> {
        self.0@
    }
}

impl<T: Default> RawSpec<T> {
    /// A spectrum of `frame_len` default entries.
    pub fn blank_default(cfg: &AnalysisConfig) -> (spec: Self)
        ensures
            spec@.len() == cfg.fft.frame_len,
            forall|i: int|
                0 <= i < cfg.fft.frame_len ==> call_ensures(T::default, (), #[trigger] spec@[i]),
    {
        RawSpec(vec_default(cfg.fft.frame_len))
    }
}

impl<T: Clone> RawSpec<T> {
    /// A spectrum of `frame_len` clones of `elem`.
    pub fn blank_clone(elem: &T, cfg: &AnalysisConfig) -> (spec: Self)
        ensures
            spec@.len() == cfg.fft.frame_len,
            forall|i: int| 0 <= i < cfg.fft.frame_len ==> cloned(*elem, #[trigger] spec@[i]),
    {
        RawSpec(vec_clone(elem, cfg.fft.frame_len))
    }
}

impl<T> RawSpec<T> {
    /// The bins of the audible band.
    pub fn audible_slice(&self, cfg: &AnalysisConfig) -> (band: &[T])
        requires
            cfg.spec_min_idx() <= cfg.spec_max_idx() <= self@.len(),
        ensures
            band@ == self@.subrange(cfg.spec_min_idx() as int, cfg.spec_max_idx() as int),
    {
        let start = cfg.min_idx();
        let end = cfg.max_idx();
        vstd::slice::slice_subrange(self.0.as_slice(), start, end)
    }

    /// The bins of the audible band, open to writing; the bins below and
    /// above stay as they are.
    pub fn audible_slice_mut(&mut self, cfg: &AnalysisConfig) -> (band: &mut [T])
        requires
            cfg.spec_min_idx() <= cfg.spec_max_idx() <= old(self)@.len(),
        ensures
            band@ == old(self)@.subrange(cfg.spec_min_idx() as int, cfg.spec_max_idx() as int),
            final(self)@ == old(self)@.subrange(0, cfg.spec_min_idx() as int) + final(band)@ + old(
                self,
            )@.subrange(cfg.spec_max_idx() as int, old(self)@.len() as int),
    {
        let start = cfg.min_idx();
        let end = cfg.max_idx();
        let (_below, rest) = self.0.as_mut_slice().split_at_mut(start);
        let (band, _above) = rest.split_at_mut(end - start);
        proof {
            assert(band@ =~= old(self)@.subrange(start as int, end as int));
            assert(_above@ =~= old(self)@.subrange(end as int, old(self)@.len() as int));
        }
        band
    }
}

/// The audible part of a spectrum, one entry per audible bin.
#[derive(Clone, Debug, Default)]
pub struct AudibleSpec<T>(Vec<T>);

impl<T> View for AudibleSpec<T> {
    type V = Seq<T>;

    closed spec fn view(&self) -> Seq<T> {
        self.0@
    }
}

impl<T: Default> AudibleSpec<T> {
    /// An audible spectrum of default entries.
    pub fn blank_default(cfg: &AnalysisConfig) -> (spec: Self)
        requires
            cfg.spec_min_idx() <= cfg.spec_max_idx(),
        ensures
            spec@.len() == cfg.spec_max_aidx(),
            forall|i: int|
                0 <= i < cfg.spec_max_aidx() ==> call_ensures(T::default, (), #[trigger] spec@[i]),
    {
        AudibleSpec(vec_default(cfg.max_aidx()))
    }
}

impl<T: Clone> AudibleSpec<T> {
    /// An audible spectrum of clones of `elem`.
    pub fn blank_clone(elem: &T, cfg: &AnalysisConfig) -> (spec: Self)
        requires
            cfg.spec_min_idx() <= cfg.spec_max_idx(),
        ensures
            spec@.len() == cfg.spec_max_aidx(),
            forall|i: int| 0 <= i < cfg.spec_max_aidx() ==> cloned(*elem, #[trigger] spec@[i]),
    {
        AudibleSpec(vec_clone(elem, cfg.max_aidx()))
    }
}

impl<T> AudibleSpec<T> {
    /// The audible spectrum with the given entries, which must be as many
    /// as the audible band has bins.
    pub fn from_iter(entries: Vec<T>, cfg: &AnalysisConfig) -> (spec: Self)
        requires
            cfg.spec_min_idx() <= cfg.spec_max_idx(),
            entries@.len() == cfg.spec_max_aidx(),
        ensures
            spec@ == entries@,
    {
        AudibleSpec(entries)
    }

    /// Number of audible bins.
    pub fn len(&self) -> (n: usize)
        ensures
            n == self@.len(),
    {
        self.0.len()
    }

    /// The entry of audible bin `i`.
    pub fn get(&self, i: usize) -> (entry: &T)
        requires
            i < self@.len(),
        ensures
            *entry == self@[i as int],
    {
        &self.0[i]
    }

    /// The entry of audible bin `i`, open to writing.
    pub fn get_mut(&mut self, i: usize) -> (entry: &mut T)
        requires
            i < old(self)@.len(),
        ensures
            *entry == old(self)@[i as int],
            final(self)@ == old(self)@.update(i as int, *final(entry)),
    {
        &mut self.0[i]
    }

    /// All entries, lowest bin first.
    pub fn as_slice(&self) -> (entries: &[T])
        ensures
            entries@ == self@,
    {
        self.0.as_slice()
    }

    /// Replaces every entry by what `f` makes of its bin and its old
    /// value.
    pub fn update<F: Fn(usize, &T) -> T>(&mut self, f: F)
        requires
            forall|i: int|
                0 <= i < old(self)@.len() ==> call_requires(
                    f,
                    (i as usize, &#[trigger] old(self)@[i]),
                ),
        ensures
            final(self)@.len() == old(self)@.len(),
            forall|i: int|
                0 <= i < old(self)@.len() ==> call_ensures(
                    f,
                    (i as usize, &old(self)@[i]),
                    #[trigger] final(self)@[i],
                ),
    {
        let n: usize = self.0.len();
        let mut i: usize = 0;
        while i < n
            invariant
                i <= n,
                n == old(self)@.len(),
                self.0@.len() == n,
                forall|k: int| i <= k < n ==> self.0@[k] == old(self)@[k],
                forall|k: int|
                    0 <= k < n ==> call_requires(f, (k as usize, &#[trigger] old(self)@[k])),
                forall|k: int|
                    0 <= k < i ==> call_ensures(
                        f,
                        (k as usize, &old(self)@[k]),
                        #[trigger] self.0@[k],
                    ),
            decreases n - i,
        {
            assert(self.0@[i as int] == old(self)@[i as int]);
            let entry = f(i, &self.0[i]);
            self.0[i] = entry;
            i += 1;
        }
    }

    /// Hands every entry to `f` together with its bin, lowest bin first,
    /// and keeps what `f` hands back in its place.
    pub fn mutate<F: Fn(usize, T) -> T>(&mut self, f: F)
        requires
            forall|i: int|
                0 <= i < old(self)@.len() ==> call_requires(
                    f,
                    (i as usize, #[trigger] old(self)@[i]),
                ),
        ensures
            final(self)@.len() == old(self)@.len(),
            forall|i: int|
                0 <= i < old(self)@.len() ==> call_ensures(
                    f,
                    (i as usize, old(self)@[i]),
                    #[trigger] final(self)@[i],
                ),
    {
        let mut entries: Vec<T> = Vec::new();
        std::mem::swap(&mut self.0, &mut entries);
        let ghost before = entries@;
        let n: usize = entries.len();
        let mut i: usize = 0;
        assert forall|k: int| 0 <= k < before.len() implies call_requires(
            f,
            (k as usize, #[trigger] before[k]),
        ) by {
            assert(before[k] == old(self)@[k]);
        }
        for entry in it: entries
            invariant
                i == it.index(),
                before.len() == n,
                it.seq() == before,
                before == old(self)@,
                self.0@.len() == i,
                forall|k: int|
                    0 <= k < before.len() ==> call_requires(f, (k as usize, #[trigger] before[k])),
                forall|k: int|
                    0 <= k < i ==> call_ensures(f, (k as usize, before[k]), #[trigger] self.0@[k]),
        {
            let next = f(i, entry);
            self.0.push(next);
            i += 1;
        }
    }
}

/// The window of samples after `hop` has pushed out as many of the oldest
/// as it brings in.
pub open spec fn spec_window_after(window: Seq<i16>, hop: Seq<i16>) -> Seq<i16> {
    window.subrange(hop.len() as int, window.len() as int) + hop
}

/// The window of samples after each of `hops` has been taken in turn.
pub open spec fn spec_replay(window: Seq<i16>, hops: Seq<Seq<i16>>) -> Seq<i16>
    decreases hops.len(),
{
    if hops.len() == 0 {
        window
    } else {
        spec_window_after(spec_replay(window, hops.drop_last()), hops.last())
    }
}

/// All samples of `hops` in the order in which they were taken.
pub open spec fn spec_samples(hops: Seq<Seq<i16>>) -> Seq<i16>
    decreases hops.len(),
{
    if hops.len() == 0 {
        Seq::empty()
    } else {
        spec_samples(hops.drop_last()) + hops.last()
    }
}

/// A window keeps its length under hops that are no longer than itself.
pub proof fn lemma_replay_len(window: Seq<i16>, hops: Seq<Seq<i16>>)
    requires
        forall|k: int| 0 <= k < hops.len() ==> (#[trigger] hops[k]).len() <= window.len(),
    ensures
        spec_replay(window, hops).len() == window.len(),
    decreases hops.len(),
{
    if hops.len() > 0 {
        let head = hops.drop_last();
        assert forall|k: int| 0 <= k < head.len() implies (#[trigger] head[k]).len()
            <= window.len() by {
            assert(head[k] == hops[k]);
        }
        lemma_replay_len(window, head);
    }
}

/// What the window holds after a replay is fixed by the samples alone: it
/// is the end of the stream that starts with the first window and goes on
/// with every sample taken since. Two replays of one stream from one
/// window therefore end in the same window.
pub proof fn lemma_replay_is_tail(window: Seq<i16>, hops: Seq<Seq<i16>>)
    requires
        forall|k: int| 0 <= k < hops.len() ==> (#[trigger] hops[k]).len() <= window.len(),
    ensures
        spec_replay(window, hops) == (window + spec_samples(hops)).subrange(
            spec_samples(hops).len() as int,
            (window + spec_samples(hops)).len() as int,
        ),
    decreases hops.len(),
{
    if hops.len() == 0 {
        assert(window =~= (window + spec_samples(hops)).subrange(0, window.len() as int));
    } else {
        let head = hops.drop_last();
        assert forall|k: int| 0 <= k < head.len() implies (#[trigger] head[k]).len()
            <= window.len() by {
            assert(head[k] == hops[k]);
        }
        lemma_replay_is_tail(window, head);
        lemma_replay_len(window, head);
        let before = spec_replay(window, head);
        let stream = window + spec_samples(hops);
        assert(spec_window_after(before, hops.last()) =~= stream.subrange(
            spec_samples(hops).len() as int,
            stream.len() as int,
        ));
    }
}

/// A replay has one outcome: the same hops taken from the same window end
/// in the same window, sample for sample.
pub proof fn lemma_replay_deterministic(
    first: Seq<i16>,
    second: Seq<i16>,
    hops: Seq<Seq<i16>>,
    again: Seq<Seq<i16>>,
)
    requires
        first == second,
        hops.len() == again.len(),
        forall|k: int| 0 <= k < hops.len() ==> #[trigger] hops[k] == again[k],
    ensures
        spec_replay(first, hops) == spec_replay(second, again),
    decreases hops.len(),
{
    if hops.len() > 0 {
        lemma_replay_deterministic(first, second, hops.drop_last(), again.drop_last());
    }
}

/// What is carried from hop to hop without rounding: the latest frame of
/// samples and the state of the median filters.
pub struct AnalysisState {
    /// The latest `frame_len` samples, oldest first.
    pub buffer: VecDeque<i16>,
    /// The median filters over time and what they gave last.
    pub hps: hps::HpsData,
}

impl AnalysisState {
    /// The buffer holds one frame, and the filters fit the configuration.
    pub open spec fn wf(&self, cfg: AnalysisConfig) -> bool {
        &&& self.buffer@.len() == cfg.fft.frame_len
        &&& self.hps.wf(cfg)
    }

    /// The state before any audio: a frame of silence and empty filters.
    pub fn blank(cfg: &AnalysisConfig) -> (state: Self)
        requires
            cfg.wf(),
        ensures
            state.wf(*cfg),
            forall|i: int| 0 <= i < cfg.fft.frame_len ==> #[trigger] state.buffer@[i] == 0,
            forall|i: int|
                0 <= i < cfg.spec_max_aidx() ==> hps::filter_window(
                    #[trigger] state.hps.past_magnitudes@[i],
                ) == Seq::<u32>::empty(),
            forall|i: int| 0 <= i < cfg.spec_max_aidx() ==> #[trigger] state.hps.h_enhanced@[i] == 0,
            forall|i: int| 0 <= i < cfg.spec_max_aidx() ==> #[trigger] state.hps.p_enhanced@[i] == 0,
    {
        let mut buffer: VecDeque<i16> = VecDeque::new();
        let mut i: usize = 0;
        while i < cfg.fft.frame_len
            invariant
                i <= cfg.fft.frame_len,
                buffer@.len() == i,
                forall|k: int| 0 <= k < i ==> #[trigger] buffer@[k] == 0,
            decreases cfg.fft.frame_len - i,
        {
            buffer.push_back(0);
            i += 1;
        }
        AnalysisState { buffer, hps: hps::HpsData::blank(cfg) }
    }

    /// Takes in one hop of samples: the oldest `hop_len` samples leave the
    /// buffer and the new ones follow the rest. The filters wait for the
    /// spectrum of the new frame.
    pub fn from_prev(cfg: &AnalysisConfig, prev: AnalysisState, hop_samples: &Vec<i16>) -> (state:
        Self)
        requires
            cfg.wf(),
            prev.wf(*cfg),
            hop_samples@.len() == cfg.fft.hop_len,
        ensures
            state.wf(*cfg),
            state.buffer@ == spec_window_after(prev.buffer@, hop_samples@),
            state.hps == prev.hps,
    {
        let mut buffer = prev.buffer;
        let hop_len: usize = cfg.fft.hop_len;
        let mut i: usize = 0;
        while i < hop_len
            invariant
                i <= hop_len,
                hop_len <= prev.buffer@.len(),
                buffer@ == prev.buffer@.subrange(i as int, prev.buffer@.len() as int),
            decreases hop_len - i,
        {
            let _oldest = buffer.pop_front();
            assert(buffer@ =~= prev.buffer@.subrange(i as int + 1, prev.buffer@.len() as int));
            i += 1;
        }
        let mut j: usize = 0;
        while j < hop_len
            invariant
                j <= hop_len,
                hop_len == hop_samples@.len(),
                hop_len <= prev.buffer@.len(),
                buffer@ == prev.buffer@.subrange(hop_len as int, prev.buffer@.len() as int)
                    + hop_samples@.subrange(0, j as int),
            decreases hop_len - j,
        {
            buffer.push_back(hop_samples[j]);
            assert(buffer@ =~= prev.buffer@.subrange(hop_len as int, prev.buffer@.len() as int)
                + hop_samples@.subrange(0, j as int + 1));
            j += 1;
        }
        assert(hop_samples@.subrange(0, hop_len as int) =~= hop_samples@);
        AnalysisState { buffer, hps: prev.hps }
    }

    /// The samples of the current frame, oldest first.
    pub fn frame(&self) -> (samples: Vec<i16>)
        ensures
            samples@ == self.buffer@,
    {
        let mut samples: Vec<i16> = Vec::new();
        let mut i: usize = 0;
        while i < self.buffer.len()
            invariant
                i <= self.buffer@.len(),
                samples@ == self.buffer@.subrange(0, i as int),
            decreases self.buffer@.len() - i,
        {
            samples.push(self.buffer[i]);
            assert(samples@ =~= self.buffer@.subrange(0, i as int + 1));
            i += 1;
        }
        assert(self.buffer@.subrange(0, self.buffer@.len() as int) =~= self.buffer@);
        samples
    }
}

} // verus!
