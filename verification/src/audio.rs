//! Hand-off of hops between playback and analysis, and the decisions taken
//! on every playback tick.

use std::collections::VecDeque;
use vstd::prelude::*;

verus! {

/// The hops in flight after `hop` has been queued behind those of `queue`.
pub open spec fn spec_pushed(queue: Seq<Seq<i16>>, hop: Seq<i16>) -> Seq<Seq<i16>> {
    queue.push(hop)
}

/// The hops in flight after the oldest of `queue` has become audible.
pub open spec fn spec_completed(queue: Seq<Seq<i16>>) -> Seq<Seq<i16>> {
    queue.subrange(1, queue.len() as int)
}

/// The hops in flight after each of `hops` has been queued in turn.
pub open spec fn spec_pushed_all(queue: Seq<Seq<i16>>, hops: Seq<Seq<i16>>) -> Seq<Seq<i16>>
    decreases hops.len(),
{
    if hops.len() == 0 {
        queue
    } else {
        spec_pushed(spec_pushed_all(queue, hops.drop_last()), hops.last())
    }
}

/// The hops delivered by the first `n` completions on `queue`, in the
/// order of delivery.
pub open spec fn spec_delivered(queue: Seq<Seq<i16>>, n: nat) -> Seq<Seq<i16>>
    decreases n,
{
    if n == 0 || queue.len() == 0 {
        Seq::empty()
    } else {
        seq![queue[0]] + spec_delivered(spec_completed(queue), (n - 1) as nat)
    }
}

/// What is left in flight after `n` completions on `queue`.
pub open spec fn spec_remaining(queue: Seq<Seq<i16>>, n: nat) -> Seq<Seq<i16>>
    decreases n,
{
    if n == 0 || queue.len() == 0 {
        queue
    } else {
        spec_remaining(spec_completed(queue), (n - 1) as nat)
    }
}

/// The hops handed to the output and not yet heard, oldest first. Each hop
/// queued for playback is followed by one completion signal; when the
/// signal fires, the oldest hop here is the one that was just heard.
pub struct SyncBridge {
    queue: VecDeque<Vec<i16>>,
}

impl View for SyncBridge {
    type V = Seq<Seq<i16>>;

    closed spec fn view(&self) -> Seq<Seq<i16>> {
        self.queue@.map_values(|hop: Vec<i16>| hop@)
    }
}

impl SyncBridge {
    /// A bridge with nothing in flight.
    pub fn new() -> (bridge: Self)
        ensures
            bridge@ == Seq::<Seq<i16>>::empty(),
    {
        let bridge = SyncBridge { queue: VecDeque::new() };
        assert(bridge@ =~= Seq::<Seq<i16>>::empty());
        bridge
    }

    /// Number of hops in flight.
    pub fn len(&self) -> (n: usize)
        ensures
            n == self@.len(),
    {
        self.queue.len()
    }

    /// Whether no hop is in flight.
    pub fn is_empty(&self) -> (b: bool)
        ensures
            b == (self@.len() == 0),
    {
        self.queue.len() == 0
    }

    /// Records a hop that has just been queued for playback.
    pub fn push(&mut self, hop: Vec<i16>)
        ensures
            final(self)@ == spec_pushed(old(self)@, hop@),
    {
        self.queue.push_back(hop);
        assert(self@ =~= spec_pushed(old(self)@, hop@));
    }

    /// Answers a completion signal: takes out the oldest hop in flight,
    /// unchanged. A signal with nothing in flight is a broken invariant of
    /// the caller and is not admitted.
    pub fn complete(&mut self) -> (hop: Vec<i16>)
        requires
            old(self)@.len() > 0,
        ensures
            hop@ == old(self)@[0],
            final(self)@ == spec_completed(old(self)@),
    {
        let hop = self.queue.pop_front().unwrap();
        assert(self@ =~= spec_completed(old(self)@));
        hop
    }

    /// Forgets every hop in flight.
    pub fn clear(&mut self)
        ensures
            final(self)@ == Seq::<Seq<i16>>::empty(),
    {
        self.queue.clear();
        assert(self@ =~= Seq::<Seq<i16>>::empty());
    }

    /// Brings the bridge in line with the output queue: once the output
    /// reports that it holds nothing, no signal is outstanding, and what is
    /// still recorded here is stale and dropped.
    pub fn sync_with_output(&mut self, output_len: usize)
        ensures
            output_len == 0 ==> final(self)@ == Seq::<Seq<i16>>::empty(),
            output_len != 0 ==> final(self)@ == old(self)@,
    {
        if output_len == 0 {
            self.clear();
        }
    }
}

/// Queueing `hops` behind what is in flight appends them in order.
pub proof fn lemma_pushed_all(queue: Seq<Seq<i16>>, hops: Seq<Seq<i16>>)
    ensures
        spec_pushed_all(queue, hops) == queue + hops,
    decreases hops.len(),
{
    if hops.len() == 0 {
        assert(queue + hops =~= queue);
    } else {
        lemma_pushed_all(queue, hops.drop_last());
        assert(queue + hops =~= (queue + hops.drop_last()).push(hops.last()));
    }
}

/// The first `n` completions deliver the `n` oldest hops in flight, oldest
/// first, and leave the others in flight.
pub proof fn lemma_delivered_prefix(queue: Seq<Seq<i16>>, n: nat)
    requires
        n <= queue.len(),
    ensures
        spec_delivered(queue, n) == queue.subrange(0, n as int),
        spec_remaining(queue, n) == queue.subrange(n as int, queue.len() as int),
    decreases n,
{
    if n == 0 {
        assert(queue.subrange(0, 0) =~= Seq::<Seq<i16>>::empty());
        assert(queue.subrange(0, queue.len() as int) =~= queue);
    } else {
        let rest = spec_completed(queue);
        lemma_delivered_prefix(rest, (n - 1) as nat);
        assert(seq![queue[0]] + rest.subrange(0, n - 1) =~= queue.subrange(0, n as int));
        assert(rest.subrange(n - 1, rest.len() as int) =~= queue.subrange(
            n as int,
            queue.len() as int,
        ));
    }
}

/// First in, first out: hops queued on an idle bridge and then completed
/// one signal at a time come out in the order of submission, each as it
/// went in, and the bridge is idle again.
pub proof fn lemma_fifo_order(hops: Seq<Seq<i16>>)
    ensures
        spec_delivered(spec_pushed_all(Seq::empty(), hops), hops.len()) == hops,
        spec_remaining(spec_pushed_all(Seq::empty(), hops), hops.len()) == Seq::<
            Seq<i16>,
        >::empty(),
{
    let queue = spec_pushed_all(Seq::empty(), hops);
    lemma_pushed_all(Seq::empty(), hops);
    assert(Seq::<Seq<i16>>::empty() + hops =~= hops);
    lemma_delivered_prefix(queue, hops.len());
    assert(hops.subrange(0, hops.len() as int) =~= hops);
    assert(hops.subrange(hops.len() as int, hops.len() as int) =~= Seq::<Seq<i16>>::empty());
}

/// One push, one signal: after as many completions as pushes the number in
/// flight is what it was.
pub proof fn lemma_push_complete_balance(queue: Seq<Seq<i16>>, hops: Seq<Seq<i16>>)
    ensures
        spec_remaining(spec_pushed_all(queue, hops), hops.len()).len() == queue.len(),
{
    lemma_pushed_all(queue, hops);
    lemma_delivered_prefix(queue + hops, hops.len());
}

/// Hops that the output queue is kept filled to.
pub const TARGET_HOPS: usize = 48;

/// Hops of analysed audio held back before they are played.
pub const AUDIO_LAG: usize = 8;

/// Whether another hop is to be decoded and queued: the output holds two
/// sources for each hop, the samples and the completion signal, and is
/// kept below twice the target.
pub fn wants_hop(output_len: usize) -> (more: bool)
    ensures
        more == (output_len < 2 * TARGET_HOPS),
{
    output_len < 2 * TARGET_HOPS
}

/// Number of ticks in a row for which playback has been on, this one
/// counted.
pub fn playing_for_next(playing: bool, playing_for: u32) -> (ticks: u32)
    requires
        playing ==> playing_for < u32::MAX,
    ensures
        ticks == (if playing {
            playing_for + 1
        } else {
            0
        }),
{
    if playing {
        playing_for + 1
    } else {
        0
    }
}

/// What a playback tick does about the end of the track.
#[derive(Clone, Copy, Debug, PartialEq, Eq, Structural)]
pub enum TrackEnd {
    /// The track has not ended.
    Playing,
    /// Seek back to the start of the same track.
    Rewind,
    /// Pick another track of the folder.
    NextTrack,
    /// Stop playing.
    Stop,
}

/// The track has ended when the output has run dry although playback has
/// been on for more than one tick. Looping wins over shuffling, and
/// without either playback stops.
pub open spec fn spec_track_end(
    output_len: usize,
    playing_for: u32,
    loop_audio: bool,
    shuffle: bool,
) -> TrackEnd {
    if output_len == 0 && playing_for > 1 {
        if loop_audio {
            TrackEnd::Rewind
        } else if shuffle {
            TrackEnd::NextTrack
        } else {
            TrackEnd::Stop
        }
    } else {
        TrackEnd::Playing
    }
}

/// Decides what to do about the end of the track on a tick on which
/// playback is on.
pub fn track_end(output_len: usize, playing_for: u32, loop_audio: bool, shuffle: bool) -> (end:
    TrackEnd)
    ensures
        end == spec_track_end(output_len, playing_for, loop_audio, shuffle),
{
    if output_len == 0 && playing_for > 1 {
        if loop_audio {
            TrackEnd::Rewind
        } else if shuffle {
            TrackEnd::NextTrack
        } else {
            TrackEnd::Stop
        }
    } else {
        TrackEnd::Playing
    }
}

/// Whether `file` is among the tracks played of late.
pub fn was_played(history: &VecDeque<String>, file: &String) -> (played: bool)
    ensures
        played == (exists|i: int| 0 <= i < history@.len() && (#[trigger] history@[i])@ == file@),
{
    let mut i: usize = 0;
    while i < history.len()
        invariant
            i <= history@.len(),
            forall|k: int| 0 <= k < i ==> (#[trigger] history@[k])@ != file@,
        decreases history@.len() - i,
    {
        if history[i] == *file {
            return true;
        }
        i += 1;
    }
    false
}

/// Number of the oldest entries that the history of played tracks gives up
/// after a pick: the history holds less than half as many tracks as the
/// folder lists, and nothing is given up while the folder lists fewer than
/// two.
pub open spec fn spec_history_trim(history_len: nat, listed: nat) -> nat {
    if listed / 2 == 0 {
        0
    } else {
        history_len / (listed / 2)
    }
}

/// Number of the oldest entries to drop from a history of `history_len`
/// played tracks when the folder lists `listed` tracks.
pub fn history_trim(history_len: usize, listed: usize) -> (drop: usize)
    ensures
        drop == spec_history_trim(history_len as nat, listed as nat),
        drop <= history_len,
{
    let half: usize = listed / 2;
    if half == 0 {
        0
    } else {
        proof {
            assert(history_len as int / half as int <= history_len as int) by (nonlinear_arith)
                requires
                    half >= 1,
                    history_len >= 0,
            ;
        }
        history_len / half
    }
}

/// Takes from the front of `pending` the hops that are due for output,
/// oldest first, and leaves the latest `AUDIO_LAG` behind.
pub fn take_due(pending: &mut VecDeque<Vec<i16>>) -> (due: Vec<Vec<i16>>)
    ensures
        old(pending)@.len() <= AUDIO_LAG ==> due@.len() == 0 && final(pending)@ == old(pending)@,
        old(pending)@.len() > AUDIO_LAG ==> {
            &&& due@ == old(pending)@.subrange(0, old(pending)@.len() - AUDIO_LAG)
            &&& final(pending)@ == old(pending)@.subrange(
                old(pending)@.len() - AUDIO_LAG,
                old(pending)@.len() as int,
            )
        },
{
    let mut due: Vec<Vec<i16>> = Vec::new();
    assert(due@ =~= old(pending)@.subrange(0, 0));
    assert(pending@ =~= old(pending)@.subrange(0, old(pending)@.len() as int));
    while pending.len() > AUDIO_LAG
        invariant
            due@.len() + pending@.len() == old(pending)@.len(),
            due@.len() > 0 ==> pending@.len() >= AUDIO_LAG,
            due@ == old(pending)@.subrange(0, due@.len() as int),
            pending@ == old(pending)@.subrange(due@.len() as int, old(pending)@.len() as int),
        decreases pending@.len(),
    {
        let hop = pending.pop_front().unwrap();
        due.push(hop);
        assert(due@ =~= old(pending)@.subrange(0, due@.len() as int));
        assert(pending@ =~= old(pending)@.subrange(
            due@.len() as int,
            old(pending)@.len() as int,
        ));
    }
    proof {
        if old(pending)@.len() <= AUDIO_LAG {
            assert(pending@ =~= old(pending)@);
        }
    }
    due
}

} // verus!
