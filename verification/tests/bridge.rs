use led_curtain::audio::{
    history_trim, playing_for_next, take_due, track_end, wants_hop, was_played, SyncBridge,
    TrackEnd, AUDIO_LAG, TARGET_HOPS,
};
use std::collections::VecDeque;

#[test]
fn hops_come_out_in_submission_order() {
    let h1: Vec<i16> = vec![1, -2, 3];
    let h2: Vec<i16> = vec![4, 5, -6];
    let h3: Vec<i16> = vec![i16::MAX, i16::MIN, 0];
    let mut bridge = SyncBridge::new();
    assert!(bridge.is_empty());
    bridge.push(h1.clone());
    bridge.push(h2.clone());
    bridge.push(h3.clone());
    assert_eq!(bridge.len(), 3);
    assert_eq!(bridge.complete(), h1);
    assert_eq!(bridge.complete(), h2);
    assert_eq!(bridge.complete(), h3);
    assert!(bridge.is_empty());
}

#[test]
fn pushes_and_completions_may_interleave() {
    let mut bridge = SyncBridge::new();
    bridge.push(vec![1]);
    bridge.push(vec![2]);
    assert_eq!(bridge.complete(), vec![1]);
    bridge.push(vec![3]);
    assert_eq!(bridge.len(), 2);
    assert_eq!(bridge.complete(), vec![2]);
    assert_eq!(bridge.complete(), vec![3]);
    assert_eq!(bridge.len(), 0);
}

#[test]
fn an_empty_output_clears_the_bridge() {
    let mut bridge = SyncBridge::new();
    bridge.push(vec![1]);
    bridge.push(vec![2]);
    bridge.sync_with_output(4);
    assert_eq!(bridge.len(), 2);
    bridge.sync_with_output(0);
    assert!(bridge.is_empty());
    bridge.push(vec![9]);
    bridge.clear();
    assert!(bridge.is_empty());
}

#[test]
fn output_is_filled_to_twice_the_target() {
    assert_eq!(TARGET_HOPS, 48);
    assert!(wants_hop(0));
    assert!(wants_hop(95));
    assert!(!wants_hop(96));
    assert!(!wants_hop(1000));
}

#[test]
fn playing_ticks_are_counted() {
    assert_eq!(playing_for_next(true, 0), 1);
    assert_eq!(playing_for_next(true, 41), 42);
    assert_eq!(playing_for_next(false, 41), 0);
    assert_eq!(playing_for_next(false, u32::MAX), 0);
}

#[test]
fn end_of_track_decision() {
    assert_eq!(track_end(0, 2, true, true), TrackEnd::Rewind);
    assert_eq!(track_end(0, 2, true, false), TrackEnd::Rewind);
    assert_eq!(track_end(0, 2, false, true), TrackEnd::NextTrack);
    assert_eq!(track_end(0, 2, false, false), TrackEnd::Stop);
    assert_eq!(track_end(0, 1, false, false), TrackEnd::Playing);
    assert_eq!(track_end(0, 0, true, true), TrackEnd::Playing);
    assert_eq!(track_end(1, 9, true, true), TrackEnd::Playing);
}

#[test]
fn history_of_played_tracks() {
    let mut history: VecDeque<String> = VecDeque::new();
    assert!(!was_played(&history, &"a.wav".to_string()));
    history.push_back("a.wav".to_string());
    history.push_back("b.wav".to_string());
    assert!(was_played(&history, &"a.wav".to_string()));
    assert!(was_played(&history, &"b.wav".to_string()));
    assert!(!was_played(&history, &"c.wav".to_string()));
    assert!(!was_played(&history, &"a.wa".to_string()));
}

#[test]
fn history_gives_up_its_oldest() {
    assert_eq!(history_trim(3, 10), 0);
    assert_eq!(history_trim(4, 10), 0);
    assert_eq!(history_trim(5, 10), 1);
    assert_eq!(history_trim(11, 10), 2);
    assert_eq!(history_trim(7, 1), 0);
    assert_eq!(history_trim(7, 0), 0);
    assert_eq!(history_trim(7, 2), 7);
    assert_eq!(history_trim(7, 3), 7);
    assert_eq!(history_trim(0, 8), 0);
}

#[test]
fn analysed_audio_lags_by_eight_hops() {
    assert_eq!(AUDIO_LAG, 8);
    let mut pending: VecDeque<Vec<i16>> = (0..11).map(|k| vec![k as i16]).collect();
    let due = take_due(&mut pending);
    assert_eq!(due, vec![vec![0i16], vec![1], vec![2]]);
    assert_eq!(pending.len(), 8);
    assert_eq!(pending[0], vec![3i16]);
    assert_eq!(pending[7], vec![10i16]);
    let due = take_due(&mut pending);
    assert!(due.is_empty());
    assert_eq!(pending.len(), 8);
    let mut few: VecDeque<Vec<i16>> = (0..3).map(|k| vec![k as i16]).collect();
    assert!(take_due(&mut few).is_empty());
    assert_eq!(few.len(), 3);
}
