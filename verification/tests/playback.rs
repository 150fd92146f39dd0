use audio_bridge::capture::{init_ring_buffers, CaptureState};
use audio_bridge::playback::{
    begin_playback_turn, clear_playback_buffer, is_playback_paused, mark_playback_all_pushed,
    ms_since_last_playback_pull, ms_since_playback_drained, pause_playback, playback_level,
    playback_sentence_progress, push_playback_samples, push_playback_samples_all,
    register_sentence_boundary, resume_playback, rust_audio_render_callback, PlaybackState,
    PushProgress, SentenceProgress, PLAYBACK_RING_CAPACITY, PUSH_BLOCK,
};

fn ready() -> PlaybackState {
    let mut capture = CaptureState::new();
    let mut playback = PlaybackState::new();
    init_ring_buffers(&mut capture, &mut playback);
    playback
}

fn render(playback: &mut PlaybackState, frames: usize, now: u64) -> (u32, Vec<u32>) {
    let mut out = vec![77; frames];
    let read = rust_audio_render_callback(playback, &mut out, true, now);
    (read, out)
}

fn progress(sentence_index: u32, played: usize, length: usize) -> SentenceProgress {
    SentenceProgress { sentence_index, played, length }
}

#[test]
fn samples_are_played_in_order() {
    let mut p = ready();
    assert_eq!(push_playback_samples(&mut p, &[1, 2, 3]), 3);
    assert_eq!(push_playback_samples(&mut p, &[4, 5]), 2);
    assert_eq!(playback_level(&p), 5);
    assert_eq!(render(&mut p, 2, 1), (2, vec![1, 2]));
    assert_eq!(render(&mut p, 6, 2), (3, vec![3, 4, 5, 0, 0, 0]));
    assert_eq!(playback_level(&p), 0);
}

#[test]
fn sample_bits_survive() {
    let mut p = ready();
    let samples = [0.5f32, -1.0, f32::MIN_POSITIVE, -0.0];
    let bits: Vec<u32> = samples.iter().map(|s| s.to_bits()).collect();
    push_playback_samples(&mut p, &bits);
    let (read, out) = render(&mut p, 5, 1);
    assert_eq!(read, 4);
    for i in 0..4 {
        assert_eq!(f32::from_bits(out[i]).to_bits(), samples[i].to_bits());
    }
    assert_eq!(f32::from_bits(out[4]), 0.0);
}

#[test]
fn push_before_setup_takes_nothing() {
    let mut p = PlaybackState::new();
    assert_eq!(push_playback_samples(&mut p, &[1, 2]), 0);
    assert_eq!(push_playback_samples_all(&mut p, &[1, 2], 0, false), PushProgress::Done(0));
    assert_eq!(playback_level(&p), 0);
    assert_eq!(render(&mut p, 2, 1), (0, vec![0, 0]));
    clear_playback_buffer(&mut p);
    assert_eq!(playback_level(&p), 0);
}

#[test]
fn second_setup_keeps_queue() {
    let mut capture = CaptureState::new();
    let mut p = ready();
    push_playback_samples(&mut p, &[1, 2]);
    init_ring_buffers(&mut capture, &mut p);
    assert_eq!(playback_level(&p), 2);
    assert_eq!(render(&mut p, 2, 1), (2, vec![1, 2]));
}

#[test]
fn push_stops_when_full() {
    let mut p = ready();
    let many: Vec<u32> = (0..PLAYBACK_RING_CAPACITY as u32 + 10).collect();
    assert_eq!(push_playback_samples(&mut p, &many), PLAYBACK_RING_CAPACITY);
    assert_eq!(push_playback_samples(&mut p, &[1]), 0);
    assert_eq!(playback_level(&p), PLAYBACK_RING_CAPACITY);
    let (read, out) = render(&mut p, PLAYBACK_RING_CAPACITY, 1);
    assert_eq!(read as usize, PLAYBACK_RING_CAPACITY);
    assert_eq!(out, many[..PLAYBACK_RING_CAPACITY]);
}

fn push_all(p: &mut PlaybackState, samples: &[u32], from: usize) -> PushProgress {
    let mut written = from;
    loop {
        match push_playback_samples_all(p, samples, written, false) {
            PushProgress::More(n) => {
                assert_eq!(n, written + PUSH_BLOCK);
                written = n
            }
            other => return other,
        }
    }
}

#[test]
fn push_all_waits_for_room() {
    let mut p = ready();
    let full = PLAYBACK_RING_CAPACITY;
    let many: Vec<u32> = (0..full as u32 + 10).collect();
    assert_eq!(
        push_playback_samples_all(&mut p, &many, 0, false),
        PushProgress::More(PUSH_BLOCK)
    );
    assert_eq!(push_all(&mut p, &many, PUSH_BLOCK), PushProgress::Wait(full));
    assert_eq!(push_all(&mut p, &many, full), PushProgress::Wait(full));
    let (_, first) = render(&mut p, 100, 1);
    assert_eq!(first, many[..100]);
    assert_eq!(push_all(&mut p, &many, full), PushProgress::Done(many.len()));
    let (_, rest) = render(&mut p, many.len() - 100, 2);
    assert_eq!(rest, many[100..]);
    assert_eq!(push_all(&mut p, &[], 0), PushProgress::Done(0));
}

#[test]
fn push_all_ends_at_a_poisoned_lock() {
    let mut p = ready();
    assert_eq!(push_playback_samples_all(&mut p, &[1, 2, 3], 1, true), PushProgress::Done(1));
    assert_eq!(playback_level(&p), 0);
}

#[test]
fn callback_without_frames_does_nothing() {
    let mut p = ready();
    push_playback_samples(&mut p, &[1]);
    let mut out: [u32; 0] = [];
    assert_eq!(rust_audio_render_callback(&mut p, &mut out, true, 5), 0);
    assert_eq!(ms_since_last_playback_pull(&p, 9), u64::MAX);
    assert_eq!(playback_level(&p), 1);
}

#[test]
fn missed_lock_plays_silence() {
    let mut p = ready();
    push_playback_samples(&mut p, &[1, 2]);
    let mut out = [7u32; 2];
    assert_eq!(rust_audio_render_callback(&mut p, &mut out, false, 5), 0);
    assert_eq!(out, [0, 0]);
    assert_eq!(playback_level(&p), 2);
    assert_eq!(render(&mut p, 2, 6), (2, vec![1, 2]));
}

#[test]
fn pause_keeps_samples() {
    let mut p = ready();
    push_playback_samples(&mut p, &[1, 2, 3]);
    assert_eq!(render(&mut p, 1, 1), (1, vec![1]));
    assert!(!is_playback_paused(&p));
    pause_playback(&mut p);
    assert!(is_playback_paused(&p));
    assert_eq!(render(&mut p, 2, 2), (0, vec![0, 0]));
    assert_eq!(playback_level(&p), 2);
    resume_playback(&mut p);
    assert_eq!(render(&mut p, 2, 3), (2, vec![2, 3]));
}

#[test]
fn paused_turn_does_not_drain() {
    let mut p = ready();
    mark_playback_all_pushed(&mut p);
    pause_playback(&mut p);
    render(&mut p, 4, 10);
    assert_eq!(ms_since_playback_drained(&p, 20), None);
    resume_playback(&mut p);
    render(&mut p, 4, 2_000_000);
    assert_eq!(ms_since_playback_drained(&p, 5_000_000), Some(3));
}

#[test]
fn clear_discards_and_resumes() {
    let mut p = ready();
    let many: Vec<u32> = (0..10_000).collect();
    push_playback_samples(&mut p, &many);
    pause_playback(&mut p);
    clear_playback_buffer(&mut p);
    assert_eq!(playback_level(&p), 0);
    assert!(!is_playback_paused(&p));
    assert_eq!(render(&mut p, 2, 1), (0, vec![0, 0]));
    assert_eq!(push_playback_samples(&mut p, &[5]), 1);
    assert_eq!(render(&mut p, 2, 2), (1, vec![5, 0]));
}

#[test]
fn drain_is_detected_once() {
    let mut p = ready();
    begin_playback_turn(&mut p);
    push_playback_samples(&mut p, &[1, 2]);
    assert_eq!(ms_since_playback_drained(&p, 1), None);
    mark_playback_all_pushed(&mut p);
    render(&mut p, 4, 1_000_000);
    assert_eq!(ms_since_playback_drained(&p, 2_000_000), None);
    render(&mut p, 4, 3_000_000);
    assert_eq!(ms_since_playback_drained(&p, 3_500_000), Some(0));
    render(&mut p, 4, 9_000_000);
    assert_eq!(ms_since_playback_drained(&p, 10_000_000), Some(7));
    assert_eq!(ms_since_playback_drained(&p, 1_000_000), Some(0));
    assert_eq!(ms_since_last_playback_pull(&p, 10_000_000), 9);
    begin_playback_turn(&mut p);
    assert_eq!(ms_since_playback_drained(&p, 11_000_000), None);
}

#[test]
fn empty_queue_alone_is_not_drained() {
    let mut p = ready();
    begin_playback_turn(&mut p);
    render(&mut p, 4, 1_000_000);
    mark_playback_all_pushed(&mut p);
    assert_eq!(ms_since_playback_drained(&p, 2_000_000), None);
}

#[test]
fn missed_callback_does_not_drain() {
    let mut p = ready();
    mark_playback_all_pushed(&mut p);
    let mut out = [0u32; 4];
    rust_audio_render_callback(&mut p, &mut out, false, 1_000_000);
    assert_eq!(ms_since_playback_drained(&p, 2_000_000), None);
}

#[test]
fn time_of_the_last_pull() {
    let mut p = ready();
    assert_eq!(ms_since_last_playback_pull(&p, 5), u64::MAX);
    push_playback_samples(&mut p, &[1]);
    render(&mut p, 1, 0);
    assert_eq!(ms_since_last_playback_pull(&p, 1_999_999), 1);
    render(&mut p, 1, 7_000_000);
    assert_eq!(ms_since_last_playback_pull(&p, 2_000_000), 2);
}

#[test]
fn sentence_progress_follows_playback() {
    let mut p = ready();
    begin_playback_turn(&mut p);
    assert_eq!(playback_sentence_progress(&p), progress(0, 0, 0));
    register_sentence_boundary(&mut p, 0);
    push_playback_samples(&mut p, &[1; 4]);
    register_sentence_boundary(&mut p, 1);
    push_playback_samples(&mut p, &[2; 6]);
    assert_eq!(playback_sentence_progress(&p), progress(0, 0, 0));
    render(&mut p, 3, 1);
    assert_eq!(playback_sentence_progress(&p), progress(0, 3, 4));
    render(&mut p, 1, 2);
    assert_eq!(playback_sentence_progress(&p), progress(1, 0, 6));
    render(&mut p, 5, 3);
    assert_eq!(playback_sentence_progress(&p), progress(1, 5, 6));
    mark_playback_all_pushed(&mut p);
    render(&mut p, 9, 4);
    assert_eq!(playback_sentence_progress(&p), progress(1, 6, 6));
    begin_playback_turn(&mut p);
    assert_eq!(playback_sentence_progress(&p), progress(0, 0, 0));
}

#[test]
fn nothing_plays_before_the_first_pull() {
    let mut p = ready();
    register_sentence_boundary(&mut p, 3);
    register_sentence_boundary(&mut p, 4);
    push_playback_samples(&mut p, &[1; 4]);
    assert_eq!(playback_sentence_progress(&p), progress(0, 0, 0));
    render(&mut p, 1, 1);
    assert_eq!(playback_sentence_progress(&p), progress(4, 1, 4));
}

#[test]
fn leftovers_of_a_turn_count_as_played() {
    let mut p = ready();
    push_playback_samples(&mut p, &[1; 5]);
    begin_playback_turn(&mut p);
    register_sentence_boundary(&mut p, 0);
    push_playback_samples(&mut p, &[2; 3]);
    render(&mut p, 5, 1);
    assert_eq!(playback_sentence_progress(&p), progress(0, 3, 3));
    assert_eq!(playback_level(&p), 3);
}

#[test]
fn sentence_that_starts_late_has_no_progress() {
    let mut p = ready();
    push_playback_samples(&mut p, &[1; 5]);
    register_sentence_boundary(&mut p, 2);
    push_playback_samples(&mut p, &[2; 3]);
    render(&mut p, 2, 1);
    assert_eq!(playback_sentence_progress(&p), progress(2, 0, 3));
}

#[test]
fn sentence_without_samples_has_no_length() {
    let mut p = ready();
    push_playback_samples(&mut p, &[1; 2]);
    register_sentence_boundary(&mut p, 5);
    render(&mut p, 2, 1);
    assert_eq!(playback_sentence_progress(&p), progress(5, 0, 0));
}

#[test]
fn interleaved_turn_is_first_in_first_out() {
    let mut p = ready();
    push_playback_samples(&mut p, &[1, 2]);
    let (_, a) = render(&mut p, 1, 1);
    pause_playback(&mut p);
    push_playback_samples(&mut p, &[3, 4, 5]);
    assert_eq!(render(&mut p, 3, 2), (0, vec![0, 0, 0]));
    resume_playback(&mut p);
    let mut missed = [9u32; 2];
    rust_audio_render_callback(&mut p, &mut missed, false, 3);
    assert_eq!(missed, [0, 0]);
    let (_, b) = render(&mut p, 2, 4);
    push_playback_samples(&mut p, &[6]);
    mark_playback_all_pushed(&mut p);
    let (read, c) = render(&mut p, 3, 5);
    assert_eq!(read, 3);
    assert_eq!([a, b, c].concat(), vec![1, 2, 3, 4, 5, 6]);
    assert_eq!(playback_level(&p), 0);
}

#[test]
fn turns_share_one_queue() {
    let mut p = ready();
    push_playback_samples(&mut p, &[1, 2, 3]);
    let (_, a) = render(&mut p, 1, 1);
    begin_playback_turn(&mut p);
    push_playback_samples(&mut p, &[4, 5]);
    let (_, b) = render(&mut p, 3, 2);
    begin_playback_turn(&mut p);
    assert_eq!(playback_level(&p), 1);
    let (_, c) = render(&mut p, 1, 3);
    assert_eq!([a, b, c].concat(), vec![1, 2, 3, 4, 5]);
}

#[test]
fn level_is_pushed_less_played_less_discarded() {
    let mut p = ready();
    let pushed = push_playback_samples(&mut p, &[1; 10]);
    let (played, _) = render(&mut p, 3, 1);
    assert_eq!(playback_level(&p), pushed - played as usize);
    clear_playback_buffer(&mut p);
    push_playback_samples(&mut p, &[2; 4]);
    pause_playback(&mut p);
    register_sentence_boundary(&mut p, 1);
    mark_playback_all_pushed(&mut p);
    assert_eq!(playback_level(&p), 10 + 4 - 3 - 7);
    begin_playback_turn(&mut p);
    assert_eq!(render(&mut p, 1, 2), (1, vec![2]));
    assert_eq!(playback_level(&p), 3);
}

#[test]
fn long_pause_keeps_samples() {
    let mut p = ready();
    resume_playback(&mut p);
    push_playback_samples(&mut p, &[1, 2, 3]);
    render(&mut p, 1, 1);
    pause_playback(&mut p);
    for now in 2..20 {
        assert_eq!(render(&mut p, 2, now), (0, vec![0, 0]));
    }
    push_playback_samples(&mut p, &[4]);
    assert_eq!(playback_level(&p), 3);
    resume_playback(&mut p);
    assert_eq!(render(&mut p, 3, 30), (3, vec![2, 3, 4]));
}

#[test]
fn drain_belongs_to_its_turn() {
    let mut p = ready();
    mark_playback_all_pushed(&mut p);
    render(&mut p, 1, 1_000_000);
    assert_eq!(ms_since_playback_drained(&p, 3_000_000), Some(2));
    begin_playback_turn(&mut p);
    render(&mut p, 1, 4_000_000);
    assert_eq!(ms_since_playback_drained(&p, 5_000_000), None);
    mark_playback_all_pushed(&mut p);
    assert_eq!(ms_since_playback_drained(&p, 6_000_000), None);
    push_playback_samples(&mut p, &[1]);
    render(&mut p, 1, 7_000_000);
    assert_eq!(ms_since_playback_drained(&p, 8_000_000), None);
    render(&mut p, 1, 9_000_000);
    render(&mut p, 1, 11_000_000);
    assert_eq!(ms_since_playback_drained(&p, 12_000_000), Some(3));
}

#[test]
fn last_pull_survives_what_pulls_nothing() {
    let mut p = ready();
    push_playback_samples(&mut p, &[1, 2, 3]);
    render(&mut p, 1, 1_000_000);
    render(&mut p, 1, 2_000_000);
    pause_playback(&mut p);
    render(&mut p, 1, 3_000_000);
    clear_playback_buffer(&mut p);
    render(&mut p, 1, 4_000_000);
    begin_playback_turn(&mut p);
    assert_eq!(ms_since_last_playback_pull(&p, 7_000_000), 5);
}

#[test]
fn progress_never_goes_back() {
    let mut p = ready();
    begin_playback_turn(&mut p);
    register_sentence_boundary(&mut p, 7);
    push_playback_samples(&mut p, &[1; 3]);
    register_sentence_boundary(&mut p, 8);
    push_playback_samples(&mut p, &[2; 2]);
    register_sentence_boundary(&mut p, 9);
    let seen: Vec<SentenceProgress> = (0..6)
        .map(|now| {
            let at = playback_sentence_progress(&p);
            render(&mut p, 1, now);
            at
        })
        .collect();
    assert_eq!(
        seen,
        vec![
            progress(0, 0, 0),
            progress(7, 1, 3),
            progress(7, 2, 3),
            progress(8, 0, 2),
            progress(8, 1, 2),
            progress(9, 0, 0),
        ]
    );
}
