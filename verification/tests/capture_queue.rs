use audio_bridge::capture::{
    capture_fifo_level, init_ring_buffers, rust_audio_capture_callback, CaptureState,
};
use audio_bridge::capture_queue::{
    collector_tick, dispatch, is_recording, set_preroll_ms, start_recording, stop_recording, CollectorState,
    Recorder, CHUNK_CHANNEL_CAPACITY, DRAIN_BLOCK,
};
use audio_bridge::channel::SendAnswer::{self, Closed, Full, Taken};
use audio_bridge::playback::PlaybackState;

struct Bench {
    capture: CaptureState,
    recorder: Recorder,
    collector: CollectorState,
}

impl Bench {
    fn new() -> Bench {
        let mut capture = CaptureState::new();
        init_ring_buffers(&mut capture, &mut PlaybackState::new());
        Bench { capture, recorder: Recorder::new(), collector: CollectorState::new() }
    }

    fn hear(&mut self, samples: &[u32]) {
        rust_audio_capture_callback(&mut self.capture, samples, true);
    }

    fn tick(&mut self, rate: u32) -> Vec<SendAnswer> {
        collector_tick(&mut self.collector, &mut self.recorder, &mut self.capture, rate)
    }
}

fn ramp(from: u32, n: u32) -> Vec<u32> {
    (from..from + n).collect()
}

#[test]
fn preroll_comes_first_and_live_follows() {
    let mut b = Bench::new();
    b.hear(&[1, 2, 3]);
    assert_eq!(b.tick(48_000), Vec::<SendAnswer>::new());
    b.hear(&[4]);
    b.tick(48_000);
    assert_eq!(b.collector.buffered(), 4);

    assert!(!is_recording(&b.recorder));
    let mut rx = start_recording(&mut b.recorder);
    assert!(is_recording(&b.recorder));
    assert!(rx.try_recv().is_err());
    b.hear(&[5, 6]);
    assert_eq!(b.tick(48_000), vec![Taken, Taken, Taken]);
    assert_eq!(b.collector.buffered(), 0);
    b.hear(&[7]);
    assert_eq!(b.tick(48_000), vec![Taken]);
    assert_eq!(b.tick(48_000), Vec::<SendAnswer>::new());

    assert_eq!(rx.try_recv().ok(), Some(vec![1, 2, 3]));
    assert_eq!(rx.try_recv().ok(), Some(vec![4]));
    assert_eq!(rx.try_recv().ok(), Some(vec![5, 6]));
    assert_eq!(rx.try_recv().ok(), Some(vec![7]));
    assert!(rx.try_recv().is_err());

    stop_recording(&mut b.recorder);
    assert!(!is_recording(&b.recorder));
    assert!(rx.is_closed());
}

#[test]
fn window_keeps_the_newest_chunks() {
    let mut b = Bench::new();
    set_preroll_ms(&mut b.recorder, 10);
    // 10 ms at 1000 Hz are 10 samples.
    b.hear(&ramp(0, 6));
    b.tick(1000);
    assert_eq!(b.collector.buffered(), 6);
    b.hear(&ramp(6, 4));
    b.tick(1000);
    assert_eq!(b.collector.buffered(), 10);
    b.hear(&ramp(10, 1));
    b.tick(1000);
    assert_eq!(b.collector.buffered(), 5);
    let mut rx = start_recording(&mut b.recorder);
    b.tick(1000);
    assert_eq!(rx.try_recv().ok(), Some(vec![6, 7, 8, 9]));
    assert_eq!(rx.try_recv().ok(), Some(vec![10]));
}

#[test]
fn default_window_is_half_a_second() {
    let mut b = Bench::new();
    b.hear(&ramp(0, 500));
    b.tick(1000);
    assert_eq!(b.collector.buffered(), 500);
    b.hear(&[1]);
    b.tick(1000);
    assert_eq!(b.collector.buffered(), 1);
}

#[test]
fn window_of_zero_keeps_nothing() {
    let mut b = Bench::new();
    set_preroll_ms(&mut b.recorder, 0);
    b.hear(&[1, 2, 3]);
    b.tick(48_000);
    assert_eq!(b.collector.buffered(), 0);
    assert_eq!(capture_fifo_level(&b.capture), 0);
}

#[test]
fn window_while_the_rate_is_unknown() {
    let mut b = Bench::new();
    set_preroll_ms(&mut b.recorder, 1);
    b.hear(&ramp(0, 96_000));
    b.tick(0);
    assert_eq!(b.collector.buffered(), 96_000);
    b.hear(&[1]);
    b.tick(0);
    assert_eq!(b.collector.buffered(), 96_001 - DRAIN_BLOCK as u64);
}

#[test]
fn rate_is_learned_once() {
    let mut b = Bench::new();
    set_preroll_ms(&mut b.recorder, 10);
    b.tick(1000);
    b.hear(&ramp(0, 11));
    b.tick(48_000);
    assert_eq!(b.collector.buffered(), 0);
}

#[test]
fn largest_window_is_within_range() {
    let mut b = Bench::new();
    set_preroll_ms(&mut b.recorder, u32::MAX);
    b.hear(&ramp(0, 100));
    b.tick(u32::MAX);
    assert_eq!(b.collector.buffered(), 100);
}

#[test]
fn long_captures_are_cut_into_chunks() {
    let mut b = Bench::new();
    let mut rx = start_recording(&mut b.recorder);
    let all = ramp(0, 2 * DRAIN_BLOCK as u32 + 3);
    b.hear(&all);
    assert_eq!(b.tick(48_000), vec![Taken, Taken, Taken]);
    let mut got = Vec::new();
    let mut sizes = Vec::new();
    while let Ok(chunk) = rx.try_recv() {
        sizes.push(chunk.len());
        got.extend(chunk);
    }
    assert_eq!(sizes, vec![DRAIN_BLOCK, DRAIN_BLOCK, 3]);
    assert_eq!(got, all);
}

#[test]
fn window_restarts_after_recording() {
    let mut b = Bench::new();
    let rx = start_recording(&mut b.recorder);
    b.hear(&[1]);
    b.tick(48_000);
    stop_recording(&mut b.recorder);
    b.hear(&[2, 3]);
    b.tick(48_000);
    assert_eq!(b.collector.buffered(), 0);
    b.hear(&[4]);
    b.tick(48_000);
    assert_eq!(b.collector.buffered(), 1);
    assert!(rx.is_closed());
}

#[test]
fn new_recording_replaces_the_channel() {
    let mut b = Bench::new();
    let mut old = start_recording(&mut b.recorder);
    let mut new = start_recording(&mut b.recorder);
    assert!(old.is_closed());
    b.hear(&[1]);
    b.tick(48_000);
    assert!(old.try_recv().is_err());
    assert_eq!(new.try_recv().ok(), Some(vec![1]));
}

#[test]
fn slow_consumer_loses_chunks() {
    let mut b = Bench::new();
    let mut rx = start_recording(&mut b.recorder);
    for i in 0..CHUNK_CHANNEL_CAPACITY as u32 {
        b.hear(&[i]);
        assert_eq!(b.tick(48_000), vec![Taken]);
    }
    b.hear(&[1000]);
    assert_eq!(b.tick(48_000), vec![Full]);
    assert_eq!(rx.try_recv().ok(), Some(vec![0]));
    b.hear(&[1001]);
    assert_eq!(b.tick(48_000), vec![Taken]);
    for i in 1..CHUNK_CHANNEL_CAPACITY as u32 {
        assert_eq!(rx.try_recv().ok(), Some(vec![i]));
    }
    assert_eq!(rx.try_recv().ok(), Some(vec![1001]));
}

#[test]
fn absent_consumer_loses_chunks() {
    let mut b = Bench::new();
    let rx = start_recording(&mut b.recorder);
    drop(rx);
    b.hear(&[1]);
    assert_eq!(b.tick(48_000), vec![Closed]);
    assert_eq!(b.collector.buffered(), 0);
    assert!(is_recording(&b.recorder));
}

#[test]
fn recording_is_the_end_of_all_that_was_heard() {
    let mut b = Bench::new();
    set_preroll_ms(&mut b.recorder, 10);
    for i in 0..20 {
        b.hear(&ramp(3 * i, 3));
        b.tick(1000);
    }
    assert_eq!(b.collector.buffered(), 9);
    let mut rx = start_recording(&mut b.recorder);
    for i in 20..23 {
        b.hear(&ramp(3 * i, 3));
        assert!(b.tick(1000).iter().all(|answer| *answer == Taken));
    }
    let mut got = Vec::new();
    while let Ok(chunk) = rx.try_recv() {
        got.extend(chunk);
    }
    assert_eq!(got, ramp(51, 18));
}

#[test]
fn no_sample_is_offered_twice() {
    let mut b = Bench::new();
    let mut next: u32 = 0;
    let mut got = Vec::new();
    for _ in 0..3 {
        for _ in 0..2 {
            b.hear(&ramp(next, 5));
            next += 5;
            b.tick(1000);
        }
        let mut rx = start_recording(&mut b.recorder);
        for _ in 0..2 {
            b.hear(&ramp(next, 5));
            next += 5;
            b.tick(1000);
        }
        stop_recording(&mut b.recorder);
        while let Ok(chunk) = rx.try_recv() {
            assert!(!chunk.is_empty());
            got.extend(chunk);
        }
    }
    assert!(got.windows(2).all(|pair| pair[0] < pair[1]));
    // The first idle tick after a recording throws its five samples away.
    let mut expected: Vec<u32> = ramp(0, 20);
    expected.extend(ramp(25, 15));
    expected.extend(ramp(45, 15));
    assert_eq!(got, expected);
}

#[test]
fn replaced_channel_gets_nothing_more() {
    let mut b = Bench::new();
    let mut old = start_recording(&mut b.recorder);
    b.hear(&[1]);
    b.tick(48_000);
    let mut new = start_recording(&mut b.recorder);
    for i in 2..5 {
        b.hear(&[i]);
        b.tick(48_000);
    }
    assert_eq!(old.try_recv().ok(), Some(vec![1]));
    assert!(old.try_recv().is_err());
    assert_eq!(new.try_recv().ok(), Some(vec![2]));
    stop_recording(&mut b.recorder);
    b.hear(&[9]);
    assert_eq!(b.tick(48_000), Vec::<SendAnswer>::new());
    assert_eq!(new.try_recv().ok(), Some(vec![3]));
    assert_eq!(new.try_recv().ok(), Some(vec![4]));
    assert!(new.try_recv().is_err());
}

#[test]
fn two_halves_make_a_tick() {
    let mut b = Bench::new();
    b.hear(&[1, 2]);
    b.collector.drain_spsc(&mut b.capture);
    assert_eq!(capture_fifo_level(&b.capture), 0);
    b.hear(&[3]);
    assert_eq!(dispatch(&mut b.collector, &mut b.recorder, 48_000), Vec::<SendAnswer>::new());
    assert_eq!(b.collector.buffered(), 2);
    let mut rx = start_recording(&mut b.recorder);
    b.collector.drain_spsc(&mut b.capture);
    assert_eq!(dispatch(&mut b.collector, &mut b.recorder, 48_000), vec![Taken, Taken]);
    assert_eq!(rx.try_recv().ok(), Some(vec![1, 2]));
    assert_eq!(rx.try_recv().ok(), Some(vec![3]));
}

#[test]
fn short_recording_waits_for_a_slow_consumer() {
    let mut b = Bench::new();
    let mut rx = start_recording(&mut b.recorder);
    for i in 0..CHUNK_CHANNEL_CAPACITY as u32 {
        b.hear(&[i]);
        assert_eq!(b.tick(48_000), vec![Taken]);
    }
    stop_recording(&mut b.recorder);
    let mut got = Vec::new();
    while let Ok(chunk) = rx.try_recv() {
        got.extend(chunk);
    }
    assert_eq!(got, ramp(0, CHUNK_CHANNEL_CAPACITY as u32));
}

#[test]
fn offering_goes_on_after_a_full_answer() {
    let mut b = Bench::new();
    let mut rx = start_recording(&mut b.recorder);
    for i in 0..CHUNK_CHANNEL_CAPACITY as u32 + 5 {
        b.hear(&[i]);
        b.tick(48_000);
    }
    for _ in 0..3 {
        rx.try_recv().unwrap();
    }
    let long = ramp(10_000, 4 * DRAIN_BLOCK as u32);
    b.hear(&long);
    assert_eq!(b.tick(48_000), vec![Taken, Taken, Taken, Full]);
    drop(rx);
    b.hear(&[1]);
    assert_eq!(b.tick(48_000), vec![Closed]);
    b.hear(&[2]);
    assert_eq!(b.tick(48_000), vec![Closed]);
}

#[test]
fn stopping_twice_is_harmless() {
    let mut b = Bench::new();
    stop_recording(&mut b.recorder);
    assert!(!is_recording(&b.recorder));
    let mut rx = start_recording(&mut b.recorder);
    b.hear(&[1]);
    b.tick(48_000);
    stop_recording(&mut b.recorder);
    stop_recording(&mut b.recorder);
    assert!(!is_recording(&b.recorder));
    assert_eq!(rx.try_recv().ok(), Some(vec![1]));
    assert_eq!(rx.try_recv(), Err(tokio::sync::mpsc::error::TryRecvError::Disconnected));
}
