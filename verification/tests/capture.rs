use audio_bridge::capture::{
    capture_fifo_level, drain_capture_samples, init_ring_buffers, rust_audio_capture_callback,
    CaptureState, CAPTURE_FIFO_CAPACITY,
};
use audio_bridge::diagnostics::{diagnostics, AudioDiagnostics, EngineState};
use audio_bridge::playback::PlaybackState;

fn listening() -> CaptureState {
    let mut capture = CaptureState::new();
    let mut playback = PlaybackState::new();
    init_ring_buffers(&mut capture, &mut playback);
    capture
}

fn read(capture: &CaptureState) -> AudioDiagnostics {
    diagnostics(capture, &PlaybackState::new(), &EngineState::new())
}

#[test]
fn captured_samples_are_drained_in_order() {
    let mut c = listening();
    rust_audio_capture_callback(&mut c, &[1, 2, 3], true);
    rust_audio_capture_callback(&mut c, &[4], true);
    assert_eq!(capture_fifo_level(&c), 4);
    let mut buf = [9u32; 3];
    assert_eq!(drain_capture_samples(&mut c, &mut buf), 3);
    assert_eq!(buf, [1, 2, 3]);
    assert_eq!(drain_capture_samples(&mut c, &mut buf), 1);
    assert_eq!(buf, [4, 2, 3]);
    assert_eq!(drain_capture_samples(&mut c, &mut buf), 0);
    assert_eq!(capture_fifo_level(&c), 0);
}

#[test]
fn capture_before_setup_only_counts() {
    let mut c = CaptureState::new();
    rust_audio_capture_callback(&mut c, &[1, 2], true);
    let mut buf = [9u32; 3];
    assert_eq!(drain_capture_samples(&mut c, &mut buf), 0);
    assert_eq!(buf, [9, 9, 9]);
    let d = read(&c);
    assert_eq!(d.capture_callback_count, 1);
    assert_eq!(d.capture_samples_pushed, 0);
    assert_eq!(d.capture_fifo_lock_fail, 0);
}

#[test]
fn full_queue_drops_the_rest() {
    let mut c = listening();
    let many: Vec<u32> = (0..CAPTURE_FIFO_CAPACITY as u32 + 5).collect();
    rust_audio_capture_callback(&mut c, &many, true);
    rust_audio_capture_callback(&mut c, &[1, 2], true);
    let d = read(&c);
    assert_eq!(d.capture_samples_pushed, CAPTURE_FIFO_CAPACITY);
    assert_eq!(d.capture_samples_dropped, 7);
    assert_eq!(d.capture_fifo_level, CAPTURE_FIFO_CAPACITY);
    let mut buf = vec![0; CAPTURE_FIFO_CAPACITY];
    assert_eq!(drain_capture_samples(&mut c, &mut buf), CAPTURE_FIFO_CAPACITY);
    assert_eq!(buf, many[..CAPTURE_FIFO_CAPACITY]);
}

#[test]
fn missed_lock_drops_the_buffer() {
    let mut c = listening();
    rust_audio_capture_callback(&mut c, &[1], true);
    rust_audio_capture_callback(&mut c, &[2, 3], false);
    let d = read(&c);
    assert_eq!(d.capture_callback_count, 2);
    assert_eq!(d.capture_fifo_lock_fail, 1);
    assert_eq!(d.capture_samples_pushed, 1);
    assert_eq!(d.capture_samples_dropped, 0);
    assert_eq!(capture_fifo_level(&c), 1);
}

#[test]
fn empty_capture_is_ignored() {
    let mut c = listening();
    rust_audio_capture_callback(&mut c, &[], true);
    rust_audio_capture_callback(&mut c, &[], false);
    let d = read(&c);
    assert_eq!(d.capture_callback_count, 0);
    assert_eq!(d.capture_fifo_lock_fail, 0);
}

#[test]
fn second_setup_keeps_captured_samples() {
    let mut c = listening();
    rust_audio_capture_callback(&mut c, &[1, 2], true);
    init_ring_buffers(&mut c, &mut PlaybackState::new());
    assert_eq!(capture_fifo_level(&c), 2);
}

#[test]
fn interleaved_drains_return_each_sample_once() {
    let mut c = listening();
    let mut got = Vec::new();
    let mut buf = [99u32; 4];
    for i in 0..10u32 {
        rust_audio_capture_callback(&mut c, &[3 * i, 3 * i + 1, 3 * i + 2], true);
        rust_audio_capture_callback(&mut c, &[1000], false);
        let n = drain_capture_samples(&mut c, &mut buf[..(i % 5) as usize]);
        got.extend_from_slice(&buf[..n]);
        let d = read(&c);
        assert_eq!(d.capture_samples_pushed, d.capture_fifo_level + got.len());
    }
    while drain_capture_samples(&mut c, &mut buf) > 0 {
        got.extend_from_slice(&buf);
    }
    assert_eq!(got[..30], (0..30).collect::<Vec<u32>>()[..]);
    assert_eq!(capture_fifo_level(&c), 0);
}
