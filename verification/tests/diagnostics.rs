use audio_bridge::capture::{
    capture_fifo_level, init_ring_buffers, rust_audio_capture_callback, CaptureState,
};
use audio_bridge::diagnostics::{
    diagnostics, rust_audio_report_engine_config, rust_audio_report_engine_running,
    AudioDiagnostics, EngineState,
};
use audio_bridge::playback::{
    push_playback_samples, rust_audio_render_callback, PlaybackState,
};

#[test]
fn diagnostics_display() {
    let d = AudioDiagnostics {
        capture_callback_count: 100,
        capture_samples_pushed: 50000,
        capture_samples_dropped: 200,
        capture_fifo_lock_fail: 1,
        capture_fifo_level: 2400,
        render_callback_count: 80,
        render_samples_pulled: 40000,
        render_lock_fail: 0,
        playback_level: 1000,
        engine_hw_rate: 48000,
        engine_pb_rate: 24000,
        engine_upsample_ratio: 2,
        engine_running: true,
        engine_build_count: 1,
    };
    let s = d.to_string();
    assert!(s.contains("capture("));
    assert!(s.contains("render("));
    assert!(s.contains("pushed=50000"));
    assert!(s.contains("engine(hw=48000Hz pb=24000Hz ratio=2 running=true builds=1)"));
    assert_eq!(
        s,
        "capture(cb=100 pushed=50000 dropped=200 fifo_lvl=2400 fifo_lockfail=1) \
         render(cb=80 pulled=40000 lockfail=0) \
         playback_lvl=1000 engine(hw=48000Hz pb=24000Hz ratio=2 running=true builds=1)"
    );
}

#[test]
fn diagnostics_line_of_extreme_numbers() {
    let d = AudioDiagnostics {
        capture_callback_count: 0,
        capture_samples_pushed: 9,
        capture_samples_dropped: 10,
        capture_fifo_lock_fail: 99,
        capture_fifo_level: 101,
        render_callback_count: usize::MAX,
        render_samples_pulled: 1_000_000,
        render_lock_fail: 7,
        playback_level: 0,
        engine_hw_rate: 0,
        engine_pb_rate: 0,
        engine_upsample_ratio: 0,
        engine_running: false,
        engine_build_count: 0,
    };
    assert_eq!(
        d.to_string(),
        format!(
            "capture(cb=0 pushed=9 dropped=10 fifo_lvl=101 fifo_lockfail=99) \
             render(cb={} pulled=1000000 lockfail=7) \
             playback_lvl=0 engine(hw=0Hz pb=0Hz ratio=0 running=false builds=0)",
            usize::MAX
        )
    );
}

#[test]
fn diagnostics_reads_all_counters() {
    let mut capture = CaptureState::new();
    let mut playback = PlaybackState::new();
    let mut engine = EngineState::new();
    init_ring_buffers(&mut capture, &mut playback);

    rust_audio_capture_callback(&mut capture, &[1, 2, 3], true);
    rust_audio_capture_callback(&mut capture, &[4], false);
    assert_eq!(push_playback_samples(&mut playback, &[5, 6, 7, 8]), 4);
    let mut out = [9u32; 3];
    assert_eq!(rust_audio_render_callback(&mut playback, &mut out, true, 1), 3);
    assert_eq!(rust_audio_render_callback(&mut playback, &mut out, false, 2), 0);
    assert_eq!(rust_audio_report_engine_config(&mut engine, 44_100, 24_000, 2), Some(24_000));
    rust_audio_report_engine_running(&mut engine, 1);

    assert_eq!(capture_fifo_level(&capture), 3);
    assert_eq!(
        diagnostics(&capture, &playback, &engine),
        AudioDiagnostics {
            capture_callback_count: 2,
            capture_samples_pushed: 3,
            capture_samples_dropped: 0,
            capture_fifo_lock_fail: 1,
            capture_fifo_level: 3,
            render_callback_count: 2,
            render_samples_pulled: 3,
            render_lock_fail: 1,
            playback_level: 1,
            engine_hw_rate: 44_100,
            engine_pb_rate: 24_000,
            engine_upsample_ratio: 2,
            engine_running: true,
            engine_build_count: 1,
        }
    );
}

#[test]
fn engine_reports_are_kept() {
    let mut engine = EngineState::new();
    assert_eq!(rust_audio_report_engine_config(&mut engine, 48_000, 0, 1), None);
    assert_eq!(engine.hw_sample_rate, 48_000);
    assert_eq!(engine.build_count, 1);
    assert!(!engine.running);
    rust_audio_report_engine_running(&mut engine, 7);
    assert!(engine.running);
    rust_audio_report_engine_running(&mut engine, 0);
    assert!(!engine.running);
    assert_eq!(rust_audio_report_engine_config(&mut engine, 96_000, 22_050, 4), Some(22_050));
    assert_eq!(engine.build_count, 2);
    assert_eq!(engine.upsample_ratio, 4);
}

#[test]
fn last_engine_report_counts() {
    let capture = CaptureState::new();
    let playback = PlaybackState::new();
    let mut engine = EngineState::new();
    rust_audio_report_engine_config(&mut engine, 44_100, 24_000, 2);
    rust_audio_report_engine_running(&mut engine, 1);
    rust_audio_report_engine_config(&mut engine, 48_000, 16_000, 3);
    rust_audio_report_engine_running(&mut engine, 0);
    let d = diagnostics(&capture, &playback, &engine);
    assert_eq!(d, diagnostics(&capture, &playback, &engine));
    assert_eq!((d.engine_hw_rate, d.engine_pb_rate, d.engine_upsample_ratio), (48_000, 16_000, 3));
    assert_eq!(d.engine_build_count, 2);
    assert!(!d.engine_running);
}
