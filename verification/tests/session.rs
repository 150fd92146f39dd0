use audio_bridge::capture::{init_ring_buffers, rust_audio_capture_callback, CaptureState};
use audio_bridge::capture_queue::{collector_tick, CollectorState, Recorder};
use audio_bridge::diagnostics::EngineState;
use audio_bridge::error::Error;
use audio_bridge::models::{AudioChunk, SessionConfig, SessionState};
use audio_bridge::playback::{
    playback_level, push_playback_samples, rust_audio_render_callback, PlaybackState,
    PLAYBACK_RING_CAPACITY,
};
use audio_bridge::session::{Audio, SessionAction, SessionPhase};

fn engine(running: bool) -> EngineState {
    let mut engine = EngineState::new();
    engine.running = running;
    engine.hw_sample_rate = 44_100;
    engine
}

fn replies_ok(action: &SessionAction) -> bool {
    matches!(action, SessionAction::Reply(Ok(r)) if r.success)
}

fn started() -> Audio {
    let mut audio = Audio::new();
    let mut recorder = Recorder::new();
    audio.init_session(&mut recorder, &SessionConfig::default(), false);
    audio.thread_spawned(None);
    audio.engine_checked(&engine(true));
    assert!(replies_ok(&audio.engine_checked(&engine(true))));
    audio
}

#[test]
fn session_starts() {
    let mut audio = Audio::new();
    let mut recorder = Recorder::new();
    let action = audio.init_session(&mut recorder, &SessionConfig::default(), false);
    assert!(matches!(action, SessionAction::SpawnThread { playback_sample_rate: 24_000 }));
    let action = audio.thread_spawned(None);
    assert!(matches!(action, SessionAction::CheckEngine { after_ms: 0 }));
    let action = audio.engine_checked(&engine(false));
    assert!(matches!(action, SessionAction::CheckEngine { after_ms: 20 }));
    let action = audio.engine_checked(&engine(true));
    assert!(matches!(action, SessionAction::CheckEngine { after_ms: 0 }));
    assert!(!audio.active);
    assert!(replies_ok(&audio.engine_checked(&engine(true))));
    assert!(audio.active);
    assert_eq!(audio.phase, SessionPhase::Idle);
    assert_eq!(audio.capture_sample_rate, 44_100);
}

#[test]
fn starting_configures_the_preroll() {
    let mut audio = Audio::new();
    let mut recorder = Recorder::new();
    let mut config = SessionConfig::default();
    config.preroll_ms = 10;
    audio.init_session(&mut recorder, &config, false);

    let mut capture = CaptureState::new();
    init_ring_buffers(&mut capture, &mut PlaybackState::new());
    let mut collector = CollectorState::new();
    rust_audio_capture_callback(&mut capture, &[1; 11], true);
    collector_tick(&mut collector, &mut recorder, &mut capture, 1000);
    assert_eq!(collector.buffered(), 0);
    rust_audio_capture_callback(&mut capture, &[1; 10], true);
    collector_tick(&mut collector, &mut recorder, &mut capture, 1000);
    assert_eq!(collector.buffered(), 10);
}

#[test]
fn starting_twice_is_harmless() {
    let mut audio = started();
    let before = audio;
    let mut recorder = Recorder::new();
    assert!(replies_ok(&audio.init_session(&mut recorder, &SessionConfig::default(), false)));
    assert_eq!(audio, before);
}

#[test]
fn silent_engine_is_given_up() {
    let mut audio = Audio::new();
    let mut recorder = Recorder::new();
    audio.init_session(&mut recorder, &SessionConfig::default(), false);
    audio.thread_spawned(None);
    for _ in 0..50 {
        let action = audio.engine_checked(&engine(false));
        assert!(matches!(action, SessionAction::CheckEngine { after_ms: 20 }));
    }
    assert!(matches!(audio.engine_checked(&engine(false)), SessionAction::JoinThread));
    match audio.thread_joined() {
        SessionAction::Reply(Err(Error::SessionSetupFailed(why))) => {
            assert_eq!(why, "Audio streams failed to start")
        }
        other => panic!("{:?}", other),
    }
    assert!(!audio.active);
    assert_eq!(audio.phase, SessionPhase::Idle);
}

#[test]
fn last_look_can_save_a_session() {
    let mut audio = Audio::new();
    let mut recorder = Recorder::new();
    audio.init_session(&mut recorder, &SessionConfig::default(), false);
    audio.thread_spawned(None);
    for _ in 0..50 {
        audio.engine_checked(&engine(false));
    }
    assert!(replies_ok(&audio.engine_checked(&engine(true))));
    assert!(audio.active);
}

#[test]
fn engine_that_stops_again_fails() {
    let mut audio = Audio::new();
    let mut recorder = Recorder::new();
    audio.init_session(&mut recorder, &SessionConfig::default(), false);
    audio.thread_spawned(None);
    audio.engine_checked(&engine(true));
    assert!(matches!(audio.engine_checked(&engine(false)), SessionAction::JoinThread));
}

#[test]
fn thread_that_cannot_be_spawned() {
    let mut audio = Audio::new();
    let mut recorder = Recorder::new();
    audio.init_session(&mut recorder, &SessionConfig::default(), false);
    match audio.thread_spawned(Some("out of threads".to_string())) {
        SessionAction::Reply(Err(error)) => {
            assert_eq!(error.code(), "SESSION_SETUP_FAILED");
            assert_eq!(
                error.message(),
                "Audio session setup failed: Failed to spawn audio thread: out of threads"
            );
        }
        other => panic!("{:?}", other),
    }
    assert!(!audio.active);
}

#[test]
fn session_stops() {
    let mut audio = started();
    assert!(matches!(audio.teardown_session(false), SessionAction::JoinThread));
    assert!(audio.shutdown);
    assert!(audio.active);
    assert!(replies_ok(&audio.thread_joined()));
    assert!(!audio.active);
    assert!(replies_ok(&audio.teardown_session(false)));
    let mut recorder = Recorder::new();
    audio.init_session(&mut recorder, &SessionConfig::default(), false);
    assert!(!audio.shutdown);
}

#[test]
fn poisoned_lock_refuses() {
    let mut audio = started();
    let mut recorder = Recorder::new();
    let init = audio.init_session(&mut recorder, &SessionConfig::default(), true);
    let teardown = audio.teardown_session(true);
    for action in [init, teardown] {
        match action {
            SessionAction::Reply(Err(error)) => {
                assert_eq!(error.code(), "OPERATION_FAILED");
                assert_eq!(
                    error.message(),
                    "Audio operation failed: Audio lifecycle lock poisoned"
                );
            }
            other => panic!("{:?}", other),
        }
    }
    assert!(audio.active);
}

#[test]
fn status_counts_what_is_queued() {
    let mut capture = CaptureState::new();
    let mut playback = PlaybackState::new();
    let mut collector = CollectorState::new();
    let mut recorder = Recorder::new();
    init_ring_buffers(&mut capture, &mut playback);
    push_playback_samples(&mut playback, &[1, 2, 3]);
    rust_audio_capture_callback(&mut capture, &[4, 5], true);
    collector_tick(&mut collector, &mut recorder, &mut capture, 48_000);

    let status = Audio::new().get_status(&playback, &collector).unwrap();
    assert_eq!(status.session, SessionState::Inactive);
    assert_eq!(status.playback_buffered, 3);
    assert_eq!(status.preroll_buffered, 2);
    let status = started().get_status(&playback, &collector).unwrap();
    assert_eq!(status.session, SessionState::Active);
}

#[test]
fn enqueued_chunk_is_played() {
    let mut playback = PlaybackState::new();
    init_ring_buffers(&mut CaptureState::new(), &mut playback);
    let audio = Audio::new();
    let chunk = AudioChunk { samples: vec![1, 2, 3] };
    assert!(audio.enqueue_audio(&mut playback, &chunk).unwrap().success);
    assert_eq!(playback_level(&playback), 3);
    let mut out = [0u32; 3];
    rust_audio_render_callback(&mut playback, &mut out, true, 1);
    assert_eq!(out, [1, 2, 3]);
    let chunk = AudioChunk { samples: vec![1; PLAYBACK_RING_CAPACITY + 1] };
    assert!(audio.enqueue_audio(&mut playback, &chunk).unwrap().success);
    assert_eq!(playback_level(&playback), PLAYBACK_RING_CAPACITY);
}

#[test]
fn one_thread_at_a_time() {
    let mut audio = Audio::new();
    let mut recorder = Recorder::new();
    let mut threads = 0;
    for round in 0..3 {
        for request in 0..2 {
            let action = audio.init_session(&mut recorder, &SessionConfig::default(), false);
            if let SessionAction::SpawnThread { .. } = action {
                assert_eq!((threads, request), (0, 0));
                threads += 1;
                audio.thread_spawned(None);
                audio.engine_checked(&engine(true));
                assert!(replies_ok(&audio.engine_checked(&engine(true))));
            }
        }
        assert_eq!(threads, 1, "round {}", round);
        if let SessionAction::JoinThread = audio.teardown_session(false) {
            threads -= 1;
            audio.thread_joined();
        }
        assert_eq!(threads, 0);
    }
}
