use audio_bridge::models::{OkResponse, SessionConfig, SessionState};

#[test]
fn session_config_defaults() {
    let cfg = SessionConfig::default();
    assert_eq!(cfg.capture_sample_rate, 48_000);
    assert_eq!(cfg.playback_sample_rate, 24_000);
    assert_eq!(cfg.capture_channels, 1);
    assert_eq!(cfg.playback_channels, 1);
    assert_eq!(cfg.capture_buffer_size, 1024);
    assert_eq!(cfg.preroll_ms, 800);
}

#[test]
fn ok_response_says_success() {
    assert!(OkResponse::ok().success);
}

#[test]
fn session_states_differ() {
    assert_ne!(SessionState::Active, SessionState::Inactive);
}
