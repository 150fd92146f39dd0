use audio_bridge::error::Error;

#[test]
fn error_codes() {
    assert_eq!(Error::Io("x".to_string()).code(), "IO_ERROR");
    assert_eq!(Error::PluginInvoke("x".to_string()).code(), "PLUGIN_INVOKE_ERROR");
    assert_eq!(Error::SessionNotActive.code(), "SESSION_NOT_ACTIVE");
    assert_eq!(Error::SessionAlreadyActive.code(), "SESSION_ALREADY_ACTIVE");
    assert_eq!(Error::SessionSetupFailed("x".to_string()).code(), "SESSION_SETUP_FAILED");
    assert_eq!(Error::PermissionDenied("x".to_string()).code(), "PERMISSION_DENIED");
    assert_eq!(Error::OperationFailed("x".to_string()).code(), "OPERATION_FAILED");
}

#[test]
fn error_messages() {
    assert_eq!(Error::Io("disk full".to_string()).message(), "disk full");
    assert_eq!(Error::PluginInvoke("no plugin".to_string()).message(), "no plugin");
    assert_eq!(
        Error::SessionNotActive.message(),
        "Audio session not active — call initSession first"
    );
    assert_eq!(Error::SessionAlreadyActive.message(), "Audio session already active");
    assert_eq!(
        Error::SessionSetupFailed("no device".to_string()).message(),
        "Audio session setup failed: no device"
    );
    assert_eq!(
        Error::PermissionDenied("microphone".to_string()).message(),
        "Permission denied: microphone"
    );
    assert_eq!(
        Error::OperationFailed("lock".to_string()).message(),
        "Audio operation failed: lock"
    );
}
