//! The values that the application and the bridge exchange.

use vstd::prelude::*;

verus! {

/// Configuration of the always-on audio session.
///
/// A session has a capture path (microphone to queue) and a playback path (queue
/// to speaker). Both are active for the whole of its life.
#[derive(Debug, Clone, PartialEq, Eq, Structural)]
pub struct SessionConfig {
    /// Capture sample rate in Hz: the rate at which the microphone delivers.
    pub capture_sample_rate: u32,
    /// Playback sample rate in Hz: the rate of the samples that are pushed.
    pub playback_sample_rate: u32,
    /// Number of capture channels (1 = mono).
    pub capture_channels: u16,
    /// Number of playback channels.
    pub playback_channels: u16,
    /// Buffer size hint for the capture path, in frames.
    pub capture_buffer_size: u32,
    /// Duration of the pre-roll window in milliseconds.
    pub preroll_ms: u32,
}

impl Default for SessionConfig {
    fn default() -> (config: SessionConfig)
        ensures
            config == (SessionConfig {
                capture_sample_rate: 48_000,
                playback_sample_rate: 24_000,
                capture_channels: 1,
                playback_channels: 1,
                capture_buffer_size: 1024,
                preroll_ms: 800,
            }),
    {
        SessionConfig {
            capture_sample_rate: default_capture_sample_rate(),
            playback_sample_rate: default_playback_sample_rate(),
            capture_channels: default_channels(),
            playback_channels: default_channels(),
            capture_buffer_size: default_buffer_size(),
            preroll_ms: default_preroll_ms(),
        }
    }
}

/// The capture rate where none is configured.
pub fn default_capture_sample_rate() -> (rate: u32)
    ensures
        rate == 48_000,
{
    48_000
}

/// The playback rate where none is configured.
pub fn default_playback_sample_rate() -> (rate: u32)
    ensures
        rate == 24_000,
{
    24_000
}

/// The number of channels where none is configured.
pub fn default_channels() -> (channels: u16)
    ensures
        channels == 1,
{
    1
}

/// The buffer size hint where none is configured.
pub fn default_buffer_size() -> (frames: u32)
    ensures
        frames == 1024,
{
    1024
}

/// The pre-roll of a session where none is configured.
pub fn default_preroll_ms() -> (ms: u32)
    ensures
        ms == 800,
{
    800
}

/// A chunk of samples to be played.
#[derive(Debug, Clone)]
pub struct AudioChunk {
    /// The samples, interleaved if there is more than one channel.
    pub samples: Vec<u32>,
}

/// Whether a session is running.
#[derive(Debug, Clone, Copy, PartialEq, Eq, Structural)]
pub enum SessionState {
    /// No session: none has been started, or the last has been torn down.
    Inactive,
    /// Both audio paths are live.
    Active,
}

/// What the application learns when it asks how things are.
#[derive(Debug, Clone, PartialEq, Eq, Structural)]
pub struct AudioStatus {
    /// Whether a session is running.
    pub session: SessionState,
    /// Number of samples in the playback queue.
    pub playback_buffered: usize,
    /// Number of samples in the pre-roll window.
    pub preroll_buffered: usize,
}

/// The answer to a request that has nothing else to say.
#[derive(Debug, Clone, Copy, PartialEq, Eq, Structural)]
pub struct OkResponse {
    /// Whether the request succeeded.
    pub success: bool,
}

impl OkResponse {
    /// The answer to a request that succeeded.
    pub fn ok() -> (response: OkResponse)
        ensures
            response == (OkResponse { success: true }),
    {
        OkResponse { success: true }
    }
}

/// Tells the application that playback has started or stopped.
#[derive(Debug, Clone, Copy, PartialEq, Eq, Structural)]
pub struct PlaybackStatusEvent {
    /// True while queued samples are being played, false once they are drained.
    pub playing: bool,
}

} // verus!
