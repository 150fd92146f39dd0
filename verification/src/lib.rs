//! The bridge between realtime audio callbacks and the rest of a voice
//! application: a capture queue with a pre-roll window, a playback queue with
//! pause, drain detection and sentence progress, the life of an audio session,
//! and the sample bookkeeping of a device stream.
//!
//! # Samples
//!
//! A sample is an `f32`, held here as its bit pattern in a `u32`. The library
//! stores, moves and drops samples; it never computes with their values. The
//! bit pattern of silence (positive zero) is [`samples::SILENCE`].
//!
//! # State
//!
//! Each part of the bridge is a value that its functions take by reference.
//! Whoever owns the threads keeps these values behind locks. A realtime
//! callback only ever tries to take a lock; it tells the library whether it
//! got it. Clock readings are arguments too, in nanoseconds since a fixed
//! start.

pub mod capture;
pub mod capture_laws;
pub mod capture_queue;
pub mod channel;
pub mod diagnostics;
pub mod diagnostics_laws;
pub mod error;
pub mod models;
pub mod playback;
pub mod playback_laws;
pub mod playback_runs;
pub mod ring;
pub mod samples;
pub mod session;
pub mod session_laws;
pub mod stream;
pub mod stream_laws;
pub mod text;
pub mod text_laws;
