//! What the engine reports about itself, and the snapshot of all counters.

use vstd::prelude::*;
use vstd::string::*;

use crate::capture::{capture_fifo_level, CaptureState, CaptureView};
use crate::playback::{playback_level, PlaybackState, PlaybackView};
use crate::samples::{count, counted};
use crate::text::{append_decimal, append_flag, decimal, flag_word};

verus! {

/// What the audio engine has reported about itself.
#[derive(Debug, Clone, Copy, PartialEq, Eq, Structural)]
pub struct EngineState {
    /// Hardware capture rate in Hz; zero before the first report.
    pub hw_sample_rate: u32,
    /// Rate in Hz of the samples that are played; zero before the first report.
    pub pb_sample_rate: u32,
    /// How many hardware frames there are to a played sample, rounded.
    pub upsample_ratio: u32,
    /// The streams are running.
    pub running: bool,
    /// How often the engine has been built.
    pub build_count: usize,
}

impl EngineState {
    /// An engine that has reported nothing.
    pub open spec fn initial() -> EngineState {
        EngineState {
            hw_sample_rate: 0,
            pb_sample_rate: 0,
            upsample_ratio: 0,
            running: false,
            build_count: 0,
        }
    }

    /// After the report of a newly built engine.
    pub open spec fn after_config(
        self,
        hw_sample_rate: u32,
        pb_sample_rate: u32,
        upsample_ratio: u32,
    ) -> EngineState {
        EngineState {
            hw_sample_rate,
            pb_sample_rate,
            upsample_ratio,
            running: self.running,
            build_count: counted(self.build_count, 1),
        }
    }

    /// The rate to which the band analyzer has to be set for samples of this rate, if it
    /// has to be.
    pub open spec fn analyzer_rate(pb_sample_rate: u32) -> Option<u32> {
        if pb_sample_rate > 0 {
            Some(pb_sample_rate)
        } else {
            None
        }
    }

    /// After the report that the engine has started or stopped.
    pub open spec fn after_running(self, running: u32) -> EngineState {
        EngineState { running: running != 0, ..self }
    }

    /// An engine that has reported nothing.
    pub fn new() -> (engine: EngineState)
        ensures
            engine == EngineState::initial(),
    {
        EngineState {
            hw_sample_rate: 0,
            pb_sample_rate: 0,
            upsample_ratio: 0,
            running: false,
            build_count: 0,
        }
    }
}

/// Takes the report of a newly built engine. Returns the rate to which the band
/// analyzer of the played samples has to be set, if it has to be: the analyzer
/// sees the samples before they are resampled for the hardware.
pub fn rust_audio_report_engine_config(
    engine: &mut EngineState,
    hw_sample_rate: u32,
    pb_sample_rate: u32,
    upsample_ratio: u32,
) -> (analyzer_rate: Option<u32>)
    ensures
        *final(engine) == old(engine).after_config(hw_sample_rate, pb_sample_rate, upsample_ratio),
        analyzer_rate == EngineState::analyzer_rate(pb_sample_rate),
        analyzer_rate == if pb_sample_rate > 0 {
            Some(pb_sample_rate)
        } else {
            None
        },
{
    engine.hw_sample_rate = hw_sample_rate;
    engine.pb_sample_rate = pb_sample_rate;
    engine.upsample_ratio = upsample_ratio;
    engine.build_count = count(engine.build_count, 1);
    if pb_sample_rate > 0 {
        Some(pb_sample_rate)
    } else {
        None
    }
}

/// Takes the report that the engine has started (nonzero) or stopped (zero).
pub fn rust_audio_report_engine_running(engine: &mut EngineState, running: u32)
    ensures
        *final(engine) == old(engine).after_running(running),
{
    engine.running = running != 0;
}

/// A snapshot of all counters.
#[derive(Debug, Clone, PartialEq, Eq, Structural)]
pub struct AudioDiagnostics {
    /// Capture callbacks.
    pub capture_callback_count: usize,
    /// Samples captured.
    pub capture_samples_pushed: usize,
    /// Captured samples for which there was no room.
    pub capture_samples_dropped: usize,
    /// Capture callbacks that could not get at the queue.
    pub capture_fifo_lock_fail: usize,
    /// Captured samples that have not been drained.
    pub capture_fifo_level: usize,
    /// Render callbacks.
    pub render_callback_count: usize,
    /// Samples played.
    pub render_samples_pulled: usize,
    /// Render callbacks that could not get at the queue.
    pub render_lock_fail: usize,
    /// Samples that wait to be played.
    pub playback_level: usize,
    /// Hardware capture rate in Hz.
    pub engine_hw_rate: usize,
    /// Rate of the played samples in Hz.
    pub engine_pb_rate: usize,
    /// Hardware frames to a played sample.
    pub engine_upsample_ratio: usize,
    /// The streams are running.
    pub engine_running: bool,
    /// How often the engine has been built.
    pub engine_build_count: usize,
}

/// The snapshot of three states.
pub open spec fn snapshot(
    capture: CaptureView,
    playback: PlaybackView,
    engine: EngineState,
) -> AudioDiagnostics {
    AudioDiagnostics {
        capture_callback_count: capture.callback_count,
        capture_samples_pushed: capture.samples_pushed,
        capture_samples_dropped: capture.samples_dropped,
        capture_fifo_lock_fail: capture.fifo_lock_fail,
        capture_fifo_level: capture.waiting().len() as usize,
        render_callback_count: playback.render_callback_count,
        render_samples_pulled: playback.render_samples_pulled,
        render_lock_fail: playback.render_lock_fail,
        playback_level: playback.level,
        engine_hw_rate: engine.hw_sample_rate as usize,
        engine_pb_rate: engine.pb_sample_rate as usize,
        engine_upsample_ratio: engine.upsample_ratio as usize,
        engine_running: engine.running,
        engine_build_count: engine.build_count,
    }
}

/// Reads all counters.
pub fn diagnostics(
    capture: &CaptureState,
    playback: &PlaybackState,
    engine: &EngineState,
) -> (d: AudioDiagnostics)
    requires
        playback.wf(),
    ensures
        d == snapshot(capture@, playback@, *engine),
{
    let (captures, pushed, dropped, capture_misses) = capture.counters();
    let (renders, pulled, render_misses) = playback.counters();
    AudioDiagnostics {
        capture_callback_count: captures,
        capture_samples_pushed: pushed,
        capture_samples_dropped: dropped,
        capture_fifo_lock_fail: capture_misses,
        capture_fifo_level: capture_fifo_level(capture),
        render_callback_count: renders,
        render_samples_pulled: pulled,
        render_lock_fail: render_misses,
        playback_level: playback_level(playback),
        engine_hw_rate: engine.hw_sample_rate as usize,
        engine_pb_rate: engine.pb_sample_rate as usize,
        engine_upsample_ratio: engine.upsample_ratio as usize,
        engine_running: engine.running,
        engine_build_count: engine.build_count,
    }
}

impl AudioDiagnostics {
    /// The snapshot as a line of a log.
    pub open spec fn line(self) -> Seq<char> {
        "capture(cb="@ + decimal(self.capture_callback_count as nat)
            + " pushed="@ + decimal(self.capture_samples_pushed as nat)
            + " dropped="@ + decimal(self.capture_samples_dropped as nat)
            + " fifo_lvl="@ + decimal(self.capture_fifo_level as nat)
            + " fifo_lockfail="@ + decimal(self.capture_fifo_lock_fail as nat)
            + ") render(cb="@ + decimal(self.render_callback_count as nat)
            + " pulled="@ + decimal(self.render_samples_pulled as nat)
            + " lockfail="@ + decimal(self.render_lock_fail as nat)
            + ") playback_lvl="@ + decimal(self.playback_level as nat)
            + " engine(hw="@ + decimal(self.engine_hw_rate as nat)
            + "Hz pb="@ + decimal(self.engine_pb_rate as nat)
            + "Hz ratio="@ + decimal(self.engine_upsample_ratio as nat)
            + " running="@ + flag_word(self.engine_running)
            + " builds="@ + decimal(self.engine_build_count as nat) + ")"@
    }

    /// The snapshot as a line of a log.
    pub fn to_string(&self) -> (line: String)
        ensures
            line@ == self.line(),
    {
        let mut s = String::new();
        s.append("capture(cb=");
        append_decimal(&mut s, self.capture_callback_count);
        s.append(" pushed=");
        append_decimal(&mut s, self.capture_samples_pushed);
        s.append(" dropped=");
        append_decimal(&mut s, self.capture_samples_dropped);
        s.append(" fifo_lvl=");
        append_decimal(&mut s, self.capture_fifo_level);
        s.append(" fifo_lockfail=");
        append_decimal(&mut s, self.capture_fifo_lock_fail);
        s.append(") render(cb=");
        append_decimal(&mut s, self.render_callback_count);
        s.append(" pulled=");
        append_decimal(&mut s, self.render_samples_pulled);
        s.append(" lockfail=");
        append_decimal(&mut s, self.render_lock_fail);
        s.append(") playback_lvl=");
        append_decimal(&mut s, self.playback_level);
        s.append(" engine(hw=");
        append_decimal(&mut s, self.engine_hw_rate);
        s.append("Hz pb=");
        append_decimal(&mut s, self.engine_pb_rate);
        s.append("Hz ratio=");
        append_decimal(&mut s, self.engine_upsample_ratio);
        s.append(" running=");
        append_flag(&mut s, self.engine_running);
        s.append(" builds=");
        append_decimal(&mut s, self.engine_build_count);
        s.append(")");
        s
    }
}

} // verus!
