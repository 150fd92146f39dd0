//! What holds of the engine's reports and of snapshots over a whole run of calls.

use vstd::prelude::*;

use crate::capture::CaptureView;
use crate::capture_laws::{
    law_capture_is_first_in_first_out, law_captures_are_counted, CaptureEvent,
};
use crate::diagnostics::{snapshot, EngineState};
use crate::playback::PlaybackView;
use crate::playback_runs::{law_playback_is_first_in_first_out, law_pulls_are_counted, PlaybackEvent};

verus! {

/// A report of the engine about itself.
pub enum EngineReport {
    /// It has been built.
    Config {
        /// Hardware capture rate in Hz.
        hw_sample_rate: u32,
        /// Rate in Hz of the samples that are played.
        pb_sample_rate: u32,
        /// Hardware frames to a played sample.
        upsample_ratio: u32,
    },
    /// It has started or stopped.
    Running(u32),
}

impl EngineState {
    /// After a report.
    pub open spec fn after_report(self, report: EngineReport) -> EngineState {
        match report {
            EngineReport::Config { hw_sample_rate, pb_sample_rate, upsample_ratio } =>
                self.after_config(hw_sample_rate, pb_sample_rate, upsample_ratio),
            EngineReport::Running(running) => self.after_running(running),
        }
    }

    /// After a number of reports.
    pub open spec fn after_reports(self, reports: Seq<EngineReport>) -> EngineState
        decreases reports.len(),
    {
        if reports.len() == 0 {
            self
        } else {
            self.after_reports(reports.drop_last()).after_report(reports.last())
        }
    }
}

/// How many of the reports are of a newly built engine.
pub open spec fn builds(reports: Seq<EngineReport>) -> nat
    decreases reports.len(),
{
    if reports.len() == 0 {
        0
    } else if reports.last() is Config {
        builds(reports.drop_last()) + 1
    } else {
        builds(reports.drop_last())
    }
}

/// The report at position `i` is the last of a newly built engine.
pub open spec fn last_config(reports: Seq<EngineReport>, i: int) -> bool {
    &&& 0 <= i < reports.len()
    &&& reports[i] is Config
    &&& forall|k: int| i < k < reports.len() ==> !(#[trigger] reports[k] is Config)
}

/// The rates and the ratio are those of the last report of a newly built engine, and
/// the build count is the number of such reports, as long as it stays within `usize`.
pub proof fn law_last_report_counts(e: EngineState, reports: Seq<EngineReport>)
    requires
        e.build_count + builds(reports) <= usize::MAX,
    ensures
        ({
            let next = e.after_reports(reports);
            &&& next.build_count == e.build_count + builds(reports)
            &&& forall|i: int| #[trigger]
                last_config(reports, i) ==> reports[i] == (EngineReport::Config {
                    hw_sample_rate: next.hw_sample_rate,
                    pb_sample_rate: next.pb_sample_rate,
                    upsample_ratio: next.upsample_ratio,
                })
            &&& builds(reports) == 0 ==> next == (EngineState { running: next.running, ..e })
            &&& reports.len() > 0 ==> (reports.last() matches EngineReport::Running(running)
                ==> next.running == (running != 0))
        }),
    decreases reports.len(),
{
    if reports.len() > 0 {
        let earlier = reports.drop_last();
        let at = reports.len() - 1;
        law_last_report_counts(e, earlier);
        assert forall|i: int| #[trigger] last_config(reports, i) implies (if reports[at] is Config {
            i == at
        } else {
            last_config(earlier, i) && earlier[i] == reports[i]
        }) by {
            if reports[at] is Config {
                assert(i >= at);
            } else {
                assert forall|k: int| i < k < earlier.len() implies !(
                #[trigger] earlier[k] is Config) by {
                    assert(earlier[k] == reports[k]);
                }
            }
        }
    }
}

/// A snapshot adds up, whatever has happened since the start: the levels are what is
/// queued; what has been captured is what waits and what has been drained; what has
/// been pulled is what has been played; and the engine's part is that of its last
/// reports. All as long as the counts stay within `usize`.
pub proof fn law_snapshot_adds_up(
    captures: Seq<CaptureEvent>,
    plays: Seq<PlaybackEvent>,
    reports: Seq<EngineReport>,
)
    requires
        CaptureView::initial().accepted_over(captures).len() <= usize::MAX,
        PlaybackView::initial().plays_over(plays).len() <= usize::MAX,
        builds(reports) <= usize::MAX,
    ensures
        ({
            let c = CaptureView::initial().after_events(captures);
            let p = PlaybackView::initial().after_events(plays);
            let e = EngineState::initial().after_reports(reports);
            let d = snapshot(c, p, e);
            &&& d.capture_fifo_level == c.waiting().len()
            &&& d.playback_level == p.queued().len()
            &&& d.capture_samples_pushed == d.capture_fifo_level
                + CaptureView::initial().drained_over(captures).len()
            &&& d.render_samples_pulled == PlaybackView::initial().plays_over(plays).len()
            &&& d.engine_build_count == builds(reports)
            &&& forall|i: int| #[trigger]
                last_config(reports, i) ==> reports[i] == (EngineReport::Config {
                    hw_sample_rate: d.engine_hw_rate as u32,
                    pb_sample_rate: d.engine_pb_rate as u32,
                    upsample_ratio: d.engine_upsample_ratio as u32,
                })
        }),
{
    let c0 = CaptureView::initial();
    let p0 = PlaybackView::initial();
    law_capture_is_first_in_first_out(c0, captures);
    law_captures_are_counted(c0, captures);
    assert((c0.drained_over(captures) + c0.after_events(captures).waiting()).len() == (c0.waiting()
        + c0.accepted_over(captures)).len());
    law_playback_is_first_in_first_out(p0, plays);
    law_pulls_are_counted(p0, plays);
    law_last_report_counts(EngineState::initial(), reports);
}

/// A snapshot reads each counter as it is.
pub proof fn law_snapshot_reads_each_counter(c: CaptureView, p: PlaybackView, e: EngineState)
    requires
        c.consistent(),
    ensures
        ({
            let d = snapshot(c, p, e);
            &&& d.capture_callback_count == c.callback_count
            &&& d.capture_samples_pushed == c.samples_pushed
            &&& d.capture_samples_dropped == c.samples_dropped
            &&& d.capture_fifo_lock_fail == c.fifo_lock_fail
            &&& d.capture_fifo_level == c.waiting().len()
            &&& d.render_callback_count == p.render_callback_count
            &&& d.render_samples_pulled == p.render_samples_pulled
            &&& d.render_lock_fail == p.render_lock_fail
            &&& d.playback_level == p.level
            &&& d.engine_hw_rate == e.hw_sample_rate
            &&& d.engine_pb_rate == e.pb_sample_rate
            &&& d.engine_upsample_ratio == e.upsample_ratio
            &&& d.engine_running == e.running
            &&& d.engine_build_count == e.build_count
        }),
{
}

/// A report of a newly built engine is taken as it is, counted once, and does not say
/// whether the engine runs; the analyzer is set to the rate of the played samples, where
/// there is one. A report that the engine runs or not changes nothing else.
pub proof fn law_reports_are_taken_as_they_are(
    e: EngineState,
    hw_sample_rate: u32,
    pb_sample_rate: u32,
    upsample_ratio: u32,
    running: u32,
)
    ensures
        ({
            let built = e.after_config(hw_sample_rate, pb_sample_rate, upsample_ratio);
            &&& built.hw_sample_rate == hw_sample_rate
            &&& built.pb_sample_rate == pb_sample_rate
            &&& built.upsample_ratio == upsample_ratio
            &&& built.running == e.running
            &&& e.build_count + 1 == built.build_count || e.build_count + 1 == built.build_count
                + usize::MAX + 1
        }),
        EngineState::analyzer_rate(pb_sample_rate) is Some <==> pb_sample_rate != 0,
        EngineState::analyzer_rate(pb_sample_rate) matches Some(rate) ==> rate == pb_sample_rate,
        e.after_running(running).running <==> running != 0,
        e.after_running(running) == (EngineState { running: running != 0, ..e }),
{
}

} // verus!
