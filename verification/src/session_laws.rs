//! What holds of sessions across several calls.

use vstd::prelude::*;

use crate::diagnostics::EngineState;
use crate::diagnostics_laws::EngineReport;
use crate::error::Error;
use crate::models::{SessionConfig, SessionState};
use crate::session::{Audio, SessionAction, SessionPhase, START_POLLS, START_POLL_MS};

verus! {

/// The session after a number of looks at the engine, of which the readings are
/// given in order.
pub open spec fn after_checks(audio: Audio, readings: Seq<EngineState>) -> Audio
    decreases readings.len(),
{
    if readings.len() == 0 {
        audio
    } else {
        after_checks(audio, readings.drop_last()).after_check(readings.last())
    }
}

/// A session that comes up is active: when the engine is found running, and runs
/// at the look after that, starting succeeds with the capture rate that the engine
/// reports.
pub proof fn law_running_engine_starts_session(
    audio: Audio,
    first: EngineState,
    second: EngineState,
)
    requires
        audio.wf(),
        audio.phase is Polling,
        first.running,
        second.running,
    ensures
        ({
            let started = audio.after_check(first).after_check(second);
            &&& started.active
            &&& !started.shutdown
            &&& started.phase == SessionPhase::Idle
            &&& started.capture_sample_rate == second.hw_sample_rate
            &&& started.wf()
        }),
{
}

/// So long as polling goes on, each look that finds the engine not running uses up
/// one chance.
proof fn lemma_polling(audio: Audio, readings: Seq<EngineState>)
    requires
        audio.phase == SessionPhase::Polling(0),
        readings.len() < START_POLLS,
        forall|i: int| 0 <= i < readings.len() ==> !(#[trigger] readings[i]).running,
    ensures
        after_checks(audio, readings) == (Audio {
            phase: SessionPhase::Polling(readings.len() as u32),
            ..audio
        }),
    decreases readings.len(),
{
    if readings.len() > 0 {
        let earlier = readings.drop_last();
        assert forall|i: int| 0 <= i < earlier.len() implies !(#[trigger] earlier[i]).running by {
            assert(earlier[i] == readings[i]);
        }
        lemma_polling(audio, earlier);
        assert(!readings[readings.len() - 1].running);
    }
}

/// Starting does not wait forever: a session whose engine is never found running is
/// given up at the look after the last chance, no sooner, and is then not active.
pub proof fn law_silent_engine_is_given_up(audio: Audio, readings: Seq<EngineState>)
    requires
        audio.wf(),
        audio.phase == SessionPhase::Polling(0),
        readings.len() <= START_POLLS + 1,
        forall|i: int| 0 <= i < readings.len() ==> !(#[trigger] readings[i]).running,
    ensures
        (after_checks(audio, readings).phase == SessionPhase::Abandoning) <==> readings.len()
            == START_POLLS + 1,
        readings.len() == START_POLLS + 1 ==> {
            let given_up = after_checks(audio, readings).after_join();
            !given_up.active && given_up.phase == SessionPhase::Idle
        },
{
    if readings.len() < START_POLLS {
        lemma_polling(audio, readings);
    } else {
        let chances = readings.take(START_POLLS - 1);
        let all = readings.take(START_POLLS as int);
        assert forall|i: int| 0 <= i < chances.len() implies !(#[trigger] chances[i]).running by {
            assert(chances[i] == readings[i]);
        }
        lemma_polling(audio, chances);
        assert(all.drop_last() =~= chances);
        assert(!readings[START_POLLS - 1].running);
        assert(all.last() == readings[START_POLLS - 1]);
        assert(after_checks(audio, all).phase == SessionPhase::Confirming);
        if readings.len() == START_POLLS {
            assert(all =~= readings);
        } else {
            assert(readings.drop_last() =~= all);
            assert(!readings[START_POLLS as int].running);
        }
    }
}

/// A start is decided by the look after the engine is first found running: it succeeds, at
/// the rate that the engine then reports, if the engine still runs, and fails otherwise.
/// There are fifty chances to be found running, one every twenty milliseconds.
pub proof fn law_start_is_decided_by_the_look_after(
    audio: Audio,
    silent: Seq<EngineState>,
    first: EngineState,
    second: EngineState,
)
    requires
        audio.wf(),
        audio.phase == SessionPhase::Polling(0),
        silent.len() < 50,
        forall|i: int| 0 <= i < silent.len() ==> !(#[trigger] silent[i]).running,
        first.running,
    ensures
        ({
            let found = after_checks(audio, silent).after_check(first);
            let decided = found.after_check(second);
            &&& !found.active
            &&& decided.active == second.running
            &&& second.running ==> decided.phase == SessionPhase::Idle
                && decided.capture_sample_rate == second.hw_sample_rate
            &&& !second.running ==> decided.phase == SessionPhase::Abandoning
                && decided.capture_sample_rate == audio.capture_sample_rate
        }),
        START_POLLS * START_POLL_MS == 1000,
        START_POLL_MS == 20,
{
    lemma_polling(audio, silent);
}

/// Where the engine is never found running, the look after the last chance decides alone.
pub proof fn law_last_look_can_save_a_start(
    audio: Audio,
    silent: Seq<EngineState>,
    last: EngineState,
)
    requires
        audio.wf(),
        audio.phase == SessionPhase::Polling(0),
        silent.len() == 50,
        forall|i: int| 0 <= i < silent.len() ==> !(#[trigger] silent[i]).running,
    ensures
        ({
            let decided = after_checks(audio, silent).after_check(last);
            &&& decided.active == last.running
            &&& last.running ==> decided.phase == SessionPhase::Idle
                && decided.capture_sample_rate == last.hw_sample_rate
            &&& !last.running ==> decided.phase == SessionPhase::Abandoning
        }),
{
    let earlier = silent.drop_last();
    assert forall|i: int| 0 <= i < earlier.len() implies !(#[trigger] earlier[i]).running by {
        assert(earlier[i] == silent[i]);
    }
    lemma_polling(audio, earlier);
    assert(!silent[49].running);
}

/// Each step of a session changes what it is about and nothing else: to ask for a start or
/// a stop does not change whether a session is active, to join ends it, and only a start
/// that succeeds changes the rate.
pub proof fn law_steps_change_what_they_are_about(audio: Audio, spawned: bool)
    ensures
        audio.after_init().active == audio.active && !audio.after_init().shutdown
            && audio.after_init().phase == SessionPhase::Spawning,
        audio.after_init().capture_sample_rate == audio.capture_sample_rate,
        audio.after_spawn(spawned).active == audio.active && audio.after_spawn(spawned).shutdown
            == audio.shutdown && audio.after_spawn(spawned).capture_sample_rate
            == audio.capture_sample_rate,
        audio.after_spawn(true).phase == SessionPhase::Polling(0),
        audio.after_spawn(false).phase == SessionPhase::Idle,
        audio.after_teardown().active == audio.active && audio.after_teardown().shutdown
            && audio.after_teardown().phase == SessionPhase::Stopping,
        audio.after_teardown().capture_sample_rate == audio.capture_sample_rate,
        !audio.after_join().active && audio.after_join().shutdown == audio.shutdown
            && audio.after_join().phase == SessionPhase::Idle,
        audio.after_join().capture_sample_rate == audio.capture_sample_rate,
{
}

/// Stopping undoes starting: a running session that is torn down is not active, and
/// the next one is started as the first was.
pub proof fn law_teardown_undoes_start(audio: Audio)
    requires
        audio.wf(),
        audio.phase == SessionPhase::Idle,
        audio.active,
    ensures
        ({
            let stopped = audio.after_teardown().after_join();
            &&& !stopped.active
            &&& stopped.shutdown
            &&& stopped.phase == SessionPhase::Idle
            &&& stopped.wf()
            &&& !stopped.after_init().shutdown
            &&& stopped.after_init().wf()
        }),
{
}

/// A session that has been stopped leaves nothing running. The last thing that its thread
/// reports is that the engine has stopped; once it is joined the session is not active and
/// the engine not running. To stop it again changes nothing.
pub proof fn law_stopped_session_leaves_nothing_running(
    audio: Audio,
    engine: EngineState,
    reports: Seq<EngineReport>,
)
    requires
        audio.wf(),
        audio.phase == SessionPhase::Idle,
        audio.active,
        reports.len() > 0,
        reports.last() == EngineReport::Running(0),
    ensures
        ({
            let stopped = audio.after_teardown().after_join();
            &&& !stopped.active
            &&& stopped.threads() == 0
            &&& !engine.after_reports(reports).running
            &&& stopped.after_event(SessionEvent::Teardown) == stopped
            &&& stopped.expects(SessionEvent::Init)
            &&& stopped.after_event(SessionEvent::Init).phase == SessionPhase::Spawning
        }),
{
}

/// A start that fails leaves no session behind: neither a thread that cannot be
/// spawned nor one that does not come up makes it active.
pub proof fn law_failed_start_leaves_no_session(audio: Audio, engine: EngineState)
    requires
        audio.wf(),
        audio.phase == SessionPhase::Idle,
        !audio.active,
        !engine.running,
    ensures
        !audio.after_init().after_spawn(false).active,
        audio.after_init().after_spawn(false).phase == SessionPhase::Idle,
        ({
            let confirming = Audio { phase: SessionPhase::Confirming, ..audio.after_init() };
            let failed = confirming.after_check(engine).after_join();
            !failed.active && failed.phase == SessionPhase::Idle && failed.capture_sample_rate
                == audio.capture_sample_rate
        }),
{
}

/// Something that happens to a session.
pub enum SessionEvent {
    /// A request to start it.
    Init,
    /// The attempt to spawn its thread, and whether that succeeded.
    Spawned(bool),
    /// A look at the engine.
    Checked(EngineState),
    /// A request to stop it.
    Teardown,
    /// Its thread has been joined.
    Joined,
}

impl Audio {
    /// The event can happen: requests come one at a time, and the other events answer
    /// what has been asked for.
    pub open spec fn expects(self, event: SessionEvent) -> bool {
        match event {
            SessionEvent::Init | SessionEvent::Teardown => self.phase == SessionPhase::Idle,
            SessionEvent::Spawned(_) => self.phase == SessionPhase::Spawning,
            SessionEvent::Checked(_) => self.phase is Polling || self.phase is Confirming,
            SessionEvent::Joined => self.phase is Abandoning || self.phase is Stopping,
        }
    }

    /// After an event.
    pub open spec fn after_event(self, event: SessionEvent) -> Audio {
        match event {
            SessionEvent::Init => if self.active {
                self
            } else {
                self.after_init()
            },
            SessionEvent::Spawned(spawned) => self.after_spawn(spawned),
            SessionEvent::Checked(engine) => self.after_check(engine),
            SessionEvent::Teardown => if self.active {
                self.after_teardown()
            } else {
                self
            },
            SessionEvent::Joined => self.after_join(),
        }
    }

    /// After a run of events.
    pub open spec fn after_events(self, events: Seq<SessionEvent>) -> Audio
        decreases events.len(),
    {
        if events.len() == 0 {
            self
        } else {
            self.after_events(events.drop_last()).after_event(events.last())
        }
    }

    /// Each event of a run can happen when it does.
    pub open spec fn expects_all(self, events: Seq<SessionEvent>) -> bool
        decreases events.len(),
    {
        events.len() == 0 || (self.expects_all(events.drop_last()) && self.after_events(
            events.drop_last(),
        ).expects(events.last()))
    }

    /// How many session threads there are.
    pub open spec fn threads(self) -> int {
        match self.phase {
            SessionPhase::Idle => if self.active {
                1
            } else {
                0
            },
            SessionPhase::Spawning => 0,
            _ => 1,
        }
    }
}

/// The threads spawned over a run, less those joined.
pub open spec fn spawned_less_joined(events: Seq<SessionEvent>) -> int
    decreases events.len(),
{
    if events.len() == 0 {
        0
    } else {
        let before = spawned_less_joined(events.drop_last());
        match events.last() {
            SessionEvent::Spawned(true) => before + 1,
            SessionEvent::Joined => before - 1,
            _ => before,
        }
    }
}

/// There is never a second session thread: whatever requests come in whatever order,
/// one is spawned only when none is left, and each that was spawned is joined before
/// the next.
pub proof fn law_one_thread_at_a_time(audio: Audio, events: Seq<SessionEvent>)
    requires
        audio.wf(),
        audio.expects_all(events),
    ensures
        ({
            let next = audio.after_events(events);
            &&& next.wf()
            &&& next.threads() == audio.threads() + spawned_less_joined(events)
            &&& 0 <= next.threads() <= 1
            &&& next.phase == SessionPhase::Spawning ==> next.threads() == 0
            &&& next.active ==> next.threads() == 1
        }),
    decreases events.len(),
{
    if events.len() > 0 {
        law_one_thread_at_a_time(audio, events.drop_last());
    }
}

/// The kinds of errors, as numbers.
pub open spec fn error_kind(error: Error) -> int {
    match error {
        Error::Io(_) => 0,
        Error::PluginInvoke(_) => 1,
        Error::SessionNotActive => 2,
        Error::SessionAlreadyActive => 3,
        Error::SessionSetupFailed(_) => 4,
        Error::PermissionDenied(_) => 5,
        Error::OperationFailed(_) => 6,
    }
}

/// A code names one kind of error: two errors have the same code exactly if they
/// are of the same kind.
pub proof fn law_codes_name_kinds(a: Error, b: Error)
    ensures
        a.code_text() == b.code_text() <==> error_kind(a) == error_kind(b),
{
    reveal_strlit("IO_ERROR");
    reveal_strlit("PLUGIN_INVOKE_ERROR");
    reveal_strlit("SESSION_NOT_ACTIVE");
    reveal_strlit("SESSION_ALREADY_ACTIVE");
    reveal_strlit("SESSION_SETUP_FAILED");
    reveal_strlit("PERMISSION_DENIED");
    reveal_strlit("OPERATION_FAILED");
    if error_kind(a) != error_kind(b) && a.code_text().len() == b.code_text().len() {
        assert(a.code_text()[0] != b.code_text()[0]);
    }
}

/// What is asked for follows the configuration and the engine: the thread is spawned for the
/// rate that is configured, whatever it is, and the next look comes at once where the engine
/// runs and after a fiftieth of a second where it does not.
pub proof fn law_actions_follow_the_request(config: SessionConfig, engine: EngineState)
    ensures
        SessionAction::to_start(config) matches SessionAction::SpawnThread { playback_sample_rate }
            && playback_sample_rate == config.playback_sample_rate,
        SessionAction::to_look_again(engine) matches SessionAction::CheckEngine { after_ms }
            && (if engine.running {
            after_ms == 0
        } else {
            after_ms * 50 == 1000
        }),
{
}

/// The status says that a session is active exactly while one is, and counts what is
/// queued, to the largest `usize`.
pub proof fn law_status_tells_what_is(audio: Audio, playback: nat, preroll: nat)
    requires
        playback <= usize::MAX,
    ensures
        audio.status(playback, preroll).session == SessionState::Active <==> audio.active,
        audio.status(playback, preroll).playback_buffered == playback,
        preroll <= usize::MAX ==> audio.status(playback, preroll).preroll_buffered == preroll,
        preroll > usize::MAX ==> audio.status(playback, preroll).preroll_buffered == usize::MAX,
{
}

/// A reply is of one kind: one that succeeds says so, one that fails to set up gives its
/// cause and no other, and one that is refused names the lock.
pub proof fn law_replies_are_told_apart(action: SessionAction, cause: Seq<char>, other: Seq<char>)
    ensures
        action.succeeds() ==> (action matches SessionAction::Reply(Ok(response))
            && response.success),
        action.fails_setup(cause) ==> (action matches SessionAction::Reply(
            Err(Error::SessionSetupFailed(why)),
        ) && why@ == cause),
        action.fails_setup(cause) && action.fails_setup(other) ==> cause == other,
        action.refuses() ==> (action matches SessionAction::Reply(Err(Error::OperationFailed(why)))
            && why@ == "Audio lifecycle lock poisoned"@),
        !(action.succeeds() && action.fails_setup(cause)) && !(action.succeeds()
            && action.refuses()) && !(action.fails_setup(cause) && action.refuses()),
{
}

/// A message tells the cause to its last character: what comes before the cause does not
/// depend on it, and it is all there is where the cause is another's own words.
pub proof fn law_message_tells_the_cause(cause: String, other: String)
    ensures
        Error::Io(cause).message_text() == cause@,
        Error::PluginInvoke(cause).message_text() == cause@,
        tells(Error::SessionSetupFailed(cause).message_text(), cause@, Error::SessionSetupFailed(
            other,
        ).message_text(), other@),
        tells(Error::PermissionDenied(cause).message_text(), cause@, Error::PermissionDenied(
            other,
        ).message_text(), other@),
        tells(Error::OperationFailed(cause).message_text(), cause@, Error::OperationFailed(
            other,
        ).message_text(), other@),
{
    lemma_tells("Audio session setup failed: "@, cause@, other@);
    lemma_tells("Permission denied: "@, cause@, other@);
    lemma_tells("Audio operation failed: "@, cause@, other@);
}

/// Two messages end with their causes and begin alike.
pub open spec fn tells(
    message: Seq<char>,
    cause: Seq<char>,
    other_message: Seq<char>,
    other: Seq<char>,
) -> bool {
    &&& cause.is_suffix_of(message)
    &&& other.is_suffix_of(other_message)
    &&& message.take(message.len() - cause.len()) == other_message.take(
        other_message.len() - other.len(),
    )
}

/// A lead before each of two causes makes such messages.
proof fn lemma_tells(lead: Seq<char>, cause: Seq<char>, other: Seq<char>)
    ensures
        tells(lead + cause, cause, lead + other, other),
{
    assert((lead + cause).take(lead.len() as int) =~= lead);
    assert((lead + other).take(lead.len() as int) =~= lead);
    assert((lead + cause).skip(lead.len() as int) =~= cause);
    assert((lead + other).skip(lead.len() as int) =~= other);
}

} // verus!
