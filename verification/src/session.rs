//! The life of an audio session.
//!
//! A session runs on a thread of its own. Starting and stopping it alternates
//! between decisions, which are made here, and work on that thread, which the
//! caller does: each function takes what has happened and returns what is to be
//! done next. A request is over when that is [`SessionAction::Reply`].
//!
//! The caller serializes requests by a lifecycle lock: a second one does not
//! start before the first has been answered.

use vstd::prelude::*;

use crate::capture_queue::{set_preroll_ms, CollectorState, Recorder};
use crate::diagnostics::EngineState;
use crate::error::{with_cause, Error, Result};
use crate::models::{AudioChunk, AudioStatus, OkResponse, SessionConfig, SessionState};
use crate::playback::{playback_level, push_playback_samples, PlaybackState};
use crate::samples::min;

verus! {

/// How often a starting session is given time to report that it runs.
pub const START_POLLS: u32 = 50;

/// How long each time, in milliseconds.
pub const START_POLL_MS: u64 = 20;

/// Where a request stands.
#[derive(Debug, Clone, Copy, PartialEq, Eq, Structural)]
pub enum SessionPhase {
    /// No request is being handled.
    Idle,
    /// The session thread is being spawned.
    Spawning,
    /// The thread has been spawned and has been found not to run so many times.
    Polling(u32),
    /// Polling is over; one more look decides.
    Confirming,
    /// The thread did not come up and is being joined.
    Abandoning,
    /// The session has been told to shut down and its thread is being joined.
    Stopping,
}

/// What the caller has to do next.
#[derive(Debug)]
pub enum SessionAction {
    /// Answer the request.
    Reply(Result<OkResponse>),
    /// Spawn the session thread for samples of this rate, and go on with
    /// [`Audio::thread_spawned`].
    SpawnThread {
        /// Rate in Hz of the samples that will be played.
        playback_sample_rate: u32,
    },
    /// Wait, look at the engine, and go on with [`Audio::engine_checked`].
    CheckEngine {
        /// How long to wait, in milliseconds.
        after_ms: u64,
    },
    /// Join the session thread and go on with [`Audio::thread_joined`].
    JoinThread,
}

impl SessionAction {
    /// What a request to start with this configuration asks for.
    pub open spec fn to_start(config: SessionConfig) -> SessionAction {
        SessionAction::SpawnThread { playback_sample_rate: config.playback_sample_rate }
    }

    /// What a look at the engine is followed by while the session is given chances.
    pub open spec fn to_look_again(engine: EngineState) -> SessionAction {
        SessionAction::CheckEngine {
            after_ms: if engine.running {
                0
            } else {
                START_POLL_MS
            },
        }
    }

    /// The request succeeded.
    pub open spec fn succeeds(self) -> bool {
        self == SessionAction::Reply(Ok(OkResponse { success: true }))
    }

    /// The session could not be set up, for this reason.
    pub open spec fn fails_setup(self, cause: Seq<char>) -> bool {
        self matches SessionAction::Reply(Err(Error::SessionSetupFailed(why))) && why@ == cause
    }

    /// The request was refused because the lifecycle lock is poisoned.
    pub open spec fn refuses(self) -> bool {
        self matches SessionAction::Reply(Err(Error::OperationFailed(why))) && why@
            == "Audio lifecycle lock poisoned"@
    }
}

/// The session of a desktop application.
#[derive(Debug, Clone, Copy, PartialEq, Eq, Structural)]
pub struct Audio {
    /// Where the current request stands.
    pub phase: SessionPhase,
    /// A session is running.
    pub active: bool,
    /// The session thread has been told to shut down.
    pub shutdown: bool,
    /// Capture rate found when the session was started.
    pub capture_sample_rate: u32,
}

impl Audio {
    /// A session is running while it is being stopped, and not yet while it is
    /// being started. Only one that is being stopped, or that has been, has been
    /// told to shut down.
    pub open spec fn wf(&self) -> bool {
        match self.phase {
            SessionPhase::Idle => self.active ==> !self.shutdown,
            SessionPhase::Stopping => self.active && self.shutdown,
            SessionPhase::Polling(polls) => !self.active && !self.shutdown && polls < START_POLLS,
            _ => !self.active && !self.shutdown,
        }
    }

    /// No session has been started.
    pub fn new() -> (audio: Audio)
        ensures
            audio.wf(),
            audio == (Audio {
                phase: SessionPhase::Idle,
                active: false,
                shutdown: false,
                capture_sample_rate: 0,
            }),
    {
        Audio {
            phase: SessionPhase::Idle,
            active: false,
            shutdown: false,
            capture_sample_rate: 0,
        }
    }

    /// After a request to start has been accepted.
    pub open spec fn after_init(self) -> Audio {
        Audio { phase: SessionPhase::Spawning, shutdown: false, ..self }
    }

    /// A request to start a session. While one is running there is nothing to
    /// do; otherwise the pre-roll is configured and the session thread spawned.
    pub fn init_session(
        &mut self,
        recorder: &mut Recorder,
        config: &SessionConfig,
        lifecycle_poisoned: bool,
    ) -> (action: SessionAction)
        requires
            old(self).wf(),
            old(recorder).wf(),
            !lifecycle_poisoned ==> old(self).phase == SessionPhase::Idle,
        ensures
            final(self).wf(),
            final(recorder).wf(),
            lifecycle_poisoned ==> action.refuses(),
            !lifecycle_poisoned && old(self).active ==> action.succeeds(),
            lifecycle_poisoned || old(self).active ==> *final(self) == *old(self)
                && final(recorder)@ == old(recorder)@,
            !lifecycle_poisoned && !old(self).active ==> {
                &&& action == SessionAction::to_start(*config)
                &&& action == SessionAction::SpawnThread {
                    playback_sample_rate: config.playback_sample_rate,
                }
                &&& *final(self) == old(self).after_init()
                &&& final(recorder)@ == old(recorder)@.after_preroll(config.preroll_ms)
            },
    {
        if lifecycle_poisoned {
            return SessionAction::Reply(Err(lifecycle_error()));
        }
        if self.active {
            return SessionAction::Reply(Ok(OkResponse::ok()));
        }
        set_preroll_ms(recorder, config.preroll_ms);
        self.shutdown = false;
        self.phase = SessionPhase::Spawning;
        SessionAction::SpawnThread { playback_sample_rate: config.playback_sample_rate }
    }

    /// After the attempt to spawn the session thread.
    pub open spec fn after_spawn(self, spawned: bool) -> Audio {
        if spawned {
            Audio { phase: SessionPhase::Polling(0), ..self }
        } else {
            Audio { phase: SessionPhase::Idle, ..self }
        }
    }

    /// The session thread has been spawned, or could not be for the reason in
    /// `failure`.
    pub fn thread_spawned(&mut self, failure: Option<String>) -> (action: SessionAction)
        requires
            old(self).wf(),
            old(self).phase == SessionPhase::Spawning,
        ensures
            final(self).wf(),
            *final(self) == old(self).after_spawn(failure is None),
            match failure {
                None => action == (SessionAction::CheckEngine { after_ms: 0 }),
                Some(cause) => action.fails_setup("Failed to spawn audio thread: "@ + cause@),
            },
    {
        match failure {
            None => {
                self.phase = SessionPhase::Polling(0);
                SessionAction::CheckEngine { after_ms: 0 }
            },
            Some(cause) => {
                self.phase = SessionPhase::Idle;
                let why = with_cause("Failed to spawn audio thread: ", &cause);
                SessionAction::Reply(Err(Error::SessionSetupFailed(why)))
            },
        }
    }

    /// After a look at the engine.
    pub open spec fn after_check(self, engine: EngineState) -> Audio {
        match self.phase {
            SessionPhase::Polling(polls) => Audio {
                phase: if engine.running || polls + 1 >= START_POLLS {
                    SessionPhase::Confirming
                } else {
                    SessionPhase::Polling((polls + 1) as u32)
                },
                ..self
            },
            _ => if engine.running {
                Audio {
                    phase: SessionPhase::Idle,
                    active: true,
                    capture_sample_rate: engine.hw_sample_rate,
                    ..self
                }
            } else {
                Audio { phase: SessionPhase::Abandoning, ..self }
            },
        }
    }

    /// The engine has been looked at. The session is given a number of chances to
    /// come up; then one last look decides whether it has.
    pub fn engine_checked(&mut self, engine: &EngineState) -> (action: SessionAction)
        requires
            old(self).wf(),
            old(self).phase is Polling || old(self).phase is Confirming,
        ensures
            final(self).wf(),
            *final(self) == old(self).after_check(*engine),
            old(self).phase is Polling ==> action == SessionAction::to_look_again(*engine),
            old(self).phase is Polling ==> action == (SessionAction::CheckEngine {
                after_ms: if engine.running {
                    0
                } else {
                    START_POLL_MS
                },
            }),
            old(self).phase is Confirming && engine.running ==> action.succeeds(),
            old(self).phase is Confirming && !engine.running ==> action
                == SessionAction::JoinThread,
    {
        match self.phase {
            SessionPhase::Polling(polls) => {
                if engine.running {
                    self.phase = SessionPhase::Confirming;
                    return SessionAction::CheckEngine { after_ms: 0 };
                }
                if polls + 1 >= START_POLLS {
                    self.phase = SessionPhase::Confirming;
                } else {
                    self.phase = SessionPhase::Polling(polls + 1);
                }
                SessionAction::CheckEngine { after_ms: START_POLL_MS }
            },
            _ => {
                if engine.running {
                    self.phase = SessionPhase::Idle;
                    self.active = true;
                    self.capture_sample_rate = engine.hw_sample_rate;
                    SessionAction::Reply(Ok(OkResponse::ok()))
                } else {
                    self.phase = SessionPhase::Abandoning;
                    SessionAction::JoinThread
                }
            },
        }
    }

    /// After the session thread has been joined.
    pub open spec fn after_join(self) -> Audio {
        Audio { phase: SessionPhase::Idle, active: false, ..self }
    }

    /// The session thread has been joined: either it never came up, or it has
    /// shut down as it was told.
    pub fn thread_joined(&mut self) -> (action: SessionAction)
        requires
            old(self).wf(),
            old(self).phase is Abandoning || old(self).phase is Stopping,
        ensures
            final(self).wf(),
            *final(self) == old(self).after_join(),
            old(self).phase is Abandoning ==> action.fails_setup("Audio streams failed to start"@),
            old(self).phase is Stopping ==> action.succeeds(),
    {
        let abandoned = match self.phase {
            SessionPhase::Abandoning => true,
            _ => false,
        };
        self.phase = SessionPhase::Idle;
        self.active = false;
        if abandoned {
            SessionAction::Reply(
                Err(Error::SessionSetupFailed("Audio streams failed to start".to_owned())),
            )
        } else {
            SessionAction::Reply(Ok(OkResponse::ok()))
        }
    }

    /// After a running session has been told to shut down.
    pub open spec fn after_teardown(self) -> Audio {
        Audio { phase: SessionPhase::Stopping, shutdown: true, ..self }
    }

    /// A request to stop the session. Where none is running there is nothing to
    /// do.
    pub fn teardown_session(&mut self, lifecycle_poisoned: bool) -> (action: SessionAction)
        requires
            old(self).wf(),
            !lifecycle_poisoned ==> old(self).phase == SessionPhase::Idle,
        ensures
            final(self).wf(),
            lifecycle_poisoned ==> action.refuses(),
            !lifecycle_poisoned && !old(self).active ==> action.succeeds(),
            lifecycle_poisoned || !old(self).active ==> *final(self) == *old(self),
            !lifecycle_poisoned && old(self).active ==> action == SessionAction::JoinThread
                && *final(self) == old(self).after_teardown(),
    {
        if lifecycle_poisoned {
            return SessionAction::Reply(Err(lifecycle_error()));
        }
        if !self.active {
            return SessionAction::Reply(Ok(OkResponse::ok()));
        }
        self.shutdown = true;
        self.phase = SessionPhase::Stopping;
        SessionAction::JoinThread
    }

    /// Enqueues a chunk of samples for playback, as far as there is room. A
    /// producer of many samples pushes them itself.
    pub fn enqueue_audio(
        &self,
        playback: &mut PlaybackState,
        chunk: &AudioChunk,
    ) -> (response: Result<OkResponse>)
        requires
            old(playback).wf(),
        ensures
            final(playback).wf(),
            response == Result::Ok(OkResponse { success: true }),
            final(playback)@ == old(playback)@.after_enqueue(chunk.samples@),
            final(playback)@ == old(playback)@.after_push(
                chunk.samples@.take(old(playback)@.accepts(chunk.samples@.len()) as int),
            ),
    {
        let _ = push_playback_samples(playback, chunk.samples.as_slice());
        Ok(OkResponse::ok())
    }

    /// What the application learns of the session, with so many samples queued for playback
    /// and in the pre-roll window.
    pub open spec fn status(&self, playback_buffered: nat, preroll_buffered: nat) -> AudioStatus {
        AudioStatus {
            session: if self.active {
                SessionState::Active
            } else {
                SessionState::Inactive
            },
            playback_buffered: playback_buffered as usize,
            preroll_buffered: min(preroll_buffered, usize::MAX as nat) as usize,
        }
    }

    /// Whether a session is running, and how much is queued.
    pub fn get_status(
        &self,
        playback: &PlaybackState,
        collector: &CollectorState,
    ) -> (status: Result<AudioStatus>)
        requires
            playback.wf(),
            collector.wf(),
        ensures
            status == Result::<AudioStatus>::Ok(
                self.status(playback@.queued().len(), collector@.queue.flatten().len()),
            ),
            status == Result::Ok(
                AudioStatus {
                    session: if self.active {
                        SessionState::Active
                    } else {
                        SessionState::Inactive
                    },
                    playback_buffered: playback@.queued().len() as usize,
                    preroll_buffered: min(
                        collector@.queue.flatten().len(),
                        usize::MAX as nat,
                    ) as usize,
                },
            ),
    {
        let session = if self.active {
            SessionState::Active
        } else {
            SessionState::Inactive
        };
        let buffered = collector.buffered();
        let preroll_buffered = if buffered <= usize::MAX as u64 {
            buffered as usize
        } else {
            usize::MAX
        };
        Ok(AudioStatus { session, playback_buffered: playback_level(playback), preroll_buffered })
    }
}

/// The answer where the lifecycle lock is poisoned.
fn lifecycle_error() -> (error: Error)
    ensures
        error matches Error::OperationFailed(why) && why@ == "Audio lifecycle lock poisoned"@,
{
    Error::OperationFailed("Audio lifecycle lock poisoned".to_owned())
}

} // verus!
