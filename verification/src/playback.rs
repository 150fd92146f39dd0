//! The playback side of the bridge: samples are pushed by a producer thread and
//! pulled by the realtime render callback of the output device.
//!
//! A *turn* is one stretch of speech. [`begin_playback_turn`] opens it, every
//! sentence is registered before its samples are pushed, and
//! [`mark_playback_all_pushed`] says that nothing more will come. The first
//! render callback that finds the queue empty after that marks the turn as
//! drained.

use vstd::prelude::*;

use crate::ring::{ring_capacity, ring_new, ring_pop_slice, ring_push_slice, SampleRing};
use crate::samples::{count, counted, fill_silence, min, silence, SILENCE};

verus! {

/// Playback queue capacity: two seconds at 48 kHz to absorb jitter.
pub const PLAYBACK_RING_CAPACITY: usize = 96_000;

/// How many samples a step of a push of everything pushes at most. The render callback
/// needs the same state: it must not find it held for long.
pub const PUSH_BLOCK: usize = 512;

/// Nanoseconds in a millisecond.
pub const NANOS_PER_MS: u64 = 1_000_000;

/// How many samples are thrown away at a time when the queue is cleared.
const CLEAR_BLOCK: usize = 4096;

/// Everything the playback side remembers.
pub struct PlaybackState {
    ring: Option<SampleRing>,
    level: usize,
    total_pushed: usize,
    total_rendered: usize,
    boundaries: Vec<(u32, usize)>,
    paused: bool,
    all_pushed: bool,
    drained_at: Option<u64>,
    last_pull_at: Option<u64>,
    render_callback_count: usize,
    render_samples_pulled: usize,
    render_lock_fail: usize,
}

/// The playback state as a mathematical value.
#[verifier::ext_equal]
pub struct PlaybackView {
    /// The queued samples, next to be played first; `None` until the rings
    /// have been set up.
    pub queue: Option<Seq<u32>>,
    /// Number of samples reported as queued.
    pub level: usize,
    /// Samples pushed in this turn.
    pub total_pushed: usize,
    /// Samples pulled by the render callback in this turn.
    pub total_rendered: usize,
    /// The sentences of this turn: each one's number, and how many samples had
    /// been pushed before it.
    pub boundaries: Seq<(u32, usize)>,
    /// The render callback leaves the queue alone.
    pub paused: bool,
    /// The producer will push nothing more in this turn.
    pub all_pushed: bool,
    /// When the queue was first found empty after everything was pushed.
    pub drained_at: Option<u64>,
    /// When the render callback last pulled a sample.
    pub last_pull_at: Option<u64>,
    /// Render callbacks so far.
    pub render_callback_count: usize,
    /// Samples pulled by render callbacks so far.
    pub render_samples_pulled: usize,
    /// Render callbacks that could not get at the queue.
    pub render_lock_fail: usize,
}

impl PlaybackView {
    /// The state before the rings have been set up and before any turn.
    pub open spec fn initial() -> PlaybackView {
        PlaybackView {
            queue: None,
            level: 0,
            total_pushed: 0,
            total_rendered: 0,
            boundaries: Seq::empty(),
            paused: false,
            all_pushed: false,
            drained_at: None,
            last_pull_at: None,
            render_callback_count: 0,
            render_samples_pulled: 0,
            render_lock_fail: 0,
        }
    }

    /// The reported level is the number of queued samples, and the queue is
    /// within its capacity.
    pub open spec fn consistent(self) -> bool {
        match self.queue {
            None => self.level == 0,
            Some(q) => self.level == q.len() && q.len() <= PLAYBACK_RING_CAPACITY,
        }
    }

    /// The queued samples; none before the rings have been set up.
    pub open spec fn queued(self) -> Seq<u32> {
        match self.queue {
            None => Seq::empty(),
            Some(q) => q,
        }
    }

    /// After the rings have been set up. A queue that is already there stays.
    pub open spec fn after_setup(self) -> PlaybackView {
        PlaybackView { queue: Some(self.queued()), ..self }
    }

    /// How many of `n` offered samples a push takes.
    pub open spec fn accepts(self, n: nat) -> nat {
        match self.queue {
            None => 0,
            Some(q) => min(n, (PLAYBACK_RING_CAPACITY - q.len()) as nat),
        }
    }

    /// How many samples a step of a push of everything takes where `left` are left.
    pub open spec fn step_accepts(self, left: nat) -> nat {
        self.accepts(min(left, PUSH_BLOCK as nat))
    }

    /// Where a push of `len` samples stands after a step that started with `written` of
    /// them pushed.
    pub open spec fn step_progress(self, len: nat, written: nat) -> PushProgress {
        let left = (len - written) as nat;
        let n = self.step_accepts(left);
        if n == left {
            PushProgress::Done((written + n) as usize)
        } else if n < min(left, PUSH_BLOCK as nat) {
            PushProgress::Wait((written + n) as usize)
        } else {
            PushProgress::More((written + n) as usize)
        }
    }

    /// After samples have been enqueued, as far as there is room.
    pub open spec fn after_enqueue(self, samples: Seq<u32>) -> PlaybackView {
        self.after_push(samples.take(self.accepts(samples.len()) as int))
    }

    /// After a push of which exactly `taken` went in.
    pub open spec fn after_push(self, taken: Seq<u32>) -> PlaybackView {
        match self.queue {
            None => self,
            Some(q) => PlaybackView {
                queue: Some(q + taken),
                level: (self.level + taken.len()) as usize,
                total_pushed: counted(self.total_pushed, taken.len()),
                ..self
            },
        }
    }

    /// Whether a render callback gets to look at the queue.
    pub open spec fn reaches_queue(self, ring_locked: bool) -> bool {
        !self.paused && self.queue is Some && ring_locked
    }

    /// How many samples a render callback for `frames` frames pulls.
    pub open spec fn pulls(self, frames: nat, ring_locked: bool) -> nat {
        if self.reaches_queue(ring_locked) {
            min(frames, self.queued().len())
        } else {
            0
        }
    }

    /// What a render callback for `frames` frames plays.
    pub open spec fn played(self, frames: nat, ring_locked: bool) -> Seq<u32> {
        let n = self.pulls(frames, ring_locked);
        self.queued().take(n as int) + silence((frames - n) as nat)
    }

    /// After a render callback for `frames` frames at time `now`.
    pub open spec fn after_render(
        self,
        frames: nat,
        ring_locked: bool,
        now: u64,
    ) -> PlaybackView {
        let n = self.pulls(frames, ring_locked);
        if frames == 0 {
            self
        } else if n > 0 {
            PlaybackView {
                queue: Some(self.queued().skip(n as int)),
                level: (self.level - n) as usize,
                total_rendered: counted(self.total_rendered, n),
                last_pull_at: Some(now),
                render_callback_count: counted(self.render_callback_count, 1),
                render_samples_pulled: counted(self.render_samples_pulled, n),
                ..self
            }
        } else {
            PlaybackView {
                drained_at: if self.reaches_queue(ring_locked) && self.all_pushed
                    && self.drained_at is None {
                    Some(now)
                } else {
                    self.drained_at
                },
                render_callback_count: counted(self.render_callback_count, 1),
                render_lock_fail: if !self.paused && self.queue is Some && !ring_locked {
                    counted(self.render_lock_fail, 1)
                } else {
                    self.render_lock_fail
                },
                ..self
            }
        }
    }

    /// After the producer has said that it will push nothing more.
    pub open spec fn after_all_pushed(self) -> PlaybackView {
        PlaybackView { all_pushed: true, ..self }
    }

    /// After playback has been paused.
    pub open spec fn after_pause(self) -> PlaybackView {
        PlaybackView { paused: true, ..self }
    }

    /// After playback has been resumed.
    pub open spec fn after_resume(self) -> PlaybackView {
        PlaybackView { paused: false, ..self }
    }

    /// At the start of a new turn.
    pub open spec fn after_begin_turn(self) -> PlaybackView {
        PlaybackView {
            all_pushed: false,
            drained_at: None,
            paused: false,
            total_pushed: 0,
            total_rendered: 0,
            boundaries: Seq::empty(),
            ..self
        }
    }

    /// After all queued samples have been discarded.
    pub open spec fn after_clear(self) -> PlaybackView {
        PlaybackView {
            queue: match self.queue {
                None => None,
                Some(q) => Some(Seq::empty()),
            },
            level: 0,
            paused: false,
            ..self
        }
    }

    /// After the sentence `sentence_index` has been registered.
    pub open spec fn after_register(self, sentence_index: u32) -> PlaybackView {
        PlaybackView {
            boundaries: self.boundaries.push((sentence_index, self.total_pushed)),
            ..self
        }
    }
}

impl View for PlaybackState {
    type V = PlaybackView;

    closed spec fn view(&self) -> PlaybackView {
        PlaybackView {
            queue: match self.ring {
                None => None,
                Some(ring) => Some(ring@),
            },
            level: self.level,
            total_pushed: self.total_pushed,
            total_rendered: self.total_rendered,
            boundaries: self.boundaries@,
            paused: self.paused,
            all_pushed: self.all_pushed,
            drained_at: self.drained_at,
            last_pull_at: self.last_pull_at,
            render_callback_count: self.render_callback_count,
            render_samples_pulled: self.render_samples_pulled,
            render_lock_fail: self.render_lock_fail,
        }
    }
}

impl PlaybackState {
    /// The ring, once there, was made with the playback capacity.
    pub closed spec fn ring_sized(&self) -> bool {
        self.ring matches Some(ring) ==> ring_capacity(ring) == PLAYBACK_RING_CAPACITY
    }

    /// The state is well formed: it is consistent, and its ring has the
    /// playback capacity.
    pub open spec fn wf(&self) -> bool {
        self@.consistent() && self.ring_sized()
    }

    /// The state before the rings have been set up.
    pub fn new() -> (playback: PlaybackState)
        ensures
            playback.wf(),
            playback@ == PlaybackView::initial(),
    {
        PlaybackState {
            ring: None,
            level: 0,
            total_pushed: 0,
            total_rendered: 0,
            boundaries: Vec::new(),
            paused: false,
            all_pushed: false,
            drained_at: None,
            last_pull_at: None,
            render_callback_count: 0,
            render_samples_pulled: 0,
            render_lock_fail: 0,
        }
    }

    /// The counters of the render callback: callbacks, samples pulled,
    /// callbacks without the queue.
    pub(crate) fn counters(&self) -> (c: (usize, usize, usize))
        ensures
            c.0 == self@.render_callback_count,
            c.1 == self@.render_samples_pulled,
            c.2 == self@.render_lock_fail,
    {
        (self.render_callback_count, self.render_samples_pulled, self.render_lock_fail)
    }

    /// Sets up the playback ring. A ring that is already there stays.
    pub(crate) fn init_ring(&mut self)
        requires
            old(self).wf(),
        ensures
            final(self).wf(),
            final(self)@ == old(self)@.after_setup(),
    {
        if self.ring.is_none() {
            self.ring = Some(ring_new(PLAYBACK_RING_CAPACITY));
        }
    }
}

/// Pushes samples into the playback queue: as many, from the front, as there is
/// room for. Returns how many those were.
///
/// A producer that must not lose samples uses [`push_playback_samples_all`].
pub fn push_playback_samples(playback: &mut PlaybackState, samples: &[u32]) -> (written: usize)
    requires
        old(playback).wf(),
    ensures
        final(playback).wf(),
        written == old(playback)@.accepts(samples@.len()),
        written <= samples@.len(),
        old(playback)@.queue is Some && written < samples@.len() ==> final(playback)@.queued().len()
            == PLAYBACK_RING_CAPACITY,
        final(playback)@ == old(playback)@.after_push(samples@.take(written as int)),
{
    match &mut playback.ring {
        Some(ring) => {
            let written = ring_push_slice(ring, samples);
            if written > 0 {
                playback.level = playback.level + written;
                playback.total_pushed = count(playback.total_pushed, written);
            }
            written
        },
        None => 0,
    }
}

/// Where a push of all samples stands.
#[derive(Clone, Copy, Debug, PartialEq, Eq, Structural)]
pub enum PushProgress {
    /// Nothing is left to do; so many samples have been pushed in total.
    Done(usize),
    /// So many samples have been pushed, and there may be room for more: go on.
    More(usize),
    /// The queue is full; so many samples have been pushed. Give the render
    /// callback a few milliseconds and go on from there.
    Wait(usize),
}

/// One step of pushing **all** of `samples`, of which the first `written` have
/// been pushed by earlier steps. The caller starts with `written` zero, and goes on with
/// the count that it gets: at once after a [`PushProgress::More`], and after a short sleep
/// after a [`PushProgress::Wait`].
///
/// Without a ring, or where `lock_poisoned` says that a holder of the queue has panicked,
/// there is nothing to wait for: the step ends the push.
pub fn push_playback_samples_all(
    playback: &mut PlaybackState,
    samples: &[u32],
    written: usize,
    lock_poisoned: bool,
) -> (progress: PushProgress)
    requires
        old(playback).wf(),
        written <= samples@.len(),
    ensures
        final(playback).wf(),
        lock_poisoned || old(playback)@.queue is None ==> progress == PushProgress::Done(written)
            && final(playback)@ == old(playback)@,
        !lock_poisoned && old(playback)@.queue is Some ==> {
            let left = (samples@.len() - written) as nat;
            let n = old(playback)@.step_accepts(left);
            &&& progress == old(playback)@.step_progress(samples@.len(), written as nat)
            &&& final(playback)@ == old(playback)@.after_push(
                samples@.subrange(written as int, written + n),
            )
            &&& progress == if n == left {
                PushProgress::Done((written + n) as usize)
            } else if n < min(left, PUSH_BLOCK as nat) {
                PushProgress::Wait((written + n) as usize)
            } else {
                PushProgress::More((written + n) as usize)
            }
        },
{
    if lock_poisoned || playback.ring.is_none() {
        return PushProgress::Done(written);
    }
    let left = samples.len() - written;
    let block = if left <= PUSH_BLOCK {
        left
    } else {
        PUSH_BLOCK
    };
    let rest = vstd::slice::slice_subrange(samples, written, written + block);
    let n = push_playback_samples(playback, rest);
    assert(rest@.take(n as int) == samples@.subrange(written as int, written + n));
    if n == left {
        PushProgress::Done(written + n)
    } else if n < block {
        PushProgress::Wait(written + n)
    } else {
        PushProgress::More(written + n)
    }
}

/// The number of samples in the playback queue.
pub fn playback_level(playback: &PlaybackState) -> (level: usize)
    requires
        playback.wf(),
    ensures
        level == playback@.level,
        level == playback@.queued().len(),
{
    playback.level
}

/// Whole milliseconds from `since` to `now`; zero where `since` is later.
pub open spec fn ms_between(since: u64, now: u64) -> u64 {
    if now >= since {
        ((now - since) / NANOS_PER_MS as int) as u64
    } else {
        0
    }
}

impl PlaybackView {
    /// Milliseconds since the last pull, or `u64::MAX` if there was none.
    pub open spec fn since_last_pull(self, now: u64) -> u64 {
        match self.last_pull_at {
            Some(at) => ms_between(at, now),
            None => u64::MAX,
        }
    }

    /// Milliseconds since the turn was found drained, if it has been.
    pub open spec fn since_drained(self, now: u64) -> Option<u64> {
        if self.all_pushed {
            match self.drained_at {
                Some(at) => Some(ms_between(at, now)),
                None => None,
            }
        } else {
            None
        }
    }
}

fn elapsed_ms(since: u64, now: u64) -> (ms: u64)
    ensures
        ms == ms_between(since, now),
{
    if now >= since {
        (now - since) / NANOS_PER_MS
    } else {
        0
    }
}

/// Milliseconds since the render callback last pulled samples, or `u64::MAX` if
/// it never has.
///
/// A drain monitor adds a grace period after the queue has run empty: the
/// operating system still plays what it has pulled.
pub fn ms_since_last_playback_pull(playback: &PlaybackState, now: u64) -> (ms: u64)
    ensures
        ms == playback@.since_last_pull(now),
        playback@.last_pull_at matches Some(at) ==> (at <= now ==> ms * NANOS_PER_MS <= now - at < (ms
            + 1) * NANOS_PER_MS),
{
    match playback.last_pull_at {
        Some(at) => elapsed_ms(at, now),
        None => u64::MAX,
    }
}

/// Starts a new turn, before any of its samples are pushed. Queued samples
/// stay.
pub fn begin_playback_turn(playback: &mut PlaybackState)
    requires
        old(playback).wf(),
    ensures
        final(playback).wf(),
        final(playback)@ == old(playback)@.after_begin_turn(),
{
    playback.all_pushed = false;
    playback.drained_at = None;
    playback.paused = false;
    playback.total_pushed = 0;
    playback.total_rendered = 0;
    playback.boundaries.clear();
}

/// Says that no more samples will be pushed in this turn.
pub fn mark_playback_all_pushed(playback: &mut PlaybackState)
    requires
        old(playback).wf(),
    ensures
        final(playback).wf(),
        final(playback)@ == old(playback)@.after_all_pushed(),
{
    playback.all_pushed = true;
}

/// Pauses playback: the render callback plays silence and the queued samples
/// stay where they are.
pub fn pause_playback(playback: &mut PlaybackState)
    requires
        old(playback).wf(),
    ensures
        final(playback).wf(),
        final(playback)@ == old(playback)@.after_pause(),
{
    playback.paused = true;
}

/// Resumes playback with the sample at which it was paused.
pub fn resume_playback(playback: &mut PlaybackState)
    requires
        old(playback).wf(),
    ensures
        final(playback).wf(),
        final(playback)@ == old(playback)@.after_resume(),
{
    playback.paused = false;
}

/// Whether playback is paused.
pub fn is_playback_paused(playback: &PlaybackState) -> (paused: bool)
    ensures
        paused == playback@.paused,
{
    playback.paused
}

/// Discards all queued samples and ends a pause.
pub fn clear_playback_buffer(playback: &mut PlaybackState)
    requires
        old(playback).wf(),
    ensures
        final(playback).wf(),
        final(playback)@ == old(playback)@.after_clear(),
{
    match &mut playback.ring {
        Some(ring) => {
            discard_all(ring);
        },
        None => {},
    }
    playback.level = 0;
    playback.paused = false;
}

/// Empties a ring, a block at a time.
fn discard_all(ring: &mut SampleRing)
    ensures
        final(ring)@ == Seq::<u32>::empty(),
        ring_capacity(*final(ring)) == ring_capacity(*old(ring)),
{
    let mut scratch: Vec<u32> = vec![0; CLEAR_BLOCK];
    loop
        invariant
            scratch@.len() == CLEAR_BLOCK,
            ring_capacity(*ring) == ring_capacity(*old(ring)),
        ensures
            ring@ == Seq::<u32>::empty(),
        decreases ring@.len(),
    {
        let n = ring_pop_slice(ring, scratch.as_mut_slice());
        if n == 0 {
            break;
        }
    }
}

/// Milliseconds since the turn was found drained: since the first render
/// callback that looked at the queue after [`mark_playback_all_pushed`] and
/// found it empty. `None` while that has not happened.
pub fn ms_since_playback_drained(playback: &PlaybackState, now: u64) -> (ms: Option<u64>)
    ensures
        ms == playback@.since_drained(now),
        playback@.all_pushed ==> (playback@.drained_at matches Some(at) ==> (at <= now ==> ms is Some
            && ms->0 * NANOS_PER_MS <= now - at < (ms->0 + 1) * NANOS_PER_MS)),
{
    if !playback.all_pushed {
        return None;
    }
    match playback.drained_at {
        Some(at) => Some(elapsed_ms(at, now)),
        None => None,
    }
}

/// The render callback of the output device: fills `buffer` with the next
/// queued samples and plays silence where there are none. Returns how many real
/// samples it played.
///
/// `ring_locked` says whether the realtime thread got hold of the queue; `now`
/// is the time. A callback without frames does nothing, and one that finds
/// playback paused does not touch the queue.
pub fn rust_audio_render_callback(
    playback: &mut PlaybackState,
    buffer: &mut [u32],
    ring_locked: bool,
    now: u64,
) -> (read: u32)
    requires
        old(playback).wf(),
        old(buffer)@.len() <= u32::MAX,
    ensures
        final(playback).wf(),
        read == old(playback)@.pulls(old(buffer)@.len(), ring_locked),
        final(buffer)@ == old(playback)@.played(old(buffer)@.len(), ring_locked),
        final(buffer)@.len() == old(buffer)@.len(),
        read <= old(buffer)@.len(),
        forall|i: int|
            0 <= i < read ==> #[trigger] final(buffer)@[i] == old(playback)@.queued()[i],
        forall|i: int|
            read <= i < old(buffer)@.len() ==> #[trigger] final(buffer)@[i] == SILENCE,
        final(playback)@ == old(playback)@.after_render(old(buffer)@.len(), ring_locked, now),
{
    if buffer.len() == 0 {
        assert(playback@.played(0, ring_locked) =~= buffer@);
        return 0;
    }
    playback.render_callback_count = count(playback.render_callback_count, 1);
    let read: usize = if playback.paused {
        0
    } else {
        match &mut playback.ring {
            Some(ring) => {
                if ring_locked {
                    let n = ring_pop_slice(ring, buffer);
                    if n > 0 {
                        playback.level = playback.level - n;
                        playback.render_samples_pulled = count(playback.render_samples_pulled, n);
                        playback.total_rendered = count(playback.total_rendered, n);
                        playback.last_pull_at = Some(now);
                    } else if playback.all_pushed && playback.drained_at.is_none() {
                        playback.drained_at = Some(now);
                    }
                    n
                } else {
                    playback.render_lock_fail = count(playback.render_lock_fail, 1);
                    0
                }
            },
            None => 0,
        }
    };
    fill_silence(buffer, read);
    read as u32
}

/// Registers a sentence of this turn. To be called **before** its samples are
/// pushed: the number of samples pushed so far is where it starts.
/// `sentence_index` counts the sentences of the turn from zero.
pub fn register_sentence_boundary(playback: &mut PlaybackState, sentence_index: u32)
    requires
        old(playback).wf(),
    ensures
        final(playback).wf(),
        final(playback)@ == old(playback)@.after_register(sentence_index),
{
    playback.boundaries.push((sentence_index, playback.total_pushed));
}

/// How far playback has come in the sentence that is being played.
#[derive(Clone, Copy, Debug, PartialEq, Eq, Structural)]
pub struct SentenceProgress {
    /// The number that the sentence was registered with.
    pub sentence_index: u32,
    /// Samples of the sentence that have been played.
    pub played: usize,
    /// Samples of the sentence in all. The progress is `played / length`, and
    /// zero where this is zero.
    pub length: usize,
}

/// The number of sentences, in the order of their registration, whose start
/// playback has reached when `rendered` samples have been played; the count ends
/// at the first whose start is still ahead.
pub open spec fn sentences_reached(boundaries: Seq<(u32, usize)>, rendered: usize) -> nat
    decreases boundaries.len(),
{
    if boundaries.len() == 0 || boundaries[0].1 > rendered {
        0
    } else {
        1 + sentences_reached(boundaries.drop_first(), rendered)
    }
}

/// The position in `boundaries` of the sentence that is being played: the last
/// one reached, or the first where none has been.
pub open spec fn current_sentence(boundaries: Seq<(u32, usize)>, rendered: usize) -> int {
    let reached = sentences_reached(boundaries, rendered);
    if reached == 0 {
        0
    } else {
        reached - 1
    }
}

impl PlaybackView {
    /// Where the sentence at position `at` ends: where the next one starts, or
    /// at the last sample pushed.
    pub open spec fn sentence_end(self, at: int) -> usize {
        if at + 1 < self.boundaries.len() {
            self.boundaries[at + 1].1
        } else {
            self.total_pushed
        }
    }

    /// The progress through the sentence that is being played. Nothing is being
    /// played before the first sentence has been registered and the first
    /// sample been pulled.
    pub open spec fn sentence_progress(self) -> SentenceProgress {
        if self.boundaries.len() == 0 || self.total_rendered == 0 {
            SentenceProgress { sentence_index: 0, played: 0, length: 0 }
        } else {
            let at = current_sentence(self.boundaries, self.total_rendered);
            let start = self.boundaries[at].1;
            let end = self.sentence_end(at);
            let length = if end > start { (end - start) as nat } else { 0 };
            let into = if self.total_rendered > start {
                (self.total_rendered - start) as nat
            } else {
                0
            };
            SentenceProgress {
                sentence_index: self.boundaries[at].0,
                played: min(into, length) as usize,
                length: length as usize,
            }
        }
    }
}

/// Which sentence is being played, and how far it has come.
pub fn playback_sentence_progress(playback: &PlaybackState) -> (progress: SentenceProgress)
    ensures
        progress == playback@.sentence_progress(),
{
    let rendered = playback.total_rendered;
    let len = playback.boundaries.len();
    if len == 0 || rendered == 0 {
        return SentenceProgress { sentence_index: 0, played: 0, length: 0 };
    }
    let reached = count_reached(&playback.boundaries, rendered);
    let at: usize = if reached == 0 {
        0
    } else {
        reached - 1
    };
    let (sentence_index, start) = playback.boundaries[at];
    let end = if at + 1 < len {
        playback.boundaries[at + 1].1
    } else {
        playback.total_pushed
    };
    let length = end.saturating_sub(start);
    let into = rendered.saturating_sub(start);
    let played = if into <= length {
        into
    } else {
        length
    };
    SentenceProgress { sentence_index, played, length }
}

/// Counts the sentences whose start playback has reached.
fn count_reached(boundaries: &Vec<(u32, usize)>, rendered: usize) -> (reached: usize)
    ensures
        reached == sentences_reached(boundaries@, rendered),
        reached <= boundaries@.len(),
{
    let mut i: usize = 0;
    assert(boundaries@.skip(0) == boundaries@);
    while i < boundaries.len()
        invariant
            i <= boundaries@.len(),
            sentences_reached(boundaries@, rendered) == i + sentences_reached(
                boundaries@.skip(i as int),
                rendered,
            ),
        decreases boundaries@.len() - i,
    {
        if boundaries[i].1 > rendered {
            return i;
        }
        assert(boundaries@.skip(i as int).drop_first() == boundaries@.skip(i + 1));
        i = i + 1;
    }
    i
}

} // verus!
