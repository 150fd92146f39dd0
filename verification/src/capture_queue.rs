//! The capture queue: pre-roll and live recording.
//!
//! A collector drains the captured samples at regular ticks into a queue of
//! chunks.
//!
//! - **Idle**: the queue is a rolling window. It is trimmed to the configured
//!   pre-roll duration by discarding the oldest chunks.
//! - **Recording**: nothing is trimmed. The pre-roll that is already queued goes
//!   to the consumer's channel first, and live chunks follow without a gap or an
//!   overlap.

use std::collections::VecDeque;

use tokio::sync::mpsc::{Receiver, Sender};
use vstd::prelude::*;

use crate::capture::{drain_capture_samples, CaptureState, CAPTURE_FIFO_CAPACITY};
use crate::channel::{
    channel_open, channel_view, chunk_samples, forward_chunks, receiver_channel, ChannelView,
    SendAnswer,
};
use crate::samples::min;

verus! {

/// Pre-roll duration before any has been configured, in milliseconds.
pub const DEFAULT_PREROLL_MS: u32 = 500;

/// How often the collector ticks, in milliseconds.
pub const COLLECTOR_INTERVAL_MS: u64 = 20;

/// How many chunks the channel to the consumer buffers: enough to absorb the
/// burst of the pre-roll.
pub const CHUNK_CHANNEL_CAPACITY: usize = 256;

/// The largest chunk: what arrives between two ticks at 96 kHz, and some to
/// spare.
pub const DRAIN_BLOCK: usize = 2432;

/// The pre-roll window while the capture rate is unknown, in samples: two
/// seconds at 48 kHz.
pub const UNKNOWN_RATE_WINDOW: u64 = 96_000;

/// The largest pre-roll window that a rate and a duration can ask for.
const WINDOW_MAX: u64 = 18_446_744_065_119_617;

/// What the rest of the application controls: whether to record, where to, and
/// how much pre-roll to keep.
pub struct Recorder {
    recording: bool,
    preroll_ms: u32,
    chunk_tx: Option<Sender<Vec<u32>>>,
}

/// The recorder as a mathematical value.
#[verifier::ext_equal]
pub struct RecorderView {
    /// Chunks go to the channel instead of being trimmed.
    pub recording: bool,
    /// Configured pre-roll duration in milliseconds.
    pub preroll_ms: u32,
    /// The channel to the consumer.
    pub channel: Option<ChannelView>,
}

impl RecorderView {
    /// With another pre-roll duration.
    pub open spec fn after_preroll(self, ms: u32) -> RecorderView {
        RecorderView { preroll_ms: ms, ..self }
    }

    /// After recording has been started into the new channel `id`.
    pub open spec fn after_start(self, id: int) -> RecorderView {
        RecorderView {
            recording: true,
            channel: Some(
                ChannelView {
                    id,
                    limit: CHUNK_CHANNEL_CAPACITY as nat,
                    offered: Seq::empty(),
                    answers: Seq::empty(),
                },
            ),
            ..self
        }
    }

    /// After recording has been stopped.
    pub open spec fn after_stop(self) -> RecorderView {
        RecorderView { recording: false, channel: None, ..self }
    }

    /// After `offered` has been sent, with these answers from the channel.
    pub open spec fn after_send(
        self,
        offered: Seq<Seq<u32>>,
        answers: Seq<SendAnswer>,
    ) -> RecorderView {
        RecorderView {
            channel: match self.channel {
                None => None,
                Some(channel) => Some(channel.after_send(offered, answers)),
            },
            ..self
        }
    }
}

impl View for Recorder {
    type V = RecorderView;

    closed spec fn view(&self) -> RecorderView {
        RecorderView {
            recording: self.recording,
            preroll_ms: self.preroll_ms,
            channel: match self.chunk_tx {
                None => None,
                Some(tx) => Some(channel_view(tx)),
            },
        }
    }
}

impl Recorder {
    /// There is a channel exactly while recording, and it behaves as one.
    pub open spec fn wf(&self) -> bool {
        &&& self@.recording <==> self@.channel is Some
        &&& self@.channel matches Some(channel) ==> channel.sound()
    }

    /// Not recording, with the default pre-roll.
    pub fn new() -> (recorder: Recorder)
        ensures
            recorder.wf(),
            recorder@ == (RecorderView {
                recording: false,
                preroll_ms: DEFAULT_PREROLL_MS,
                channel: None,
            }),
    {
        Recorder { recording: false, preroll_ms: DEFAULT_PREROLL_MS, chunk_tx: None }
    }
}

/// Sets the pre-roll duration. Called when a session starts.
pub fn set_preroll_ms(recorder: &mut Recorder, ms: u32)
    requires
        old(recorder).wf(),
    ensures
        final(recorder).wf(),
        final(recorder)@ == old(recorder)@.after_preroll(ms),
{
    recorder.preroll_ms = ms;
}

/// Starts recording: from the next tick on, the collector sends all queued
/// chunks, pre-roll first, to the channel whose receiving end is returned.
///
/// Where a recording is under way its channel is replaced, and its consumer sees
/// it close.
pub fn start_recording(recorder: &mut Recorder) -> (rx: Receiver<Vec<u32>>)
    requires
        old(recorder).wf(),
    ensures
        final(recorder).wf(),
        final(recorder)@ == old(recorder)@.after_start(receiver_channel(rx)),
        old(recorder)@.channel matches Some(previous) ==> previous.id != receiver_channel(rx),
{
    let (tx, rx) = channel_open(CHUNK_CHANNEL_CAPACITY, recorder.chunk_tx.as_ref());
    recorder.chunk_tx = Some(tx);
    recorder.recording = true;
    rx
}

/// Stops recording: the collector goes back to trimming, and the channel is
/// closed from this side.
pub fn stop_recording(recorder: &mut Recorder)
    requires
        old(recorder).wf(),
    ensures
        final(recorder).wf(),
        final(recorder)@ == old(recorder)@.after_stop(),
{
    recorder.recording = false;
    recorder.chunk_tx = None;
}

/// Whether a recording is under way.
pub fn is_recording(recorder: &Recorder) -> (recording: bool)
    ensures
        recording == recorder@.recording,
{
    recorder.recording
}

/// The collector's own state.
pub struct CollectorState {
    queue: VecDeque<Vec<u32>>,
    total_samples: u64,
    drain_buf: Vec<u32>,
    was_recording: bool,
    hw_sample_rate: u32,
}

/// The collector as a mathematical value.
#[verifier::ext_equal]
pub struct CollectorView {
    /// The queued chunks, oldest first.
    pub queue: Seq<Seq<u32>>,
    /// The last tick found a recording under way.
    pub was_recording: bool,
    /// Capture rate in Hz; zero while unknown.
    pub hw_sample_rate: u32,
}

impl View for CollectorState {
    type V = CollectorView;

    closed spec fn view(&self) -> CollectorView {
        CollectorView {
            queue: chunk_samples(self.queue@),
            was_recording: self.was_recording,
            hw_sample_rate: self.hw_sample_rate,
        }
    }
}

/// `samples` cut into chunks of `size`, the last one possibly shorter.
pub open spec fn cut(samples: Seq<u32>, size: nat) -> Seq<Seq<u32>>
    decreases samples.len(),
{
    if samples.len() == 0 || size == 0 {
        Seq::empty()
    } else {
        let n = min(size, samples.len()) as int;
        seq![samples.take(n)] + cut(samples.skip(n), size)
    }
}

/// The newest chunks that together hold at most `max_samples` samples.
pub open spec fn newest(chunks: Seq<Seq<u32>>, max_samples: nat) -> Seq<Seq<u32>>
    decreases chunks.len(),
{
    if chunks.flatten().len() <= max_samples || chunks.len() == 0 {
        chunks
    } else {
        newest(chunks.drop_first(), max_samples)
    }
}

/// The number of samples in the pre-roll window.
pub open spec fn preroll_window(hw_sample_rate: u32, preroll_ms: u32) -> nat {
    if hw_sample_rate > 0 {
        (hw_sample_rate * preroll_ms / 1000) as nat
    } else {
        UNKNOWN_RATE_WINDOW as nat
    }
}

impl CollectorView {
    /// A collector that has seen nothing.
    pub open spec fn initial() -> CollectorView {
        CollectorView { queue: Seq::empty(), was_recording: false, hw_sample_rate: 0 }
    }

    /// The queue once `waiting` has been drained into it.
    pub open spec fn collected(self, waiting: Seq<u32>) -> Seq<Seq<u32>> {
        self.queue + cut(waiting, DRAIN_BLOCK as nat)
    }

    /// The chunks that a tick that finds `waiting` captured offers to the
    /// consumer.
    pub open spec fn offers(self, recording: bool, waiting: Seq<u32>) -> Seq<Seq<u32>> {
        if recording {
            self.collected(waiting)
        } else {
            Seq::empty()
        }
    }

    /// The capture rate that the collector goes by when the engine reports
    /// `engine_hw_rate`: the first that was known.
    pub open spec fn learned_rate(self, engine_hw_rate: u32) -> u32 {
        if self.hw_sample_rate == 0 {
            engine_hw_rate
        } else {
            self.hw_sample_rate
        }
    }

    /// After the second half of a tick.
    pub open spec fn after_dispatch(
        self,
        recording: bool,
        preroll_ms: u32,
        engine_hw_rate: u32,
    ) -> CollectorView {
        let rate = self.learned_rate(engine_hw_rate);
        CollectorView {
            queue: if recording || self.was_recording {
                Seq::empty()
            } else {
                newest(self.queue, preroll_window(rate, preroll_ms))
            },
            was_recording: recording,
            hw_sample_rate: rate,
        }
    }

    /// After a tick that finds `waiting` captured.
    pub open spec fn after_tick(
        self,
        recording: bool,
        preroll_ms: u32,
        waiting: Seq<u32>,
        engine_hw_rate: u32,
    ) -> CollectorView {
        CollectorView { queue: self.collected(waiting), ..self }.after_dispatch(
            recording,
            preroll_ms,
            engine_hw_rate,
        )
    }
}

/// The samples of a queue are those of its first chunk and of the rest.
proof fn lemma_flatten_first(chunks: Seq<Seq<u32>>)
    requires
        chunks.len() > 0,
    ensures
        chunks.flatten() == chunks[0] + chunks.drop_first().flatten(),
{
}

/// The chunks that a sequence is cut into hold the sequence.
pub proof fn lemma_cut_flatten(samples: Seq<u32>, size: nat)
    requires
        size > 0,
    ensures
        cut(samples, size).flatten() == samples,
    decreases samples.len(),
{
    if samples.len() > 0 {
        let n = min(size, samples.len()) as int;
        let rest = cut(samples.skip(n), size);
        lemma_cut_flatten(samples.skip(n), size);
        lemma_flatten_first(cut(samples, size));
        assert(cut(samples, size).drop_first() == rest);
        assert(samples.take(n) + samples.skip(n) == samples);
    }
}

impl CollectorState {
    /// The queue holds at most `max_samples` samples, and the count of them is
    /// right.
    closed spec fn counts(&self, max_samples: nat) -> bool {
        &&& self.total_samples == self@.queue.flatten().len()
        &&& self.total_samples <= max_samples
        &&& self.drain_buf@.len() == DRAIN_BLOCK
    }

    /// The state is well formed: the number of queued samples is known and
    /// within the largest window.
    pub closed spec fn wf(&self) -> bool {
        self.counts(WINDOW_MAX as nat)
    }

    /// The state is well formed in the middle of a tick, where what has been captured has
    /// been added and not yet been sent or trimmed.
    pub closed spec fn drained(&self) -> bool {
        self.counts((WINDOW_MAX + CAPTURE_FIFO_CAPACITY) as nat)
    }

    /// An empty collector.
    pub fn new() -> (collector: CollectorState)
        ensures
            collector.wf(),
            collector@ == CollectorView::initial(),
    {
        let collector = CollectorState {
            queue: VecDeque::with_capacity(128),
            total_samples: 0,
            drain_buf: vec![0; DRAIN_BLOCK],
            was_recording: false,
            hw_sample_rate: 0,
        };
        proof {
            assert(collector@.queue =~= Seq::<Seq<u32>>::empty());
        }
        collector
    }

    /// The number of queued samples: what the pre-roll window holds.
    pub fn buffered(&self) -> (samples: u64)
        requires
            self.wf(),
        ensures
            samples == self@.queue.flatten().len(),
    {
        self.total_samples
    }

    /// Drains all captured samples into the queue: the first half of a tick. The second
    /// is [`dispatch`].
    pub fn drain_spsc(&mut self, capture: &mut CaptureState)
        requires
            old(self).wf(),
            old(capture).wf(),
        ensures
            final(self).drained(),
            final(capture).wf(),
            final(self)@ == (CollectorView {
                queue: old(self)@.collected(old(capture)@.waiting()),
                ..old(self)@
            }),
            final(capture)@ == old(capture)@.after_drain(old(capture)@.waiting().len()),
    {
        let ghost waiting = capture@.waiting();
        let ghost mut done: int = 0;
        proof {
            assert(waiting.skip(0) =~= waiting);
            assert(capture@ =~= old(capture)@.after_drain(0));
        }
        loop
            invariant
                capture.wf(),
                waiting == old(capture)@.waiting(),
                waiting.len() <= CAPTURE_FIFO_CAPACITY,
                0 <= done <= waiting.len(),
                capture@ == old(capture)@.after_drain(done as nat),
                capture@.waiting() == waiting.skip(done),
                self.counts((WINDOW_MAX + done) as nat),
                self@.was_recording == old(self)@.was_recording,
                self@.hw_sample_rate == old(self)@.hw_sample_rate,
                self@.queue + cut(waiting.skip(done), DRAIN_BLOCK as nat) == old(self)@.collected(
                    waiting,
                ),
            ensures
                done == waiting.len(),
            decreases waiting.len() - done,
        {
            let read = drain_capture_samples(capture, self.drain_buf.as_mut_slice());
            if read == 0 {
                break;
            }
            let ghost before = self@.queue;
            let chunk = vstd::slice::slice_to_vec(
                vstd::slice::slice_subrange(self.drain_buf.as_slice(), 0, read),
            );
            self.total_samples = self.total_samples + chunk.len() as u64;
            self.queue.push_back(chunk);
            proof {
                let rest = waiting.skip(done);
                assert(chunk@ == rest.take(read as int));
                assert(self@.queue =~= before.push(chunk@));
                before.lemma_flatten_push(chunk@);
                assert(rest.skip(read as int) == waiting.skip(done + read));
                assert(before + (seq![chunk@] + cut(rest.skip(read as int), DRAIN_BLOCK as nat))
                    =~= before.push(chunk@) + cut(waiting.skip(done + read), DRAIN_BLOCK as nat));
                done = done + read;
            }
        }
    }

    /// Trims the queue to at most `max_samples` samples by discarding the oldest
    /// chunks.
    fn trim_to(&mut self, max_samples: u64)
        requires
            old(self).drained(),
        ensures
            final(self).counts(max_samples as nat),
            final(self).drain_buf@ == old(self).drain_buf@,
            final(self)@ == (CollectorView {
                queue: newest(old(self)@.queue, max_samples as nat),
                ..old(self)@
            }),
    {
        proof {
            lemma_flatten_empty();
        }
        while self.total_samples > max_samples && self.queue.len() > 0
            invariant
                self.drained(),
                self.drain_buf@ == old(self).drain_buf@,
                self@.was_recording == old(self)@.was_recording,
                self@.hw_sample_rate == old(self)@.hw_sample_rate,
                newest(self@.queue, max_samples as nat) == newest(
                    old(self)@.queue,
                    max_samples as nat,
                ),
            decreases self.queue@.len(),
        {
            let ghost before = self@.queue;
            if let Some(front) = self.queue.pop_front() {
                proof {
                    lemma_flatten_first(before);
                    assert(self@.queue =~= before.drop_first());
                }
                self.total_samples = self.total_samples - front.len() as u64;
            }
        }
        proof {
            if self.queue@.len() == 0 {
                assert(self@.queue =~= Seq::<Seq<u32>>::empty());
            }
        }
    }

    /// Takes all chunks out of the queue, oldest first.
    fn take_all(&mut self) -> (chunks: Vec<Vec<u32>>)
        requires
            old(self).drained(),
        ensures
            final(self).counts(0),
            final(self).drain_buf@ == old(self).drain_buf@,
            chunk_samples(chunks@) == old(self)@.queue,
            final(self)@ == (CollectorView { queue: Seq::empty(), ..old(self)@ }),
    {
        let mut chunks: Vec<Vec<u32>> = Vec::new();
        self.total_samples = 0;
        while self.queue.len() > 0
            invariant
                chunk_samples(chunks@) + self@.queue == old(self)@.queue,
                self@.was_recording == old(self)@.was_recording,
                self@.hw_sample_rate == old(self)@.hw_sample_rate,
                self.total_samples == 0,
                self.drain_buf@ == old(self).drain_buf@,
                self.drain_buf@.len() == DRAIN_BLOCK,
            decreases self.queue@.len(),
        {
            let ghost before = chunks@;
            let ghost queue = self.queue@;
            if let Some(front) = self.queue.pop_front() {
                chunks.push(front);
                proof {
                    assert(chunk_samples(chunks@) + chunk_samples(self.queue@) =~= chunk_samples(
                        before,
                    ) + chunk_samples(queue));
                }
            }
        }
        proof {
            lemma_flatten_empty();
            assert(self@.queue =~= Seq::<Seq<u32>>::empty());
            assert(chunk_samples(chunks@) + self@.queue =~= chunk_samples(chunks@));
        }
        chunks
    }

    /// Throws the queue away.
    fn forget(&mut self)
        requires
            old(self).drained(),
        ensures
            final(self).counts(0),
            final(self).drain_buf@ == old(self).drain_buf@,
            final(self)@ == (CollectorView { queue: Seq::empty(), ..old(self)@ }),
    {
        self.total_samples = 0;
        self.queue.clear();
        proof {
            lemma_flatten_empty();
            assert(self@.queue =~= Seq::<Seq<u32>>::empty());
        }
    }
}

/// No chunks hold no samples.
proof fn lemma_flatten_empty()
    ensures
        Seq::<Seq<u32>>::empty().flatten() == Seq::<u32>::empty(),
{
}

/// The size of the pre-roll window, in samples.
fn window_samples(hw_sample_rate: u32, preroll_ms: u32) -> (samples: u64)
    ensures
        samples == preroll_window(hw_sample_rate, preroll_ms),
        hw_sample_rate > 0 ==> samples * 1000 <= hw_sample_rate * preroll_ms < (samples + 1) * 1000,
        samples <= WINDOW_MAX,
{
    if hw_sample_rate > 0 {
        proof {
            assert(0 <= hw_sample_rate * preroll_ms <= 0xffff_ffff * 0xffff_ffff)
                by (nonlinear_arith)
                requires
                    hw_sample_rate <= 0xffff_ffff,
                    preroll_ms <= 0xffff_ffff,
            ;
        }
        hw_sample_rate as u64 * preroll_ms as u64 / 1000
    } else {
        UNKNOWN_RATE_WINDOW
    }
}

/// The second half of a tick, once what has been captured is drained: either sends the
/// whole queue to the consumer or trims it to the pre-roll window.
///
/// `engine_hw_rate` is the capture rate that the engine reports, zero while it
/// has none. The answers are those of the channel to each chunk sent, oldest first: a
/// consumer that is too slow or gone loses chunks, and the collector keeps running. The
/// first idle tick after a recording starts with an empty queue.
pub fn dispatch(
    collector: &mut CollectorState,
    recorder: &mut Recorder,
    engine_hw_rate: u32,
) -> (answers: Vec<SendAnswer>)
    requires
        old(collector).drained(),
        old(recorder).wf(),
    ensures
        final(collector).wf(),
        final(recorder).wf(),
        final(collector)@ == old(collector)@.after_dispatch(
            old(recorder)@.recording,
            old(recorder)@.preroll_ms,
            engine_hw_rate,
        ),
        ({
            let offered = if old(recorder)@.recording {
                old(collector)@.queue
            } else {
                Seq::empty()
            };
            &&& answers@.len() == offered.len()
            &&& final(recorder)@ == old(recorder)@.after_send(offered, answers@)
        }),
{
    if collector.hw_sample_rate == 0 {
        collector.hw_sample_rate = engine_hw_rate;
    }
    if recorder.recording {
        collector.was_recording = true;
        let chunks = collector.take_all();
        match &mut recorder.chunk_tx {
            Some(tx) => forward_chunks(tx, chunks),
            None => Vec::new(),
        }
    } else {
        if collector.was_recording {
            collector.forget();
            collector.was_recording = false;
        }
        let window = window_samples(collector.hw_sample_rate, recorder.preroll_ms);
        collector.trim_to(window);
        Vec::new()
    }
}

/// One tick of the collector: drains what has been captured, and then either
/// sends the whole queue to the consumer or trims it to the pre-roll window, as
/// [`dispatch`] says. Whoever has to give the capture side free early calls
/// [`CollectorState::drain_spsc`] and [`dispatch`] one after the other instead.
pub fn collector_tick(
    collector: &mut CollectorState,
    recorder: &mut Recorder,
    capture: &mut CaptureState,
    engine_hw_rate: u32,
) -> (answers: Vec<SendAnswer>)
    requires
        old(collector).wf(),
        old(recorder).wf(),
        old(capture).wf(),
    ensures
        final(collector).wf(),
        final(recorder).wf(),
        final(capture).wf(),
        final(capture)@ == old(capture)@.after_drain(old(capture)@.waiting().len()),
        final(collector)@ == old(collector)@.after_tick(
            old(recorder)@.recording,
            old(recorder)@.preroll_ms,
            old(capture)@.waiting(),
            engine_hw_rate,
        ),
        ({
            let offered = old(collector)@.offers(
                old(recorder)@.recording,
                old(capture)@.waiting(),
            );
            &&& answers@.len() == offered.len()
            &&& final(recorder)@ == old(recorder)@.after_send(offered, answers@)
        }),
{
    collector.drain_spsc(capture);
    dispatch(collector, recorder, engine_hw_rate)
}

} // verus!
