//! What holds of capture, pre-roll and recording across several calls.

use vstd::prelude::*;
use vstd::seq_lib::lemma_flatten_concat;

use crate::capture::{CaptureView, CAPTURE_FIFO_CAPACITY};
use crate::capture_queue::{
    cut, lemma_cut_flatten, newest, preroll_window, CollectorView, RecorderView,
    CHUNK_CHANNEL_CAPACITY, COLLECTOR_INTERVAL_MS, DRAIN_BLOCK,
};
use crate::channel::{taken_of, ChannelView, SendAnswer};
use crate::samples::min;

verus! {

/// Every captured sample is pushed or dropped, and one is dropped only when the
/// queue is full. What was waiting stays in front, and the pushed samples are the
/// first of those that were delivered.
pub proof fn law_capture_drops_only_when_full(v: CaptureView, samples: Seq<u32>)
    requires
        v.consistent(),
        v.fifo is Some,
    ensures
        ({
            let next = v.after_capture(samples, true);
            let n = v.room_for(samples.len());
            &&& next.consistent()
            &&& next.waiting() == v.waiting() + samples.take(n as int)
            &&& n < samples.len() ==> next.waiting().len() == CAPTURE_FIFO_CAPACITY
        }),
{
    let n = v.room_for(samples.len());
    assert(v.after_capture(samples, true).waiting() =~= v.waiting() + samples.take(n as int));
}

/// A callback that cannot get at the queue changes none of its contents.
pub proof fn law_missed_capture_keeps_queue(v: CaptureView, samples: Seq<u32>)
    ensures
        v.after_capture(samples, false).fifo == v.fifo,
        v.after_capture(samples, false).samples_pushed == v.samples_pushed,
{
}

/// Draining loses nothing: what is drained and what is left are, end to end, what
/// was waiting.
pub proof fn law_drain_conserves(v: CaptureView, room: nat)
    requires
        v.consistent(),
    ensures
        ({
            let n = min(room, v.waiting().len());
            v.waiting().take(n as int) + v.after_drain(n).waiting() == v.waiting()
        }),
{
    let n = min(room, v.waiting().len());
    assert(v.waiting().take(n as int) + v.after_drain(n).waiting() =~= v.waiting());
}

/// Something that happens to the capture side.
pub enum CaptureEvent {
    /// The rings are set up.
    SetUp,
    /// The input device delivers samples.
    Capture {
        /// The samples.
        samples: Seq<u32>,
        /// The callback got hold of the queue.
        ring_locked: bool,
    },
    /// So many samples are asked for.
    Drain(nat),
}

impl CaptureView {
    /// The samples that go into the queue at an event.
    pub open spec fn accepts(self, event: CaptureEvent) -> Seq<u32> {
        match event {
            CaptureEvent::Capture { samples, ring_locked } => if self.fifo is Some && ring_locked {
                samples.take(self.room_for(samples.len()) as int)
            } else {
                Seq::empty()
            },
            _ => Seq::empty(),
        }
    }

    /// The samples that are drained at an event.
    pub open spec fn drains(self, event: CaptureEvent) -> Seq<u32> {
        match event {
            CaptureEvent::Drain(room) => self.waiting().take(min(room, self.waiting().len()) as int),
            _ => Seq::empty(),
        }
    }

    /// After an event.
    pub open spec fn after_event(self, event: CaptureEvent) -> CaptureView {
        match event {
            CaptureEvent::SetUp => self.after_setup(),
            CaptureEvent::Capture { samples, ring_locked } => self.after_capture(
                samples,
                ring_locked,
            ),
            CaptureEvent::Drain(room) => self.after_drain(min(room, self.waiting().len())),
        }
    }

    /// After a run of events.
    pub open spec fn after_events(self, events: Seq<CaptureEvent>) -> CaptureView
        decreases events.len(),
    {
        if events.len() == 0 {
            self
        } else {
            self.after_events(events.drop_last()).after_event(events.last())
        }
    }

    /// The samples that go into the queue over a run.
    pub open spec fn accepted_over(self, events: Seq<CaptureEvent>) -> Seq<u32>
        decreases events.len(),
    {
        if events.len() == 0 {
            Seq::empty()
        } else {
            self.accepted_over(events.drop_last()) + self.after_events(events.drop_last()).accepts(
                events.last(),
            )
        }
    }

    /// The samples that are drained over a run.
    pub open spec fn drained_over(self, events: Seq<CaptureEvent>) -> Seq<u32>
        decreases events.len(),
    {
        if events.len() == 0 {
            Seq::empty()
        } else {
            self.drained_over(events.drop_last()) + self.after_events(events.drop_last()).drains(
                events.last(),
            )
        }
    }
}

/// Capture is first in, first out over any run of callbacks and drains: what has been
/// drained and what still waits are, end to end, what waited at first and all that
/// has been accepted since. Each sample is drained once, in order.
pub proof fn law_capture_is_first_in_first_out(v: CaptureView, events: Seq<CaptureEvent>)
    requires
        v.consistent(),
    ensures
        v.after_events(events).consistent(),
        v.drained_over(events) + v.after_events(events).waiting() == v.waiting() + v.accepted_over(
            events,
        ),
    decreases events.len(),
{
    if events.len() == 0 {
        assert(v.drained_over(events) + v.waiting() =~= v.waiting() + v.accepted_over(events));
    } else {
        let earlier = events.drop_last();
        let event = events.last();
        let w = v.after_events(earlier);
        let next = w.after_event(event);
        law_capture_is_first_in_first_out(v, earlier);
        assert(w.drains(event) + next.waiting() =~= w.waiting() + w.accepts(event));
        let drained = v.drained_over(earlier);
        assert((drained + w.drains(event)) + next.waiting() =~= drained + (w.drains(event)
            + next.waiting()));
        assert(drained + (w.waiting() + w.accepts(event)) =~= (drained + w.waiting()) + w.accepts(
            event,
        ));
        assert((v.waiting() + v.accepted_over(earlier)) + w.accepts(event) =~= v.waiting()
            + v.accepted_over(events));
    }
}

/// The number of samples pushed is what has been accepted, as long as it stays within
/// `usize`.
pub proof fn law_captures_are_counted(v: CaptureView, events: Seq<CaptureEvent>)
    requires
        v.consistent(),
        v.samples_pushed + v.accepted_over(events).len() <= usize::MAX,
    ensures
        v.after_events(events).samples_pushed == v.samples_pushed + v.accepted_over(events).len(),
    decreases events.len(),
{
    if events.len() > 0 {
        law_capture_is_first_in_first_out(v, events.drop_last());
        law_captures_are_counted(v, events.drop_last());
    }
}

/// How many of the oldest chunks are discarded to keep at most `max_samples`.
pub open spec fn discarded(chunks: Seq<Seq<u32>>, max_samples: nat) -> int {
    chunks.len() - newest(chunks, max_samples).len()
}

/// Trimming discards the oldest chunks, and no more of them than it has to: what is
/// kept is the newest part, it is within the limit, and with the last chunk that
/// was discarded it would not be.
pub proof fn law_trim_keeps_newest(chunks: Seq<Seq<u32>>, max_samples: nat)
    ensures
        0 <= discarded(chunks, max_samples) <= chunks.len(),
        newest(chunks, max_samples) == chunks.skip(discarded(chunks, max_samples)),
        newest(chunks, max_samples).flatten().len() <= max_samples,
        discarded(chunks, max_samples) > 0 ==> chunks.skip(
            discarded(chunks, max_samples) - 1,
        ).flatten().len() > max_samples,
    decreases chunks.len(),
{
    if chunks.flatten().len() <= max_samples || chunks.len() == 0 {
        assert(chunks.skip(0) =~= chunks);
    } else {
        let rest = chunks.drop_first();
        law_trim_keeps_newest(rest, max_samples);
        let d = discarded(chunks, max_samples);
        assert(d == discarded(rest, max_samples) + 1);
        assert(rest.skip(d - 1) =~= chunks.skip(d));
        if d == 1 {
            assert(chunks.skip(0) =~= chunks);
        } else {
            assert(rest.skip(d - 2) =~= chunks.skip(d - 1));
        }
    }
}

/// The samples of two parts of a queue are those of the queue.
proof fn lemma_flatten_parts(chunks: Seq<Seq<u32>>, at: int)
    requires
        0 <= at <= chunks.len(),
    ensures
        chunks.flatten() == chunks.take(at).flatten() + chunks.skip(at).flatten(),
{
    lemma_flatten_concat(chunks.take(at), chunks.skip(at));
    assert(chunks.take(at) + chunks.skip(at) =~= chunks);
}

/// No chunk that a sequence is cut into is larger than asked for.
proof fn lemma_cut_sizes(samples: Seq<u32>, size: nat)
    ensures
        forall|i: int| 0 <= i < cut(samples, size).len() ==> (#[trigger] cut(samples, size)[i]).len()
            <= size,
    decreases samples.len(),
{
    if samples.len() > 0 && size > 0 {
        let n = min(size, samples.len()) as int;
        let rest = cut(samples.skip(n), size);
        lemma_cut_sizes(samples.skip(n), size);
        assert forall|i: int| 0 <= i < cut(samples, size).len() implies (#[trigger] cut(
            samples,
            size,
        )[i]).len() <= size by {
            if i > 0 {
                assert(cut(samples, size)[i] == rest[i - 1]);
            }
        }
    }
}

/// While nothing is recorded the queue is the newest part of what has been
/// captured: after each tick it holds at most the pre-roll window, it ends with the
/// last sample captured, and where something was discarded it is less than one
/// chunk short of the window.
pub proof fn law_preroll_is_a_rolling_window(
    v: CollectorView,
    preroll_ms: u32,
    waiting: Seq<u32>,
    engine_hw_rate: u32,
)
    requires
        !v.was_recording,
        forall|i: int| 0 <= i < v.queue.len() ==> (#[trigger] v.queue[i]).len() <= DRAIN_BLOCK,
    ensures
        ({
            let next = v.after_tick(false, preroll_ms, waiting, engine_hw_rate);
            let window = preroll_window(next.hw_sample_rate, preroll_ms);
            let heard = v.queue.flatten() + waiting;
            let kept = next.queue.flatten();
            &&& kept.len() <= window
            &&& kept.len() <= heard.len()
            &&& kept == heard.skip(heard.len() - kept.len())
            &&& kept.len() < heard.len() ==> kept.len() + DRAIN_BLOCK > window
            &&& heard.len() <= window ==> kept == heard
            &&& forall|i: int|
                0 <= i < next.queue.len() ==> (#[trigger] next.queue[i]).len() <= DRAIN_BLOCK
        }),
{
    let next = v.after_tick(false, preroll_ms, waiting, engine_hw_rate);
    let window = preroll_window(next.hw_sample_rate, preroll_ms);
    let all = v.collected(waiting);
    let heard = v.queue.flatten() + waiting;
    let kept = next.queue.flatten();
    let fresh = cut(waiting, DRAIN_BLOCK as nat);
    lemma_cut_flatten(waiting, DRAIN_BLOCK as nat);
    lemma_flatten_concat(v.queue, fresh);
    assert(all.flatten() == heard);
    law_trim_keeps_newest(all, window);
    let d = discarded(all, window);
    lemma_flatten_parts(all, d);
    assert(kept =~= heard.skip(heard.len() - kept.len()));
    lemma_cut_sizes(waiting, DRAIN_BLOCK as nat);
    assert forall|i: int| 0 <= i < all.len() implies (#[trigger] all[i]).len() <= DRAIN_BLOCK by {
        if i < v.queue.len() {
            assert(all[i] == v.queue[i]);
        } else {
            assert(all[i] == fresh[i - v.queue.len()]);
        }
    }
    if d > 0 {
        let tail = all.skip(d - 1);
        assert(tail.drop_first() =~= next.queue);
        assert(tail.flatten() == tail[0] + kept);
        assert(tail[0] == all[d - 1]);
    } else {
        assert(all.skip(0) =~= all);
    }
    if heard.len() <= window {
        assert(next.queue == all);
    }
    assert forall|i: int| 0 <= i < next.queue.len() implies (#[trigger] next.queue[i]).len()
        <= DRAIN_BLOCK by {
        assert(next.queue[i] == all[i + d]);
    }
}

/// What a tick of the collector finds.
pub struct TickInput {
    /// A recording is under way.
    pub recording: bool,
    /// The samples that have been captured since the last tick.
    pub waiting: Seq<u32>,
    /// The configured pre-roll.
    pub preroll_ms: u32,
    /// The capture rate that the engine reports.
    pub engine_hw_rate: u32,
}

/// All ticks find a recording under way.
pub open spec fn all_recording(ticks: Seq<TickInput>) -> bool {
    forall|i: int| 0 <= i < ticks.len() ==> (#[trigger] ticks[i]).recording
}

/// No tick finds a recording under way.
pub open spec fn all_idle(ticks: Seq<TickInput>) -> bool {
    forall|i: int| 0 <= i < ticks.len() ==> !(#[trigger] ticks[i]).recording
}

/// All the samples that are captured over a number of ticks.
pub open spec fn captured_over(ticks: Seq<TickInput>) -> Seq<u32>
    decreases ticks.len(),
{
    if ticks.len() == 0 {
        Seq::empty()
    } else {
        captured_over(ticks.drop_last()) + ticks.last().waiting
    }
}

impl CollectorView {
    /// After a tick.
    pub open spec fn after_input(self, tick: TickInput) -> CollectorView {
        self.after_tick(tick.recording, tick.preroll_ms, tick.waiting, tick.engine_hw_rate)
    }

    /// After a number of ticks.
    pub open spec fn after_ticks(self, ticks: Seq<TickInput>) -> CollectorView
        decreases ticks.len(),
    {
        if ticks.len() == 0 {
            self
        } else {
            self.after_ticks(ticks.drop_last()).after_input(ticks.last())
        }
    }

    /// The samples that a tick offers to the consumer.
    pub open spec fn offered(self, tick: TickInput) -> Seq<u32> {
        self.offers(tick.recording, tick.waiting).flatten()
    }

    /// The samples that leave the collector at a tick: those that are offered, or
    /// those that are thrown away.
    pub open spec fn gone(self, tick: TickInput) -> Seq<u32> {
        let all = self.collected(tick.waiting).flatten();
        all.take(all.len() - self.after_input(tick).queue.flatten().len())
    }

    /// The samples that are offered over a number of ticks.
    pub open spec fn offered_over(self, ticks: Seq<TickInput>) -> Seq<u32>
        decreases ticks.len(),
    {
        if ticks.len() == 0 {
            Seq::empty()
        } else {
            self.offered_over(ticks.drop_last()) + self.after_ticks(ticks.drop_last()).offered(
                ticks.last(),
            )
        }
    }

    /// The samples that leave the collector over a number of ticks.
    pub open spec fn gone_over(self, ticks: Seq<TickInput>) -> Seq<u32>
        decreases ticks.len(),
    {
        if ticks.len() == 0 {
            Seq::empty()
        } else {
            self.gone_over(ticks.drop_last()) + self.after_ticks(ticks.drop_last()).gone(
                ticks.last(),
            )
        }
    }

    /// All that was queued at first and is captured over a number of ticks.
    pub open spec fn heard_over(self, ticks: Seq<TickInput>) -> Seq<u32> {
        self.queue.flatten() + captured_over(ticks)
    }

    /// Where in all that is heard the samples stand that are offered over a number
    /// of ticks. What a tick offers comes directly after what left before it.
    pub open spec fn offered_at(self, ticks: Seq<TickInput>) -> Seq<int>
        decreases ticks.len(),
    {
        if ticks.len() == 0 {
            Seq::empty()
        } else {
            let left = self.gone_over(ticks.drop_last()).len();
            self.offered_at(ticks.drop_last()) + Seq::new(
                self.after_ticks(ticks.drop_last()).offered(ticks.last()).len(),
                |k: int| left + k,
            )
        }
    }
}

/// The queue holds what it held and what has been drained into it.
proof fn lemma_collected_samples(v: CollectorView, waiting: Seq<u32>)
    ensures
        v.collected(waiting).flatten() == v.queue.flatten() + waiting,
{
    lemma_cut_flatten(waiting, DRAIN_BLOCK as nat);
    lemma_flatten_concat(v.queue, cut(waiting, DRAIN_BLOCK as nat));
}

/// What leaves at a tick and what stays are what was there; what a recording offers
/// is what leaves.
proof fn lemma_tick_conserves(v: CollectorView, tick: TickInput)
    ensures
        v.gone(tick) + v.after_input(tick).queue.flatten() == v.queue.flatten() + tick.waiting,
        tick.recording ==> v.offered(tick) == v.gone(tick),
        !tick.recording ==> v.offered(tick) == Seq::<u32>::empty(),
{
    let all = v.collected(tick.waiting);
    let next = v.after_input(tick);
    lemma_collected_samples(v, tick.waiting);
    assert(Seq::<Seq<u32>>::empty().flatten() =~= Seq::<u32>::empty());
    if tick.recording || v.was_recording {
        assert(next.queue == Seq::<Seq<u32>>::empty());
    } else {
        let window = preroll_window(v.learned_rate(tick.engine_hw_rate), tick.preroll_ms);
        law_trim_keeps_newest(all, window);
        lemma_flatten_parts(all, discarded(all, window));
    }
    assert(v.gone(tick) + next.queue.flatten() =~= all.flatten());
    if tick.recording {
        assert(v.offered(tick) =~= v.gone(tick));
    }
}

/// Every sample leaves the collector once and in order, over any ticks, recording or
/// idle: what has left and what is still queued are, end to end, what was queued at
/// first and all that has been captured since.
pub proof fn law_collector_is_first_in_first_out(v: CollectorView, ticks: Seq<TickInput>)
    ensures
        v.gone_over(ticks) + v.after_ticks(ticks).queue.flatten() == v.heard_over(ticks),
    decreases ticks.len(),
{
    if ticks.len() == 0 {
        assert(v.gone_over(ticks) + v.queue.flatten() =~= v.heard_over(ticks));
    } else {
        let earlier = ticks.drop_last();
        let tick = ticks.last();
        let w = v.after_ticks(earlier);
        law_collector_is_first_in_first_out(v, earlier);
        lemma_tick_conserves(w, tick);
        let left = v.gone_over(earlier);
        assert((left + w.gone(tick)) + w.after_input(tick).queue.flatten() =~= left + (w.gone(tick)
            + w.after_input(tick).queue.flatten()));
        assert(left + (w.queue.flatten() + tick.waiting) =~= (left + w.queue.flatten())
            + tick.waiting);
        assert(v.heard_over(earlier) + tick.waiting =~= v.heard_over(ticks));
    }
}

/// No sample is offered twice, and none out of order, over any number of recordings
/// with idle ticks between them: the samples that are offered stand at ascending
/// positions of all that is heard.
pub proof fn law_no_sample_is_offered_twice(v: CollectorView, ticks: Seq<TickInput>)
    ensures
        v.offered_at(ticks).len() == v.offered_over(ticks).len(),
        forall|i: int|
            0 <= i < v.offered_at(ticks).len() ==> 0 <= #[trigger] v.offered_at(ticks)[i]
                < v.gone_over(ticks).len() && v.gone_over(ticks).len() <= v.heard_over(ticks).len()
                && v.offered_over(ticks)[i] == v.heard_over(ticks)[v.offered_at(ticks)[i]],
        forall|i: int, j: int|
            0 <= i < j < v.offered_at(ticks).len() ==> v.offered_at(ticks)[i] < v.offered_at(
                ticks,
            )[j],
    decreases ticks.len(),
{
    if ticks.len() > 0 {
        let earlier = ticks.drop_last();
        let tick = ticks.last();
        let w = v.after_ticks(earlier);
        let left = v.gone_over(earlier);
        law_no_sample_is_offered_twice(v, earlier);
        law_collector_is_first_in_first_out(v, earlier);
        law_collector_is_first_in_first_out(v, ticks);
        lemma_tick_conserves(w, tick);
        let heard = v.heard_over(ticks);
        assert(heard =~= v.heard_over(earlier) + tick.waiting);
        assert(v.gone_over(ticks) =~= left + w.gone(tick));
        assert(heard.len() == v.gone_over(ticks).len() + v.after_ticks(ticks).queue.flatten().len());
        let before = v.offered_at(earlier);
        assert forall|i: int| 0 <= i < v.offered_at(ticks).len() implies 0
            <= #[trigger] v.offered_at(ticks)[i] < v.gone_over(ticks).len() && v.offered_over(
            ticks,
        )[i] == heard[v.offered_at(ticks)[i]] by {
            if i < before.len() {
                assert(v.offered_at(ticks)[i] == before[i]);
                assert(v.offered_over(ticks)[i] == v.offered_over(earlier)[i]);
                assert(heard[before[i]] == v.heard_over(earlier)[before[i]]);
            } else {
                let k = i - before.len();
                assert(v.offered_at(ticks)[i] == left.len() + k);
                assert(v.offered_over(ticks)[i] == w.gone(tick)[k]);
                assert(heard[left.len() + k] == v.gone_over(ticks)[left.len() + k]);
            }
        }
        assert forall|i: int, j: int| 0 <= i < j < v.offered_at(ticks).len() implies v.offered_at(
            ticks,
        )[i] < v.offered_at(ticks)[j] by {
            if i < before.len() {
                assert(v.offered_at(ticks)[i] == before[i]);
                if j < before.len() {
                    assert(v.offered_at(ticks)[j] == before[j]);
                }
            }
        }
    }
}

/// While nothing is recorded the queue is, over any number of ticks, the end of all
/// that was queued at first and has been captured since: the newest samples,
/// without a gap.
pub proof fn law_preroll_is_the_latest_sound(v: CollectorView, ticks: Seq<TickInput>)
    requires
        !v.was_recording,
        all_idle(ticks),
    ensures
        !v.after_ticks(ticks).was_recording,
        v.after_ticks(ticks).queue.flatten().is_suffix_of(v.heard_over(ticks)),
{
    law_collector_is_first_in_first_out(v, ticks);
    if ticks.len() > 0 {
        assert(!ticks[ticks.len() - 1].recording);
    }
    let heard = v.heard_over(ticks);
    let kept = v.after_ticks(ticks).queue.flatten();
    assert(kept =~= heard.skip(heard.len() - kept.len()));
}

/// Every state of the collector keeps to the window: after any ticks no queued chunk is
/// larger than a drain, and after an idle tick the queue holds no more than the window
/// that was then configured.
pub proof fn law_window_is_kept(v: CollectorView, ticks: Seq<TickInput>)
    requires
        forall|i: int| 0 <= i < v.queue.len() ==> (#[trigger] v.queue[i]).len() <= DRAIN_BLOCK,
    ensures
        ({
            let next = v.after_ticks(ticks);
            &&& forall|i: int|
                0 <= i < next.queue.len() ==> (#[trigger] next.queue[i]).len() <= DRAIN_BLOCK
            &&& ticks.len() > 0 && !ticks.last().recording ==> next.queue.flatten().len()
                <= preroll_window(next.hw_sample_rate, ticks.last().preroll_ms)
        }),
    decreases ticks.len(),
{
    if ticks.len() > 0 {
        let w = v.after_ticks(ticks.drop_last());
        let tick = ticks.last();
        law_window_is_kept(v, ticks.drop_last());
        assert(Seq::<Seq<u32>>::empty().flatten() =~= Seq::<u32>::empty());
        if !tick.recording && !w.was_recording {
            law_preroll_is_a_rolling_window(
                w,
                tick.preroll_ms,
                tick.waiting,
                tick.engine_hw_rate,
            );
        }
    }
}

/// A recording is seamless: what is offered to the consumer is the pre-roll and
/// then all that is captured, without a gap and without an overlap, however long the
/// recording lasts.
pub proof fn law_recording_is_seamless(v: CollectorView, ticks: Seq<TickInput>)
    requires
        ticks.len() > 0,
        all_recording(ticks),
    ensures
        v.offered_over(ticks) == v.heard_over(ticks),
        v.after_ticks(ticks).queue == Seq::<Seq<u32>>::empty(),
{
    law_collector_is_first_in_first_out(v, ticks);
    lemma_recording_offers_all(v, ticks);
    assert(ticks[ticks.len() - 1].recording);
    assert(Seq::<Seq<u32>>::empty().flatten() =~= Seq::<u32>::empty());
    assert(v.gone_over(ticks) + Seq::<u32>::empty() =~= v.gone_over(ticks));
}

/// All that leaves the collector during a recording is offered.
proof fn lemma_recording_offers_all(v: CollectorView, ticks: Seq<TickInput>)
    requires
        all_recording(ticks),
    ensures
        v.offered_over(ticks) == v.gone_over(ticks),
    decreases ticks.len(),
{
    if ticks.len() > 0 {
        let earlier = ticks.drop_last();
        assert forall|i: int| 0 <= i < earlier.len() implies (#[trigger] earlier[i]).recording by {
            assert(earlier[i] == ticks[i]);
        }
        lemma_recording_offers_all(v, earlier);
        assert(ticks[ticks.len() - 1].recording);
        lemma_tick_conserves(v.after_ticks(earlier), ticks.last());
    }
}

/// Push to talk includes what was said before the button was pressed: a recording
/// that starts after a number of idle ticks is offered the end of all that was ever
/// captured, in one piece, and misses nothing of what is captured while it lasts.
pub proof fn law_recording_starts_before_it_is_asked_for(
    v: CollectorView,
    idle: Seq<TickInput>,
    recorded: Seq<TickInput>,
)
    requires
        !v.was_recording,
        all_idle(idle),
        all_recording(recorded),
        recorded.len() > 0,
    ensures
        ({
            let pressed = v.after_ticks(idle);
            let offered = pressed.offered_over(recorded);
            &&& offered == pressed.queue.flatten() + captured_over(recorded)
            &&& offered.is_suffix_of(v.heard_over(idle) + captured_over(recorded))
        }),
{
    let pressed = v.after_ticks(idle);
    law_preroll_is_the_latest_sound(v, idle);
    law_recording_is_seamless(pressed, recorded);
    let heard = v.heard_over(idle) + captured_over(recorded);
    let offered = pressed.offered_over(recorded);
    assert(offered =~= heard.skip(heard.len() - offered.len()));
}

/// None of the chunks is empty.
pub open spec fn none_empty(chunks: Seq<Seq<u32>>) -> bool {
    forall|i: int| 0 <= i < chunks.len() ==> (#[trigger] chunks[i]).len() > 0
}

/// No sequence is cut into empty chunks.
proof fn lemma_cut_none_empty(samples: Seq<u32>, size: nat)
    ensures
        none_empty(cut(samples, size)),
    decreases samples.len(),
{
    if samples.len() > 0 && size > 0 {
        let n = min(size, samples.len()) as int;
        let rest = cut(samples.skip(n), size);
        lemma_cut_none_empty(samples.skip(n), size);
        assert forall|i: int| 0 <= i < cut(samples, size).len() implies (#[trigger] cut(
            samples,
            size,
        )[i]).len() > 0 by {
            if i > 0 {
                assert(cut(samples, size)[i] == rest[i - 1]);
            }
        }
    }
}

/// No chunk that is ever queued or offered is empty.
pub proof fn law_no_chunk_is_empty(v: CollectorView, ticks: Seq<TickInput>, tick: TickInput)
    requires
        none_empty(v.queue),
    ensures
        none_empty(v.after_ticks(ticks).queue),
        none_empty(v.after_ticks(ticks).offers(tick.recording, tick.waiting)),
    decreases ticks.len(),
{
    if ticks.len() > 0 {
        let w = v.after_ticks(ticks.drop_last());
        let last = ticks.last();
        law_no_chunk_is_empty(v, ticks.drop_last(), TickInput { recording: true, ..last });
        let all = w.collected(last.waiting);
        let next = v.after_ticks(ticks).queue;
        if !last.recording && !w.was_recording {
            let window = preroll_window(w.learned_rate(last.engine_hw_rate), last.preroll_ms);
            law_trim_keeps_newest(all, window);
            assert forall|i: int| 0 <= i < next.len() implies (#[trigger] next[i]).len() > 0 by {
                assert(next[i] == all[i + discarded(all, window)]);
            }
        }
    }
    let w = v.after_ticks(ticks);
    let fresh = cut(tick.waiting, DRAIN_BLOCK as nat);
    let all = w.collected(tick.waiting);
    lemma_cut_none_empty(tick.waiting, DRAIN_BLOCK as nat);
    assert forall|i: int| 0 <= i < all.len() implies (#[trigger] all[i]).len() > 0 by {
        if i < w.queue.len() {
            assert(all[i] == w.queue[i]);
        } else {
            assert(all[i] == fresh[i - w.queue.len()]);
        }
    }
}

impl CollectorView {
    /// The chunks that are offered over a number of ticks.
    pub open spec fn chunks_over(self, ticks: Seq<TickInput>) -> Seq<Seq<u32>>
        decreases ticks.len(),
    {
        if ticks.len() == 0 {
            Seq::empty()
        } else {
            self.chunks_over(ticks.drop_last()) + self.after_ticks(ticks.drop_last()).offers(
                ticks.last().recording,
                ticks.last().waiting,
            )
        }
    }
}

impl RecorderView {
    /// After a number of ticks of a collector, where `answers` holds what the channel
    /// answered at each.
    pub open spec fn after_ticks(
        self,
        v: CollectorView,
        ticks: Seq<TickInput>,
        answers: Seq<Seq<SendAnswer>>,
    ) -> RecorderView
        decreases ticks.len(),
    {
        if ticks.len() == 0 {
            self
        } else {
            self.after_ticks(v, ticks.drop_last(), answers.drop_last()).after_send(
                v.after_ticks(ticks.drop_last()).offers(
                    ticks.last().recording,
                    ticks.last().waiting,
                ),
                answers.last(),
            )
        }
    }
}

/// The chunks that are offered hold the samples that are.
proof fn lemma_chunks_hold_samples(v: CollectorView, ticks: Seq<TickInput>)
    ensures
        v.chunks_over(ticks).flatten() == v.offered_over(ticks),
        none_empty(v.queue) ==> none_empty(v.chunks_over(ticks)),
    decreases ticks.len(),
{
    if ticks.len() == 0 {
        assert(v.chunks_over(ticks).flatten() =~= Seq::<u32>::empty());
    } else {
        let earlier = ticks.drop_last();
        let tick = ticks.last();
        let before = v.chunks_over(earlier);
        let fresh = v.after_ticks(earlier).offers(tick.recording, tick.waiting);
        lemma_chunks_hold_samples(v, earlier);
        lemma_flatten_concat(before, fresh);
        if none_empty(v.queue) {
            law_no_chunk_is_empty(v, earlier, tick);
            let all = v.chunks_over(ticks);
            assert forall|i: int| 0 <= i < all.len() implies (#[trigger] all[i]).len() > 0 by {
                if i < before.len() {
                    assert(all[i] == before[i]);
                } else {
                    assert(all[i] == fresh[i - before.len()]);
                }
            }
        }
    }
}

/// The channel of a recording is offered the chunks of every tick, each once and in order.
proof fn lemma_channel_is_offered(
    v: CollectorView,
    recorder: RecorderView,
    id: int,
    ticks: Seq<TickInput>,
    answers: Seq<Seq<SendAnswer>>,
)
    ensures
        recorder.after_start(id).after_ticks(v, ticks, answers).channel matches Some(channel)
            && channel.id == id && channel.limit == CHUNK_CHANNEL_CAPACITY && channel.offered
            == v.chunks_over(ticks),
    decreases ticks.len(),
{
    if ticks.len() > 0 {
        lemma_channel_is_offered(v, recorder, id, ticks.drop_last(), answers.drop_last());
    }
}

/// A recording is offered to its consumer whole, whatever the channel answers: the chunks
/// that its channel has been offered are, end to end, the pre-roll and then all that is
/// captured while the recording lasts, each once and in order, and none of them is empty.
pub proof fn law_recording_is_offered_whole(
    v: CollectorView,
    recorder: RecorderView,
    id: int,
    ticks: Seq<TickInput>,
    answers: Seq<Seq<SendAnswer>>,
)
    requires
        ticks.len() > 0,
        all_recording(ticks),
    ensures
        recorder.after_start(id).after_ticks(v, ticks, answers).channel matches Some(channel)
            && channel.id == id && channel.limit == CHUNK_CHANNEL_CAPACITY
            && channel.offered.flatten() == v.queue.flatten() + captured_over(ticks) && (none_empty(
            v.queue,
        ) ==> none_empty(channel.offered)),
{
    law_recording_is_seamless(v, ticks);
    lemma_channel_is_offered(v, recorder, id, ticks, answers);
    lemma_chunks_hold_samples(v, ticks);
}

/// A consumer that keeps up hears it all: where the channel of a recording has answered to
/// every chunk that it has taken it, what it has taken is, end to end, the pre-roll and
/// then all that is captured while the recording lasts, and nothing else.
pub proof fn law_attentive_consumer_hears_all(
    v: CollectorView,
    recorder: RecorderView,
    id: int,
    ticks: Seq<TickInput>,
    answers: Seq<Seq<SendAnswer>>,
)
    requires
        ticks.len() > 0,
        all_recording(ticks),
        recorder.after_start(id).after_ticks(v, ticks, answers).channel matches Some(channel)
            && channel.sound() && forall|i: int|
            0 <= i < channel.answers.len() ==> channel.answers[i] == SendAnswer::Taken,
    ensures
        recorder.after_start(id).after_ticks(v, ticks, answers).channel matches Some(channel)
            && channel.id == id && channel.taken() == channel.offered && channel.taken().flatten()
            == v.queue.flatten() + captured_over(ticks),
{
    let channel = recorder.after_start(id).after_ticks(v, ticks, answers).channel->0;
    law_recording_is_offered_whole(v, recorder, id, ticks, answers);
    law_willing_channel_takes_all(channel.offered, channel.answers);
}

/// No more chunks are taken than are offered.
proof fn lemma_taken_within(chunks: Seq<Seq<u32>>, answers: Seq<SendAnswer>)
    ensures
        taken_of(chunks, answers).len() <= chunks.len(),
    decreases chunks.len(),
{
    if chunks.len() > 0 {
        lemma_taken_within(chunks.drop_last(), answers.drop_last());
    }
}

/// The first chunks of a channel, as many as it buffers, are lost only to a consumer that
/// is gone: to none of them does it answer that it is full, however slow the consumer is.
pub proof fn law_first_chunks_are_lost_only_to_an_absent_consumer(channel: ChannelView, i: int)
    requires
        channel.sound(),
        0 <= i < channel.answers.len(),
        i < channel.limit,
    ensures
        channel.answers[i] != SendAnswer::Full,
{
    lemma_taken_within(channel.offered.take(i), channel.answers.take(i));
}

/// A recording of no more chunks than the channel buffers reaches a consumer that stays,
/// whole: where the channel has never answered that the consumer is gone, it has taken, end
/// to end, the pre-roll and then all that is captured, however slowly it is read.
pub proof fn law_short_recording_reaches_a_slow_consumer(
    v: CollectorView,
    recorder: RecorderView,
    id: int,
    ticks: Seq<TickInput>,
    answers: Seq<Seq<SendAnswer>>,
)
    requires
        ticks.len() > 0,
        all_recording(ticks),
        recorder.after_start(id).after_ticks(v, ticks, answers).channel matches Some(channel)
            && channel.sound() && channel.offered.len() <= CHUNK_CHANNEL_CAPACITY
            && !channel.answers.contains(SendAnswer::Closed),
    ensures
        recorder.after_start(id).after_ticks(v, ticks, answers).channel matches Some(channel)
            && channel.id == id && channel.taken().flatten() == v.queue.flatten() + captured_over(
            ticks,
        ),
{
    let channel = recorder.after_start(id).after_ticks(v, ticks, answers).channel->0;
    law_recording_is_offered_whole(v, recorder, id, ticks, answers);
    assert forall|i: int| 0 <= i < channel.answers.len() implies channel.answers[i]
        == SendAnswer::Taken by {
        law_first_chunks_are_lost_only_to_an_absent_consumer(channel, i);
        assert(channel.answers.contains(channel.answers[i]));
    }
    law_attentive_consumer_hears_all(v, recorder, id, ticks, answers);
}

/// A consumer that is gone gets nothing more: what a channel has taken is what it had taken
/// before it first answered so.
pub proof fn law_absent_consumer_gets_nothing_more(channel: ChannelView, i: int)
    requires
        channel.sound(),
        0 <= i < channel.answers.len(),
        channel.answers[i] == SendAnswer::Closed,
    ensures
        channel.taken() == taken_of(channel.offered.take(i), channel.answers.take(i)),
    decreases channel.answers.len(),
{
    let earlier = ChannelView {
        offered: channel.offered.drop_last(),
        answers: channel.answers.drop_last(),
        ..channel
    };
    let at = channel.answers.len() - 1;
    assert(channel.answers[at] == SendAnswer::Closed);
    if i < at {
        lemma_earlier_is_sound(channel);
        law_absent_consumer_gets_nothing_more(earlier, i);
        assert(earlier.offered.take(i) =~= channel.offered.take(i));
        assert(earlier.answers.take(i) =~= channel.answers.take(i));
    } else {
        assert(channel.offered.take(i) =~= channel.offered.drop_last());
        assert(channel.answers.take(i) =~= channel.answers.drop_last());
    }
}

/// A sound channel was sound one offer earlier.
proof fn lemma_earlier_is_sound(channel: ChannelView)
    requires
        channel.sound(),
        channel.answers.len() > 0,
    ensures
        (ChannelView {
            offered: channel.offered.drop_last(),
            answers: channel.answers.drop_last(),
            ..channel
        }).sound(),
{
    let earlier = ChannelView {
        offered: channel.offered.drop_last(),
        answers: channel.answers.drop_last(),
        ..channel
    };
    assert forall|i: int|
        0 <= i < earlier.answers.len() && #[trigger] earlier.answers[i]
            == SendAnswer::Full implies taken_of(
        earlier.offered.take(i),
        earlier.answers.take(i),
    ).len() >= earlier.limit by {
        assert(channel.answers[i] == SendAnswer::Full);
        assert(earlier.offered.take(i) =~= channel.offered.take(i));
        assert(earlier.answers.take(i) =~= channel.answers.take(i));
    }
}

/// A channel that has been replaced gets nothing more: after a new recording has been
/// started into another channel, all that is sent goes to that one, and after a
/// recording has been stopped nothing is sent at all, whatever the ticks find.
pub proof fn law_replaced_channel_gets_nothing_more(
    recorder: RecorderView,
    previous: ChannelView,
    id: int,
    v: CollectorView,
    ticks: Seq<TickInput>,
    answers: Seq<Seq<SendAnswer>>,
)
    requires
        recorder.channel == Some(previous),
        previous.id != id,
    ensures
        recorder.after_start(id).after_ticks(v, ticks, answers).channel matches Some(next)
            && next.id == id && next.id != previous.id,
        recorder.after_stop().after_ticks(v, ticks, answers).channel is None,
    decreases ticks.len(),
{
    if ticks.len() > 0 {
        law_replaced_channel_gets_nothing_more(
            recorder,
            previous,
            id,
            v,
            ticks.drop_last(),
            answers.drop_last(),
        );
    }
}

/// A consumer that keeps up misses nothing: where the channel takes every chunk, it
/// has taken exactly what was offered.
pub proof fn law_willing_channel_takes_all(chunks: Seq<Seq<u32>>, answers: Seq<SendAnswer>)
    requires
        answers.len() == chunks.len(),
        forall|i: int| 0 <= i < answers.len() ==> answers[i] == SendAnswer::Taken,
    ensures
        taken_of(chunks, answers) == chunks,
    decreases chunks.len(),
{
    if chunks.len() > 0 {
        law_willing_channel_takes_all(chunks.drop_last(), answers.drop_last());
        assert(taken_of(chunks, answers) =~= chunks);
    } else {
        assert(chunks =~= Seq::<Seq<u32>>::empty());
    }
}

/// The positions of the chunks that were taken.
pub open spec fn taken_at(answers: Seq<SendAnswer>) -> Seq<int>
    decreases answers.len(),
{
    if answers.len() == 0 {
        Seq::empty()
    } else if answers.last() == SendAnswer::Taken {
        taken_at(answers.drop_last()).push(answers.len() - 1)
    } else {
        taken_at(answers.drop_last())
    }
}

/// Chunks stay in chronological order: those that the channel takes are the chunks
/// at ascending positions of what was offered, unchanged.
pub proof fn law_chunks_stay_in_order(chunks: Seq<Seq<u32>>, answers: Seq<SendAnswer>)
    requires
        answers.len() == chunks.len(),
    ensures
        taken_of(chunks, answers).len() == taken_at(answers).len(),
        forall|i: int|
            0 <= i < taken_at(answers).len() ==> 0 <= #[trigger] taken_at(answers)[i]
                < chunks.len() && taken_of(chunks, answers)[i] == chunks[taken_at(answers)[i]],
        forall|i: int, j: int|
            0 <= i < j < taken_at(answers).len() ==> taken_at(answers)[i] < taken_at(answers)[j],
    decreases chunks.len(),
{
    if chunks.len() > 0 {
        law_chunks_stay_in_order(chunks.drop_last(), answers.drop_last());
    }
}

/// A recording leaves nothing behind: the first idle tick after it throws away what
/// has been captured since, and the pre-roll window then fills from the next tick
/// on.
pub proof fn law_window_restarts_after_recording(
    v: CollectorView,
    preroll_ms: u32,
    leftover: Seq<u32>,
    waiting: Seq<u32>,
    engine_hw_rate: u32,
)
    requires
        v.was_recording,
    ensures
        ({
            let stopped = v.after_tick(false, preroll_ms, leftover, engine_hw_rate);
            let next = stopped.after_tick(false, preroll_ms, waiting, engine_hw_rate);
            &&& stopped.queue == Seq::<Seq<u32>>::empty()
            &&& !stopped.was_recording
            &&& next.queue == newest(
                cut(waiting, DRAIN_BLOCK as nat),
                preroll_window(stopped.learned_rate(engine_hw_rate), preroll_ms),
            )
        }),
{
    let fresh = cut(waiting, DRAIN_BLOCK as nat);
    assert(Seq::<Seq<u32>>::empty() + fresh =~= fresh);
}

/// To stop twice is to stop once, and to stop what has not been started changes nothing.
pub proof fn law_stopping_twice_is_stopping_once(v: RecorderView)
    ensures
        v.after_stop().after_stop() == v.after_stop(),
        !v.recording && v.channel is None ==> v.after_stop() == v,
{
}

/// The capture rate that the collector goes by is the first that the engine
/// reported, from then on.
pub proof fn law_rate_is_learned_once(
    v: CollectorView,
    recording: bool,
    preroll_ms: u32,
    waiting: Seq<u32>,
    first: u32,
    later: u32,
)
    requires
        first > 0,
    ensures
        ({
            let next = v.after_tick(recording, preroll_ms, waiting, first);
            &&& next.hw_sample_rate > 0
            &&& next.after_tick(recording, preroll_ms, waiting, later).hw_sample_rate
                == next.hw_sample_rate
        }),
{
}

/// What a channel has been offered and has answered stays so, and sending changes neither
/// which channel it is nor whether a recording is under way.
pub proof fn law_sending_only_adds(
    v: RecorderView,
    channel: ChannelView,
    offered: Seq<Seq<u32>>,
    answers: Seq<SendAnswer>,
)
    requires
        v.channel == Some(channel),
    ensures
        v.after_send(offered, answers).recording == v.recording,
        v.after_send(offered, answers).channel matches Some(next) && next.id == channel.id
            && next.limit == channel.limit && channel.offered.is_prefix_of(next.offered)
            && channel.answers.is_prefix_of(next.answers),
{
}

/// A callback delivers all its samples, or fills the queue: two seconds at 96 kHz.
pub proof fn law_capture_takes_all_or_fills(v: CaptureView, n: nat)
    requires
        v.consistent(),
    ensures
        v.room_for(n) <= n,
        v.waiting().len() + v.room_for(n) <= 2 * 96_000,
        v.room_for(n) < n ==> v.waiting().len() + v.room_for(n) == 2 * 96_000,
{
}

/// A capture callback is counted once, unless it is empty; each of its samples is counted
/// as pushed or as dropped where it gets at the queue, and the callback as a miss where it
/// does not. Counters go round past the largest `usize`.
pub proof fn law_capture_is_counted(v: CaptureView, samples: Seq<u32>, ring_locked: bool)
    requires
        v.consistent(),
        0 < samples.len() <= usize::MAX,
    ensures
        ({
            let next = v.after_capture(samples, ring_locked);
            let reached = v.fifo is Some && ring_locked;
            let n: int = if reached {
                next.waiting().len() - v.waiting().len()
            } else {
                0
            };
            let dropped: int = if reached {
                samples.len() - n
            } else {
                0
            };
            let missed: int = if v.fifo is Some && !ring_locked {
                1
            } else {
                0
            };
            let round = usize::MAX + 1;
            &&& v.callback_count + 1 == next.callback_count || v.callback_count + 1
                == next.callback_count + round
            &&& v.samples_pushed + n == next.samples_pushed || v.samples_pushed + n
                == next.samples_pushed + round
            &&& v.samples_dropped + dropped == next.samples_dropped || v.samples_dropped + dropped
                == next.samples_dropped + round
            &&& v.fifo_lock_fail + missed == next.fifo_lock_fail || v.fifo_lock_fail + missed
                == next.fifo_lock_fail + round
            &&& next.fifo is Some <==> v.fifo is Some
        }),
        v.after_capture(Seq::empty(), ring_locked) == v,
{
}

/// What a callback delivers stands behind what was waiting, sample by sample, in the order
/// in which it was captured.
pub proof fn law_capture_appends(v: CaptureView, samples: Seq<u32>, i: int)
    requires
        v.consistent(),
        v.fifo is Some,
    ensures
        ({
            let next = v.after_capture(samples, true).waiting();
            let before = v.waiting();
            &&& before.len() <= next.len()
            &&& 0 <= i < before.len() ==> next[i] == before[i]
            &&& before.len() <= i < next.len() ==> next[i] == samples[i - before.len()]
            &&& before.len() + samples.len() <= 192_000 ==> next.len() == before.len()
                + samples.len()
            &&& before.len() + samples.len() > 192_000 ==> next.len() == 192_000
        }),
{
}

/// A drain takes the oldest samples and counts nothing; setting up gives a queue where
/// there was none and touches nothing else.
pub proof fn law_drain_takes_the_oldest(v: CaptureView, n: nat, i: int)
    requires
        n <= v.waiting().len(),
    ensures
        v.after_drain(n).waiting().len() == v.waiting().len() - n,
        0 <= i < v.waiting().len() - n ==> v.after_drain(n).waiting()[i] == v.waiting()[i + n],
        v.after_drain(n) == (CaptureView { fifo: v.after_drain(n).fifo, ..v }),
        v.after_drain(n).fifo is Some <==> v.fifo is Some,
        v.after_setup().fifo is Some && v.after_setup().waiting() == v.waiting(),
        v.after_setup() == (CaptureView { fifo: v.after_setup().fifo, ..v }),
{
}

/// The pre-roll window is the duration times the rate, whatever the duration, in whole
/// samples, rounded down. While the rate is unknown it is two seconds at 48 kHz.
pub proof fn law_window_is_duration_times_rate(hw_sample_rate: u32, preroll_ms: u32)
    ensures
        hw_sample_rate > 0 ==> preroll_window(hw_sample_rate, preroll_ms) * 1000 <= hw_sample_rate
            * preroll_ms < (preroll_window(hw_sample_rate, preroll_ms) + 1) * 1000,
        hw_sample_rate == 0 ==> preroll_window(hw_sample_rate, preroll_ms) == 2 * 48_000,
{
    assert(0 <= hw_sample_rate * preroll_ms) by (nonlinear_arith)
        requires
            hw_sample_rate >= 0,
            preroll_ms >= 0,
    ;
}

/// An idle tick keeps all that it has heard as long as that lasts no longer than the
/// configured pre-roll, and never keeps more than lasts so long.
pub proof fn law_idle_tick_keeps_what_fits(
    v: CollectorView,
    preroll_ms: u32,
    waiting: Seq<u32>,
    engine_hw_rate: u32,
)
    requires
        !v.was_recording,
        v.hw_sample_rate > 0 || engine_hw_rate > 0,
    ensures
        ({
            let rate = if v.hw_sample_rate > 0 {
                v.hw_sample_rate
            } else {
                engine_hw_rate
            };
            let heard = v.queue.flatten() + waiting;
            let kept = v.after_tick(false, preroll_ms, waiting, engine_hw_rate).queue.flatten();
            &&& kept.len() * 1000 <= rate * preroll_ms
            &&& kept.len() <= heard.len() && kept == heard.skip(heard.len() - kept.len())
            &&& heard.len() * 1000 <= rate * preroll_ms ==> kept == heard
        }),
{
    let rate = v.learned_rate(engine_hw_rate);
    let window = preroll_window(rate, preroll_ms);
    let all = v.collected(waiting);
    let kept = v.after_tick(false, preroll_ms, waiting, engine_hw_rate).queue.flatten();
    let heard = v.queue.flatten() + waiting;
    law_window_is_duration_times_rate(rate, preroll_ms);
    lemma_collected_samples(v, waiting);
    law_trim_keeps_newest(all, window);
    lemma_flatten_parts(all, discarded(all, window));
    assert(kept =~= heard.skip(heard.len() - kept.len()));
    if heard.len() * 1000 <= rate * preroll_ms {
        assert(heard.len() <= window);
    }
}

/// The collector keeps up: what is captured at any rate up to 96 kHz between two ticks, a
/// fiftieth of a second apart, goes into one chunk.
pub proof fn law_a_tick_fits_in_a_chunk(hw_sample_rate: u32, captured: Seq<u32>)
    requires
        hw_sample_rate <= 96_000,
        captured.len() * 1000 <= hw_sample_rate * COLLECTOR_INTERVAL_MS,
    ensures
        COLLECTOR_INTERVAL_MS * 50 == 1000,
        captured.len() > 0 ==> cut(captured, DRAIN_BLOCK as nat) == seq![captured],
        captured.len() == 0 ==> cut(captured, DRAIN_BLOCK as nat).len() == 0,
{
    if captured.len() > 0 {
        let size = DRAIN_BLOCK as nat;
        assert(captured.take(captured.len() as int) =~= captured);
        assert(cut(captured.skip(captured.len() as int), size) =~= Seq::<Seq<u32>>::empty());
        assert(cut(captured, size) =~= seq![captured]);
    }
}

/// What has been captured is cut into chunks in order: each holds a whole drain, but for
/// the last, which holds the rest, and none is empty.
pub proof fn law_chunks_are_whole_drains(samples: Seq<u32>, i: int)
    requires
        0 <= i < cut(samples, DRAIN_BLOCK as nat).len(),
    ensures
        ({
            let chunks = cut(samples, DRAIN_BLOCK as nat);
            let size = 96_000 * 20 / 1000 + 512;
            &&& chunks.flatten() == samples
            &&& i < chunks.len() - 1 ==> chunks[i].len() == size
            &&& 0 < chunks[i].len() <= size
            &&& (chunks.len() - 1) * size < samples.len() <= chunks.len() * size
            &&& i * size + chunks[i].len() <= samples.len()
            &&& forall|k: int|
                0 <= k < chunks[i].len() ==> #[trigger] chunks[i][k] == samples[i * size + k]
        }),
    decreases samples.len(),
{
    let size = DRAIN_BLOCK as nat;
    let n = min(size, samples.len()) as int;
    let rest = samples.skip(n);
    let later = cut(rest, size);
    let chunks = cut(samples, size);
    lemma_cut_flatten(samples, size);
    assert(chunks == seq![samples.take(n)] + later);
    if later.len() > 0 {
        let j = if i > 0 {
            i - 1
        } else {
            0
        };
        law_chunks_are_whole_drains(rest, j);
        assert(n == size);
        if i > 0 {
            assert(chunks[i] == later[i - 1]);
            assert forall|k: int| 0 <= k < chunks[i].len() implies #[trigger] chunks[i][k]
                == samples[i * 2432 + k] by {
                assert(later[i - 1][k] == rest[(i - 1) * 2432 + k]);
                assert(rest[(i - 1) * 2432 + k] == samples[(i - 1) * 2432 + k + n]);
            }
        }
    } else {
        assert(rest.len() == 0) by {
            if rest.len() > 0 {
                assert(later.len() > 0);
            }
        }
    }
}

/// The capture rate that the collector goes by is the one that it knows, or else the one
/// that the engine reports; a tick remembers whether it found a recording under way.
pub proof fn law_tick_remembers(
    v: CollectorView,
    recording: bool,
    preroll_ms: u32,
    waiting: Seq<u32>,
    engine_hw_rate: u32,
)
    ensures
        ({
            let next = v.after_tick(recording, preroll_ms, waiting, engine_hw_rate);
            &&& v.hw_sample_rate > 0 ==> next.hw_sample_rate == v.hw_sample_rate
            &&& v.hw_sample_rate == 0 ==> next.hw_sample_rate == engine_hw_rate
            &&& next.was_recording == recording
        }),
{
}

/// A tick of a recording offers all that is queued and captured and keeps nothing; an idle
/// tick offers nothing; the first idle tick after a recording keeps nothing either.
pub proof fn law_tick_offers_all_or_nothing(
    v: CollectorView,
    preroll_ms: u32,
    waiting: Seq<u32>,
    engine_hw_rate: u32,
)
    ensures
        v.offers(true, waiting).flatten() == v.queue.flatten() + waiting,
        v.after_tick(true, preroll_ms, waiting, engine_hw_rate).queue.len() == 0,
        v.offers(false, waiting).len() == 0,
        v.was_recording ==> v.after_tick(false, preroll_ms, waiting, engine_hw_rate).queue.len()
            == 0,
        v.queue.is_prefix_of(v.offers(true, waiting)),
        waiting.len() > 0 ==> v.offers(true, waiting).skip(v.queue.len() as int) == cut(
            waiting,
            2432,
        ),
{
    lemma_collected_samples(v, waiting);
    assert(v.offers(true, waiting).skip(v.queue.len() as int) =~= cut(waiting, 2432));
}

/// Starting opens a channel for 256 chunks that has been offered nothing; stopping lets go
/// of it; neither touches the pre-roll, and setting the pre-roll touches nothing else.
pub proof fn law_recording_is_switched_alone(v: RecorderView, id: int, ms: u32)
    ensures
        v.after_start(id).recording,
        v.after_start(id).preroll_ms == v.preroll_ms,
        v.after_start(id).channel matches Some(channel) && channel.id == id && channel.limit == 256
            && channel.offered.len() == 0 && channel.answers.len() == 0,
        !v.after_stop().recording && v.after_stop().channel is None,
        v.after_stop().preroll_ms == v.preroll_ms,
        v.after_start(id).after_stop() == v.after_stop(),
        v.after_preroll(ms).preroll_ms == ms,
        v.after_preroll(ms).after_preroll(v.preroll_ms) == v,
{
}

/// What is sent reaches the channel as it is: behind all that it has been offered, chunk by
/// chunk, with the answers beside it.
pub proof fn law_sending_appends(
    v: RecorderView,
    channel: ChannelView,
    offered: Seq<Seq<u32>>,
    answers: Seq<SendAnswer>,
    i: int,
)
    requires
        v.channel == Some(channel),
        channel.answers.len() == channel.offered.len(),
        answers.len() == offered.len(),
        0 <= i < offered.len(),
    ensures
        v.after_send(offered, answers).channel matches Some(next) && next.offered.len()
            == channel.offered.len() + offered.len() && next.answers.len() == next.offered.len()
            && next.offered[channel.offered.len() + i] == offered[i]
            && next.answers[channel.offered.len() + i] == answers[i],
        v.after_send(offered, answers).preroll_ms == v.preroll_ms,
{
}

/// What a channel has taken is what it has been offered, less what it refused: one more
/// chunk is taken behind the others exactly if the answer to it says so.
pub proof fn law_taken_chunks_are_those_accepted(
    chunks: Seq<Seq<u32>>,
    answers: Seq<SendAnswer>,
    chunk: Seq<u32>,
)
    requires
        answers.len() == chunks.len(),
    ensures
        taken_of(chunks.push(chunk), answers.push(SendAnswer::Taken)) == taken_of(
            chunks,
            answers,
        ).push(chunk),
        taken_of(chunks.push(chunk), answers.push(SendAnswer::Full)) == taken_of(chunks, answers),
        taken_of(chunks.push(chunk), answers.push(SendAnswer::Closed)) == taken_of(chunks, answers),
        taken_of(Seq::empty(), Seq::empty()).len() == 0,
{
    assert(chunks.push(chunk).drop_last() =~= chunks);
    assert(answers.push(SendAnswer::Taken).drop_last() =~= answers);
    assert(answers.push(SendAnswer::Full).drop_last() =~= answers);
    assert(answers.push(SendAnswer::Closed).drop_last() =~= answers);
}

} // verus!
