//! What holds of playback over a whole run of calls, in whatever order they come.

use vstd::prelude::*;

use crate::playback::{
    current_sentence, ms_between, sentences_reached, PlaybackView, SentenceProgress,
    PLAYBACK_RING_CAPACITY, PUSH_BLOCK,
};
use crate::playback_laws::{
    law_progress_is_measured_in_its_sentence, law_reached_sentences, law_render_conserves,
};
use crate::samples::{min, silence};

verus! {

/// Something that happens to the playback side.
pub enum PlaybackEvent {
    /// The rings are set up.
    SetUp,
    /// A producer pushes samples.
    Push(Seq<u32>),
    /// The output device asks for so many frames.
    Render {
        /// How many frames.
        frames: nat,
        /// The callback got hold of the queue.
        ring_locked: bool,
        /// The time.
        now: u64,
    },
    /// The producer says that it will push nothing more in this turn.
    AllPushed,
    /// Playback is paused.
    Pause,
    /// Playback is resumed.
    Resume,
    /// The queue is cleared.
    Clear,
    /// A new turn begins.
    BeginTurn,
    /// A sentence is registered.
    Register(u32),
}

impl PlaybackEvent {
    /// When a callback happens.
    pub open spec fn time(self) -> u64 {
        match self {
            PlaybackEvent::Render { now, .. } => now,
            _ => 0,
        }
    }
}

impl PlaybackView {
    /// The samples that go into the queue at an event: those that a push takes.
    pub open spec fn takes(self, event: PlaybackEvent) -> Seq<u32> {
        match event {
            PlaybackEvent::Push(samples) => samples.take(self.accepts(samples.len()) as int),
            _ => Seq::empty(),
        }
    }

    /// The queued samples that are played at an event: the front of the buffer of a
    /// callback, as far as it is not silence.
    pub open spec fn plays(self, event: PlaybackEvent) -> Seq<u32> {
        match event {
            PlaybackEvent::Render { frames, ring_locked, .. } => self.played(
                frames,
                ring_locked,
            ).take(self.pulls(frames, ring_locked) as int),
            _ => Seq::empty(),
        }
    }

    /// The queued samples that are thrown away at an event.
    pub open spec fn discards(self, event: PlaybackEvent) -> Seq<u32> {
        match event {
            PlaybackEvent::Clear => self.queued(),
            _ => Seq::empty(),
        }
    }

    /// After an event.
    pub open spec fn after_event(self, event: PlaybackEvent) -> PlaybackView {
        match event {
            PlaybackEvent::SetUp => self.after_setup(),
            PlaybackEvent::Push(_) => self.after_push(self.takes(event)),
            PlaybackEvent::Render { frames, ring_locked, now } => self.after_render(
                frames,
                ring_locked,
                now,
            ),
            PlaybackEvent::AllPushed => self.after_all_pushed(),
            PlaybackEvent::Pause => self.after_pause(),
            PlaybackEvent::Resume => self.after_resume(),
            PlaybackEvent::Clear => self.after_clear(),
            PlaybackEvent::BeginTurn => self.after_begin_turn(),
            PlaybackEvent::Register(sentence_index) => self.after_register(sentence_index),
        }
    }

    /// After a run of events.
    pub open spec fn after_events(self, events: Seq<PlaybackEvent>) -> PlaybackView
        decreases events.len(),
    {
        if events.len() == 0 {
            self
        } else {
            self.after_events(events.drop_last()).after_event(events.last())
        }
    }

    /// The samples that go into the queue over a run.
    pub open spec fn takes_over(self, events: Seq<PlaybackEvent>) -> Seq<u32>
        decreases events.len(),
    {
        if events.len() == 0 {
            Seq::empty()
        } else {
            self.takes_over(events.drop_last()) + self.after_events(events.drop_last()).takes(
                events.last(),
            )
        }
    }

    /// The queued samples that are played over a run.
    pub open spec fn plays_over(self, events: Seq<PlaybackEvent>) -> Seq<u32>
        decreases events.len(),
    {
        if events.len() == 0 {
            Seq::empty()
        } else {
            self.plays_over(events.drop_last()) + self.after_events(events.drop_last()).plays(
                events.last(),
            )
        }
    }

    /// The queued samples that are thrown away over a run.
    pub open spec fn discards_over(self, events: Seq<PlaybackEvent>) -> Seq<u32>
        decreases events.len(),
    {
        if events.len() == 0 {
            Seq::empty()
        } else {
            self.discards_over(events.drop_last()) + self.after_events(
                events.drop_last(),
            ).discards(events.last())
        }
    }

    /// The samples that leave the queue over a run, played or thrown away, in the
    /// order in which they leave.
    pub open spec fn leaves_over(self, events: Seq<PlaybackEvent>) -> Seq<u32>
        decreases events.len(),
    {
        if events.len() == 0 {
            Seq::empty()
        } else {
            let before = self.after_events(events.drop_last());
            self.leaves_over(events.drop_last()) + before.plays(events.last()) + before.discards(
                events.last(),
            )
        }
    }
}

/// The queue is not cleared.
pub open spec fn without_clears(events: Seq<PlaybackEvent>) -> bool {
    forall|i: int| 0 <= i < events.len() ==> !(#[trigger] events[i] is Clear)
}

/// No new turn begins.
pub open spec fn within_a_turn(events: Seq<PlaybackEvent>) -> bool {
    forall|i: int| 0 <= i < events.len() ==> !(#[trigger] events[i] is BeginTurn)
}

/// Only callbacks happen.
pub open spec fn callbacks_only(events: Seq<PlaybackEvent>) -> bool {
    forall|i: int| 0 <= i < events.len() ==> #[trigger] events[i] is Render
}

/// What goes in at an event is behind what was queued, and what leaves is in front
/// of it.
proof fn lemma_event_conserves(w: PlaybackView, event: PlaybackEvent)
    requires
        w.consistent(),
    ensures
        w.after_event(event).consistent(),
        w.plays(event) + w.discards(event) + w.after_event(event).queued() == w.queued() + w.takes(
            event,
        ),
{
    match event {
        PlaybackEvent::Render { frames, ring_locked, now } => {
            law_render_conserves(w, frames, ring_locked, now);
        },
        _ => {},
    }
    assert(w.plays(event) + w.discards(event) + w.after_event(event).queued() =~= w.queued()
        + w.takes(event));
}

/// Playback is first in, first out, whatever happens in whatever order: pushes,
/// callbacks, pauses, new turns, clears. What has left the queue and what is still
/// queued are, end to end, what was queued at first and all that has been pushed
/// since: no sample is lost, repeated or reordered. Where the queue is not cleared,
/// what has left it is what has been played.
pub proof fn law_playback_is_first_in_first_out(v: PlaybackView, events: Seq<PlaybackEvent>)
    requires
        v.consistent(),
    ensures
        v.after_events(events).consistent(),
        v.leaves_over(events) + v.after_events(events).queued() == v.queued() + v.takes_over(events),
        without_clears(events) ==> {
            &&& v.plays_over(events) == v.leaves_over(events)
            &&& v.plays_over(events) + v.after_events(events).queued() == v.queued() + v.takes_over(
                events,
            )
            &&& v.plays_over(events).is_prefix_of(v.queued() + v.takes_over(events))
        },
    decreases events.len(),
{
    if events.len() == 0 {
        assert(v.leaves_over(events) + v.queued() =~= v.queued() + v.takes_over(events));
    } else {
        let earlier = events.drop_last();
        let event = events.last();
        let w = v.after_events(earlier);
        law_playback_is_first_in_first_out(v, earlier);
        lemma_event_conserves(w, event);
        let left = v.leaves_over(earlier);
        let gone = w.plays(event) + w.discards(event);
        assert(v.leaves_over(events) =~= left + gone);
        assert((left + gone) + w.after_event(event).queued() =~= left + (gone + w.after_event(
            event,
        ).queued()));
        assert(left + (w.queued() + w.takes(event)) =~= (left + w.queued()) + w.takes(event));
        assert((v.queued() + v.takes_over(earlier)) + w.takes(event) =~= v.queued()
            + v.takes_over(events));
        if without_clears(events) {
            assert forall|i: int| 0 <= i < earlier.len() implies !(
            #[trigger] earlier[i] is Clear) by {
                assert(earlier[i] == events[i]);
            }
            assert(!(events[events.len() - 1] is Clear));
            assert(v.plays_over(events) =~= v.leaves_over(events));
        }
    }
    if without_clears(events) {
        let all = v.queued() + v.takes_over(events);
        assert(v.plays_over(events) =~= all.take(v.plays_over(events).len() as int));
    }
}

/// The level is what has been pushed less what has been played and what has been
/// thrown away; it is the number of samples that callbacks can still pull, and
/// within the capacity. Setting up, pausing, resuming, a new turn, a sentence and
/// the end of pushing do not change it.
pub proof fn law_level_balances(v: PlaybackView, events: Seq<PlaybackEvent>, event: PlaybackEvent)
    requires
        v.consistent(),
    ensures
        ({
            let w = v.after_events(events);
            &&& w.level == v.level + v.takes_over(events).len() - v.plays_over(events).len()
                - v.discards_over(events).len()
            &&& w.level == w.queued().len()
            &&& w.level <= PLAYBACK_RING_CAPACITY
            &&& !(event is Push || event is Render || event is Clear) ==> w.after_event(event).level
                == w.level
        }),
    decreases events.len(),
{
    law_playback_is_first_in_first_out(v, events);
    if events.len() > 0 {
        let earlier = events.drop_last();
        let w = v.after_events(earlier);
        law_level_balances(v, earlier, event);
        lemma_event_conserves(w, events.last());
        assert((w.plays(events.last()) + w.discards(events.last()) + w.after_event(
            events.last(),
        ).queued()).len() == (w.queued() + w.takes(events.last())).len());
    }
}

/// A run may be cut anywhere: what holds of its second part holds from the state
/// after the first.
pub proof fn law_runs_join(v: PlaybackView, first: Seq<PlaybackEvent>, second: Seq<PlaybackEvent>)
    ensures
        ({
            let w = v.after_events(first);
            &&& v.after_events(first + second) == w.after_events(second)
            &&& v.takes_over(first + second) == v.takes_over(first) + w.takes_over(second)
            &&& v.plays_over(first + second) == v.plays_over(first) + w.plays_over(second)
            &&& v.discards_over(first + second) == v.discards_over(first) + w.discards_over(second)
        }),
    decreases second.len(),
{
    let w = v.after_events(first);
    let both = first + second;
    if second.len() == 0 {
        assert(both =~= first);
        assert(v.takes_over(first) + w.takes_over(second) =~= v.takes_over(first));
        assert(v.plays_over(first) + w.plays_over(second) =~= v.plays_over(first));
        assert(v.discards_over(first) + w.discards_over(second) =~= v.discards_over(first));
    } else {
        let part = second.drop_last();
        let event = second.last();
        let x = w.after_events(part);
        law_runs_join(v, first, part);
        assert(both.drop_last() =~= first + part);
        assert(both.last() == event);
        lemma_concat_assoc(v.takes_over(first), w.takes_over(part), x.takes(event));
        lemma_concat_assoc(v.plays_over(first), w.plays_over(part), x.plays(event));
        lemma_concat_assoc(v.discards_over(first), w.discards_over(part), x.discards(event));
    }
}

/// It does not matter in which order sequences are joined.
proof fn lemma_concat_assoc(a: Seq<u32>, b: Seq<u32>, c: Seq<u32>)
    ensures
        (a + b) + c == a + (b + c),
{
    assert((a + b) + c =~= a + (b + c));
}

/// The counts of a turn are what they say: in the course of it the number pushed
/// grows by the samples that went in, and the number rendered by those played, as
/// long as the counts stay within `usize`.
pub proof fn law_turn_counts_samples(v: PlaybackView, events: Seq<PlaybackEvent>)
    requires
        v.consistent(),
        within_a_turn(events),
        v.total_pushed + v.takes_over(events).len() <= usize::MAX,
        v.total_rendered + v.plays_over(events).len() <= usize::MAX,
    ensures
        v.after_events(events).total_pushed == v.total_pushed + v.takes_over(events).len(),
        v.after_events(events).total_rendered == v.total_rendered + v.plays_over(events).len(),
    decreases events.len(),
{
    if events.len() > 0 {
        let earlier = events.drop_last();
        law_playback_is_first_in_first_out(v, earlier);
        assert forall|i: int| 0 <= i < earlier.len() implies !(
        #[trigger] earlier[i] is BeginTurn) by {
            assert(earlier[i] == events[i]);
        }
        law_turn_counts_samples(v, earlier);
        assert(!(events[events.len() - 1] is BeginTurn));
    }
}

/// The number of samples pulled by callbacks is what has been played, over any
/// number of turns, as long as it stays within `usize`.
pub proof fn law_pulls_are_counted(v: PlaybackView, events: Seq<PlaybackEvent>)
    requires
        v.consistent(),
        v.render_samples_pulled + v.plays_over(events).len() <= usize::MAX,
    ensures
        v.after_events(events).render_samples_pulled == v.render_samples_pulled + v.plays_over(
            events,
        ).len(),
    decreases events.len(),
{
    if events.len() > 0 {
        law_playback_is_first_in_first_out(v, events.drop_last());
        law_pulls_are_counted(v, events.drop_last());
    }
}

/// No turn has begun since the event at position `i`, and that was none.
pub open spec fn in_last_turn(events: Seq<PlaybackEvent>, i: int) -> bool {
    forall|j: int| i <= j < events.len() ==> !(#[trigger] events[j] is BeginTurn)
}

/// In the last turn of a run the producer has said that it will push nothing more.
pub open spec fn all_pushed_said(events: Seq<PlaybackEvent>) -> bool {
    exists|j: int|
        0 <= j < events.len() && #[trigger] events[j] is AllPushed && in_last_turn(events, j)
}

impl PlaybackView {
    /// The event at position `i` of a run is a callback of its last turn that, after
    /// the producer has said that it will push nothing more, looks at the queue and
    /// finds it empty.
    pub open spec fn finds_drained(self, events: Seq<PlaybackEvent>, i: int) -> bool {
        let before = self.after_events(events.take(i));
        &&& 0 <= i < events.len()
        &&& in_last_turn(events, i)
        &&& all_pushed_said(events.take(i))
        &&& before.queued().len() == 0
        &&& events[i] matches PlaybackEvent::Render { frames, ring_locked, .. } && frames > 0
            && !before.paused && before.queue is Some && ring_locked
    }

    /// It is the first to do so in that turn.
    pub open spec fn first_finds_drained(self, events: Seq<PlaybackEvent>, i: int) -> bool {
        &&& self.finds_drained(events, i)
        &&& forall|k: int| 0 <= k < i ==> !self.finds_drained(events, k)
    }

    /// The event at position `i` of a run is a callback that pulls samples.
    pub open spec fn pulls_at(self, events: Seq<PlaybackEvent>, i: int) -> bool {
        &&& 0 <= i < events.len()
        &&& self.after_events(events.take(i)).plays(events[i]).len() > 0
    }
}

/// The end of pushing is remembered until the next turn.
proof fn lemma_all_pushed(v: PlaybackView, events: Seq<PlaybackEvent>)
    requires
        !v.all_pushed,
    ensures
        v.after_events(events).all_pushed == all_pushed_said(events),
    decreases events.len(),
{
    if events.len() > 0 {
        let earlier = events.drop_last();
        let at = events.len() - 1;
        lemma_all_pushed(v, earlier);
        assert forall|j: int| 0 <= j < at && !(events[at] is BeginTurn) implies in_last_turn(
            events,
            j,
        ) == in_last_turn(earlier, j) by {
            if in_last_turn(events, j) {
                assert forall|k: int| j <= k < earlier.len() implies !(
                #[trigger] earlier[k] is BeginTurn) by {
                    assert(earlier[k] == events[k]);
                }
            }
            if in_last_turn(earlier, j) {
                assert forall|k: int| j <= k < events.len() implies !(
                #[trigger] events[k] is BeginTurn) by {
                    if k < at {
                        assert(earlier[k] == events[k]);
                    }
                }
            }
        }
        if events[at] is BeginTurn {
        } else if events[at] is AllPushed {
            assert(in_last_turn(events, at));
        } else {
            if all_pushed_said(earlier) {
                let j = choose|j: int|
                    0 <= j < earlier.len() && #[trigger] earlier[j] is AllPushed && in_last_turn(
                        earlier,
                        j,
                    );
                assert(events[j] is AllPushed && in_last_turn(events, j));
            }
            if all_pushed_said(events) {
                let j = choose|j: int|
                    0 <= j < events.len() && #[trigger] events[j] is AllPushed && in_last_turn(
                        events,
                        j,
                    );
                assert(earlier[j] is AllPushed && in_last_turn(earlier, j));
            }
        }
    }
}

/// Whether an earlier callback finds the turn drained does not depend on a later
/// event, unless that begins a new turn.
proof fn lemma_finds_earlier(v: PlaybackView, events: Seq<PlaybackEvent>, i: int)
    requires
        events.len() > 0,
        0 <= i < events.len() - 1,
        !(events.last() is BeginTurn),
    ensures
        v.finds_drained(events, i) == v.finds_drained(events.drop_last(), i),
{
    let earlier = events.drop_last();
    assert(earlier.take(i) =~= events.take(i));
    assert(earlier[i] == events[i]);
    if in_last_turn(events, i) {
        assert forall|k: int| i <= k < earlier.len() implies !(
        #[trigger] earlier[k] is BeginTurn) by {
            assert(earlier[k] == events[k]);
        }
    }
    if in_last_turn(earlier, i) {
        assert forall|k: int| i <= k < events.len() implies !(#[trigger] events[k] is BeginTurn) by {
            if k < events.len() - 1 {
                assert(earlier[k] == events[k]);
            }
        }
    }
}

/// Whether the last event of a run finds the turn drained is seen from the state
/// before it.
proof fn lemma_finds_last(v: PlaybackView, events: Seq<PlaybackEvent>)
    requires
        !v.all_pushed,
        events.len() > 0,
    ensures
        ({
            let w = v.after_events(events.drop_last());
            v.finds_drained(events, events.len() - 1) <==> w.all_pushed && w.queued().len() == 0 && (
            events.last() matches PlaybackEvent::Render { frames, ring_locked, .. } && frames > 0
                && w.reaches_queue(ring_locked))
        }),
{
    let at = events.len() - 1;
    lemma_all_pushed(v, events.drop_last());
    assert(events.take(at) =~= events.drop_last());
    if events.last() is Render {
        assert(in_last_turn(events, at));
    }
}

/// A new turn has not been found drained.
proof fn lemma_finds_none(v: PlaybackView, events: Seq<PlaybackEvent>, i: int)
    requires
        events.len() > 0,
        events.last() is BeginTurn,
    ensures
        !v.finds_drained(events, i),
{
    assert(events[events.len() - 1] is BeginTurn);
}

/// The drain time after a run is that of the callback that first found its last turn
/// drained, if there is one.
spec fn drain_time_is_right(v: PlaybackView, events: Seq<PlaybackEvent>) -> bool {
    match v.after_events(events).drained_at {
        None => forall|i: int| !v.finds_drained(events, i),
        Some(at) => exists|i: int| v.first_finds_drained(events, i) && at == events[i].time(),
    }
}

/// The drain time is right after every run.
proof fn lemma_drain_time(v: PlaybackView, events: Seq<PlaybackEvent>)
    requires
        !v.all_pushed,
        v.drained_at is None,
    ensures
        drain_time_is_right(v, events),
    decreases events.len(),
{
    if events.len() > 0 {
        let earlier = events.drop_last();
        let at = events.len() - 1;
        let w = v.after_events(earlier);
        lemma_drain_time(v, earlier);
        if events.last() is BeginTurn {
            assert forall|i: int| !v.finds_drained(events, i) by {
                lemma_finds_none(v, events, i);
            }
        } else {
            assert forall|i: int| 0 <= i < at implies #[trigger] v.finds_drained(events, i)
                == v.finds_drained(earlier, i) by {
                lemma_finds_earlier(v, events, i);
            }
            lemma_finds_last(v, events);
            if w.drained_at is Some {
                let i = choose|i: int|
                    v.first_finds_drained(earlier, i) && w.drained_at == Some(earlier[i].time());
                assert(v.first_finds_drained(events, i));
                assert(earlier[i] == events[i]);
            } else if v.finds_drained(events, at) {
                assert(v.first_finds_drained(events, at));
            }
        }
    }
}

/// The turn counts as drained exactly if, since it began, the producer has said that
/// it will push nothing more and a callback after that has looked at the queue and
/// found it empty. The time is that of the first such callback: later ones do not
/// move it.
pub proof fn law_drain_is_the_first_empty_look(
    v: PlaybackView,
    events: Seq<PlaybackEvent>,
    now: u64,
)
    requires
        !v.all_pushed,
        v.drained_at is None,
    ensures
        ({
            let w = v.after_events(events);
            &&& w.drained_at is Some <==> exists|i: int| v.finds_drained(events, i)
            &&& w.since_drained(now) is Some <==> exists|i: int| v.finds_drained(events, i)
            &&& forall|i: int| #[trigger]
                v.first_finds_drained(events, i) ==> w.drained_at == Some(events[i].time())
                    && w.since_drained(now) == Some(ms_between(events[i].time(), now))
        }),
{
    let w = v.after_events(events);
    lemma_drain_time(v, events);
    lemma_all_pushed(v, events);
    if w.drained_at is Some {
        let i = choose|i: int|
            v.first_finds_drained(events, i) && w.drained_at == Some(events[i].time());
        assert(v.finds_drained(events, i));
        lemma_drained_turn_is_all_pushed(v, events, i);
        assert forall|k: int| #[trigger] v.first_finds_drained(events, k) implies k == i by {
            assert(v.finds_drained(events, k));
        }
    }
}

/// A turn that has been found drained is one in which all has been pushed.
proof fn lemma_drained_turn_is_all_pushed(v: PlaybackView, events: Seq<PlaybackEvent>, i: int)
    requires
        v.finds_drained(events, i),
    ensures
        all_pushed_said(events),
{
    let part = events.take(i);
    let j = choose|j: int|
        0 <= j < part.len() && #[trigger] part[j] is AllPushed && in_last_turn(part, j);
    assert(events[j] is AllPushed);
    assert forall|k: int| j <= k < events.len() implies !(#[trigger] events[k] is BeginTurn) by {
        if k < i {
            assert(part[k] == events[k]);
        }
    }
}

/// The time of the last pull is that of the latest callback that pulled samples;
/// there is none exactly if no callback ever did. Callbacks that pull nothing,
/// clears and new turns do not change it.
pub proof fn law_last_pull_is_the_latest(v: PlaybackView, events: Seq<PlaybackEvent>, now: u64)
    requires
        v.consistent(),
        v.last_pull_at is None,
    ensures
        ({
            let w = v.after_events(events);
            &&& w.since_last_pull(now) == u64::MAX <==> forall|i: int| !v.pulls_at(events, i)
            &&& forall|i: int| #[trigger]
                v.pulls_at(events, i) && (forall|k: int|
                    i < k < events.len() ==> !v.pulls_at(events, k)) ==> w.last_pull_at == Some(
                    events[i].time(),
                ) && w.since_last_pull(now) == ms_between(events[i].time(), now)
        }),
        v.after_events(events).last_pull_at is None <==> forall|i: int| !v.pulls_at(events, i),
    decreases events.len(),
{
    if events.len() > 0 {
        let earlier = events.drop_last();
        let at = events.len() - 1;
        let w = v.after_events(earlier);
        law_last_pull_is_the_latest(v, earlier, now);
        law_playback_is_first_in_first_out(v, earlier);
        assert(events.take(at) =~= earlier);
        assert forall|i: int| 0 <= i < at implies v.pulls_at(events, i) == v.pulls_at(
            earlier,
            i,
        ) by {
            assert(earlier.take(i) =~= events.take(i));
            assert(earlier[i] == events[i]);
        }
        if v.pulls_at(events, at) {
            assert(v.after_events(events).last_pull_at == Some(events[at].time()));
        } else {
            assert(v.after_events(events).last_pull_at == w.last_pull_at);
            assert forall|i: int| #[trigger]
                v.pulls_at(events, i) && (forall|k: int|
                    i < k < events.len() ==> !v.pulls_at(events, k)) implies w.last_pull_at == Some(
                events[i].time(),
            ) by {
                assert(v.pulls_at(earlier, i));
                assert forall|k: int| i < k < earlier.len() implies !v.pulls_at(earlier, k) by {
                    assert(!v.pulls_at(events, k));
                }
                assert(earlier[i] == events[i]);
            }
            if w.last_pull_at is Some {
                let i = choose|i: int| v.pulls_at(earlier, i);
                assert(v.pulls_at(events, i));
            } else {
                assert forall|i: int| !v.pulls_at(events, i) by {
                    assert(!v.pulls_at(earlier, i));
                }
            }
        }
    } else {
        assert forall|i: int| !v.pulls_at(events, i) by {}
    }
}

/// Nothing happens that ends a pause.
pub open spec fn without_resuming(events: Seq<PlaybackEvent>) -> bool {
    forall|i: int|
        0 <= i < events.len() ==> !(#[trigger] events[i] is Resume) && !(events[i] is BeginTurn)
            && !(events[i] is Clear)
}

/// While playback is paused nothing is played.
proof fn lemma_paused(v: PlaybackView, events: Seq<PlaybackEvent>)
    requires
        v.consistent(),
        v.paused,
        without_resuming(events),
    ensures
        v.after_events(events).paused,
        v.after_events(events).consistent(),
        v.after_events(events).queued() == v.queued() + v.takes_over(events),
        v.after_events(events).total_rendered == v.total_rendered,
        v.plays_over(events) == Seq::<u32>::empty(),
        callbacks_only(events) ==> v.after_events(events).queue == v.queue && v.after_events(
            events,
        ).level == v.level,
    decreases events.len(),
{
    if events.len() > 0 {
        let earlier = events.drop_last();
        let at = events.len() - 1;
        assert forall|i: int| 0 <= i < earlier.len() implies !(#[trigger] earlier[i] is Resume)
            && !(earlier[i] is BeginTurn) && !(earlier[i] is Clear) by {
            assert(earlier[i] == events[i]);
        }
        lemma_paused(v, earlier);
        assert(!(events[at] is Resume));
        let w = v.after_events(earlier);
        assert(w.plays(events.last()) =~= Seq::<u32>::empty());
        assert(v.after_events(events).queued() =~= v.queued() + v.takes_over(events));
        if callbacks_only(events) {
            assert forall|i: int| 0 <= i < earlier.len() implies #[trigger] earlier[i] is Render by {
                assert(earlier[i] == events[i]);
            }
            assert(events[at] is Render);
        }
    } else {
        assert(v.queued() + v.takes_over(events) =~= v.queued());
    }
}

/// A pause costs nothing, however long it lasts. While it does every callback plays
/// silence only, and what is pushed is queued behind what was. After it playback
/// goes on with the sample at which it was paused: where only callbacks happened
/// meanwhile, the queue and its level are as before, and the next callback plays what
/// it would have played without the pause. To resume what is not paused changes
/// nothing.
pub proof fn law_pause_keeps_samples(
    v: PlaybackView,
    events: Seq<PlaybackEvent>,
    after: nat,
    ring_locked: bool,
)
    requires
        v.consistent(),
        !v.paused,
        without_resuming(events),
    ensures
        ({
            let paused = v.after_event(PlaybackEvent::Pause);
            let resumed = paused.after_events(events).after_event(PlaybackEvent::Resume);
            &&& forall|i: int|
                0 <= i < events.len() ==> (#[trigger] events[i] matches PlaybackEvent::Render {
                    frames,
                    ring_locked: locked,
                    ..
                } ==> {
                    let then = paused.after_events(events.take(i));
                    then.pulls(frames, locked) == 0 && then.played(frames, locked) == silence(frames)
                })
            &&& !resumed.paused
            &&& resumed.queued() == v.queued() + paused.takes_over(events)
            &&& resumed.total_rendered == v.total_rendered
            &&& callbacks_only(events) ==> resumed.queue == v.queue && resumed.level == v.level
                && resumed.played(after, ring_locked) == v.played(after, ring_locked)
        }),
        v.after_event(PlaybackEvent::Resume) == v,
{
    let paused = v.after_event(PlaybackEvent::Pause);
    lemma_paused(paused, events);
    assert forall|i: int| 0 <= i < events.len() implies (
    #[trigger] events[i] matches PlaybackEvent::Render { frames, ring_locked: locked, .. } ==> {
        let then = paused.after_events(events.take(i));
        then.pulls(frames, locked) == 0 && then.played(frames, locked) == silence(frames)
    }) by {
        let part = events.take(i);
        assert forall|k: int| 0 <= k < part.len() implies !(#[trigger] part[k] is Resume) && !(
        part[k] is BeginTurn) && !(part[k] is Clear) by {
            assert(part[k] == events[k]);
        }
        lemma_paused(paused, part);
        if let PlaybackEvent::Render { frames, ring_locked: locked, .. } = events[i] {
            let then = paused.after_events(part);
            assert(then.played(frames, locked) =~= silence(frames));
        }
    }
}

/// Sentences stay in order over any run, as long as the samples pushed stay within
/// `usize`.
pub proof fn law_sentences_stay_in_order(v: PlaybackView, events: Seq<PlaybackEvent>)
    requires
        v.consistent(),
        v.sentences_in_order(),
        v.total_pushed + v.takes_over(events).len() <= usize::MAX,
    ensures
        v.after_events(events).sentences_in_order(),
        v.after_events(events).total_pushed <= v.total_pushed + v.takes_over(events).len(),
    decreases events.len(),
{
    if events.len() > 0 {
        law_playback_is_first_in_first_out(v, events.drop_last());
        law_sentences_stay_in_order(v, events.drop_last());
    }
}

impl PlaybackView {
    /// The position, in the order of registration, of the sentence that progress is
    /// reported for; the first where nothing is being played.
    pub open spec fn sentence_position(self) -> int {
        if self.boundaries.len() == 0 || self.total_rendered == 0 {
            0
        } else {
            current_sentence(self.boundaries, self.total_rendered)
        }
    }
}

/// `a` is no further than `b`, as fractions; one without length is zero.
pub open spec fn no_further(a: SentenceProgress, b: SentenceProgress) -> bool {
    if a.length == 0 || a.played == 0 {
        true
    } else {
        b.length > 0 && a.played * b.length <= b.played * a.length
    }
}

/// Callbacks leave the sentences alone and only add to what has been rendered.
proof fn lemma_callbacks(v: PlaybackView, events: Seq<PlaybackEvent>)
    requires
        v.consistent(),
        callbacks_only(events),
        v.total_rendered + v.plays_over(events).len() <= usize::MAX,
    ensures
        v.after_events(events).boundaries == v.boundaries,
        v.after_events(events).total_pushed == v.total_pushed,
        v.after_events(events).total_rendered == v.total_rendered + v.plays_over(events).len(),
    decreases events.len(),
{
    if events.len() > 0 {
        let earlier = events.drop_last();
        law_playback_is_first_in_first_out(v, earlier);
        assert forall|i: int| 0 <= i < earlier.len() implies #[trigger] earlier[i] is Render by {
            assert(earlier[i] == events[i]);
        }
        lemma_callbacks(v, earlier);
        assert(events[events.len() - 1] is Render);
    }
}

/// Progress does not go back: over any number of callbacks the sentence being played
/// stays or moves on, and while it stays no less of it has been played.
pub proof fn law_progress_moves_forward(v: PlaybackView, events: Seq<PlaybackEvent>)
    requires
        v.consistent(),
        v.sentences_in_order(),
        v.boundaries.len() > 0,
        callbacks_only(events),
        v.total_rendered + v.plays_over(events).len() <= usize::MAX,
    ensures
        ({
            let w = v.after_events(events);
            &&& 0 <= v.sentence_position() <= w.sentence_position() < v.boundaries.len()
            &&& v.sentence_position() == w.sentence_position() ==> no_further(
                v.sentence_progress(),
                w.sentence_progress(),
            )
        }),
{
    lemma_callbacks(v, events);
    let w = v.after_events(events);
    law_reached_sentences(v.boundaries, v.total_rendered);
    law_reached_sentences(v.boundaries, w.total_rendered);
    let r = sentences_reached(v.boundaries, v.total_rendered);
    let s = sentences_reached(v.boundaries, w.total_rendered);
    if s < r {
        assert(v.boundaries[s as int].1 <= v.total_rendered);
    }
    let a = v.sentence_progress();
    let b = w.sentence_progress();
    if v.sentence_position() == w.sentence_position() && a.length > 0 && a.played > 0 {
        assert(a.length == b.length && a.played <= b.played);
        assert(a.played * b.length <= b.played * a.length) by (nonlinear_arith)
            requires
                a.length == b.length,
                a.played <= b.played,
        ;
    }
}

/// When all that was pushed in a turn has been rendered, the last sentence is the one
/// being played: all of it has been, and it has a length exactly if samples were
/// pushed after it was registered.
pub proof fn law_played_turn_is_complete(v: PlaybackView)
    requires
        v.sentences_in_order(),
        v.boundaries.len() > 0,
        0 < v.total_pushed <= v.total_rendered,
    ensures
        v.sentence_position() == v.boundaries.len() - 1,
        v.sentence_progress().sentence_index == v.boundaries.last().0,
        v.sentence_progress().played == v.sentence_progress().length,
        v.sentence_progress().length == v.total_pushed - v.boundaries.last().1,
{
    law_reached_sentences(v.boundaries, v.total_rendered);
    let last = v.boundaries.len() - 1;
    assert(v.boundaries[last].1 <= v.total_rendered);
}

/// No sentence is registered.
pub open spec fn without_sentences(events: Seq<PlaybackEvent>) -> bool {
    forall|i: int| 0 <= i < events.len() ==> !(#[trigger] events[i] is Register)
}

/// The sentences of a turn stay as they are where none is registered.
proof fn lemma_same_sentences(v: PlaybackView, events: Seq<PlaybackEvent>)
    requires
        within_a_turn(events),
        without_sentences(events),
    ensures
        v.after_events(events).boundaries == v.boundaries,
    decreases events.len(),
{
    if events.len() > 0 {
        let earlier = events.drop_last();
        assert forall|i: int| 0 <= i < earlier.len() implies !(#[trigger] earlier[i] is Register)
            && !(earlier[i] is BeginTurn) by {
            assert(earlier[i] == events[i]);
        }
        lemma_same_sentences(v, earlier);
        assert(!(events[events.len() - 1] is Register));
        assert(!(events[events.len() - 1] is BeginTurn));
    }
}

/// A sentence is what is pushed after its registration: when `m` samples more have
/// been rendered in the turn than had been pushed when it was registered, `m` of its
/// samples have been played, out of those pushed since. Registering it keeps the
/// earlier sentences and touches neither the queue nor the flags.
pub proof fn law_sentence_is_what_follows(
    v: PlaybackView,
    sentence_index: u32,
    events: Seq<PlaybackEvent>,
    m: nat,
)
    requires
        v.consistent(),
        v.sentences_in_order(),
        within_a_turn(events),
        without_sentences(events),
        v.total_pushed + v.after_register(sentence_index).takes_over(events).len() <= usize::MAX,
        v.total_rendered + v.after_register(sentence_index).plays_over(events).len() <= usize::MAX,
        v.after_register(sentence_index).after_events(events).total_rendered == v.total_pushed + m,
        0 < m <= v.after_register(sentence_index).takes_over(events).len(),
    ensures
        ({
            let registered = v.after_register(sentence_index);
            let n = registered.takes_over(events).len();
            &&& registered.boundaries == v.boundaries.push((sentence_index, v.total_pushed))
            &&& registered == (PlaybackView { boundaries: registered.boundaries, ..v })
            &&& registered.after_events(events).sentence_progress() == (SentenceProgress {
                sentence_index,
                played: m as usize,
                length: n as usize,
            })
        }),
{
    let registered = v.after_register(sentence_index);
    let w = registered.after_events(events);
    law_turn_counts_samples(registered, events);
    lemma_same_sentences(registered, events);
    assert(registered.sentences_in_order());
    law_reached_sentences(w.boundaries, w.total_rendered);
    let last = w.boundaries.len() - 1;
    assert(w.boundaries[last].1 == v.total_pushed);
    assert(sentences_reached(w.boundaries, w.total_rendered) == w.boundaries.len());
}

/// In the course of a turn sentences are only added.
proof fn lemma_sentences_are_kept(v: PlaybackView, events: Seq<PlaybackEvent>)
    requires
        within_a_turn(events),
    ensures
        v.boundaries.is_prefix_of(v.after_events(events).boundaries),
    decreases events.len(),
{
    if events.len() > 0 {
        let earlier = events.drop_last();
        assert forall|i: int| 0 <= i < earlier.len() implies !(
        #[trigger] earlier[i] is BeginTurn) by {
            assert(earlier[i] == events[i]);
        }
        lemma_sentences_are_kept(v, earlier);
        assert(!(events[events.len() - 1] is BeginTurn));
        let before = v.after_events(earlier).boundaries;
        let after = v.after_events(events).boundaries;
        assert(before.is_prefix_of(after));
        assert(v.boundaries =~= after.take(v.boundaries.len() as int));
    }
}

/// A sentence ends where the next one starts. Whatever else happens in the turn after that,
/// however many sentences more, while playback is inside the sentence its length is the
/// number of samples pushed between its registration and that of the next, and what has
/// been played of it is the number rendered since its start.
pub proof fn law_sentence_ends_where_the_next_starts(
    v: PlaybackView,
    sentence_index: u32,
    own: Seq<PlaybackEvent>,
    next_index: u32,
    rest: Seq<PlaybackEvent>,
    m: nat,
)
    requires
        v.consistent(),
        v.sentences_in_order(),
        within_a_turn(own),
        without_sentences(own),
        within_a_turn(rest),
        ({
            let first = v.after_register(sentence_index);
            let pushed = first.after_events(own);
            let second = pushed.after_register(next_index);
            &&& v.total_pushed + first.takes_over(own).len() + second.takes_over(rest).len()
                <= usize::MAX
            &&& v.total_rendered + first.plays_over(own).len() <= usize::MAX
            &&& second.after_events(rest).total_rendered == v.total_pushed + m
            &&& 0 < second.after_events(rest).total_rendered
            &&& m < first.takes_over(own).len()
        }),
    ensures
        ({
            let first = v.after_register(sentence_index);
            let second = first.after_events(own).after_register(next_index);
            let p = second.after_events(rest).sentence_progress();
            &&& p.sentence_index == sentence_index
            &&& p.played == m
            &&& p.length == first.takes_over(own).len()
        }),
{
    let first = v.after_register(sentence_index);
    let pushed = first.after_events(own);
    let second = pushed.after_register(next_index);
    let w = second.after_events(rest);
    let at = v.boundaries.len() as int;
    law_turn_counts_samples(first, own);
    lemma_same_sentences(first, own);
    law_playback_is_first_in_first_out(first, own);
    assert(first.sentences_in_order());
    law_sentences_stay_in_order(first, own);
    assert(second.sentences_in_order());
    assert(second.consistent());
    law_sentences_stay_in_order(second, rest);
    lemma_sentences_are_kept(second, rest);
    assert(second.boundaries[at] == (sentence_index, v.total_pushed));
    assert(second.boundaries[at + 1] == (next_index, pushed.total_pushed));
    assert(w.boundaries[at] == second.boundaries[at]);
    assert(w.boundaries[at + 1] == second.boundaries[at + 1]);
    assert(w.boundaries.last().1 <= w.total_pushed);
    law_progress_is_measured_in_its_sentence(w, at);
}

/// A step of pushing everything is a push of the next block.
pub proof fn law_push_all_step_is_a_push(v: PlaybackView, samples: Seq<u32>, written: nat)
    requires
        v.consistent(),
        written <= samples.len(),
    ensures
        ({
            let left = (samples.len() - written) as nat;
            let n = v.step_accepts(left);
            let block = samples.subrange(
                written as int,
                (written + min(left, PUSH_BLOCK as nat)) as int,
            );
            v.after_push(samples.subrange(written as int, (written + n) as int)) == v.after_event(
                PlaybackEvent::Push(block),
            )
        }),
{
    let left = (samples.len() - written) as nat;
    let n = v.step_accepts(left);
    let block = samples.subrange(written as int, (written + min(left, PUSH_BLOCK as nat)) as int);
    assert(samples.subrange(written as int, (written + n) as int) =~= block.take(n as int));
}

} // verus!
