//! What holds of playback across several calls.

use vstd::prelude::*;

use crate::playback::{
    current_sentence, ms_between, sentences_reached, PlaybackView, PLAYBACK_RING_CAPACITY,
    PUSH_BLOCK, PushProgress,
};
use crate::samples::{min, silence};

verus! {

/// A render callback loses nothing: what it plays and what it leaves behind are,
/// end to end, what was queued; where it plays more than was queued it plays
/// silence.
pub proof fn law_render_conserves(v: PlaybackView, frames: nat, ring_locked: bool, now: u64)
    requires
        v.consistent(),
    ensures
        ({
            let n = v.pulls(frames, ring_locked);
            let played = v.played(frames, ring_locked);
            &&& played.len() == frames
            &&& played.take(n as int) + v.after_render(frames, ring_locked, now).queued()
                == v.queued()
            &&& played.skip(n as int) == silence((frames - n) as nat)
        }),
{
    let n = v.pulls(frames, ring_locked);
    let played = v.played(frames, ring_locked);
    assert(played.take(n as int) =~= v.queued().take(n as int));
    assert(played.skip(n as int) =~= silence((frames - n) as nat));
    assert(played.take(n as int) + v.after_render(frames, ring_locked, now).queued()
        =~= v.queued());
}

/// Samples come out as they went in. Where `samples` fit, they are played after
/// all that was queued before them, in order and unchanged, by the callback that
/// asks for exactly so many.
pub proof fn law_pushed_samples_are_played_in_order(
    v: PlaybackView,
    samples: Seq<u32>,
    earlier: u64,
    later: u64,
)
    requires
        v.consistent(),
        v.queue is Some,
        !v.paused,
        v.queued().len() + samples.len() <= PLAYBACK_RING_CAPACITY,
    ensures
        v.accepts(samples.len()) == samples.len(),
        ({
            let pushed = v.after_push(samples);
            let before = pushed.after_render(v.queued().len(), true, earlier);
            &&& pushed.played(v.queued().len(), true) == v.queued()
            &&& before.played(samples.len(), true) == samples
            &&& before.after_render(samples.len(), true, later).queued() == Seq::<u32>::empty()
        }),
{
    let pushed = v.after_push(samples);
    let before = pushed.after_render(v.queued().len(), true, earlier);
    assert(pushed.played(v.queued().len(), true) =~= v.queued());
    assert(before.queued() =~= samples);
    assert(before.played(samples.len(), true) =~= samples);
    assert(before.after_render(samples.len(), true, later).queued() =~= Seq::<u32>::empty());
}

/// The level that is reported is the number of queued samples, whatever happens.
pub proof fn law_level_is_queue_length(
    v: PlaybackView,
    samples: Seq<u32>,
    frames: nat,
    ring_locked: bool,
    now: u64,
    sentence_index: u32,
)
    requires
        v.consistent(),
    ensures
        v.level == v.queued().len(),
        v.after_push(samples.take(v.accepts(samples.len()) as int)).consistent(),
        v.after_render(frames, ring_locked, now).consistent(),
        v.after_begin_turn().consistent(),
        v.after_clear().consistent(),
        v.after_register(sentence_index).consistent(),
{
}

/// After the queue has been cleared nothing of it is played.
pub proof fn law_clear_silences(v: PlaybackView, frames: nat, ring_locked: bool)
    requires
        v.consistent(),
    ensures
        v.after_clear().level == 0,
        !v.after_clear().paused,
        v.after_clear().played(frames, ring_locked) == silence(frames),
{
    assert(v.after_clear().played(frames, ring_locked) =~= silence(frames));
}

/// The turn is found drained by the first callback that gets at the queue after
/// everything has been pushed and finds it empty, and not before; the time that it
/// notes stays.
pub proof fn law_drain_is_noted_once(v: PlaybackView, frames: nat, ring_locked: bool, now: u64)
    requires
        v.consistent(),
    ensures
        ({
            let next = v.after_render(frames, ring_locked, now);
            &&& v.drained_at is Some ==> next.drained_at == v.drained_at
            &&& v.drained_at is None ==> (next.drained_at is Some <==> frames > 0 && v.all_pushed
                && !v.paused && v.queue is Some && ring_locked && v.queued().len() == 0)
            &&& v.drained_at is None && next.drained_at is Some ==> next.drained_at == Some(now)
        }),
{
}

/// A turn drains. Once all is pushed and playback is not paused, a callback that
/// takes the rest of the queue does not yet mark the turn as drained; the next one
/// does, at its own time.
pub proof fn law_turn_drains(v: PlaybackView, frames: nat, at: u64, more: nat, then_at: u64)
    requires
        v.consistent(),
        v.queue is Some,
        !v.paused,
        v.all_pushed,
        v.drained_at is None,
        0 < v.queued().len() <= frames,
        more > 0,
    ensures
        ({
            let emptied = v.after_render(frames, true, at);
            let drained = emptied.after_render(more, true, then_at);
            &&& emptied.queued().len() == 0
            &&& emptied.drained_at is None
            &&& emptied.last_pull_at == Some(at)
            &&& drained.drained_at == Some(then_at)
            &&& drained.last_pull_at == Some(at)
        }),
{
}

/// A new turn starts clean: nothing is marked as pushed or drained, nothing is
/// paused, and no sentence is being played. What was still queued stays queued.
pub proof fn law_new_turn_is_clean(v: PlaybackView)
    ensures
        ({
            let fresh = v.after_begin_turn();
            &&& !fresh.all_pushed
            &&& fresh.drained_at is None
            &&& !fresh.paused
            &&& fresh.queue == v.queue
            &&& fresh.sentence_progress().sentence_index == 0
            &&& fresh.sentence_progress().played == 0
            &&& fresh.turn_adds_up() <==> v.queued().len() == 0
        }),
{
}

impl PlaybackView {
    /// What was pushed in this turn is what was played and what is queued.
    pub open spec fn turn_adds_up(self) -> bool {
        self.total_pushed == self.total_rendered + self.queued().len()
    }

    /// The sentences are in the order in which they start, and none starts after
    /// the last sample pushed.
    pub open spec fn sentences_in_order(self) -> bool {
        &&& forall|i: int, j: int|
            0 <= i <= j < self.boundaries.len() ==> self.boundaries[i].1 <= self.boundaries[j].1
        &&& forall|i: int|
            0 <= i < self.boundaries.len() ==> self.boundaries[i].1 <= self.total_pushed
    }
}

/// The books of a turn that starts with an empty queue balance: every sample that
/// was pushed has been played or is queued. Pushes and callbacks keep it so, as
/// long as at most `usize::MAX` samples are pushed in the turn.
pub proof fn law_turn_adds_up(
    v: PlaybackView,
    samples: Seq<u32>,
    frames: nat,
    ring_locked: bool,
    now: u64,
)
    requires
        v.consistent(),
        v.turn_adds_up(),
        v.total_pushed + samples.len() <= usize::MAX,
    ensures
        v.after_push(samples.take(v.accepts(samples.len()) as int)).turn_adds_up(),
        v.after_render(frames, ring_locked, now).turn_adds_up(),
        v.total_rendered <= v.total_pushed,
{
}

/// Sentences stay in order: registering one and pushing samples keep them so, as
/// long as at most `usize::MAX` samples are pushed in the turn.
pub proof fn law_sentences_in_order(
    v: PlaybackView,
    samples: Seq<u32>,
    sentence_index: u32,
    frames: nat,
    ring_locked: bool,
    now: u64,
)
    requires
        v.consistent(),
        v.sentences_in_order(),
        v.total_pushed + samples.len() <= usize::MAX,
    ensures
        v.after_begin_turn().sentences_in_order(),
        v.after_register(sentence_index).sentences_in_order(),
        v.after_push(samples.take(v.accepts(samples.len()) as int)).sentences_in_order(),
        v.after_render(frames, ring_locked, now).sentences_in_order(),
{
}

/// Where the sentences are in order, those reached are exactly those that start at
/// or before the number of samples played.
pub proof fn law_reached_sentences(boundaries: Seq<(u32, usize)>, rendered: usize)
    requires
        forall|i: int, j: int|
            0 <= i <= j < boundaries.len() ==> boundaries[i].1 <= boundaries[j].1,
    ensures
        sentences_reached(boundaries, rendered) <= boundaries.len(),
        forall|i: int|
            0 <= i < boundaries.len() ==> (boundaries[i].1 <= rendered <==> i
                < sentences_reached(boundaries, rendered)),
    decreases boundaries.len(),
{
    if boundaries.len() > 0 {
        let rest = boundaries.drop_first();
        assert forall|i: int, j: int| 0 <= i <= j < rest.len() implies rest[i].1 <= rest[j].1 by {
            assert(boundaries[i + 1].1 <= boundaries[j + 1].1);
        }
        law_reached_sentences(rest, rendered);
        assert forall|i: int| 0 <= i < boundaries.len() implies (boundaries[i].1 <= rendered <==> i
            < sentences_reached(boundaries, rendered)) by {
            if i > 0 {
                assert(rest[i - 1] == boundaries[i]);
            }
        }
    }
}

/// The sentences reached are the longest run of them, from the first, of which playback has
/// reached the start; the one being played is the last of the run, or the first sentence
/// where there is none.
pub proof fn law_reached_sentences_are_a_run(
    boundaries: Seq<(u32, usize)>,
    rendered: usize,
    i: int,
)
    requires
        boundaries.len() > 0,
    ensures
        ({
            let reached = sentences_reached(boundaries, rendered);
            &&& reached <= boundaries.len()
            &&& 0 <= i < reached ==> boundaries[i].1 <= rendered
            &&& reached < boundaries.len() ==> boundaries[reached as int].1 > rendered
            &&& reached > 0 ==> current_sentence(boundaries, rendered) == reached - 1
            &&& reached == 0 ==> current_sentence(boundaries, rendered) == 0
        }),
    decreases boundaries.len(),
{
    let rest = boundaries.drop_first();
    if boundaries[0].1 <= rendered && rest.len() > 0 {
        law_reached_sentences_are_a_run(rest, rendered, i - 1);
        let reached = sentences_reached(rest, rendered);
        if reached < rest.len() {
            assert(rest[reached as int] == boundaries[reached as int + 1]);
        }
        if 0 < i < reached + 1 {
            assert(rest[i - 1] == boundaries[i]);
        }
    } else if rest.len() == 0 {
        assert(sentences_reached(rest, rendered) == 0);
    }
}

/// The number of sentences reached is within their number.
proof fn lemma_reached_within(boundaries: Seq<(u32, usize)>, rendered: usize)
    ensures
        sentences_reached(boundaries, rendered) <= boundaries.len(),
    decreases boundaries.len(),
{
    if boundaries.len() > 0 {
        lemma_reached_within(boundaries.drop_first(), rendered);
    }
}

/// Progress is a fraction: no more of a sentence has been played than there is of
/// it.
pub proof fn law_progress_is_a_fraction(v: PlaybackView)
    ensures
        v.sentence_progress().played <= v.sentence_progress().length,
{
    if v.boundaries.len() > 0 {
        lemma_reached_within(v.boundaries, v.total_rendered);
    }
}

/// A push of everything gets on whenever there is room, what its steps put in is, end to
/// end, a beginning of the samples, and it is told to wait only when the queue is full.
pub proof fn law_push_all_gets_on(v: PlaybackView, samples: Seq<u32>, written: nat)
    requires
        v.consistent(),
        v.queue is Some,
        written <= samples.len(),
    ensures
        ({
            let left = (samples.len() - written) as nat;
            let n = v.step_accepts(left);
            let part = samples.subrange(written as int, (written + n) as int);
            &&& samples.take(written as int) + part == samples.take((written + n) as int)
            &&& left > 0 && v.queued().len() < PLAYBACK_RING_CAPACITY ==> n > 0
            &&& n < min(left, PUSH_BLOCK as nat) ==> v.after_push(part).queued().len()
                == PLAYBACK_RING_CAPACITY
        }),
{
    let n = v.step_accepts((samples.len() - written) as nat);
    assert(samples.take(written as int) + samples.subrange(written as int, (written + n) as int)
        =~= samples.take((written + n) as int));
}

/// Pushing in parts is pushing at once: where two parts go in one after the other, the
/// state is as if they had gone in together, as long as the count stays within `usize`.
pub proof fn law_pushes_join(v: PlaybackView, first: Seq<u32>, second: Seq<u32>)
    requires
        v.consistent(),
        v.queued().len() + first.len() + second.len() <= PLAYBACK_RING_CAPACITY,
        v.total_pushed + first.len() + second.len() <= usize::MAX,
    ensures
        v.after_push(first).after_push(second) == v.after_push(first + second),
{
    assert(v.after_push(first).after_push(second) =~= v.after_push(first + second));
}

/// A push takes all that it is given, or fills the queue: two seconds at 48 kHz. It takes
/// nothing where there is no queue.
pub proof fn law_push_takes_all_or_fills(v: PlaybackView, n: nat)
    requires
        v.consistent(),
    ensures
        v.accepts(n) <= n,
        v.queue is None ==> v.accepts(n) == 0,
        v.queue is Some ==> v.queued().len() + v.accepts(n) <= 2 * 48_000,
        v.queue is Some && v.accepts(n) < n ==> v.queued().len() + v.accepts(n) == 2 * 48_000,
        v.queue is Some && n <= 512 ==> v.step_accepts(n) == v.accepts(n),
        v.queue is Some && n >= 512 ==> v.step_accepts(n) == v.accepts(512),
{
}

/// What is pushed stands behind what was queued, sample by sample, and a push changes
/// nothing else than the counts of what is queued and pushed.
pub proof fn law_push_appends(v: PlaybackView, taken: Seq<u32>, i: int)
    requires
        v.consistent(),
        v.queue is Some,
        v.queued().len() + taken.len() <= PLAYBACK_RING_CAPACITY,
    ensures
        ({
            let next = v.after_push(taken);
            &&& next.queue is Some
            &&& next.queued().len() == v.queued().len() + taken.len()
            &&& next.level == v.level + taken.len()
            &&& 0 <= i < v.queued().len() ==> next.queued()[i] == v.queued()[i]
            &&& 0 <= i < taken.len() ==> next.queued()[v.queued().len() + i] == taken[i]
            &&& v.total_pushed + taken.len() == next.total_pushed || v.total_pushed + taken.len()
                == next.total_pushed + usize::MAX + 1
            &&& next == (PlaybackView {
                queue: next.queue,
                level: next.level,
                total_pushed: next.total_pushed,
                ..v
            })
        }),
{
}

/// A callback that is not held up plays as many queued samples as it has frames for, or
/// all there are, from the front of the queue; its other frames are silent. One that finds
/// playback paused, or cannot get at the queue, is silent altogether.
pub proof fn law_callback_plays_what_is_queued(
    v: PlaybackView,
    frames: nat,
    ring_locked: bool,
    i: int,
)
    requires
        v.consistent(),
        0 <= i < frames,
    ensures
        ({
            let n = v.pulls(frames, ring_locked);
            let played = v.played(frames, ring_locked);
            &&& !v.paused && v.queue is Some && ring_locked ==> n <= frames && n <= v.queued().len()
                && (n == frames || n == v.queued().len())
            &&& v.paused || v.queue is None || !ring_locked ==> n == 0
            &&& played.len() == frames
            &&& i < n ==> played[i] == v.queued()[i]
            &&& i >= n ==> played[i] == 0
        }),
{
}

/// A callback is counted once, unless it has no frames; what it pulls is counted as
/// rendered and as pulled; and it counts as a miss exactly if it wanted the queue and could
/// not get at it. Counters go round past the largest `usize`.
pub proof fn law_callback_is_counted(v: PlaybackView, frames: nat, ring_locked: bool, now: u64)
    requires
        v.consistent(),
        frames > 0,
    ensures
        ({
            let n = v.pulls(frames, ring_locked);
            let missed: nat = if !v.paused && v.queue is Some && !ring_locked {
                1
            } else {
                0
            };
            let next = v.after_render(frames, ring_locked, now);
            let round = usize::MAX + 1;
            &&& v.render_callback_count + 1 == next.render_callback_count || v.render_callback_count
                + 1 == next.render_callback_count + round
            &&& v.render_samples_pulled + n == next.render_samples_pulled || v.render_samples_pulled
                + n == next.render_samples_pulled + round
            &&& v.total_rendered + n == next.total_rendered || v.total_rendered + n
                == next.total_rendered + round
            &&& v.render_lock_fail + missed == next.render_lock_fail || v.render_lock_fail + missed
                == next.render_lock_fail + round
            &&& next.level + n == v.level
            &&& next.last_pull_at == if n > 0 {
                Some(now)
            } else {
                v.last_pull_at
            }
        }),
        v.after_render(0, ring_locked, now) == v,
{
}

/// A callback leaves alone what it does not play: the flags, the sentences and what has
/// been pushed.
pub proof fn law_callback_keeps_the_turn(
    v: PlaybackView,
    frames: nat,
    ring_locked: bool,
    now: u64,
)
    ensures
        ({
            let next = v.after_render(frames, ring_locked, now);
            &&& next.paused == v.paused
            &&& next.all_pushed == v.all_pushed
            &&& next.boundaries == v.boundaries
            &&& next.total_pushed == v.total_pushed
            &&& next.queue is Some <==> v.queue is Some
        }),
{
}

/// The calls that set a flag set that flag and nothing else: to resume takes a pause back,
/// and setting up gives a queue where there was none.
pub proof fn law_flags_are_set_alone(v: PlaybackView)
    ensures
        v.after_pause().paused,
        !v.after_resume().paused,
        v.after_all_pushed().all_pushed,
        v.after_pause().after_resume() == v.after_resume(),
        v.after_resume().after_pause() == v.after_pause(),
        v.paused ==> v.after_pause() == v,
        !v.paused ==> v.after_resume() == v && v.after_pause().after_resume() == v,
        v.all_pushed ==> v.after_all_pushed() == v,
        v.after_all_pushed() == (PlaybackView { all_pushed: true, ..v }),
        v.after_setup().queue is Some && v.after_setup().queued() == v.queued(),
        v.queue is Some ==> v.after_setup() == v,
        v.after_setup() == (PlaybackView { queue: v.after_setup().queue, ..v }),
{
}

/// Clearing throws the queue away and ends a pause; it forgets nothing of the turn.
pub proof fn law_clear_keeps_the_turn(v: PlaybackView)
    ensures
        ({
            let next = v.after_clear();
            &&& next.queued().len() == 0
            &&& next.queue is Some <==> v.queue is Some
            &&& next == (PlaybackView { queue: next.queue, level: 0, paused: false, ..v })
        }),
{
}

/// A new turn counts from nothing and has no sentences; it keeps the queue, the counters of
/// callbacks and the time of the last pull.
pub proof fn law_new_turn_counts_from_nothing(v: PlaybackView)
    ensures
        ({
            let next = v.after_begin_turn();
            &&& next.total_pushed == 0 && next.total_rendered == 0
            &&& next.boundaries.len() == 0
            &&& next.queue == v.queue && next.level == v.level
            &&& next.last_pull_at == v.last_pull_at
            &&& next.render_callback_count == v.render_callback_count
            &&& next.render_samples_pulled == v.render_samples_pulled
            &&& next.render_lock_fail == v.render_lock_fail
        }),
{
}

/// The time between two readings of the clock is told in whole milliseconds, rounded down;
/// it does not decrease as time goes on, and is zero where the clock has gone back.
pub proof fn law_elapsed_time_is_in_milliseconds(since: u64, now: u64, later: u64)
    ensures
        since <= now ==> ms_between(since, now) * 1_000_000 <= now - since < (ms_between(since, now)
            + 1) * 1_000_000,
        now <= later ==> ms_between(since, now) <= ms_between(since, later),
        now < since ==> ms_between(since, now) == 0,
{
}

/// The times that are reported count from what they say: the last pull, with the largest
/// number for none, and the drain of a turn of which all has been pushed.
pub proof fn law_reported_times_count_from_the_event(v: PlaybackView, at: u64, now: u64)
    requires
        at <= now,
    ensures
        v.last_pull_at == Some(at) ==> v.since_last_pull(now) * 1_000_000 <= now - at < (
        v.since_last_pull(now) + 1) * 1_000_000,
        v.last_pull_at is None ==> v.since_last_pull(now) == 0xffff_ffff_ffff_ffff,
        v.all_pushed && v.drained_at == Some(at) ==> (v.since_drained(now) matches Some(ms) && ms
            * 1_000_000 <= now - at < (ms + 1) * 1_000_000),
        !v.all_pushed || v.drained_at is None ==> v.since_drained(now) is None,
{
}

/// Progress is measured in the sentence that playback is inside of, whichever of the turn's
/// it is: from where it starts to where the next one starts, or to the last sample pushed
/// where there is no next one.
pub proof fn law_progress_is_measured_in_its_sentence(v: PlaybackView, at: int)
    requires
        0 <= at < v.boundaries.len(),
        forall|i: int, j: int|
            0 <= i <= j < v.boundaries.len() ==> v.boundaries[i].1 <= v.boundaries[j].1,
        v.boundaries.last().1 <= v.total_pushed,
        0 < v.total_rendered,
        v.boundaries[at].1 <= v.total_rendered,
        at + 1 < v.boundaries.len() ==> v.total_rendered < v.boundaries[at + 1].1,
    ensures
        ({
            let p = v.sentence_progress();
            &&& p.sentence_index == v.boundaries[at].0
            &&& at + 1 < v.boundaries.len() ==> p.length == v.boundaries[at + 1].1
                - v.boundaries[at].1 && p.played == v.total_rendered - v.boundaries[at].1
            &&& at + 1 == v.boundaries.len() ==> p.length == v.total_pushed - v.boundaries[at].1 && (
            if v.total_rendered <= v.total_pushed {
                p.played == v.total_rendered - v.boundaries[at].1
            } else {
                p.played == p.length
            })
        }),
{
    law_reached_sentences(v.boundaries, v.total_rendered);
    let reached = sentences_reached(v.boundaries, v.total_rendered);
    assert(at < reached);
    if at + 1 < v.boundaries.len() {
        assert(!(at + 1 < reached));
    }
    assert(reached == at + 1);
}

/// Before playback has reached the first sentence that is the one reported, with nothing of
/// it played; before anything has been played, or where there are no sentences, none is.
pub proof fn law_progress_before_the_first_sentence(v: PlaybackView)
    ensures
        v.boundaries.len() == 0 || v.total_rendered == 0 ==> v.sentence_progress().sentence_index
            == 0 && v.sentence_progress().played == 0 && v.sentence_progress().length == 0,
        v.boundaries.len() > 0 && 0 < v.total_rendered < v.boundaries[0].1
            ==> v.sentence_progress().sentence_index == v.boundaries[0].0
            && v.sentence_progress().played == 0 && (v.boundaries.len() > 1 && v.boundaries[0].1
            <= v.boundaries[1].1 ==> v.sentence_progress().length == v.boundaries[1].1
            - v.boundaries[0].1) && (v.boundaries.len() == 1 && v.boundaries[0].1 <= v.total_pushed
            ==> v.sentence_progress().length == v.total_pushed - v.boundaries[0].1),
{
}

/// A step of a push of everything tells truly where it stands: it is done exactly when all
/// is in the queue, it asks to wait only when the queue is full, and it asks to go on only
/// when it has put in a whole block of 512.
pub proof fn law_push_step_tells_where_it_stands(v: PlaybackView, len: nat, written: nat)
    requires
        v.consistent(),
        v.queue is Some,
        written <= len <= usize::MAX,
    ensures
        ({
            let before = v.queued().len();
            let room = (96_000 - before) as nat;
            match v.step_progress(len, written) {
                PushProgress::Done(total) => total == len && len - written <= 512 && len - written
                    <= room,
                PushProgress::Wait(total) => total < len && total - written == room && room < 512,
                PushProgress::More(total) => total < len && total - written == 512 && 512 <= room,
            }
        }),
{
}

/// What is enqueued is played after all that was queued, from its first sample on, whole
/// where there is room for all of it and otherwise until the queue is full.
pub proof fn law_enqueued_samples_are_queued(v: PlaybackView, samples: Seq<u32>, i: int)
    requires
        v.consistent(),
        v.queue is Some,
    ensures
        ({
            let next = v.after_enqueue(samples).queued();
            let before = v.queued();
            &&& before.len() + samples.len() <= 96_000 ==> next.len() == before.len()
                + samples.len()
            &&& before.len() + samples.len() > 96_000 ==> next.len() == 96_000
            &&& 0 <= i < before.len() ==> next[i] == before[i]
            &&& before.len() <= i < next.len() ==> next[i] == samples[i - before.len()]
        }),
{
}

} // verus!
