//! What holds of a device stream across several calls.

use vstd::arithmetic::div_mod::{
    lemma_div_is_ordered, lemma_div_pos_is_pos, lemma_fundamental_div_mod,
    lemma_fundamental_div_mod_converse,
};
use vstd::arithmetic::mul::lemma_mul_is_commutative;
use vstd::prelude::*;

use crate::samples::{min, SILENCE};
use crate::stream::{
    first_channel, frame_count, nearest_quotient, reported_ratio, silent_tap, spread,
    ResamplerView, Tap,
};

verus! {

/// Spreading a channel over frames and taking the first channel out of them again
/// gives the channel back.
pub proof fn law_mono_round_trip(mono: Seq<u32>, channels: usize)
    requires
        channels > 0,
    ensures
        first_channel(spread(mono, channels), channels) == mono,
{
    let frames = spread(mono, channels);
    let ch = channels as int;
    assert(frames.len() == mono.len() * ch);
    lemma_fundamental_div_mod_converse(frames.len() as int, ch, mono.len() as int, 0);
    assert(frame_count(frames.len(), channels) == mono.len());
    assert forall|i: int| 0 <= i < mono.len() implies first_channel(frames, channels)[i]
        == mono[i] by {
        lemma_fundamental_div_mod_converse(i * ch, ch, i, 0);
        assert(0 <= i * ch < mono.len() * ch) by (nonlinear_arith)
            requires
                0 <= i < mono.len(),
                ch > 0,
        ;
    }
    assert(first_channel(frames, channels) =~= mono);
}

/// A frame holds the same sample on each of its channels.
pub proof fn law_frame_is_on_every_channel(mono: Seq<u32>, channels: usize, k: int, channel: int)
    requires
        0 <= k < mono.len(),
        0 <= channel < channels,
    ensures
        0 <= k * channels + channel < spread(mono, channels).len(),
        spread(mono, channels)[k * channels + channel] == mono[k],
{
    let ch = channels as int;
    assert(0 <= k * ch + channel < mono.len() * ch) by (nonlinear_arith)
        requires
            0 <= k < mono.len(),
            0 <= channel < ch,
    ;
    lemma_fundamental_div_mod_converse(k * ch + channel, ch, k, channel);
}

/// A later frame lies no further back.
proof fn lemma_positions_ascend(v: ResamplerView, j: int, k: int)
    requires
        v.hw_rate > 0,
        0 <= j <= k,
    ensures
        0 <= v.position(j) <= v.position(k),
        0 <= v.samples_before(j) <= v.samples_before(k),
{
    assert(0 <= j * v.content_rate <= k * v.content_rate) by (nonlinear_arith)
        requires
            0 <= j <= k,
            v.content_rate >= 0,
    ;
    lemma_div_is_ordered(v.position(j), v.position(k), v.hw_rate as int);
    lemma_div_pos_is_pos(v.position(j), v.hw_rate as int);
}

/// After `a` frames the frame `k` is the one that was `a + k`.
proof fn lemma_frame_after(v: ResamplerView, a: nat, k: int)
    requires
        v.hw_rate > 0,
        k >= 0,
    ensures
        v.after_frames(a).position(k) == v.position(a + k) - v.moves(a) * v.hw_rate,
        v.after_frames(a).samples_before(k) == v.samples_before(a + k) - v.moves(a),
        v.after_frames(a).frame(k) == v.frame(a + k),
        v.moves(a) <= v.samples_before(a + k),
{
    let w = v.after_frames(a);
    let m = v.moves(a) as int;
    let h = v.hw_rate as int;
    let c = v.content_rate as int;
    assert((a + k) * c == a * c + k * c) by (nonlinear_arith);
    if a > 0 {
        lemma_positions_ascend(v, a - 1, a + k);
        lemma_fundamental_div_mod(v.position(a - 1), h);
        lemma_mul_is_commutative(h, m);
        lemma_positions_ascend(v, a - 1, a as int);
    } else {
        lemma_positions_ascend(v, 0, k);
        assert(m * h == 0) by (nonlinear_arith)
            requires
                m == 0,
        ;
    }
    assert(v.position(a as int) - m * h >= 0);
    let p = v.position(a + k);
    let q = p / h;
    let r = p % h;
    lemma_fundamental_div_mod(p, h);
    assert(w.position(k) == p - m * h);
    assert(p - m * h == (q - m) * h + r) by (nonlinear_arith)
        requires
            p == h * q + r,
    ;
    lemma_fundamental_div_mod_converse(w.position(k), h, q - m, r);
    lemma_signal_after(v, a, q - m);
    lemma_signal_after(v, a, q - m + 1);
}

/// The signal after `a` frames is the signal from there on.
proof fn lemma_signal_after(v: ResamplerView, a: nat, i: int)
    requires
        i >= 0,
    ensures
        v.after_frames(a).signal(i) == v.signal(v.moves(a) + i),
{
}

/// Callbacks join without a seam: however a number of frames is cut into callbacks, they
/// lie at the same places, and the resampler is left in the same state.
pub proof fn law_callbacks_join(v: ResamplerView, a: nat, b: nat)
    requires
        v.hw_rate > 0,
    ensures
        v.frames(a) + v.after_frames(a).frames(b) == v.frames(a + b),
        v.after_frames(a).after_frames(b) == v.after_frames(a + b),
        v.moves(a) + v.after_frames(a).moves(b) == v.moves(a + b),
{
    let w = v.after_frames(a);
    assert forall|k: int| 0 <= k < b implies #[trigger] w.frame(k) == v.frame(a + k) by {
        lemma_frame_after(v, a, k);
    }
    assert(v.frames(a) + w.frames(b) =~= v.frames(a + b));
    if b > 0 {
        lemma_frame_after(v, a, b - 1);
    }
    lemma_frame_after(v, a, b as int);
    let m = v.moves(a);
    let n = w.moves(b);
    assert(m + n == v.moves(a + b));
    assert((m + n) * v.hw_rate == m * v.hw_rate + n * v.hw_rate) by (nonlinear_arith);
    lemma_signal_after(v, a, n as int);
    lemma_signal_after(v, a, n as int + 1);
    assert(w.after_frames(b).source =~= v.after_frames(a + b).source);
}

/// Supply may come late: samples that arrive before the resampler has run out have
/// the same effect as if they had been there from the start.
pub proof fn law_supply_may_come_late(v: ResamplerView, n: nat, more: Seq<u32>)
    requires
        v.hw_rate > 0,
        v.moves(n) <= v.source.len(),
    ensures
        v.after_supply(more).moves(n) == v.moves(n),
        v.after_supply(more).frames(n) == v.frames(n),
        v.after_supply(more).after_frames(n) == v.after_frames(n).after_supply(more),
{
    let early = v.after_supply(more);
    assert forall|k: int| 0 <= k < n implies #[trigger] early.frame(k) == v.frame(k) by {
        lemma_positions_ascend(v, k, n - 1);
        assert(early.position(k) == v.position(k));
    }
    assert(early.frames(n) =~= v.frames(n));
    if n > 0 {
        assert(early.position(n - 1) == v.position(n - 1));
    }
    assert(early.position(n as int) == v.position(n as int));
    assert(early.after_frames(n).source =~= v.after_frames(n).source + more);
}

/// No supplied sample is dropped: what the frames do not move over carries over, in
/// order.
pub proof fn law_unused_samples_carry_over(v: ResamplerView, n: nat)
    ensures
        ({
            let used = min(v.moves(n), v.source.len());
            let next = v.after_frames(n);
            &&& v.source.take(used as int) + next.source == v.source
            &&& next.source.len() == v.source.len() - used
        }),
{
    let used = min(v.moves(n), v.source.len());
    assert(v.source.take(used as int) + v.after_frames(n).source =~= v.source);
}

/// Where the supply runs out in the middle of a callback the signal ramps from the last
/// sample to silence and stays silent.
pub proof fn law_underrun_is_silent(v: ResamplerView, k: int)
    requires
        v.source.len() > 0,
    ensures
        v.samples_before(k) == v.source.len() + 1 ==> v.frame(k).before == v.source.last()
            && v.frame(k).after == SILENCE,
        v.samples_before(k) > v.source.len() + 1 ==> v.frame(k).before == SILENCE && v.frame(
            k,
        ).after == SILENCE,
{
}

/// With nothing to play a callback is silent, and the resampler is as at the start.
pub proof fn law_idle_callback_starts_over(v: ResamplerView, n: nat, k: int)
    requires
        v.source.len() == 0,
        0 <= k < n,
    ensures
        v.callback_frames(n)[k] == silent_tap(),
        v.after_callback(n) == ResamplerView::initial(v.content_rate, v.hw_rate),
{
}

/// What is pulled for a callback is enough: with so many samples it does not run out.
pub proof fn law_needed_is_enough(v: ResamplerView, n: nat)
    requires
        v.hw_rate > 0,
    ensures
        v.needed(n) > 0,
        v.moves(n) <= v.needed(n),
{
    let h = v.hw_rate as int;
    lemma_positions_ascend(v, 0, n as int);
    let rounded = v.position(n as int) + h - 1;
    lemma_div_is_ordered(v.position(n as int), rounded, h);
    if n > 0 {
        lemma_positions_ascend(v, n - 1, n as int);
    }
}

/// A callback of the output device, as the resampler sees it.
pub struct Callback {
    /// The samples that are pulled for it.
    pub pulled: Seq<u32>,
    /// How many frames it asks for.
    pub frames: nat,
}

/// All the samples that are pulled over a number of callbacks.
pub open spec fn pulled_over(callbacks: Seq<Callback>) -> Seq<u32>
    decreases callbacks.len(),
{
    if callbacks.len() == 0 {
        Seq::empty()
    } else {
        pulled_over(callbacks.drop_last()) + callbacks.last().pulled
    }
}

/// How many frames a number of callbacks ask for.
pub open spec fn frames_over(callbacks: Seq<Callback>) -> nat
    decreases callbacks.len(),
{
    if callbacks.len() == 0 {
        0
    } else {
        frames_over(callbacks.drop_last()) + callbacks.last().frames
    }
}

impl ResamplerView {
    /// After a number of callbacks.
    pub open spec fn after_callbacks(self, callbacks: Seq<Callback>) -> ResamplerView
        decreases callbacks.len(),
    {
        if callbacks.len() == 0 {
            self
        } else {
            self.after_callbacks(callbacks.drop_last()).after_supply(
                callbacks.last().pulled,
            ).after_callback(callbacks.last().frames)
        }
    }

    /// Before the frames of the last of a number of callbacks, with its samples pulled.
    pub open spec fn supplied_for_last(self, callbacks: Seq<Callback>) -> ResamplerView {
        self.after_callbacks(callbacks.drop_last()).after_supply(callbacks.last().pulled)
    }

    /// Where the frames of a number of callbacks lie, one after the other.
    pub open spec fn frames_of(self, callbacks: Seq<Callback>) -> Seq<Tap>
        decreases callbacks.len(),
    {
        if callbacks.len() == 0 {
            Seq::empty()
        } else {
            self.frames_of(callbacks.drop_last()) + self.supplied_for_last(
                callbacks,
            ).callback_frames(callbacks.last().frames)
        }
    }

    /// None of a number of callbacks runs out of samples.
    pub open spec fn never_runs_out(self, callbacks: Seq<Callback>) -> bool
        decreases callbacks.len(),
    {
        callbacks.len() == 0 || {
            let supplied = self.supplied_for_last(callbacks);
            &&& self.never_runs_out(callbacks.drop_last())
            &&& supplied.source.len() > 0
            &&& supplied.moves(callbacks.last().frames) <= supplied.source.len()
        }
    }
}

/// It does not matter how frames are cut into callbacks, nor when the samples are pulled,
/// as long as none of the callbacks runs out: the frames lie where they would if all
/// samples had been there at once and all frames been asked for at once, and every sample
/// that is moved over is moved over once, in order, with the rest left over.
pub proof fn law_callbacks_do_not_matter(v: ResamplerView, callbacks: Seq<Callback>)
    requires
        v.hw_rate > 0,
        v.never_runs_out(callbacks),
    ensures
        ({
            let all = v.after_supply(pulled_over(callbacks));
            let n = frames_over(callbacks);
            &&& v.frames_of(callbacks) == all.frames(n)
            &&& v.after_callbacks(callbacks) == all.after_frames(n)
            &&& all.moves(n) <= all.source.len()
            &&& v.after_callbacks(callbacks).source == (v.source + pulled_over(callbacks)).skip(
                all.moves(n) as int,
            )
        }),
    decreases callbacks.len(),
{
    if callbacks.len() == 0 {
        let all = v.after_supply(pulled_over(callbacks));
        assert(all.source =~= v.source);
        assert(all.frames(0) =~= Seq::<Tap>::empty());
        assert(v.frames_of(callbacks) =~= Seq::<Tap>::empty());
        assert(all.after_frames(0).source =~= v.source);
        assert(all.position(0) == v.phase) by (nonlinear_arith)
            requires
                all.position(0) == all.phase + 0 * all.content_rate,
                all.phase == v.phase,
        ;
        assert(all.after_frames(0) =~= v);
    } else {
        let earlier = callbacks.drop_last();
        let last = callbacks.last();
        let n = frames_over(earlier);
        let before = v.after_supply(pulled_over(earlier));
        let all = v.after_supply(pulled_over(callbacks));
        law_callbacks_do_not_matter(v, earlier);
        assert(all.source =~= before.after_supply(last.pulled).source);
        assert(all == before.after_supply(last.pulled));
        law_supply_may_come_late(before, n, last.pulled);
        let w = v.supplied_for_last(callbacks);
        assert(w == all.after_frames(n));
        law_callbacks_join(all, n, last.frames);
        law_unused_samples_carry_over(all, n);
    }
}

/// Playback is resampled without a break. From a clean start, with the pulled samples
/// `S[0], S[1], ...` and silence before them, the frame `k`, counted over all callbacks,
/// is `k * content_rate / hw_rate` samples on: with the whole part `i` of that it lies
/// between `S[i - 1]` and `S[i]`, by the rest. It does so however the frames are cut into
/// callbacks, as long as none of them runs out of samples.
pub proof fn law_frames_are_interpolated(
    content_rate: u32,
    hw_rate: u32,
    callbacks: Seq<Callback>,
    k: int,
)
    requires
        hw_rate > 0,
        ResamplerView::initial(content_rate, hw_rate).never_runs_out(callbacks),
        0 <= k < frames_over(callbacks),
    ensures
        ({
            let frames = ResamplerView::initial(content_rate, hw_rate).frames_of(callbacks);
            let pulled = pulled_over(callbacks);
            let i = k * content_rate / hw_rate as int;
            &&& frames.len() == frames_over(callbacks)
            &&& 0 <= i < pulled.len()
            &&& frames[k] == (Tap {
                before: if i == 0 {
                    SILENCE
                } else {
                    pulled[i - 1]
                },
                after: pulled[i],
                fraction: (k * content_rate % hw_rate as int) as u32,
            })
            &&& frames[k].fraction < hw_rate
        }),
{
    let v = ResamplerView::initial(content_rate, hw_rate);
    let pulled = pulled_over(callbacks);
    let all = v.after_supply(pulled);
    let n = frames_over(callbacks);
    let h = hw_rate as int;
    law_callbacks_do_not_matter(v, callbacks);
    assert(all.source =~= pulled);
    let d = k * content_rate;
    let i = d / h;
    let r = d % h;
    assert(d >= 0) by (nonlinear_arith)
        requires
            d == k * content_rate,
            k >= 0,
            content_rate >= 0,
    ;
    lemma_fundamental_div_mod(d, h);
    lemma_div_pos_is_pos(d, h);
    assert(all.position(k) == (i + 1) * h + r) by (nonlinear_arith)
        requires
            all.position(k) == h + d,
            d == h * i + r,
    ;
    lemma_fundamental_div_mod_converse(all.position(k), h, i + 1, r);
    lemma_positions_ascend(all, k, n - 1);
}

/// As many whole frames are counted as there are: one more would not fit.
pub proof fn law_frames_are_whole(len: nat, channels: usize)
    requires
        channels > 0,
    ensures
        frame_count(len, channels) * channels <= len,
        len < (frame_count(len, channels) + 1) * channels,
{
    let frames = frame_count(len, channels) as int;
    lemma_fundamental_div_mod(len as int, channels as int);
    lemma_mul_is_commutative(channels as int, frames);
    assert((frames + 1) * channels == frames * channels + channels) by (nonlinear_arith);
}

/// The first channel of a frame is its first sample, whatever its other channels hold: of
/// interleaved data the sample `i` is the one at `i` times the number of channels.
pub proof fn law_first_channel_is_the_first_of_each_frame(
    data: Seq<u32>,
    channels: usize,
    i: int,
)
    requires
        channels > 0,
        0 <= i,
        (i + 1) * channels <= data.len(),
    ensures
        i < first_channel(data, channels).len(),
        first_channel(data, channels)[i] == data[i * channels],
        first_channel(data, channels).len() * channels <= data.len(),
        data.len() < (first_channel(data, channels).len() + 1) * channels,
{
    law_frames_are_whole(data.len(), channels);
    let frames = frame_count(data.len(), channels) as int;
    assert(i < frames) by (nonlinear_arith)
        requires
            (i + 1) * channels <= data.len(),
            data.len() < (frames + 1) * channels,
            channels > 0,
    ;
}

/// To spread a channel gives as many samples for each of its own as there are channels.
pub proof fn law_spread_fills_all_channels(mono: Seq<u32>, channels: usize)
    ensures
        spread(mono, channels).len() == mono.len() * channels,
{
}

/// A callback that has anything to play plays the signal, also one that runs out: its frame
/// `k` is `q` samples and `r` parts of the hardware rate on from the current position, and
/// lies by `r` between the samples there. The samples are the two current ones and then the
/// supply, and silence only beyond the last of it.
pub proof fn law_callback_plays_the_signal(v: ResamplerView, n: nat, k: int, q: int, r: int)
    requires
        v.hw_rate > 0,
        v.source.len() > 0,
        0 <= k < n,
        0 <= q,
        0 <= r < v.hw_rate,
        q * v.hw_rate + r == v.phase + k * v.content_rate,
    ensures
        ({
            let samples = seq![v.s0, v.s1] + v.source;
            let frames = v.callback_frames(n);
            &&& frames.len() == n
            &&& frames[k].fraction == r
            &&& frames[k].before == if q < samples.len() {
                samples[q]
            } else {
                0
            }
            &&& frames[k].after == if q + 1 < samples.len() {
                samples[q + 1]
            } else {
                0
            }
        }),
{
    lemma_fundamental_div_mod_converse(v.position(k), v.hw_rate as int, q, r);
}

/// A callback leaves off where its last frame lies: the samples around that are the current
/// ones, the next frame is one step on from it, and of the supply what lies behind is gone
/// and nothing else.
pub proof fn law_callback_leaves_off_at_its_last_frame(v: ResamplerView, n: nat, q: nat, r: int)
    requires
        v.hw_rate > 0,
        v.source.len() > 0,
        n > 0,
        0 <= r < v.hw_rate,
        q * v.hw_rate + r == v.phase + (n - 1) * v.content_rate,
    ensures
        ({
            let next = v.after_callback(n);
            let last = v.callback_frames(n)[n - 1];
            &&& next.s0 == last.before
            &&& next.s1 == last.after
            &&& next.phase == r + v.content_rate
            &&& q <= v.source.len() ==> next.source == v.source.skip(q as int)
            &&& q > v.source.len() ==> next.source.len() == 0
            &&& next.content_rate == v.content_rate && next.hw_rate == v.hw_rate
        }),
        v.after_callback(0) == v,
{
    let h = v.hw_rate as int;
    lemma_fundamental_div_mod_converse(v.position(n - 1), h, q as int, r);
    assert(n * v.content_rate == (n - 1) * v.content_rate + v.content_rate) by (nonlinear_arith);
    assert(0 * v.content_rate == 0);
    assert(0 * v.hw_rate == 0);
    assert(v.after_callback(0).source =~= v.source);
    assert(v.after_callback(0) =~= v);
}

/// With nothing to play, whatever came before, all frames are silent, and what comes next
/// starts from silence, right before its first sample.
pub proof fn law_idle_callback_forgets(v: ResamplerView, n: nat, k: int)
    requires
        v.source.len() == 0,
        0 <= k < n,
    ensures
        ({
            let next = v.after_callback(n);
            let frames = v.callback_frames(n);
            &&& frames.len() == n
            &&& frames[k].before == 0 && frames[k].after == 0 && frames[k].fraction == 0
            &&& next.s0 == 0 && next.s1 == 0 && next.source.len() == 0
            &&& next.phase == next.hw_rate
            &&& next.content_rate == v.content_rate && next.hw_rate == v.hw_rate
        }),
{
}

/// What is supplied stands behind what is left, sample by sample, and moves nothing.
pub proof fn law_supply_appends(v: ResamplerView, samples: Seq<u32>, i: int)
    ensures
        ({
            let next = v.after_supply(samples);
            &&& next.source.len() == v.source.len() + samples.len()
            &&& 0 <= i < v.source.len() ==> next.source[i] == v.source[i]
            &&& 0 <= i < samples.len() ==> next.source[v.source.len() + i] == samples[i]
            &&& next == (ResamplerView { source: next.source, ..v })
        }),
{
}

/// No more is pulled for a callback than the position after it asks for: that rounded up to
/// whole samples, and one to spare.
pub proof fn law_needed_is_the_position_rounded_up(v: ResamplerView, n: nat)
    requires
        v.hw_rate > 0,
    ensures
        (v.needed(n) - 2) * v.hw_rate < v.phase + n * v.content_rate <= (v.needed(n) - 1)
            * v.hw_rate,
{
    let h = v.hw_rate as int;
    let p = v.position(n as int);
    let up = (p + h - 1) / h;
    lemma_positions_ascend(v, 0, n as int);
    lemma_fundamental_div_mod(p + h - 1, h);
    lemma_div_pos_is_pos(p + h - 1, h);
    assert((up - 1) * h < p <= up * h) by (nonlinear_arith)
        requires
            p + h - 1 == h * up + (p + h - 1) % h,
            0 <= (p + h - 1) % h < h,
            h > 0,
    ;
}

/// The reported ratio is the nearest whole number: it is off by at most one half.
pub proof fn law_ratio_is_nearest(hw: nat, content: nat)
    requires
        content > 0,
    ensures
        2 * content * nearest_quotient(hw, content) <= 2 * hw + content,
        2 * hw + content < 2 * content * nearest_quotient(hw, content) + 2 * content,
        forall|k: nat| hw == #[trigger] (k * content) ==> nearest_quotient(hw, content) == k,
{
    let a = 2 * hw + content;
    let b = 2 * content;
    lemma_fundamental_div_mod(a as int, b as int);
    assert forall|k: nat| hw == #[trigger] (k * content) implies nearest_quotient(hw, content)
        == k by {
        assert(a == b * k + content) by (nonlinear_arith)
            requires
                a == 2 * hw + content,
                b == 2 * content,
                hw == k * content,
        ;
        lemma_fundamental_div_mod_converse(a as int, b as int, k as int, content as int);
    }
}

/// The reported ratio is at least one, and where the hardware is not slower than half the
/// content rate it is within one half of the true one.
pub proof fn law_reported_ratio_is_near(hw: u32, content: u32)
    requires
        content > 0,
    ensures
        reported_ratio(hw, content) >= 1,
        2 * hw >= content ==> 2 * content * reported_ratio(hw, content) <= 2 * hw + content,
        2 * hw >= content ==> 2 * hw + content < 2 * content * (reported_ratio(hw, content) + 1),
        2 * hw < content ==> reported_ratio(hw, content) == 1,
{
    let a = 2 * hw + content;
    let b = 2 * content;
    let q = nearest_quotient(hw as nat, content as nat) as int;
    lemma_fundamental_div_mod(a, b);
    lemma_div_pos_is_pos(a, b);
    assert(q == a / b);
    assert(q <= 0xffff_ffff) by (nonlinear_arith)
        requires
            a == b * q + a % b,
            0 <= a % b,
            a == 2 * hw + content,
            b == 2 * content,
            1 <= content <= 0xffff_ffff,
            0 <= hw <= 0xffff_ffff,
    ;
    assert(2 * hw >= content ==> q >= 1) by (nonlinear_arith)
        requires
            a == b * q + a % b,
            a % b < b,
            a == 2 * hw + content,
            b == 2 * content,
            content > 0,
    ;
    assert(2 * hw < content ==> q <= 0) by (nonlinear_arith)
        requires
            a == b * q + a % b,
            0 <= a % b,
            a == 2 * hw + content,
            b == 2 * content,
            content > 0,
    ;
    assert(2 * content * (q + 1) == b * q + b) by (nonlinear_arith)
        requires
            b == 2 * content,
    ;
}

/// What is pulled for a callback, if it is there to be pulled, keeps the callback from
/// running out, and no more is pulled than that takes: with what is left it makes up what is
/// needed, and nothing is pulled where there is enough already.
pub proof fn law_pulls_make_up_what_is_needed(v: ResamplerView, n: nat, pulled: Seq<u32>)
    requires
        v.hw_rate > 0,
        v.needed(n) <= usize::MAX,
        pulled.len() == v.short_by(n),
    ensures
        v.source.len() <= v.needed(n) ==> v.source.len() + pulled.len() == v.needed(n),
        v.source.len() > v.needed(n) ==> pulled.len() == 0,
        v.after_supply(pulled).source.len() > 0,
        v.after_supply(pulled).moves(n) <= v.after_supply(pulled).source.len(),
{
    law_needed_is_enough(v, n);
    let w = v.after_supply(pulled);
    if n > 0 {
        assert(w.position(n - 1) == v.position(n - 1));
    }
}

} // verus!
