//! The sample bookkeeping of a device stream: taking one channel out of
//! interleaved frames and spreading one over all channels, and the resampler
//! between the rate of the played samples and that of the hardware.

use vstd::arithmetic::div_mod::{lemma_fundamental_div_mod, lemma_fundamental_div_mod_converse};
use vstd::arithmetic::mul::lemma_mul_is_commutative;
use vstd::prelude::*;

use crate::samples::{min, SILENCE};

verus! {

/// How many frames of `channels` samples there are among `len` samples.
pub open spec fn frame_count(len: nat, channels: usize) -> nat {
    len / channels as nat
}

/// The first channel of interleaved frames. Samples that do not fill a frame are
/// left out.
pub open spec fn first_channel(data: Seq<u32>, channels: usize) -> Seq<u32> {
    Seq::new(frame_count(data.len(), channels), |i: int| data[i * channels])
}

/// Frames with the same sample in each of their channels.
pub open spec fn spread(mono: Seq<u32>, channels: usize) -> Seq<u32> {
    Seq::new(mono.len() * channels as nat, |j: int| mono[j / channels as int])
}

/// The frames lie within the samples.
proof fn lemma_frame_fits(len: nat, channels: usize, i: int)
    requires
        channels > 0,
        0 <= i < frame_count(len, channels),
    ensures
        0 <= i * channels,
        i * channels + channels <= len,
{
    let frames = frame_count(len, channels) as int;
    lemma_fundamental_div_mod(len as int, channels as int);
    lemma_mul_is_commutative(channels as int, frames);
    assert(0 <= i * channels && i * channels + channels <= frames * channels) by (nonlinear_arith)
        requires
            0 <= i < frames,
            channels > 0,
    ;
}

/// The frames take up no more samples than there are.
proof fn lemma_frames_fit(len: nat, channels: usize)
    requires
        channels > 0,
    ensures
        0 <= frame_count(len, channels) * channels <= len,
        frame_count(len, channels) <= len,
{
    let frames = frame_count(len, channels) as int;
    lemma_fundamental_div_mod(len as int, channels as int);
    lemma_mul_is_commutative(channels as int, frames);
    assert(frames <= frames * channels) by (nonlinear_arith)
        requires
            0 <= frames,
            channels > 0,
    ;
}

/// What is left over does not fill another frame.
proof fn lemma_frames_fill(len: nat, channels: usize)
    requires
        channels > 0,
    ensures
        frame_count(len, channels) * channels <= len < (frame_count(len, channels) + 1) * channels,
{
    let frames = frame_count(len, channels) as int;
    lemma_fundamental_div_mod(len as int, channels as int);
    lemma_mul_is_commutative(channels as int, frames);
    assert((frames + 1) * channels == frames * channels + channels) by (nonlinear_arith);
}

/// A sample of so many frames belongs to one of them.
proof fn lemma_frame_of(j: int, frames: nat, channels: usize)
    requires
        channels > 0,
        0 <= j < frames * channels,
    ensures
        0 <= j / (channels as int) < frames,
{
    let q = j / (channels as int);
    lemma_fundamental_div_mod(j, channels as int);
    assert(0 <= q < frames) by (nonlinear_arith)
        requires
            0 <= j < frames * channels,
            j == channels * q + j % (channels as int),
            0 <= j % (channels as int) < channels,
            channels > 0,
    ;
}

/// Takes the first channel out of interleaved capture frames, for the callback of
/// the input device. Returns the number of frames; their samples stand at the
/// front of `mono`, which grows where it is too short.
pub fn extract_mono(data: &[u32], channels: usize, mono: &mut Vec<u32>) -> (frames: usize)
    requires
        channels > 0,
    ensures
        frames == frame_count(data@.len(), channels),
        final(mono)@.len() == if old(mono)@.len() < frames {
            frames as nat
        } else {
            old(mono)@.len()
        },
        final(mono)@.take(frames as int) == first_channel(data@, channels),
        frames * channels <= data@.len() < (frames + 1) * channels,
        forall|i: int| 0 <= i < frames ==> #[trigger] final(mono)@[i] == data@[i * channels],
        final(mono)@.skip(frames as int) == old(mono)@.skip(min(frames as nat, old(mono)@.len()) as int),
{
    let frames = data.len() / channels;
    proof {
        lemma_frames_fill(data@.len(), channels);
    }
    if mono.len() < frames {
        mono.resize(frames, SILENCE);
    }
    let ghost grown = mono@;
    let mut i: usize = 0;
    let mut at: usize = 0;
    while i < frames
        invariant
            channels > 0,
            frames == frame_count(data@.len(), channels),
            i <= frames <= mono@.len(),
            mono@.len() == grown.len(),
            i < frames ==> at == i * channels,
            forall|k: int| 0 <= k < i ==> mono@[k] == data@[k * channels],
            forall|k: int| i <= k < mono@.len() ==> mono@[k] == grown[k],
        decreases frames - i,
    {
        proof {
            lemma_frame_fits(data@.len(), channels, i as int);
            if i + 1 < frames {
                lemma_frame_fits(data@.len(), channels, i + 1);
            }
            assert((i + 1) * channels == i * channels + channels) by (nonlinear_arith);
        }
        mono.set(i, data[at]);
        i = i + 1;
        if i < frames {
            at = at + channels;
        }
    }
    proof {
        assert(mono@.take(frames as int) =~= first_channel(data@, channels));
    }
    frames
}

/// Spreads one channel over the frames of an output buffer. Samples of the buffer
/// that do not fill a frame stay as they were.
pub fn expand_mono(mono: &[u32], channels: usize, data: &mut [u32])
    requires
        channels > 0,
        frame_count(old(data)@.len(), channels) <= mono@.len(),
    ensures
        ({
            let frames = frame_count(old(data)@.len(), channels) as int;
            final(data)@ == spread(mono@.take(frames), channels) + old(data)@.skip(
                frames * channels,
            )
        }),
{
    let len = data.len();
    let frames = len / channels;
    let ghost before = data@;
    let ghost total = frames * channels;
    proof {
        lemma_frames_fit(before.len(), channels);
    }
    let mut i: usize = 0;
    let mut at: usize = 0;
    while i < frames
        invariant
            channels > 0,
            len == before.len(),
            frames == frame_count(before.len(), channels),
            frames <= mono@.len(),
            i <= frames,
            at == i * channels,
            total == frames * channels,
            0 <= total <= before.len(),
            data@.len() == before.len(),
            forall|j: int| 0 <= j < at ==> data@[j] == mono@[j / channels as int],
            forall|j: int| at <= j < before.len() ==> data@[j] == before[j],
        decreases frames - i,
    {
        proof {
            lemma_frame_fits(before.len(), channels, i as int);
            assert((i + 1) * channels == i * channels + channels) by (nonlinear_arith);
        }
        let mut c: usize = 0;
        while c < channels
            invariant
                channels > 0,
                len == before.len(),
                i < frames <= mono@.len(),
                c <= channels,
                at == i * channels,
                at + channels <= before.len(),
                data@.len() == before.len(),
                forall|j: int| 0 <= j < at + c ==> data@[j] == mono@[j / channels as int],
                forall|j: int| at + c <= j < before.len() ==> data@[j] == before[j],
            decreases channels - c,
        {
            proof {
                lemma_fundamental_div_mod_converse(
                    at + c,
                    channels as int,
                    i as int,
                    c as int,
                );
            }
            data[at + c] = mono[i];
            c = c + 1;
        }
        at = at + channels;
        i = i + 1;
    }
    proof {
        let front = spread(mono@.take(frames as int), channels);
        assert forall|j: int| 0 <= j < total implies data@[j] == front[j] by {
            lemma_frame_of(j, frames as nat, channels);
        }
        assert(data@ =~= front + before.skip(total));
    }
}

/// The whole number nearest to `a / b`, halves rounded up.
pub open spec fn nearest_quotient(a: nat, b: nat) -> nat {
    (2 * a + b) / (2 * b)
}

/// The ratio that is reported: the nearest whole number, and at least one. A content rate of
/// zero counts as infinitely slow.
pub open spec fn reported_ratio(hw_output_rate: u32, content_rate: u32) -> u32 {
    if content_rate == 0 {
        if hw_output_rate == 0 {
            1
        } else {
            u32::MAX
        }
    } else if nearest_quotient(hw_output_rate as nat, content_rate as nat) >= 1 {
        nearest_quotient(hw_output_rate as nat, content_rate as nat) as u32
    } else {
        1
    }
}

/// How many hardware frames there are to a played sample, as a whole number and at
/// least one: for diagnostics only. A content rate of zero counts as infinitely
/// slow.
pub fn upsample_ratio(hw_output_rate: u32, content_rate: u32) -> (ratio: u32)
    ensures
        ratio == reported_ratio(hw_output_rate, content_rate),
        content_rate > 0 ==> ratio == if nearest_quotient(
            hw_output_rate as nat,
            content_rate as nat,
        ) >= 1 {
            nearest_quotient(hw_output_rate as nat, content_rate as nat)
        } else {
            1
        },
        content_rate == 0 && hw_output_rate > 0 ==> ratio == u32::MAX,
        content_rate == 0 && hw_output_rate == 0 ==> ratio == 1,
{
    if content_rate == 0 {
        return if hw_output_rate == 0 {
            1
        } else {
            u32::MAX
        };
    }
    let a = 2 * hw_output_rate as u64 + content_rate as u64;
    let b = 2 * content_rate as u64;
    proof {
        assert(a / b <= 0xffff_ffff) by (nonlinear_arith)
            requires
                a == 2 * hw_output_rate + content_rate,
                b == 2 * content_rate,
                0 < content_rate <= 0xffff_ffff,
                0 <= hw_output_rate <= 0xffff_ffff,
        ;
    }
    let nearest = (a / b) as u32;
    if nearest >= 1 {
        nearest
    } else {
        1
    }
}

/// Where an output frame lies: between two neighbouring samples, so far from the first
/// to the second. Its value is `before + (after - before) * fraction / hw_rate`.
#[derive(Debug, Clone, Copy, PartialEq, Eq, Structural)]
pub struct Tap {
    /// The sample before the frame.
    pub before: u32,
    /// The sample after the frame.
    pub after: u32,
    /// How far the frame is from the one to the other, in parts of the hardware rate.
    pub fraction: u32,
}

/// A frame of silence.
pub open spec fn silent_tap() -> Tap {
    Tap { before: SILENCE, after: SILENCE, fraction: 0 }
}

/// A linear resampler from the rate of the played samples to that of the hardware, up to
/// the value of the frames: it says which two samples each frame lies between and where.
///
/// Its position is kept as a fraction of the hardware rate, so it is exact for any two
/// rates, and it goes on from callback to callback. Samples that were pulled for one
/// callback and not used up carry over to the next: pulling is destructive, and a dropped
/// sample would be heard.
pub struct Resampler {
    content_rate: u32,
    hw_rate: u32,
    phase: u64,
    s0: u32,
    s1: u32,
    source: Vec<u32>,
}

/// The resampler as a mathematical value.
#[verifier::ext_equal]
pub struct ResamplerView {
    /// Rate in Hz of the samples.
    pub content_rate: u32,
    /// Rate in Hz of the frames.
    pub hw_rate: u32,
    /// How far the next frame is from `s0`, in parts of the hardware rate.
    pub phase: nat,
    /// The sample before the current position.
    pub s0: u32,
    /// The sample after the current position.
    pub s1: u32,
    /// The samples that have been supplied and not been used up.
    pub source: Seq<u32>,
}

impl ResamplerView {
    /// A resampler between two silences, with nothing supplied: the first frame lies on
    /// the second silence, right before the first sample.
    pub open spec fn initial(content_rate: u32, hw_rate: u32) -> ResamplerView {
        ResamplerView {
            content_rate,
            hw_rate,
            phase: hw_rate as nat,
            s0: SILENCE,
            s1: SILENCE,
            source: Seq::empty(),
        }
    }

    /// With more samples supplied.
    pub open spec fn after_supply(self, samples: Seq<u32>) -> ResamplerView {
        ResamplerView { source: self.source + samples, ..self }
    }

    /// The signal from the current position on: the two samples around it, what
    /// has been supplied, and silence after that.
    pub open spec fn signal(self, i: int) -> u32 {
        if i <= 0 {
            self.s0
        } else if i == 1 {
            self.s1
        } else if i - 2 < self.source.len() {
            self.source[i - 2]
        } else {
            SILENCE
        }
    }

    /// How far the frame `k`, counted from now, is from `s0`, in parts of the hardware
    /// rate.
    pub open spec fn position(self, k: int) -> int {
        self.phase + k * self.content_rate
    }

    /// How many samples lie between `s0` and the last one before the frame `k`.
    pub open spec fn samples_before(self, k: int) -> int {
        self.position(k) / self.hw_rate as int
    }

    /// Where the frame `k` lies.
    pub open spec fn frame(self, k: int) -> Tap {
        Tap {
            before: self.signal(self.samples_before(k)),
            after: self.signal(self.samples_before(k) + 1),
            fraction: (self.position(k) % self.hw_rate as int) as u32,
        }
    }

    /// Where each of the next `n` frames lies.
    pub open spec fn frames(self, n: nat) -> Seq<Tap> {
        Seq::new(n, |k: int| self.frame(k))
    }

    /// How many samples `n` frames move over.
    pub open spec fn moves(self, n: nat) -> nat {
        if n == 0 {
            0
        } else {
            self.samples_before(n - 1) as nat
        }
    }

    /// After `n` frames.
    pub open spec fn after_frames(self, n: nat) -> ResamplerView {
        let m = self.moves(n);
        ResamplerView {
            phase: (self.position(n as int) - m * self.hw_rate) as nat,
            s0: self.signal(m as int),
            s1: self.signal(m as int + 1),
            source: self.source.skip(min(m, self.source.len()) as int),
            ..self
        }
    }

    /// An upper bound of the samples that `n` frames move over: the position after them,
    /// rounded up, and one to spare.
    pub open spec fn needed(self, n: nat) -> nat {
        ((self.position(n as int) + self.hw_rate - 1) / self.hw_rate as int + 1) as nat
    }

    /// How many more samples to pull for `n` frames.
    pub open spec fn short_by(self, n: nat) -> nat {
        let needed = min(self.needed(n), usize::MAX as nat);
        if needed > self.source.len() {
            (needed - self.source.len()) as nat
        } else {
            0
        }
    }

    /// Where the frames of a callback for `n` frames lie. With nothing to play they are
    /// silent.
    pub open spec fn callback_frames(self, n: nat) -> Seq<Tap> {
        if self.source.len() == 0 {
            Seq::new(n, |k: int| silent_tap())
        } else {
            self.frames(n)
        }
    }

    /// After a callback for `n` frames. With nothing to play the resampler starts over,
    /// so that the next turn does not start from a stale tail.
    pub open spec fn after_callback(self, n: nat) -> ResamplerView {
        if self.source.len() == 0 {
            ResamplerView::initial(self.content_rate, self.hw_rate)
        } else {
            self.after_frames(n)
        }
    }
}

impl View for Resampler {
    type V = ResamplerView;

    closed spec fn view(&self) -> ResamplerView {
        ResamplerView {
            content_rate: self.content_rate,
            hw_rate: self.hw_rate,
            phase: self.phase as nat,
            s0: self.s0,
            s1: self.s1,
            source: self.source@,
        }
    }
}

/// Where a whole number of rates fits and less than one is left over, that is the
/// quotient and the remainder.
proof fn lemma_position(position: int, hw_rate: int, q: int, r: int)
    requires
        hw_rate > 0,
        0 <= r < hw_rate,
        position == q * hw_rate + r,
    ensures
        position / hw_rate == q,
        position % hw_rate == r,
{
    lemma_fundamental_div_mod_converse(position, hw_rate, q, r);
}

impl Resampler {
    /// The hardware has a rate.
    pub open spec fn wf(&self) -> bool {
        self@.hw_rate > 0
    }

    /// A resampler that has been supplied with nothing.
    pub fn new(content_rate: u32, hw_rate: u32) -> (resampler: Resampler)
        requires
            hw_rate > 0,
        ensures
            resampler.wf(),
            resampler@ == ResamplerView::initial(content_rate, hw_rate),
    {
        Resampler {
            content_rate,
            hw_rate,
            phase: hw_rate as u64,
            s0: SILENCE,
            s1: SILENCE,
            source: Vec::with_capacity(8192),
        }
    }

    /// The number of samples supplied and not used up.
    pub fn available(&self) -> (n: usize)
        ensures
            n == self@.source.len(),
    {
        self.source.len()
    }

    /// How many more samples to pull before a callback for `frames` frames: enough for it
    /// not to run out. More than fit in a `usize` are as many as fit.
    pub fn to_pull(&self, frames: usize) -> (n: usize)
        requires
            self.wf(),
        ensures
            n == self@.short_by(frames as nat),
            n == ({
                let needed = min(self@.needed(frames as nat), usize::MAX as nat);
                if needed > self@.source.len() {
                    (needed - self@.source.len()) as nat
                } else {
                    0
                }
            }),
    {
        let hw = self.hw_rate as u128;
        proof {
            assert(0 <= frames * self.content_rate <= 0xffff_ffff_ffff_ffff * 0xffff_ffff)
                by (nonlinear_arith)
                requires
                    0 <= frames <= 0xffff_ffff_ffff_ffff,
                    0 <= self.content_rate <= 0xffff_ffff,
            ;
        }
        let position = self.phase as u128 + frames as u128 * self.content_rate as u128;
        let rounded = position + (hw - 1);
        proof {
            assert(rounded / hw <= rounded) by (nonlinear_arith)
                requires
                    rounded >= 0,
                    hw > 0,
            ;
        }
        let needed = rounded / hw + 1;
        let needed: usize = if needed <= usize::MAX as u128 {
            needed as usize
        } else {
            usize::MAX
        };
        needed.saturating_sub(self.source.len())
    }

    /// Takes in samples that have been pulled.
    pub fn supply(&mut self, samples: &[u32])
        ensures
            final(self)@ == old(self)@.after_supply(samples@),
    {
        let mut i: usize = 0;
        proof {
            assert(self@ =~= old(self)@.after_supply(samples@.take(0)));
        }
        while i < samples.len()
            invariant
                i <= samples@.len(),
                self@ == old(self)@.after_supply(samples@.take(i as int)),
            decreases samples@.len() - i,
        {
            self.source.push(samples[i]);
            i = i + 1;
            proof {
                assert(self@.source =~= old(self)@.source + samples@.take(i as int));
            }
        }
        proof {
            assert(samples@.take(i as int) == samples@);
        }
    }

    /// Forgets everything but the rates: the next sample starts from silence instead of
    /// from a stale tail.
    fn reset(&mut self)
        ensures
            final(self)@ == ResamplerView::initial(old(self)@.content_rate, old(self)@.hw_rate),
    {
        self.phase = self.hw_rate as u64;
        self.s0 = SILENCE;
        self.s1 = SILENCE;
        self.source.clear();
    }

    /// A callback of the output device for `frames` frames: notes in `taps`, which is
    /// emptied first, where each of them lies. Where the supply runs out in the middle the
    /// signal goes on with silence; where there was none, all frames are silent and the
    /// resampler starts over. Returns whether there was any.
    pub fn advance(&mut self, frames: usize, taps: &mut Vec<Tap>) -> (sounding: bool)
        requires
            old(self).wf(),
        ensures
            final(self).wf(),
            sounding == (old(self)@.source.len() > 0),
            final(taps)@ == old(self)@.callback_frames(frames as nat),
            final(self)@ == old(self)@.after_callback(frames as nat),
    {
        taps.clear();
        if self.source.len() == 0 {
            let mut i: usize = 0;
            while i < frames
                invariant
                    i <= frames,
                    taps@ == Seq::new(i as nat, |k: int| silent_tap()),
                decreases frames - i,
            {
                taps.push(Tap { before: SILENCE, after: SILENCE, fraction: 0 });
                i = i + 1;
                proof {
                    assert(taps@ =~= Seq::new(i as nat, |k: int| silent_tap()));
                }
            }
            self.reset();
            return false;
        }
        let ghost start = self@;
        let len = self.source.len();
        let hw = self.hw_rate as u64;
        let step = self.content_rate as u64;
        let mut used: usize = 0;
        let mut i: usize = 0;
        let ghost mut at: nat = 0;
        while i < frames
            invariant
                i <= frames,
                hw == start.hw_rate,
                hw > 0,
                step == start.content_rate,
                self.content_rate == start.content_rate,
                self.hw_rate == start.hw_rate,
                len == start.source.len(),
                self.source@ == start.source,
                at == start.moves(i as nat),
                self.phase == start.position(i as int) - at * hw,
                used == min(at, len as nat),
                self.s0 == start.signal(at as int),
                self.s1 == start.signal(at as int + 1),
                taps@ == start.frames(i as nat),
            decreases frames - i,
        {
            while self.phase >= hw
                invariant
                    hw == start.hw_rate,
                    hw > 0,
                    self.content_rate == start.content_rate,
                    self.hw_rate == start.hw_rate,
                    len == start.source.len(),
                    self.source@ == start.source,
                    self.phase == start.position(i as int) - at * hw,
                    used == min(at, len as nat),
                    self.s0 == start.signal(at as int),
                    self.s1 == start.signal(at as int + 1),
                decreases self.phase,
            {
                self.phase = self.phase - hw;
                self.s0 = self.s1;
                if used < len {
                    self.s1 = self.source[used];
                    used = used + 1;
                } else {
                    self.s1 = SILENCE;
                }
                proof {
                    assert((at + 1) * hw == at * hw + hw) by (nonlinear_arith);
                    at = at + 1;
                }
            }
            proof {
                lemma_position(start.position(i as int), hw as int, at as int, self.phase as int);
                assert((i + 1) * step == i * step + step) by (nonlinear_arith);
            }
            taps.push(Tap { before: self.s0, after: self.s1, fraction: self.phase as u32 });
            self.phase = self.phase + step;
            i = i + 1;
            proof {
                assert(taps@ =~= start.frames(i as nat));
            }
        }
        self.drop_used(used);
        true
    }

    /// Drops the first `used` samples of the supply.
    fn drop_used(&mut self, used: usize)
        requires
            used <= old(self)@.source.len(),
        ensures
            final(self)@ == (ResamplerView {
                source: old(self)@.source.skip(used as int),
                ..old(self)@
            }),
    {
        let len = self.source.len();
        let left = len - used;
        let mut j: usize = 0;
        while j < left
            invariant
                j <= left,
                left == len - used,
                len == old(self)@.source.len(),
                self.source@.len() == len,
                self@ == (ResamplerView { source: self.source@, ..old(self)@ }),
                forall|k: int| 0 <= k < j ==> self.source@[k] == old(self)@.source[k + used],
                forall|k: int|
                    j <= k < self.source@.len() ==> self.source@[k] == old(self)@.source[k],
            decreases left - j,
        {
            let sample = self.source[used + j];
            self.source.set(j, sample);
            j = j + 1;
        }
        self.source.truncate(left);
        proof {
            assert(self@.source =~= old(self)@.source.skip(used as int));
        }
    }
}

} // verus!
