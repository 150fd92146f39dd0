//! The channel that carries recorded chunks to their consumer: a bounded
//! `tokio::sync::mpsc` channel of sample vectors.
//!
//! What the consumer takes out, and when, is not known here. The channel is described by
//! what it has been offered and what it answered; it delivers exactly the chunks that it
//! answered to have taken, in the same order.

use tokio::sync::mpsc::error::TrySendError;
use tokio::sync::mpsc::{Receiver, Sender};
use vstd::prelude::*;

verus! {

/// `tokio::sync::mpsc::Sender`.
#[verifier::external_type_specification]
#[verifier::external_body]
#[verifier::reject_recursive_types(T)]
pub struct ExSender<T>(Sender<T>);

/// `tokio::sync::mpsc::Receiver`.
#[verifier::external_type_specification]
#[verifier::external_body]
#[verifier::reject_recursive_types(T)]
pub struct ExReceiver<T>(Receiver<T>);

/// What a channel answers when it is offered a chunk.
#[derive(Debug, Clone, Copy, PartialEq, Eq, Structural)]
pub enum SendAnswer {
    /// It has taken the chunk.
    Taken,
    /// It buffers as many chunks as it can: the consumer is too slow.
    Full,
    /// The consumer is gone.
    Closed,
}

/// The chunks that have been offered to the channel through this sending end, in order.
pub uninterp spec fn sender_offered(tx: Sender<Vec<u32>>) -> Seq<Seq<u32>>;

/// What the channel answered to each of them.
pub uninterp spec fn sender_answers(tx: Sender<Vec<u32>>) -> Seq<SendAnswer>;

/// The number of chunks that the channel was made to buffer.
pub uninterp spec fn sender_limit(tx: Sender<Vec<u32>>) -> nat;

/// Which channel a sending end belongs to.
pub uninterp spec fn sender_channel(tx: Sender<Vec<u32>>) -> int;

/// Which channel a receiving end belongs to.
pub uninterp spec fn receiver_channel(rx: Receiver<Vec<u32>>) -> int;

/// Those of `chunks` whose answer in `answers` is that they were taken, in order.
pub open spec fn taken_of(chunks: Seq<Seq<u32>>, answers: Seq<SendAnswer>) -> Seq<Seq<u32>>
    decreases chunks.len(),
{
    if chunks.len() == 0 {
        Seq::empty()
    } else {
        let before = taken_of(chunks.drop_last(), answers.drop_last());
        if answers.last() == SendAnswer::Taken {
            before.push(chunks.last())
        } else {
            before
        }
    }
}

/// A channel as its sending end sees it.
#[verifier::ext_equal]
pub struct ChannelView {
    /// Which channel it is.
    pub id: int,
    /// How many chunks it buffers.
    pub limit: nat,
    /// The chunks that it has been offered so far.
    pub offered: Seq<Seq<u32>>,
    /// What it answered to each of them.
    pub answers: Seq<SendAnswer>,
}

impl ChannelView {
    /// The chunks that it has taken: they are what its consumer receives.
    pub open spec fn taken(self) -> Seq<Seq<u32>> {
        taken_of(self.offered, self.answers)
    }

    /// After it has been offered `chunks` one after the other, with these answers.
    pub open spec fn after_send(self, chunks: Seq<Seq<u32>>, answers: Seq<SendAnswer>) -> ChannelView {
        ChannelView { offered: self.offered + chunks, answers: self.answers + answers, ..self }
    }

    /// The channel behaves as one: it has answered each offer, it said that it was full
    /// only when it had taken at least as many chunks as it buffers, and a consumer that
    /// was gone did not come back.
    pub open spec fn sound(self) -> bool {
        &&& self.answers.len() == self.offered.len()
        &&& forall|i: int|
            0 <= i < self.answers.len() && #[trigger] self.answers[i] == SendAnswer::Full
                ==> taken_of(self.offered.take(i), self.answers.take(i)).len() >= self.limit
        &&& forall|i: int, j: int|
            0 <= i < j < self.answers.len() && self.answers[i] == SendAnswer::Closed
                ==> self.answers[j] == SendAnswer::Closed
    }
}

/// The channel behind a sending end.
pub open spec fn channel_view(tx: Sender<Vec<u32>>) -> ChannelView {
    ChannelView {
        id: sender_channel(tx),
        limit: sender_limit(tx),
        offered: sender_offered(tx),
        answers: sender_answers(tx),
    }
}

/// `tokio::sync::mpsc::channel`: a new channel that buffers up to `limit`
/// chunks, as its two ends. It has been offered nothing yet, and the two ends belong to
/// each other and, the channel being newly allocated, to another channel than
/// the sending end `beside`, which is alive meanwhile. `channel` panics on a limit
/// of zero and above the number of permits of a semaphore.
#[verifier::external_body]
pub(crate) fn channel_open(
    limit: usize,
    beside: Option<&Sender<Vec<u32>>>,
) -> (ends: (Sender<Vec<u32>>, Receiver<Vec<u32>>))
    requires
        0 < limit <= usize::MAX / 8,
    ensures
        sender_offered(ends.0) == Seq::<Seq<u32>>::empty(),
        sender_answers(ends.0) == Seq::<SendAnswer>::empty(),
        sender_limit(ends.0) == limit,
        sender_channel(ends.0) == receiver_channel(ends.1),
        beside matches Some(tx) ==> sender_channel(ends.0) != sender_channel(*tx),
{
    let _ = beside;
    tokio::sync::mpsc::channel(limit)
}

/// `Sender::try_send`: offers a chunk to the channel without waiting, and says what the
/// channel answered. A channel that is full, or whose receiving end is gone,
/// takes nothing. It is full only when it has taken, since it was opened, at least as
/// many chunks as it buffers: the sending end of this library is the only one, and
/// receiving makes room. A receiving end that is gone stays so. Beyond that the answer
/// depends on the consumer, so which one comes is left unsaid.
#[verifier::external_body]
pub(crate) fn channel_try_send(tx: &mut Sender<Vec<u32>>, chunk: Vec<u32>) -> (answer: SendAnswer)
    ensures
        sender_offered(*final(tx)) == sender_offered(*old(tx)).push(chunk@),
        sender_answers(*final(tx)) == sender_answers(*old(tx)).push(answer),
        answer == SendAnswer::Full ==> taken_of(
            sender_offered(*old(tx)),
            sender_answers(*old(tx)),
        ).len() >= sender_limit(*old(tx)),
        sender_answers(*old(tx)).contains(SendAnswer::Closed) ==> answer == SendAnswer::Closed,
        sender_limit(*final(tx)) == sender_limit(*old(tx)),
        sender_channel(*final(tx)) == sender_channel(*old(tx)),
{
    match tx.try_send(chunk) {
        Ok(()) => SendAnswer::Taken,
        Err(TrySendError::Full(_)) => SendAnswer::Full,
        Err(TrySendError::Closed(_)) => SendAnswer::Closed,
    }
}

/// One more answer of the kind that a channel gives keeps it sound.
proof fn lemma_offer_keeps_sound(channel: ChannelView, chunk: Seq<u32>, answer: SendAnswer)
    requires
        channel.sound(),
        answer == SendAnswer::Full ==> channel.taken().len() >= channel.limit,
        channel.answers.contains(SendAnswer::Closed) ==> answer == SendAnswer::Closed,
    ensures
        channel.after_send(seq![chunk], seq![answer]).sound(),
{
    let next = channel.after_send(seq![chunk], seq![answer]);
    let at = channel.answers.len() as int;
    assert forall|i: int|
        0 <= i < next.answers.len() && #[trigger] next.answers[i]
            == SendAnswer::Full implies taken_of(next.offered.take(i), next.answers.take(i)).len()
        >= next.limit by {
        assert(next.offered.take(i) =~= channel.offered.take(i));
        assert(next.answers.take(i) =~= channel.answers.take(i));
        if i < at {
            assert(channel.answers[i] == SendAnswer::Full);
        } else {
            assert(channel.offered.take(i) =~= channel.offered);
            assert(channel.answers.take(i) =~= channel.answers);
        }
    }
    assert forall|i: int, j: int|
        0 <= i < j < next.answers.len() && next.answers[i]
            == SendAnswer::Closed implies next.answers[j] == SendAnswer::Closed by {
        assert(next.answers[i] == channel.answers[i]);
        if j < at {
            assert(next.answers[j] == channel.answers[j]);
        } else {
            assert(channel.answers.contains(SendAnswer::Closed));
        }
    }
}

/// The samples in each of a sequence of chunks.
pub open spec fn chunk_samples(chunks: Seq<Vec<u32>>) -> Seq<Seq<u32>> {
    chunks.map_values(|chunk: Vec<u32>| chunk@)
}

/// Offers every chunk to the channel, once and in order, without waiting, and returns the
/// answers; a chunk that the channel did not take is dropped, and the next is offered all
/// the same.
pub(crate) fn forward_chunks(
    tx: &mut Sender<Vec<u32>>,
    chunks: Vec<Vec<u32>>,
) -> (answers: Vec<SendAnswer>)
    requires
        channel_view(*old(tx)).sound(),
    ensures
        channel_view(*final(tx)).sound(),
        answers@.len() == chunks@.len(),
        channel_view(*final(tx)) == channel_view(*old(tx)).after_send(
            chunk_samples(chunks@),
            answers@,
        ),
{
    let mut answers: Vec<SendAnswer> = Vec::new();
    let ghost offered = chunk_samples(chunks@);
    let ghost start = channel_view(*tx);
    proof {
        assert(start =~= start.after_send(offered.take(0), answers@));
    }
    for chunk in it: chunks.into_iter()
        invariant
            it.seq() == chunks@,
            offered == chunk_samples(chunks@),
            answers@.len() == it.index(),
            channel_view(*tx).sound(),
            channel_view(*tx) == start.after_send(offered.take(it.index()), answers@),
    {
        let ghost before = channel_view(*tx);
        let ghost at = answers@.len() as int;
        let answer = channel_try_send(tx, chunk);
        answers.push(answer);
        proof {
            lemma_offer_keeps_sound(before, chunk@, answer);
            assert(chunk@ == offered[at]);
            assert(channel_view(*tx) =~= before.after_send(seq![chunk@], seq![answer]));
            assert(channel_view(*tx) =~= start.after_send(offered.take(at + 1), answers@));
        }
    }
    proof {
        assert(offered.take(offered.len() as int) == offered);
    }
    answers
}

} // verus!
