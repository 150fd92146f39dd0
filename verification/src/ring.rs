//! The bounded first-in first-out queue of samples, on top of `ringbuf`.

use ringbuf::traits::{Consumer, Observer, Producer, Split};
use vstd::prelude::*;

use crate::samples::min;

verus! {

/// A heap ring buffer of samples: the two halves of one `ringbuf::HeapRb`,
/// kept together so that whoever holds the ring is alone with its contents.
#[verifier::external_body]
pub struct SampleRing {
    prod: ringbuf::HeapProd<u32>,
    cons: ringbuf::HeapCons<u32>,
}

/// The samples in the ring, the one that leaves first at the front.
pub uninterp spec fn ring_contents(ring: SampleRing) -> Seq<u32>;

/// The number of samples that the ring was made to hold.
pub uninterp spec fn ring_capacity(ring: SampleRing) -> nat;

impl View for SampleRing {
    type V = Seq<u32>;

    open spec fn view(&self) -> Seq<u32> {
        ring_contents(*self)
    }
}

/// `ringbuf::HeapRb::new` followed by `split`: an empty ring for `capacity`
/// samples. `new` panics on a capacity of zero and where the storage would not
/// fit in the address space.
#[verifier::external_body]
pub(crate) fn ring_new(capacity: usize) -> (ring: SampleRing)
    requires
        0 < capacity,
        capacity * 4 <= isize::MAX,
    ensures
        ring_contents(ring) == Seq::<u32>::empty(),
        ring_capacity(ring) == capacity,
{
    let (prod, cons) = ringbuf::HeapRb::<u32>::new(capacity).split();
    SampleRing { prod, cons }
}

/// `Producer::push_slice`: appends from the front of `samples` as many as there
/// are free places for, and returns how many those were.
#[verifier::external_body]
pub(crate) fn ring_push_slice(ring: &mut SampleRing, samples: &[u32]) -> (written: usize)
    requires
        ring_contents(*old(ring)).len() <= ring_capacity(*old(ring)),
    ensures
        written == min(
            samples@.len(),
            (ring_capacity(*old(ring)) - ring_contents(*old(ring)).len()) as nat,
        ),
        ring_contents(*final(ring)) == ring_contents(*old(ring)) + samples@.take(written as int),
        ring_capacity(*final(ring)) == ring_capacity(*old(ring)),
{
    ring.prod.push_slice(samples)
}

/// `Consumer::pop_slice`: moves samples from the front of the ring to the front
/// of `buffer` until the ring is empty or the buffer full, and returns how many
/// it moved. The rest of the buffer stays as it was.
#[verifier::external_body]
pub(crate) fn ring_pop_slice(ring: &mut SampleRing, buffer: &mut [u32]) -> (read: usize)
    ensures
        read == min(old(buffer)@.len(), ring_contents(*old(ring)).len()),
        final(buffer)@ == ring_contents(*old(ring)).take(read as int) + old(buffer)@.skip(
            read as int,
        ),
        ring_contents(*final(ring)) == ring_contents(*old(ring)).skip(read as int),
        ring_capacity(*final(ring)) == ring_capacity(*old(ring)),
{
    ring.cons.pop_slice(buffer)
}

/// `Observer::occupied_len`: the number of samples in the ring.
#[verifier::external_body]
pub(crate) fn ring_occupied_len(ring: &SampleRing) -> (len: usize)
    ensures
        len == ring_contents(*ring).len(),
{
    ring.cons.occupied_len()
}

} // verus!
