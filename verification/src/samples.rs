//! Small notions about sequences of samples that several modules share.

use vstd::prelude::*;

verus! {

/// The bit pattern of a silent sample.
pub const SILENCE: u32 = 0;

/// The smaller of two numbers.
pub open spec fn min(a: nat, b: nat) -> nat {
    if a <= b {
        a
    } else {
        b
    }
}

/// `n` silent samples.
pub open spec fn silence(n: nat) -> Seq<u32> {
    Seq::new(n, |i: int| SILENCE)
}

/// What a counter that wraps around past `usize::MAX` holds after `n` more
/// events, for an `n` that fits in a `usize`.
pub open spec fn counted(counter: usize, n: nat) -> usize {
    if counter + n <= usize::MAX {
        (counter + n) as usize
    } else {
        (counter + n - usize::MAX - 1) as usize
    }
}

/// Writes silence over `buffer` from position `start` on.
pub fn fill_silence(buffer: &mut [u32], start: usize)
    requires
        start <= old(buffer)@.len(),
    ensures
        final(buffer)@ == old(buffer)@.take(start as int) + silence(
            (old(buffer)@.len() - start) as nat,
        ),
{
    let len = buffer.len();
    let mut i: usize = start;
    while i < len
        invariant
            start <= i <= len,
            len == old(buffer)@.len(),
            buffer@.len() == len,
            buffer@ == old(buffer)@.take(start as int) + silence((i - start) as nat)
                + old(buffer)@.skip(i as int),
        decreases len - i,
    {
        buffer[i] = SILENCE;
        i = i + 1;
    }
}

/// Adds `n` to a counter that wraps around.
pub fn count(counter: usize, n: usize) -> (next: usize)
    ensures
        next == counted(counter, n as nat),
{
    counter.wrapping_add(n)
}

} // verus!
