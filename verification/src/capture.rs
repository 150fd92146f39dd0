//! The capture side of the bridge: the realtime callback of the input device
//! pushes samples, the collector drains them.

use vstd::prelude::*;

use crate::playback::PlaybackState;
use crate::ring::{
    ring_capacity, ring_new, ring_occupied_len, ring_pop_slice, ring_push_slice, SampleRing,
};
use crate::samples::{count, counted, min};

verus! {

/// Capture queue capacity: two seconds at up to 96 kHz mono.
pub const CAPTURE_FIFO_CAPACITY: usize = 192_000;

/// Everything the capture side remembers.
pub struct CaptureState {
    ring: Option<SampleRing>,
    callback_count: usize,
    samples_pushed: usize,
    samples_dropped: usize,
    fifo_lock_fail: usize,
}

/// The capture state as a mathematical value.
#[verifier::ext_equal]
pub struct CaptureView {
    /// The captured samples that have not been drained, oldest first; `None`
    /// until the rings have been set up.
    pub fifo: Option<Seq<u32>>,
    /// Capture callbacks so far.
    pub callback_count: usize,
    /// Samples pushed so far.
    pub samples_pushed: usize,
    /// Samples for which there was no room.
    pub samples_dropped: usize,
    /// Capture callbacks that could not get at the queue.
    pub fifo_lock_fail: usize,
}

impl CaptureView {
    /// The state before the rings have been set up.
    pub open spec fn initial() -> CaptureView {
        CaptureView {
            fifo: None,
            callback_count: 0,
            samples_pushed: 0,
            samples_dropped: 0,
            fifo_lock_fail: 0,
        }
    }

    /// The queue is within its capacity.
    pub open spec fn consistent(self) -> bool {
        self.waiting().len() <= CAPTURE_FIFO_CAPACITY
    }

    /// The samples that wait to be drained; none before the rings have been set
    /// up.
    pub open spec fn waiting(self) -> Seq<u32> {
        match self.fifo {
            None => Seq::empty(),
            Some(q) => q,
        }
    }

    /// After the rings have been set up. A queue that is already there stays.
    pub open spec fn after_setup(self) -> CaptureView {
        CaptureView { fifo: Some(self.waiting()), ..self }
    }

    /// How many of `n` captured samples find room.
    pub open spec fn room_for(self, n: nat) -> nat {
        min(n, (CAPTURE_FIFO_CAPACITY - self.waiting().len()) as nat)
    }

    /// After a capture callback that delivers `samples`.
    pub open spec fn after_capture(self, samples: Seq<u32>, ring_locked: bool) -> CaptureView {
        let n = self.room_for(samples.len());
        let called = CaptureView { callback_count: counted(self.callback_count, 1), ..self };
        if samples.len() == 0 {
            self
        } else if self.fifo is None {
            called
        } else if ring_locked {
            CaptureView {
                fifo: Some(self.waiting() + samples.take(n as int)),
                samples_pushed: counted(self.samples_pushed, n),
                samples_dropped: counted(self.samples_dropped, (samples.len() - n) as nat),
                ..called
            }
        } else {
            CaptureView { fifo_lock_fail: counted(self.fifo_lock_fail, 1), ..called }
        }
    }

    /// After the first `n` waiting samples have been drained.
    pub open spec fn after_drain(self, n: nat) -> CaptureView {
        match self.fifo {
            None => self,
            Some(q) => CaptureView { fifo: Some(q.skip(n as int)), ..self },
        }
    }
}

impl View for CaptureState {
    type V = CaptureView;

    closed spec fn view(&self) -> CaptureView {
        CaptureView {
            fifo: match self.ring {
                None => None,
                Some(ring) => Some(ring@),
            },
            callback_count: self.callback_count,
            samples_pushed: self.samples_pushed,
            samples_dropped: self.samples_dropped,
            fifo_lock_fail: self.fifo_lock_fail,
        }
    }
}

impl CaptureState {
    /// The ring, once there, was made with the capture capacity.
    pub closed spec fn ring_sized(&self) -> bool {
        self.ring matches Some(ring) ==> ring_capacity(ring) == CAPTURE_FIFO_CAPACITY
    }

    /// The state is well formed: it is consistent, and its ring has the capture
    /// capacity.
    pub open spec fn wf(&self) -> bool {
        self@.consistent() && self.ring_sized()
    }

    /// The state before the rings have been set up.
    pub fn new() -> (capture: CaptureState)
        ensures
            capture.wf(),
            capture@ == CaptureView::initial(),
    {
        CaptureState {
            ring: None,
            callback_count: 0,
            samples_pushed: 0,
            samples_dropped: 0,
            fifo_lock_fail: 0,
        }
    }

    /// The counters: callbacks, samples pushed, samples dropped, callbacks
    /// without the queue.
    pub(crate) fn counters(&self) -> (c: (usize, usize, usize, usize))
        ensures
            c.0 == self@.callback_count,
            c.1 == self@.samples_pushed,
            c.2 == self@.samples_dropped,
            c.3 == self@.fifo_lock_fail,
    {
        (self.callback_count, self.samples_pushed, self.samples_dropped, self.fifo_lock_fail)
    }
}

/// Sets up the capture ring and the playback ring. Called once; a ring that is
/// already there stays as it is.
pub fn init_ring_buffers(capture: &mut CaptureState, playback: &mut PlaybackState)
    requires
        old(capture).wf(),
        old(playback).wf(),
    ensures
        final(capture).wf(),
        final(playback).wf(),
        final(capture)@ == old(capture)@.after_setup(),
        final(playback)@ == old(playback)@.after_setup(),
{
    if capture.ring.is_none() {
        capture.ring = Some(ring_new(CAPTURE_FIFO_CAPACITY));
    }
    playback.init_ring();
}

/// The callback of the input device: pushes the captured samples. Samples for
/// which there is no room are dropped and counted.
///
/// `ring_locked` says whether the realtime thread got hold of the queue; where
/// it did not, the whole buffer is dropped. A callback without frames does
/// nothing.
pub fn rust_audio_capture_callback(
    capture: &mut CaptureState,
    samples: &[u32],
    ring_locked: bool,
)
    requires
        old(capture).wf(),
    ensures
        final(capture).wf(),
        final(capture)@ == old(capture)@.after_capture(samples@, ring_locked),
{
    if samples.len() == 0 {
        return;
    }
    capture.callback_count = count(capture.callback_count, 1);
    match &mut capture.ring {
        Some(ring) => {
            if ring_locked {
                let written = ring_push_slice(ring, samples);
                capture.samples_pushed = count(capture.samples_pushed, written);
                let dropped = samples.len() - written;
                if dropped > 0 {
                    capture.samples_dropped = count(capture.samples_dropped, dropped);
                }
            } else {
                capture.fifo_lock_fail = count(capture.fifo_lock_fail, 1);
            }
        },
        None => {},
    }
}

/// Drains captured samples into `buffer`, oldest first, and returns how many
/// there were. The rest of the buffer stays as it was.
pub fn drain_capture_samples(capture: &mut CaptureState, buffer: &mut [u32]) -> (read: usize)
    requires
        old(capture).wf(),
    ensures
        final(capture).wf(),
        read == min(old(buffer)@.len(), old(capture)@.waiting().len()),
        final(buffer)@ == old(capture)@.waiting().take(read as int) + old(buffer)@.skip(
            read as int,
        ),
        final(capture)@ == old(capture)@.after_drain(read as nat),
{
    match &mut capture.ring {
        Some(ring) => ring_pop_slice(ring, buffer),
        None => 0,
    }
}

/// The number of samples that wait to be drained.
pub fn capture_fifo_level(capture: &CaptureState) -> (level: usize)
    ensures
        level == capture@.waiting().len(),
{
    match &capture.ring {
        Some(ring) => ring_occupied_len(ring),
        None => 0,
    }
}

} // verus!
