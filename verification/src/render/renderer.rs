//! Frame pacing decisions, frame-in-flight rotation and queue family choice.
use vstd::prelude::*;

verus! {

/// Why a frame could not be rendered.
#[derive(Debug, PartialEq, Eq, Structural, Copy, Clone)]
pub enum RenderingError {
    DriverError,
    Sleeping,
    FailedToEndStream,
}

/// Why a swapchain image could not be acquired.
#[derive(Debug, PartialEq, Eq, Structural, Copy, Clone)]
pub enum AcquireError {
    DriverError,
}

/// Why polling the runtime's events stopped the loop.
#[derive(Debug, PartialEq, Eq, Structural, Copy, Clone)]
pub enum PollError {
    Exiting,
    LossPending,
    Recenter,
}

/// Why waiting for the next frame failed.
#[derive(Debug, PartialEq, Eq, Structural, Copy, Clone)]
pub enum WaitError {
    DriverError,
    Sleeping,
}

/// Bit mask of the views rendered in one multiview pass: both eyes.
pub const VIEW_MASK: u32 = !(!0u32 << 2u32);

/// A frame is only begun while the session runs; otherwise the renderer
/// is sleeping.
pub fn require_running(running: bool) -> (r: Result<(), RenderingError>)
    ensures
        r == (if running { Ok(()) } else { Err(RenderingError::Sleeping) }),
{
    if running {
        Ok(())
    } else {
        Err(RenderingError::Sleeping)
    }
}

/// A failed wait for the next frame: a sleeping runtime makes the renderer
/// sleep, any other failure is a driver error.
pub fn map_wait_error(err: WaitError) -> (r: RenderingError)
    ensures
        r == (match err {
            WaitError::Sleeping => RenderingError::Sleeping,
            WaitError::DriverError => RenderingError::DriverError,
        }),
{
    match err {
        WaitError::Sleeping => RenderingError::Sleeping,
        WaitError::DriverError => RenderingError::DriverError,
    }
}

/// The frame slot after `frame` among `max` slots.
pub open spec fn spec_next_frame(frame: nat, max: nat) -> nat {
    (frame + 1) % max
}

/// The frame slot reached from `frame` after `k` frames among `max` slots.
pub open spec fn frame_after(frame: nat, max: nat, k: nat) -> nat
    decreases k,
{
    if k == 0 {
        frame
    } else {
        spec_next_frame(frame_after(frame, max, (k - 1) as nat), max)
    }
}

/// Rotation through the per-frame resource slots (one per swapchain image).
pub struct FrameRing {
    frame_in_flight: usize,
    max_frames_in_flight: usize,
}

impl FrameRing {
    #[verifier::type_invariant]
    spec fn inv(self) -> bool {
        self.frame_in_flight < self.max_frames_in_flight || (self.max_frames_in_flight == 0
            && self.frame_in_flight == 0)
    }

    /// The slot of the frame being recorded.
    pub closed spec fn spec_frame(self) -> nat {
        self.frame_in_flight as nat
    }

    /// The number of slots.
    pub closed spec fn spec_max(self) -> nat {
        self.max_frames_in_flight as nat
    }

    /// A ring of `max_frames_in_flight` slots starting at slot 0.
    pub fn new(max_frames_in_flight: usize) -> (r: FrameRing)
        ensures
            r.spec_frame() == 0,
            r.spec_max() == max_frames_in_flight,
    {
        FrameRing { frame_in_flight: 0, max_frames_in_flight }
    }

    /// The slot of the frame being recorded.
    pub fn frame_in_flight(&self) -> (f: usize)
        ensures
            f == self.spec_frame(),
            self.spec_max() > 0 ==> f < self.spec_max(),
    {
        proof { use_type_invariant(self); }
        self.frame_in_flight
    }

    /// The number of slots.
    pub fn max_frames_in_flight(&self) -> (m: usize)
        ensures
            m == self.spec_max(),
    {
        self.max_frames_in_flight
    }

    /// Moves on to the next slot after a frame has been submitted.
    pub fn advance(&mut self)
        requires
            old(self).spec_max() > 0,
        ensures
            final(self).spec_max() == old(self).spec_max(),
            final(self).spec_frame() == spec_next_frame(old(self).spec_frame(), old(self).spec_max()),
    {
        proof { use_type_invariant(&*self); }
        let next = (self.frame_in_flight + 1) % self.max_frames_in_flight;
        self.frame_in_flight = next;
    }
}

/// Frames cycle through every slot in turn: after `k` frames the slot is
/// `(start + k) mod max`, so it is always a valid slot and after `max` frames
/// the ring is back where it started.
pub proof fn frames_cycle(start: nat, max: nat, k: nat)
    requires
        max > 0,
        start < max,
    ensures
        frame_after(start, max, k) == (start + k) % max,
        frame_after(start, max, k) < max,
        frame_after(start, max, max) == start,
{
    lemma_frame_after_mod(start, max, k);
    lemma_frame_after_mod(start, max, max);
    vstd::arithmetic::div_mod::lemma_mod_add_multiples_vanish(start as int, max as int);
    vstd::arithmetic::div_mod::lemma_small_mod(start, max);
}

proof fn lemma_frame_after_mod(start: nat, max: nat, k: nat)
    requires
        max > 0,
        start < max,
    ensures
        frame_after(start, max, k) == (start + k) % max,
    decreases k,
{
    if k > 0 {
        lemma_frame_after_mod(start, max, (k - 1) as nat);
        let x = (start + k - 1) as int;
        vstd::arithmetic::div_mod::lemma_add_mod_noop(x, 1, max as int);
        vstd::arithmetic::div_mod::lemma_add_mod_noop(x % (max as int), 1, max as int);
        vstd::arithmetic::div_mod::lemma_mod_twice(x, max as int);
    } else {
        vstd::arithmetic::div_mod::lemma_small_mod(start, max);
    }
}

/// Whether a queue family with capability bits `family` offers every
/// capability in `flags`.
pub open spec fn family_offers(family: u32, flags: u32) -> bool {
    family & flags == flags
}

/// The first queue family (by index) that offers every capability in
/// `flags`, given each family's capability bits.
pub fn device_queue_family_index(queue_family_flags: &Vec<u32>, flags: u32) -> (r: Option<u32>)
    ensures
        match r {
            Some(i) => exists|k: int|
                0 <= k < queue_family_flags@.len() && i == k as u32 && family_offers(
                    queue_family_flags@[k],
                    flags,
                ) && forall|j: int|
                    0 <= j < k ==> !family_offers(#[trigger] queue_family_flags@[j], flags),
            None => forall|k: int|
                0 <= k < queue_family_flags@.len() ==> !family_offers(
                    #[trigger] queue_family_flags@[k],
                    flags,
                ),
        },
{
    let mut i: usize = 0;
    while i < queue_family_flags.len()
        invariant
            i <= queue_family_flags@.len(),
            forall|j: int| 0 <= j < i ==> !family_offers(#[trigger] queue_family_flags@[j], flags),
        decreases queue_family_flags@.len() - i,
    {
        if queue_family_flags[i] & flags == flags {
            return Some(i as u32);
        }
        i += 1;
    }
    None
}

} // verus!
