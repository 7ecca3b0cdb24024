//! Per-frame synchronization protocol.
//!
//! The presentation pipeline cycles through N frame slots, each owning one
//! image-available semaphore, one rendering-finished semaphore and one
//! may-begin-drawing fence.  This module tracks the state of every slot and
//! admits the protocol steps in their only legal order: acquire an image for
//! the current slot, wait on the slot's fence and reset it, write buffers and
//! record while the slot is recordable, submit, advance to the next slot.
//! The fence wait is the sole admission control: a slot becomes recordable
//! only after the wait has retired every earlier use of its resources, so CPU
//! writes never race a GPU read from a prior cycle.  The caller performs the
//! device calls themselves and reports each completed step here.

use vstd::prelude::*;

verus! {

/// The lifecycle of one frame slot.
#[derive(Clone, Copy, PartialEq, Eq, Structural, Debug)]
pub enum SlotState {
    /// Never used since creation; its fence was created signaled.
    Idle,
    /// An image was acquired for this slot; the fence of the slot's previous
    /// use has not been waited on yet.
    Acquiring,
    /// The fence has been waited on and reset: the GPU retired every earlier
    /// use of the slot, so the CPU may write its buffers and record.
    Recording,
    /// Work was submitted; the GPU signals the fence when it completes.
    Submitted,
}

/// The rotating cursor over the frame slots together with each slot's state,
/// acquisition count and fence-wait count.
pub struct FrameSync {
    slots: Vec<SlotState>,
    current: usize,
    ticks: u64,
    uses: Vec<u64>,
    fence_waits: Vec<u64>,
}

impl FrameSync {
    /// Number of frame slots.
    pub closed spec fn spec_slot_count(self) -> int {
        self.slots@.len() as int
    }

    /// The slot the protocol is currently working on.
    pub closed spec fn spec_current(self) -> int {
        self.current as int
    }

    /// Completed ticks since creation.
    pub closed spec fn spec_ticks(self) -> int {
        self.ticks as int
    }

    /// The state of slot `s`.
    pub closed spec fn spec_state(self, s: int) -> SlotState
        recommends
            0 <= s < self.spec_slot_count(),
    {
        self.slots@[s]
    }

    /// How often slot `s` has had an image acquired for it.
    pub closed spec fn spec_uses(self, s: int) -> int
        recommends
            0 <= s < self.spec_slot_count(),
    {
        self.uses@[s] as int
    }

    /// How often slot `s`'s fence has been waited on and reset.
    pub closed spec fn spec_fence_waits(self, s: int) -> int
        recommends
            0 <= s < self.spec_slot_count(),
    {
        self.fence_waits@[s] as int
    }

    /// The slot-local part of the invariant: a slot's fence-wait count trails
    /// its use count by one exactly while the slot sits in `Acquiring` (the
    /// acquisition has happened, the answering wait has not) and has caught
    /// up in every other state; and any slot that left `Idle` has been
    /// acquired at least once.
    pub open spec fn slot_ok(self, s: int) -> bool {
        &&& (if self.spec_state(s) is Acquiring {
            self.spec_fence_waits(s) == self.spec_uses(s) - 1
        } else {
            self.spec_fence_waits(s) == self.spec_uses(s)
        })
        &&& (!(self.spec_state(s) is Idle) ==> self.spec_uses(s) >= 1)
    }

    /// Structural invariant.  The cursor walks the slots round-robin, so the
    /// current slot is always the tick count modulo the slot count; every
    /// slot satisfies its slot-local invariant; and only the current slot can
    /// be mid-protocol.
    pub closed spec fn wf(self) -> bool {
        &&& self.slots@.len() >= 1
        &&& self.uses@.len() == self.slots@.len()
        &&& self.fence_waits@.len() == self.slots@.len()
        &&& 0 <= self.spec_current() < self.spec_slot_count()
        &&& self.spec_current() == self.spec_ticks() % self.spec_slot_count()
        &&& (forall|s: int| 0 <= s < self.spec_slot_count() ==> #[trigger] self.slot_ok(s))
        &&& (forall|s: int|
            0 <= s < self.spec_slot_count() && s != self.spec_current() ==> (
            #[trigger] self.spec_state(s)) is Idle || self.spec_state(s) is Submitted)
    }

    /// A fresh synchronizer over `slot_count` slots: every fence starts
    /// signaled, the cursor starts at slot zero.
    pub fn new(slot_count: usize) -> (fs: FrameSync)
        requires
            slot_count >= 1,
        ensures
            fs.wf(),
            fs.spec_slot_count() == slot_count,
            fs.spec_current() == 0,
            fs.spec_ticks() == 0,
            forall|s: int|
                0 <= s < slot_count ==> (#[trigger] fs.spec_state(s)) is Idle && fs.spec_uses(s)
                    == 0 && fs.spec_fence_waits(s) == 0,
    {
        let mut slots: Vec<SlotState> = Vec::new();
        let mut uses: Vec<u64> = Vec::new();
        let mut fence_waits: Vec<u64> = Vec::new();
        let mut k: usize = 0;
        while k < slot_count
            invariant
                k <= slot_count,
                slots@.len() == k,
                uses@.len() == k,
                fence_waits@.len() == k,
                forall|s: int| 0 <= s < k ==> (#[trigger] slots@[s]) is Idle,
                forall|s: int| 0 <= s < k ==> (#[trigger] uses@[s]) == 0,
                forall|s: int| 0 <= s < k ==> (#[trigger] fence_waits@[s]) == 0,
            decreases slot_count - k,
        {
            slots.push(SlotState::Idle);
            uses.push(0);
            fence_waits.push(0);
            k = k + 1;
        }
        let fs = FrameSync { slots, current: 0, ticks: 0, uses, fence_waits };
        proof {
            vstd::arithmetic::div_mod::lemma_small_mod(0nat, slot_count as nat);
            assert forall|s: int| 0 <= s < fs.spec_slot_count() implies #[trigger] fs.slot_ok(
                s,
            ) by {
                assert(fs.spec_state(s) is Idle);
                assert(fs.spec_uses(s) == 0);
                assert(fs.spec_fence_waits(s) == 0);
            }
        }
        fs
    }

    /// Number of frame slots.
    pub fn slot_count(&self) -> (r: usize)
        ensures
            r == self.spec_slot_count(),
    {
        self.slots.len()
    }

    /// The slot the protocol is currently working on.
    pub fn current_slot(&self) -> (r: usize)
        ensures
            r == self.spec_current(),
    {
        self.current
    }

    /// Completed ticks since creation.
    pub fn tick_count(&self) -> (r: u64)
        ensures
            r == self.spec_ticks(),
    {
        self.ticks
    }

    /// The state of slot `s`.
    pub fn slot_state(&self, s: usize) -> (r: SlotState)
        requires
            s < self.spec_slot_count(),
        ensures
            r == self.spec_state(s as int),
    {
        self.slots[s]
    }

    /// How often slot `s` has had an image acquired for it.
    pub fn use_count(&self, s: usize) -> (r: u64)
        requires
            self.wf(),
            s < self.spec_slot_count(),
        ensures
            r == self.spec_uses(s as int),
    {
        self.uses[s]
    }

    /// How often slot `s`'s fence has been waited on and reset.
    pub fn fence_wait_count(&self, s: usize) -> (r: u64)
        requires
            self.wf(),
            s < self.spec_slot_count(),
        ensures
            r == self.spec_fence_waits(s as int),
    {
        self.fence_waits[s]
    }

    /// Whether the CPU may write the current slot's buffers: only once the
    /// slot's fence wait has retired the GPU's previous pass over them.
    pub fn may_write_buffers(&self) -> (r: bool)
        requires
            self.wf(),
        ensures
            r == (self.spec_state(self.spec_current()) is Recording),
    {
        match self.slots[self.current] {
            SlotState::Recording => true,
            _ => false,
        }
    }

    /// Invariant carry-over for a step that rewrites only the current slot
    /// and leaves the cursor and the tick count alone.
    proof fn lemma_wf_after_slot_step(o: FrameSync, f: FrameSync)
        requires
            o.wf(),
            f.spec_slot_count() == o.spec_slot_count(),
            f.uses@.len() == f.slots@.len(),
            f.fence_waits@.len() == f.slots@.len(),
            f.spec_current() == o.spec_current(),
            f.spec_ticks() == o.spec_ticks(),
            forall|s: int|
                0 <= s < o.spec_slot_count() && s != o.spec_current() ==> (
                #[trigger] f.spec_state(s)) == o.spec_state(s) && f.spec_uses(s) == o.spec_uses(s)
                    && f.spec_fence_waits(s) == o.spec_fence_waits(s),
            f.slot_ok(o.spec_current()),
        ensures
            f.wf(),
    {
        let c = o.spec_current();
        assert forall|s: int| 0 <= s < f.spec_slot_count() implies #[trigger] f.slot_ok(s) by {
            if s != c {
                assert(f.spec_state(s) == o.spec_state(s));
                assert(o.slot_ok(s));
            }
        }
        assert forall|s: int|
            0 <= s < f.spec_slot_count() && s != f.spec_current() implies (
        #[trigger] f.spec_state(s)) is Idle || f.spec_state(s) is Submitted by {
            assert(f.spec_state(s) == o.spec_state(s));
            assert(o.spec_state(s) is Idle || o.spec_state(s) is Submitted);
        }
    }

    /// Record that an image was acquired for the current slot.  Allowed only
    /// when the slot is not mid-protocol: before its first use or after its
    /// last submission.
    pub fn acquire(&mut self)
        requires
            old(self).wf(),
            old(self).spec_state(old(self).spec_current()) is Idle || old(self).spec_state(
                old(self).spec_current(),
            ) is Submitted,
            old(self).spec_uses(old(self).spec_current()) < u64::MAX,
        ensures
            final(self).wf(),
            final(self).spec_state(final(self).spec_current()) is Acquiring,
            final(self).spec_current() == old(self).spec_current(),
            final(self).spec_ticks() == old(self).spec_ticks(),
            final(self).spec_slot_count() == old(self).spec_slot_count(),
            final(self).spec_uses(old(self).spec_current()) == old(self).spec_uses(
                old(self).spec_current(),
            ) + 1,
            forall|s: int|
                0 <= s < old(self).spec_slot_count() && s != old(self).spec_current() ==> (
                #[trigger] final(self).spec_state(s)) == old(self).spec_state(s) && final(self).spec_uses(s) == old(self).spec_uses(s),
            forall|s: int|
                0 <= s < old(self).spec_slot_count() ==> #[trigger] final(self).spec_fence_waits(s)
                    == old(self).spec_fence_waits(s),
    {
        let c = self.current;
        let u = self.uses[c];
        self.uses[c] = u + 1;
        self.slots[c] = SlotState::Acquiring;
        proof {
            assert(old(self).slot_ok(c as int));
            assert(self.slot_ok(c as int));
            Self::lemma_wf_after_slot_step(*old(self), *self);
        }
    }

    /// Record that the current slot's fence was waited on until the GPU
    /// retired the slot's previous use, and then reset.  This is the step
    /// that makes the slot recordable.
    pub fn wait_and_reset_fence(&mut self)
        requires
            old(self).wf(),
            old(self).spec_state(old(self).spec_current()) is Acquiring,
        ensures
            final(self).wf(),
            final(self).spec_state(final(self).spec_current()) is Recording,
            final(self).spec_current() == old(self).spec_current(),
            final(self).spec_ticks() == old(self).spec_ticks(),
            final(self).spec_slot_count() == old(self).spec_slot_count(),
            final(self).spec_fence_waits(old(self).spec_current()) == old(self).spec_fence_waits(
                old(self).spec_current(),
            ) + 1,
            final(self).spec_fence_waits(old(self).spec_current()) == final(self).spec_uses(
                old(self).spec_current(),
            ),
            forall|s: int|
                0 <= s < old(self).spec_slot_count() && s != old(self).spec_current() ==> (
                #[trigger] final(self).spec_state(s)) == old(self).spec_state(s) && final(self).spec_fence_waits(s) == old(self).spec_fence_waits(s),
            forall|s: int|
                0 <= s < old(self).spec_slot_count() ==> #[trigger] final(self).spec_uses(s) == old(
                    self,
                ).spec_uses(s),
    {
        let c = self.current;
        proof {
            assert(old(self).slot_ok(c as int));
        }
        let w = self.fence_waits[c];
        self.fence_waits[c] = w + 1;
        self.slots[c] = SlotState::Recording;
        proof {
            assert(self.slot_ok(c as int));
            Self::lemma_wf_after_slot_step(*old(self), *self);
        }
    }

    /// Record that the current slot's work was submitted, with the fence set
    /// to signal on completion.  Allowed only while the slot is recordable.
    pub fn submit(&mut self)
        requires
            old(self).wf(),
            old(self).spec_state(old(self).spec_current()) is Recording,
        ensures
            final(self).wf(),
            final(self).spec_state(final(self).spec_current()) is Submitted,
            final(self).spec_current() == old(self).spec_current(),
            final(self).spec_ticks() == old(self).spec_ticks(),
            final(self).spec_slot_count() == old(self).spec_slot_count(),
            forall|s: int|
                0 <= s < old(self).spec_slot_count() && s != old(self).spec_current() ==> (
                #[trigger] final(self).spec_state(s)) == old(self).spec_state(s),
            forall|s: int|
                0 <= s < old(self).spec_slot_count() ==> #[trigger] final(self).spec_uses(s) == old(
                    self,
                ).spec_uses(s) && final(self).spec_fence_waits(s) == old(self).spec_fence_waits(s),
    {
        let c = self.current;
        proof {
            assert(old(self).slot_ok(c as int));
        }
        self.slots[c] = SlotState::Submitted;
        proof {
            assert(self.slot_ok(c as int));
            Self::lemma_wf_after_slot_step(*old(self), *self);
        }
    }

    /// Close the tick: move the cursor to the next slot, round-robin.
    /// Allowed only after the current slot's work was submitted.
    pub fn advance(&mut self)
        requires
            old(self).wf(),
            old(self).spec_state(old(self).spec_current()) is Submitted,
            old(self).spec_ticks() < u64::MAX,
        ensures
            final(self).wf(),
            final(self).spec_ticks() == old(self).spec_ticks() + 1,
            final(self).spec_slot_count() == old(self).spec_slot_count(),
            final(self).spec_current() == (old(self).spec_current() + 1) % old(
                self,
            ).spec_slot_count(),
            final(self).spec_current() == final(self).spec_ticks() % final(self).spec_slot_count(),
            forall|s: int|
                0 <= s < old(self).spec_slot_count() ==> (#[trigger] final(self).spec_state(s))
                    == old(self).spec_state(s) && final(self).spec_uses(s) == old(self).spec_uses(s)
                    && final(self).spec_fence_waits(s) == old(self).spec_fence_waits(s),
    {
        let n = self.slots.len();
        let next = if self.current + 1 == n {
            0
        } else {
            self.current + 1
        };
        proof {
            let nn = self.spec_slot_count();
            let t = self.spec_ticks();
            let c = self.spec_current();
            let q = t / nn;
            vstd::arithmetic::div_mod::lemma_fundamental_div_mod(t, nn);
            vstd::arithmetic::mul::lemma_mul_is_commutative(nn, q);
            if c + 1 == nn {
                vstd::arithmetic::mul::lemma_mul_is_distributive_add_other_way(nn, q, 1);
                vstd::arithmetic::mul::lemma_mul_basics(nn);
                vstd::arithmetic::div_mod::lemma_fundamental_div_mod_converse(t + 1, nn, q + 1, 0);
                vstd::arithmetic::div_mod::lemma_mod_self_0(nn);
            } else {
                vstd::arithmetic::div_mod::lemma_fundamental_div_mod_converse(t + 1, nn, q, c + 1);
                vstd::arithmetic::div_mod::lemma_small_mod((c + 1) as nat, nn as nat);
            }
        }
        self.current = next;
        self.ticks = self.ticks + 1;
        proof {
            assert forall|s: int| 0 <= s < self.spec_slot_count() implies #[trigger] self.slot_ok(
                s,
            ) by {
                assert(self.spec_state(s) == old(self).spec_state(s));
                assert(old(self).slot_ok(s));
            }
            assert forall|s: int|
                0 <= s < self.spec_slot_count() && s != self.spec_current() implies (
            #[trigger] self.spec_state(s)) is Idle || self.spec_state(s) is Submitted by {
                assert(self.spec_state(s) == old(self).spec_state(s));
                if s != old(self).spec_current() {
                    assert(old(self).spec_state(s) is Idle || old(self).spec_state(s)
                        is Submitted);
                }
            }
        }
    }
}

/// Mutual-exclusion law: a slot's buffers are writable only in `Recording`,
/// and a well-formed synchronizer shows a slot as `Recording` only when its
/// fence has been waited on and reset once for every acquisition of the slot
/// -- in particular once for the acquisition that opened the current use, so
/// no CPU write to the slot's buffers begins before the fence wait retired
/// the GPU's previous pass over them.
pub proof fn lemma_recording_means_fence_retired(fs: FrameSync, s: int)
    requires
        fs.wf(),
        0 <= s < fs.spec_slot_count(),
        fs.spec_state(s) is Recording,
    ensures
        fs.spec_fence_waits(s) == fs.spec_uses(s),
        fs.spec_uses(s) >= 1,
        s == fs.spec_current(),
{
    assert(fs.slot_ok(s));
}

} // verus!
