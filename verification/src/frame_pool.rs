//! Fixed pool of frame buffers, handed out lowest-free-slot first.
use vstd::prelude::*;

verus! {

#[derive(Clone, Copy, Debug, PartialEq, Eq, Structural)]
pub struct FrameHandle(u8);

impl FrameHandle {
    pub closed spec fn spec_index(self) -> usize {
        self.0 as usize
    }

    #[verifier::when_used_as_spec(spec_index)]
    pub fn index(self) -> (index: usize)
        ensures
            index == self.spec_index(),
    {
        self.0 as usize
    }
}

#[derive(Clone, Debug)]
pub struct FrameSlot<const MTU: usize> {
    pub bytes: Vec<u8>,
    pub len: usize,
    pub sequence: u64,
    pub generation: u16,
    pub deadline_ns: u64,
}

impl<const MTU: usize> FrameSlot<MTU> {
    pub fn new() -> (slot: Self)
        ensures
            slot.bytes@.len() == MTU,
            forall|i: int| 0 <= i < MTU ==> slot.bytes@[i] == 0,
            slot.len == 0,
            slot.sequence == 0,
            slot.generation == 0,
            slot.deadline_ns == 0,
    {
        FrameSlot { bytes: vec![0u8; MTU], len: 0, sequence: 0, generation: 0, deadline_ns: 0 }
    }

    /// Clear the slot's frame length and metadata; the bytes are kept.
    pub fn reset(&mut self)
        ensures
            final(self).bytes == old(self).bytes,
            final(self).len == 0,
            final(self).sequence == 0,
            final(self).generation == 0,
            final(self).deadline_ns == 0,
    {
        self.len = 0;
        self.sequence = 0;
        self.generation = 0;
        self.deadline_ns = 0;
    }
}

#[derive(Clone, Copy, Debug, PartialEq, Eq, Structural)]
pub enum FramePoolError {
    TooManySlots,
    InvalidHandle,
    SlotBusy,
}

/// The number of `true` flags among the first `n`.
pub open spec fn count_used(used: Seq<bool>, n: int) -> nat
    decreases n,
{
    if n <= 0 {
        0
    } else {
        count_used(used, n - 1) + if used[n - 1] {
            1nat
        } else {
            0nat
        }
    }
}

/// The pool after an acquire: a pool of zero or more than 64 slots refuses
/// with `TooManySlots`, a full pool with `SlotBusy`; otherwise the lowest
/// free slot is taken and stamped with the frame metadata.
pub open spec fn acquire_outcome<const SLOTS: usize, const MTU: usize>(
    before: FramePool<SLOTS, MTU>,
    after: FramePool<SLOTS, MTU>,
    sequence: u64,
    generation: u16,
    deadline_ns: u64,
    result: Result<FrameHandle, FramePoolError>,
) -> bool {
    &&& (SLOTS == 0 || SLOTS > 64 ==> result == Err::<FrameHandle, FramePoolError>(FramePoolError::TooManySlots))
    &&& (0 < SLOTS <= 64 && (forall|i: int| 0 <= i < SLOTS ==> before.view_used()[i])
        ==> result == Err::<FrameHandle, FramePoolError>(FramePoolError::SlotBusy))
    &&& (result is Err ==> after.view_used() == before.view_used() && after.view_slots() == before.view_slots())
    &&& (result matches Ok(handle) ==> {
        let i = handle.spec_index() as int;
        &&& 0 <= i < SLOTS <= 64
        &&& !before.view_used()[i]
        &&& forall|k: int| 0 <= k < i ==> before.view_used()[k]
        &&& after.view_used() == before.view_used().update(i, true)
        &&& after.view_slots()[i].bytes == before.view_slots()[i].bytes
        &&& after.view_slots()[i].len == 0
        &&& after.view_slots()[i].sequence == sequence
        &&& after.view_slots()[i].generation == generation
        &&& after.view_slots()[i].deadline_ns == deadline_ns
        &&& forall|k: int| 0 <= k < SLOTS && k != i ==> after.view_slots()[k] == before.view_slots()[k]
    })
}

/// The pool after a release: a handle of a used slot frees it and clears
/// its metadata, keeping its bytes; any other handle is refused.
pub open spec fn release_outcome<const SLOTS: usize, const MTU: usize>(
    before: FramePool<SLOTS, MTU>,
    after: FramePool<SLOTS, MTU>,
    handle: FrameHandle,
    result: Result<(), FramePoolError>,
) -> bool {
    let i = handle.spec_index() as int;
    if i < SLOTS && i < 64 && before.view_used()[i] {
        &&& result is Ok
        &&& after.view_used() == before.view_used().update(i, false)
        &&& after.view_slots()[i].bytes == before.view_slots()[i].bytes
        &&& after.view_slots()[i].len == 0
        &&& after.view_slots()[i].sequence == 0
        &&& after.view_slots()[i].generation == 0
        &&& after.view_slots()[i].deadline_ns == 0
        &&& forall|k: int| 0 <= k < SLOTS && k != i ==> after.view_slots()[k] == before.view_slots()[k]
    } else {
        &&& result == Err::<(), FramePoolError>(FramePoolError::InvalidHandle)
        &&& after.view_used() == before.view_used()
        &&& after.view_slots() == before.view_slots()
    }
}

pub struct FramePool<const SLOTS: usize, const MTU: usize> {
    slots: Vec<FrameSlot<MTU>>,
    used: Vec<bool>,
}

impl<const SLOTS: usize, const MTU: usize> FramePool<SLOTS, MTU> {
    pub closed spec fn view_used(&self) -> Seq<bool> {
        self.used@
    }

    pub closed spec fn view_slots(&self) -> Seq<FrameSlot<MTU>> {
        self.slots@
    }

    pub closed spec fn wf(&self) -> bool {
        &&& self.slots@.len() == SLOTS
        &&& self.used@.len() == SLOTS
        &&& forall|i: int| 0 <= i < SLOTS ==> (#[trigger] self.slots@[i]).bytes@.len() == MTU
    }

    pub fn new() -> (pool: Self)
        ensures
            pool.wf(),
            forall|i: int| 0 <= i < SLOTS ==> !(#[trigger] pool.view_used()[i]),
            forall|i: int|
                0 <= i < SLOTS ==> (#[trigger] pool.view_slots()[i]).len == 0
                    && pool.view_slots()[i].sequence == 0 && pool.view_slots()[i].generation == 0
                    && pool.view_slots()[i].deadline_ns == 0,
    {
        let mut slots: Vec<FrameSlot<MTU>> = Vec::new();
        let mut used: Vec<bool> = Vec::new();
        let mut i: usize = 0;
        while i < SLOTS
            invariant
                i <= SLOTS,
                slots@.len() == i,
                used@.len() == i,
                forall|k: int| 0 <= k < i ==> !(#[trigger] used@[k]),
                forall|k: int|
                    0 <= k < i ==> (#[trigger] slots@[k]).bytes@.len() == MTU && slots@[k].len == 0
                        && slots@[k].sequence == 0 && slots@[k].generation == 0
                        && slots@[k].deadline_ns == 0,
            decreases SLOTS - i,
        {
            slots.push(FrameSlot::new());
            used.push(false);
            i = i + 1;
        }
        FramePool { slots, used }
    }

    /// Take the lowest free slot and stamp it with the frame metadata.
    pub fn acquire(&mut self, sequence: u64, generation: u16, deadline_ns: u64) -> (result: Result<
        FrameHandle,
        FramePoolError,
    >)
        requires
            old(self).wf(),
        ensures
            final(self).wf(),
            acquire_outcome(*old(self), *final(self), sequence, generation, deadline_ns, result),
    {
        if SLOTS == 0 || SLOTS > 64 {
            return Err(FramePoolError::TooManySlots);
        }
        let mut index: usize = 0;
        while index < SLOTS && self.used[index]
            invariant
                self.wf(),
                self.used@ == old(self).used@,
                self.slots@ == old(self).slots@,
                index <= SLOTS <= 64,
                forall|k: int| 0 <= k < index ==> self.used@[k],
            decreases SLOTS - index,
        {
            index = index + 1;
        }
        if index == SLOTS {
            return Err(FramePoolError::SlotBusy);
        }
        assert(!old(self).view_used()[index as int]);
        self.used.set(index, true);
        let ghost old_slots = self.slots@;
        let mut slot = self.slots.remove(index);
        slot.len = 0;
        slot.sequence = sequence;
        slot.generation = generation;
        slot.deadline_ns = deadline_ns;
        self.slots.insert(index, slot);
        assert forall|k: int| 0 <= k < SLOTS && k != index implies self.slots@[k] == old_slots[k] by {
            if k < index {
                assert(self.slots@[k] == old_slots[k]);
            } else {
                assert(self.slots@[k] == old_slots[k]);
            }
        }
        Ok(FrameHandle(index as u8))
    }

    /// Return a slot to the pool and clear its metadata.
    pub fn release(&mut self, handle: FrameHandle) -> (result: Result<(), FramePoolError>)
        requires
            old(self).wf(),
        ensures
            final(self).wf(),
            release_outcome(*old(self), *final(self), handle, result),
    {
        let index = handle.index();
        if index >= SLOTS || index >= 64 {
            return Err(FramePoolError::InvalidHandle);
        }
        if !self.used[index] {
            return Err(FramePoolError::InvalidHandle);
        }
        self.used.set(index, false);
        let ghost old_slots = self.slots@;
        let mut slot = self.slots.remove(index);
        slot.reset();
        self.slots.insert(index, slot);
        assert forall|k: int| 0 <= k < SLOTS && k != index implies self.slots@[k] == old_slots[k] by {
            if k < index {
                assert(self.slots@[k] == old_slots[k]);
            } else {
                assert(self.slots@[k] == old_slots[k]);
            }
        }
        Ok(())
    }

    /// The slot behind a handle, used or not.
    pub fn slot(&self, handle: FrameHandle) -> (slot: Option<&FrameSlot<MTU>>)
        requires
            self.wf(),
        ensures
            handle.spec_index() < SLOTS ==> slot == Some(&self.view_slots()[handle.spec_index() as int]),
            handle.spec_index() >= SLOTS ==> slot is None,
    {
        let index = handle.index();
        if index < SLOTS {
            Some(&self.slots[index])
        } else {
            None
        }
    }

    /// The shape a well-formed pool has: one use flag and one slot of `MTU`
    /// bytes per slot.
    pub proof fn lemma_wf_shape(&self)
        requires
            self.wf(),
        ensures
            self.view_used().len() == SLOTS,
            self.view_slots().len() == SLOTS,
            forall|i: int| 0 <= i < SLOTS ==> (#[trigger] self.view_slots()[i]).bytes@.len() == MTU,
    {
    }

    /// Mutable access to the slot of a handle in use. The pool stays well
    /// formed as long as the slot keeps `MTU` bytes.
    pub fn slot_mut(&mut self, handle: FrameHandle) -> (slot: Option<&mut FrameSlot<MTU>>)
        requires
            old(self).wf(),
            handle.spec_index() < SLOTS ==> handle.spec_index() < 64,
        ensures
            final(self).view_used() == old(self).view_used(),
            !(handle.spec_index() < SLOTS && old(self).view_used()[handle.spec_index() as int]) ==> slot is None
                && final(self).view_slots() == old(self).view_slots() && final(self).wf(),
            handle.spec_index() < SLOTS && old(self).view_used()[handle.spec_index() as int] ==> (slot matches Some(s)
                && *s == old(self).view_slots()[handle.spec_index() as int]
                && final(self).view_slots() == old(self).view_slots().update(handle.spec_index() as int, *final(s))
                && (final(s).bytes@.len() == MTU ==> final(self).wf())),
    {
        let index = handle.index();
        if index < SLOTS && self.used[index] {
            Some(&mut self.slots[index])
        } else {
            None
        }
    }

    /// Whether the handle names a slot currently in use.
    pub fn is_in_use(&self, handle: FrameHandle) -> (in_use: bool)
        requires
            self.wf(),
        ensures
            in_use == (handle.spec_index() < SLOTS && self.view_used()[handle.spec_index() as int]),
    {
        let index = handle.index();
        index < SLOTS && self.used[index]
    }

    /// Record the encoded frame bytes and length of a slot in use.
    pub fn set_frame(&mut self, handle: FrameHandle, bytes: Vec<u8>, len: usize) -> (result: Result<(), FramePoolError>)
        requires
            old(self).wf(),
        ensures
            final(self).wf(),
            ({
                let i = handle.spec_index() as int;
                if i < SLOTS && old(self).view_used()[i] && bytes@.len() == MTU && len <= MTU {
                    &&& result is Ok
                    &&& final(self).view_used() == old(self).view_used()
                    &&& final(self).view_slots()[i].bytes@ == bytes@
                    &&& final(self).view_slots()[i].len == len
                    &&& final(self).view_slots()[i].sequence == old(self).view_slots()[i].sequence
                    &&& final(self).view_slots()[i].generation == old(self).view_slots()[i].generation
                    &&& final(self).view_slots()[i].deadline_ns == old(self).view_slots()[i].deadline_ns
                    &&& forall|k: int|
                        0 <= k < SLOTS && k != i ==> final(self).view_slots()[k] == old(
                            self,
                        ).view_slots()[k]
                } else {
                    &&& result == Err::<(), FramePoolError>(FramePoolError::InvalidHandle)
                    &&& final(self).view_used() == old(self).view_used()
                    &&& final(self).view_slots() == old(self).view_slots()
                }
            }),
    {
        let index = handle.index();
        if index >= SLOTS || !self.used[index] || bytes.len() != MTU || len > MTU {
            return Err(FramePoolError::InvalidHandle);
        }
        let ghost old_slots = self.slots@;
        let mut slot = self.slots.remove(index);
        slot.bytes = bytes;
        slot.len = len;
        self.slots.insert(index, slot);
        assert forall|k: int| 0 <= k < SLOTS && k != index implies self.slots@[k] == old_slots[k] by {
            if k < index {
                assert(self.slots@[k] == old_slots[k]);
            } else {
                assert(self.slots@[k] == old_slots[k]);
            }
        }
        Ok(())
    }

    /// Number of slots in use.
    pub fn in_use(&self) -> (count: usize)
        requires
            self.wf(),
        ensures
            count == count_used(self.view_used(), SLOTS as int),
    {
        let mut count: usize = 0;
        let mut i: usize = 0;
        while i < SLOTS
            invariant
                self.wf(),
                i <= SLOTS,
                count == count_used(self.view_used(), i as int),
                count <= i,
            decreases SLOTS - i,
        {
            if self.used[i] {
                count = count + 1;
            }
            i = i + 1;
        }
        count
    }
}

/// Releasing a slot undoes acquiring it: the in-use set is back where it was.
pub proof fn lemma_acquire_release_restores_used(used: Seq<bool>, i: int)
    requires
        0 <= i < used.len(),
        !used[i],
    ensures
        used.update(i, true).update(i, false) == used,
{
    assert(used.update(i, true).update(i, false) =~= used);
}

} // verus!
