//! Caller-owned fixed arena for configuration-time allocation.
//!
//! The arena borrows caller storage of `usize` words, so its base is
//! aligned for the common protocol types. It decides where each
//! allocation goes: a bump cursor advanced past an aligned, bounds-checked
//! byte range. Allocation is only valid before activation; callers freeze
//! the arena once all runtime plans and state have been built.
use vstd::prelude::*;
use core::mem::MaybeUninit;

verus! {

#[derive(Clone, Copy, Debug, PartialEq, Eq, Structural)]
pub enum ArenaError {
    AlignmentTooLarge,
    SizeOverflow,
    OutOfMemory,
    Frozen,
}

/// A byte range of the arena storage holding `count` values.
#[derive(Clone, Copy, Debug, PartialEq, Eq, Structural)]
pub struct ArenaSpan {
    pub offset: usize,
    pub bytes: usize,
    pub count: usize,
}

/// `value` rounded up to a multiple of the power of two `alignment`, when
/// that fits in `usize`.
pub open spec fn spec_align_up(value: usize, alignment: usize) -> Option<usize> {
    if alignment == 0 || value + (alignment - 1) > usize::MAX {
        None
    } else {
        Some(((value + (alignment - 1)) as usize & !((alignment - 1) as usize)) as usize)
    }
}

/// The outcome of allocating `count` values of a type with the given size
/// and alignment, from `cursor` in an arena of `capacity` bytes.
pub open spec fn spec_alloc(
    frozen: bool,
    cursor: usize,
    capacity: usize,
    size: usize,
    align: usize,
    word_align: usize,
    count: usize,
) -> Result<ArenaSpan, ArenaError> {
    if frozen {
        Err(ArenaError::Frozen)
    } else if align > word_align {
        Err(ArenaError::AlignmentTooLarge)
    } else {
        let alignment = if align > 1 { align } else { 1 };
        match spec_align_up(cursor, alignment) {
            None => Err(ArenaError::SizeOverflow),
            Some(start) => if size * count > usize::MAX {
                Err(ArenaError::SizeOverflow)
            } else if start + size * count > usize::MAX {
                Err(ArenaError::SizeOverflow)
            } else if start + size * count > capacity {
                Err(ArenaError::OutOfMemory)
            } else {
                Ok(ArenaSpan { offset: start, bytes: (size * count) as usize, count })
            },
        }
    }
}

fn align_up(value: usize, alignment: usize) -> (result: Option<usize>)
    ensures
        result == spec_align_up(value, alignment),
{
    let mask = match alignment.checked_sub(1) {
        Some(mask) => mask,
        None => return None,
    };
    match value.checked_add(mask) {
        Some(next) => Some(next & !mask),
        None => None,
    }
}

/// Rounding up to a power of two gives the first address at or above the
/// value whose low bits below the alignment are clear.
pub proof fn lemma_align_up(value: usize, alignment: usize)
    requires
        alignment > 0,
        alignment & ((alignment - 1) as usize) == 0,
        value + (alignment - 1) <= usize::MAX,
    ensures
        spec_align_up(value, alignment) matches Some(start) && value <= start < value + alignment
            && start & ((alignment - 1) as usize) == 0,
{
    let m = (alignment - 1) as usize;
    let next = (value + m) as usize;
    assert(next & !m <= next) by (bit_vector);
    assert(next - (next & !m) == next & m) by (bit_vector);
    assert((next & m) <= m) by (bit_vector)
        requires
            m == (alignment - 1) as usize;
    assert(((next & !m) & m) == 0) by (bit_vector);
}

/// A bounded bump arena with an explicit activation freeze boundary.
pub struct Arena<'a> {
    storage: &'a mut [MaybeUninit<usize>],
    cursor: usize,
    frozen: bool,
}

impl<'a> Arena<'a> {
    pub closed spec fn spec_capacity(&self) -> usize {
        (self.storage@.len() * vstd::layout::size_of::<usize>()) as usize
    }

    pub closed spec fn spec_cursor(&self) -> usize {
        self.cursor
    }

    pub closed spec fn spec_frozen(&self) -> bool {
        self.frozen
    }

    pub closed spec fn wf(&self) -> bool {
        self.storage@.len() * vstd::layout::size_of::<usize>() <= usize::MAX
    }

    /// An arena over `storage`, whose byte size fits in `usize` as that of
    /// any slice in memory does.
    pub fn new(storage: &'a mut [MaybeUninit<usize>]) -> (arena: Self)
        requires
            old(storage)@.len() * vstd::layout::size_of::<usize>() <= usize::MAX,
        ensures
            arena.wf(),
            arena.spec_capacity() == old(storage)@.len() * vstd::layout::size_of::<usize>(),
            arena.spec_cursor() == 0,
            !arena.spec_frozen(),
    {
        Arena { storage, cursor: 0, frozen: false }
    }

    pub fn capacity_bytes(&self) -> (capacity: usize)
        requires
            self.wf(),
        ensures
            capacity == self.spec_capacity(),
    {
        self.storage.len() * core::mem::size_of::<usize>()
    }

    pub fn used_bytes(&self) -> (used: usize)
        ensures
            used == self.spec_cursor(),
    {
        self.cursor
    }

    pub fn remaining_bytes(&self) -> (remaining: usize)
        requires
            self.wf(),
        ensures
            remaining == if self.spec_cursor() <= self.spec_capacity() {
                self.spec_capacity() - self.spec_cursor()
            } else {
                0
            },
    {
        self.capacity_bytes().saturating_sub(self.cursor)
    }

    pub fn is_frozen(&self) -> (frozen: bool)
        ensures
            frozen == self.spec_frozen(),
    {
        self.frozen
    }

    /// Freeze the arena after activation; further allocations fail closed.
    pub fn freeze(&mut self)
        ensures
            final(self).spec_frozen(),
            final(self).spec_cursor() == old(self).spec_cursor(),
            final(self).spec_capacity() == old(self).spec_capacity(),
            old(self).wf() ==> final(self).wf(),
    {
        self.frozen = true;
    }

    /// Start a new configuration epoch: empty and unfrozen.
    pub fn reset(&mut self)
        ensures
            !final(self).spec_frozen(),
            final(self).spec_cursor() == 0,
            final(self).spec_capacity() == old(self).spec_capacity(),
            old(self).wf() ==> final(self).wf(),
    {
        self.cursor = 0;
        self.frozen = false;
    }

    /// Place one value of type `T`.
    pub fn alloc_one<T>(&mut self) -> (result: Result<ArenaSpan, ArenaError>)
        requires
            old(self).wf(),
        ensures
            final(self).wf(),
            result == spec_alloc(old(self).spec_frozen(), old(self).spec_cursor(), old(self).spec_capacity(),
                vstd::layout::size_of::<T>() as usize, vstd::layout::align_of::<T>() as usize,
                vstd::layout::align_of::<usize>() as usize, 1),
            final(self).spec_cursor() == match result {
                Ok(span) => (span.offset + span.bytes) as usize,
                Err(_) => old(self).spec_cursor(),
            },
            final(self).spec_frozen() == old(self).spec_frozen(),
            final(self).spec_capacity() == old(self).spec_capacity(),
    {
        self.alloc_slice::<T>(1)
    }

    /// Place `count` consecutive values of type `T`: the range starts at the
    /// cursor rounded up to the type's alignment and must end within the
    /// storage; the cursor then moves to its end.
    pub fn alloc_slice<T>(&mut self, count: usize) -> (result: Result<ArenaSpan, ArenaError>)
        requires
            old(self).wf(),
        ensures
            final(self).wf(),
            result == spec_alloc(old(self).spec_frozen(), old(self).spec_cursor(), old(self).spec_capacity(),
                vstd::layout::size_of::<T>() as usize, vstd::layout::align_of::<T>() as usize,
                vstd::layout::align_of::<usize>() as usize, count),
            final(self).spec_cursor() == match result {
                Ok(span) => (span.offset + span.bytes) as usize,
                Err(_) => old(self).spec_cursor(),
            },
            final(self).spec_frozen() == old(self).spec_frozen(),
            final(self).spec_capacity() == old(self).spec_capacity(),
    {
        vstd::layout::layout_for_type_is_valid::<T>();
        vstd::layout::layout_for_type_is_valid::<usize>();
        if self.frozen {
            return Err(ArenaError::Frozen);
        }
        if core::mem::align_of::<T>() > core::mem::align_of::<usize>() {
            return Err(ArenaError::AlignmentTooLarge);
        }
        let align = core::mem::align_of::<T>();
        let alignment = if align > 1 { align } else { 1 };
        let start = match align_up(self.cursor, alignment) {
            Some(start) => start,
            None => return Err(ArenaError::SizeOverflow),
        };
        let bytes = match core::mem::size_of::<T>().checked_mul(count) {
            Some(bytes) => bytes,
            None => return Err(ArenaError::SizeOverflow),
        };
        let end = match start.checked_add(bytes) {
            Some(end) => end,
            None => return Err(ArenaError::SizeOverflow),
        };
        if end > self.capacity_bytes() {
            return Err(ArenaError::OutOfMemory);
        }
        self.cursor = end;
        Ok(ArenaSpan { offset: start, bytes, count })
    }
}

} // verus!
