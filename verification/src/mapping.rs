//! Static SyncManager/FMMU configuration for the activation phase.
//!
//! The table validates all address ranges and emits the exact ESC register
//! images before a master is activated; the real-time path only uses the
//! resulting frozen layout.
use vstd::prelude::*;
use crate::bytes::{le16, le16_bytes, le32, le32_bytes, splice, write_bytes};

verus! {

pub const ESC_FMMU_BASE: u16 = 0x0600;
pub const ESC_FMMU_STRIDE: u16 = 16;
pub const ESC_SYNC_MANAGER_BASE: u16 = 0x0800;
pub const ESC_SYNC_MANAGER_STRIDE: u16 = 8;

pub const SYNC_MANAGER_IMAGE_LEN: usize = 8;
pub const FMMU_IMAGE_LEN: usize = 16;

#[derive(Clone, Copy, Debug, PartialEq, Eq, Structural)]
pub struct SyncManagerConfig {
    pub index: u8,
    pub physical_start: u16,
    pub length: u16,
    pub control: u8,
    pub status: u8,
    pub enable: bool,
}

#[derive(Clone, Copy, Debug, PartialEq, Eq, Structural)]
pub struct FmmuConfig {
    pub index: u8,
    pub logical_start: u32,
    pub length: u16,
    pub logical_start_bit: u8,
    pub logical_end_bit: u8,
    pub physical_start: u16,
    pub physical_start_bit: u8,
    pub fmmu_type: u8,
    pub enable: bool,
}

#[derive(Clone, Copy, Debug, PartialEq, Eq, Structural)]
pub struct MappingSummary {
    pub sync_manager_count: usize,
    pub fmmu_count: usize,
    pub logical_end: u32,
}

#[derive(Clone, Copy, Debug, PartialEq, Eq, Structural)]
pub enum MappingError {
    CapacityExceeded,
    DuplicateSyncManager,
    DuplicateFmmu,
    EmptySyncManager,
    EmptyFmmu,
    InvalidBitRange,
    PhysicalRangeOverflow,
    LogicalRangeOverflow,
    SyncManagerOverlap,
    LogicalOverlap,
    BufferTooSmall,
    UnknownSyncManager,
    UnknownFmmu,
}

pub open spec fn bool_byte(value: bool) -> u8 {
    if value {
        1
    } else {
        0
    }
}

/// The 8-byte SyncManager register image.
pub open spec fn sync_manager_image(config: SyncManagerConfig) -> Seq<u8> {
    le16(config.physical_start as int) + le16(config.length as int) + seq![
        config.control,
        config.status,
        bool_byte(config.enable),
        0u8,
    ]
}

/// The 16-byte FMMU register image.
pub open spec fn fmmu_image(config: FmmuConfig) -> Seq<u8> {
    le32(config.logical_start as int) + le16(config.length as int) + seq![
        config.logical_start_bit,
        config.logical_end_bit,
    ] + le16(config.physical_start as int) + seq![
        config.physical_start_bit,
        config.fmmu_type,
        bool_byte(config.enable),
        0u8,
        0u8,
        0u8,
    ]
}

/// The logical bit range `[start, end)` an FMMU maps, or why it is invalid.
pub open spec fn spec_logical_bit_range(config: FmmuConfig) -> Result<(int, int), MappingError> {
    if config.length == 0 {
        Err(MappingError::EmptyFmmu)
    } else if config.logical_start_bit > 7 || config.logical_end_bit > 7
        || config.physical_start_bit > 7 {
        Err(MappingError::InvalidBitRange)
    } else if config.logical_start + config.length - 1 > u32::MAX {
        Err(MappingError::LogicalRangeOverflow)
    } else {
        let start = config.logical_start * 8 + config.logical_start_bit;
        let end = (config.logical_start + config.length - 1) * 8 + config.logical_end_bit + 1;
        if end <= start {
            Err(MappingError::InvalidBitRange)
        } else {
            let physical_bytes = (config.physical_start_bit + (end - start) + 7) / 8;
            if config.physical_start + physical_bytes > 0x10000 {
                Err(MappingError::PhysicalRangeOverflow)
            } else {
                Ok((start, end))
            }
        }
    }
}

impl SyncManagerConfig {
    /// Write the 8-byte register image to the front of `dst`.
    pub fn encode(&self, dst: &mut [u8]) -> (result: Result<(), MappingError>)
        ensures
            old(dst)@.len() < SYNC_MANAGER_IMAGE_LEN ==> result == Err::<(), MappingError>(
                MappingError::BufferTooSmall,
            ) && final(dst)@ == old(dst)@,
            old(dst)@.len() >= SYNC_MANAGER_IMAGE_LEN ==> result is Ok && final(dst)@ == splice(
                old(dst)@,
                0,
                sync_manager_image(*self),
            ),
    {
        if dst.len() < SYNC_MANAGER_IMAGE_LEN {
            return Err(MappingError::BufferTooSmall);
        }
        let start = le16_bytes(self.physical_start);
        let length = le16_bytes(self.length);
        let image: [u8; 8] = [
            start[0],
            start[1],
            length[0],
            length[1],
            self.control,
            self.status,
            if self.enable {
                1
            } else {
                0
            },
            0,
        ];
        assert(image@ =~= sync_manager_image(*self));
        write_bytes(dst, 0, image.as_slice());
        Ok(())
    }

    pub fn register_address(&self) -> (address: u16)
        ensures
            address == ESC_SYNC_MANAGER_BASE + self.index * ESC_SYNC_MANAGER_STRIDE,
    {
        ESC_SYNC_MANAGER_BASE + self.index as u16 * ESC_SYNC_MANAGER_STRIDE
    }
}

impl FmmuConfig {
    /// Write the 16-byte register image to the front of `dst`.
    pub fn encode(&self, dst: &mut [u8]) -> (result: Result<(), MappingError>)
        ensures
            old(dst)@.len() < FMMU_IMAGE_LEN ==> result == Err::<(), MappingError>(
                MappingError::BufferTooSmall,
            ) && final(dst)@ == old(dst)@,
            old(dst)@.len() >= FMMU_IMAGE_LEN ==> result is Ok && final(dst)@ == splice(
                old(dst)@,
                0,
                fmmu_image(*self),
            ),
    {
        if dst.len() < FMMU_IMAGE_LEN {
            return Err(MappingError::BufferTooSmall);
        }
        let logical = le32_bytes(self.logical_start);
        let length = le16_bytes(self.length);
        let physical = le16_bytes(self.physical_start);
        let image: [u8; 16] = [
            logical[0],
            logical[1],
            logical[2],
            logical[3],
            length[0],
            length[1],
            self.logical_start_bit,
            self.logical_end_bit,
            physical[0],
            physical[1],
            self.physical_start_bit,
            self.fmmu_type,
            if self.enable {
                1
            } else {
                0
            },
            0,
            0,
            0,
        ];
        assert(image@ =~= fmmu_image(*self));
        write_bytes(dst, 0, image.as_slice());
        Ok(())
    }

    pub fn register_address(&self) -> (address: u16)
        ensures
            address == ESC_FMMU_BASE + self.index * ESC_FMMU_STRIDE,
    {
        ESC_FMMU_BASE + self.index as u16 * ESC_FMMU_STRIDE
    }

    /// The logical bit range `[start, end)` this FMMU maps.
    pub fn logical_bit_range(&self) -> (result: Result<(u64, u64), MappingError>)
        ensures
            match spec_logical_bit_range(*self) {
                Ok((start, end)) => result == Ok::<(u64, u64), MappingError>(
                    (start as u64, end as u64),
                ),
                Err(e) => result == Err::<(u64, u64), MappingError>(e),
            },
    {
        if self.length == 0 {
            return Err(MappingError::EmptyFmmu);
        }
        if self.logical_start_bit > 7 || self.logical_end_bit > 7 || self.physical_start_bit > 7 {
            return Err(MappingError::InvalidBitRange);
        }
        let logical_byte_end = match self.logical_start.checked_add(self.length as u32 - 1) {
            Some(end) => end,
            None => return Err(MappingError::LogicalRangeOverflow),
        };
        let start = self.logical_start as u64 * 8 + self.logical_start_bit as u64;
        let end = logical_byte_end as u64 * 8 + self.logical_end_bit as u64 + 1;
        if end <= start {
            return Err(MappingError::InvalidBitRange);
        }
        let mapped_bits = end - start;
        let physical_bytes = (self.physical_start_bit as u64 + mapped_bits + 7) / 8;
        if self.physical_start as u64 + physical_bytes > 0x10000 {
            return Err(MappingError::PhysicalRangeOverflow);
        }
        Ok((start, end))
    }
}

/// Physical byte ranges of two SyncManagers intersect.
pub open spec fn sync_managers_overlap(left: SyncManagerConfig, right: SyncManagerConfig) -> bool {
    left.physical_start < right.physical_start + right.length && right.physical_start
        < left.physical_start + left.length
}

/// Logical bit ranges of two (valid) FMMUs intersect.
pub open spec fn fmmus_overlap(left: FmmuConfig, right: FmmuConfig) -> bool {
    match (spec_logical_bit_range(left), spec_logical_bit_range(right)) {
        (Ok((ls, le)), Ok((rs, re))) => ls < re && rs < le,
        _ => true,
    }
}

pub open spec fn spec_add_sync_manager_error(
    existing: Seq<SyncManagerConfig>,
    capacity: int,
    config: SyncManagerConfig,
) -> Option<MappingError> {
    if capacity == 0 || existing.len() >= capacity {
        Some(MappingError::CapacityExceeded)
    } else if config.length == 0 {
        Some(MappingError::EmptySyncManager)
    } else if exists|i: int| 0 <= i < existing.len() && (#[trigger] existing[i]).index == config.index {
        Some(MappingError::DuplicateSyncManager)
    } else if config.physical_start + config.length > 0x10000 {
        Some(MappingError::PhysicalRangeOverflow)
    } else if exists|i: int| 0 <= i < existing.len() && sync_managers_overlap(#[trigger] existing[i], config) {
        Some(MappingError::SyncManagerOverlap)
    } else {
        None
    }
}

pub open spec fn spec_add_fmmu_error(existing: Seq<FmmuConfig>, capacity: int, config: FmmuConfig) -> Option<MappingError> {
    if capacity == 0 || existing.len() >= capacity {
        Some(MappingError::CapacityExceeded)
    } else if exists|i: int| 0 <= i < existing.len() && (#[trigger] existing[i]).index == config.index {
        Some(MappingError::DuplicateFmmu)
    } else if spec_logical_bit_range(config) is Err {
        Some(spec_logical_bit_range(config)->Err_0)
    } else if exists|i: int| 0 <= i < existing.len() && fmmus_overlap(#[trigger] existing[i], config) {
        Some(MappingError::LogicalOverlap)
    } else {
        None
    }
}

/// The largest saturated `logical_start + length` over the first `n` FMMUs.
pub open spec fn spec_logical_end(fmmus: Seq<FmmuConfig>, n: int) -> int
    decreases n,
{
    if n <= 0 {
        0
    } else {
        let prior = spec_logical_end(fmmus, n - 1);
        let end = if fmmus[n - 1].logical_start + fmmus[n - 1].length > u32::MAX {
            u32::MAX as int
        } else {
            fmmus[n - 1].logical_start + fmmus[n - 1].length
        };
        if end > prior {
            end
        } else {
            prior
        }
    }
}

#[derive(Clone, Debug, PartialEq, Eq)]
pub struct MappingTable<const SMS: usize, const FMMUS: usize> {
    sync_managers: Vec<SyncManagerConfig>,
    fmmus: Vec<FmmuConfig>,
}

impl<const SMS: usize, const FMMUS: usize> MappingTable<SMS, FMMUS> {
    pub closed spec fn spec_sync_managers(&self) -> Seq<SyncManagerConfig> {
        self.sync_managers@
    }

    pub closed spec fn spec_fmmus(&self) -> Seq<FmmuConfig> {
        self.fmmus@
    }

    pub fn new() -> (table: Self)
        ensures
            table.spec_sync_managers() == Seq::<SyncManagerConfig>::empty(),
            table.spec_fmmus() == Seq::<FmmuConfig>::empty(),
    {
        MappingTable { sync_managers: Vec::new(), fmmus: Vec::new() }
    }

    pub fn sync_manager_count(&self) -> (count: usize)
        ensures
            count == self.spec_sync_managers().len(),
    {
        self.sync_managers.len()
    }

    pub fn fmmu_count(&self) -> (count: usize)
        ensures
            count == self.spec_fmmus().len(),
    {
        self.fmmus.len()
    }

    pub fn sync_managers(&self) -> (configs: &[SyncManagerConfig])
        ensures
            configs@ == self.spec_sync_managers(),
    {
        self.sync_managers.as_slice()
    }

    pub fn fmmus(&self) -> (configs: &[FmmuConfig])
        ensures
            configs@ == self.spec_fmmus(),
    {
        self.fmmus.as_slice()
    }

    #[verifier::loop_isolation(false)]
    pub fn add_sync_manager(&mut self, config: SyncManagerConfig) -> (result: Result<(), MappingError>)
        ensures
            final(self).spec_fmmus() == old(self).spec_fmmus(),
            (forall|i: int| 0 <= i < old(self).spec_sync_managers().len()
                ==> (#[trigger] old(self).spec_sync_managers()[i]).length > 0) ==> forall|i: int|
                0 <= i < final(self).spec_sync_managers().len()
                    ==> (#[trigger] final(self).spec_sync_managers()[i]).length > 0,
            match spec_add_sync_manager_error(old(self).spec_sync_managers(), SMS as int, config) {
                Some(e) => result == Err::<(), MappingError>(e) && final(self).spec_sync_managers()
                    == old(self).spec_sync_managers(),
                None => result is Ok && final(self).spec_sync_managers() == old(
                    self,
                ).spec_sync_managers().push(config),
            },
    {
        let count = self.sync_managers.len();
        if SMS == 0 || count >= SMS {
            return Err(MappingError::CapacityExceeded);
        }
        if config.length == 0 {
            return Err(MappingError::EmptySyncManager);
        }
        let mut i: usize = 0;
        while i < count
            invariant
                i <= count,
                forall|k: int| 0 <= k < i ==> self.sync_managers@[k].index != config.index,
            decreases count - i,
        {
            if self.sync_managers[i].index == config.index {
                return Err(MappingError::DuplicateSyncManager);
            }
            i = i + 1;
        }
        let start = config.physical_start as u32;
        let end = start + config.length as u32;
        if end > 0x10000 {
            return Err(MappingError::PhysicalRangeOverflow);
        }
        let mut i: usize = 0;
        while i < count
            invariant
                i <= count,
                forall|k: int| 0 <= k < i ==> !sync_managers_overlap(self.sync_managers@[k], config),
            decreases count - i,
        {
            let existing = self.sync_managers[i];
            let existing_start = existing.physical_start as u32;
            let existing_end = existing_start + existing.length as u32;
            if start < existing_end && existing_start < end {
                assert(sync_managers_overlap(self.sync_managers@[i as int], config));
                return Err(MappingError::SyncManagerOverlap);
            }
            i = i + 1;
        }
        self.sync_managers.push(config);
        Ok(())
    }

    #[verifier::loop_isolation(false)]
    pub fn add_fmmu(&mut self, config: FmmuConfig) -> (result: Result<(), MappingError>)
        ensures
            final(self).spec_sync_managers() == old(self).spec_sync_managers(),
            match spec_add_fmmu_error(old(self).spec_fmmus(), FMMUS as int, config) {
                Some(e) => result == Err::<(), MappingError>(e) && final(self).spec_fmmus() == old(
                    self,
                ).spec_fmmus(),
                None => result is Ok && final(self).spec_fmmus() == old(self).spec_fmmus().push(
                    config,
                ),
            },
    {
        let count = self.fmmus.len();
        if FMMUS == 0 || count >= FMMUS {
            return Err(MappingError::CapacityExceeded);
        }
        let mut i: usize = 0;
        while i < count
            invariant
                i <= count,
                forall|k: int| 0 <= k < i ==> self.fmmus@[k].index != config.index,
            decreases count - i,
        {
            if self.fmmus[i].index == config.index {
                return Err(MappingError::DuplicateFmmu);
            }
            i = i + 1;
        }
        let (start, end) = config.logical_bit_range()?;
        let mut i: usize = 0;
        while i < count
            invariant
                i <= count,
                forall|k: int| 0 <= k < i ==> !fmmus_overlap(self.fmmus@[k], config),
            decreases count - i,
        {
            let existing = self.fmmus[i];
            let overlap = match existing.logical_bit_range() {
                Ok((existing_start, existing_end)) => start < existing_end && existing_start < end,
                Err(_) => true,
            };
            if overlap {
                assert(fmmus_overlap(self.fmmus@[i as int], config));
                return Err(MappingError::LogicalOverlap);
            }
            i = i + 1;
        }
        self.fmmus.push(config);
        Ok(())
    }

    /// The SyncManager configured with `index`.
    pub fn sync_manager(&self, index: u8) -> (result: Result<SyncManagerConfig, MappingError>)
        ensures
            match result {
                Ok(config) => config.index == index && exists|i: int|
                    0 <= i < self.spec_sync_managers().len() && #[trigger] self.spec_sync_managers()[i]
                        == config && forall|k: int| 0 <= k < i ==> self.spec_sync_managers()[k].index != index,
                Err(e) => e == MappingError::UnknownSyncManager && forall|i: int|
                    0 <= i < self.spec_sync_managers().len() ==> (#[trigger] self.spec_sync_managers()[i]).index != index,
            },
    {
        let mut i: usize = 0;
        while i < self.sync_managers.len()
            invariant
                i <= self.sync_managers@.len(),
                forall|k: int| 0 <= k < i ==> self.sync_managers@[k].index != index,
            decreases self.sync_managers@.len() - i,
        {
            if self.sync_managers[i].index == index {
                assert(self.spec_sync_managers()[i as int] == self.sync_managers@[i as int]);
                return Ok(self.sync_managers[i]);
            }
            i = i + 1;
        }
        Err(MappingError::UnknownSyncManager)
    }

    /// The FMMU configured with `index`.
    pub fn fmmu(&self, index: u8) -> (result: Result<FmmuConfig, MappingError>)
        ensures
            match result {
                Ok(config) => config.index == index && exists|i: int|
                    0 <= i < self.spec_fmmus().len() && #[trigger] self.spec_fmmus()[i] == config
                        && forall|k: int| 0 <= k < i ==> self.spec_fmmus()[k].index != index,
                Err(e) => e == MappingError::UnknownFmmu && forall|i: int|
                    0 <= i < self.spec_fmmus().len() ==> (#[trigger] self.spec_fmmus()[i]).index != index,
            },
    {
        let mut i: usize = 0;
        while i < self.fmmus.len()
            invariant
                i <= self.fmmus@.len(),
                forall|k: int| 0 <= k < i ==> self.fmmus@[k].index != index,
            decreases self.fmmus@.len() - i,
        {
            if self.fmmus[i].index == index {
                assert(self.spec_fmmus()[i as int] == self.fmmus@[i as int]);
                return Ok(self.fmmus[i]);
            }
            i = i + 1;
        }
        Err(MappingError::UnknownFmmu)
    }

    /// Counts and the highest logical byte end the FMMUs reach.
    pub fn summary(&self) -> (summary: MappingSummary)
        ensures
            summary.sync_manager_count == self.spec_sync_managers().len(),
            summary.fmmu_count == self.spec_fmmus().len(),
            summary.logical_end == spec_logical_end(self.spec_fmmus(), self.spec_fmmus().len() as int),
    {
        let mut logical_end: u32 = 0;
        let mut i: usize = 0;
        while i < self.fmmus.len()
            invariant
                i <= self.fmmus@.len(),
                logical_end == spec_logical_end(self.fmmus@, i as int),
            decreases self.fmmus@.len() - i,
        {
            let fmmu = self.fmmus[i];
            let end = fmmu.logical_start.saturating_add(fmmu.length as u32);
            if end > logical_end {
                logical_end = end;
            }
            i = i + 1;
        }
        MappingSummary {
            sync_manager_count: self.sync_managers.len(),
            fmmu_count: self.fmmus.len(),
            logical_end,
        }
    }
}


/// Whether the physical byte ranges `[start, start + length)` of two
/// SyncManagers have a byte in common.
pub open spec fn share_a_byte(left: SyncManagerConfig, right: SyncManagerConfig) -> bool {
    exists|b: int| #[trigger] holds_byte(left, b) && holds_byte(right, b)
}

/// Whether byte address `b` lies in a SyncManager's physical range.
pub open spec fn holds_byte(sm: SyncManagerConfig, b: int) -> bool {
    sm.physical_start <= b < sm.physical_start + sm.length
}

/// A SyncManager is refused as overlapping exactly when, the earlier checks
/// passed, its physical byte range has a byte in common with that of a
/// SyncManager already in the table; ranges that only touch, one ending
/// where the other starts, are accepted. The SyncManagers in a table are
/// never empty, as `add_sync_manager` refuses empty ones.
pub proof fn lemma_sync_manager_overlap_means_shared_byte(
    existing: Seq<SyncManagerConfig>,
    capacity: int,
    config: SyncManagerConfig,
)
    requires
        forall|i: int| 0 <= i < existing.len() ==> (#[trigger] existing[i]).length > 0,
    ensures
        spec_add_sync_manager_error(existing, capacity, config) == Some(MappingError::SyncManagerOverlap) ==> exists|
            i: int,
        |
            0 <= i < existing.len() && share_a_byte(#[trigger] existing[i], config),
        ({
            &&& !(capacity == 0 || existing.len() >= capacity)
            &&& config.length != 0
            &&& !(exists|i: int| 0 <= i < existing.len() && (#[trigger] existing[i]).index == config.index)
            &&& config.physical_start + config.length <= 0x10000
        }) ==> (spec_add_sync_manager_error(existing, capacity, config) == Some(MappingError::SyncManagerOverlap)
            <==> exists|i: int| 0 <= i < existing.len() && share_a_byte(#[trigger] existing[i], config)),
{
    assert forall|i: int| 0 <= i < existing.len() && config.length > 0 implies share_a_byte(
        #[trigger] existing[i],
        config,
    ) == sync_managers_overlap(existing[i], config) by {
        let e = existing[i];
        if sync_managers_overlap(e, config) {
            let b = if e.physical_start >= config.physical_start {
                e.physical_start as int
            } else {
                config.physical_start as int
            };
            assert(holds_byte(e, b) && holds_byte(config, b));
        }
        if share_a_byte(e, config) {
            let b = choose|b: int| holds_byte(e, b) && holds_byte(config, b);
        }
    }
}

} // verus!
