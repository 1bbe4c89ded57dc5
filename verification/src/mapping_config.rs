//! SyncManager/FMMU configuration transactions.
//!
//! The caller drives the configuration. Each table entry is written once
//! and read back once before the controller moves on, so a partially
//! applied mapping is never reported as complete.
use vstd::prelude::*;
use crate::bytes::{bytes_equal, zeros};
use crate::control::{
    acquire_outcome, ControlError, ControlRequestPool, RegisterOperation, RequestHandle,
    RequestState,
};
use crate::mailbox::{next_nonzero, released_slot, saturating_add_u64};
use crate::mapping::{
    fmmu_image, sync_manager_image, FmmuConfig, MappingError, MappingTable, SyncManagerConfig,
    ESC_FMMU_BASE, ESC_FMMU_STRIDE, ESC_SYNC_MANAGER_BASE, ESC_SYNC_MANAGER_STRIDE,
    FMMU_IMAGE_LEN, SYNC_MANAGER_IMAGE_LEN,
};
use crate::registers::{fixed_address, pack_address};

verus! {

#[derive(Clone, Copy, Debug, PartialEq, Eq, Structural)]
pub enum MappingConfigPhase {
    Idle,
    WritingSyncManager,
    VerifyingSyncManager,
    WritingFmmu,
    VerifyingFmmu,
    Complete,
    Faulted,
}

#[derive(Clone, Copy, Debug, PartialEq, Eq, Structural)]
pub enum MappingConfigItem {
    SyncManager(u8),
    Fmmu(u8),
}

#[derive(Clone, Copy, Debug, PartialEq, Eq)]
pub struct MappingConfigAction {
    pub token: u8,
    pub datagram_index: u8,
    pub generation: u16,
    pub station_address: u16,
    pub item: MappingConfigItem,
    pub operation: RegisterOperation,
    pub address: u32,
    pub read_len: u16,
    pub write_payload: [u8; FMMU_IMAGE_LEN],
    pub write_len: u8,
    pub deadline_ns: u64,
    pub expected_wkc: u16,
}

impl MappingConfigAction {
    pub open spec fn spec_datagram_len(&self) -> usize {
        if self.read_len > self.write_len {
            self.read_len as usize
        } else {
            self.write_len as usize
        }
    }

    /// The bytes the action writes.
    pub fn payload(&self) -> (payload: &[u8])
        requires
            self.write_len <= FMMU_IMAGE_LEN,
        ensures
            payload@ == self.write_payload@.subrange(0, self.write_len as int),
    {
        let len = self.write_len as usize;
        let all: &[u8] = self.write_payload.as_slice();
        &all[0..len]
    }

    #[verifier::when_used_as_spec(spec_datagram_len)]
    pub fn datagram_len(&self) -> (len: usize)
        ensures
            len == self.spec_datagram_len(),
    {
        let read_len = self.read_len as usize;
        let write_len = self.write_len as usize;
        if read_len > write_len {
            read_len
        } else {
            write_len
        }
    }

    /// The length of the data the action reads back.
    pub fn response_len(&self) -> (len: usize)
        ensures
            len == self.read_len,
    {
        self.read_len as usize
    }
}

fn same_mapping_action(a: &MappingConfigAction, b: &MappingConfigAction) -> (same: bool)
    ensures
        same == (*a == *b),
{
    if a.token != b.token || a.datagram_index != b.datagram_index || a.generation != b.generation
        || a.station_address != b.station_address || a.item != b.item || a.operation
        != b.operation || a.address != b.address || a.read_len != b.read_len || a.write_len
        != b.write_len || a.deadline_ns != b.deadline_ns || a.expected_wkc != b.expected_wkc {
        return false;
    }
    let mut i: usize = 0;
    while i < FMMU_IMAGE_LEN
        invariant
            i <= FMMU_IMAGE_LEN,
            forall|k: int| 0 <= k < i ==> a.write_payload@[k] == b.write_payload@[k],
        decreases FMMU_IMAGE_LEN - i,
    {
        if a.write_payload[i] != b.write_payload[i] {
            return false;
        }
        i = i + 1;
    }
    assert(a.write_payload@ =~= b.write_payload@);
    proof {
        vstd::array::axiom_array_ext_equal(a.write_payload, b.write_payload);
    }
    true
}

#[derive(Clone, Copy, Debug, PartialEq, Eq, Structural)]
pub enum MappingConfigProgress {
    Advanced,
    Complete,
}

#[derive(Clone, Copy, Debug, PartialEq, Eq, Structural)]
pub enum MappingConfigError {
    Busy,
    NotStarted,
    NoPendingAction,
    ActionMismatch,
    TokenMismatch,
    GenerationMismatch,
    PayloadLengthMismatch,
    UnexpectedWorkingCounter,
    Timeout,
    ReadbackMismatch,
    Mapping(MappingError),
    Control(ControlError),
}

/// The state of a mapping configuration as seen by its contracts.
pub struct MappingConfigView {
    pub phase: MappingConfigPhase,
    pub generation: u16,
    pub station_address: u16,
    pub configuration_deadline_ns: u64,
    pub request_timeout_ns: u64,
    pub sync_managers: Seq<SyncManagerConfig>,
    pub fmmus: Seq<FmmuConfig>,
    pub item_index: int,
    pub pending: Option<MappingConfigAction>,
    pub next_token: u8,
    pub next_datagram_index: u8,
    pub last_error: Option<MappingConfigError>,
}

pub open spec fn mapping_fault(v: MappingConfigView, error: MappingConfigError) -> MappingConfigView {
    MappingConfigView { last_error: Some(error), pending: None, phase: MappingConfigPhase::Faulted, ..v }
}


/// The first sixteen bytes of `s` as an action payload.
pub open spec fn payload_array(s: Seq<u8>) -> [u8; FMMU_IMAGE_LEN] {
    [s[0], s[1], s[2], s[3], s[4], s[5], s[6], s[7], s[8], s[9], s[10], s[11], s[12], s[13], s[14], s[15]]
}

/// Past the last SyncManager, move on to the FMMUs (or finish).
pub open spec fn skip_finished_sync_managers(v: MappingConfigView) -> MappingConfigView {
    if v.phase == MappingConfigPhase::WritingSyncManager && v.item_index >= v.sync_managers.len() {
        MappingConfigView {
            phase: if v.fmmus.len() != 0 {
                MappingConfigPhase::WritingFmmu
            } else {
                MappingConfigPhase::Complete
            },
            item_index: 0,
            ..v
        }
    } else {
        v
    }
}

/// The register action for the current entry: write its image, or read it
/// back.
pub open spec fn mapping_phase_action(v: MappingConfigView, now_ns: u64) -> MappingConfigAction {
    let on_sync_manager = v.phase == MappingConfigPhase::WritingSyncManager || v.phase
        == MappingConfigPhase::VerifyingSyncManager;
    let writing = v.phase == MappingConfigPhase::WritingSyncManager || v.phase
        == MappingConfigPhase::WritingFmmu;
    let sm = v.sync_managers[v.item_index];
    let fmmu = v.fmmus[v.item_index];
    let image_len = if on_sync_manager {
        SYNC_MANAGER_IMAGE_LEN
    } else {
        FMMU_IMAGE_LEN
    };
    let deadline = saturating_add_u64(now_ns, v.request_timeout_ns);
    MappingConfigAction {
        token: v.next_token,
        datagram_index: v.next_datagram_index,
        generation: v.generation,
        station_address: v.station_address,
        item: if on_sync_manager {
            MappingConfigItem::SyncManager(sm.index)
        } else {
            MappingConfigItem::Fmmu(fmmu.index)
        },
        operation: if writing {
            RegisterOperation::Write
        } else {
            RegisterOperation::Read
        },
        address: pack_address(
            v.station_address as int,
            if on_sync_manager {
                ESC_SYNC_MANAGER_BASE + sm.index * ESC_SYNC_MANAGER_STRIDE
            } else {
                ESC_FMMU_BASE + fmmu.index * ESC_FMMU_STRIDE
            },
        ) as u32,
        read_len: if writing {
            0
        } else {
            image_len as u16
        },
        write_payload: if !writing {
            payload_array(zeros(16))
        } else if on_sync_manager {
            payload_array(sync_manager_image(sm) + zeros(8))
        } else {
            payload_array(fmmu_image(fmmu))
        },
        write_len: if writing {
            image_len as u8
        } else {
            0
        },
        deadline_ns: if deadline < v.configuration_deadline_ns {
            deadline
        } else {
            v.configuration_deadline_ns
        },
        expected_wkc: 1,
    }
}

pub open spec fn spec_mapping_next_action(v: MappingConfigView, now_ns: u64) -> (MappingConfigView, Result<
    Option<MappingConfigAction>,
    MappingConfigError,
>) {
    if v.phase == MappingConfigPhase::Idle {
        (v, Err(MappingConfigError::NotStarted))
    } else if v.phase == MappingConfigPhase::Complete || v.phase == MappingConfigPhase::Faulted {
        (v, Ok(None))
    } else if v.pending is Some {
        (v, Ok(v.pending))
    } else if now_ns >= v.configuration_deadline_ns {
        (mapping_fault(v, MappingConfigError::Timeout), Err(MappingConfigError::Timeout))
    } else {
        let w = skip_finished_sync_managers(v);
        if w.phase == MappingConfigPhase::Complete {
            (w, Ok(None))
        } else if w.phase == MappingConfigPhase::WritingFmmu && w.item_index >= w.fmmus.len() {
            (MappingConfigView { phase: MappingConfigPhase::Complete, ..w }, Ok(None))
        } else {
            let action = mapping_phase_action(w, now_ns);
            (
                MappingConfigView {
                    pending: Some(action),
                    next_token: next_nonzero(w.next_token),
                    next_datagram_index: next_nonzero(w.next_datagram_index),
                    ..w
                },
                Ok(Some(action)),
            )
        }
    }
}

/// The controller and result after the response to `action`: a write
/// moves to the read-back, and a read-back that matches the entry's image
/// moves to the next entry.
pub open spec fn spec_mapping_accept(
    v: MappingConfigView,
    action: MappingConfigAction,
    generation: u16,
    payload: Seq<u8>,
    working_counter: u16,
    now_ns: u64,
) -> (MappingConfigView, Result<MappingConfigProgress, MappingConfigError>) {
    if v.pending != Some(action) {
        (mapping_fault(v, MappingConfigError::ActionMismatch), Err(MappingConfigError::ActionMismatch))
    } else if action.generation != generation {
        (mapping_fault(v, MappingConfigError::GenerationMismatch), Err(MappingConfigError::GenerationMismatch))
    } else if now_ns > action.deadline_ns {
        (mapping_fault(v, MappingConfigError::Timeout), Err(MappingConfigError::Timeout))
    } else if working_counter != action.expected_wkc {
        (mapping_fault(v, MappingConfigError::UnexpectedWorkingCounter), Err(MappingConfigError::UnexpectedWorkingCounter))
    } else if payload.len() != action.read_len {
        (mapping_fault(v, MappingConfigError::PayloadLengthMismatch), Err(MappingConfigError::PayloadLengthMismatch))
    } else if v.phase == MappingConfigPhase::WritingSyncManager {
        (
            MappingConfigView { phase: MappingConfigPhase::VerifyingSyncManager, pending: None, ..v },
            Ok(MappingConfigProgress::Advanced),
        )
    } else if v.phase == MappingConfigPhase::VerifyingSyncManager {
        if payload != sync_manager_image(v.sync_managers[v.item_index]) {
            (mapping_fault(v, MappingConfigError::ReadbackMismatch), Err(MappingConfigError::ReadbackMismatch))
        } else {
            let next = v.item_index + 1;
            if next < v.sync_managers.len() {
                (
                    MappingConfigView {
                        item_index: next,
                        phase: MappingConfigPhase::WritingSyncManager,
                        pending: None,
                        ..v
                    },
                    Ok(MappingConfigProgress::Advanced),
                )
            } else if v.fmmus.len() != 0 {
                (
                    MappingConfigView {
                        item_index: 0,
                        phase: MappingConfigPhase::WritingFmmu,
                        pending: None,
                        ..v
                    },
                    Ok(MappingConfigProgress::Advanced),
                )
            } else {
                (
                    MappingConfigView {
                        item_index: next,
                        phase: MappingConfigPhase::Complete,
                        pending: None,
                        ..v
                    },
                    Ok(MappingConfigProgress::Complete),
                )
            }
        }
    } else if v.phase == MappingConfigPhase::WritingFmmu {
        (
            MappingConfigView { phase: MappingConfigPhase::VerifyingFmmu, pending: None, ..v },
            Ok(MappingConfigProgress::Advanced),
        )
    } else if v.phase == MappingConfigPhase::VerifyingFmmu {
        if payload != fmmu_image(v.fmmus[v.item_index]) {
            (mapping_fault(v, MappingConfigError::ReadbackMismatch), Err(MappingConfigError::ReadbackMismatch))
        } else {
            let next = v.item_index + 1;
            if next < v.fmmus.len() {
                (
                    MappingConfigView {
                        item_index: next,
                        phase: MappingConfigPhase::WritingFmmu,
                        pending: None,
                        ..v
                    },
                    Ok(MappingConfigProgress::Advanced),
                )
            } else {
                (
                    MappingConfigView {
                        item_index: next,
                        phase: MappingConfigPhase::Complete,
                        pending: None,
                        ..v
                    },
                    Ok(MappingConfigProgress::Complete),
                )
            }
        }
    } else {
        (mapping_fault(v, MappingConfigError::NoPendingAction), Err(MappingConfigError::NoPendingAction))
    }
}

pub struct MappingConfigController<const SMS: usize, const FMMUS: usize> {
    phase: MappingConfigPhase,
    generation: u16,
    station_address: u16,
    configuration_deadline_ns: u64,
    request_timeout_ns: u64,
    sync_managers: Vec<SyncManagerConfig>,
    fmmus: Vec<FmmuConfig>,
    item_index: usize,
    pending: Option<MappingConfigAction>,
    next_token: u8,
    next_datagram_index: u8,
    last_error: Option<MappingConfigError>,
}

impl<const SMS: usize, const FMMUS: usize> View for MappingConfigController<SMS, FMMUS> {
    type V = MappingConfigView;

    closed spec fn view(&self) -> MappingConfigView {
        MappingConfigView {
            phase: self.phase,
            generation: self.generation,
            station_address: self.station_address,
            configuration_deadline_ns: self.configuration_deadline_ns,
            request_timeout_ns: self.request_timeout_ns,
            sync_managers: self.sync_managers@,
            fmmus: self.fmmus@,
            item_index: self.item_index as int,
            pending: self.pending,
            next_token: self.next_token,
            next_datagram_index: self.next_datagram_index,
            last_error: self.last_error,
        }
    }
}

/// The entry being verified exists, the FMMU being written exists unless
/// the writes are done, and a pending action writes at most one image.
pub open spec fn mapping_wf(v: MappingConfigView) -> bool {
    &&& 0 <= v.item_index
    &&& (v.phase == MappingConfigPhase::VerifyingSyncManager ==> v.item_index < v.sync_managers.len())
    &&& (v.phase == MappingConfigPhase::VerifyingFmmu ==> v.item_index < v.fmmus.len())
    &&& (v.phase == MappingConfigPhase::WritingSyncManager ==> v.item_index <= v.sync_managers.len())
    &&& (v.phase == MappingConfigPhase::WritingSyncManager && v.pending is Some ==> v.item_index < v.sync_managers.len())
    &&& (v.phase == MappingConfigPhase::WritingFmmu && v.pending is Some ==> v.item_index < v.fmmus.len())
    &&& (v.phase == MappingConfigPhase::WritingFmmu ==> v.item_index <= v.fmmus.len())
    &&& (v.pending matches Some(a) ==> a.write_len <= FMMU_IMAGE_LEN && a.read_len <= FMMU_IMAGE_LEN)
    &&& ((v.phase == MappingConfigPhase::WritingSyncManager || v.phase == MappingConfigPhase::WritingFmmu) && v.pending is Some
        ==> v.pending->Some_0.read_len == 0)
    &&& (v.phase == MappingConfigPhase::VerifyingSyncManager && v.pending is Some ==> v.pending->Some_0.read_len == SYNC_MANAGER_IMAGE_LEN)
    &&& (v.phase == MappingConfigPhase::VerifyingFmmu && v.pending is Some ==> v.pending->Some_0.read_len == FMMU_IMAGE_LEN)
}

impl<const SMS: usize, const FMMUS: usize> MappingConfigController<SMS, FMMUS> {
    pub open spec fn wf(&self) -> bool {
        mapping_wf(self@)
    }

    pub open spec fn spec_initial() -> MappingConfigView {
        MappingConfigView {
            phase: MappingConfigPhase::Idle,
            generation: 0,
            station_address: 0,
            configuration_deadline_ns: 0,
            request_timeout_ns: 0,
            sync_managers: Seq::empty(),
            fmmus: Seq::empty(),
            item_index: 0,
            pending: None,
            next_token: 1,
            next_datagram_index: 1,
            last_error: None,
        }
    }

    pub fn new() -> (controller: Self)
        ensures
            controller@ == Self::spec_initial(),
            controller.wf(),
    {
        let controller = MappingConfigController {
            phase: MappingConfigPhase::Idle,
            generation: 0,
            station_address: 0,
            configuration_deadline_ns: 0,
            request_timeout_ns: 0,
            sync_managers: Vec::new(),
            fmmus: Vec::new(),
            item_index: 0,
            pending: None,
            next_token: 1,
            next_datagram_index: 1,
            last_error: None,
        };
        assert(controller@.sync_managers =~= Seq::<SyncManagerConfig>::empty());
        assert(controller@.fmmus =~= Seq::<FmmuConfig>::empty());
        controller
    }

    pub fn phase(&self) -> (phase: MappingConfigPhase)
        ensures
            phase == self@.phase,
    {
        self.phase
    }

    pub fn pending(&self) -> (pending: Option<MappingConfigAction>)
        ensures
            pending == self@.pending,
    {
        self.pending
    }

    pub fn last_error(&self) -> (error: Option<MappingConfigError>)
        ensures
            error == self@.last_error,
    {
        self.last_error
    }

    pub fn sync_manager_count(&self) -> (count: usize)
        ensures
            count == self@.sync_managers.len(),
    {
        self.sync_managers.len()
    }

    pub fn fmmu_count(&self) -> (count: usize)
        ensures
            count == self@.fmmus.len(),
    {
        self.fmmus.len()
    }

    /// Begin writing every entry of `table`: SyncManagers first, then FMMUs.
    pub fn start(
        &mut self,
        station_address: u16,
        generation: u16,
        now_ns: u64,
        timeout_ns: u64,
        request_timeout_ns: u64,
        table: &MappingTable<SMS, FMMUS>,
    ) -> (result: Result<(), MappingConfigError>)
        requires
            old(self).wf(),
        ensures
            final(self).wf(),
            !(old(self)@.phase == MappingConfigPhase::Idle || old(self)@.phase == MappingConfigPhase::Complete
                || old(self)@.phase == MappingConfigPhase::Faulted) ==> result == Err::<(), MappingConfigError>(MappingConfigError::Busy)
                && final(self)@ == old(self)@,
            (old(self)@.phase == MappingConfigPhase::Idle || old(self)@.phase == MappingConfigPhase::Complete
                || old(self)@.phase == MappingConfigPhase::Faulted) ==> {
                let v = final(self)@;
                &&& result is Ok
                &&& v.sync_managers == table.spec_sync_managers()
                &&& v.fmmus == table.spec_fmmus()
                &&& v.station_address == station_address
                &&& v.generation == generation
                &&& v.configuration_deadline_ns == saturating_add_u64(now_ns, timeout_ns)
                &&& v.request_timeout_ns == request_timeout_ns
                &&& v.item_index == 0
                &&& v.pending is None
                &&& v.next_token == 1
                &&& v.next_datagram_index == 1
                &&& v.last_error is None
                &&& v.phase == if v.sync_managers.len() != 0 {
                    MappingConfigPhase::WritingSyncManager
                } else if v.fmmus.len() != 0 {
                    MappingConfigPhase::WritingFmmu
                } else {
                    MappingConfigPhase::Complete
                }
            },
    {
        if !(self.phase == MappingConfigPhase::Idle || self.phase == MappingConfigPhase::Complete
            || self.phase == MappingConfigPhase::Faulted) {
            return Err(MappingConfigError::Busy);
        }
        let source_sms = table.sync_managers();
        let mut sync_managers: Vec<SyncManagerConfig> = Vec::new();
        let mut i: usize = 0;
        while i < source_sms.len()
            invariant
                i <= source_sms@.len(),
                sync_managers@ == source_sms@.subrange(0, i as int),
            decreases source_sms@.len() - i,
        {
            sync_managers.push(source_sms[i]);
            i = i + 1;
            assert(sync_managers@ =~= source_sms@.subrange(0, i as int));
        }
        assert(sync_managers@ =~= source_sms@);
        let source_fmmus = table.fmmus();
        let mut fmmus: Vec<FmmuConfig> = Vec::new();
        let mut j: usize = 0;
        while j < source_fmmus.len()
            invariant
                j <= source_fmmus@.len(),
                fmmus@ == source_fmmus@.subrange(0, j as int),
            decreases source_fmmus@.len() - j,
        {
            fmmus.push(source_fmmus[j]);
            j = j + 1;
            assert(fmmus@ =~= source_fmmus@.subrange(0, j as int));
        }
        assert(fmmus@ =~= source_fmmus@);
        let has_sync_managers = sync_managers.len() != 0;
        let has_fmmus = fmmus.len() != 0;
        self.sync_managers = sync_managers;
        self.fmmus = fmmus;
        self.station_address = station_address;
        self.generation = generation;
        self.configuration_deadline_ns = now_ns.saturating_add(timeout_ns);
        self.request_timeout_ns = request_timeout_ns;
        self.item_index = 0;
        self.pending = None;
        self.next_token = 1;
        self.next_datagram_index = 1;
        self.last_error = None;
        self.phase = if has_sync_managers {
            MappingConfigPhase::WritingSyncManager
        } else if has_fmmus {
            MappingConfigPhase::WritingFmmu
        } else {
            MappingConfigPhase::Complete
        };
        Ok(())
    }

    /// The action to perform now, if any; see `spec_mapping_next_action`.
    pub fn next_action(&mut self, now_ns: u64) -> (result: Result<Option<MappingConfigAction>, MappingConfigError>)
        requires
            old(self).wf(),
        ensures
            final(self).wf(),
            (final(self)@, result) == spec_mapping_next_action(old(self)@, now_ns),
    {
        if self.phase == MappingConfigPhase::Idle {
            return Err(MappingConfigError::NotStarted);
        }
        if self.phase == MappingConfigPhase::Complete || self.phase == MappingConfigPhase::Faulted {
            return Ok(None);
        }
        if let Some(action) = self.pending {
            return Ok(Some(action));
        }
        if now_ns >= self.configuration_deadline_ns {
            self.last_error = Some(MappingConfigError::Timeout);
            self.pending = None;
            self.phase = MappingConfigPhase::Faulted;
            return Err(MappingConfigError::Timeout);
        }
        if self.phase == MappingConfigPhase::WritingSyncManager && self.item_index
            >= self.sync_managers.len() {
            self.phase = if self.fmmus.len() != 0 {
                MappingConfigPhase::WritingFmmu
            } else {
                MappingConfigPhase::Complete
            };
            self.item_index = 0;
        }
        if self.phase == MappingConfigPhase::Complete {
            return Ok(None);
        }
        if self.phase == MappingConfigPhase::WritingFmmu && self.item_index >= self.fmmus.len() {
            self.phase = MappingConfigPhase::Complete;
            return Ok(None);
        }
        let ghost w = self@;
        let on_sync_manager = self.phase == MappingConfigPhase::WritingSyncManager || self.phase
            == MappingConfigPhase::VerifyingSyncManager;
        let writing = self.phase == MappingConfigPhase::WritingSyncManager || self.phase
            == MappingConfigPhase::WritingFmmu;
        let mut encoded = [0u8; FMMU_IMAGE_LEN];
        let (item, register, image_len) = if on_sync_manager {
            let config = self.sync_managers[self.item_index];
            if writing {
                let _ = config.encode(&mut encoded);
            }
            (MappingConfigItem::SyncManager(config.index), config.register_address(), SYNC_MANAGER_IMAGE_LEN)
        } else {
            let config = self.fmmus[self.item_index];
            if writing {
                let _ = config.encode(&mut encoded);
            }
            (MappingConfigItem::Fmmu(config.index), config.register_address(), FMMU_IMAGE_LEN)
        };
        proof {
            let expected = mapping_phase_action(w, now_ns).write_payload;
            if !writing {
                assert(encoded@ =~= zeros(16));
            } else if on_sync_manager {
                assert(encoded@ =~= sync_manager_image(w.sync_managers[w.item_index]) + zeros(8));
            } else {
                assert(encoded@ =~= fmmu_image(w.fmmus[w.item_index]));
            }
            assert(encoded@ =~= expected@);
            vstd::array::axiom_array_ext_equal(encoded, expected);
        }
        let deadline = now_ns.saturating_add(self.request_timeout_ns);
        let action = MappingConfigAction {
            token: self.next_token,
            datagram_index: self.next_datagram_index,
            generation: self.generation,
            station_address: self.station_address,
            item,
            operation: if writing {
                RegisterOperation::Write
            } else {
                RegisterOperation::Read
            },
            address: fixed_address(self.station_address, register),
            read_len: if writing {
                0
            } else {
                image_len as u16
            },
            write_payload: encoded,
            write_len: if writing {
                image_len as u8
            } else {
                0
            },
            deadline_ns: if deadline < self.configuration_deadline_ns {
                deadline
            } else {
                self.configuration_deadline_ns
            },
            expected_wkc: 1,
        };
        assert(action == mapping_phase_action(w, now_ns));
        self.next_token = if self.next_token == u8::MAX {
            1
        } else {
            self.next_token + 1
        };
        self.next_datagram_index = if self.next_datagram_index == u8::MAX {
            1
        } else {
            self.next_datagram_index + 1
        };
        self.pending = Some(action);
        Ok(Some(action))
    }

    /// Queue the pending action as a control request in `pool`.
    pub fn enqueue_pending<const REQUESTS: usize>(&self, pool: &mut ControlRequestPool<REQUESTS>) -> (result:
        Result<RequestHandle, ControlError>)
        requires
            self.wf(),
            old(pool).wf(),
        ensures
            final(pool).wf(),
            self@.pending is None ==> result == Err::<RequestHandle, ControlError>(ControlError::InvalidState)
                && *final(pool) == *old(pool),
            self@.pending matches Some(action) ==> acquire_outcome(
                *old(pool),
                *final(pool),
                action.datagram_index,
                action.generation,
                action.address,
                action.operation,
                action.write_payload@.subrange(0, action.write_len as int),
                action.spec_datagram_len(),
                action.deadline_ns,
                result,
            ),
    {
        let action = match self.pending {
            Some(action) => action,
            None => return Err(ControlError::InvalidState),
        };
        pool.acquire_with_response_len(
            action.datagram_index,
            action.generation,
            action.address,
            action.operation,
            action.payload(),
            action.datagram_len(),
            action.deadline_ns,
        )
    }

    /// Offer the response to `action`; see `spec_mapping_accept`.
    pub fn accept(
        &mut self,
        action: MappingConfigAction,
        generation: u16,
        payload: &[u8],
        working_counter: u16,
        now_ns: u64,
    ) -> (result: Result<MappingConfigProgress, MappingConfigError>)
        requires
            old(self).wf(),
        ensures
            final(self).wf(),
            (final(self)@, result) == spec_mapping_accept(old(self)@, action, generation, payload@, working_counter, now_ns),
    {
        let matches = match &self.pending {
            Some(pending) => same_mapping_action(pending, &action),
            None => false,
        };
        if !matches {
            return self.fail(MappingConfigError::ActionMismatch);
        }
        if action.generation != generation {
            return self.fail(MappingConfigError::GenerationMismatch);
        }
        if now_ns > action.deadline_ns {
            return self.fail(MappingConfigError::Timeout);
        }
        if working_counter != action.expected_wkc {
            return self.fail(MappingConfigError::UnexpectedWorkingCounter);
        }
        if payload.len() != action.response_len() {
            return self.fail(MappingConfigError::PayloadLengthMismatch);
        }
        if self.phase == MappingConfigPhase::WritingSyncManager {
            self.phase = MappingConfigPhase::VerifyingSyncManager;
            self.pending = None;
            return Ok(MappingConfigProgress::Advanced);
        }
        if self.phase == MappingConfigPhase::VerifyingSyncManager {
            let mut expected = [0u8; SYNC_MANAGER_IMAGE_LEN];
            let _ = self.sync_managers[self.item_index].encode(&mut expected);
            assert(expected@ =~= sync_manager_image(self@.sync_managers[self@.item_index]));
            if !bytes_equal(payload, expected.as_slice()) {
                return self.fail(MappingConfigError::ReadbackMismatch);
            }
            let count = self.sync_managers.len();
            self.item_index = self.item_index + 1;
            self.pending = None;
            if self.item_index < count {
                self.phase = MappingConfigPhase::WritingSyncManager;
                return Ok(MappingConfigProgress::Advanced);
            } else if self.fmmus.len() != 0 {
                self.item_index = 0;
                self.phase = MappingConfigPhase::WritingFmmu;
                return Ok(MappingConfigProgress::Advanced);
            } else {
                self.phase = MappingConfigPhase::Complete;
                return Ok(MappingConfigProgress::Complete);
            }
        }
        if self.phase == MappingConfigPhase::WritingFmmu {
            self.phase = MappingConfigPhase::VerifyingFmmu;
            self.pending = None;
            return Ok(MappingConfigProgress::Advanced);
        }
        if self.phase == MappingConfigPhase::VerifyingFmmu {
            let mut expected = [0u8; FMMU_IMAGE_LEN];
            let _ = self.fmmus[self.item_index].encode(&mut expected);
            assert(expected@ =~= fmmu_image(self@.fmmus[self@.item_index]));
            if !bytes_equal(payload, expected.as_slice()) {
                return self.fail(MappingConfigError::ReadbackMismatch);
            }
            let count = self.fmmus.len();
            self.item_index = self.item_index + 1;
            self.pending = None;
            if self.item_index < count {
                self.phase = MappingConfigPhase::WritingFmmu;
                return Ok(MappingConfigProgress::Advanced);
            } else {
                self.phase = MappingConfigPhase::Complete;
                return Ok(MappingConfigProgress::Complete);
            }
        }
        self.fail(MappingConfigError::NoPendingAction)
    }

    /// Take the outcome of the control request behind `handle`, which
    /// carried the pending action, and release the request.
    pub fn accept_completed<const REQUESTS: usize>(
        &mut self,
        pool: &mut ControlRequestPool<REQUESTS>,
        handle: RequestHandle,
        now_ns: u64,
    ) -> (result: Result<MappingConfigProgress, MappingConfigError>)
        requires
            old(self).wf(),
            old(pool).wf(),
        ensures
            final(self).wf(),
            final(pool).wf(),
            ({
                let v = old(self)@;
                let i = handle.spec_index() as int;
                if v.pending is None {
                    (final(self)@, result) == (mapping_fault(v, MappingConfigError::NoPendingAction), Err::<MappingConfigProgress, MappingConfigError>(MappingConfigError::NoPendingAction))
                        && *final(pool) == *old(pool)
                } else if !old(pool).is_live(i) {
                    let e = MappingConfigError::Control(ControlError::InvalidHandle);
                    (final(self)@, result) == (mapping_fault(v, e), Err::<MappingConfigProgress, MappingConfigError>(e)) && *final(pool) == *old(pool)
                } else {
                    let action = v.pending->Some_0;
                    let request = old(pool).spec_requests()[i];
                    if request.state == RequestState::Complete {
                        &&& released_slot(*old(pool), *final(pool), i)
                        &&& if !(request.datagram_index == action.datagram_index && request.generation
                            == action.generation && request.address == action.address
                            && request.response_length == action.spec_datagram_len() && request.length >= action.read_len) {
                            (final(self)@, result) == (mapping_fault(v, MappingConfigError::ActionMismatch), Err::<MappingConfigProgress, MappingConfigError>(MappingConfigError::ActionMismatch))
                        } else {
                            (final(self)@, result) == spec_mapping_accept(
                                v,
                                action,
                                request.generation,
                                request.payload@.subrange(0, action.read_len as int),
                                request.actual_wkc,
                                now_ns,
                            )
                        }
                    } else if request.state == RequestState::Failed {
                        let e = MappingConfigError::Control(ControlError::InvalidState);
                        released_slot(*old(pool), *final(pool), i) && (final(self)@, result) == (mapping_fault(v, e), Err::<MappingConfigProgress, MappingConfigError>(e))
                    } else {
                        result == Err::<MappingConfigProgress, MappingConfigError>(MappingConfigError::Control(ControlError::InvalidState))
                            && final(self)@ == v && *final(pool) == *old(pool)
                    }
                }
            }),
    {
        let action = match self.pending {
            Some(action) => action,
            None => return self.fail(MappingConfigError::NoPendingAction),
        };
        let (state, consistent, generation, actual_wkc, response) = match pool.get(handle) {
            Some(request) => {
                assert(pool.spec_requests()[handle.spec_index() as int].wf());
                let consistent = request.datagram_index == action.datagram_index
                    && request.generation == action.generation && request.address == action.address
                    && request.response_length == action.datagram_len() && request.length
                    >= action.response_len();
                let take = if consistent {
                    action.response_len()
                } else {
                    0
                };
                (
                    request.state,
                    consistent,
                    request.generation,
                    request.actual_wkc,
                    crate::bytes::copy_range(request.payload(), 0, take),
                )
            },
            None => return self.fail(MappingConfigError::Control(ControlError::InvalidHandle)),
        };
        if state == RequestState::Complete {
            if !consistent {
                let _ = pool.release(handle);
                return self.fail(MappingConfigError::ActionMismatch);
            }
            let progress = self.accept(action, generation, response.as_slice(), actual_wkc, now_ns);
            let release = pool.release(handle);
            match (progress, release) {
                (Ok(progress), Ok(())) => Ok(progress),
                (Ok(_), Err(error)) => self.fail(MappingConfigError::Control(error)),
                (Err(error), _) => Err(error),
            }
        } else if state == RequestState::Failed {
            let _ = pool.release(handle);
            self.fail(MappingConfigError::Control(ControlError::InvalidState))
        } else {
            Err(MappingConfigError::Control(ControlError::InvalidState))
        }
    }

    /// Give up on `action` once its deadline has passed.
    pub fn timeout(&mut self, action: MappingConfigAction, now_ns: u64) -> (result: Result<MappingConfigProgress, MappingConfigError>)
        requires
            old(self).wf(),
        ensures
            final(self).wf(),
            old(self)@.pending != Some(action) ==> (final(self)@, result) == (mapping_fault(old(self)@, MappingConfigError::ActionMismatch), Err::<MappingConfigProgress, MappingConfigError>(MappingConfigError::ActionMismatch)),
            old(self)@.pending == Some(action) && now_ns < action.deadline_ns ==> result == Err::<MappingConfigProgress, MappingConfigError>(MappingConfigError::Timeout)
                && final(self)@ == old(self)@,
            old(self)@.pending == Some(action) && now_ns >= action.deadline_ns ==> (final(self)@, result) == (mapping_fault(old(self)@, MappingConfigError::Timeout), Err::<MappingConfigProgress, MappingConfigError>(MappingConfigError::Timeout)),
    {
        let matches = match &self.pending {
            Some(pending) => same_mapping_action(pending, &action),
            None => false,
        };
        if !matches {
            return self.fail(MappingConfigError::ActionMismatch);
        }
        if now_ns < action.deadline_ns {
            return Err(MappingConfigError::Timeout);
        }
        self.fail(MappingConfigError::Timeout)
    }

    fn fail(&mut self, error: MappingConfigError) -> (result: Result<MappingConfigProgress, MappingConfigError>)
        requires
            old(self).wf(),
        ensures
            final(self).wf(),
            final(self)@ == mapping_fault(old(self)@, error),
            result == Err::<MappingConfigProgress, MappingConfigError>(error),
    {
        self.last_error = Some(error);
        self.pending = None;
        self.phase = MappingConfigPhase::Faulted;
        Err(error)
    }
}

impl<const SMS: usize, const FMMUS: usize> Default for MappingConfigController<SMS, FMMUS> {
    fn default() -> (controller: Self)
        ensures
            controller@ == Self::spec_initial(),
    {
        MappingConfigController::new()
    }
}

} // verus!
