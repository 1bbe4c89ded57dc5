//! Distributed Clocks configuration and health monitoring.
//!
//! The controller follows the non-blocking DC setup sequence: stop SYNC
//! generation, grant EtherCAT register access, sample the local system
//! time, compute the first trigger, program the cycle registers and
//! activate SYNC0/SYNC1. Each step is one register action that the caller
//! schedules through the control request pool.
use vstd::prelude::*;
use crate::bytes::{get_le64, le64, read_u64_le, splice};
use crate::control::{
    acquire_outcome, ControlError, ControlRequestPool, RegisterOperation, RequestHandle,
    RequestState,
};
use crate::engine::RxDatagramConsumer;
use crate::mailbox::{next_nonzero, released_slot, saturating_add_u64};
use crate::plan::DatagramPlan;
use crate::registers::{
    fixed_address, pack_address, ESC_DC_CUC, ESC_DC_CYCLE0, ESC_DC_CYCLE1, ESC_DC_START0,
    ESC_DC_SYNC_ACTIVATION, ESC_DC_SYSTEM_TIME,
};
use crate::rx_index::RxMatch;
use crate::wire::{Command, DatagramHeader};

verus! {

pub const DC_SYNC_DELAY_NS: u64 = 100_000_000;
pub const DC_SYSTEM_TIME_LEN: usize = 8;
pub const DC_CYCLE_LEN: usize = 4;
pub const DC_ACTIVATION_LEN: usize = 1;
pub const DC_MAX_ACTION_PAYLOAD: usize = 8;

#[derive(Clone, Copy, Debug, PartialEq, Eq, Structural)]
pub enum DcSyncMode {
    Sync0,
    Sync0Sync1,
}

#[derive(Clone, Copy, Debug, PartialEq, Eq, Structural)]
pub enum DcError {
    Busy,
    NotStarted,
    NoPendingAction,
    InvalidConfiguration,
    ActionMismatch,
    GenerationMismatch,
    PayloadLengthMismatch,
    UnexpectedWorkingCounter,
    Timeout,
    SystemTimeOverflow,
    Control(ControlError),
}

#[derive(Clone, Copy, Debug, PartialEq, Eq, Structural)]
pub struct DcConfig {
    pub mode: DcSyncMode,
    pub activate: bool,
    pub cycle_time0_ns: u32,
    pub cycle_time1_ns: u32,
    pub shift_ns: i32,
    pub sync_delay_ns: u64,
    pub timeout_ns: u64,
    pub request_timeout_ns: u64,
}

impl DcConfig {
    pub open spec fn spec_sync0(cycle_time0_ns: u32, shift_ns: i32) -> DcConfig {
        DcConfig {
            mode: DcSyncMode::Sync0,
            activate: true,
            cycle_time0_ns,
            cycle_time1_ns: 0,
            shift_ns,
            sync_delay_ns: DC_SYNC_DELAY_NS,
            timeout_ns: 1_000_000_000,
            request_timeout_ns: 1_000_000,
        }
    }

    /// SYNC0 only, a 100 ms start delay, a one second configuration timeout
    /// and a one millisecond request timeout.
    pub fn sync0(cycle_time0_ns: u32, shift_ns: i32) -> (config: Self)
        ensures
            config == Self::spec_sync0(cycle_time0_ns, shift_ns),
    {
        DcConfig {
            mode: DcSyncMode::Sync0,
            activate: true,
            cycle_time0_ns,
            cycle_time1_ns: 0,
            shift_ns,
            sync_delay_ns: DC_SYNC_DELAY_NS,
            timeout_ns: 1_000_000_000,
            request_timeout_ns: 1_000_000,
        }
    }

    /// SYNC0 and SYNC1, with the same delays and timeouts as `sync0`.
    pub fn sync0_sync1(cycle_time0_ns: u32, cycle_time1_ns: u32, shift_ns: i32) -> (config: Self)
        ensures
            config == (DcConfig {
                mode: DcSyncMode::Sync0Sync1,
                cycle_time1_ns,
                ..Self::spec_sync0(cycle_time0_ns, shift_ns)
            }),
    {
        DcConfig {
            mode: DcSyncMode::Sync0Sync1,
            activate: true,
            cycle_time0_ns,
            cycle_time1_ns,
            shift_ns,
            sync_delay_ns: DC_SYNC_DELAY_NS,
            timeout_ns: 1_000_000_000,
            request_timeout_ns: 1_000_000,
        }
    }

    pub open spec fn spec_valid(&self) -> bool {
        self.cycle_time0_ns != 0 && self.timeout_ns != 0 && self.request_timeout_ns != 0
    }

    pub fn validate(&self) -> (result: Result<(), DcError>)
        ensures
            self.spec_valid() <==> result is Ok,
            result is Err ==> result == Err::<(), DcError>(DcError::InvalidConfiguration),
    {
        if self.cycle_time0_ns == 0 || self.timeout_ns == 0 || self.request_timeout_ns == 0 {
            return Err(DcError::InvalidConfiguration);
        }
        Ok(())
    }
}

#[derive(Clone, Copy, Debug, PartialEq, Eq, Structural)]
pub enum DcActionKind {
    DisableSync,
    GrantEthercatAccess,
    ReadSystemTime,
    WriteStartTime,
    WriteCycle0,
    WriteCycle1,
    ActivateSync,
}

#[derive(Clone, Copy, Debug, PartialEq, Eq)]
pub struct DcAction {
    pub token: u8,
    pub datagram_index: u8,
    pub generation: u16,
    pub station_address: u16,
    pub kind: DcActionKind,
    pub operation: RegisterOperation,
    pub address: u32,
    pub read_len: u16,
    pub write_payload: [u8; DC_MAX_ACTION_PAYLOAD],
    pub write_len: u8,
    pub deadline_ns: u64,
    pub expected_wkc: u16,
}

impl DcAction {
    pub open spec fn spec_datagram_len(&self) -> usize {
        if self.read_len > self.write_len {
            self.read_len as usize
        } else {
            self.write_len as usize
        }
    }

    /// The bytes the action writes.
    pub fn payload(&self) -> (payload: &[u8])
        requires
            self.write_len <= DC_MAX_ACTION_PAYLOAD,
        ensures
            payload@ == self.write_payload@.subrange(0, self.write_len as int),
    {
        let len = self.write_len as usize;
        let all: &[u8] = self.write_payload.as_slice();
        &all[0..len]
    }

    #[verifier::when_used_as_spec(spec_datagram_len)]
    pub fn datagram_len(&self) -> (len: usize)
        ensures
            len == self.spec_datagram_len(),
    {
        let read_len = self.read_len as usize;
        let write_len = self.write_len as usize;
        if read_len > write_len {
            read_len
        } else {
            write_len
        }
    }

    /// The length of the data the action reads back.
    pub fn response_len(&self) -> (len: usize)
        ensures
            len == self.read_len,
    {
        self.read_len as usize
    }
}

fn same_dc_action(a: &DcAction, b: &DcAction) -> (same: bool)
    ensures
        same == (*a == *b),
{
    if a.token != b.token || a.datagram_index != b.datagram_index || a.generation != b.generation
        || a.station_address != b.station_address || a.kind != b.kind || a.operation
        != b.operation || a.address != b.address || a.read_len != b.read_len || a.write_len
        != b.write_len || a.deadline_ns != b.deadline_ns || a.expected_wkc != b.expected_wkc {
        return false;
    }
    let mut i: usize = 0;
    while i < DC_MAX_ACTION_PAYLOAD
        invariant
            i <= DC_MAX_ACTION_PAYLOAD,
            forall|k: int| 0 <= k < i ==> a.write_payload@[k] == b.write_payload@[k],
        decreases DC_MAX_ACTION_PAYLOAD - i,
    {
        if a.write_payload[i] != b.write_payload[i] {
            return false;
        }
        i = i + 1;
    }
    assert(a.write_payload@ =~= b.write_payload@);
    proof {
        vstd::array::axiom_array_ext_equal(a.write_payload, b.write_payload);
    }
    true
}

#[derive(Clone, Copy, Debug, PartialEq, Eq, Structural)]
pub enum DcPhase {
    Idle,
    DisablingSync,
    GrantingEthercatAccess,
    ReadingSystemTime,
    WritingStartTime,
    WritingCycle0,
    WritingCycle1,
    ActivatingSync,
    Complete,
    Faulted,
}

#[derive(Clone, Copy, Debug, PartialEq, Eq, Structural)]
pub enum DcProgress {
    Advanced,
    Complete,
}

/// The SYNC period the first trigger is aligned to: the SYNC0 cycle, or
/// with SYNC1 the whole number of SYNC0 cycles just above the SYNC1 cycle.
pub open spec fn true_cycle_ns(config: DcConfig) -> int {
    match config.mode {
        DcSyncMode::Sync0 => config.cycle_time0_ns as int,
        DcSyncMode::Sync0Sync1 => (config.cycle_time1_ns / config.cycle_time0_ns + 1)
            * config.cycle_time0_ns,
    }
}

/// The first SYNC trigger: the next whole cycle after the system time plus
/// the start delay, moved by the shift; it must fit 64 bits.
pub open spec fn spec_first_trigger(config: DcConfig, system_time_ns: u64) -> Result<u64, DcError> {
    let cycle = true_cycle_ns(config);
    let base = system_time_ns + config.sync_delay_ns;
    let periods = base / cycle + 1;
    let trigger = periods * cycle + config.shift_ns;
    if base > u64::MAX || periods > u64::MAX || periods * cycle > u64::MAX {
        Err(DcError::SystemTimeOverflow)
    } else if !(0 <= trigger <= u64::MAX) {
        Err(DcError::SystemTimeOverflow)
    } else {
        Ok(trigger as u64)
    }
}

pub open spec fn le64_array(value: u64) -> [u8; DC_MAX_ACTION_PAYLOAD] {
    let b = le64(value as int);
    [b[0], b[1], b[2], b[3], b[4], b[5], b[6], b[7]]
}

pub open spec fn le32_array(value: u32) -> [u8; DC_MAX_ACTION_PAYLOAD] {
    [
        (value % 0x100) as u8,
        ((value / 0x100) % 0x100) as u8,
        ((value / 0x10000) % 0x100) as u8,
        ((value / 0x1000000) % 0x100) as u8,
        0u8,
        0u8,
        0u8,
        0u8,
    ]
}

pub open spec fn byte_array(value: u8) -> [u8; DC_MAX_ACTION_PAYLOAD] {
    [value, 0u8, 0u8, 0u8, 0u8, 0u8, 0u8, 0u8]
}

/// The SYNC activation byte: nothing when activation is off, SYNC0 (0x03)
/// or SYNC0 and SYNC1 (0x07).
pub open spec fn activation_value(config: DcConfig) -> u8 {
    if !config.activate {
        0
    } else {
        match config.mode {
            DcSyncMode::Sync0 => 0x03,
            DcSyncMode::Sync0Sync1 => 0x07,
        }
    }
}

/// The state of a DC controller as seen by its contracts.
#[derive(Clone, Copy)]
pub struct DcView {
    pub phase: DcPhase,
    pub config: DcConfig,
    pub generation: u16,
    pub station_address: u16,
    pub configuration_deadline_ns: u64,
    pub system_time_ns: u64,
    pub first_trigger_ns: u64,
    pub pending: Option<DcAction>,
    pub next_token: u8,
    pub next_datagram_index: u8,
    pub last_error: Option<DcError>,
}

pub open spec fn dc_fault(v: DcView, error: DcError) -> DcView {
    DcView { pending: None, phase: DcPhase::Faulted, last_error: Some(error), ..v }
}


/// The register action of a configuration phase: kind, register, read
/// length, written bytes and their count.
pub open spec fn dc_phase_step(v: DcView) -> (DcActionKind, u16, u16, [u8; DC_MAX_ACTION_PAYLOAD], u8) {
    match v.phase {
        DcPhase::DisablingSync => (DcActionKind::DisableSync, ESC_DC_SYNC_ACTIVATION, 0, byte_array(0), 1),
        DcPhase::GrantingEthercatAccess => (DcActionKind::GrantEthercatAccess, ESC_DC_CUC, 0, byte_array(0), 1),
        DcPhase::ReadingSystemTime => (DcActionKind::ReadSystemTime, ESC_DC_SYSTEM_TIME, 8, byte_array(0), 0),
        DcPhase::WritingStartTime => (DcActionKind::WriteStartTime, ESC_DC_START0, 0, le64_array(v.first_trigger_ns), 8),
        DcPhase::WritingCycle0 => (DcActionKind::WriteCycle0, ESC_DC_CYCLE0, 0, le32_array(v.config.cycle_time0_ns), 4),
        DcPhase::WritingCycle1 => (DcActionKind::WriteCycle1, ESC_DC_CYCLE1, 0, le32_array(v.config.cycle_time1_ns), 4),
        _ => (DcActionKind::ActivateSync, ESC_DC_SYNC_ACTIVATION, 0, byte_array(activation_value(v.config)), 1),
    }
}

pub open spec fn dc_phase_action(v: DcView, now_ns: u64) -> DcAction {
    let step = dc_phase_step(v);
    let deadline = saturating_add_u64(now_ns, v.config.request_timeout_ns);
    DcAction {
        token: v.next_token,
        datagram_index: v.next_datagram_index,
        generation: v.generation,
        station_address: v.station_address,
        kind: step.0,
        operation: if v.phase == DcPhase::ReadingSystemTime {
            RegisterOperation::Read
        } else {
            RegisterOperation::Write
        },
        address: pack_address(v.station_address as int, step.1 as int) as u32,
        read_len: step.2,
        write_payload: step.3,
        write_len: step.4,
        deadline_ns: if deadline < v.configuration_deadline_ns {
            deadline
        } else {
            v.configuration_deadline_ns
        },
        expected_wkc: 1,
    }
}

pub open spec fn spec_dc_start(v: DcView, config: DcConfig, station_address: u16, generation: u16, now_ns: u64) -> (DcView, Result<(), DcError>) {
    if !(v.phase == DcPhase::Idle || v.phase == DcPhase::Complete || v.phase == DcPhase::Faulted) {
        (v, Err(DcError::Busy))
    } else if !config.spec_valid() {
        (v, Err(DcError::InvalidConfiguration))
    } else {
        (
            DcView {
                phase: DcPhase::DisablingSync,
                config,
                station_address,
                generation,
                configuration_deadline_ns: saturating_add_u64(now_ns, config.timeout_ns),
                system_time_ns: 0,
                first_trigger_ns: 0,
                pending: None,
                next_token: 1,
                next_datagram_index: 1,
                last_error: None,
            },
            Ok(()),
        )
    }
}

pub open spec fn spec_dc_next_action(v: DcView, now_ns: u64) -> (DcView, Result<Option<DcAction>, DcError>) {
    if v.phase == DcPhase::Idle {
        (v, Err(DcError::NotStarted))
    } else if v.phase == DcPhase::Complete || v.phase == DcPhase::Faulted {
        (v, Ok(None))
    } else if v.pending is Some {
        (v, Ok(v.pending))
    } else if now_ns >= v.configuration_deadline_ns {
        (dc_fault(v, DcError::Timeout), Err(DcError::Timeout))
    } else {
        let action = dc_phase_action(v, now_ns);
        (
            DcView {
                pending: Some(action),
                next_token: next_nonzero(v.next_token),
                next_datagram_index: next_nonzero(v.next_datagram_index),
                ..v
            },
            Ok(Some(action)),
        )
    }
}

/// The controller and result after the response to `action`.
pub open spec fn spec_dc_accept(
    v: DcView,
    action: DcAction,
    generation: u16,
    payload: Seq<u8>,
    working_counter: u16,
    now_ns: u64,
) -> (DcView, Result<DcProgress, DcError>) {
    if v.pending != Some(action) {
        (dc_fault(v, DcError::ActionMismatch), Err(DcError::ActionMismatch))
    } else if action.generation != generation {
        (dc_fault(v, DcError::GenerationMismatch), Err(DcError::GenerationMismatch))
    } else if now_ns > action.deadline_ns {
        (dc_fault(v, DcError::Timeout), Err(DcError::Timeout))
    } else if working_counter != action.expected_wkc {
        (dc_fault(v, DcError::UnexpectedWorkingCounter), Err(DcError::UnexpectedWorkingCounter))
    } else if payload.len() != action.read_len {
        (dc_fault(v, DcError::PayloadLengthMismatch), Err(DcError::PayloadLengthMismatch))
    } else {
        let advanced = |phase: DcPhase| (DcView { phase, pending: None, ..v }, Ok::<DcProgress, DcError>(DcProgress::Advanced));
        match v.phase {
            DcPhase::DisablingSync => if v.config.activate {
                advanced(DcPhase::GrantingEthercatAccess)
            } else {
                (DcView { phase: DcPhase::Complete, pending: None, ..v }, Ok(DcProgress::Complete))
            },
            DcPhase::GrantingEthercatAccess => advanced(DcPhase::ReadingSystemTime),
            DcPhase::ReadingSystemTime => if payload.len() != DC_SYSTEM_TIME_LEN {
                (dc_fault(v, DcError::PayloadLengthMismatch), Err(DcError::PayloadLengthMismatch))
            } else {
                let sampled = DcView { system_time_ns: get_le64(payload, 0) as u64, ..v };
                match spec_first_trigger(v.config, sampled.system_time_ns) {
                    Err(e) => (dc_fault(sampled, e), Err(e)),
                    Ok(trigger) => (
                        DcView {
                            first_trigger_ns: trigger,
                            phase: DcPhase::WritingStartTime,
                            pending: None,
                            ..sampled
                        },
                        Ok(DcProgress::Advanced),
                    ),
                }
            },
            DcPhase::WritingStartTime => advanced(DcPhase::WritingCycle0),
            DcPhase::WritingCycle0 => advanced(
                if v.config.mode == DcSyncMode::Sync0Sync1 {
                    DcPhase::WritingCycle1
                } else {
                    DcPhase::ActivatingSync
                },
            ),
            DcPhase::WritingCycle1 => advanced(DcPhase::ActivatingSync),
            DcPhase::ActivatingSync => (
                DcView { phase: DcPhase::Complete, pending: None, ..v },
                Ok(DcProgress::Complete),
            ),
            _ => (dc_fault(v, DcError::NoPendingAction), Err(DcError::NoPendingAction)),
        }
    }
}

pub struct DcController {
    phase: DcPhase,
    config: DcConfig,
    generation: u16,
    station_address: u16,
    configuration_deadline_ns: u64,
    system_time_ns: u64,
    first_trigger_ns: u64,
    pending: Option<DcAction>,
    next_token: u8,
    next_datagram_index: u8,
    last_error: Option<DcError>,
}

impl View for DcController {
    type V = DcView;

    closed spec fn view(&self) -> DcView {
        DcView {
            phase: self.phase,
            config: self.config,
            generation: self.generation,
            station_address: self.station_address,
            configuration_deadline_ns: self.configuration_deadline_ns,
            system_time_ns: self.system_time_ns,
            first_trigger_ns: self.first_trigger_ns,
            pending: self.pending,
            next_token: self.next_token,
            next_datagram_index: self.next_datagram_index,
            last_error: self.last_error,
        }
    }
}

/// A started controller holds a valid configuration, and a pending action
/// writes at most eight bytes.
pub open spec fn dc_wf(v: DcView) -> bool {
    &&& (!(v.phase == DcPhase::Idle || v.phase == DcPhase::Complete || v.phase
        == DcPhase::Faulted) ==> v.config.spec_valid())
    &&& (v.pending matches Some(a) ==> a.write_len <= DC_MAX_ACTION_PAYLOAD)
    &&& (v.pending matches Some(a) ==> {
        let step = dc_phase_step(v);
        &&& !(v.phase == DcPhase::Idle || v.phase == DcPhase::Complete || v.phase == DcPhase::Faulted)
        &&& a.kind == step.0
        &&& a.read_len == step.2
        &&& a.write_len == step.4
        &&& a.generation == v.generation
        &&& a.station_address == v.station_address
        &&& a.expected_wkc == 1
    })
}

impl DcController {
    pub open spec fn wf(&self) -> bool {
        dc_wf(self@)
    }

    pub open spec fn spec_initial() -> DcView {
        DcView {
            phase: DcPhase::Idle,
            config: DcConfig::spec_sync0(0, 0),
            generation: 0,
            station_address: 0,
            configuration_deadline_ns: 0,
            system_time_ns: 0,
            first_trigger_ns: 0,
            pending: None,
            next_token: 1,
            next_datagram_index: 1,
            last_error: None,
        }
    }

    pub fn new() -> (controller: Self)
        ensures
            controller@ == Self::spec_initial(),
            controller.wf(),
    {
        DcController {
            phase: DcPhase::Idle,
            config: DcConfig::sync0(0, 0),
            generation: 0,
            station_address: 0,
            configuration_deadline_ns: 0,
            system_time_ns: 0,
            first_trigger_ns: 0,
            pending: None,
            next_token: 1,
            next_datagram_index: 1,
            last_error: None,
        }
    }

    pub fn phase(&self) -> (phase: DcPhase)
        ensures
            phase == self@.phase,
    {
        self.phase
    }

    pub fn pending(&self) -> (pending: Option<DcAction>)
        ensures
            pending == self@.pending,
    {
        self.pending
    }

    pub fn last_error(&self) -> (error: Option<DcError>)
        ensures
            error == self@.last_error,
    {
        self.last_error
    }

    pub fn system_time_ns(&self) -> (time: u64)
        ensures
            time == self@.system_time_ns,
    {
        self.system_time_ns
    }

    pub fn first_trigger_ns(&self) -> (time: u64)
        ensures
            time == self@.first_trigger_ns,
    {
        self.first_trigger_ns
    }

    pub fn start(&mut self, config: DcConfig, station_address: u16, generation: u16, now_ns: u64) -> (result:
        Result<(), DcError>)
        requires
            old(self).wf(),
        ensures
            final(self).wf(),
            (final(self)@, result) == spec_dc_start(old(self)@, config, station_address, generation, now_ns),
    {
        if !(self.phase == DcPhase::Idle || self.phase == DcPhase::Complete || self.phase
            == DcPhase::Faulted) {
            return Err(DcError::Busy);
        }
        match config.validate() {
            Ok(()) => {},
            Err(error) => return Err(error),
        }
        self.phase = DcPhase::DisablingSync;
        self.config = config;
        self.station_address = station_address;
        self.generation = generation;
        self.configuration_deadline_ns = now_ns.saturating_add(config.timeout_ns);
        self.system_time_ns = 0;
        self.first_trigger_ns = 0;
        self.pending = None;
        self.next_token = 1;
        self.next_datagram_index = 1;
        self.last_error = None;
        Ok(())
    }

    /// The action to perform now, if any; see `spec_dc_next_action`.
    pub fn next_action(&mut self, now_ns: u64) -> (result: Result<Option<DcAction>, DcError>)
        requires
            old(self).wf(),
        ensures
            final(self).wf(),
            (final(self)@, result) == spec_dc_next_action(old(self)@, now_ns),
    {
        if self.phase == DcPhase::Idle {
            return Err(DcError::NotStarted);
        }
        if self.phase == DcPhase::Complete || self.phase == DcPhase::Faulted {
            return Ok(None);
        }
        if let Some(action) = self.pending {
            return Ok(Some(action));
        }
        if now_ns >= self.configuration_deadline_ns {
            return self.fail_action(DcError::Timeout);
        }
        let (kind, register, read_len, payload, write_len) = match self.phase {
            DcPhase::DisablingSync => (
                DcActionKind::DisableSync,
                ESC_DC_SYNC_ACTIVATION,
                0u16,
                [0u8; DC_MAX_ACTION_PAYLOAD],
                1u8,
            ),
            DcPhase::GrantingEthercatAccess => (
                DcActionKind::GrantEthercatAccess,
                ESC_DC_CUC,
                0u16,
                [0u8; DC_MAX_ACTION_PAYLOAD],
                1u8,
            ),
            DcPhase::ReadingSystemTime => (
                DcActionKind::ReadSystemTime,
                ESC_DC_SYSTEM_TIME,
                8u16,
                [0u8; DC_MAX_ACTION_PAYLOAD],
                0u8,
            ),
            DcPhase::WritingStartTime => (
                DcActionKind::WriteStartTime,
                ESC_DC_START0,
                0u16,
                crate::bytes::le64_bytes(self.first_trigger_ns),
                8u8,
            ),
            DcPhase::WritingCycle0 => (
                DcActionKind::WriteCycle0,
                ESC_DC_CYCLE0,
                0u16,
                u32_payload(self.config.cycle_time0_ns),
                4u8,
            ),
            DcPhase::WritingCycle1 => (
                DcActionKind::WriteCycle1,
                ESC_DC_CYCLE1,
                0u16,
                u32_payload(self.config.cycle_time1_ns),
                4u8,
            ),
            _ => (
                DcActionKind::ActivateSync,
                ESC_DC_SYNC_ACTIVATION,
                0u16,
                [self.activation_value(), 0u8, 0u8, 0u8, 0u8, 0u8, 0u8, 0u8],
                1u8,
            ),
        };
        let deadline = now_ns.saturating_add(self.config.request_timeout_ns);
        let action = DcAction {
            token: self.next_token,
            datagram_index: self.next_datagram_index,
            generation: self.generation,
            station_address: self.station_address,
            kind,
            operation: if self.phase == DcPhase::ReadingSystemTime {
                RegisterOperation::Read
            } else {
                RegisterOperation::Write
            },
            address: fixed_address(self.station_address, register),
            read_len,
            write_payload: payload,
            write_len,
            deadline_ns: if deadline < self.configuration_deadline_ns {
                deadline
            } else {
                self.configuration_deadline_ns
            },
            expected_wkc: 1,
        };
        proof {
            if self.phase == DcPhase::WritingStartTime {
                vstd::array::axiom_array_ext_equal(payload, le64_array(self.first_trigger_ns));
            }
            assert(payload@ =~= dc_phase_step(old(self)@).3@);
            vstd::array::axiom_array_ext_equal(payload, dc_phase_step(old(self)@).3);
        }
        assert(action == dc_phase_action(old(self)@, now_ns));
        self.next_token = if self.next_token == u8::MAX {
            1
        } else {
            self.next_token + 1
        };
        self.next_datagram_index = if self.next_datagram_index == u8::MAX {
            1
        } else {
            self.next_datagram_index + 1
        };
        self.pending = Some(action);
        Ok(Some(action))
    }

    /// Queue the pending action as a control request in `pool`.
    pub fn enqueue_pending<const REQUESTS: usize>(&self, pool: &mut ControlRequestPool<REQUESTS>) -> (result:
        Result<RequestHandle, ControlError>)
        requires
            self.wf(),
            old(pool).wf(),
        ensures
            final(pool).wf(),
            self@.pending is None ==> result == Err::<RequestHandle, ControlError>(
                ControlError::InvalidState,
            ) && *final(pool) == *old(pool),
            self@.pending matches Some(action) ==> acquire_outcome(
                *old(pool),
                *final(pool),
                action.datagram_index,
                action.generation,
                action.address,
                action.operation,
                action.write_payload@.subrange(0, action.write_len as int),
                action.spec_datagram_len(),
                action.deadline_ns,
                result,
            ),
    {
        let action = match self.pending {
            Some(action) => action,
            None => return Err(ControlError::InvalidState),
        };
        pool.acquire_with_response_len(
            action.datagram_index,
            action.generation,
            action.address,
            action.operation,
            action.payload(),
            action.datagram_len(),
            action.deadline_ns,
        )
    }

    /// Offer the response to `action`; see `spec_dc_accept`.
    pub fn accept(
        &mut self,
        action: DcAction,
        generation: u16,
        payload: &[u8],
        working_counter: u16,
        now_ns: u64,
    ) -> (result: Result<DcProgress, DcError>)
        requires
            old(self).wf(),
        ensures
            final(self).wf(),
            (final(self)@, result) == spec_dc_accept(
                old(self)@,
                action,
                generation,
                payload@,
                working_counter,
                now_ns,
            ),
    {
        let matches = match &self.pending {
            Some(pending) => same_dc_action(pending, &action),
            None => false,
        };
        if !matches {
            return self.fail(DcError::ActionMismatch);
        }
        if action.generation != generation {
            return self.fail(DcError::GenerationMismatch);
        }
        if now_ns > action.deadline_ns {
            return self.fail(DcError::Timeout);
        }
        if working_counter != action.expected_wkc {
            return self.fail(DcError::UnexpectedWorkingCounter);
        }
        if payload.len() != action.response_len() {
            return self.fail(DcError::PayloadLengthMismatch);
        }
        let progress = match self.phase {
            DcPhase::DisablingSync => {
                if self.config.activate {
                    self.phase = DcPhase::GrantingEthercatAccess;
                    DcProgress::Advanced
                } else {
                    self.phase = DcPhase::Complete;
                    DcProgress::Complete
                }
            },
            DcPhase::GrantingEthercatAccess => {
                self.phase = DcPhase::ReadingSystemTime;
                DcProgress::Advanced
            },
            DcPhase::ReadingSystemTime => {
                if payload.len() != DC_SYSTEM_TIME_LEN {
                    return self.fail(DcError::PayloadLengthMismatch);
                }
                self.system_time_ns = read_u64_le(payload, 0);
                self.first_trigger_ns = match self.calculate_first_trigger() {
                    Ok(first_trigger_ns) => first_trigger_ns,
                    Err(error) => return self.fail(error),
                };
                self.phase = DcPhase::WritingStartTime;
                DcProgress::Advanced
            },
            DcPhase::WritingStartTime => {
                self.phase = DcPhase::WritingCycle0;
                DcProgress::Advanced
            },
            DcPhase::WritingCycle0 => {
                self.phase = if self.config.mode == DcSyncMode::Sync0Sync1 {
                    DcPhase::WritingCycle1
                } else {
                    DcPhase::ActivatingSync
                };
                DcProgress::Advanced
            },
            DcPhase::WritingCycle1 => {
                self.phase = DcPhase::ActivatingSync;
                DcProgress::Advanced
            },
            DcPhase::ActivatingSync => {
                self.phase = DcPhase::Complete;
                DcProgress::Complete
            },
            _ => {
                return self.fail(DcError::NoPendingAction);
            },
        };
        self.pending = None;
        Ok(progress)
    }

    /// Take the outcome of the control request behind `handle`, which
    /// carried the pending action, and release the request.
    pub fn accept_completed<const REQUESTS: usize>(
        &mut self,
        pool: &mut ControlRequestPool<REQUESTS>,
        handle: RequestHandle,
        now_ns: u64,
    ) -> (result: Result<DcProgress, DcError>)
        requires
            old(self).wf(),
            old(pool).wf(),
        ensures
            final(self).wf(),
            final(pool).wf(),
            ({
                let v = old(self)@;
                let i = handle.spec_index() as int;
                if v.pending is None {
                    (final(self)@, result) == (dc_fault(v, DcError::NoPendingAction), Err::<DcProgress, DcError>(DcError::NoPendingAction))
                        && *final(pool) == *old(pool)
                } else if !old(pool).is_live(i) {
                    let e = DcError::Control(ControlError::InvalidHandle);
                    (final(self)@, result) == (dc_fault(v, e), Err::<DcProgress, DcError>(e)) && *final(pool) == *old(pool)
                } else {
                    let action = v.pending->Some_0;
                    let request = old(pool).spec_requests()[i];
                    let len = action.spec_datagram_len();
                    if request.state == RequestState::Complete {
                        &&& released_slot(*old(pool), *final(pool), i)
                        &&& if !(request.datagram_index == action.datagram_index && request.generation
                            == action.generation && request.address == action.address
                            && request.response_length == len && request.length == len) {
                            (final(self)@, result) == (dc_fault(v, DcError::ActionMismatch), Err::<DcProgress, DcError>(DcError::ActionMismatch))
                        } else {
                            (final(self)@, result) == spec_dc_accept(
                                v,
                                action,
                                request.generation,
                                request.payload@.subrange(0, action.read_len as int),
                                request.actual_wkc,
                                now_ns,
                            )
                        }
                    } else if request.state == RequestState::Failed {
                        let e = DcError::Control(ControlError::InvalidState);
                        released_slot(*old(pool), *final(pool), i) && (final(self)@, result) == (dc_fault(v, e), Err::<DcProgress, DcError>(e))
                    } else {
                        result == Err::<DcProgress, DcError>(DcError::Control(ControlError::InvalidState))
                            && final(self)@ == v && *final(pool) == *old(pool)
                    }
                }
            }),
    {
        let action = match self.pending {
            Some(action) => action,
            None => return self.fail(DcError::NoPendingAction),
        };
        let (state, consistent, generation, actual_wkc, response) = match pool.get(handle) {
            Some(request) => {
                assert(pool.spec_requests()[handle.spec_index() as int].wf());
                let len = action.datagram_len();
                let consistent = request.datagram_index == action.datagram_index
                    && request.generation == action.generation && request.address == action.address
                    && request.response_length == len && request.length == len;
                let take = if consistent {
                    action.response_len()
                } else {
                    0
                };
                (
                    request.state,
                    consistent,
                    request.generation,
                    request.actual_wkc,
                    crate::bytes::copy_range(request.payload(), 0, take),
                )
            },
            None => return self.fail(DcError::Control(ControlError::InvalidHandle)),
        };
        if state == RequestState::Complete {
            if !consistent {
                let _ = pool.release(handle);
                return self.fail(DcError::ActionMismatch);
            }
            let progress = self.accept(action, generation, response.as_slice(), actual_wkc, now_ns);
            let release = pool.release(handle);
            match (progress, release) {
                (Ok(progress), Ok(())) => Ok(progress),
                (Ok(_), Err(error)) => self.fail(DcError::Control(error)),
                (Err(error), _) => Err(error),
            }
        } else if state == RequestState::Failed {
            let _ = pool.release(handle);
            self.fail(DcError::Control(ControlError::InvalidState))
        } else {
            Err(DcError::Control(ControlError::InvalidState))
        }
    }

    /// Give up on `action` once its deadline has passed.
    pub fn timeout(&mut self, action: DcAction, now_ns: u64) -> (result: Result<DcProgress, DcError>)
        requires
            old(self).wf(),
        ensures
            final(self).wf(),
            old(self)@.pending != Some(action) ==> (final(self)@, result) == (dc_fault(old(self)@, DcError::ActionMismatch), Err::<DcProgress, DcError>(DcError::ActionMismatch)),
            old(self)@.pending == Some(action) && now_ns < action.deadline_ns ==> result == Err::<DcProgress, DcError>(DcError::Timeout)
                && final(self)@ == old(self)@,
            old(self)@.pending == Some(action) && now_ns >= action.deadline_ns ==> (final(self)@, result) == (dc_fault(old(self)@, DcError::Timeout), Err::<DcProgress, DcError>(DcError::Timeout)),
    {
        let matches = match &self.pending {
            Some(pending) => same_dc_action(pending, &action),
            None => false,
        };
        if !matches {
            return self.fail(DcError::ActionMismatch);
        }
        if now_ns < action.deadline_ns {
            return Err(DcError::Timeout);
        }
        self.fail(DcError::Timeout)
    }

    fn activation_value(&self) -> (value: u8)
        ensures
            value == activation_value(self@.config),
    {
        if !self.config.activate {
            0
        } else {
            match self.config.mode {
                DcSyncMode::Sync0 => 0x03,
                DcSyncMode::Sync0Sync1 => 0x07,
            }
        }
    }

    fn true_cycle_ns(&self) -> (cycle: u64)
        requires
            self.config.cycle_time0_ns > 0,
        ensures
            cycle == true_cycle_ns(self.config),
            cycle > 0,
    {
        match self.config.mode {
            DcSyncMode::Sync0 => self.config.cycle_time0_ns as u64,
            DcSyncMode::Sync0Sync1 => {
                let cycle0 = self.config.cycle_time0_ns as u64;
                let cycle1 = self.config.cycle_time1_ns as u64;
                let periods = cycle1 / cycle0 + 1;
                assert(cycle0 <= periods * cycle0 <= cycle1 + cycle0) by (nonlinear_arith)
                    requires
                        periods == cycle1 / cycle0 + 1,
                        cycle0 > 0,
                ;
                periods * cycle0
            },
        }
    }

    fn calculate_first_trigger(&self) -> (result: Result<u64, DcError>)
        requires
            self.config.cycle_time0_ns > 0,
        ensures
            result == spec_first_trigger(self.config, self.system_time_ns),
    {
        let cycle_ns = self.true_cycle_ns();
        let base = match self.system_time_ns.checked_add(self.config.sync_delay_ns) {
            Some(base) => base,
            None => return Err(DcError::SystemTimeOverflow),
        };
        let periods = match (base / cycle_ns).checked_add(1) {
            Some(periods) => periods,
            None => return Err(DcError::SystemTimeOverflow),
        };
        let rounded = match periods.checked_mul(cycle_ns) {
            Some(rounded) => rounded,
            None => return Err(DcError::SystemTimeOverflow),
        };
        let trigger = rounded as i128 + self.config.shift_ns as i128;
        if !(0 <= trigger && trigger <= u64::MAX as i128) {
            return Err(DcError::SystemTimeOverflow);
        }
        Ok(trigger as u64)
    }

    fn fail_action(&mut self, error: DcError) -> (result: Result<Option<DcAction>, DcError>)
        requires
            old(self).wf(),
        ensures
            final(self).wf(),
            final(self)@ == dc_fault(old(self)@, error),
            result == Err::<Option<DcAction>, DcError>(error),
    {
        self.pending = None;
        self.phase = DcPhase::Faulted;
        self.last_error = Some(error);
        Err(error)
    }

    fn fail(&mut self, error: DcError) -> (result: Result<DcProgress, DcError>)
        requires
            old(self).wf(),
        ensures
            final(self).wf(),
            final(self)@ == dc_fault(old(self)@, error),
            result == Err::<DcProgress, DcError>(error),
    {
        self.pending = None;
        self.phase = DcPhase::Faulted;
        self.last_error = Some(error);
        Err(error)
    }
}

impl Default for DcController {
    fn default() -> (controller: Self)
        ensures
            controller@ == DcController::spec_initial(),
    {
        DcController::new()
    }
}

fn u32_payload(value: u32) -> (payload: [u8; DC_MAX_ACTION_PAYLOAD])
    ensures
        payload == le32_array(value),
{
    let payload = [
        (value % 0x100) as u8,
        ((value / 0x100) % 0x100) as u8,
        ((value / 0x10000) % 0x100) as u8,
        ((value / 0x1000000) % 0x100) as u8,
        0u8,
        0u8,
        0u8,
        0u8,
    ];
    proof {
        vstd::array::axiom_array_ext_equal(payload, le32_array(value));
    }
    payload
}


#[derive(Clone, Copy, Debug, PartialEq, Eq, Structural)]
pub enum DcLockState {
    Unknown,
    Locking,
    Locked,
    Degraded,
    Unlocked,
}

#[derive(Clone, Copy, Debug, PartialEq, Eq, Structural)]
pub struct DcSample {
    pub timestamp_ns: u64,
    pub reference_time_ns: u64,
    pub local_time_ns: u64,
    pub offset_ns: i64,
    pub jitter_ns: u64,
    pub within_limits: bool,
}

/// The state of a DC monitor as seen by its contracts.
#[derive(Clone, Copy)]
pub struct DcMonitorView {
    pub state: DcLockState,
    pub max_offset_ns: u64,
    pub max_jitter_ns: u64,
    pub lock_good_cycles: u16,
    pub unlock_bad_cycles: u16,
    pub good_cycles: u16,
    pub bad_cycles: u16,
    pub sample_count: u64,
    pub offset_ns: i64,
    pub jitter_ns: u64,
    pub last_sample_timestamp_ns: u64,
    pub previous_offset_ns: i64,
    pub has_previous: bool,
}

pub open spec fn abs_int(value: int) -> int {
    if value < 0 {
        -value
    } else {
        value
    }
}

/// `value` clamped into the `i64` range.
pub open spec fn clamp_i64(value: int) -> i64 {
    if value > i64::MAX {
        i64::MAX
    } else if value < i64::MIN {
        i64::MIN
    } else {
        value as i64
    }
}

pub open spec fn saturating_increment_u16(value: u16) -> u16 {
    if value == u16::MAX {
        value
    } else {
        (value + 1) as u16
    }
}

pub open spec fn saturating_increment_u64(value: u64) -> u64 {
    if value == u64::MAX {
        value
    } else {
        (value + 1) as u64
    }
}

/// One reference-clock sample: the offset of the local time from the
/// reference, its change since the previous sample (the jitter), and the
/// lock hysteresis: `lock_good_cycles` consecutive samples within both
/// limits lock, `unlock_bad_cycles` consecutive samples outside unlock.
pub open spec fn spec_observe(m: DcMonitorView, timestamp_ns: u64, reference_time_ns: u64, local_time_ns: u64) -> (DcMonitorView, DcSample) {
    let offset = clamp_i64(local_time_ns - reference_time_ns);
    let jitter = if m.has_previous {
        abs_int(offset - m.previous_offset_ns)
    } else {
        0
    };
    let within = abs_int(offset as int) <= m.max_offset_ns && jitter <= m.max_jitter_ns;
    let sampled = DcMonitorView {
        offset_ns: offset,
        jitter_ns: jitter as u64,
        last_sample_timestamp_ns: timestamp_ns,
        sample_count: saturating_increment_u64(m.sample_count),
        previous_offset_ns: offset,
        has_previous: true,
        ..m
    };
    let next = if within {
        let good = saturating_increment_u16(m.good_cycles);
        DcMonitorView {
            good_cycles: good,
            bad_cycles: 0,
            state: if good >= m.lock_good_cycles {
                DcLockState::Locked
            } else {
                DcLockState::Locking
            },
            ..sampled
        }
    } else {
        let bad = saturating_increment_u16(m.bad_cycles);
        DcMonitorView {
            bad_cycles: bad,
            good_cycles: 0,
            state: if bad >= m.unlock_bad_cycles {
                DcLockState::Unlocked
            } else {
                DcLockState::Degraded
            },
            ..sampled
        }
    };
    (
        next,
        DcSample {
            timestamp_ns,
            reference_time_ns,
            local_time_ns,
            offset_ns: offset,
            jitter_ns: jitter as u64,
            within_limits: within,
        },
    )
}

/// The monitor locks only on a sample within both limits that completes
/// `lock_good_cycles` consecutive good samples, and unlocks only on a
/// sample outside them that completes `unlock_bad_cycles` bad ones.
pub proof fn lemma_lock_hysteresis(m: DcMonitorView, timestamp_ns: u64, reference_time_ns: u64, local_time_ns: u64)
    ensures
        ({
            let (next, sample) = spec_observe(m, timestamp_ns, reference_time_ns, local_time_ns);
            &&& next.state == DcLockState::Locked ==> sample.within_limits && next.good_cycles
                >= m.lock_good_cycles && next.bad_cycles == 0
            &&& next.state == DcLockState::Unlocked ==> !sample.within_limits && next.bad_cycles
                >= m.unlock_bad_cycles && next.good_cycles == 0
            &&& sample.within_limits ==> (next.state == DcLockState::Locked || next.state
                == DcLockState::Locking)
            &&& !sample.within_limits ==> (next.state == DcLockState::Unlocked || next.state
                == DcLockState::Degraded)
        }),
{
}

pub struct DcMonitor {
    state: DcLockState,
    max_offset_ns: u64,
    max_jitter_ns: u64,
    lock_good_cycles: u16,
    unlock_bad_cycles: u16,
    good_cycles: u16,
    bad_cycles: u16,
    sample_count: u64,
    offset_ns: i64,
    jitter_ns: u64,
    last_sample_timestamp_ns: u64,
    previous_offset_ns: i64,
    has_previous: bool,
}

impl View for DcMonitor {
    type V = DcMonitorView;

    closed spec fn view(&self) -> DcMonitorView {
        DcMonitorView {
            state: self.state,
            max_offset_ns: self.max_offset_ns,
            max_jitter_ns: self.max_jitter_ns,
            lock_good_cycles: self.lock_good_cycles,
            unlock_bad_cycles: self.unlock_bad_cycles,
            good_cycles: self.good_cycles,
            bad_cycles: self.bad_cycles,
            sample_count: self.sample_count,
            offset_ns: self.offset_ns,
            jitter_ns: self.jitter_ns,
            last_sample_timestamp_ns: self.last_sample_timestamp_ns,
            previous_offset_ns: self.previous_offset_ns,
            has_previous: self.has_previous,
        }
    }
}

/// The monitor with its samples forgotten.
pub open spec fn monitor_reset(m: DcMonitorView) -> DcMonitorView {
    DcMonitorView {
        state: DcLockState::Unknown,
        good_cycles: 0,
        bad_cycles: 0,
        sample_count: 0,
        offset_ns: 0,
        jitter_ns: 0,
        last_sample_timestamp_ns: 0,
        previous_offset_ns: 0,
        has_previous: false,
        ..m
    }
}

impl DcMonitor {
    /// A monitor with the given limits; a zero cycle count is taken as one.
    pub fn new(max_offset_ns: u64, max_jitter_ns: u64, lock_good_cycles: u16, unlock_bad_cycles: u16) -> (monitor: Self)
        ensures
            monitor@ == monitor_reset(DcMonitorView {
                state: DcLockState::Unknown,
                max_offset_ns,
                max_jitter_ns,
                lock_good_cycles: if lock_good_cycles == 0 { 1 } else { lock_good_cycles },
                unlock_bad_cycles: if unlock_bad_cycles == 0 { 1 } else { unlock_bad_cycles },
                good_cycles: 0,
                bad_cycles: 0,
                sample_count: 0,
                offset_ns: 0,
                jitter_ns: 0,
                last_sample_timestamp_ns: 0,
                previous_offset_ns: 0,
                has_previous: false,
            }),
    {
        DcMonitor {
            state: DcLockState::Unknown,
            max_offset_ns,
            max_jitter_ns,
            lock_good_cycles: if lock_good_cycles == 0 {
                1
            } else {
                lock_good_cycles
            },
            unlock_bad_cycles: if unlock_bad_cycles == 0 {
                1
            } else {
                unlock_bad_cycles
            },
            good_cycles: 0,
            bad_cycles: 0,
            sample_count: 0,
            offset_ns: 0,
            jitter_ns: 0,
            last_sample_timestamp_ns: 0,
            previous_offset_ns: 0,
            has_previous: false,
        }
    }

    pub fn state(&self) -> (state: DcLockState)
        ensures
            state == self@.state,
    {
        self.state
    }

    pub fn is_locked(&self) -> (locked: bool)
        ensures
            locked == (self@.state == DcLockState::Locked),
    {
        self.state == DcLockState::Locked
    }

    pub fn offset_ns(&self) -> (offset: i64)
        ensures
            offset == self@.offset_ns,
    {
        self.offset_ns
    }

    pub fn jitter_ns(&self) -> (jitter: u64)
        ensures
            jitter == self@.jitter_ns,
    {
        self.jitter_ns
    }

    pub fn good_cycles(&self) -> (count: u16)
        ensures
            count == self@.good_cycles,
    {
        self.good_cycles
    }

    pub fn bad_cycles(&self) -> (count: u16)
        ensures
            count == self@.bad_cycles,
    {
        self.bad_cycles
    }

    pub fn sample_count(&self) -> (count: u64)
        ensures
            count == self@.sample_count,
    {
        self.sample_count
    }

    pub fn last_sample_timestamp_ns(&self) -> (timestamp: u64)
        ensures
            timestamp == self@.last_sample_timestamp_ns,
    {
        self.last_sample_timestamp_ns
    }

    /// Take one sample; see `spec_observe`.
    pub fn observe(&mut self, timestamp_ns: u64, reference_time_ns: u64, local_time_ns: u64) -> (sample: DcSample)
        ensures
            (final(self)@, sample) == spec_observe(old(self)@, timestamp_ns, reference_time_ns, local_time_ns),
    {
        let offset_ns = saturating_i128_to_i64(local_time_ns as i128 - reference_time_ns as i128);
        let jitter_ns = if self.has_previous {
            absolute_difference(offset_ns, self.previous_offset_ns)
        } else {
            0
        };
        let within_limits = absolute_i64(offset_ns) <= self.max_offset_ns && jitter_ns
            <= self.max_jitter_ns;
        self.offset_ns = offset_ns;
        self.jitter_ns = jitter_ns;
        self.last_sample_timestamp_ns = timestamp_ns;
        self.sample_count = self.sample_count.saturating_add(1);
        self.previous_offset_ns = offset_ns;
        self.has_previous = true;
        if within_limits {
            self.good_cycles = self.good_cycles.saturating_add(1);
            self.bad_cycles = 0;
            if self.good_cycles >= self.lock_good_cycles {
                self.state = DcLockState::Locked;
            } else {
                self.state = DcLockState::Locking;
            }
        } else {
            self.bad_cycles = self.bad_cycles.saturating_add(1);
            self.good_cycles = 0;
            self.state = if self.bad_cycles >= self.unlock_bad_cycles {
                DcLockState::Unlocked
            } else {
                DcLockState::Degraded
            };
        }
        DcSample {
            timestamp_ns,
            reference_time_ns,
            local_time_ns,
            offset_ns,
            jitter_ns,
            within_limits,
        }
    }

    /// Forget all samples; the limits stay.
    pub fn reset(&mut self)
        ensures
            final(self)@ == monitor_reset(old(self)@),
    {
        self.state = DcLockState::Unknown;
        self.good_cycles = 0;
        self.bad_cycles = 0;
        self.sample_count = 0;
        self.offset_ns = 0;
        self.jitter_ns = 0;
        self.last_sample_timestamp_ns = 0;
        self.previous_offset_ns = 0;
        self.has_previous = false;
    }
}

impl Default for DcMonitor {
    /// A 1 us offset limit, a 500 ns jitter limit and three-cycle hysteresis.
    fn default() -> (monitor: Self)
        ensures
            monitor@.max_offset_ns == 1_000 && monitor@.max_jitter_ns == 500
                && monitor@.lock_good_cycles == 3 && monitor@.unlock_bad_cycles == 3
                && monitor@ == monitor_reset(monitor@),
    {
        DcMonitor::new(1_000, 500, 3, 3)
    }
}

fn absolute_i64(value: i64) -> (magnitude: u64)
    ensures
        magnitude == abs_int(value as int),
{
    if value < 0 {
        (-(value as i128)) as u64
    } else {
        value as u64
    }
}

fn absolute_difference(left: i64, right: i64) -> (magnitude: u64)
    ensures
        magnitude == abs_int(left - right),
{
    let difference = left as i128 - right as i128;
    if difference < 0 {
        (-difference) as u64
    } else {
        difference as u64
    }
}

fn saturating_i128_to_i64(value: i128) -> (clamped: i64)
    ensures
        clamped == clamp_i64(value as int),
{
    if value > i64::MAX as i128 {
        i64::MAX
    } else if value < i64::MIN as i128 {
        i64::MIN
    } else {
        value as i64
    }
}

#[derive(Clone, Copy, Debug, PartialEq, Eq, Structural)]
pub struct DcCyclicConfig {
    pub reference_station: u16,
    pub datagram_index: u8,
    pub payload_offset: usize,
    pub expected_wkc: u16,
}

impl DcCyclicConfig {
    pub fn new(reference_station: u16, datagram_index: u8, payload_offset: usize) -> (config: Self)
        ensures
            config == (DcCyclicConfig { reference_station, datagram_index, payload_offset, expected_wkc: 1 }),
    {
        DcCyclicConfig { reference_station, datagram_index, payload_offset, expected_wkc: 1 }
    }

    /// The FRMW datagram that carries the application time to the reference
    /// clock and its system time back.
    pub open spec fn spec_datagram_plan(&self) -> DatagramPlan {
        DatagramPlan {
            command: Command::Frmw,
            index: self.datagram_index,
            address: pack_address(self.reference_station as int, ESC_DC_SYSTEM_TIME as int) as u32,
            payload_offset: self.payload_offset,
            payload_len: DC_SYSTEM_TIME_LEN,
            expected_wkc: self.expected_wkc,
        }
    }

    pub fn datagram_plan(&self) -> (plan: DatagramPlan)
        ensures
            plan == self.spec_datagram_plan(),
    {
        DatagramPlan {
            command: Command::Frmw,
            index: self.datagram_index,
            address: fixed_address(self.reference_station, ESC_DC_SYSTEM_TIME),
            payload_offset: self.payload_offset,
            payload_len: DC_SYSTEM_TIME_LEN,
            expected_wkc: self.expected_wkc,
        }
    }
}

#[derive(Clone, Copy, Debug, PartialEq, Eq, Structural)]
pub enum DcCyclicError {
    Busy,
    InvalidConfiguration,
    ProcessImageOutOfBounds,
    ApplicationTimeRegressed,
    UnexpectedDatagram,
    GenerationMismatch,
    PayloadLengthMismatch,
    WorkingCounterMismatch,
}

#[derive(Clone, Copy, Debug, PartialEq, Eq, Structural)]
struct DcCyclicPending {
    generation: u16,
    application_time_ns: u64,
}

/// The state of a cyclic DC slot as seen by its contracts; `pending` is the
/// generation and application time in flight.
#[derive(Clone, Copy)]
pub struct DcCyclicView {
    pub config: DcCyclicConfig,
    pub monitor: DcMonitorView,
    pub pending: Option<(u16, u64)>,
    pub has_last_application_time: bool,
    pub last_application_time_ns: u64,
    pub last_reference_time_ns: u64,
    pub last_sync_cycle: u64,
    pub sync_count: u64,
    pub unlock_count: u64,
    pub last_error: Option<DcCyclicError>,
}

pub open spec fn cyclic_fault(v: DcCyclicView, error: DcCyclicError) -> DcCyclicView {
    DcCyclicView { pending: None, last_error: Some(error), ..v }
}

/// The slot and result after staging `application_time_ns`: one generation
/// in flight at a time, monotonic application time, and the eight-byte
/// field inside the process image.
pub open spec fn spec_prepare(v: DcCyclicView, generation: u16, application_time_ns: u64, image_len: int) -> (DcCyclicView, Result<(), DcCyclicError>) {
    if v.config.expected_wkc == 0 {
        (cyclic_fault(v, DcCyclicError::InvalidConfiguration), Err(DcCyclicError::InvalidConfiguration))
    } else if v.pending is Some {
        (cyclic_fault(v, DcCyclicError::Busy), Err(DcCyclicError::Busy))
    } else if v.has_last_application_time && application_time_ns < v.last_application_time_ns {
        (cyclic_fault(v, DcCyclicError::ApplicationTimeRegressed), Err(DcCyclicError::ApplicationTimeRegressed))
    } else if v.config.payload_offset + DC_SYSTEM_TIME_LEN > image_len {
        (cyclic_fault(v, DcCyclicError::ProcessImageOutOfBounds), Err(DcCyclicError::ProcessImageOutOfBounds))
    } else {
        (
            DcCyclicView {
                pending: Some((generation, application_time_ns)),
                last_application_time_ns: application_time_ns,
                has_last_application_time: true,
                last_error: None,
                ..v
            },
            Ok(()),
        )
    }
}

/// The slot and result after the FRMW response: it must be this slot's
/// datagram of the pending generation, with the expected working counter
/// and eight bytes of reference time, which the monitor then samples.
pub open spec fn spec_cyclic_complete(
    v: DcCyclicView,
    cycle: u64,
    received_at_ns: u64,
    completion: RxMatch,
    header: DatagramHeader,
    payload: Seq<u8>,
) -> (DcCyclicView, Result<(), DcCyclicError>) {
    let plan = v.config.spec_datagram_plan();
    if v.pending is None {
        (cyclic_fault(v, DcCyclicError::Busy), Err(DcCyclicError::Busy))
    } else if header.index != plan.index || header.command != plan.command || header.address != plan.address {
        (cyclic_fault(v, DcCyclicError::UnexpectedDatagram), Err(DcCyclicError::UnexpectedDatagram))
    } else if completion.generation != v.pending->Some_0.0 {
        (cyclic_fault(v, DcCyclicError::GenerationMismatch), Err(DcCyclicError::GenerationMismatch))
    } else if completion.working_counter != v.config.expected_wkc {
        (cyclic_fault(v, DcCyclicError::WorkingCounterMismatch), Err(DcCyclicError::WorkingCounterMismatch))
    } else if header.length != DC_SYSTEM_TIME_LEN || payload.len() != DC_SYSTEM_TIME_LEN {
        (cyclic_fault(v, DcCyclicError::PayloadLengthMismatch), Err(DcCyclicError::PayloadLengthMismatch))
    } else {
        let reference = get_le64(payload, 0) as u64;
        let monitor = spec_observe(v.monitor, received_at_ns, reference, v.pending->Some_0.1).0;
        (
            DcCyclicView {
                monitor,
                unlock_count: if monitor.state == DcLockState::Unlocked && v.monitor.state
                    != DcLockState::Unlocked {
                    saturating_increment_u64(v.unlock_count)
                } else {
                    v.unlock_count
                },
                last_reference_time_ns: reference,
                last_sync_cycle: cycle,
                sync_count: saturating_increment_u64(v.sync_count),
                pending: None,
                last_error: None,
                ..v
            },
            Ok(()),
        )
    }
}

/// The cyclic reference-clock synchronisation slot of a frame plan.
pub struct DcCyclicSync {
    config: DcCyclicConfig,
    monitor: DcMonitor,
    pending: Option<DcCyclicPending>,
    has_last_application_time: bool,
    last_application_time_ns: u64,
    last_reference_time_ns: u64,
    last_sync_cycle: u64,
    sync_count: u64,
    unlock_count: u64,
    last_error: Option<DcCyclicError>,
}

impl View for DcCyclicSync {
    type V = DcCyclicView;

    closed spec fn view(&self) -> DcCyclicView {
        DcCyclicView {
            config: self.config,
            monitor: self.monitor@,
            pending: match self.pending {
                Some(p) => Some((p.generation, p.application_time_ns)),
                None => None,
            },
            has_last_application_time: self.has_last_application_time,
            last_application_time_ns: self.last_application_time_ns,
            last_reference_time_ns: self.last_reference_time_ns,
            last_sync_cycle: self.last_sync_cycle,
            sync_count: self.sync_count,
            unlock_count: self.unlock_count,
            last_error: self.last_error,
        }
    }
}

impl DcCyclicSync {
    pub fn new(config: DcCyclicConfig, monitor: DcMonitor) -> (sync: Self)
        ensures
            sync@ == (DcCyclicView {
                config,
                monitor: monitor@,
                pending: None,
                has_last_application_time: false,
                last_application_time_ns: 0,
                last_reference_time_ns: 0,
                last_sync_cycle: 0,
                sync_count: 0,
                unlock_count: 0,
                last_error: None,
            }),
    {
        DcCyclicSync {
            config,
            monitor,
            pending: None,
            has_last_application_time: false,
            last_application_time_ns: 0,
            last_reference_time_ns: 0,
            last_sync_cycle: 0,
            sync_count: 0,
            unlock_count: 0,
            last_error: None,
        }
    }

    pub fn config(&self) -> (config: DcCyclicConfig)
        ensures
            config == self@.config,
    {
        self.config
    }

    pub fn datagram_plan(&self) -> (plan: DatagramPlan)
        ensures
            plan == self@.config.spec_datagram_plan(),
    {
        self.config.datagram_plan()
    }

    pub fn pending_generation(&self) -> (generation: Option<u16>)
        ensures
            generation == match self@.pending {
                Some(p) => Some(p.0),
                None => None::<u16>,
            },
    {
        match self.pending {
            Some(pending) => Some(pending.generation),
            None => None,
        }
    }

    pub fn monitor(&self) -> (monitor: &DcMonitor)
        ensures
            monitor@ == self@.monitor,
    {
        &self.monitor
    }

    pub fn monitor_mut(&mut self) -> (monitor: &mut DcMonitor)
        ensures
            monitor@ == old(self)@.monitor,
            final(self)@ == (DcCyclicView { monitor: final(monitor)@, ..old(self)@ }),
    {
        &mut self.monitor
    }

    pub fn last_application_time_ns(&self) -> (time: u64)
        ensures
            time == self@.last_application_time_ns,
    {
        self.last_application_time_ns
    }

    pub fn last_reference_time_ns(&self) -> (time: u64)
        ensures
            time == self@.last_reference_time_ns,
    {
        self.last_reference_time_ns
    }

    pub fn last_sync_cycle(&self) -> (cycle: u64)
        ensures
            cycle == self@.last_sync_cycle,
    {
        self.last_sync_cycle
    }

    pub fn sync_count(&self) -> (count: u64)
        ensures
            count == self@.sync_count,
    {
        self.sync_count
    }

    pub fn unlock_count(&self) -> (count: u64)
        ensures
            count == self@.unlock_count,
    {
        self.unlock_count
    }

    pub fn last_error(&self) -> (error: Option<DcCyclicError>)
        ensures
            error == self@.last_error,
    {
        self.last_error
    }

    /// Stage the application time in this slot's field of the process
    /// image; see `spec_prepare`.
    pub fn prepare(&mut self, generation: u16, application_time_ns: u64, process_image: &mut [u8]) -> (result: Result<(), DcCyclicError>)
        ensures
            (final(self)@, result) == spec_prepare(old(self)@, generation, application_time_ns, old(process_image)@.len() as int),
            result is Ok ==> final(process_image)@ == splice(old(process_image)@, old(self)@.config.payload_offset as int, le64(application_time_ns as int)),
            result is Err ==> final(process_image)@ == old(process_image)@,
    {
        let image_len = process_image.len();
        if self.config.expected_wkc == 0 {
            return self.fail(DcCyclicError::InvalidConfiguration);
        }
        if self.pending.is_some() {
            return self.fail(DcCyclicError::Busy);
        }
        if self.has_last_application_time && application_time_ns < self.last_application_time_ns {
            return self.fail(DcCyclicError::ApplicationTimeRegressed);
        }
        let end = match self.config.payload_offset.checked_add(DC_SYSTEM_TIME_LEN) {
            Some(end) => end,
            None => return self.fail(DcCyclicError::ProcessImageOutOfBounds),
        };
        if end > image_len {
            return self.fail(DcCyclicError::ProcessImageOutOfBounds);
        }
        let bytes = crate::bytes::le64_bytes(application_time_ns);
        crate::bytes::write_bytes(process_image, self.config.payload_offset, bytes.as_slice());
        self.pending = Some(DcCyclicPending { generation, application_time_ns });
        self.last_application_time_ns = application_time_ns;
        self.has_last_application_time = true;
        self.last_error = None;
        Ok(())
    }

    /// Take the FRMW response; see `spec_cyclic_complete`.
    pub fn complete(
        &mut self,
        cycle: u64,
        received_at_ns: u64,
        completion: RxMatch,
        header: DatagramHeader,
        payload: &[u8],
    ) -> (result: Result<(), DcCyclicError>)
        ensures
            (final(self)@, result) == spec_cyclic_complete(old(self)@, cycle, received_at_ns, completion, header, payload@),
    {
        let pending = match self.pending {
            Some(pending) => pending,
            None => return self.fail(DcCyclicError::Busy),
        };
        let expected = self.config.datagram_plan();
        if header.index != expected.index || header.command != expected.command || header.address
            != expected.address {
            return self.fail(DcCyclicError::UnexpectedDatagram);
        }
        if completion.generation != pending.generation {
            return self.fail(DcCyclicError::GenerationMismatch);
        }
        if completion.working_counter != self.config.expected_wkc {
            return self.fail(DcCyclicError::WorkingCounterMismatch);
        }
        if header.length as usize != DC_SYSTEM_TIME_LEN || payload.len() != DC_SYSTEM_TIME_LEN {
            return self.fail(DcCyclicError::PayloadLengthMismatch);
        }
        let previous_state = self.monitor.state();
        let reference_time_ns = read_u64_le(payload, 0);
        let _ = self.monitor.observe(received_at_ns, reference_time_ns, pending.application_time_ns);
        if self.monitor.state() == DcLockState::Unlocked && previous_state != DcLockState::Unlocked {
            self.unlock_count = self.unlock_count.saturating_add(1);
        }
        self.last_reference_time_ns = reference_time_ns;
        self.last_sync_cycle = cycle;
        self.sync_count = self.sync_count.saturating_add(1);
        self.pending = None;
        self.last_error = None;
        Ok(())
    }

    fn fail(&mut self, error: DcCyclicError) -> (result: Result<(), DcCyclicError>)
        ensures
            final(self)@ == cyclic_fault(old(self)@, error),
            result == Err::<(), DcCyclicError>(error),
    {
        self.pending = None;
        self.last_error = Some(error);
        Err(error)
    }
}

impl RxDatagramConsumer for DcCyclicSync {
    open spec fn consumer_ready(&self) -> bool {
        true
    }

    /// Take datagrams with this slot's index; they are consumed when they
    /// complete the pending synchronisation.
    fn accept(
        &mut self,
        cycle: u64,
        received_at_ns: u64,
        completion: RxMatch,
        header: DatagramHeader,
        payload: &[u8],
    ) -> (accepted: bool)
        ensures
            header.index != old(self)@.config.datagram_index ==> !accepted && final(self)@ == old(self)@,
            header.index == old(self)@.config.datagram_index ==> {
                let (next, result) = spec_cyclic_complete(old(self)@, cycle, received_at_ns, completion, header, payload@);
                final(self)@ == next && accepted == result is Ok
            },
    {
        if header.index != self.config.datagram_index {
            return false;
        }
        self.complete(cycle, received_at_ns, completion, header, payload).is_ok()
    }
}


/// The SYNC period is positive for a configuration with a SYNC0 cycle.
pub proof fn lemma_true_cycle_positive(config: DcConfig)
    requires
        config.cycle_time0_ns > 0,
    ensures
        true_cycle_ns(config) >= config.cycle_time0_ns,
{
    if config.mode == DcSyncMode::Sync0Sync1 {
        let k = config.cycle_time1_ns / config.cycle_time0_ns;
        let c0 = config.cycle_time0_ns as int;
        assert((k + 1) * c0 >= c0) by (nonlinear_arith)
            requires
                k >= 0,
                c0 > 0,
        ;
    }
}

/// The first SYNC trigger less the configured shift is a whole number of
/// SYNC periods, and it is the first such time strictly after the system
/// time plus the start delay.
pub proof fn lemma_first_trigger_aligned(config: DcConfig, system_time_ns: u64)
    requires
        config.cycle_time0_ns > 0,
        spec_first_trigger(config, system_time_ns) is Ok,
    ensures
        ({
            let trigger = spec_first_trigger(config, system_time_ns)->Ok_0;
            let cycle = true_cycle_ns(config);
            let aligned = trigger - config.shift_ns;
            let earliest = system_time_ns + config.sync_delay_ns;
            &&& cycle > 0
            &&& aligned % cycle == 0
            &&& earliest < aligned <= earliest + cycle
        }),
{
    lemma_true_cycle_positive(config);
    let cycle = true_cycle_ns(config);
    let base = system_time_ns + config.sync_delay_ns;
    let q = base / cycle;
    let periods = q + 1;
    let aligned = periods * cycle;
    assert(base == cycle * q + base % cycle && 0 <= base % cycle < cycle) by {
        vstd::arithmetic::div_mod::lemma_fundamental_div_mod(base, cycle);
    }
    assert(aligned == cycle * q + cycle) by (nonlinear_arith)
        requires
            aligned == periods * cycle,
            periods == q + 1,
    ;
    assert(aligned % cycle == 0) by {
        vstd::arithmetic::div_mod::lemma_mod_multiples_basic(periods, cycle);
    }
    assert(spec_first_trigger(config, system_time_ns)->Ok_0 - config.shift_ns == aligned);
}

/// Moving the shift moves the first trigger by exactly as much: two
/// configurations that differ only in their shift give triggers that differ
/// by the difference of the shifts.
pub proof fn lemma_first_trigger_follows_shift(config: DcConfig, shift_ns: i32, system_time_ns: u64)
    requires
        spec_first_trigger(config, system_time_ns) is Ok,
        spec_first_trigger(DcConfig { shift_ns, ..config }, system_time_ns) is Ok,
    ensures
        spec_first_trigger(DcConfig { shift_ns, ..config }, system_time_ns)->Ok_0 - spec_first_trigger(config,
            system_time_ns)->Ok_0 == shift_ns - config.shift_ns,
{
    assert(true_cycle_ns(DcConfig { shift_ns, ..config }) == true_cycle_ns(config));
}

/// After the system time is read, the controller's first trigger less its
/// shift is the first whole SYNC period past that time plus the start
/// delay, and the start time written next is that trigger.
pub proof fn lemma_read_system_time_sets_aligned_trigger(
    v: DcView,
    action: DcAction,
    generation: u16,
    payload: Seq<u8>,
    working_counter: u16,
    now_ns: u64,
)
    requires
        dc_wf(v),
        v.phase == DcPhase::ReadingSystemTime,
        spec_dc_accept(v, action, generation, payload, working_counter, now_ns).1 is Ok,
    ensures
        ({
            let after = spec_dc_accept(v, action, generation, payload, working_counter, now_ns).0;
            let cycle = true_cycle_ns(after.config);
            let aligned = after.first_trigger_ns - after.config.shift_ns;
            let earliest = after.system_time_ns + after.config.sync_delay_ns;
            &&& after.phase == DcPhase::WritingStartTime
            &&& after.config == v.config
            &&& aligned % cycle == 0
            &&& earliest < aligned <= earliest + cycle
        }),
{
    let after = spec_dc_accept(v, action, generation, payload, working_counter, now_ns).0;
    lemma_first_trigger_aligned(v.config, after.system_time_ns);
}

} // verus!
