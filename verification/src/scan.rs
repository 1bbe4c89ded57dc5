//! Bounded, caller-driven EtherCAT online scan.
//!
//! The scanner only produces the next bounded register request and consumes
//! a completed response. Transport submission, RX index arming and
//! scheduling stay with the master and port, so a scan cannot block the PDO
//! path.
use vstd::prelude::*;
use crate::bytes::get_le16;
use crate::control::{acquire_outcome, ControlError, ControlRequestPool, RegisterOperation, RequestHandle};
use crate::mailbox::{next_nonzero, saturating_add_u64};
use crate::registers::{
    auto_increment_address, auto_increment_word, fixed_address, pack_address, AL_STATUS_WITH_CODE_LEN,
    BASIC_ESC_INFO_LEN, ESC_AL_STATUS, ESC_STATION_ADDRESS, ESC_TYPE,
};
use crate::slave::{AlStatus, EthercatState};

verus! {

pub const SCAN_PAYLOAD_LEN: usize = 2;

#[derive(Clone, Copy, Debug, PartialEq, Eq, Structural)]
pub enum ScanPhase {
    Idle,
    Probing,
    ReadingBasicInfo,
    AssigningStationAddress,
    ReadingAlStatus,
    Complete,
    Faulted,
}

#[derive(Clone, Copy, Debug, PartialEq, Eq, Structural)]
pub enum ScanError {
    Busy,
    NotStarted,
    NoPendingAction,
    TokenMismatch,
    GenerationMismatch,
    PayloadLengthMismatch,
    UnexpectedWorkingCounter,
    Timeout,
    CapacityExceeded,
    InvalidResponse,
}

#[derive(Clone, Copy, Debug, PartialEq, Eq, Structural)]
pub enum ScanProgress {
    Advanced,
    DeviceDiscovered(usize),
    Complete,
}

#[derive(Clone, Copy, Debug, PartialEq, Eq)]
pub struct ScanAction {
    pub token: u8,
    pub datagram_index: u8,
    pub generation: u16,
    pub position: u16,
    pub station_address: u16,
    pub operation: RegisterOperation,
    pub address: u32,
    pub read_len: u16,
    pub write_payload: [u8; SCAN_PAYLOAD_LEN],
    pub write_len: u8,
    pub deadline_ns: u64,
    pub expected_wkc: u16,
}

impl ScanAction {
    pub open spec fn spec_datagram_len(&self) -> usize {
        if self.read_len > self.write_len {
            self.read_len as usize
        } else {
            self.write_len as usize
        }
    }

    /// The bytes the action writes.
    pub fn payload(&self) -> (payload: &[u8])
        requires
            self.write_len <= SCAN_PAYLOAD_LEN,
        ensures
            payload@ == self.write_payload@.subrange(0, self.write_len as int),
    {
        let len = self.write_len as usize;
        let all: &[u8] = self.write_payload.as_slice();
        &all[0..len]
    }

    #[verifier::when_used_as_spec(spec_datagram_len)]
    pub fn datagram_len(&self) -> (len: usize)
        ensures
            len == self.spec_datagram_len(),
    {
        let read_len = self.read_len as usize;
        let write_len = self.write_len as usize;
        if read_len > write_len {
            read_len
        } else {
            write_len
        }
    }
}

#[derive(Clone, Copy, Debug, PartialEq, Eq, Structural)]
pub struct ScanRecord {
    pub position: u16,
    pub station_address: u16,
    pub esc_type: u16,
    pub revision: u8,
    pub build: u8,
    pub fmmu_count: u8,
    pub sync_manager_count: u8,
    pub ram_size: u16,
    pub port_descriptor: u8,
    pub al_status: AlStatus,
    pub online: bool,
}

/// A record with nothing discovered.
pub open spec fn empty_record() -> ScanRecord {
    ScanRecord {
        position: 0,
        station_address: 0,
        esc_type: 0,
        revision: 0,
        build: 0,
        fmmu_count: 0,
        sync_manager_count: 0,
        ram_size: 0,
        port_descriptor: 0,
        al_status: AlStatus { state: EthercatState::Unknown, error: false, raw: 0, code: 0 },
        online: false,
    }
}

fn new_record() -> (record: ScanRecord)
    ensures
        record == empty_record(),
{
    ScanRecord {
        position: 0,
        station_address: 0,
        esc_type: 0,
        revision: 0,
        build: 0,
        fmmu_count: 0,
        sync_manager_count: 0,
        ram_size: 0,
        port_descriptor: 0,
        al_status: AlStatus { state: EthercatState::Unknown, error: false, raw: 0, code: 0 },
        online: false,
    }
}

/// The scanner as its contracts see it.
pub struct ScanView {
    pub phase: ScanPhase,
    pub generation: u16,
    pub scan_deadline_ns: u64,
    pub request_timeout_ns: u64,
    pub station_address_base: u16,
    pub next_position: u16,
    pub current: ScanRecord,
    pub records: Seq<ScanRecord>,
    pub pending: Option<ScanAction>,
    pub next_token: u8,
    pub next_datagram_index: u8,
    pub last_error: Option<ScanError>,
}

/// `x + y` modulo 2^16.
pub open spec fn wrapping_add_u16(x: u16, y: u16) -> u16 {
    if x + y > u16::MAX {
        (x + y - 0x10000) as u16
    } else {
        (x + y) as u16
    }
}


/// The scanner after failing with `error`.
pub open spec fn scan_fault(v: ScanView, error: ScanError) -> ScanView {
    ScanView { last_error: Some(error), pending: None, phase: ScanPhase::Faulted, ..v }
}

/// The request of the current phase: probe the next position's ESC type,
/// read the basic ESC information, assign the station address, or read AL
/// status with its status code.
pub open spec fn scan_phase_action(v: ScanView, now_ns: u64) -> ScanAction {
    let probing = v.phase == ScanPhase::Probing;
    let position = if probing { v.next_position } else { v.current.position };
    let station = if probing {
        wrapping_add_u16(v.station_address_base, v.next_position)
    } else {
        v.current.station_address
    };
    let deadline = saturating_add_u64(now_ns, v.request_timeout_ns);
    let (operation, address, read_len, payload, write_len) = if probing {
        (RegisterOperation::AutoIncrementRead, pack_address(auto_increment_word(position as int), ESC_TYPE as int), 2u16,
            [0u8, 0u8], 0u8)
    } else if v.phase == ScanPhase::ReadingBasicInfo {
        (RegisterOperation::AutoIncrementRead, pack_address(auto_increment_word(position as int), ESC_TYPE as int),
            BASIC_ESC_INFO_LEN, [0u8, 0u8], 0u8)
    } else if v.phase == ScanPhase::AssigningStationAddress {
        (RegisterOperation::AutoIncrementWrite, pack_address(auto_increment_word(position as int), ESC_STATION_ADDRESS as int),
            0u16, [(station % 256) as u8, (station / 256) as u8], 2u8)
    } else {
        (RegisterOperation::Read, pack_address(station as int, ESC_AL_STATUS as int), AL_STATUS_WITH_CODE_LEN, [0u8, 0u8], 0u8)
    };
    ScanAction {
        token: v.next_token,
        datagram_index: v.next_datagram_index,
        generation: v.generation,
        position,
        station_address: station,
        operation,
        address: address as u32,
        read_len,
        write_payload: payload,
        write_len,
        deadline_ns: if deadline < v.scan_deadline_ns {
            deadline
        } else {
            v.scan_deadline_ns
        },
        expected_wkc: 1,
    }
}

/// The scanner and result after asking for the next request at `now_ns`.
pub open spec fn spec_scan_next_action<const MAX_SLAVES: usize>(v: ScanView, now_ns: u64) -> (ScanView, Result<Option<ScanAction>, ScanError>) {
    if v.phase == ScanPhase::Idle {
        (v, Err(ScanError::NotStarted))
    } else if v.phase == ScanPhase::Complete || v.phase == ScanPhase::Faulted {
        (v, Ok(None))
    } else if v.pending is Some {
        (v, Ok(v.pending))
    } else if now_ns >= v.scan_deadline_ns {
        (scan_fault(v, ScanError::Timeout), Err(ScanError::Timeout))
    } else if v.phase == ScanPhase::Probing && v.next_position >= MAX_SLAVES {
        (ScanView { phase: ScanPhase::Complete, ..v }, Ok(None))
    } else {
        let action = scan_phase_action(v, now_ns);
        (
            ScanView {
                pending: Some(action),
                next_token: next_nonzero(v.next_token),
                next_datagram_index: next_nonzero(v.next_datagram_index),
                ..v
            },
            Ok(Some(action)),
        )
    }
}

/// The scanner and result after the response to the pending request with
/// `token`. A zero working counter on a probe means no further slave.
pub open spec fn spec_scan_accept(
    v: ScanView,
    token: u8,
    generation: u16,
    payload: Seq<u8>,
    working_counter: u16,
    now_ns: u64,
) -> (ScanView, Result<ScanProgress, ScanError>) {
    match v.pending {
        None => (v, Err(ScanError::NoPendingAction)),
        Some(action) => if action.token != token {
            (v, Err(ScanError::TokenMismatch))
        } else if action.generation != generation {
            (scan_fault(v, ScanError::GenerationMismatch), Err(ScanError::GenerationMismatch))
        } else if now_ns > action.deadline_ns {
            (scan_fault(v, ScanError::Timeout), Err(ScanError::Timeout))
        } else if v.phase == ScanPhase::Probing && working_counter == 0 {
            (ScanView { pending: None, phase: ScanPhase::Complete, ..v }, Ok(ScanProgress::Complete))
        } else if working_counter != action.expected_wkc {
            (scan_fault(v, ScanError::UnexpectedWorkingCounter), Err(ScanError::UnexpectedWorkingCounter))
        } else if payload.len() != action.read_len {
            (scan_fault(v, ScanError::PayloadLengthMismatch), Err(ScanError::PayloadLengthMismatch))
        } else if v.phase == ScanPhase::Probing {
            (
                ScanView {
                    current: ScanRecord {
                        position: action.position,
                        station_address: action.station_address,
                        esc_type: get_le16(payload, 0) as u16,
                        online: true,
                        ..empty_record()
                    },
                    phase: ScanPhase::ReadingBasicInfo,
                    pending: None,
                    ..v
                },
                Ok(ScanProgress::Advanced),
            )
        } else if v.phase == ScanPhase::ReadingBasicInfo {
            (
                ScanView {
                    current: ScanRecord {
                        revision: payload[2],
                        build: payload[3],
                        fmmu_count: payload[4],
                        sync_manager_count: payload[5],
                        ram_size: get_le16(payload, 6) as u16,
                        port_descriptor: payload[8],
                        ..v.current
                    },
                    phase: ScanPhase::AssigningStationAddress,
                    pending: None,
                    ..v
                },
                Ok(ScanProgress::Advanced),
            )
        } else if v.phase == ScanPhase::AssigningStationAddress {
            (ScanView { phase: ScanPhase::ReadingAlStatus, pending: None, ..v }, Ok(ScanProgress::Advanced))
        } else if v.phase == ScanPhase::ReadingAlStatus {
            let record = ScanRecord {
                al_status: AlStatus::spec_new(get_le16(payload, 0) as u16, get_le16(payload, 4) as u16),
                ..v.current
            };
            (
                ScanView {
                    current: record,
                    records: v.records.push(record),
                    next_position: if v.next_position == u16::MAX {
                        u16::MAX
                    } else {
                        (v.next_position + 1) as u16
                    },
                    phase: ScanPhase::Probing,
                    pending: None,
                    ..v
                },
                Ok(ScanProgress::DeviceDiscovered(v.records.len() as usize)),
            )
        } else {
            (v, Err(ScanError::NotStarted))
        },
    }
}

/// The scanner and result after the pending request with `token` timed out
/// at `now_ns`: a missing answer to a probe ends the scan, anything else
/// faults it.
pub open spec fn spec_scan_timeout(v: ScanView, token: u8, now_ns: u64) -> (ScanView, Result<ScanProgress, ScanError>) {
    match v.pending {
        None => (v, Err(ScanError::NoPendingAction)),
        Some(action) => if action.token != token {
            (v, Err(ScanError::TokenMismatch))
        } else if now_ns < action.deadline_ns {
            (v, Err(ScanError::Timeout))
        } else if v.phase == ScanPhase::Probing {
            (ScanView { pending: None, phase: ScanPhase::Complete, ..v }, Ok(ScanProgress::Complete))
        } else {
            (scan_fault(ScanView { pending: None, ..v }, ScanError::Timeout), Err(ScanError::Timeout))
        },
    }
}

/// What every scanner keeps: a request the scanner built, read lengths of
/// its phase, and room for the record it is reading.
pub open spec fn scan_wf<const MAX_SLAVES: usize>(v: ScanView) -> bool {
    &&& MAX_SLAVES <= u16::MAX
    &&& v.records.len() <= v.next_position
    &&& v.next_position <= MAX_SLAVES
    &&& (v.pending matches Some(a) ==> a.write_len <= SCAN_PAYLOAD_LEN)
    &&& (v.phase == ScanPhase::ReadingBasicInfo && v.pending is Some ==> v.pending->Some_0.read_len == BASIC_ESC_INFO_LEN)
    &&& (v.phase == ScanPhase::ReadingAlStatus && v.pending is Some ==> v.pending->Some_0.read_len == AL_STATUS_WITH_CODE_LEN)
    &&& (v.phase == ScanPhase::Probing && v.pending is Some ==> v.pending->Some_0.read_len == 2
        && v.next_position < MAX_SLAVES)
    &&& (v.phase == ScanPhase::ReadingBasicInfo || v.phase == ScanPhase::AssigningStationAddress || v.phase
        == ScanPhase::ReadingAlStatus ==> v.next_position < MAX_SLAVES)
}

pub struct ScanController<const MAX_SLAVES: usize> {
    phase: ScanPhase,
    generation: u16,
    scan_deadline_ns: u64,
    request_timeout_ns: u64,
    station_address_base: u16,
    next_position: u16,
    current: ScanRecord,
    records: Vec<ScanRecord>,
    pending: Option<ScanAction>,
    next_token: u8,
    next_datagram_index: u8,
    last_error: Option<ScanError>,
}

impl<const MAX_SLAVES: usize> View for ScanController<MAX_SLAVES> {
    type V = ScanView;

    closed spec fn view(&self) -> ScanView {
        ScanView {
            phase: self.phase,
            generation: self.generation,
            scan_deadline_ns: self.scan_deadline_ns,
            request_timeout_ns: self.request_timeout_ns,
            station_address_base: self.station_address_base,
            next_position: self.next_position,
            current: self.current,
            records: self.records@,
            pending: self.pending,
            next_token: self.next_token,
            next_datagram_index: self.next_datagram_index,
            last_error: self.last_error,
        }
    }
}

impl<const MAX_SLAVES: usize> ScanController<MAX_SLAVES> {
    pub open spec fn wf(&self) -> bool {
        scan_wf::<MAX_SLAVES>(self@)
    }

    /// A scanner that assigns station addresses from `station_address_base`
    /// on; positions are 16-bit, so it has room for at most `u16::MAX`
    /// slaves.
    pub fn new(station_address_base: u16) -> (controller: Self)
        requires
            MAX_SLAVES <= u16::MAX,
        ensures
            controller.wf(),
            controller@ == (ScanView {
                phase: ScanPhase::Idle,
                generation: 0,
                scan_deadline_ns: 0,
                request_timeout_ns: 0,
                station_address_base,
                next_position: 0,
                current: empty_record(),
                records: Seq::empty(),
                pending: None,
                next_token: 1,
                next_datagram_index: 1,
                last_error: None,
            }),
    {
        let controller = ScanController {
            phase: ScanPhase::Idle,
            generation: 0,
            scan_deadline_ns: 0,
            request_timeout_ns: 0,
            station_address_base,
            next_position: 0,
            current: new_record(),
            records: Vec::new(),
            pending: None,
            next_token: 1,
            next_datagram_index: 1,
            last_error: None,
        };
        assert(controller@.records =~= Seq::<ScanRecord>::empty());
        controller
    }

    pub fn phase(&self) -> (phase: ScanPhase)
        ensures
            phase == self@.phase,
    {
        self.phase
    }

    pub fn len(&self) -> (count: usize)
        ensures
            count == self@.records.len(),
    {
        self.records.len()
    }

    pub fn is_empty(&self) -> (empty: bool)
        ensures
            empty == (self@.records.len() == 0),
    {
        self.records.len() == 0
    }

    pub fn records(&self) -> (records: &[ScanRecord])
        ensures
            records@ == self@.records,
    {
        self.records.as_slice()
    }

    pub fn pending(&self) -> (pending: Option<ScanAction>)
        ensures
            pending == self@.pending,
    {
        self.pending
    }

    pub fn last_error(&self) -> (error: Option<ScanError>)
        ensures
            error == self@.last_error,
    {
        self.last_error
    }

    /// Start a scan from position zero. A scan in progress refuses, as does a
    /// scanner without room for any slave.
    pub fn start(&mut self, generation: u16, now_ns: u64, timeout_ns: u64, request_timeout_ns: u64) -> (result: Result<(), ScanError>)
        requires
            old(self).wf(),
        ensures
            final(self).wf(),
            !(old(self)@.phase == ScanPhase::Idle || old(self)@.phase == ScanPhase::Complete || old(self)@.phase == ScanPhase::Faulted)
                ==> result == Err::<(), ScanError>(ScanError::Busy) && final(self)@ == old(self)@,
            (old(self)@.phase == ScanPhase::Idle || old(self)@.phase == ScanPhase::Complete || old(self)@.phase == ScanPhase::Faulted)
                && MAX_SLAVES == 0 ==> result == Err::<(), ScanError>(ScanError::CapacityExceeded) && final(self)@ == old(self)@,
            (old(self)@.phase == ScanPhase::Idle || old(self)@.phase == ScanPhase::Complete || old(self)@.phase == ScanPhase::Faulted)
                && MAX_SLAVES > 0 ==> result is Ok && final(self)@ == (ScanView {
                phase: ScanPhase::Probing,
                generation,
                scan_deadline_ns: saturating_add_u64(now_ns, timeout_ns),
                request_timeout_ns,
                station_address_base: old(self)@.station_address_base,
                next_position: 0,
                current: empty_record(),
                records: Seq::empty(),
                pending: None,
                next_token: 1,
                next_datagram_index: 1,
                last_error: None,
            }),
    {
        if !(self.phase == ScanPhase::Idle || self.phase == ScanPhase::Complete || self.phase == ScanPhase::Faulted) {
            return Err(ScanError::Busy);
        }
        if MAX_SLAVES == 0 {
            return Err(ScanError::CapacityExceeded);
        }
        self.phase = ScanPhase::Probing;
        self.generation = generation;
        self.scan_deadline_ns = now_ns.saturating_add(timeout_ns);
        self.request_timeout_ns = request_timeout_ns;
        self.next_position = 0;
        self.records = Vec::new();
        self.current = new_record();
        self.pending = None;
        self.next_token = 1;
        self.next_datagram_index = 1;
        self.last_error = None;
        assert(self@.records =~= Seq::<ScanRecord>::empty());
        Ok(())
    }

    fn fail(&mut self, error: ScanError)
        requires
            old(self).wf(),
        ensures
            final(self).wf(),
            final(self)@ == scan_fault(old(self)@, error),
    {
        self.last_error = Some(error);
        self.pending = None;
        self.phase = ScanPhase::Faulted;
    }

    /// The pending request, or the next one of the current phase; see
    /// `spec_scan_next_action`.
    pub fn next_action(&mut self, now_ns: u64) -> (result: Result<Option<ScanAction>, ScanError>)
        requires
            old(self).wf(),
        ensures
            final(self).wf(),
            (final(self)@, result) == spec_scan_next_action::<MAX_SLAVES>(old(self)@, now_ns),
    {
        if self.phase == ScanPhase::Idle {
            return Err(ScanError::NotStarted);
        }
        if self.phase == ScanPhase::Complete || self.phase == ScanPhase::Faulted {
            return Ok(None);
        }
        if let Some(action) = self.pending {
            return Ok(Some(action));
        }
        if now_ns >= self.scan_deadline_ns {
            self.fail(ScanError::Timeout);
            return Err(ScanError::Timeout);
        }
        let probing = self.phase == ScanPhase::Probing;
        if probing && self.next_position as usize >= MAX_SLAVES {
            self.phase = ScanPhase::Complete;
            return Ok(None);
        }
        let position = if probing { self.next_position } else { self.current.position };
        let station = if probing {
            self.station_address_base.wrapping_add(self.next_position)
        } else {
            self.current.station_address
        };
        let (operation, address, read_len, payload, write_len) = if probing {
            (RegisterOperation::AutoIncrementRead, auto_increment_address(position, ESC_TYPE), 2u16, [0u8, 0u8], 0u8)
        } else if self.phase == ScanPhase::ReadingBasicInfo {
            (RegisterOperation::AutoIncrementRead, auto_increment_address(position, ESC_TYPE), BASIC_ESC_INFO_LEN, [0u8, 0u8], 0u8)
        } else if self.phase == ScanPhase::AssigningStationAddress {
            (RegisterOperation::AutoIncrementWrite, auto_increment_address(position, ESC_STATION_ADDRESS), 0u16,
                [(station % 256) as u8, (station / 256) as u8], 2u8)
        } else {
            (RegisterOperation::Read, fixed_address(station, ESC_AL_STATUS), AL_STATUS_WITH_CODE_LEN, [0u8, 0u8], 0u8)
        };
        let deadline = now_ns.saturating_add(self.request_timeout_ns);
        let action = ScanAction {
            token: self.next_token,
            datagram_index: self.next_datagram_index,
            generation: self.generation,
            position,
            station_address: station,
            operation,
            address,
            read_len,
            write_payload: payload,
            write_len,
            deadline_ns: if deadline < self.scan_deadline_ns { deadline } else { self.scan_deadline_ns },
            expected_wkc: 1,
        };
        assert(action == scan_phase_action(old(self)@, now_ns));
        self.next_token = if self.next_token == u8::MAX { 1 } else { self.next_token + 1 };
        self.next_datagram_index = if self.next_datagram_index == u8::MAX { 1 } else { self.next_datagram_index + 1 };
        self.pending = Some(action);
        Ok(Some(action))
    }

    /// Queue the pending request as a control request in `pool`.
    pub fn enqueue_pending<const REQUESTS: usize>(&self, pool: &mut ControlRequestPool<REQUESTS>) -> (result: Result<RequestHandle, ControlError>)
        requires
            self.wf(),
            old(pool).wf(),
        ensures
            final(pool).wf(),
            self@.pending is None ==> result == Err::<RequestHandle, ControlError>(ControlError::InvalidState)
                && *final(pool) == *old(pool),
            self@.pending matches Some(action) ==> acquire_outcome(
                *old(pool),
                *final(pool),
                action.datagram_index,
                action.generation,
                action.address,
                action.operation,
                action.write_payload@.subrange(0, action.write_len as int),
                action.spec_datagram_len(),
                action.deadline_ns,
                result,
            ),
    {
        let action = match self.pending {
            Some(action) => action,
            None => return Err(ControlError::InvalidState),
        };
        pool.acquire_with_response_len(
            action.datagram_index,
            action.generation,
            action.address,
            action.operation,
            action.payload(),
            action.datagram_len(),
            action.deadline_ns,
        )
    }

    /// Offer the response to the pending request; see `spec_scan_accept`.
    pub fn accept(&mut self, token: u8, generation: u16, payload: &[u8], working_counter: u16, now_ns: u64) -> (result: Result<
        ScanProgress,
        ScanError,
    >)
        requires
            old(self).wf(),
        ensures
            final(self).wf(),
            (final(self)@, result) == spec_scan_accept(old(self)@, token, generation, payload@, working_counter, now_ns),
    {
        let action = match self.pending {
            Some(action) => action,
            None => return Err(ScanError::NoPendingAction),
        };
        if action.token != token {
            return Err(ScanError::TokenMismatch);
        }
        if action.generation != generation {
            self.fail(ScanError::GenerationMismatch);
            return Err(ScanError::GenerationMismatch);
        }
        if now_ns > action.deadline_ns {
            self.fail(ScanError::Timeout);
            return Err(ScanError::Timeout);
        }
        if self.phase == ScanPhase::Probing && working_counter == 0 {
            self.pending = None;
            self.phase = ScanPhase::Complete;
            return Ok(ScanProgress::Complete);
        }
        if working_counter != action.expected_wkc {
            self.fail(ScanError::UnexpectedWorkingCounter);
            return Err(ScanError::UnexpectedWorkingCounter);
        }
        if payload.len() != action.read_len as usize {
            self.fail(ScanError::PayloadLengthMismatch);
            return Err(ScanError::PayloadLengthMismatch);
        }
        let progress = if self.phase == ScanPhase::Probing {
            let empty = new_record();
            self.current = ScanRecord {
                position: action.position,
                station_address: action.station_address,
                esc_type: crate::bytes::read_u16_le(payload, 0),
                online: true,
                ..empty
            };
            self.phase = ScanPhase::ReadingBasicInfo;
            ScanProgress::Advanced
        } else if self.phase == ScanPhase::ReadingBasicInfo {
            self.current.revision = payload[2];
            self.current.build = payload[3];
            self.current.fmmu_count = payload[4];
            self.current.sync_manager_count = payload[5];
            self.current.ram_size = crate::bytes::read_u16_le(payload, 6);
            self.current.port_descriptor = payload[8];
            self.phase = ScanPhase::AssigningStationAddress;
            ScanProgress::Advanced
        } else if self.phase == ScanPhase::AssigningStationAddress {
            self.phase = ScanPhase::ReadingAlStatus;
            ScanProgress::Advanced
        } else if self.phase == ScanPhase::ReadingAlStatus {
            let raw = crate::bytes::read_u16_le(payload, 0);
            let code = crate::bytes::read_u16_le(payload, 4);
            self.current.al_status = AlStatus::new(raw, code);
            let index = self.records.len();
            self.records.push(self.current);
            self.next_position = self.next_position.saturating_add(1);
            self.phase = ScanPhase::Probing;
            ScanProgress::DeviceDiscovered(index)
        } else {
            return Err(ScanError::NotStarted);
        };
        self.pending = None;
        Ok(progress)
    }

    /// Report that the pending request with `token` got no answer by
    /// `now_ns`; see `spec_scan_timeout`.
    pub fn timeout(&mut self, token: u8, now_ns: u64) -> (result: Result<ScanProgress, ScanError>)
        requires
            old(self).wf(),
        ensures
            final(self).wf(),
            (final(self)@, result) == spec_scan_timeout(old(self)@, token, now_ns),
    {
        let action = match self.pending {
            Some(action) => action,
            None => return Err(ScanError::NoPendingAction),
        };
        if action.token != token {
            return Err(ScanError::TokenMismatch);
        }
        if now_ns < action.deadline_ns {
            return Err(ScanError::Timeout);
        }
        self.pending = None;
        if self.phase == ScanPhase::Probing {
            self.phase = ScanPhase::Complete;
            Ok(ScanProgress::Complete)
        } else {
            self.fail(ScanError::Timeout);
            Err(ScanError::Timeout)
        }
    }
}

} // verus!
