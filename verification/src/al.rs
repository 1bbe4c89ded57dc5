//! EtherCAT State Machine transition controller.
//!
//! One controller performs one legal state transition at a time. A slave
//! that needs several transitions (INIT -> PREOP -> SAFEOP -> OP) is driven
//! by restarting the controller after each successful step. An AL error is
//! latched as a fault; with the acknowledge policy enabled the error is
//! acknowledged first, but the transition is never retried.
use vstd::prelude::*;
use crate::bytes::{get_le16, le16, read_u16_le};
use crate::control::{
    acquire_outcome, ControlError, ControlRequestPool, RegisterOperation, RequestHandle,
};
use crate::mailbox::{next_nonzero, saturating_add_u64};
use crate::registers::{
    fixed_address, pack_address, AL_STATUS_WITH_CODE_LEN, ESC_AL_CONTROL, ESC_AL_STATUS,
};
use crate::slave::{next_state, spec_next_state, AlStatus, EthercatState, AL_ERROR_FLAG};

verus! {

pub const ACTION_PAYLOAD_LEN: usize = 2;

#[derive(Clone, Copy, Debug, PartialEq, Eq, Structural)]
pub enum AlPhase {
    Idle,
    WritingControl,
    ReadingStatus,
    WritingErrorAcknowledge,
    ReadingErrorAcknowledge,
    Complete,
    Faulted,
}

#[derive(Clone, Copy, Debug, PartialEq, Eq, Structural)]
pub enum AlError {
    Busy,
    NotStarted,
    NoPendingAction,
    TokenMismatch,
    GenerationMismatch,
    InvalidTransition,
    PayloadLengthMismatch,
    UnexpectedWorkingCounter,
    Timeout,
    AlErrorCode(u16),
    InvalidResponse,
}

#[derive(Clone, Copy, Debug, PartialEq, Eq, Structural)]
pub enum AlProgress {
    ControlWritten,
    Polling,
    Reached(EthercatState),
}

#[derive(Clone, Copy, Debug, PartialEq, Eq, Structural)]
pub enum AlErrorAcknowledgePolicy {
    Disabled,
    Enabled,
}

#[derive(Clone, Copy, Debug, PartialEq, Eq, Structural)]
pub enum AlErrorAcknowledgeStatus {
    NotAttempted,
    InProgress,
    Complete,
}

#[derive(Clone, Copy, Debug, PartialEq, Eq, Structural)]
pub struct AlFaultRecord {
    pub status: AlStatus,
    pub requested_state: EthercatState,
    pub acknowledgement: AlErrorAcknowledgeStatus,
}

#[derive(Clone, Copy, Debug, PartialEq, Eq)]
pub struct AlAction {
    pub token: u8,
    pub datagram_index: u8,
    pub generation: u16,
    pub station_address: u16,
    pub operation: RegisterOperation,
    pub address: u32,
    pub read_len: u16,
    pub write_payload: [u8; ACTION_PAYLOAD_LEN],
    pub write_len: u8,
    pub deadline_ns: u64,
    pub expected_wkc: u16,
}

impl AlAction {
    pub open spec fn spec_datagram_len(&self) -> usize {
        if self.read_len > self.write_len {
            self.read_len as usize
        } else {
            self.write_len as usize
        }
    }

    /// The bytes the action writes.
    pub fn payload(&self) -> (payload: &[u8])
        requires
            self.write_len <= ACTION_PAYLOAD_LEN,
        ensures
            payload@ == self.write_payload@.subrange(0, self.write_len as int),
    {
        let len = self.write_len as usize;
        let all: &[u8] = self.write_payload.as_slice();
        &all[0..len]
    }

    #[verifier::when_used_as_spec(spec_datagram_len)]
    pub fn datagram_len(&self) -> (len: usize)
        ensures
            len == self.spec_datagram_len(),
    {
        let read_len = self.read_len as usize;
        let write_len = self.write_len as usize;
        if read_len > write_len {
            read_len
        } else {
            write_len
        }
    }
}

#[derive(Clone, Copy, Debug, PartialEq, Eq, Structural)]
pub struct AlTransitionRequest {
    pub station_address: u16,
    pub current_state: EthercatState,
    pub requested_state: EthercatState,
    pub generation: u16,
    pub now_ns: u64,
    pub timeout_ns: u64,
    pub request_timeout_ns: u64,
}

/// The state of a transition controller as seen by its contracts.
#[derive(Clone, Copy)]
pub struct AlView {
    pub phase: AlPhase,
    pub generation: u16,
    pub station_address: u16,
    pub current_state: EthercatState,
    pub requested_state: EthercatState,
    pub expected_state: EthercatState,
    pub observed_status: AlStatus,
    pub scan_deadline_ns: u64,
    pub request_timeout_ns: u64,
    pub pending: Option<AlAction>,
    pub error_acknowledge_policy: AlErrorAcknowledgePolicy,
    pub fault_record: Option<AlFaultRecord>,
    pub next_token: u8,
    pub next_datagram_index: u8,
    pub last_error: Option<AlError>,
}

pub open spec fn al_fault(v: AlView, error: AlError) -> AlView {
    AlView { last_error: Some(error), pending: None, phase: AlPhase::Faulted, ..v }
}

/// The AL status a six-byte status read carries: the status word at 0 and
/// the status code at 4.
pub open spec fn decoded_status(payload: Seq<u8>) -> AlStatus {
    AlStatus::spec_new(get_le16(payload, 0) as u16, get_le16(payload, 4) as u16)
}

/// Record the first AL fault of the transition; with acknowledgement
/// disabled the controller faults with the AL status code, otherwise it
/// goes on to write the acknowledgement.
pub open spec fn spec_begin_acknowledgement(v: AlView, status: AlStatus) -> (AlView, Result<(), AlError>) {
    let record = if v.fault_record is None {
        AlFaultRecord {
            status,
            requested_state: v.requested_state,
            acknowledgement: AlErrorAcknowledgeStatus::NotAttempted,
        }
    } else {
        v.fault_record->Some_0
    };
    if v.error_acknowledge_policy == AlErrorAcknowledgePolicy::Disabled {
        let error = AlError::AlErrorCode(status.code);
        (al_fault(AlView { fault_record: Some(record), ..v }, error), Err(error))
    } else {
        (
            AlView {
                fault_record: Some(
                    AlFaultRecord { acknowledgement: AlErrorAcknowledgeStatus::InProgress, ..record },
                ),
                phase: AlPhase::WritingErrorAcknowledge,
                ..v
            },
            Ok(()),
        )
    }
}

/// The controller and result after a start request.
pub open spec fn spec_start(
    v: AlView,
    request: AlTransitionRequest,
    observed: AlStatus,
    policy: AlErrorAcknowledgePolicy,
) -> (AlView, Result<(), AlError>) {
    let current = request.current_state;
    let requested = request.requested_state;
    if !(v.phase == AlPhase::Idle || v.phase == AlPhase::Complete || v.phase == AlPhase::Faulted) {
        (v, Err(AlError::Busy))
    } else if current == EthercatState::Unknown || requested == EthercatState::Unknown
        || observed.state == EthercatState::Unknown || observed.state != current {
        (v, Err(AlError::InvalidTransition))
    } else if current != requested && spec_next_state(current, requested) is None {
        (v, Err(AlError::InvalidTransition))
    } else {
        let expected = if current == requested {
            current
        } else {
            spec_next_state(current, requested)->Some_0
        };
        let begun = AlView {
            generation: request.generation,
            station_address: request.station_address,
            current_state: current,
            requested_state: requested,
            expected_state: expected,
            observed_status: observed,
            scan_deadline_ns: saturating_add_u64(request.now_ns, request.timeout_ns),
            request_timeout_ns: request.request_timeout_ns,
            pending: None,
            error_acknowledge_policy: policy,
            fault_record: None,
            next_token: 1,
            next_datagram_index: 1,
            last_error: None,
            ..v
        };
        if observed.error {
            spec_begin_acknowledgement(begun, observed)
        } else {
            (
                AlView {
                    phase: if current == requested {
                        AlPhase::Complete
                    } else {
                        AlPhase::WritingControl
                    },
                    ..begun
                },
                Ok(()),
            )
        }
    }
}


/// The register action of the current phase: write the requested state to
/// AL control, write the faulted state with the error acknowledge flag, or
/// read AL status with its status code.
pub open spec fn al_phase_action(v: AlView, now_ns: u64) -> AlAction {
    let writing = v.phase == AlPhase::WritingControl || v.phase
        == AlPhase::WritingErrorAcknowledge;
    let value = if v.phase == AlPhase::WritingControl {
        v.expected_state.spec_code() as int
    } else {
        v.fault_record->Some_0.status.state.spec_code() + AL_ERROR_FLAG
    };
    let deadline = saturating_add_u64(now_ns, v.request_timeout_ns);
    AlAction {
        token: v.next_token,
        datagram_index: v.next_datagram_index,
        generation: v.generation,
        station_address: v.station_address,
        operation: if writing {
            RegisterOperation::Write
        } else {
            RegisterOperation::Read
        },
        address: pack_address(
            v.station_address as int,
            if writing {
                ESC_AL_CONTROL as int
            } else {
                ESC_AL_STATUS as int
            },
        ) as u32,
        read_len: if writing {
            0
        } else {
            AL_STATUS_WITH_CODE_LEN
        },
        write_payload: if writing {
            [value as u8, 0u8]
        } else {
            [0u8, 0u8]
        },
        write_len: if writing {
            2
        } else {
            0
        },
        deadline_ns: if deadline < v.scan_deadline_ns {
            deadline
        } else {
            v.scan_deadline_ns
        },
        expected_wkc: 1,
    }
}

pub open spec fn spec_al_next_action(v: AlView, now_ns: u64) -> (AlView, Result<Option<AlAction>, AlError>) {
    if v.phase == AlPhase::Idle {
        (v, Err(AlError::NotStarted))
    } else if v.phase == AlPhase::Complete || v.phase == AlPhase::Faulted {
        (v, Ok(None))
    } else if v.pending is Some {
        (v, Ok(v.pending))
    } else if now_ns >= v.scan_deadline_ns {
        (al_fault(v, AlError::Timeout), Err(AlError::Timeout))
    } else if v.phase == AlPhase::WritingErrorAcknowledge && v.fault_record is None {
        (v, Err(AlError::InvalidResponse))
    } else {
        let action = al_phase_action(v, now_ns);
        (
            AlView {
                pending: Some(action),
                next_token: next_nonzero(v.next_token),
                next_datagram_index: next_nonzero(v.next_datagram_index),
                ..v
            },
            Ok(Some(action)),
        )
    }
}

/// The controller and result after the response to the pending action with
/// `token`.
pub open spec fn spec_al_accept(
    v: AlView,
    token: u8,
    generation: u16,
    payload: Seq<u8>,
    working_counter: u16,
    now_ns: u64,
) -> (AlView, Result<AlProgress, AlError>) {
    if v.pending is None {
        (v, Err(AlError::NoPendingAction))
    } else {
        let action = v.pending->Some_0;
        if action.token != token {
            (v, Err(AlError::TokenMismatch))
        } else if action.generation != generation {
            (al_fault(v, AlError::GenerationMismatch), Err(AlError::GenerationMismatch))
        } else if now_ns > action.deadline_ns {
            (al_fault(v, AlError::Timeout), Err(AlError::Timeout))
        } else if working_counter != action.expected_wkc {
            (al_fault(v, AlError::UnexpectedWorkingCounter), Err(AlError::UnexpectedWorkingCounter))
        } else if payload.len() != action.read_len {
            (al_fault(v, AlError::PayloadLengthMismatch), Err(AlError::PayloadLengthMismatch))
        } else if v.phase == AlPhase::WritingControl {
            (AlView { phase: AlPhase::ReadingStatus, pending: None, ..v }, Ok(AlProgress::ControlWritten))
        } else if v.phase == AlPhase::WritingErrorAcknowledge {
            (
                AlView { phase: AlPhase::ReadingErrorAcknowledge, pending: None, ..v },
                Ok(AlProgress::ControlWritten),
            )
        } else if v.phase == AlPhase::ReadingStatus {
            let status = decoded_status(payload);
            let observed = AlView { observed_status: status, ..v };
            if status.error {
                let outcome = spec_begin_acknowledgement(AlView { pending: None, ..observed }, status);
                (
                    outcome.0,
                    match outcome.1 {
                        Ok(()) => Ok(AlProgress::Polling),
                        Err(e) => Err(e),
                    },
                )
            } else if status.state == v.expected_state {
                (
                    AlView { phase: AlPhase::Complete, pending: None, ..observed },
                    Ok(AlProgress::Reached(status.state)),
                )
            } else {
                (AlView { pending: None, ..observed }, Ok(AlProgress::Polling))
            }
        } else if v.phase == AlPhase::ReadingErrorAcknowledge {
            let status = decoded_status(payload);
            let observed = AlView { observed_status: status, ..v };
            if status.error {
                (AlView { pending: None, ..observed }, Ok(AlProgress::Polling))
            } else if v.fault_record is None {
                (observed, Err(AlError::InvalidResponse))
            } else {
                let record = v.fault_record->Some_0;
                if status.state != record.status.state {
                    (al_fault(observed, AlError::InvalidResponse), Err(AlError::InvalidResponse))
                } else {
                    let error = AlError::AlErrorCode(record.status.code);
                    (
                        al_fault(
                            AlView {
                                fault_record: Some(
                                    AlFaultRecord {
                                        acknowledgement: AlErrorAcknowledgeStatus::Complete,
                                        ..record
                                    },
                                ),
                                ..observed
                            },
                            error,
                        ),
                        Err(error),
                    )
                }
            }
        } else {
            (v, Err(AlError::InvalidResponse))
        }
    }
}

pub struct AlTransitionController {
    phase: AlPhase,
    generation: u16,
    station_address: u16,
    current_state: EthercatState,
    requested_state: EthercatState,
    expected_state: EthercatState,
    observed_status: AlStatus,
    scan_deadline_ns: u64,
    request_timeout_ns: u64,
    pending: Option<AlAction>,
    error_acknowledge_policy: AlErrorAcknowledgePolicy,
    fault_record: Option<AlFaultRecord>,
    next_token: u8,
    next_datagram_index: u8,
    last_error: Option<AlError>,
}

impl View for AlTransitionController {
    type V = AlView;

    closed spec fn view(&self) -> AlView {
        AlView {
            phase: self.phase,
            generation: self.generation,
            station_address: self.station_address,
            current_state: self.current_state,
            requested_state: self.requested_state,
            expected_state: self.expected_state,
            observed_status: self.observed_status,
            scan_deadline_ns: self.scan_deadline_ns,
            request_timeout_ns: self.request_timeout_ns,
            pending: self.pending,
            error_acknowledge_policy: self.error_acknowledge_policy,
            fault_record: self.fault_record,
            next_token: self.next_token,
            next_datagram_index: self.next_datagram_index,
            last_error: self.last_error,
        }
    }
}

/// A pending action is one the controller built: at most two written bytes,
/// and a six-byte status read while reading status.
pub open spec fn al_wf(v: AlView) -> bool {
    &&& (v.pending matches Some(a) ==> a.write_len <= ACTION_PAYLOAD_LEN)
    &&& ((v.phase == AlPhase::ReadingStatus || v.phase == AlPhase::ReadingErrorAcknowledge)
        && v.pending is Some ==> v.pending->Some_0.read_len == AL_STATUS_WITH_CODE_LEN)
}

impl AlTransitionController {
    pub open spec fn wf(&self) -> bool {
        al_wf(self@)
    }

    pub open spec fn spec_initial() -> AlView {
        AlView {
            phase: AlPhase::Idle,
            generation: 0,
            station_address: 0,
            current_state: EthercatState::Unknown,
            requested_state: EthercatState::Unknown,
            expected_state: EthercatState::Unknown,
            observed_status: AlStatus { state: EthercatState::Unknown, error: false, raw: 0, code: 0 },
            scan_deadline_ns: 0,
            request_timeout_ns: 0,
            pending: None,
            error_acknowledge_policy: AlErrorAcknowledgePolicy::Disabled,
            fault_record: None,
            next_token: 1,
            next_datagram_index: 1,
            last_error: None,
        }
    }

    pub fn new() -> (controller: Self)
        ensures
            controller@ == Self::spec_initial(),
            controller.wf(),
    {
        AlTransitionController {
            phase: AlPhase::Idle,
            generation: 0,
            station_address: 0,
            current_state: EthercatState::Unknown,
            requested_state: EthercatState::Unknown,
            expected_state: EthercatState::Unknown,
            observed_status: AlStatus { state: EthercatState::Unknown, error: false, raw: 0, code: 0 },
            scan_deadline_ns: 0,
            request_timeout_ns: 0,
            pending: None,
            error_acknowledge_policy: AlErrorAcknowledgePolicy::Disabled,
            fault_record: None,
            next_token: 1,
            next_datagram_index: 1,
            last_error: None,
        }
    }

    pub fn phase(&self) -> (phase: AlPhase)
        ensures
            phase == self@.phase,
    {
        self.phase
    }

    pub fn expected_state(&self) -> (state: EthercatState)
        ensures
            state == self@.expected_state,
    {
        self.expected_state
    }

    pub fn observed_status(&self) -> (status: AlStatus)
        ensures
            status == self@.observed_status,
    {
        self.observed_status
    }

    pub fn pending(&self) -> (pending: Option<AlAction>)
        ensures
            pending == self@.pending,
    {
        self.pending
    }

    pub fn last_error(&self) -> (error: Option<AlError>)
        ensures
            error == self@.last_error,
    {
        self.last_error
    }

    pub fn fault_record(&self) -> (record: Option<AlFaultRecord>)
        ensures
            record == self@.fault_record,
    {
        self.fault_record
    }

    /// Start a transition from a slave known to be error free in its
    /// current state.
    pub fn start(&mut self, request: AlTransitionRequest) -> (result: Result<(), AlError>)
        requires
            old(self).wf(),
        ensures
            final(self).wf(),
            (final(self)@, result) == spec_start(
                old(self)@,
                request,
                AlStatus::spec_new(request.current_state.spec_code(), 0),
                AlErrorAcknowledgePolicy::Disabled,
            ),
    {
        let status = AlStatus::new(request.current_state.code(), 0);
        self.start_with_status(request, status, AlErrorAcknowledgePolicy::Disabled)
    }

    /// Start a transition from the observed AL status; see `spec_start`.
    pub fn start_with_status(
        &mut self,
        request: AlTransitionRequest,
        observed_status: AlStatus,
        error_acknowledge_policy: AlErrorAcknowledgePolicy,
    ) -> (result: Result<(), AlError>)
        requires
            old(self).wf(),
        ensures
            final(self).wf(),
            (final(self)@, result) == spec_start(
                old(self)@,
                request,
                observed_status,
                error_acknowledge_policy,
            ),
    {
        if !(self.phase == AlPhase::Idle || self.phase == AlPhase::Complete || self.phase
            == AlPhase::Faulted) {
            return Err(AlError::Busy);
        }
        if request.current_state == EthercatState::Unknown || request.requested_state
            == EthercatState::Unknown || observed_status.state == EthercatState::Unknown
            || observed_status.state != request.current_state {
            return Err(AlError::InvalidTransition);
        }
        let expected_state = if request.current_state == request.requested_state {
            request.current_state
        } else {
            match next_state(request.current_state, request.requested_state) {
                Some(state) => state,
                None => return Err(AlError::InvalidTransition),
            }
        };
        self.generation = request.generation;
        self.station_address = request.station_address;
        self.current_state = request.current_state;
        self.requested_state = request.requested_state;
        self.expected_state = expected_state;
        self.observed_status = observed_status;
        self.scan_deadline_ns = request.now_ns.saturating_add(request.timeout_ns);
        self.request_timeout_ns = request.request_timeout_ns;
        self.pending = None;
        self.error_acknowledge_policy = error_acknowledge_policy;
        self.fault_record = None;
        self.next_token = 1;
        self.next_datagram_index = 1;
        self.last_error = None;
        if observed_status.error {
            return self.begin_error_acknowledgement(observed_status);
        }
        self.phase = if request.current_state == request.requested_state {
            AlPhase::Complete
        } else {
            AlPhase::WritingControl
        };
        Ok(())
    }

    /// The action to perform now, if any; see `spec_al_next_action`.
    pub fn next_action(&mut self, now_ns: u64) -> (result: Result<Option<AlAction>, AlError>)
        requires
            old(self).wf(),
        ensures
            final(self).wf(),
            (final(self)@, result) == spec_al_next_action(old(self)@, now_ns),
    {
        if self.phase == AlPhase::Idle {
            return Err(AlError::NotStarted);
        }
        if self.phase == AlPhase::Complete || self.phase == AlPhase::Faulted {
            return Ok(None);
        }
        if let Some(action) = self.pending {
            return Ok(Some(action));
        }
        if now_ns >= self.scan_deadline_ns {
            self.fail(AlError::Timeout);
            return Err(AlError::Timeout);
        }
        let writing = self.phase == AlPhase::WritingControl || self.phase
            == AlPhase::WritingErrorAcknowledge;
        let (operation, address, read_len, payload, write_len) = if self.phase
            == AlPhase::WritingControl {
            (
                RegisterOperation::Write,
                fixed_address(self.station_address, ESC_AL_CONTROL),
                0u16,
                [self.expected_state.code() as u8, 0u8],
                2u8,
            )
        } else if self.phase == AlPhase::WritingErrorAcknowledge {
            let fault = match self.fault_record {
                Some(fault) => fault,
                None => return Err(AlError::InvalidResponse),
            };
            (
                RegisterOperation::Write,
                fixed_address(self.station_address, ESC_AL_CONTROL),
                0u16,
                [(fault.status.state.code() + AL_ERROR_FLAG) as u8, 0u8],
                2u8,
            )
        } else {
            (
                RegisterOperation::Read,
                fixed_address(self.station_address, ESC_AL_STATUS),
                AL_STATUS_WITH_CODE_LEN,
                [0u8, 0u8],
                0u8,
            )
        };
        let deadline = now_ns.saturating_add(self.request_timeout_ns);
        let action = AlAction {
            token: self.next_token,
            datagram_index: self.next_datagram_index,
            generation: self.generation,
            station_address: self.station_address,
            operation,
            address,
            read_len,
            write_payload: payload,
            write_len,
            deadline_ns: if deadline < self.scan_deadline_ns {
                deadline
            } else {
                self.scan_deadline_ns
            },
            expected_wkc: 1,
        };
        assert(action == al_phase_action(old(self)@, now_ns));
        self.next_token = if self.next_token == u8::MAX {
            1
        } else {
            self.next_token + 1
        };
        self.next_datagram_index = if self.next_datagram_index == u8::MAX {
            1
        } else {
            self.next_datagram_index + 1
        };
        self.pending = Some(action);
        Ok(Some(action))
    }

    /// Queue the pending action as a control request in `pool`.
    pub fn enqueue_pending<const REQUESTS: usize>(&self, pool: &mut ControlRequestPool<REQUESTS>) -> (result:
        Result<RequestHandle, ControlError>)
        requires
            self.wf(),
            old(pool).wf(),
        ensures
            final(pool).wf(),
            self@.pending is None ==> result == Err::<RequestHandle, ControlError>(
                ControlError::InvalidState,
            ) && *final(pool) == *old(pool),
            self@.pending matches Some(action) ==> acquire_outcome(
                *old(pool),
                *final(pool),
                action.datagram_index,
                action.generation,
                action.address,
                action.operation,
                action.write_payload@.subrange(0, action.write_len as int),
                action.spec_datagram_len(),
                action.deadline_ns,
                result,
            ),
    {
        let action = match self.pending {
            Some(action) => action,
            None => return Err(ControlError::InvalidState),
        };
        pool.acquire_with_response_len(
            action.datagram_index,
            action.generation,
            action.address,
            action.operation,
            action.payload(),
            action.datagram_len(),
            action.deadline_ns,
        )
    }

    /// Offer the response to the pending action; see `spec_al_accept`.
    pub fn accept(
        &mut self,
        token: u8,
        generation: u16,
        payload: &[u8],
        working_counter: u16,
        now_ns: u64,
    ) -> (result: Result<AlProgress, AlError>)
        requires
            old(self).wf(),
        ensures
            final(self).wf(),
            (final(self)@, result) == spec_al_accept(
                old(self)@,
                token,
                generation,
                payload@,
                working_counter,
                now_ns,
            ),
    {
        let action = match self.pending {
            Some(action) => action,
            None => return Err(AlError::NoPendingAction),
        };
        if action.token != token {
            return Err(AlError::TokenMismatch);
        }
        if action.generation != generation {
            self.fail(AlError::GenerationMismatch);
            return Err(AlError::GenerationMismatch);
        }
        if now_ns > action.deadline_ns {
            self.fail(AlError::Timeout);
            return Err(AlError::Timeout);
        }
        if working_counter != action.expected_wkc {
            self.fail(AlError::UnexpectedWorkingCounter);
            return Err(AlError::UnexpectedWorkingCounter);
        }
        if payload.len() != action.read_len as usize {
            self.fail(AlError::PayloadLengthMismatch);
            return Err(AlError::PayloadLengthMismatch);
        }
        if self.phase == AlPhase::WritingControl {
            self.phase = AlPhase::ReadingStatus;
            self.pending = None;
            return Ok(AlProgress::ControlWritten);
        }
        if self.phase == AlPhase::WritingErrorAcknowledge {
            self.phase = AlPhase::ReadingErrorAcknowledge;
            self.pending = None;
            return Ok(AlProgress::ControlWritten);
        }
        if self.phase == AlPhase::ReadingStatus {
            let status = decode_status(payload);
            self.observed_status = status;
            if status.error {
                self.pending = None;
                return match self.begin_error_acknowledgement(status) {
                    Ok(()) => Ok(AlProgress::Polling),
                    Err(error) => Err(error),
                };
            }
            self.pending = None;
            if status.state == self.expected_state {
                self.phase = AlPhase::Complete;
                return Ok(AlProgress::Reached(status.state));
            }
            return Ok(AlProgress::Polling);
        }
        if self.phase == AlPhase::ReadingErrorAcknowledge {
            let status = decode_status(payload);
            self.observed_status = status;
            if status.error {
                self.pending = None;
                return Ok(AlProgress::Polling);
            }
            let fault = match self.fault_record {
                Some(fault) => fault,
                None => return Err(AlError::InvalidResponse),
            };
            if status.state != fault.status.state {
                self.fail(AlError::InvalidResponse);
                return Err(AlError::InvalidResponse);
            }
            self.fault_record = Some(
                AlFaultRecord { acknowledgement: AlErrorAcknowledgeStatus::Complete, ..fault },
            );
            let error = AlError::AlErrorCode(fault.status.code);
            self.fail(error);
            return Err(error);
        }
        Err(AlError::InvalidResponse)
    }

    /// Give up on the pending action with `token` once its deadline passed.
    pub fn timeout(&mut self, token: u8, now_ns: u64) -> (result: Result<(), AlError>)
        requires
            old(self).wf(),
        ensures
            final(self).wf(),
            old(self)@.pending is None ==> result == Err::<(), AlError>(AlError::NoPendingAction)
                && final(self)@ == old(self)@,
            old(self)@.pending matches Some(action) ==> {
                if action.token != token {
                    result == Err::<(), AlError>(AlError::TokenMismatch) && final(self)@ == old(self)@
                } else if now_ns < action.deadline_ns {
                    result == Err::<(), AlError>(AlError::Timeout) && final(self)@ == old(self)@
                } else {
                    result == Err::<(), AlError>(AlError::Timeout) && final(self)@ == al_fault(
                        old(self)@,
                        AlError::Timeout,
                    )
                }
            },
    {
        let action = match self.pending {
            Some(action) => action,
            None => return Err(AlError::NoPendingAction),
        };
        if action.token != token {
            return Err(AlError::TokenMismatch);
        }
        if now_ns < action.deadline_ns {
            return Err(AlError::Timeout);
        }
        self.fail(AlError::Timeout);
        Err(AlError::Timeout)
    }

    fn fail(&mut self, error: AlError)
        requires
            old(self).wf(),
        ensures
            final(self).wf(),
            final(self)@ == al_fault(old(self)@, error),
    {
        self.last_error = Some(error);
        self.pending = None;
        self.phase = AlPhase::Faulted;
    }

    fn begin_error_acknowledgement(&mut self, status: AlStatus) -> (result: Result<(), AlError>)
        requires
            old(self).wf(),
            old(self)@.pending is None,
        ensures
            final(self).wf(),
            (final(self)@, result) == spec_begin_acknowledgement(old(self)@, status),
    {
        if self.fault_record.is_none() {
            self.fault_record = Some(
                AlFaultRecord {
                    status,
                    requested_state: self.requested_state,
                    acknowledgement: AlErrorAcknowledgeStatus::NotAttempted,
                },
            );
        }
        let record = match self.fault_record {
            Some(record) => record,
            None => return Err(AlError::InvalidResponse),
        };
        if self.error_acknowledge_policy == AlErrorAcknowledgePolicy::Disabled {
            let error = AlError::AlErrorCode(status.code);
            self.fail(error);
            return Err(error);
        }
        self.fault_record = Some(
            AlFaultRecord { acknowledgement: AlErrorAcknowledgeStatus::InProgress, ..record },
        );
        self.phase = AlPhase::WritingErrorAcknowledge;
        Ok(())
    }
}

/// The AL status in a six-byte status read.
fn decode_status(payload: &[u8]) -> (status: AlStatus)
    requires
        payload@.len() >= 6,
    ensures
        status == decoded_status(payload@),
{
    let raw = read_u16_le(payload, 0);
    let code = read_u16_le(payload, 4);
    AlStatus::new(raw, code)
}

impl Default for AlTransitionController {
    fn default() -> (controller: Self)
        ensures
            controller@ == Self::spec_initial(),
    {
        AlTransitionController::new()
    }
}

} // verus!
