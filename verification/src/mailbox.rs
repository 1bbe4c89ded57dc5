//! EtherCAT mailbox transport.
//!
//! The controller owns no thread and never waits: it emits one ESC register
//! action at a time (write the request, optionally poll a status bit, read
//! the response mailbox) and is driven by the caller's responses and clock.
use vstd::prelude::*;
use crate::bytes::{copy_range, get_le16, le16, read_u16_le, splice};
use crate::coe::{spec_emergency_ok, CoeEmergency};
use crate::control::{
    acquire_outcome, ControlError, ControlRequestPool, RegisterOperation, RequestHandle,
    RequestState, MAX_CONTROL_PAYLOAD,
};
use crate::diag::{CoeEmergencyEvent, EmergencySink};
use crate::registers::{fixed_address, pack_address};

verus! {

pub const MAILBOX_HEADER_LEN: usize = 6;
pub const MAX_MAILBOX_BYTES: usize = MAX_CONTROL_PAYLOAD;
pub const MAILBOX_LENGTH_MASK: u16 = 0x07FF;
pub const MAILBOX_COUNTER_MASK: u8 = 0x07;

#[derive(Clone, Copy, Debug, PartialEq, Eq, Structural)]
pub enum MailboxProtocol {
    Error,
    AoE,
    EoE,
    CoE,
    FoE,
    SoE,
    VoE,
}

impl MailboxProtocol {
    pub open spec fn spec_code(self) -> u8 {
        match self {
            MailboxProtocol::Error => 0x00,
            MailboxProtocol::AoE => 0x01,
            MailboxProtocol::EoE => 0x02,
            MailboxProtocol::CoE => 0x03,
            MailboxProtocol::FoE => 0x04,
            MailboxProtocol::SoE => 0x05,
            MailboxProtocol::VoE => 0x0F,
        }
    }

    pub open spec fn spec_from_u8(value: u8) -> Option<MailboxProtocol> {
        if value == 0 {
            Some(MailboxProtocol::Error)
        } else if value == 1 {
            Some(MailboxProtocol::AoE)
        } else if value == 2 {
            Some(MailboxProtocol::EoE)
        } else if value == 3 {
            Some(MailboxProtocol::CoE)
        } else if value == 4 {
            Some(MailboxProtocol::FoE)
        } else if value == 5 {
            Some(MailboxProtocol::SoE)
        } else if value == 0x0F {
            Some(MailboxProtocol::VoE)
        } else {
            None
        }
    }

    /// The protocol type in the low nibble of the header's type byte.
    pub fn code(self) -> (code: u8)
        ensures
            code == self.spec_code(),
    {
        match self {
            MailboxProtocol::Error => 0x00,
            MailboxProtocol::AoE => 0x01,
            MailboxProtocol::EoE => 0x02,
            MailboxProtocol::CoE => 0x03,
            MailboxProtocol::FoE => 0x04,
            MailboxProtocol::SoE => 0x05,
            MailboxProtocol::VoE => 0x0F,
        }
    }

    pub fn from_u8(value: u8) -> (protocol: Option<Self>)
        ensures
            protocol == Self::spec_from_u8(value),
    {
        match value {
            0x00 => Some(MailboxProtocol::Error),
            0x01 => Some(MailboxProtocol::AoE),
            0x02 => Some(MailboxProtocol::EoE),
            0x03 => Some(MailboxProtocol::CoE),
            0x04 => Some(MailboxProtocol::FoE),
            0x05 => Some(MailboxProtocol::SoE),
            0x0F => Some(MailboxProtocol::VoE),
            _ => None,
        }
    }
}

#[derive(Clone, Copy, Debug, PartialEq, Eq, Structural)]
pub enum MailboxError {
    Busy,
    NotStarted,
    NoPendingAction,
    ActionMismatch,
    TokenMismatch,
    GenerationMismatch,
    PayloadLengthMismatch,
    UnexpectedWorkingCounter,
    Timeout,
    InvalidConfiguration,
    BufferTooSmall,
    LengthOutOfBounds,
    HeaderTruncated,
    UnknownProtocol,
    ProtocolMismatch,
    CounterOutOfBounds,
    CounterMismatch,
    EmergencyUnconsumed,
    Control(ControlError),
}

#[derive(Clone, Copy, Debug, PartialEq, Eq, Structural)]
pub struct MailboxHeader {
    pub length: u16,
    pub address: u16,
    pub priority: u8,
    pub protocol: MailboxProtocol,
    pub counter: u8,
}

/// The six header bytes: length, address, priority, then the protocol in
/// the low nibble and the counter in the high nibble of the type byte.
pub open spec fn mailbox_header_bytes(header: MailboxHeader) -> Seq<u8> {
    le16(header.length as int) + le16(header.address as int) + seq![
        header.priority,
        (header.protocol.spec_code() + header.counter * 16) as u8,
    ]
}

/// The header at the front of `src`; the length keeps its low 11 bits and
/// the counter its low 3 bits.
pub open spec fn spec_decode_mailbox_header(src: Seq<u8>) -> Result<MailboxHeader, MailboxError> {
    if src.len() < MAILBOX_HEADER_LEN {
        Err(MailboxError::HeaderTruncated)
    } else {
        match MailboxProtocol::spec_from_u8(src[5] % 16) {
            None => Err(MailboxError::UnknownProtocol),
            Some(protocol) => Ok(
                MailboxHeader {
                    length: (get_le16(src, 0) % 0x800) as u16,
                    address: get_le16(src, 2) as u16,
                    priority: src[4],
                    protocol,
                    counter: ((src[5] / 16) % 8) as u8,
                },
            ),
        }
    }
}

impl MailboxHeader {
    pub fn encode(&self, dst: &mut [u8]) -> (result: Result<(), MailboxError>)
        ensures
            old(dst)@.len() < MAILBOX_HEADER_LEN ==> result == Err::<(), MailboxError>(
                MailboxError::BufferTooSmall,
            ),
            old(dst)@.len() >= MAILBOX_HEADER_LEN && self.length > MAILBOX_LENGTH_MASK ==> result
                == Err::<(), MailboxError>(MailboxError::LengthOutOfBounds),
            old(dst)@.len() >= MAILBOX_HEADER_LEN && self.length <= MAILBOX_LENGTH_MASK
                && self.counter > MAILBOX_COUNTER_MASK ==> result == Err::<(), MailboxError>(
                MailboxError::CounterOutOfBounds,
            ),
            result is Err ==> final(dst)@ == old(dst)@,
            old(dst)@.len() >= MAILBOX_HEADER_LEN && self.length <= MAILBOX_LENGTH_MASK
                && self.counter <= MAILBOX_COUNTER_MASK ==> result is Ok && final(dst)@ == splice(
                old(dst)@,
                0,
                mailbox_header_bytes(*self),
            ),
    {
        if dst.len() < MAILBOX_HEADER_LEN {
            return Err(MailboxError::BufferTooSmall);
        }
        if self.length > MAILBOX_LENGTH_MASK {
            return Err(MailboxError::LengthOutOfBounds);
        }
        if self.counter > MAILBOX_COUNTER_MASK {
            return Err(MailboxError::CounterOutOfBounds);
        }
        let ghost initial = dst@;
        dst[0] = (self.length % 0x100) as u8;
        dst[1] = (self.length / 0x100) as u8;
        dst[2] = (self.address % 0x100) as u8;
        dst[3] = (self.address / 0x100) as u8;
        dst[4] = self.priority;
        dst[5] = self.protocol.code() + self.counter * 16;
        assert(dst@ =~= splice(initial, 0, mailbox_header_bytes(*self)));
        Ok(())
    }

    pub fn decode(src: &[u8]) -> (result: Result<Self, MailboxError>)
        ensures
            result == spec_decode_mailbox_header(src@),
    {
        if src.len() < MAILBOX_HEADER_LEN {
            return Err(MailboxError::HeaderTruncated);
        }
        let type_counter = src[5];
        let protocol = match MailboxProtocol::from_u8(type_counter % 16) {
            Some(protocol) => protocol,
            None => return Err(MailboxError::UnknownProtocol),
        };
        Ok(MailboxHeader {
            length: read_u16_le(src, 0) % 0x800,
            address: read_u16_le(src, 2),
            priority: src[4],
            protocol,
            counter: (type_counter / 16) % 8,
        })
    }
}

/// Decoding an encoded header gives the header back.
pub proof fn lemma_mailbox_header_round_trip(header: MailboxHeader, rest: Seq<u8>)
    requires
        header.length <= MAILBOX_LENGTH_MASK,
        header.counter <= MAILBOX_COUNTER_MASK,
    ensures
        spec_decode_mailbox_header(mailbox_header_bytes(header) + rest) == Ok::<
            MailboxHeader,
            MailboxError,
        >(header),
{
    let bytes = mailbox_header_bytes(header) + rest;
    let code = header.protocol.spec_code();
    assert(bytes[5] == (code + header.counter * 16) as u8);
    assert((code + header.counter * 16) % 16 == code) by (nonlinear_arith)
        requires
            code < 16,
    ;
    assert(((code + header.counter * 16) / 16) % 8 == header.counter) by (nonlinear_arith)
        requires
            code < 16,
            header.counter < 8,
    ;
    assert(get_le16(bytes, 0) == header.length);
    assert(get_le16(bytes, 2) == header.address);
}

/// The frame in `bytes`: its header and the `length` payload bytes after it.
pub open spec fn spec_parse_mailbox_frame(bytes: Seq<u8>) -> Result<(MailboxHeader, Seq<u8>), MailboxError> {
    match spec_decode_mailbox_header(bytes) {
        Err(e) => Err(e),
        Ok(header) => if MAILBOX_HEADER_LEN + header.length > bytes.len() {
            Err(MailboxError::LengthOutOfBounds)
        } else {
            Ok((header, bytes.subrange(6, 6 + header.length)))
        },
    }
}

#[derive(Clone, Copy, Debug, PartialEq, Eq)]
pub struct MailboxFrame<'a> {
    pub header: MailboxHeader,
    pub payload: &'a [u8],
}

impl<'a> MailboxFrame<'a> {
    pub fn parse(bytes: &'a [u8]) -> (result: Result<Self, MailboxError>)
        ensures
            spec_parse_mailbox_frame(bytes@) matches Err(e) ==> result == Err::<Self, MailboxError>(
                e,
            ),
            spec_parse_mailbox_frame(bytes@) matches Ok(parsed) ==> (result matches Ok(frame)
                && frame.header == parsed.0 && frame.payload@ == parsed.1),
    {
        let header = match MailboxHeader::decode(bytes) {
            Ok(header) => header,
            Err(error) => return Err(error),
        };
        let end = MAILBOX_HEADER_LEN + header.length as usize;
        if end > bytes.len() {
            return Err(MailboxError::LengthOutOfBounds);
        }
        Ok(MailboxFrame { header, payload: &bytes[MAILBOX_HEADER_LEN..end] })
    }
}

#[derive(Clone, Copy, Debug, PartialEq, Eq, Structural)]
pub struct MailboxStatusBit {
    pub address: u16,
    pub mask: u8,
    pub active_high: bool,
}

impl MailboxStatusBit {
    pub fn new(address: u16, mask: u8, active_high: bool) -> (status_bit: Self)
        ensures
            status_bit == (MailboxStatusBit { address, mask, active_high }),
    {
        MailboxStatusBit { address, mask, active_high }
    }
}

#[derive(Clone, Copy, Debug, PartialEq, Eq, Structural)]
pub struct MailboxRetryPolicy {
    pub max_retries: u8,
    pub retry_delay_ns: u64,
}

impl MailboxRetryPolicy {
    pub fn disabled() -> (policy: Self)
        ensures
            policy == (MailboxRetryPolicy { max_retries: 0, retry_delay_ns: 0 }),
    {
        MailboxRetryPolicy { max_retries: 0, retry_delay_ns: 0 }
    }

    pub fn new(max_retries: u8, retry_delay_ns: u64) -> (policy: Self)
        ensures
            policy == (MailboxRetryPolicy { max_retries, retry_delay_ns }),
    {
        MailboxRetryPolicy { max_retries, retry_delay_ns }
    }
}

#[derive(Clone, Copy, Debug, PartialEq, Eq, Structural)]
pub struct MailboxConfig {
    pub send_address: u16,
    pub send_capacity: u16,
    pub receive_address: u16,
    pub receive_capacity: u16,
    pub poll_interval_ns: u64,
    pub timeout_ns: u64,
    pub request_timeout_ns: u64,
    pub retry_policy: MailboxRetryPolicy,
    pub status_bit: Option<MailboxStatusBit>,
}

impl MailboxConfig {
    pub open spec fn spec_new(
        send_address: u16,
        send_capacity: u16,
        receive_address: u16,
        receive_capacity: u16,
    ) -> MailboxConfig {
        MailboxConfig {
            send_address,
            send_capacity,
            receive_address,
            receive_capacity,
            poll_interval_ns: 1_000,
            timeout_ns: 1_000_000_000,
            request_timeout_ns: 1_000_000,
            retry_policy: MailboxRetryPolicy { max_retries: 0, retry_delay_ns: 0 },
            status_bit: None,
        }
    }

    /// A configuration polling every microsecond, with a one second
    /// transaction timeout, a one millisecond request timeout, no retries
    /// and no status bit.
    pub fn new(send_address: u16, send_capacity: u16, receive_address: u16, receive_capacity: u16) -> (config:
        Self)
        ensures
            config == Self::spec_new(send_address, send_capacity, receive_address, receive_capacity),
    {
        MailboxConfig {
            send_address,
            send_capacity,
            receive_address,
            receive_capacity,
            poll_interval_ns: 1_000,
            timeout_ns: 1_000_000_000,
            request_timeout_ns: 1_000_000,
            retry_policy: MailboxRetryPolicy::disabled(),
            status_bit: None,
        }
    }

    pub fn with_retry_policy(self, retry_policy: MailboxRetryPolicy) -> (config: Self)
        ensures
            config == (MailboxConfig { retry_policy, ..self }),
    {
        MailboxConfig { retry_policy, ..self }
    }

    pub fn with_status_bit(self, status_bit: MailboxStatusBit) -> (config: Self)
        ensures
            config == (MailboxConfig { status_bit: Some(status_bit), ..self }),
    {
        MailboxConfig { status_bit: Some(status_bit), ..self }
    }
}

#[derive(Clone, Copy, Debug, PartialEq, Eq, Structural)]
pub enum MailboxPhase {
    Idle,
    Sending,
    CheckingStatus,
    Polling,
    Complete,
    Faulted,
}

#[derive(Clone, Copy, Debug, PartialEq, Eq)]
pub struct MailboxAction {
    pub token: u8,
    pub datagram_index: u8,
    pub generation: u16,
    pub station_address: u16,
    pub operation: RegisterOperation,
    pub address: u32,
    pub read_len: u16,
    pub write_payload: [u8; MAX_MAILBOX_BYTES],
    pub write_len: u8,
    pub deadline_ns: u64,
    pub expected_wkc: u16,
}

impl MailboxAction {
    /// The datagram carries the larger of the read and the write.
    pub open spec fn spec_datagram_len(&self) -> usize {
        if self.read_len > self.write_len {
            self.read_len as usize
        } else {
            self.write_len as usize
        }
    }

    /// The bytes the action writes.
    pub fn payload(&self) -> (payload: &[u8])
        requires
            self.write_len <= MAX_MAILBOX_BYTES,
        ensures
            payload@ == self.write_payload@.subrange(0, self.write_len as int),
    {
        let len = self.write_len as usize;
        let all: &[u8] = self.write_payload.as_slice();
        &all[0..len]
    }

    #[verifier::when_used_as_spec(spec_datagram_len)]
    pub fn datagram_len(&self) -> (len: usize)
        ensures
            len == self.spec_datagram_len(),
    {
        let read_len = self.read_len as usize;
        let write_len = self.write_len as usize;
        if read_len > write_len {
            read_len
        } else {
            write_len
        }
    }
}

/// Whether two actions are the same action.
fn same_action(a: &MailboxAction, b: &MailboxAction) -> (same: bool)
    ensures
        same == (*a == *b),
{
    if a.token != b.token || a.datagram_index != b.datagram_index || a.generation != b.generation
        || a.station_address != b.station_address || a.operation != b.operation || a.address
        != b.address || a.read_len != b.read_len || a.write_len != b.write_len || a.deadline_ns
        != b.deadline_ns || a.expected_wkc != b.expected_wkc {
        return false;
    }
    let mut i: usize = 0;
    while i < MAX_MAILBOX_BYTES
        invariant
            i <= MAX_MAILBOX_BYTES,
            forall|k: int| 0 <= k < i ==> a.write_payload@[k] == b.write_payload@[k],
        decreases MAX_MAILBOX_BYTES - i,
    {
        if a.write_payload[i] != b.write_payload[i] {
            return false;
        }
        i = i + 1;
    }
    assert(a.write_payload@ =~= b.write_payload@);
    proof {
        vstd::array::axiom_array_ext_equal(a.write_payload, b.write_payload);
    }
    true
}

#[derive(Clone, Copy, Debug, PartialEq, Eq, Structural)]
pub enum MailboxProgress {
    Advanced,
    NoMessage,
    RetryScheduled,
    EmergencyConsumed,
    Complete,
}

/// The state of a mailbox controller as seen by its contracts.
pub struct MailboxView {
    pub phase: MailboxPhase,
    pub config: MailboxConfig,
    pub generation: u16,
    pub station_address: u16,
    pub configuration_deadline_ns: u64,
    pub protocol: MailboxProtocol,
    pub counter: u8,
    pub next_counter: u8,
    pub send_frame: [u8; MAX_MAILBOX_BYTES],
    pub send_len: usize,
    pub response: Seq<u8>,
    pub response_header: Option<MailboxHeader>,
    pub poll_due_ns: u64,
    pub pending: Option<MailboxAction>,
    pub next_token: u8,
    pub next_datagram_index: u8,
    pub last_error: Option<MailboxError>,
    pub retry_count: u8,
    pub last_retry_error: Option<MailboxError>,
    pub discarded_frames: u32,
}

pub open spec fn saturating_add_u64(a: u64, b: u64) -> u64 {
    if a + b > u64::MAX {
        u64::MAX
    } else {
        (a + b) as u64
    }
}

pub open spec fn saturating_increment_u32(a: u32) -> u32 {
    if a == u32::MAX {
        a
    } else {
        (a + 1) as u32
    }
}

/// The next token or datagram index: it counts up and skips zero.
pub open spec fn next_nonzero(value: u8) -> u8 {
    if value == u8::MAX {
        1
    } else {
        (value + 1) as u8
    }
}

/// The controller latched as faulted with `error`.
pub open spec fn mailbox_fault(v: MailboxView, error: MailboxError) -> MailboxView {
    MailboxView { last_error: Some(error), pending: None, phase: MailboxPhase::Faulted, ..v }
}

/// A failed exchange is retried while the retry budget and the transaction
/// deadline last; otherwise the controller faults.
pub open spec fn spec_retry_or_fail(v: MailboxView, error: MailboxError, now_ns: u64) -> (MailboxView, Result<
    MailboxProgress,
    MailboxError,
>) {
    if v.retry_count < v.config.retry_policy.max_retries && now_ns < v.configuration_deadline_ns {
        (
            MailboxView {
                retry_count: (v.retry_count + 1) as u8,
                last_retry_error: Some(error),
                pending: None,
                poll_due_ns: saturating_add_u64(now_ns, v.config.retry_policy.retry_delay_ns),
                discarded_frames: saturating_increment_u32(v.discarded_frames),
                ..v
            },
            Ok(MailboxProgress::RetryScheduled),
        )
    } else {
        (mailbox_fault(v, error), Err(error))
    }
}

pub open spec fn zero_frame() -> [u8; MAX_MAILBOX_BYTES] {
    [0u8; MAX_MAILBOX_BYTES]
}

/// The register action of the current phase: write the request frame,
/// read the status byte, or read the whole receive mailbox.
pub open spec fn phase_action(v: MailboxView, now_ns: u64) -> MailboxAction {
    let sending = v.phase == MailboxPhase::Sending;
    let checking = v.phase == MailboxPhase::CheckingStatus;
    let deadline = saturating_add_u64(now_ns, v.config.request_timeout_ns);
    MailboxAction {
        token: v.next_token,
        datagram_index: v.next_datagram_index,
        generation: v.generation,
        station_address: v.station_address,
        operation: if sending {
            RegisterOperation::Write
        } else {
            RegisterOperation::Read
        },
        address: (if sending {
            pack_address(v.station_address as int, v.config.send_address as int)
        } else if checking {
            pack_address(v.station_address as int, v.config.status_bit->Some_0.address as int)
        } else {
            pack_address(v.station_address as int, v.config.receive_address as int)
        }) as u32,
        read_len: if sending {
            v.send_len as u16
        } else if checking {
            1
        } else {
            v.config.receive_capacity
        },
        write_payload: if sending {
            v.send_frame
        } else {
            zero_frame()
        },
        write_len: if sending {
            v.send_len as u8
        } else {
            0
        },
        deadline_ns: if deadline < v.configuration_deadline_ns {
            deadline
        } else {
            v.configuration_deadline_ns
        },
        expected_wkc: 1,
    }
}

/// The controller and the result after asking for the next action at
/// `now_ns`: the pending action is repeated until it is answered.
pub open spec fn spec_next_action(v: MailboxView, now_ns: u64) -> (MailboxView, Result<
    Option<MailboxAction>,
    MailboxError,
>) {
    if v.phase == MailboxPhase::Idle {
        (v, Err(MailboxError::NotStarted))
    } else if v.phase == MailboxPhase::Complete || v.phase == MailboxPhase::Faulted {
        (v, Ok(None))
    } else if v.pending is Some {
        (v, Ok(v.pending))
    } else if now_ns >= v.configuration_deadline_ns {
        (mailbox_fault(v, MailboxError::Timeout), Err(MailboxError::Timeout))
    } else if (v.phase == MailboxPhase::CheckingStatus || v.phase == MailboxPhase::Polling)
        && now_ns < v.poll_due_ns {
        (v, Ok(None))
    } else if v.phase == MailboxPhase::CheckingStatus && v.config.status_bit is None {
        (v, Err(MailboxError::InvalidConfiguration))
    } else {
        let action = phase_action(v, now_ns);
        (
            MailboxView {
                pending: Some(action),
                next_token: next_nonzero(v.next_token),
                next_datagram_index: next_nonzero(v.next_datagram_index),
                ..v
            },
            Ok(Some(action)),
        )
    }
}

/// The controller and the result after the response `payload` to `action`;
/// `has_sink` tells whether a CoE Emergency can be handed on.
pub open spec fn spec_accept(
    v: MailboxView,
    action: MailboxAction,
    generation: u16,
    payload: Seq<u8>,
    working_counter: u16,
    now_ns: u64,
    has_sink: bool,
) -> (MailboxView, Result<MailboxProgress, MailboxError>) {
    if v.pending != Some(action) {
        (mailbox_fault(v, MailboxError::ActionMismatch), Err(MailboxError::ActionMismatch))
    } else if action.generation != generation {
        (mailbox_fault(v, MailboxError::GenerationMismatch), Err(MailboxError::GenerationMismatch))
    } else if now_ns > action.deadline_ns {
        spec_retry_or_fail(v, MailboxError::Timeout, now_ns)
    } else if working_counter != action.expected_wkc {
        spec_retry_or_fail(v, MailboxError::UnexpectedWorkingCounter, now_ns)
    } else if payload.len() != action.spec_datagram_len() {
        spec_retry_or_fail(v, MailboxError::PayloadLengthMismatch, now_ns)
    } else if v.phase == MailboxPhase::Sending {
        (
            MailboxView {
                phase: if v.config.status_bit is Some {
                    MailboxPhase::CheckingStatus
                } else {
                    MailboxPhase::Polling
                },
                poll_due_ns: now_ns,
                pending: None,
                ..v
            },
            Ok(MailboxProgress::Advanced),
        )
    } else if v.phase == MailboxPhase::CheckingStatus {
        match v.config.status_bit {
            None => (v, Err(MailboxError::InvalidConfiguration)),
            Some(status_bit) => {
                let raised = (payload[0] & status_bit.mask) != 0;
                let active = if status_bit.active_high {
                    raised
                } else {
                    !raised
                };
                if active {
                    (
                        MailboxView {
                            pending: None,
                            phase: MailboxPhase::Polling,
                            poll_due_ns: now_ns,
                            ..v
                        },
                        Ok(MailboxProgress::Advanced),
                    )
                } else {
                    (
                        MailboxView {
                            pending: None,
                            poll_due_ns: saturating_add_u64(now_ns, v.config.poll_interval_ns),
                            ..v
                        },
                        Ok(MailboxProgress::NoMessage),
                    )
                }
            },
        }
    } else if v.phase == MailboxPhase::Polling {
        match spec_parse_mailbox_frame(payload) {
            Err(e) => spec_retry_or_fail(v, e, now_ns),
            Ok(frame) => {
                let header = frame.0;
                let body = frame.1;
                if header.length == 0 {
                    (
                        MailboxView {
                            pending: None,
                            poll_due_ns: saturating_add_u64(now_ns, v.config.poll_interval_ns),
                            ..v
                        },
                        Ok(MailboxProgress::NoMessage),
                    )
                } else if header.protocol == MailboxProtocol::CoE && spec_emergency_ok(body) is Ok {
                    if !has_sink {
                        spec_retry_or_fail(v, MailboxError::EmergencyUnconsumed, now_ns)
                    } else {
                        (
                            MailboxView {
                                pending: None,
                                poll_due_ns: saturating_add_u64(now_ns, v.config.poll_interval_ns),
                                discarded_frames: saturating_increment_u32(v.discarded_frames),
                                ..v
                            },
                            Ok(MailboxProgress::EmergencyConsumed),
                        )
                    }
                } else if header.protocol != v.protocol {
                    spec_retry_or_fail(v, MailboxError::ProtocolMismatch, now_ns)
                } else if header.counter != v.counter {
                    spec_retry_or_fail(v, MailboxError::CounterMismatch, now_ns)
                } else {
                    (
                        MailboxView {
                            response: body,
                            response_header: Some(header),
                            phase: MailboxPhase::Complete,
                            pending: None,
                            ..v
                        },
                        Ok(MailboxProgress::Complete),
                    )
                }
            },
        }
    } else {
        (mailbox_fault(v, MailboxError::NoPendingAction), Err(MailboxError::NoPendingAction))
    }
}

/// The Emergency that a response hands to the sink: its mailbox counter and
/// CoE body, when the response is a CoE Emergency read while polling for a
/// caller with a sink.
pub open spec fn spec_accept_emergency(
    v: MailboxView,
    action: MailboxAction,
    generation: u16,
    payload: Seq<u8>,
    working_counter: u16,
    now_ns: u64,
    has_sink: bool,
) -> Option<(u8, Seq<u8>)> {
    if v.pending == Some(action) && action.generation == generation && now_ns <= action.deadline_ns
        && working_counter == action.expected_wkc && payload.len() == action.spec_datagram_len()
        && v.phase == MailboxPhase::Polling && has_sink {
        match spec_parse_mailbox_frame(payload) {
            Ok((header, body)) => if header.length != 0 && header.protocol == MailboxProtocol::CoE
                && spec_emergency_ok(body) is Ok {
                Some((header.counter, body))
            } else {
                None
            },
            Err(_) => None,
        }
    } else {
        None
    }
}

/// `event` is the Emergency in CoE `body`, stamped with the time, the
/// station, the generation and the mailbox counter.
pub open spec fn is_emergency_event(
    event: CoeEmergencyEvent,
    now_ns: u64,
    station_address: u16,
    generation: u16,
    counter: u8,
    body: Seq<u8>,
) -> bool {
    &&& event.timestamp_ns == now_ns
    &&& event.station_address == station_address
    &&& event.generation == generation
    &&& event.counter == counter
    &&& event.reserved@ == seq![0u8, 0u8, 0u8]
    &&& event.error_code == get_le16(body, 2)
    &&& event.error_register == body[4]
    &&& event.manufacturer_data@ == body.subrange(5, 10)
}

/// What the sink saw of one response: the Emergency it carried, appended to
/// a logging sink's log and kept while the sink has room, or nothing at
/// all.
pub open spec fn emergency_handed<S: EmergencySink>(
    before: S,
    after: S,
    v: MailboxView,
    delivery: Option<(u8, Seq<u8>)>,
    now_ns: u64,
) -> bool {
    match delivery {
        Some((counter, body)) => {
            &&& before.sink_wf() ==> after.sink_wf()
            &&& before.logs_events() ==> {
                let event = after.recorded().last();
                &&& after.logs_events()
                &&& after.recorded().len() == before.recorded().len() + 1
                &&& after.recorded().drop_last() == before.recorded()
                &&& is_emergency_event(event, now_ns, v.station_address, v.generation, counter, body)
                &&& before.sink_wf() ==> after.kept_events() == if before.kept_events().len() < before.sink_capacity() {
                    before.kept_events().push(event)
                } else {
                    before.kept_events()
                }
            }
        },
        None => after == before,
    }
}

/// The Emergency that taking the completed request behind `handle` hands to
/// the sink: the one in its response, when the request is complete and
/// matches the pending action.
pub open spec fn spec_completed_emergency<const REQUESTS: usize>(
    before: MailboxController,
    pool_before: ControlRequestPool<REQUESTS>,
    handle: RequestHandle,
    now_ns: u64,
    has_sink: bool,
) -> Option<(u8, Seq<u8>)> {
    let v = before@;
    let i = handle.spec_index() as int;
    if v.pending is None || !pool_before.is_live(i) {
        None
    } else {
        let action = v.pending->Some_0;
        let request = pool_before.spec_requests()[i];
        let len = action.spec_datagram_len();
        if request.state == RequestState::Complete && request.datagram_index == action.datagram_index
            && request.generation == action.generation && request.address == action.address
            && request.response_length == len && request.length == len {
            spec_accept_emergency(v, action, request.generation, request.payload@, request.actual_wkc, now_ns, has_sink)
        } else {
            None
        }
    }
}

/// `after` is `before` with slot `i` released.
pub open spec fn released_slot<const REQUESTS: usize>(
    before: ControlRequestPool<REQUESTS>,
    after: ControlRequestPool<REQUESTS>,
    i: int,
) -> bool {
    &&& after.spec_used() == before.spec_used().update(i, false)
    &&& after.spec_requests()[i].is_empty_request()
    &&& forall|k: int|
        0 <= k < REQUESTS && k != i ==> #[trigger] after.spec_requests()[k] == before.spec_requests()[k]
}

/// The outcome of taking the completed control request behind `handle` for
/// the pending action: a completed request that matches the action is
/// offered as its response; a failed request retries on a working counter
/// mismatch and faults otherwise; either way the request is released. A
/// request still in progress is left alone.
pub open spec fn completed_outcome<const REQUESTS: usize>(
    before: MailboxController,
    after: MailboxController,
    pool_before: ControlRequestPool<REQUESTS>,
    pool_after: ControlRequestPool<REQUESTS>,
    handle: RequestHandle,
    now_ns: u64,
    has_sink: bool,
    result: Result<MailboxProgress, MailboxError>,
) -> bool {
    let v = before@;
    let i = handle.spec_index() as int;
    if v.pending is None {
        (after@, result) == (mailbox_fault(v, MailboxError::NoPendingAction), Err::<MailboxProgress, MailboxError>(MailboxError::NoPendingAction))
            && pool_after == pool_before
    } else if !pool_before.is_live(i) {
        let e = MailboxError::Control(ControlError::InvalidHandle);
        (after@, result) == (mailbox_fault(v, e), Err::<MailboxProgress, MailboxError>(e)) && pool_after == pool_before
    } else {
        let action = v.pending->Some_0;
        let request = pool_before.spec_requests()[i];
        let len = action.spec_datagram_len();
        if request.state == RequestState::Complete {
            &&& released_slot(pool_before, pool_after, i)
            &&& if !(request.datagram_index == action.datagram_index && request.generation
                == action.generation && request.address == action.address && request.response_length
                == len && request.length == len) {
                (after@, result) == (mailbox_fault(v, MailboxError::ActionMismatch), Err::<MailboxProgress, MailboxError>(MailboxError::ActionMismatch))
            } else {
                (after@, result) == spec_accept(
                    v,
                    action,
                    request.generation,
                    request.payload@,
                    request.actual_wkc,
                    now_ns,
                    has_sink,
                )
            }
        } else if request.state == RequestState::Failed {
            let error = match request.last_error {
                Some(e) => e,
                None => ControlError::InvalidState,
            };
            &&& released_slot(pool_before, pool_after, i)
            &&& if error == ControlError::WorkingCounterMismatch {
                (after@, result) == spec_retry_or_fail(v, MailboxError::UnexpectedWorkingCounter, now_ns)
            } else {
                (after@, result) == (mailbox_fault(v, MailboxError::Control(error)), Err::<MailboxProgress, MailboxError>(MailboxError::Control(error)))
            }
        } else {
            &&& result == Err::<MailboxProgress, MailboxError>(MailboxError::Control(ControlError::InvalidState))
            &&& after@ == v
            &&& pool_after == pool_before
        }
    }
}

/// Whether `config` and `payload` can start a transaction.
pub open spec fn valid_start(config: MailboxConfig, payload_len: int) -> bool {
    &&& config.send_capacity <= MAX_MAILBOX_BYTES
    &&& config.receive_capacity <= MAX_MAILBOX_BYTES
    &&& config.receive_capacity >= MAILBOX_HEADER_LEN
    &&& !(config.status_bit is Some && config.status_bit->Some_0.mask == 0)
    &&& payload_len + MAILBOX_HEADER_LEN <= config.send_capacity
    &&& payload_len + MAILBOX_HEADER_LEN <= MAX_MAILBOX_BYTES
}

/// The next transaction counter: 1..7, wrapping after 7.
pub open spec fn next_counter_after(counter: u8) -> u8 {
    if counter >= MAILBOX_COUNTER_MASK {
        1
    } else {
        (counter + 1) as u8
    }
}

pub struct MailboxController {
    phase: MailboxPhase,
    config: MailboxConfig,
    generation: u16,
    station_address: u16,
    configuration_deadline_ns: u64,
    protocol: MailboxProtocol,
    counter: u8,
    next_counter: u8,
    send_frame: [u8; MAX_MAILBOX_BYTES],
    send_len: usize,
    response: Vec<u8>,
    response_header: Option<MailboxHeader>,
    poll_due_ns: u64,
    pending: Option<MailboxAction>,
    next_token: u8,
    next_datagram_index: u8,
    last_error: Option<MailboxError>,
    retry_count: u8,
    last_retry_error: Option<MailboxError>,
    discarded_frames: u32,
}

impl View for MailboxController {
    type V = MailboxView;

    closed spec fn view(&self) -> MailboxView {
        MailboxView {
            phase: self.phase,
            config: self.config,
            generation: self.generation,
            station_address: self.station_address,
            configuration_deadline_ns: self.configuration_deadline_ns,
            protocol: self.protocol,
            counter: self.counter,
            next_counter: self.next_counter,
            send_frame: self.send_frame,
            send_len: self.send_len,
            response: self.response@,
            response_header: self.response_header,
            poll_due_ns: self.poll_due_ns,
            pending: self.pending,
            next_token: self.next_token,
            next_datagram_index: self.next_datagram_index,
            last_error: self.last_error,
            retry_count: self.retry_count,
            last_retry_error: self.last_retry_error,
            discarded_frames: self.discarded_frames,
        }
    }
}

/// The controller's own invariant: a counter in 1..7, a request frame that
/// fits the mailbox, and a pending action that can be sent.
pub open spec fn mailbox_wf(v: MailboxView) -> bool {
    &&& 1 <= v.next_counter <= MAILBOX_COUNTER_MASK
    &&& v.send_len <= MAX_MAILBOX_BYTES
    &&& (v.pending matches Some(a) ==> a.write_len <= MAX_MAILBOX_BYTES)
    &&& (v.phase == MailboxPhase::CheckingStatus && v.pending is Some ==> v.pending->Some_0.read_len
        == 1)
}

impl MailboxController {
    pub open spec fn wf(&self) -> bool {
        mailbox_wf(self@)
    }

    pub open spec fn spec_initial() -> MailboxView {
        MailboxView {
            phase: MailboxPhase::Idle,
            config: MailboxConfig::spec_new(0, 0, 0, 0),
            generation: 0,
            station_address: 0,
            configuration_deadline_ns: 0,
            protocol: MailboxProtocol::Error,
            counter: 0,
            next_counter: 1,
            send_frame: zero_frame(),
            send_len: 0,
            response: Seq::empty(),
            response_header: None,
            poll_due_ns: 0,
            pending: None,
            next_token: 1,
            next_datagram_index: 1,
            last_error: None,
            retry_count: 0,
            last_retry_error: None,
            discarded_frames: 0,
        }
    }

    pub fn new() -> (controller: Self)
        ensures
            controller@ == Self::spec_initial(),
            controller.wf(),
    {
        let controller = MailboxController {
            phase: MailboxPhase::Idle,
            config: MailboxConfig::new(0, 0, 0, 0),
            generation: 0,
            station_address: 0,
            configuration_deadline_ns: 0,
            protocol: MailboxProtocol::Error,
            counter: 0,
            next_counter: 1,
            send_frame: [0u8; MAX_MAILBOX_BYTES],
            send_len: 0,
            response: Vec::new(),
            response_header: None,
            poll_due_ns: 0,
            pending: None,
            next_token: 1,
            next_datagram_index: 1,
            last_error: None,
            retry_count: 0,
            last_retry_error: None,
            discarded_frames: 0,
        };
        assert(controller@.response =~= Seq::<u8>::empty());
        controller
    }

    pub fn phase(&self) -> (phase: MailboxPhase)
        ensures
            phase == self@.phase,
    {
        self.phase
    }

    pub fn pending(&self) -> (pending: Option<MailboxAction>)
        ensures
            pending == self@.pending,
    {
        self.pending
    }

    pub fn last_error(&self) -> (error: Option<MailboxError>)
        ensures
            error == self@.last_error,
    {
        self.last_error
    }

    pub fn retry_count(&self) -> (count: u8)
        ensures
            count == self@.retry_count,
    {
        self.retry_count
    }

    pub fn last_retry_error(&self) -> (error: Option<MailboxError>)
        ensures
            error == self@.last_retry_error,
    {
        self.last_retry_error
    }

    pub fn discarded_frames(&self) -> (count: u32)
        ensures
            count == self@.discarded_frames,
    {
        self.discarded_frames
    }

    /// The received header and payload, once the transaction is complete.
    pub fn response(&self) -> (response: Option<(&MailboxHeader, &[u8])>)
        ensures
            self@.phase != MailboxPhase::Complete || self@.response_header is None ==> response is None,
            self@.phase == MailboxPhase::Complete && self@.response_header is Some ==> (response matches Some(
                pair,
            ) && *pair.0 == self@.response_header->Some_0 && pair.1@ == self@.response),
    {
        if self.phase != MailboxPhase::Complete {
            return None;
        }
        match &self.response_header {
            Some(header) => Some((header, self.response.as_slice())),
            None => None,
        }
    }

    /// Begin a transaction that sends `payload` with `protocol`.
    pub fn start(
        &mut self,
        config: MailboxConfig,
        station_address: u16,
        generation: u16,
        now_ns: u64,
        protocol: MailboxProtocol,
        payload: &[u8],
    ) -> (result: Result<(), MailboxError>)
        requires
            old(self).wf(),
        ensures
            final(self).wf(),
            !(old(self)@.phase == MailboxPhase::Idle || old(self)@.phase == MailboxPhase::Complete
                || old(self)@.phase == MailboxPhase::Faulted) ==> result == Err::<(), MailboxError>(
                MailboxError::Busy,
            ) && final(self)@ == old(self)@,
            (old(self)@.phase == MailboxPhase::Idle || old(self)@.phase == MailboxPhase::Complete
                || old(self)@.phase == MailboxPhase::Faulted) && !valid_start(config, payload@.len() as int)
                ==> result == Err::<(), MailboxError>(MailboxError::InvalidConfiguration) && final(self)@
                == old(self)@,
            (old(self)@.phase == MailboxPhase::Idle || old(self)@.phase == MailboxPhase::Complete
                || old(self)@.phase == MailboxPhase::Faulted) && valid_start(config, payload@.len() as int)
                ==> {
                let counter = old(self)@.next_counter;
                let header = MailboxHeader {
                    length: payload@.len() as u16,
                    address: 0,
                    priority: 0,
                    protocol,
                    counter,
                };
                let v = final(self)@;
                &&& result is Ok
                &&& v.phase == MailboxPhase::Sending
                &&& v.config == config
                &&& v.station_address == station_address
                &&& v.generation == generation
                &&& v.configuration_deadline_ns == saturating_add_u64(now_ns, config.timeout_ns)
                &&& v.protocol == protocol
                &&& v.counter == counter
                &&& v.next_counter == next_counter_after(counter)
                &&& v.send_len == MAILBOX_HEADER_LEN + payload@.len()
                &&& v.send_frame@ == mailbox_header_bytes(header) + payload@ + zeros_to_frame(
                    MAILBOX_HEADER_LEN + payload@.len(),
                )
                &&& v.response == Seq::<u8>::empty()
                &&& v.response_header is None
                &&& v.poll_due_ns == now_ns
                &&& v.pending is None
                &&& v.next_token == 1
                &&& v.next_datagram_index == 1
                &&& v.last_error is None
                &&& v.retry_count == 0
                &&& v.last_retry_error is None
                &&& v.discarded_frames == 0
            },
    {
        if !(self.phase == MailboxPhase::Idle || self.phase == MailboxPhase::Complete || self.phase
            == MailboxPhase::Faulted) {
            return Err(MailboxError::Busy);
        }
        let status_mask_zero = match config.status_bit {
            Some(status_bit) => status_bit.mask == 0,
            None => false,
        };
        let payload_len = payload.len();
        if (config.send_capacity as usize) > MAX_MAILBOX_BYTES || (config.receive_capacity as usize)
            > MAX_MAILBOX_BYTES || (config.receive_capacity as usize) < MAILBOX_HEADER_LEN
            || status_mask_zero || payload_len > MAX_MAILBOX_BYTES || payload_len
            + MAILBOX_HEADER_LEN > (config.send_capacity as usize) || payload_len
            + MAILBOX_HEADER_LEN > MAX_MAILBOX_BYTES {
            return Err(MailboxError::InvalidConfiguration);
        }
        let counter = self.next_counter;
        self.next_counter = if counter >= MAILBOX_COUNTER_MASK {
            1
        } else {
            counter + 1
        };
        let header = MailboxHeader {
            length: payload_len as u16,
            address: 0,
            priority: 0,
            protocol,
            counter,
        };
        let mut frame = [0u8; MAX_MAILBOX_BYTES];
        let ghost blank = frame@;
        assert(blank == zeros_to_frame(0));
        match header.encode(&mut frame) {
            Ok(()) => {},
            Err(_) => {
                assert(false);
            },
        }
        let ghost head = frame@;
        let mut i: usize = 0;
        while i < payload_len
            invariant
                i <= payload_len,
                payload_len == payload@.len(),
                payload_len + MAILBOX_HEADER_LEN <= MAX_MAILBOX_BYTES,
                frame@.len() == MAX_MAILBOX_BYTES,
                head.len() == MAX_MAILBOX_BYTES,
                frame@ == splice(head, MAILBOX_HEADER_LEN as int, payload@.subrange(0, i as int)),
            decreases payload_len - i,
        {
            proof {
                lemma_splice_extend(head, MAILBOX_HEADER_LEN as int, payload@.subrange(0, i as int), payload@[i as int]);
                assert(payload@.subrange(0, i as int).push(payload@[i as int]) =~= payload@.subrange(0, i + 1));
            }
            frame[MAILBOX_HEADER_LEN + i] = payload[i];
            i = i + 1;
        }
        assert(frame@ =~= mailbox_header_bytes(header) + payload@ + zeros_to_frame(
            MAILBOX_HEADER_LEN + payload@.len(),
        ));
        self.send_frame = frame;
        self.send_len = MAILBOX_HEADER_LEN + payload_len;
        self.config = config;
        self.station_address = station_address;
        self.generation = generation;
        self.configuration_deadline_ns = now_ns.saturating_add(config.timeout_ns);
        self.protocol = protocol;
        self.counter = counter;
        self.response = Vec::new();
        self.response_header = None;
        self.poll_due_ns = now_ns;
        self.pending = None;
        self.next_token = 1;
        self.next_datagram_index = 1;
        self.last_error = None;
        self.retry_count = 0;
        self.last_retry_error = None;
        self.discarded_frames = 0;
        self.phase = MailboxPhase::Sending;
        assert(self@.response =~= Seq::<u8>::empty());
        Ok(())
    }

    /// The action to perform now, if any; see `spec_next_action`.
    pub fn next_action(&mut self, now_ns: u64) -> (result: Result<Option<MailboxAction>, MailboxError>)
        requires
            old(self).wf(),
        ensures
            final(self).wf(),
            (final(self)@, result) == spec_next_action(old(self)@, now_ns),
    {
        if self.phase == MailboxPhase::Idle {
            return Err(MailboxError::NotStarted);
        }
        if self.phase == MailboxPhase::Complete || self.phase == MailboxPhase::Faulted {
            return Ok(None);
        }
        if let Some(action) = self.pending {
            return Ok(Some(action));
        }
        if now_ns >= self.configuration_deadline_ns {
            return match self.fail(MailboxError::Timeout) {
                Err(error) => Err(error),
                Ok(_) => Ok(None),
            };
        }
        if (self.phase == MailboxPhase::CheckingStatus || self.phase == MailboxPhase::Polling)
            && now_ns < self.poll_due_ns {
            return Ok(None);
        }
        let sending = self.phase == MailboxPhase::Sending;
        let (operation, address, read_len, payload, write_len) = if sending {
            (
                RegisterOperation::Write,
                fixed_address(self.station_address, self.config.send_address),
                self.send_len as u16,
                self.send_frame,
                self.send_len as u8,
            )
        } else if self.phase == MailboxPhase::CheckingStatus {
            let status_bit = match self.config.status_bit {
                Some(status_bit) => status_bit,
                None => return Err(MailboxError::InvalidConfiguration),
            };
            (
                RegisterOperation::Read,
                fixed_address(self.station_address, status_bit.address),
                1u16,
                [0u8; MAX_MAILBOX_BYTES],
                0u8,
            )
        } else {
            (
                RegisterOperation::Read,
                fixed_address(self.station_address, self.config.receive_address),
                self.config.receive_capacity,
                [0u8; MAX_MAILBOX_BYTES],
                0u8,
            )
        };
        let deadline = now_ns.saturating_add(self.config.request_timeout_ns);
        let action = MailboxAction {
            token: self.next_token,
            datagram_index: self.next_datagram_index,
            generation: self.generation,
            station_address: self.station_address,
            operation,
            address,
            read_len,
            write_payload: payload,
            write_len,
            deadline_ns: if deadline < self.configuration_deadline_ns {
                deadline
            } else {
                self.configuration_deadline_ns
            },
            expected_wkc: 1,
        };
        assert(action == phase_action(old(self)@, now_ns));
        self.next_token = if self.next_token == u8::MAX {
            1
        } else {
            self.next_token + 1
        };
        self.next_datagram_index = if self.next_datagram_index == u8::MAX {
            1
        } else {
            self.next_datagram_index + 1
        };
        self.pending = Some(action);
        Ok(Some(action))
    }

    /// Queue the pending action as a control request in `pool`.
    pub fn enqueue_pending<const REQUESTS: usize>(&self, pool: &mut ControlRequestPool<REQUESTS>) -> (result:
        Result<RequestHandle, ControlError>)
        requires
            self.wf(),
            old(pool).wf(),
        ensures
            final(pool).wf(),
            self@.pending is None ==> result == Err::<RequestHandle, ControlError>(
                ControlError::InvalidState,
            ) && *final(pool) == *old(pool),
            self@.pending matches Some(action) ==> acquire_outcome(
                *old(pool),
                *final(pool),
                action.datagram_index,
                action.generation,
                action.address,
                action.operation,
                action.write_payload@.subrange(0, action.write_len as int),
                action.spec_datagram_len(),
                action.deadline_ns,
                result,
            ),
    {
        let action = match self.pending {
            Some(action) => action,
            None => return Err(ControlError::InvalidState),
        };
        pool.acquire_with_response_len(
            action.datagram_index,
            action.generation,
            action.address,
            action.operation,
            action.payload(),
            action.datagram_len(),
            action.deadline_ns,
        )
    }

    /// Offer the response to `action`; a CoE Emergency found while polling
    /// fails the exchange, since there is nowhere to hand it.
    pub fn accept(
        &mut self,
        action: MailboxAction,
        generation: u16,
        payload: &[u8],
        working_counter: u16,
        now_ns: u64,
    ) -> (result: Result<MailboxProgress, MailboxError>)
        requires
            old(self).wf(),
        ensures
            final(self).wf(),
            (final(self)@, result) == spec_accept(
                old(self)@,
                action,
                generation,
                payload@,
                working_counter,
                now_ns,
                false,
            ),
    {
        let mut no_sink = DiscardEmergencies;
        self.accept_impl(action, generation, payload, working_counter, now_ns, &mut no_sink, false)
    }

    /// Offer the response to `action`; a CoE Emergency found while polling
    /// is handed to `emergency_sink` and the polling goes on.
    pub fn accept_with_emergency_sink<S: EmergencySink>(
        &mut self,
        action: MailboxAction,
        generation: u16,
        payload: &[u8],
        working_counter: u16,
        now_ns: u64,
        emergency_sink: &mut S,
    ) -> (result: Result<MailboxProgress, MailboxError>)
        requires
            old(self).wf(),
        ensures
            final(self).wf(),
            (final(self)@, result) == spec_accept(
                old(self)@,
                action,
                generation,
                payload@,
                working_counter,
                now_ns,
                true,
            ),
            emergency_handed(*old(emergency_sink), *final(emergency_sink), old(self)@, spec_accept_emergency(
                old(self)@, action, generation, payload@, working_counter, now_ns, true), now_ns),
    {
        self.accept_impl(action, generation, payload, working_counter, now_ns, emergency_sink, true)
    }

    fn accept_impl<S: EmergencySink>(
        &mut self,
        action: MailboxAction,
        generation: u16,
        payload: &[u8],
        working_counter: u16,
        now_ns: u64,
        emergency_sink: &mut S,
        has_sink: bool,
    ) -> (result: Result<MailboxProgress, MailboxError>)
        requires
            old(self).wf(),
        ensures
            final(self).wf(),
            (final(self)@, result) == spec_accept(
                old(self)@,
                action,
                generation,
                payload@,
                working_counter,
                now_ns,
                has_sink,
            ),
            emergency_handed(*old(emergency_sink), *final(emergency_sink), old(self)@, spec_accept_emergency(
                old(self)@, action, generation, payload@, working_counter, now_ns, has_sink), now_ns),
    {
        let matches = match &self.pending {
            Some(pending) => same_action(pending, &action),
            None => false,
        };
        if !matches {
            return self.fail(MailboxError::ActionMismatch);
        }
        if action.generation != generation {
            return self.fail(MailboxError::GenerationMismatch);
        }
        if now_ns > action.deadline_ns {
            return self.retry_or_fail(MailboxError::Timeout, now_ns);
        }
        if working_counter != action.expected_wkc {
            return self.retry_or_fail(MailboxError::UnexpectedWorkingCounter, now_ns);
        }
        if payload.len() != action.datagram_len() {
            return self.retry_or_fail(MailboxError::PayloadLengthMismatch, now_ns);
        }
        if self.phase == MailboxPhase::Sending {
            self.phase = if self.config.status_bit.is_some() {
                MailboxPhase::CheckingStatus
            } else {
                MailboxPhase::Polling
            };
            self.poll_due_ns = now_ns;
            self.pending = None;
            return Ok(MailboxProgress::Advanced);
        }
        if self.phase == MailboxPhase::CheckingStatus {
            let status_bit = match self.config.status_bit {
                Some(status_bit) => status_bit,
                None => return Err(MailboxError::InvalidConfiguration),
            };
            let raised = (payload[0] & status_bit.mask) != 0;
            let active = if status_bit.active_high {
                raised
            } else {
                !raised
            };
            self.pending = None;
            if active {
                self.phase = MailboxPhase::Polling;
                self.poll_due_ns = now_ns;
                return Ok(MailboxProgress::Advanced);
            }
            self.poll_due_ns = now_ns.saturating_add(self.config.poll_interval_ns);
            return Ok(MailboxProgress::NoMessage);
        }
        if self.phase == MailboxPhase::Polling {
            let frame = match MailboxFrame::parse(payload) {
                Ok(frame) => frame,
                Err(error) => return self.retry_or_fail(error, now_ns),
            };
            if frame.header.length == 0 {
                self.pending = None;
                self.poll_due_ns = now_ns.saturating_add(self.config.poll_interval_ns);
                return Ok(MailboxProgress::NoMessage);
            }
            if frame.header.protocol == MailboxProtocol::CoE {
                if let Ok(emergency) = CoeEmergency::parse(frame.payload) {
                    if !has_sink {
                        return self.retry_or_fail(MailboxError::EmergencyUnconsumed, now_ns);
                    }
                    let event = CoeEmergencyEvent::new(
                        now_ns,
                        self.station_address,
                        self.generation,
                        frame.header.counter,
                        emergency,
                    );
                    let _ = emergency_sink.record(event);
                    proof {
                        if old(emergency_sink).logs_events() {
                            assert(emergency_sink.recorded().drop_last() =~= old(emergency_sink).recorded());
                        }
                    }
                    self.pending = None;
                    self.poll_due_ns = now_ns.saturating_add(self.config.poll_interval_ns);
                    self.discarded_frames = self.discarded_frames.saturating_add(1);
                    return Ok(MailboxProgress::EmergencyConsumed);
                }
            }
            if frame.header.protocol != self.protocol {
                return self.retry_or_fail(MailboxError::ProtocolMismatch, now_ns);
            }
            if frame.header.counter != self.counter {
                return self.retry_or_fail(MailboxError::CounterMismatch, now_ns);
            }
            self.response = copy_range(frame.payload, 0, frame.payload.len());
            assert(self.response@ =~= frame.payload@);
            self.response_header = Some(frame.header);
            self.phase = MailboxPhase::Complete;
            self.pending = None;
            return Ok(MailboxProgress::Complete);
        }
        self.fail(MailboxError::NoPendingAction)
    }

    /// Take the outcome of the control request behind `handle`, which
    /// carried the pending action, and release the request.
    pub fn accept_completed<const REQUESTS: usize>(
        &mut self,
        pool: &mut ControlRequestPool<REQUESTS>,
        handle: RequestHandle,
        now_ns: u64,
    ) -> (result: Result<MailboxProgress, MailboxError>)
        requires
            old(self).wf(),
            old(pool).wf(),
        ensures
            final(self).wf(),
            final(pool).wf(),
            completed_outcome(*old(self), *final(self), *old(pool), *final(pool), handle, now_ns, false, result),
    {
        let mut no_sink = DiscardEmergencies;
        self.accept_completed_impl(pool, handle, now_ns, &mut no_sink, false)
    }

    pub fn accept_completed_with_emergency_sink<const REQUESTS: usize, S: EmergencySink>(
        &mut self,
        pool: &mut ControlRequestPool<REQUESTS>,
        handle: RequestHandle,
        now_ns: u64,
        emergency_sink: &mut S,
    ) -> (result: Result<MailboxProgress, MailboxError>)
        requires
            old(self).wf(),
            old(pool).wf(),
        ensures
            final(self).wf(),
            final(pool).wf(),
            completed_outcome(*old(self), *final(self), *old(pool), *final(pool), handle, now_ns, true, result),
            emergency_handed(*old(emergency_sink), *final(emergency_sink), old(self)@, spec_completed_emergency(
                *old(self), *old(pool), handle, now_ns, true), now_ns),
    {
        self.accept_completed_impl(pool, handle, now_ns, emergency_sink, true)
    }

    fn accept_completed_impl<const REQUESTS: usize, S: EmergencySink>(
        &mut self,
        pool: &mut ControlRequestPool<REQUESTS>,
        handle: RequestHandle,
        now_ns: u64,
        emergency_sink: &mut S,
        has_sink: bool,
    ) -> (result: Result<MailboxProgress, MailboxError>)
        requires
            old(self).wf(),
            old(pool).wf(),
        ensures
            final(self).wf(),
            final(pool).wf(),
            completed_outcome(*old(self), *final(self), *old(pool), *final(pool), handle, now_ns, has_sink, result),
            emergency_handed(*old(emergency_sink), *final(emergency_sink), old(self)@, spec_completed_emergency(
                *old(self), *old(pool), handle, now_ns, has_sink), now_ns),
    {
        let action = match self.pending {
            Some(action) => action,
            None => return self.fail(MailboxError::NoPendingAction),
        };
        let (state, consistent, generation, actual_wkc, response, last_error) = match pool.get(handle) {
            Some(request) => {
                let len = action.datagram_len();
                let consistent = request.datagram_index == action.datagram_index
                    && request.generation == action.generation && request.address == action.address
                    && request.response_length == len && request.length == len;
                (
                    request.state,
                    consistent,
                    request.generation,
                    request.actual_wkc,
                    copy_range(request.payload(), 0, request.payload.len()),
                    request.last_error,
                )
            },
            None => return self.fail(MailboxError::Control(ControlError::InvalidHandle)),
        };
        let ghost request = pool.spec_requests()[handle.spec_index() as int];
        assert(response@ =~= request.payload@);
        if state == RequestState::Complete {
            if !consistent {
                let _ = pool.release(handle);
                return self.fail(MailboxError::ActionMismatch);
            }
            let progress = self.accept_impl(
                action,
                generation,
                response.as_slice(),
                actual_wkc,
                now_ns,
                emergency_sink,
                has_sink,
            );
            let release = pool.release(handle);
            match (progress, release) {
                (Ok(progress), Ok(())) => Ok(progress),
                (Ok(_), Err(error)) => self.fail(MailboxError::Control(error)),
                (Err(error), _) => Err(error),
            }
        } else if state == RequestState::Failed {
            let error = match last_error {
                Some(error) => error,
                None => ControlError::InvalidState,
            };
            let _ = pool.release(handle);
            if error == ControlError::WorkingCounterMismatch {
                return self.retry_or_fail(MailboxError::UnexpectedWorkingCounter, now_ns);
            }
            self.fail(MailboxError::Control(error))
        } else {
            Err(MailboxError::Control(ControlError::InvalidState))
        }
    }

    /// Give up on `action` once its deadline has passed.
    pub fn timeout(&mut self, action: MailboxAction, now_ns: u64) -> (result: Result<
        MailboxProgress,
        MailboxError,
    >)
        requires
            old(self).wf(),
        ensures
            final(self).wf(),
            old(self)@.pending != Some(action) ==> (final(self)@, result) == (mailbox_fault(
                old(self)@,
                MailboxError::ActionMismatch,
            ), Err::<MailboxProgress, MailboxError>(MailboxError::ActionMismatch)),
            old(self)@.pending == Some(action) && now_ns < action.deadline_ns ==> result == Err::<
                MailboxProgress,
                MailboxError,
            >(MailboxError::Timeout) && final(self)@ == old(self)@,
            old(self)@.pending == Some(action) && now_ns >= action.deadline_ns ==> (final(self)@, result)
                == spec_retry_or_fail(old(self)@, MailboxError::Timeout, now_ns),
    {
        let matches = match &self.pending {
            Some(pending) => same_action(pending, &action),
            None => false,
        };
        if !matches {
            return self.fail(MailboxError::ActionMismatch);
        }
        if now_ns < action.deadline_ns {
            return Err(MailboxError::Timeout);
        }
        self.retry_or_fail(MailboxError::Timeout, now_ns)
    }

    fn retry_or_fail(&mut self, error: MailboxError, now_ns: u64) -> (result: Result<
        MailboxProgress,
        MailboxError,
    >)
        requires
            old(self).wf(),
        ensures
            final(self).wf(),
            (final(self)@, result) == spec_retry_or_fail(old(self)@, error, now_ns),
    {
        if self.retry_count < self.config.retry_policy.max_retries && now_ns
            < self.configuration_deadline_ns {
            self.retry_count = self.retry_count + 1;
            self.last_retry_error = Some(error);
            self.pending = None;
            self.poll_due_ns = now_ns.saturating_add(self.config.retry_policy.retry_delay_ns);
            self.discarded_frames = self.discarded_frames.saturating_add(1);
            Ok(MailboxProgress::RetryScheduled)
        } else {
            self.fail(error)
        }
    }

    fn fail(&mut self, error: MailboxError) -> (result: Result<MailboxProgress, MailboxError>)
        requires
            old(self).wf(),
        ensures
            final(self).wf(),
            final(self)@ == mailbox_fault(old(self)@, error),
            result == Err::<MailboxProgress, MailboxError>(error),
    {
        self.last_error = Some(error);
        self.pending = None;
        self.phase = MailboxPhase::Faulted;
        Err(error)
    }
}

proof fn lemma_splice_extend(s: Seq<u8>, at: int, x: Seq<u8>, b: u8)
    requires
        0 <= at,
        at + x.len() < s.len(),
    ensures
        splice(s, at, x).update(at + x.len(), b) == splice(s, at, x.push(b)),
{
    assert(splice(s, at, x).update(at + x.len(), b) =~= splice(s, at, x.push(b)));
}

/// `n` bytes of a mailbox frame after its first `used` bytes: zeros.
pub open spec fn zeros_to_frame(used: int) -> Seq<u8> {
    crate::bytes::zeros((MAX_MAILBOX_BYTES - used) as nat)
}

/// The sink used when the caller offers none: it keeps nothing.
struct DiscardEmergencies;

impl EmergencySink for DiscardEmergencies {
    fn record(&mut self, event: CoeEmergencyEvent) -> (kept: bool)
        ensures
            !kept,
    {
        false
    }
}

impl Default for MailboxController {
    fn default() -> (controller: Self)
        ensures
            controller@ == Self::spec_initial(),
    {
        MailboxController::new()
    }
}


/// A started transaction takes the controller's pending counter, a value
/// in 1..7, and leaves as the next one that counter plus one, wrapping from
/// 7 to 1, so the next transaction never reuses it.
pub proof fn lemma_start_advances_counter(before: MailboxView, after: MailboxView)
    requires
        mailbox_wf(before),
        after.counter == before.next_counter,
        after.next_counter == next_counter_after(after.counter),
    ensures
        1 <= after.counter <= 7,
        after.next_counter == after.counter % 7 + 1,
        after.next_counter != after.counter,
        mailbox_wf(after) ==> 1 <= after.next_counter <= 7,
{
}

/// Two transactions started one after the other, with a response to the
/// first accepted in between, carry different counters: the second's is
/// the first's plus one, wrapping from 7 to 1.
pub proof fn lemma_consecutive_transaction_counters(
    first_before: MailboxView,
    first: MailboxView,
    action: MailboxAction,
    generation: u16,
    payload: Seq<u8>,
    working_counter: u16,
    now_ns: u64,
    has_sink: bool,
    second: MailboxView,
)
    requires
        mailbox_wf(first_before),
        first.counter == first_before.next_counter,
        first.next_counter == next_counter_after(first.counter),
        second.counter == spec_accept(first, action, generation, payload, working_counter, now_ns, has_sink).0.next_counter,
    ensures
        second.counter == first.counter % 7 + 1,
        second.counter != first.counter,
{
    lemma_start_advances_counter(first_before, first);
}


/// The request frame of a started transaction carries its counter in the
/// high nibble of header byte 5 and the protocol in the low nibble, so the
/// frames of consecutive transactions differ there.
pub proof fn lemma_started_frame_carries_counter(v: MailboxView, header: MailboxHeader, rest: Seq<u8>)
    requires
        v.send_frame@ == mailbox_header_bytes(header) + rest,
        header.counter == v.counter,
        1 <= v.counter <= 7,
    ensures
        v.send_frame@[5] / 16 == v.counter,
        v.send_frame@[5] % 16 == header.protocol.spec_code(),
{
    let code = header.protocol.spec_code();
    assert(v.send_frame@[5] == mailbox_header_bytes(header)[5]);
    assert(mailbox_header_bytes(header)[5] == (code + header.counter * 16) as u8);
    assert(code < 16);
    assert((code + header.counter * 16) / 16 == header.counter && (code + header.counter * 16) % 16 == code) by (nonlinear_arith)
        requires
            code < 16,
            header.counter <= 7,
    ;
}

} // verus!
