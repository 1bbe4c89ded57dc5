//! Fixed pool of ESC register requests for the control plane.
//!
//! A request is acquired (Prepared), encoded into a frame (InFlight) and
//! completed exactly once by a matching response (Complete or Failed). The
//! pool never publishes a response payload that failed validation.
use vstd::prelude::*;
use crate::bytes::{copy_range, splice, zeros};
use crate::engine::RxDatagramConsumer;
use crate::frame_pool::count_used;
use crate::rx_index::{RxExpectation, RxIndexError, RxMatch};
use crate::wire::{
    body_size, frame_bytes, frame_len, Command, DatagramHeader, DatagramImage, FrameBuilder,
    WireError, MAX_ETHERNET_FRAME_LEN, MIN_ETHERNET_FRAME_LEN,
};

verus! {

pub const MAX_CONTROL_PAYLOAD: usize = 128;

/// Handles address at most this many slots.
pub const MAX_HANDLES: usize = 64;

#[derive(Clone, Copy, Debug, PartialEq, Eq, Structural)]
pub struct RequestHandle(u8);

impl RequestHandle {
    pub closed spec fn spec_index(self) -> usize {
        self.0 as usize
    }

    #[verifier::when_used_as_spec(spec_index)]
    pub fn index(self) -> (index: usize)
        ensures
            index == self.spec_index(),
            index < 256,
    {
        self.0 as usize
    }

    pub fn from_index(index: usize) -> (handle: Option<Self>)
        ensures
            handle is Some <==> index < MAX_HANDLES,
            handle matches Some(h) ==> h.spec_index() == index,
    {
        if index < MAX_HANDLES {
            Some(RequestHandle(index as u8))
        } else {
            None
        }
    }
}

#[derive(Clone, Copy, Debug, PartialEq, Eq, Structural)]
pub enum RequestState {
    Free,
    Prepared,
    InFlight,
    Complete,
    Failed,
}

#[derive(Clone, Copy, Debug, PartialEq, Eq, Structural)]
pub enum RegisterOperation {
    Read,
    Write,
    AutoIncrementRead,
    AutoIncrementWrite,
}

impl RegisterOperation {
    pub open spec fn spec_command(self) -> Command {
        match self {
            RegisterOperation::Read => Command::Fprd,
            RegisterOperation::Write => Command::Fpwr,
            RegisterOperation::AutoIncrementRead => Command::Aprd,
            RegisterOperation::AutoIncrementWrite => Command::Apwr,
        }
    }

    /// The datagram command that carries this register access.
    #[verifier::when_used_as_spec(spec_command)]
    pub fn command(self) -> (command: Command)
        ensures
            command == self.spec_command(),
    {
        match self {
            RegisterOperation::Read => Command::Fprd,
            RegisterOperation::Write => Command::Fpwr,
            RegisterOperation::AutoIncrementRead => Command::Aprd,
            RegisterOperation::AutoIncrementWrite => Command::Apwr,
        }
    }
}

#[derive(Clone, Copy, Debug, PartialEq, Eq, Structural)]
pub enum ControlError {
    TooManyRequests,
    SlotBusy,
    InvalidHandle,
    InvalidState,
    PayloadTooLarge,
    ResponseTooLarge,
    Wire(WireError),
    GenerationMismatch,
    DatagramIndexMismatch,
    TypeMismatch,
    AddressMismatch,
    LengthMismatch,
    WorkingCounterMismatch,
    Timeout,
    RxIndex(RxIndexError),
}

/// One register request. `payload` holds the `length` data bytes of the
/// datagram: the bytes to send before completion, the response after it.
#[derive(Debug)]
pub struct ControlRequest {
    pub datagram_index: u8,
    pub generation: u16,
    pub address: u32,
    pub operation: RegisterOperation,
    pub length: usize,
    pub response_length: usize,
    pub deadline_ns: u64,
    pub state: RequestState,
    pub actual_wkc: u16,
    pub last_error: Option<ControlError>,
    pub payload: Vec<u8>,
}

/// `after` is `before` with only its state, error and working counter
/// possibly changed.
pub open spec fn same_transaction(before: ControlRequest, after: ControlRequest) -> bool {
    &&& after.datagram_index == before.datagram_index
    &&& after.generation == before.generation
    &&& after.address == before.address
    &&& after.operation == before.operation
    &&& after.length == before.length
    &&& after.response_length == before.response_length
    &&& after.deadline_ns == before.deadline_ns
    &&& after.payload@ == before.payload@
}

/// `after` is `before` latched as failed with `error`.
pub open spec fn failed_with(before: ControlRequest, after: ControlRequest, error: ControlError) -> bool {
    &&& same_transaction(before, after)
    &&& after.actual_wkc == before.actual_wkc
    &&& after.state == RequestState::Failed
    &&& after.last_error == Some(error)
}

/// The outcome of offering a response to a request: the checks run in
/// order (state, generation, address, length, working counter); only a
/// response that passes all of them is stored and completes the request. A
/// wrong working counter is recorded, but the response is not published.
pub open spec fn complete_outcome(
    before: ControlRequest,
    after: ControlRequest,
    generation: u16,
    address: u32,
    payload: Seq<u8>,
    working_counter: u16,
    result: Result<(), ControlError>,
) -> bool {
    if before.state != RequestState::InFlight {
        &&& result == Err::<(), ControlError>(ControlError::InvalidState)
        &&& if before.state == RequestState::Complete || before.state == RequestState::Failed {
            after == before
        } else {
            failed_with(before, after, ControlError::InvalidState)
        }
    } else if before.generation != generation {
        result == Err::<(), ControlError>(ControlError::GenerationMismatch) && failed_with(
            before,
            after,
            ControlError::GenerationMismatch,
        )
    } else if before.address != address {
        result == Err::<(), ControlError>(ControlError::AddressMismatch) && failed_with(
            before,
            after,
            ControlError::AddressMismatch,
        )
    } else if before.response_length != payload.len() {
        result == Err::<(), ControlError>(ControlError::LengthMismatch) && failed_with(
            before,
            after,
            ControlError::LengthMismatch,
        )
    } else if working_counter != 1 {
        &&& result == Err::<(), ControlError>(ControlError::WorkingCounterMismatch)
        &&& same_transaction(before, after)
        &&& after.actual_wkc == working_counter
        &&& after.state == RequestState::Failed
        &&& after.last_error == Some(ControlError::WorkingCounterMismatch)
    } else {
        &&& after.datagram_index == before.datagram_index
        &&& after.generation == before.generation
        &&& after.address == before.address
        &&& after.operation == before.operation
        &&& after.response_length == before.response_length
        &&& after.deadline_ns == before.deadline_ns
        &&& after.length == before.response_length
        &&& after.payload@ == payload
        &&& after.actual_wkc == working_counter
        &&& result == Ok::<(), ControlError>(())
        &&& after.state == RequestState::Complete
        &&& after.last_error is None
    }
}

/// The request prepared by an acquire: the datagram is as long as the
/// larger of the payload and the expected response, zero filled.
pub open spec fn prepared_as(
    r: ControlRequest,
    datagram_index: u8,
    generation: u16,
    address: u32,
    operation: RegisterOperation,
    payload: Seq<u8>,
    response_length: usize,
    deadline_ns: u64,
) -> bool {
    let datagram_length = if payload.len() >= response_length {
        payload.len() as int
    } else {
        response_length as int
    };
    &&& r.state == RequestState::Prepared
    &&& r.datagram_index == datagram_index
    &&& r.generation == generation
    &&& r.address == address
    &&& r.operation == operation
    &&& r.length == datagram_length
    &&& r.response_length == datagram_length
    &&& r.deadline_ns == deadline_ns
    &&& r.actual_wkc == 0
    &&& r.last_error is None
    &&& r.payload@ == payload + zeros((datagram_length - payload.len()) as nat)
}

/// The image of the single datagram a request sends.
pub open spec fn request_image(r: ControlRequest) -> DatagramImage {
    (r.operation.spec_command(), r.datagram_index, r.address, r.payload@)
}

/// Usable bytes of a frame buffer of `len` bytes.
pub open spec fn usable_capacity(len: int) -> int {
    if len < MAX_ETHERNET_FRAME_LEN {
        len
    } else {
        MAX_ETHERNET_FRAME_LEN as int
    }
}

/// What encoding a request as a one-datagram frame does: only a prepared
/// request that fits the buffer is encoded, and it goes in flight; anything
/// else is refused without change.
pub open spec fn control_build_outcome(
    before: ControlRequest,
    after: ControlRequest,
    buffer_before: Seq<u8>,
    buffer_after: Seq<u8>,
    destination: Seq<u8>,
    source: Seq<u8>,
    result: Result<usize, ControlError>,
) -> bool {
    &&& (before.state != RequestState::Prepared ==> result == Err::<usize, ControlError>(ControlError::InvalidState))
    &&& (before.state == RequestState::Prepared && (buffer_before.len() < MIN_ETHERNET_FRAME_LEN || 28 + before.length
        > usable_capacity(buffer_before.len() as int)) ==> result == Err::<usize, ControlError>(
        ControlError::Wire(WireError::BufferTooSmall),
    ))
    &&& (before.state == RequestState::Prepared && buffer_before.len() >= MIN_ETHERNET_FRAME_LEN && 28 + before.length
        <= usable_capacity(buffer_before.len() as int) ==> result is Ok)
    &&& (result is Err ==> after == before && buffer_after == buffer_before)
    &&& buffer_after.len() == buffer_before.len()
    &&& (result matches Ok(length) ==> {
        let ds = seq![request_image(before)];
        &&& before.state == RequestState::Prepared
        &&& length == frame_len(ds)
        &&& buffer_after == splice(
            buffer_before,
            0,
            frame_bytes(destination, source, ds) + zeros((length - 16 - body_size(ds, 1)) as nat),
        )
        &&& same_transaction(before, after)
        &&& after.actual_wkc == before.actual_wkc
        &&& after.last_error == before.last_error
        &&& after.state == RequestState::InFlight
    })
}

impl ControlRequest {
    pub open spec fn wf(&self) -> bool {
        &&& self.payload@.len() == self.length
        &&& self.length <= MAX_CONTROL_PAYLOAD
        &&& self.response_length <= MAX_CONTROL_PAYLOAD
    }

    pub open spec fn is_empty_request(&self) -> bool {
        &&& self.datagram_index == 0
        &&& self.generation == 0
        &&& self.address == 0
        &&& self.operation == RegisterOperation::Read
        &&& self.length == 0
        &&& self.response_length == 0
        &&& self.deadline_ns == 0
        &&& self.state == RequestState::Free
        &&& self.actual_wkc == 0
        &&& self.last_error is None
        &&& self.payload@.len() == 0
    }

    pub fn empty() -> (request: Self)
        ensures
            request.is_empty_request(),
            request.wf(),
    {
        ControlRequest {
            datagram_index: 0,
            generation: 0,
            address: 0,
            operation: RegisterOperation::Read,
            length: 0,
            response_length: 0,
            deadline_ns: 0,
            state: RequestState::Free,
            actual_wkc: 0,
            last_error: None,
            payload: Vec::new(),
        }
    }

    pub fn payload(&self) -> (payload: &[u8])
        ensures
            payload@ == self.payload@,
    {
        self.payload.as_slice()
    }

    pub fn payload_mut(&mut self) -> (bytes: &mut [u8])
        ensures
            bytes@ == old(self).payload@,
            final(self).payload@ == final(bytes)@,
            final(self).datagram_index == old(self).datagram_index,
            final(self).generation == old(self).generation,
            final(self).address == old(self).address,
            final(self).operation == old(self).operation,
            final(self).length == old(self).length,
            final(self).response_length == old(self).response_length,
            final(self).deadline_ns == old(self).deadline_ns,
            final(self).state == old(self).state,
            final(self).actual_wkc == old(self).actual_wkc,
            final(self).last_error == old(self).last_error,
    {
        self.payload.as_mut_slice()
    }

    pub fn last_error(&self) -> (error: Option<ControlError>)
        ensures
            error == self.last_error,
    {
        self.last_error
    }

    pub open spec fn spec_expectation(&self) -> RxExpectation {
        RxExpectation {
            generation: self.generation,
            deadline_ns: self.deadline_ns,
            expected_address: self.address,
            expected_size: self.response_length as u16,
            expected_type: self.operation.spec_command().spec_code(),
            expected_wkc: 1,
        }
    }

    /// What the RX index must see to route the response here.
    pub fn expectation(&self) -> (expectation: RxExpectation)
        ensures
            expectation == self.spec_expectation(),
    {
        RxExpectation {
            generation: self.generation,
            deadline_ns: self.deadline_ns,
            expected_address: self.address,
            expected_size: self.response_length as u16,
            expected_type: self.operation.command().code(),
            expected_wkc: 1,
        }
    }

    /// Encode the prepared request as a one-datagram frame into `buffer` and
    /// mark it in flight.
    pub fn build_frame(&mut self, buffer: &mut [u8], destination: [u8; 6], source: [u8; 6]) -> (result:
        Result<usize, ControlError>)
        requires
            old(self).wf(),
        ensures
            control_build_outcome(*old(self), *final(self), old(buffer)@, final(buffer)@, destination@, source@, result),
            final(self).wf(),
    {
        if self.state != RequestState::Prepared {
            return Err(ControlError::InvalidState);
        }
        let mut builder = match FrameBuilder::new(buffer.len(), destination, source) {
            Ok(builder) => builder,
            Err(error) => return Err(ControlError::Wire(error)),
        };
        let ghost image = request_image(*self);
        assert(builder.images().push(image) =~= seq![image]);
        proof {
            reveal_with_fuel(body_size, 2);
        }
        match builder.push(self.operation.command(), self.datagram_index, self.address, self.payload.as_slice()) {
            Ok(()) => {},
            Err(error) => return Err(ControlError::Wire(error)),
        }
        let length = match builder.finish(buffer) {
            Ok(length) => length,
            Err(error) => return Err(ControlError::Wire(error)),
        };
        self.state = RequestState::InFlight;
        Ok(length)
    }

    fn fail(&mut self, error: ControlError) -> (result: Result<(), ControlError>)
        ensures
            result == Err::<(), ControlError>(error),
            failed_with(*old(self), *final(self), error),
            old(self).wf() ==> final(self).wf(),
    {
        self.state = RequestState::Failed;
        self.last_error = Some(error);
        Err(error)
    }

    /// Offer a response; see `complete_outcome` for the checks and effects.
    pub fn complete(&mut self, generation: u16, address: u32, payload: &[u8], working_counter: u16) -> (result:
        Result<(), ControlError>)
        ensures
            complete_outcome(
                *old(self),
                *final(self),
                generation,
                address,
                payload@,
                working_counter,
                result,
            ),
            old(self).wf() ==> final(self).wf(),
    {
        if self.state != RequestState::InFlight {
            if self.state == RequestState::Complete || self.state == RequestState::Failed {
                return Err(ControlError::InvalidState);
            }
            return self.fail(ControlError::InvalidState);
        }
        if self.generation != generation {
            return self.fail(ControlError::GenerationMismatch);
        }
        if self.address != address {
            return self.fail(ControlError::AddressMismatch);
        }
        if self.response_length != payload.len() {
            return self.fail(ControlError::LengthMismatch);
        }
        if working_counter != 1 {
            self.actual_wkc = working_counter;
            return self.fail(ControlError::WorkingCounterMismatch);
        }
        self.payload = copy_range(payload, 0, payload.len());
        assert(self.payload@ =~= payload@);
        self.length = self.response_length;
        self.actual_wkc = working_counter;
        self.state = RequestState::Complete;
        self.last_error = None;
        Ok(())
    }
}

/// Handles that became overdue in one sweep, in ascending slot order.
/// Failed requests stay owned by the caller until their service consumes
/// them.
#[derive(Clone, Debug)]
pub struct ControlExpiry {
    handles: Vec<RequestHandle>,
}

impl ControlExpiry {
    pub closed spec fn view_handles(&self) -> Seq<RequestHandle> {
        self.handles@
    }

    pub fn count(&self) -> (count: usize)
        ensures
            count == self.view_handles().len(),
    {
        self.handles.len()
    }

    pub fn is_empty(&self) -> (empty: bool)
        ensures
            empty == (self.view_handles().len() == 0),
    {
        self.handles.len() == 0
    }

    pub fn contains(&self, handle: RequestHandle) -> (found: bool)
        ensures
            found == self.view_handles().contains(handle),
    {
        let mut i: usize = 0;
        while i < self.handles.len()
            invariant
                i <= self.handles@.len(),
                forall|k: int| 0 <= k < i ==> self.handles@[k] != handle,
            decreases self.handles@.len() - i,
        {
            if self.handles[i].index() == handle.index() {
                proof {
                    lemma_handle_index_injective(self.handles@[i as int], handle);
                }
                assert(self.handles@[i as int] == handle);
                return true;
            }
            i = i + 1;
        }
        false
    }

    /// The overdue handles in ascending slot order.
    pub fn handles(&self) -> (handles: Vec<RequestHandle>)
        ensures
            handles@ == self.view_handles(),
    {
        let mut out: Vec<RequestHandle> = Vec::new();
        let mut i: usize = 0;
        while i < self.handles.len()
            invariant
                i <= self.handles@.len(),
                out@ == self.handles@.subrange(0, i as int),
            decreases self.handles@.len() - i,
        {
            out.push(self.handles[i]);
            i = i + 1;
            assert(out@ =~= self.handles@.subrange(0, i as int));
        }
        assert(out@ =~= self.handles@);
        out
    }
}

/// Two handles with the same slot index are the same handle.
pub proof fn lemma_handle_index_injective(a: RequestHandle, b: RequestHandle)
    requires
        a.spec_index() == b.spec_index(),
    ensures
        a == b,
{
}

/// Whether the expiry sweep at `now_ns` times a request out.
pub open spec fn times_out(used: bool, r: ControlRequest, now_ns: u64) -> bool {
    used && r.state == RequestState::InFlight && now_ns > r.deadline_ns
}

/// With no slot acquired, nothing times out.
pub proof fn lemma_nothing_expires_unused(used: Seq<bool>, requests: Seq<ControlRequest>, now_ns: u64, n: int)
    requires
        0 <= n <= used.len(),
        forall|i: int| 0 <= i < n ==> !#[trigger] used[i],
    ensures
        expired_slots(used, requests, now_ns, n) == Seq::<int>::empty(),
    decreases n,
{
    if n > 0 {
        lemma_nothing_expires_unused(used, requests, now_ns, n - 1);
    }
}

/// The slots among the first `n` that the sweep at `now_ns` times out, in
/// ascending order.
pub open spec fn expired_slots(used: Seq<bool>, requests: Seq<ControlRequest>, now_ns: u64, n: int) -> Seq<int>
    decreases n,
{
    if n <= 0 {
        Seq::empty()
    } else {
        let prefix = expired_slots(used, requests, now_ns, n - 1);
        if times_out(used[n - 1], requests[n - 1], now_ns) {
            prefix.push(n - 1)
        } else {
            prefix
        }
    }
}

pub open spec fn handle_indices(handles: Seq<RequestHandle>) -> Seq<int> {
    handles.map_values(|h: RequestHandle| h.spec_index() as int)
}

pub struct ControlRequestPool<const REQUESTS: usize> {
    requests: Vec<ControlRequest>,
    used: Vec<bool>,
}

impl<const REQUESTS: usize> ControlRequestPool<REQUESTS> {
    pub closed spec fn spec_requests(&self) -> Seq<ControlRequest> {
        self.requests@
    }

    pub closed spec fn spec_used(&self) -> Seq<bool> {
        self.used@
    }

    pub open spec fn wf(&self) -> bool {
        &&& self.spec_requests().len() == REQUESTS
        &&& self.spec_used().len() == REQUESTS
        &&& forall|i: int| 0 <= i < REQUESTS ==> #[trigger] self.spec_requests()[i].wf()
        &&& REQUESTS > MAX_HANDLES ==> forall|i: int| 0 <= i < REQUESTS ==> !#[trigger] self.spec_used()[i]
    }

    /// Whether `index` names an acquired slot.
    pub open spec fn is_live(&self, index: int) -> bool {
        &&& 0 <= index < REQUESTS
        &&& index < self.spec_used().len()
        &&& index < self.spec_requests().len()
        &&& self.spec_used()[index]
    }

    pub fn new() -> (pool: Self)
        ensures
            pool.wf(),
            forall|i: int| 0 <= i < REQUESTS ==> !#[trigger] pool.spec_used()[i],
            forall|i: int| 0 <= i < REQUESTS ==> #[trigger] pool.spec_requests()[i].is_empty_request(),
    {
        let mut requests: Vec<ControlRequest> = Vec::new();
        let mut used: Vec<bool> = Vec::new();
        let mut i: usize = 0;
        while i < REQUESTS
            invariant
                i <= REQUESTS,
                requests@.len() == i,
                used@.len() == i,
                forall|k: int| 0 <= k < i ==> !#[trigger] used@[k],
                forall|k: int| 0 <= k < i ==> #[trigger] requests@[k].is_empty_request(),
                forall|k: int| 0 <= k < i ==> #[trigger] requests@[k].wf(),
            decreases REQUESTS - i,
        {
            requests.push(ControlRequest::empty());
            used.push(false);
            i = i + 1;
        }
        ControlRequestPool { requests, used }
    }

    pub fn acquire(
        &mut self,
        datagram_index: u8,
        generation: u16,
        address: u32,
        operation: RegisterOperation,
        payload: &[u8],
        deadline_ns: u64,
    ) -> (result: Result<RequestHandle, ControlError>)
        requires
            old(self).wf(),
        ensures
            final(self).wf(),
            acquire_outcome(
                *old(self),
                *final(self),
                datagram_index,
                generation,
                address,
                operation,
                payload@,
                payload@.len() as usize,
                deadline_ns,
                result,
            ),
    {
        self.acquire_with_response_len(
            datagram_index,
            generation,
            address,
            operation,
            payload,
            payload.len(),
            deadline_ns,
        )
    }

    /// Take the lowest free slot for a register request whose datagram is
    /// as long as the larger of `payload` and `response_length`.
    pub fn acquire_with_response_len(
        &mut self,
        datagram_index: u8,
        generation: u16,
        address: u32,
        operation: RegisterOperation,
        payload: &[u8],
        response_length: usize,
        deadline_ns: u64,
    ) -> (result: Result<RequestHandle, ControlError>)
        requires
            old(self).wf(),
        ensures
            final(self).wf(),
            acquire_outcome(
                *old(self),
                *final(self),
                datagram_index,
                generation,
                address,
                operation,
                payload@,
                response_length,
                deadline_ns,
                result,
            ),
    {
        if REQUESTS == 0 || REQUESTS > MAX_HANDLES {
            return Err(ControlError::TooManyRequests);
        }
        let payload_len = payload.len();
        if payload_len > MAX_CONTROL_PAYLOAD {
            return Err(ControlError::PayloadTooLarge);
        }
        let datagram_length = if payload_len >= response_length {
            payload_len
        } else {
            response_length
        };
        if datagram_length > MAX_CONTROL_PAYLOAD {
            return Err(ControlError::ResponseTooLarge);
        }
        let mut index: usize = 0;
        while index < REQUESTS && self.used[index]
            invariant
                self.wf(),
                index <= REQUESTS,
                forall|k: int| 0 <= k < index ==> #[trigger] self.spec_used()[k],
            decreases REQUESTS - index,
        {
            index = index + 1;
        }
        if index == REQUESTS {
            return Err(ControlError::SlotBusy);
        }
        let mut bytes = copy_range(payload, 0, payload_len);
        let mut fill: usize = payload_len;
        while fill < datagram_length
            invariant
                payload_len <= fill <= datagram_length,
                payload_len == payload@.len(),
                bytes@ == payload@ + zeros((fill - payload_len) as nat),
            decreases datagram_length - fill,
        {
            bytes.push(0);
            fill = fill + 1;
            assert(bytes@ =~= payload@ + zeros((fill - payload_len) as nat));
        }
        assert(bytes@ =~= payload@ + zeros((fill - payload_len) as nat));
        let request = ControlRequest {
            datagram_index,
            generation,
            address,
            operation,
            length: datagram_length,
            response_length: datagram_length,
            deadline_ns,
            state: RequestState::Prepared,
            actual_wkc: 0,
            last_error: None,
            payload: bytes,
        };
        self.used.set(index, true);
        self.requests.set(index, request);
        Ok(RequestHandle(index as u8))
    }

    pub fn get(&self, handle: RequestHandle) -> (request: Option<&ControlRequest>)
        ensures
            self.is_live(handle.spec_index() as int) ==> request == Some(
                &self.spec_requests()[handle.spec_index() as int],
            ),
            !self.is_live(handle.spec_index() as int) ==> request is None,
    {
        let index = handle.index();
        if index < REQUESTS && index < self.used.len() && index < self.requests.len()
            && self.used[index] {
            Some(&self.requests[index])
        } else {
            None
        }
    }

    pub fn get_mut(&mut self, handle: RequestHandle) -> (request: Option<&mut ControlRequest>)
        ensures
            old(self).is_live(handle.spec_index() as int) ==> (request matches Some(r) && *r
                == old(self).spec_requests()[handle.spec_index() as int] && final(self).spec_requests() == old(self).spec_requests().update(
                handle.spec_index() as int,
                *final(r),
            ) && final(self).spec_used() == old(self).spec_used()),
            !old(self).is_live(handle.spec_index() as int) ==> (request is None && *final(self)
                == *old(self)),
    {
        let index = handle.index();
        if index < REQUESTS && index < self.used.len() && index < self.requests.len()
            && self.used[index] {
            Some(&mut self.requests[index])
        } else {
            None
        }
    }

    pub fn expectation(&self, handle: RequestHandle) -> (result: Result<RxExpectation, ControlError>)
        ensures
            self.is_live(handle.spec_index() as int) ==> result == Ok::<RxExpectation, ControlError>(
                self.spec_requests()[handle.spec_index() as int].spec_expectation(),
            ),
            !self.is_live(handle.spec_index() as int) ==> result == Err::<
                RxExpectation,
                ControlError,
            >(ControlError::InvalidHandle),
    {
        match self.get(handle) {
            Some(request) => Ok(request.expectation()),
            None => Err(ControlError::InvalidHandle),
        }
    }

    /// Offer a response to the request behind `handle`.
    pub fn complete(
        &mut self,
        handle: RequestHandle,
        generation: u16,
        address: u32,
        payload: &[u8],
        working_counter: u16,
    ) -> (result: Result<(), ControlError>)
        ensures
            final(self).spec_used() == old(self).spec_used(),
            !old(self).is_live(handle.spec_index() as int) ==> result == Err::<(), ControlError>(
                ControlError::InvalidHandle,
            ) && *final(self) == *old(self),
            old(self).is_live(handle.spec_index() as int) ==> {
                let i = handle.spec_index() as int;
                &&& final(self).spec_requests().len() == old(self).spec_requests().len()
                &&& forall|k: int|
                    0 <= k < old(self).spec_requests().len() && k != i
                        ==> #[trigger] final(self).spec_requests()[k] == old(self).spec_requests()[k]
                &&& complete_outcome(
                    old(self).spec_requests()[i],
                    final(self).spec_requests()[i],
                    generation,
                    address,
                    payload@,
                    working_counter,
                    result,
                )
            },
            old(self).wf() ==> final(self).wf(),
    {
        match self.get_mut(handle) {
            Some(request) => request.complete(generation, address, payload, working_counter),
            None => Err(ControlError::InvalidHandle),
        }
    }

    /// Offer a datagram routed here by the RX index: the slot id names the
    /// handle, and the datagram's index and command must match the request.
    pub fn complete_match(&mut self, completion: RxMatch, header: DatagramHeader, payload: &[u8]) -> (result:
        Result<(), ControlError>)
        ensures
            final(self).spec_used() == old(self).spec_used(),
            ({
                let i = completion.slot_id as int;
                if !(i < MAX_HANDLES && old(self).is_live(i)) {
                    result == Err::<(), ControlError>(ControlError::InvalidHandle) && *final(self)
                        == *old(self)
                } else if old(self).spec_requests()[i].datagram_index != header.index {
                    result == Err::<(), ControlError>(ControlError::DatagramIndexMismatch) && *final(self) == *old(self)
                } else if old(self).spec_requests()[i].operation.spec_command() != header.command {
                    result == Err::<(), ControlError>(ControlError::TypeMismatch) && *final(self)
                        == *old(self)
                } else {
                    &&& final(self).spec_requests().len() == old(self).spec_requests().len()
                    &&& forall|k: int|
                        0 <= k < old(self).spec_requests().len() && k != i
                            ==> #[trigger] final(self).spec_requests()[k] == old(self).spec_requests()[k]
                    &&& complete_outcome(
                        old(self).spec_requests()[i],
                        final(self).spec_requests()[i],
                        completion.generation,
                        header.address,
                        payload@,
                        completion.working_counter,
                        result,
                    )
                }
            }),
            old(self).wf() ==> final(self).wf(),
    {
        let handle = match RequestHandle::from_index(completion.slot_id as usize) {
            Some(handle) => handle,
            None => return Err(ControlError::InvalidHandle),
        };
        let (datagram_index, command) = match self.get(handle) {
            Some(request) => (request.datagram_index, request.operation.command()),
            None => return Err(ControlError::InvalidHandle),
        };
        if datagram_index != header.index {
            return Err(ControlError::DatagramIndexMismatch);
        }
        if command != header.command {
            return Err(ControlError::TypeMismatch);
        }
        self.complete(
            handle,
            completion.generation,
            header.address,
            payload,
            completion.working_counter,
        )
    }

    /// Return a slot to the pool, clearing its request.
    pub fn release(&mut self, handle: RequestHandle) -> (result: Result<(), ControlError>)
        requires
            old(self).wf(),
        ensures
            final(self).wf(),
            !old(self).is_live(handle.spec_index() as int) ==> result == Err::<(), ControlError>(
                ControlError::InvalidHandle,
            ) && *final(self) == *old(self),
            old(self).is_live(handle.spec_index() as int) ==> {
                let i = handle.spec_index() as int;
                &&& result is Ok
                &&& final(self).spec_used() == old(self).spec_used().update(i, false)
                &&& final(self).spec_requests()[i].is_empty_request()
                &&& forall|k: int|
                    0 <= k < REQUESTS && k != i ==> #[trigger] final(self).spec_requests()[k]
                        == old(self).spec_requests()[k]
            },
    {
        let index = handle.index();
        if index >= REQUESTS || !self.used[index] {
            return Err(ControlError::InvalidHandle);
        }
        self.used.set(index, false);
        self.requests.set(index, ControlRequest::empty());
        Ok(())
    }

    /// The number of acquired slots.
    pub fn in_use(&self) -> (count: usize)
        requires
            self.wf(),
        ensures
            count == count_used(self.spec_used(), REQUESTS as int),
    {
        let mut count: usize = 0;
        let mut i: usize = 0;
        while i < REQUESTS
            invariant
                self.wf(),
                i <= REQUESTS,
                count == count_used(self.spec_used(), i as int),
                count <= i,
            decreases REQUESTS - i,
        {
            if self.used[i] {
                count = count + 1;
            }
            i = i + 1;
        }
        count
    }

    /// Time out every acquired in-flight request whose deadline lies before
    /// `now_ns`. A response received at the deadline is still valid.
    pub fn expire_in_flight(&mut self, now_ns: u64) -> (expiry: ControlExpiry)
        requires
            old(self).wf(),
        ensures
            final(self).wf(),
            final(self).spec_used() == old(self).spec_used(),
            forall|i: int|
                0 <= i < REQUESTS ==> {
                    let before = #[trigger] old(self).spec_requests()[i];
                    let after = final(self).spec_requests()[i];
                    if times_out(old(self).spec_used()[i], before, now_ns) {
                        failed_with(before, after, ControlError::Timeout)
                    } else {
                        after == before
                    }
                },
            handle_indices(expiry.view_handles()) == expired_slots(
                old(self).spec_used(),
                old(self).spec_requests(),
                now_ns,
                REQUESTS as int,
            ),
    {
        let ghost initial = self.requests@;
        let mut handles: Vec<RequestHandle> = Vec::new();
        if REQUESTS > MAX_HANDLES {
            proof {
                lemma_nothing_expires_unused(self.used@, initial, now_ns, REQUESTS as int);
            }
            assert(handle_indices(handles@) =~= Seq::<int>::empty());
            return ControlExpiry { handles };
        }
        let mut i: usize = 0;
        while i < REQUESTS
            invariant
                self.wf(),
                i <= REQUESTS,
                REQUESTS <= MAX_HANDLES,
                self.used@ == old(self).used@,
                initial == old(self).requests@,
                forall|k: int|
                    0 <= k < i ==> {
                        let before = #[trigger] initial[k];
                        let after = self.requests@[k];
                        if times_out(self.used@[k], before, now_ns) {
                            failed_with(before, after, ControlError::Timeout)
                        } else {
                            after == before
                        }
                    },
                forall|k: int| i <= k < REQUESTS ==> #[trigger] self.requests@[k] == initial[k],
                handle_indices(handles@) == expired_slots(self.used@, initial, now_ns, i as int),
            decreases REQUESTS - i,
        {
            let expires = self.used[i] && self.requests[i].state == RequestState::InFlight
                && now_ns > self.requests[i].deadline_ns;
            if expires {
                let ghost before_remove = self.requests@;
                let mut request = self.requests.remove(i);
                request.state = RequestState::Failed;
                request.last_error = Some(ControlError::Timeout);
                let ghost updated = request;
                self.requests.insert(i, request);
                assert(self.requests@ =~= before_remove.update(i as int, updated));
                assert(before_remove[i as int].wf());
                assert forall|k: int| 0 <= k < REQUESTS implies #[trigger] self.spec_requests()[k].wf() by {
                    assert(before_remove[k].wf());
                }
                handles.push(RequestHandle(i as u8));
            }
            i = i + 1;
            assert(handle_indices(handles@) =~= expired_slots(self.used@, initial, now_ns, i as int));
        }
        ControlExpiry { handles }
    }

    /// Encode the request behind `handle` into `frame_buffer`.
    pub fn build_into_buffer(
        &mut self,
        handle: RequestHandle,
        frame_buffer: &mut [u8],
        destination: [u8; 6],
        source: [u8; 6],
    ) -> (result: Result<usize, ControlError>)
        requires
            old(self).wf(),
        ensures
            final(self).wf(),
            final(self).spec_used() == old(self).spec_used(),
            !old(self).is_live(handle.spec_index() as int) ==> result == Err::<usize, ControlError>(
                ControlError::InvalidHandle,
            ) && *final(self) == *old(self) && final(frame_buffer)@ == old(frame_buffer)@,
            old(self).is_live(handle.spec_index() as int) ==> {
                let i = handle.spec_index() as int;
                let before = old(self).spec_requests()[i];
                let after = final(self).spec_requests()[i];
                let ds = seq![request_image(before)];
                &&& forall|k: int|
                    0 <= k < REQUESTS && k != i ==> #[trigger] final(self).spec_requests()[k]
                        == old(self).spec_requests()[k]
                &&& (before.state != RequestState::Prepared ==> result == Err::<
                    usize,
                    ControlError,
                >(ControlError::InvalidState))
                &&& (before.state == RequestState::Prepared && (old(frame_buffer)@.len()
                    < MIN_ETHERNET_FRAME_LEN || 28 + before.length > usable_capacity(
                    old(frame_buffer)@.len() as int,
                )) ==> result == Err::<usize, ControlError>(
                    ControlError::Wire(WireError::BufferTooSmall),
                ))
                &&& (result is Err ==> after == before && final(frame_buffer)@ == old(frame_buffer)@)
                &&& (result matches Ok(length) ==> {
                    &&& before.state == RequestState::Prepared
                    &&& length == frame_len(ds)
                    &&& final(frame_buffer)@ == splice(
                        old(frame_buffer)@,
                        0,
                        frame_bytes(destination@, source@, ds) + zeros(
                            (length - 16 - body_size(ds, 1)) as nat,
                        ),
                    )
                    &&& same_transaction(before, after)
                    &&& after.state == RequestState::InFlight
                    &&& after.last_error == before.last_error
                    &&& after.actual_wkc == before.actual_wkc
                })
                &&& (before.state == RequestState::Prepared && old(frame_buffer)@.len()
                    >= MIN_ETHERNET_FRAME_LEN && 28 + before.length <= usable_capacity(
                    old(frame_buffer)@.len() as int,
                ) ==> result is Ok)
            },
    {
        match self.get_mut(handle) {
            Some(request) => request.build_frame(frame_buffer, destination, source),
            None => Err(ControlError::InvalidHandle),
        }
    }
}

/// The pool after an acquire, or the rejection: the pool must have between
/// one and 64 slots, the payload and the datagram fit in a control payload,
/// and the lowest free slot is taken.
pub open spec fn acquire_outcome<const REQUESTS: usize>(
    before: ControlRequestPool<REQUESTS>,
    after: ControlRequestPool<REQUESTS>,
    datagram_index: u8,
    generation: u16,
    address: u32,
    operation: RegisterOperation,
    payload: Seq<u8>,
    response_length: usize,
    deadline_ns: u64,
    result: Result<RequestHandle, ControlError>,
) -> bool {
    let datagram_length = if payload.len() >= response_length {
        payload.len() as int
    } else {
        response_length as int
    };
    if REQUESTS == 0 || REQUESTS > MAX_HANDLES {
        result == Err::<RequestHandle, ControlError>(ControlError::TooManyRequests) && after
            == before
    } else if payload.len() > MAX_CONTROL_PAYLOAD {
        result == Err::<RequestHandle, ControlError>(ControlError::PayloadTooLarge) && after
            == before
    } else if datagram_length > MAX_CONTROL_PAYLOAD {
        result == Err::<RequestHandle, ControlError>(ControlError::ResponseTooLarge) && after
            == before
    } else if forall|k: int| 0 <= k < REQUESTS ==> #[trigger] before.spec_used()[k] {
        result == Err::<RequestHandle, ControlError>(ControlError::SlotBusy) && after == before
    } else {
        &&& result is Ok
        &&& {
            let i = result->Ok_0.spec_index() as int;
            &&& 0 <= i < REQUESTS
            &&& !before.spec_used()[i]
            &&& forall|k: int| 0 <= k < i ==> #[trigger] before.spec_used()[k]
            &&& after.spec_used() == before.spec_used().update(i, true)
            &&& prepared_as(
                after.spec_requests()[i],
                datagram_index,
                generation,
                address,
                operation,
                payload,
                response_length,
                deadline_ns,
            )
            &&& forall|k: int|
                0 <= k < REQUESTS && k != i ==> #[trigger] after.spec_requests()[k]
                    == before.spec_requests()[k]
        }
    }
}

/// Routes verified datagrams into a control pool, counting datagrams that
/// were addressed to an in-flight request but failed its checks.
pub struct ControlRxConsumer<'a, const REQUESTS: usize> {
    pool: &'a mut ControlRequestPool<REQUESTS>,
    rejected: usize,
}

impl<'a, const REQUESTS: usize> ControlRxConsumer<'a, REQUESTS> {
    pub closed spec fn spec_pool(&self) -> ControlRequestPool<REQUESTS> {
        *self.pool
    }

    pub closed spec fn spec_rejected(&self) -> usize {
        self.rejected
    }

    pub fn new(pool: &'a mut ControlRequestPool<REQUESTS>) -> (consumer: Self)
        ensures
            consumer.spec_pool() == *old(pool),
            consumer.spec_rejected() == 0,
    {
        ControlRxConsumer { pool, rejected: 0 }
    }

    pub fn rejected(&self) -> (rejected: usize)
        ensures
            rejected == self.spec_rejected(),
    {
        self.rejected
    }

    pub fn pool(&mut self) -> (pool: &mut ControlRequestPool<REQUESTS>)
        ensures
            *pool == old(self).spec_pool(),
            final(self).spec_pool() == *final(pool),
            final(self).spec_rejected() == old(self).spec_rejected(),
    {
        self.pool
    }
}

impl<'a, const REQUESTS: usize> RxDatagramConsumer for ControlRxConsumer<'a, REQUESTS> {
    open spec fn consumer_ready(&self) -> bool {
        true
    }

    /// Take a datagram whose slot id names an in-flight request with the
    /// same datagram index; a datagram that then fails the request's checks
    /// is counted as rejected.
    fn accept(
        &mut self,
        cycle: u64,
        received_at_ns: u64,
        completion: RxMatch,
        header: DatagramHeader,
        payload: &[u8],
    ) -> (accepted: bool)
        ensures
            ({
                let i = completion.slot_id as int;
                let pool = old(self).spec_pool();
                if !(i < MAX_HANDLES && pool.is_live(i) && pool.spec_requests()[i].state
                    == RequestState::InFlight && pool.spec_requests()[i].datagram_index
                    == header.index) {
                    !accepted && *final(self) == *old(self)
                } else {
                    let before = pool.spec_requests()[i];
                    let after = final(self).spec_pool().spec_requests()[i];
                    &&& final(self).spec_pool().spec_used() == pool.spec_used()
                    &&& final(self).spec_pool().spec_requests().len() == pool.spec_requests().len()
                    &&& forall|k: int|
                        0 <= k < pool.spec_requests().len() && k != i
                            ==> #[trigger] final(self).spec_pool().spec_requests()[k]
                            == pool.spec_requests()[k]
                    &&& (!accepted ==> final(self).spec_rejected() == if old(self).spec_rejected() < usize::MAX {
                        (old(self).spec_rejected() + 1) as usize
                    } else {
                        old(self).spec_rejected()
                    })
                    &&& (accepted ==> final(self).spec_rejected() == old(self).spec_rejected())
                    &&& (before.operation.spec_command() != header.command ==> !accepted
                        && after == before)
                    &&& (before.operation.spec_command() == header.command ==> complete_outcome(
                        before,
                        after,
                        completion.generation,
                        header.address,
                        payload@,
                        completion.working_counter,
                        if accepted {
                            Ok::<(), ControlError>(())
                        } else {
                            Err::<(), ControlError>(after.last_error->Some_0)
                        },
                    ))
                }
            }),
    {
        let handle = match RequestHandle::from_index(completion.slot_id as usize) {
            Some(handle) => handle,
            None => return false,
        };
        let eligible = match self.pool.get(handle) {
            Some(request) => request.state == RequestState::InFlight && request.datagram_index
                == header.index,
            None => false,
        };
        if !eligible {
            return false;
        }
        if self.pool.complete_match(completion, header, payload).is_ok() {
            true
        } else {
            self.rejected = self.rejected.saturating_add(1);
            false
        }
    }
}

} // verus!
