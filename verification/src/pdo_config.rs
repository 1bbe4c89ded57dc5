//! Fixed-capacity CoE PDO assignment and mapping configuration.
//!
//! A plan, built before activation, holds only expedited SDO write values.
//! The controller downloads each value and then uploads the same object to
//! verify the readback exactly. It advances one mailbox transaction at a
//! time, so it shares the asynchronous mailbox budget without touching the
//! cyclic PDO path.
use vstd::prelude::*;
use crate::bytes::le16;
use crate::coe::{
    begun_view, idle_view, initiate_request, may_begin, spec_accept, SdoDirection, SdoError, SdoPhase, SdoProgress,
    SdoTransfer, SdoTransferView, MAX_SDO_DATA,
};
use crate::bytes::zeros;
use crate::scan::wrapping_add_u16;
use crate::mailbox::{
    next_nonzero, saturating_add_u64, MailboxConfig, MailboxController, MailboxError, MailboxView, MAX_MAILBOX_BYTES,
};

verus! {

pub const MAX_PDO_SDO_DATA: usize = 4;

#[derive(Clone, Copy, Debug, PartialEq, Eq, Structural)]
pub struct PdoEntrySpec {
    pub index: u16,
    pub subindex: u8,
    pub bit_length: u8,
}

impl PdoEntrySpec {
    pub fn new(index: u16, subindex: u8, bit_length: u8) -> (entry: Self)
        ensures
            entry == (PdoEntrySpec { index, subindex, bit_length }),
    {
        PdoEntrySpec { index, subindex, bit_length }
    }
}

/// One expedited SDO write: up to four value bytes for `index:subindex`.
#[derive(Clone, Copy, Debug, PartialEq, Eq)]
pub struct PdoSdoWrite {
    pub index: u16,
    pub subindex: u8,
    pub data: [u8; MAX_PDO_SDO_DATA],
    pub data_len: u8,
}

#[derive(Clone, Copy, Debug, PartialEq, Eq, Structural)]
pub enum PdoConfigPlanError {
    CapacityExceeded,
    CountOutOfBounds,
    DataLengthOutOfBounds,
    InvalidBitLength,
}

impl PdoSdoWrite {
    /// The value bytes of the write.
    pub open spec fn value(&self) -> Seq<u8> {
        self.data@.subrange(0, self.data_len as int)
    }

    /// A write whose value fits the expedited data field.
    pub open spec fn valid(&self) -> bool {
        1 <= self.data_len <= MAX_PDO_SDO_DATA
    }

    /// A write of one to four value bytes.
    pub fn new(index: u16, subindex: u8, data: &[u8]) -> (result: Result<Self, PdoConfigPlanError>)
        ensures
            data@.len() == 0 || data@.len() > MAX_PDO_SDO_DATA ==> result == Err::<Self, PdoConfigPlanError>(
                PdoConfigPlanError::DataLengthOutOfBounds,
            ),
            0 < data@.len() <= MAX_PDO_SDO_DATA ==> (result matches Ok(write) && write.index == index && write.subindex
                == subindex && write.value() == data@ && write.valid()
                && forall|k: int| data@.len() <= k < MAX_PDO_SDO_DATA ==> write.data@[k] == 0),
    {
        if data.len() == 0 || data.len() > MAX_PDO_SDO_DATA {
            return Err(PdoConfigPlanError::DataLengthOutOfBounds);
        }
        let mut bytes: [u8; MAX_PDO_SDO_DATA] = [0u8; MAX_PDO_SDO_DATA];
        let mut i: usize = 0;
        while i < data.len()
            invariant
                i <= data@.len() <= MAX_PDO_SDO_DATA,
                forall|k: int| 0 <= k < i ==> bytes@[k] == data@[k],
                forall|k: int| i <= k < MAX_PDO_SDO_DATA ==> bytes@[k] == 0,
            decreases data@.len() - i,
        {
            bytes[i] = data[i];
            i = i + 1;
        }
        let write = PdoSdoWrite { index, subindex, data: bytes, data_len: data.len() as u8 };
        assert(write.value() =~= data@);
        Ok(write)
    }
}

/// The write of `value` bytes to `index:subindex`.
pub open spec fn write_of(w: PdoSdoWrite, index: u16, subindex: u8, value: Seq<u8>) -> bool {
    w.index == index && w.subindex == subindex && w.value() == value && w.valid()
}

/// The writes of one mapping object: clear the count, write each entry as
/// index, subindex and bit length, then publish the final count.
pub open spec fn mapping_writes_ok(ws: Seq<PdoSdoWrite>, mapping_index: u16, entries: Seq<PdoEntrySpec>) -> bool {
    &&& ws.len() == entries.len() + 2
    &&& write_of(ws[0], mapping_index, 0, seq![0u8])
    &&& forall|k: int| 0 <= k < entries.len() ==> write_of(#[trigger] ws[k + 1], mapping_index, (k + 1) as u8,
        le16(entries[k].index as int) + seq![entries[k].subindex, entries[k].bit_length])
    &&& write_of(ws[entries.len() + 1int], mapping_index, 0, seq![entries.len() as u8])
}

/// The writes of one assignment object: clear the count, write each mapping
/// object index, then publish the final count.
pub open spec fn assignment_writes_ok(ws: Seq<PdoSdoWrite>, assignment_index: u16, mapping_indexes: Seq<u16>) -> bool {
    &&& ws.len() == mapping_indexes.len() + 2
    &&& write_of(ws[0], assignment_index, 0, seq![0u8])
    &&& forall|k: int| 0 <= k < mapping_indexes.len() ==> write_of(#[trigger] ws[k + 1], assignment_index, (k + 1) as u8,
        le16(mapping_indexes[k] as int))
    &&& write_of(ws[mapping_indexes.len() + 1int], assignment_index, 0, seq![mapping_indexes.len() as u8])
}

/// A plan of expedited SDO writes, executed in order.
pub struct PdoConfigPlan<const OPS: usize> {
    writes: Vec<PdoSdoWrite>,
}

impl<const OPS: usize> PdoConfigPlan<OPS> {
    pub closed spec fn spec_writes(&self) -> Seq<PdoSdoWrite> {
        self.writes@
    }

    pub closed spec fn wf(&self) -> bool {
        self.writes@.len() <= OPS
    }

    pub fn new() -> (plan: Self)
        ensures
            plan.wf(),
            plan.spec_writes() == Seq::<PdoSdoWrite>::empty(),
    {
        let plan = PdoConfigPlan { writes: Vec::new() };
        assert(plan.spec_writes() =~= Seq::<PdoSdoWrite>::empty());
        plan
    }

    /// An independent copy of the plan.
    pub fn duplicate(&self) -> (copy: Self)
        ensures
            copy.spec_writes() == self.spec_writes(),
            self.wf() ==> copy.wf(),
    {
        let mut writes: Vec<PdoSdoWrite> = Vec::new();
        let mut i: usize = 0;
        while i < self.writes.len()
            invariant
                i <= self.writes@.len(),
                writes@ == self.writes@.subrange(0, i as int),
            decreases self.writes@.len() - i,
        {
            writes.push(self.writes[i]);
            i = i + 1;
            assert(writes@ =~= self.writes@.subrange(0, i as int));
        }
        assert(writes@ =~= self.writes@);
        PdoConfigPlan { writes }
    }

    pub fn len(&self) -> (len: usize)
        ensures
            len == self.spec_writes().len(),
    {
        self.writes.len()
    }

    pub fn is_empty(&self) -> (empty: bool)
        ensures
            empty == (self.spec_writes().len() == 0),
    {
        self.writes.len() == 0
    }

    pub fn writes(&self) -> (writes: &[PdoSdoWrite])
        ensures
            writes@ == self.spec_writes(),
    {
        self.writes.as_slice()
    }

    /// Append one write while the plan has room.
    pub fn push(&mut self, write: PdoSdoWrite) -> (result: Result<(), PdoConfigPlanError>)
        requires
            old(self).wf(),
        ensures
            final(self).wf(),
            old(self).spec_writes().len() >= OPS ==> result == Err::<(), PdoConfigPlanError>(PdoConfigPlanError::CapacityExceeded)
                && final(self).spec_writes() == old(self).spec_writes(),
            old(self).spec_writes().len() < OPS ==> result is Ok && final(self).spec_writes() == old(self).spec_writes().push(write),
    {
        if self.writes.len() >= OPS {
            return Err(PdoConfigPlanError::CapacityExceeded);
        }
        self.writes.push(write);
        Ok(())
    }

    /// Append the writes of one PDO mapping object: clear its count, write
    /// each entry, then publish the final count. Nothing is appended unless
    /// every entry has 1 to 64 bits and all writes fit.
    #[verifier::loop_isolation(false)]
    pub fn append_mapping(&mut self, mapping_index: u16, entries: &[PdoEntrySpec]) -> (result: Result<(), PdoConfigPlanError>)
        requires
            old(self).wf(),
        ensures
            final(self).wf(),
            entries@.len() > u8::MAX ==> result == Err::<(), PdoConfigPlanError>(PdoConfigPlanError::CountOutOfBounds),
            entries@.len() <= u8::MAX && (exists|k: int| 0 <= k < entries@.len() && !(1 <= (#[trigger] entries@[k]).bit_length <= 64))
                ==> result == Err::<(), PdoConfigPlanError>(PdoConfigPlanError::InvalidBitLength),
            entries@.len() <= u8::MAX && (forall|k: int| 0 <= k < entries@.len() ==> 1 <= (#[trigger] entries@[k]).bit_length <= 64)
                && old(self).spec_writes().len() + entries@.len() + 2 > OPS ==> result == Err::<(), PdoConfigPlanError>(
                PdoConfigPlanError::CapacityExceeded),
            result is Err ==> final(self).spec_writes() == old(self).spec_writes(),
            result is Ok ==> final(self).spec_writes().subrange(0, old(self).spec_writes().len() as int) == old(self).spec_writes()
                && mapping_writes_ok(final(self).spec_writes().subrange(old(self).spec_writes().len() as int,
                final(self).spec_writes().len() as int), mapping_index, entries@),
            entries@.len() <= u8::MAX && (forall|k: int| 0 <= k < entries@.len() ==> 1 <= (#[trigger] entries@[k]).bit_length <= 64)
                && old(self).spec_writes().len() + entries@.len() + 2 <= OPS ==> result is Ok,
    {
        let count = entries.len();
        if count > 255 {
            return Err(PdoConfigPlanError::CountOutOfBounds);
        }
        let mut i: usize = 0;
        while i < count
            invariant
                i <= count,
                count == entries@.len(),
                forall|k: int| 0 <= k < i ==> 1 <= (#[trigger] entries@[k]).bit_length <= 64,
            decreases count - i,
        {
            if entries[i].bit_length < 1 || entries[i].bit_length > 64 {
                return Err(PdoConfigPlanError::InvalidBitLength);
            }
            i = i + 1;
        }
        if self.writes.len() > OPS || OPS - self.writes.len() < count + 2 {
            return Err(PdoConfigPlanError::CapacityExceeded);
        }
        let ghost start = self.writes@.len() as int;
        let ghost before = self.writes@;
        let zero: [u8; 1] = [0u8];
        assert(zero@ =~= seq![0u8]);
        let clear = match PdoSdoWrite::new(mapping_index, 0, &zero) {
            Ok(write) => write,
            Err(error) => return Err(error),
        };
        self.writes.push(clear);
        let mut k: usize = 0;
        while k < count
            invariant
                k <= count <= 255,
                count == entries@.len(),
                self.writes@.len() == start + 1 + k,
                start + count + 2 <= OPS,
                self.writes@.subrange(0, start) == before,
                write_of(self.writes@[start], mapping_index, 0, seq![0u8]),
                forall|m: int| 0 <= m < k ==> write_of(#[trigger] self.writes@[start + 1 + m], mapping_index, (m + 1) as u8,
                    le16(entries@[m].index as int) + seq![entries@[m].subindex, entries@[m].bit_length]),
            decreases count - k,
        {
            let entry = entries[k];
            let bytes: [u8; 4] = [(entry.index % 256) as u8, (entry.index / 256) as u8, entry.subindex, entry.bit_length];
            let write = match PdoSdoWrite::new(mapping_index, (k + 1) as u8, &bytes) {
                Ok(write) => write,
                Err(error) => return Err(error),
            };
            assert(bytes@ =~= le16(entry.index as int) + seq![entry.subindex, entry.bit_length]);
            let ghost prior = self.writes@;
            self.writes.push(write);
            assert(self.writes@.subrange(0, start) =~= prior.subrange(0, start));
            k = k + 1;
        }
        let published: [u8; 1] = [count as u8];
        assert(published@ =~= seq![count as u8]);
        let total = match PdoSdoWrite::new(mapping_index, 0, &published) {
            Ok(write) => write,
            Err(error) => return Err(error),
        };
        self.writes.push(total);
        proof {
            let appended = self.writes@.subrange(start, self.writes@.len() as int);
            assert forall|m: int| 0 <= m < entries@.len() implies write_of(#[trigger] appended[m + 1], mapping_index, (m + 1) as u8,
                le16(entries@[m].index as int) + seq![entries@[m].subindex, entries@[m].bit_length]) by {
                assert(appended[m + 1] == self.writes@[start + 1 + m]);
            }
            assert(self.writes@.subrange(0, start) =~= before);
        }
        Ok(())
    }

    /// Append the writes of one PDO assignment object: clear its count,
    /// write each mapping object index, then publish the final count.
    /// Nothing is appended unless all writes fit.
    #[verifier::loop_isolation(false)]
    pub fn append_assignment(&mut self, assignment_index: u16, mapping_indexes: &[u16]) -> (result: Result<(), PdoConfigPlanError>)
        requires
            old(self).wf(),
        ensures
            final(self).wf(),
            mapping_indexes@.len() > u8::MAX ==> result == Err::<(), PdoConfigPlanError>(PdoConfigPlanError::CountOutOfBounds),
            mapping_indexes@.len() <= u8::MAX && old(self).spec_writes().len() + mapping_indexes@.len() + 2 > OPS
                ==> result == Err::<(), PdoConfigPlanError>(PdoConfigPlanError::CapacityExceeded),
            result is Err ==> final(self).spec_writes() == old(self).spec_writes(),
            result is Ok ==> final(self).spec_writes().subrange(0, old(self).spec_writes().len() as int) == old(self).spec_writes()
                && assignment_writes_ok(final(self).spec_writes().subrange(old(self).spec_writes().len() as int,
                final(self).spec_writes().len() as int), assignment_index, mapping_indexes@),
            mapping_indexes@.len() <= u8::MAX && old(self).spec_writes().len() + mapping_indexes@.len() + 2 <= OPS ==> result is Ok,
    {
        let count = mapping_indexes.len();
        if count > 255 {
            return Err(PdoConfigPlanError::CountOutOfBounds);
        }
        if self.writes.len() > OPS || OPS - self.writes.len() < count + 2 {
            return Err(PdoConfigPlanError::CapacityExceeded);
        }
        let ghost start = self.writes@.len() as int;
        let ghost before = self.writes@;
        let zero: [u8; 1] = [0u8];
        assert(zero@ =~= seq![0u8]);
        let clear = match PdoSdoWrite::new(assignment_index, 0, &zero) {
            Ok(write) => write,
            Err(error) => return Err(error),
        };
        self.writes.push(clear);
        let mut k: usize = 0;
        while k < count
            invariant
                k <= count <= 255,
                count == mapping_indexes@.len(),
                self.writes@.len() == start + 1 + k,
                start + count + 2 <= OPS,
                self.writes@.subrange(0, start) == before,
                write_of(self.writes@[start], assignment_index, 0, seq![0u8]),
                forall|m: int| 0 <= m < k ==> write_of(#[trigger] self.writes@[start + 1 + m], assignment_index, (m + 1) as u8,
                    le16(mapping_indexes@[m] as int)),
            decreases count - k,
        {
            let mapping = mapping_indexes[k];
            let bytes: [u8; 2] = [(mapping % 256) as u8, (mapping / 256) as u8];
            let write = match PdoSdoWrite::new(assignment_index, (k + 1) as u8, &bytes) {
                Ok(write) => write,
                Err(error) => return Err(error),
            };
            assert(bytes@ =~= le16(mapping as int));
            let ghost prior = self.writes@;
            self.writes.push(write);
            assert(self.writes@.subrange(0, start) =~= prior.subrange(0, start));
            k = k + 1;
        }
        let published: [u8; 1] = [count as u8];
        assert(published@ =~= seq![count as u8]);
        let total = match PdoSdoWrite::new(assignment_index, 0, &published) {
            Ok(write) => write,
            Err(error) => return Err(error),
        };
        self.writes.push(total);
        proof {
            let appended = self.writes@.subrange(start, self.writes@.len() as int);
            assert forall|m: int| 0 <= m < mapping_indexes@.len() implies write_of(#[trigger] appended[m + 1], assignment_index,
                (m + 1) as u8, le16(mapping_indexes@[m] as int)) by {
                assert(appended[m + 1] == self.writes@[start + 1 + m]);
            }
            assert(self.writes@.subrange(0, start) =~= before);
        }
        Ok(())
    }
}

impl<const OPS: usize> Default for PdoConfigPlan<OPS> {
    fn default() -> (plan: Self)
        ensures
            plan.wf(),
            plan.spec_writes() == Seq::<PdoSdoWrite>::empty(),
    {
        Self::new()
    }
}


/// Whether every write of a plan carries at most four value bytes.
pub open spec fn writes_fit(writes: Seq<PdoSdoWrite>) -> bool {
    forall|k: int| 0 <= k < writes.len() ==> (#[trigger] writes[k]).data_len <= MAX_PDO_SDO_DATA
}

impl<const OPS: usize> PdoConfigPlan<OPS> {
    /// Every write carries at most four value bytes.
    pub open spec fn fits(&self) -> bool {
        writes_fit(self.spec_writes())
    }
}

#[derive(Clone, Copy, Debug, PartialEq, Eq, Structural)]
pub enum PdoConfigPhase {
    Idle,
    Sending,
    AwaitingResponse,
    Complete,
    Faulted,
}

#[derive(Clone, Copy, Debug, PartialEq, Eq, Structural)]
pub enum PdoConfigStep {
    Download,
    VerifyUpload,
}

/// One mailbox request of the configuration: the SDO request bytes of the
/// current step of the current write.
#[derive(Clone, Copy, Debug, PartialEq, Eq)]
pub struct PdoConfigAction {
    pub token: u8,
    pub generation: u16,
    pub station_address: u16,
    pub operation_index: u16,
    pub step: PdoConfigStep,
    pub sdo_index: u16,
    pub sdo_subindex: u8,
    pub request_payload: [u8; MAX_MAILBOX_BYTES],
    pub request_len: u8,
    pub deadline_ns: u64,
}

impl PdoConfigAction {
    /// The request bytes of the action.
    pub fn payload(&self) -> (payload: &[u8])
        requires
            self.request_len <= MAX_MAILBOX_BYTES,
        ensures
            payload@ == self.request_payload@.subrange(0, self.request_len as int),
    {
        let len = self.request_len as usize;
        let all: &[u8] = self.request_payload.as_slice();
        &all[0..len]
    }
}

/// Whether two actions are the same action.
fn same_action(a: &PdoConfigAction, b: &PdoConfigAction) -> (same: bool)
    ensures
        same == (*a == *b),
{
    if a.token != b.token || a.generation != b.generation || a.station_address != b.station_address
        || a.operation_index != b.operation_index || a.step != b.step || a.sdo_index != b.sdo_index
        || a.sdo_subindex != b.sdo_subindex || a.request_len != b.request_len || a.deadline_ns != b.deadline_ns {
        return false;
    }
    let mut i: usize = 0;
    while i < MAX_MAILBOX_BYTES
        invariant
            i <= MAX_MAILBOX_BYTES,
            forall|k: int| 0 <= k < i ==> a.request_payload@[k] == b.request_payload@[k],
        decreases MAX_MAILBOX_BYTES - i,
    {
        if a.request_payload[i] != b.request_payload[i] {
            return false;
        }
        i = i + 1;
    }
    assert(a.request_payload@ =~= b.request_payload@);
    proof {
        vstd::array::axiom_array_ext_equal(a.request_payload, b.request_payload);
    }
    true
}

/// Whether `pending` holds exactly `action`.
fn pending_is(pending: &Option<PdoConfigAction>, action: &PdoConfigAction) -> (same: bool)
    ensures
        same == (*pending == Some(*action)),
{
    match pending {
        Some(p) => same_action(p, action),
        None => false,
    }
}

#[derive(Clone, Copy, Debug, PartialEq, Eq, Structural)]
pub enum PdoConfigProgress {
    Advanced,
    Complete,
}

#[derive(Clone, Copy, Debug, PartialEq, Eq, Structural)]
pub enum PdoConfigError {
    Busy,
    NotStarted,
    NoPendingAction,
    ActionMismatch,
    GenerationMismatch,
    PayloadLengthMismatch,
    Timeout,
    RequestTooLarge,
    ReadbackLengthMismatch { expected: u8, actual: u8 },
    ReadbackValueMismatch { byte_index: u8, expected: u8, actual: u8 },
    Mailbox(MailboxError),
    Plan(PdoConfigPlanError),
    Sdo(SdoError),
}

/// The state of a configuration controller as seen by its contracts.
#[verifier::ext_equal]
pub struct PdoConfigView {
    pub phase: PdoConfigPhase,
    pub plan: Seq<PdoSdoWrite>,
    pub operation_index: int,
    pub step: PdoConfigStep,
    pub station_address: u16,
    pub generation: u16,
    pub configuration_deadline_ns: u64,
    pub request_timeout_ns: u64,
    pub transfer: SdoTransferView,
    pub pending: Option<PdoConfigAction>,
    pub next_token: u8,
    pub last_error: Option<PdoConfigError>,
}

/// The SDO transfer begun for one step of a write: the download of its
/// value, or the upload of the same object for readback.
pub open spec fn step_transfer(w: PdoSdoWrite, step: PdoConfigStep) -> SdoTransferView {
    let begun = if step == PdoConfigStep::Download {
        begun_view(SdoDirection::Download, w.index, w.subindex, false, w.value())
    } else {
        begun_view(SdoDirection::Upload, w.index, w.subindex, false, Seq::empty())
    };
    SdoTransferView { request: initiate_request(begun), ..begun }
}

/// The controller latched as faulted with `error`.
pub open spec fn pdo_fault(v: PdoConfigView, error: PdoConfigError) -> PdoConfigView {
    PdoConfigView { last_error: Some(error), pending: None, phase: PdoConfigPhase::Faulted, ..v }
}

pub open spec fn min_u64(a: u64, b: u64) -> u64 {
    if a < b {
        a
    } else {
        b
    }
}

/// The action that sends the transfer's request for the current step.
pub open spec fn action_for(a: PdoConfigAction, v: PdoConfigView, now_ns: u64) -> bool {
    let w = v.plan[v.operation_index];
    &&& a.token == v.next_token
    &&& a.generation == v.generation
    &&& a.station_address == v.station_address
    &&& a.operation_index == v.operation_index as u16
    &&& a.step == v.step
    &&& a.sdo_index == w.index
    &&& a.sdo_subindex == w.subindex
    &&& a.request_len == v.transfer.request.len()
    &&& a.request_payload@ == v.transfer.request + zeros((MAX_MAILBOX_BYTES - v.transfer.request.len()) as nat)
    &&& a.deadline_ns == min_u64(saturating_add_u64(now_ns, v.request_timeout_ns), v.configuration_deadline_ns)
}

/// The first index from `from` on at which `actual` differs from `expected`.
pub open spec fn first_difference(expected: Seq<u8>, actual: Seq<u8>, from: int) -> Option<int>
    decreases actual.len() - from,
{
    if from < 0 || from >= actual.len() {
        None
    } else if expected[from] != actual[from] {
        Some(from)
    } else {
        first_difference(expected, actual, from + 1)
    }
}

/// The error of a readback that does not give back the written value
/// exactly: its length first, then its first differing byte.
pub open spec fn readback_error(w: PdoSdoWrite, data: Seq<u8>) -> Option<PdoConfigError> {
    if data.len() != w.data_len {
        Some(
            PdoConfigError::ReadbackLengthMismatch {
                expected: w.data_len,
                actual: if data.len() > u8::MAX {
                    u8::MAX
                } else {
                    data.len() as u8
                },
            },
        )
    } else {
        match first_difference(w.data@, data, 0) {
            Some(k) => Some(PdoConfigError::ReadbackValueMismatch { byte_index: k as u8, expected: w.data@[k], actual: data[k] }),
            None => None,
        }
    }
}

proof fn lemma_no_difference(expected: Seq<u8>, actual: Seq<u8>, from: int)
    requires
        0 <= from,
        first_difference(expected, actual, from) is None,
    ensures
        forall|k: int| from <= k < actual.len() ==> expected[k] == actual[k],
    decreases actual.len() - from,
{
    if from < actual.len() {
        lemma_no_difference(expected, actual, from + 1);
    }
}

/// A controller moves past a write only on the answer to its readback
/// upload, and only when that upload gave back exactly the written value.
pub proof fn lemma_advance_requires_exact_readback(
    v: PdoConfigView,
    action: PdoConfigAction,
    generation: u16,
    response: Seq<u8>,
    now_ns: u64,
)
    requires
        pdo_view_wf(v),
    ensures
        pdo_accept_outcome(v, action, generation, response, now_ns).0.operation_index > v.operation_index ==> {
            &&& v.step == PdoConfigStep::VerifyUpload
            &&& pdo_accept_outcome(v, action, generation, response, now_ns).0.operation_index == v.operation_index + 1
            &&& spec_accept(v.transfer, response).0.data == v.plan[v.operation_index].value()
        },
{
    let after = pdo_accept_outcome(v, action, generation, response, now_ns).0;
    if after.operation_index > v.operation_index {
        let w = v.plan[v.operation_index];
        let data = spec_accept(v.transfer, response).0.data;
        assert(readback_error(w, data) is None);
        lemma_no_difference(w.data@, data, 0);
        assert(data =~= w.value());
    }
}

/// The controller and the result after `start`.
pub open spec fn pdo_start_outcome(
    v: PdoConfigView,
    plan: Seq<PdoSdoWrite>,
    station_address: u16,
    generation: u16,
    now_ns: u64,
    timeout_ns: u64,
    request_timeout_ns: u64,
) -> (PdoConfigView, Result<(), PdoConfigError>) {
    if !(v.phase == PdoConfigPhase::Idle || v.phase == PdoConfigPhase::Complete || v.phase == PdoConfigPhase::Faulted) {
        (v, Err(PdoConfigError::Busy))
    } else {
        let reset = PdoConfigView {
            phase: v.phase,
            plan,
            operation_index: 0,
            step: PdoConfigStep::Download,
            station_address,
            generation,
            configuration_deadline_ns: saturating_add_u64(now_ns, timeout_ns),
            request_timeout_ns,
            transfer: idle_view(),
            pending: None,
            next_token: 1,
            last_error: None,
        };
        if plan.len() == 0 {
            (PdoConfigView { phase: PdoConfigPhase::Complete, ..reset }, Ok(()))
        } else {
            (
                PdoConfigView {
                    phase: PdoConfigPhase::Sending,
                    transfer: step_transfer(plan[0], PdoConfigStep::Download),
                    ..reset
                },
                Ok(()),
            )
        }
    }
}

/// Whether `after` and `result` are the controller and the result of
/// `next_action` at `now_ns`.
pub open spec fn pdo_next_action_outcome(
    v: PdoConfigView,
    now_ns: u64,
    after: PdoConfigView,
    result: Result<Option<PdoConfigAction>, PdoConfigError>,
) -> bool {
    if v.phase == PdoConfigPhase::Idle {
        after == v && result == Err::<Option<PdoConfigAction>, PdoConfigError>(PdoConfigError::NotStarted)
    } else if v.phase == PdoConfigPhase::Complete || v.phase == PdoConfigPhase::Faulted {
        after == v && result == Ok::<Option<PdoConfigAction>, PdoConfigError>(None)
    } else if v.pending is Some {
        after == v && result == Ok::<Option<PdoConfigAction>, PdoConfigError>(v.pending)
    } else {
        let error = if now_ns >= v.configuration_deadline_ns {
            Some(PdoConfigError::Timeout)
        } else if v.phase != PdoConfigPhase::Sending {
            Some(PdoConfigError::NoPendingAction)
        } else if v.transfer.request.len() == 0 {
            Some(PdoConfigError::Sdo(SdoError::InvalidState))
        } else if v.transfer.request.len() > MAX_MAILBOX_BYTES {
            Some(PdoConfigError::RequestTooLarge)
        } else {
            None
        };
        match error {
            Some(e) => after == pdo_fault(v, e) && result == Err::<Option<PdoConfigAction>, PdoConfigError>(e),
            None => result matches Ok(Some(a)) && action_for(a, v, now_ns) && after == (PdoConfigView {
                pending: Some(a),
                phase: PdoConfigPhase::AwaitingResponse,
                next_token: next_nonzero(v.next_token),
                ..v
            }),
        }
    }
}

/// The controller and the result after the response to `action`.
pub open spec fn pdo_accept_outcome(
    v: PdoConfigView,
    action: PdoConfigAction,
    generation: u16,
    response: Seq<u8>,
    now_ns: u64,
) -> (PdoConfigView, Result<PdoConfigProgress, PdoConfigError>) {
    let error = if v.pending != Some(action) {
        Some(PdoConfigError::ActionMismatch)
    } else if action.generation != generation {
        Some(PdoConfigError::GenerationMismatch)
    } else if now_ns > action.deadline_ns {
        Some(PdoConfigError::Timeout)
    } else if response.len() == 0 || response.len() > MAX_MAILBOX_BYTES {
        Some(PdoConfigError::PayloadLengthMismatch)
    } else {
        None
    };
    match error {
        Some(e) => (pdo_fault(v, e), Err(e)),
        None => {
            let (transfer, sdo) = spec_accept(v.transfer, response);
            let answered = PdoConfigView { transfer, ..v };
            match sdo {
                Err(e) => (pdo_fault(answered, PdoConfigError::Sdo(e)), Err(PdoConfigError::Sdo(e))),
                Ok(SdoProgress::Advanced) => (
                    PdoConfigView { pending: None, phase: PdoConfigPhase::Sending, ..answered },
                    Ok(PdoConfigProgress::Advanced),
                ),
                Ok(SdoProgress::Complete) => {
                    let done = PdoConfigView { pending: None, ..answered };
                    let w = v.plan[v.operation_index];
                    if v.step == PdoConfigStep::Download {
                        (
                            PdoConfigView {
                                step: PdoConfigStep::VerifyUpload,
                                transfer: step_transfer(w, PdoConfigStep::VerifyUpload),
                                phase: PdoConfigPhase::Sending,
                                ..done
                            },
                            Ok(PdoConfigProgress::Advanced),
                        )
                    } else {
                        match readback_error(w, transfer.data) {
                            Some(e) => (pdo_fault(done, e), Err(e)),
                            None => {
                                let next = v.operation_index + 1;
                                if next >= v.plan.len() {
                                    (
                                        PdoConfigView {
                                            operation_index: next,
                                            step: PdoConfigStep::Download,
                                            phase: PdoConfigPhase::Complete,
                                            ..done
                                        },
                                        Ok(PdoConfigProgress::Complete),
                                    )
                                } else {
                                    (
                                        PdoConfigView {
                                            operation_index: next,
                                            step: PdoConfigStep::Download,
                                            transfer: step_transfer(v.plan[next], PdoConfigStep::Download),
                                            phase: PdoConfigPhase::Sending,
                                            ..done
                                        },
                                        Ok(PdoConfigProgress::Advanced),
                                    )
                                }
                            },
                        }
                    }
                },
            }
        },
    }
}

/// Drives one SDO download and one verifying upload per planned write.
pub struct PdoConfigController<const OPS: usize> {
    phase: PdoConfigPhase,
    plan: PdoConfigPlan<OPS>,
    operation_index: usize,
    step: PdoConfigStep,
    station_address: u16,
    generation: u16,
    configuration_deadline_ns: u64,
    request_timeout_ns: u64,
    transfer: SdoTransfer,
    pending: Option<PdoConfigAction>,
    next_token: u8,
    last_error: Option<PdoConfigError>,
}

impl<const OPS: usize> View for PdoConfigController<OPS> {
    type V = PdoConfigView;

    closed spec fn view(&self) -> PdoConfigView {
        PdoConfigView {
            phase: self.phase,
            plan: self.plan.spec_writes(),
            operation_index: self.operation_index as int,
            step: self.step,
            station_address: self.station_address,
            generation: self.generation,
            configuration_deadline_ns: self.configuration_deadline_ns,
            request_timeout_ns: self.request_timeout_ns,
            transfer: self.transfer@,
            pending: self.pending,
            next_token: self.next_token,
            last_error: self.last_error,
        }
    }
}

/// A controller that was never started.
pub open spec fn pdo_initial_view() -> PdoConfigView {
    PdoConfigView {
        phase: PdoConfigPhase::Idle,
        plan: Seq::empty(),
        operation_index: 0,
        step: PdoConfigStep::Download,
        station_address: 0,
        generation: 0,
        configuration_deadline_ns: 0,
        request_timeout_ns: 0,
        transfer: idle_view(),
        pending: None,
        next_token: 1,
        last_error: None,
    }
}

/// The controller's own invariant over its view.
pub open spec fn pdo_view_wf(v: PdoConfigView) -> bool {
    &&& writes_fit(v.plan)
    &&& 0 <= v.operation_index <= v.plan.len()
    &&& (v.phase == PdoConfigPhase::Sending || v.phase == PdoConfigPhase::AwaitingResponse ==> v.operation_index
        < v.plan.len())
    &&& (v.pending is Some <==> v.phase == PdoConfigPhase::AwaitingResponse)
    &&& v.next_token >= 1
    &&& (v.pending matches Some(a) ==> a.request_len <= MAX_MAILBOX_BYTES)
}

impl<const OPS: usize> PdoConfigController<OPS> {
    pub closed spec fn wf(&self) -> bool {
        &&& self.plan.wf()
        &&& self.transfer.wf()
        &&& pdo_view_wf(self@)
    }

    pub open spec fn spec_initial() -> PdoConfigView {
        pdo_initial_view()
    }

    pub fn new() -> (controller: Self)
        ensures
            controller@ == Self::spec_initial(),
            controller.wf(),
    {
        PdoConfigController {
            phase: PdoConfigPhase::Idle,
            plan: PdoConfigPlan::new(),
            operation_index: 0,
            step: PdoConfigStep::Download,
            station_address: 0,
            generation: 0,
            configuration_deadline_ns: 0,
            request_timeout_ns: 0,
            transfer: SdoTransfer::new(),
            pending: None,
            next_token: 1,
            last_error: None,
        }
    }

    pub fn phase(&self) -> (phase: PdoConfigPhase)
        ensures
            phase == self@.phase,
    {
        self.phase
    }

    pub fn pending(&self) -> (pending: Option<PdoConfigAction>)
        ensures
            pending == self@.pending,
    {
        self.pending
    }

    pub fn operation_index(&self) -> (index: usize)
        ensures
            index == self@.operation_index,
    {
        self.operation_index
    }

    pub fn step(&self) -> (step: PdoConfigStep)
        ensures
            step == self@.step,
    {
        self.step
    }

    pub fn last_error(&self) -> (error: Option<PdoConfigError>)
        ensures
            error == self@.last_error,
    {
        self.last_error
    }

    /// Latch the controller as faulted with `error`.
    fn fail<T>(&mut self, error: PdoConfigError) -> (result: Result<T, PdoConfigError>)
        requires
            old(self).wf(),
        ensures
            final(self).wf(),
            final(self)@ == pdo_fault(old(self)@, error),
            result == Err::<T, PdoConfigError>(error),
    {
        self.last_error = Some(error);
        self.pending = None;
        self.phase = PdoConfigPhase::Faulted;
        Err(error)
    }

    /// Begin the SDO transfer of the current step of the current write.
    fn start_current_transfer(&mut self) -> (result: Result<(), PdoConfigError>)
        requires
            old(self).wf(),
            old(self)@.operation_index < old(self)@.plan.len(),
            may_begin(old(self)@.transfer.phase),
        ensures
            final(self).wf(),
            result is Ok,
            final(self)@ == (PdoConfigView {
                transfer: step_transfer(old(self)@.plan[old(self)@.operation_index], old(self)@.step),
                ..old(self)@
            }),
    {
        let writes = self.plan.writes();
        let write = writes[self.operation_index];
        proof {
            assert(write.data_len <= MAX_PDO_SDO_DATA);
        }
        match self.step {
            PdoConfigStep::Download => {
                let len = write.data_len as usize;
                let all: &[u8] = write.data.as_slice();
                let value: &[u8] = &all[0..len];
                match self.transfer.start_download(write.index, write.subindex, value, false) {
                    Ok(()) => Ok(()),
                    Err(error) => Err(PdoConfigError::Sdo(error)),
                }
            },
            PdoConfigStep::VerifyUpload => {
                match self.transfer.start_upload(write.index, write.subindex, false) {
                    Ok(()) => Ok(()),
                    Err(error) => Err(PdoConfigError::Sdo(error)),
                }
            },
        }
    }

    /// Compare the uploaded bytes with the written value: faults on the
    /// first difference in length, then in value.
    fn verify_readback(&mut self) -> (result: Result<(), PdoConfigError>)
        requires
            old(self).wf(),
            old(self)@.operation_index < old(self)@.plan.len(),
        ensures
            final(self).wf(),
            readback_error(old(self)@.plan[old(self)@.operation_index], old(self)@.transfer.data) matches Some(e)
                ==> final(self)@ == pdo_fault(old(self)@, e) && result == Err::<(), PdoConfigError>(e),
            readback_error(old(self)@.plan[old(self)@.operation_index], old(self)@.transfer.data) is None
                ==> final(self)@ == old(self)@ && result is Ok,
    {
        let writes = self.plan.writes();
        let write = writes[self.operation_index];
        let actual_len = self.transfer.data_len();
        if actual_len != write.data_len as usize {
            let actual: u8 = if actual_len > 255 { 255 } else { actual_len as u8 };
            return self.fail(PdoConfigError::ReadbackLengthMismatch { expected: write.data_len, actual });
        }
        let ghost expected = write.data@;
        let ghost data = self.transfer@.data;
        let mut byte_index: usize = 0;
        while byte_index < actual_len
            invariant
                byte_index <= actual_len,
                actual_len == data.len(),
                actual_len == write.data_len,
                actual_len <= MAX_PDO_SDO_DATA,
                expected == write.data@,
                data == self.transfer@.data,
                self.wf(),
                self@ == old(self)@,
                write == old(self)@.plan[old(self)@.operation_index],
                first_difference(expected, data, 0) == first_difference(expected, data, byte_index as int),
            decreases actual_len - byte_index,
        {
            let expected_byte = write.data[byte_index];
            let actual_byte = self.transfer.data()[byte_index];
            if actual_byte != expected_byte {
                assert(first_difference(expected, data, byte_index as int) == Some(byte_index as int));
                return self.fail(
                    PdoConfigError::ReadbackValueMismatch { byte_index: byte_index as u8, expected: expected_byte, actual: actual_byte },
                );
            }
            byte_index = byte_index + 1;
        }
        Ok(())
    }

    /// Begin configuring `plan` on the station; an empty plan completes at
    /// once. Refused while a configuration runs.
    pub fn start(
        &mut self,
        plan: PdoConfigPlan<OPS>,
        station_address: u16,
        generation: u16,
        now_ns: u64,
        timeout_ns: u64,
        request_timeout_ns: u64,
    ) -> (result: Result<(), PdoConfigError>)
        requires
            old(self).wf(),
            plan.wf(),
            plan.fits(),
        ensures
            final(self).wf(),
            (final(self)@, result) == pdo_start_outcome(
                old(self)@,
                plan.spec_writes(),
                station_address,
                generation,
                now_ns,
                timeout_ns,
                request_timeout_ns,
            ),
    {
        if !(self.phase == PdoConfigPhase::Idle || self.phase == PdoConfigPhase::Complete || self.phase
            == PdoConfigPhase::Faulted) {
            return Err(PdoConfigError::Busy);
        }
        self.plan = plan;
        self.operation_index = 0;
        self.step = PdoConfigStep::Download;
        self.station_address = station_address;
        self.generation = generation;
        self.configuration_deadline_ns = now_ns.saturating_add(timeout_ns);
        self.request_timeout_ns = request_timeout_ns;
        self.transfer = SdoTransfer::new();
        self.pending = None;
        self.next_token = 1;
        self.last_error = None;
        if self.plan.is_empty() {
            self.phase = PdoConfigPhase::Complete;
            return Ok(());
        }
        match self.start_current_transfer() {
            Ok(()) => {},
            Err(error) => return Err(error),
        }
        self.phase = PdoConfigPhase::Sending;
        Ok(())
    }

    /// The request to send next: the pending one again, or the request of
    /// the current step. Faults once the configuration deadline passed.
    pub fn next_action(&mut self, now_ns: u64) -> (result: Result<Option<PdoConfigAction>, PdoConfigError>)
        requires
            old(self).wf(),
        ensures
            final(self).wf(),
            pdo_next_action_outcome(old(self)@, now_ns, final(self)@, result),
    {
        if self.phase == PdoConfigPhase::Idle {
            return Err(PdoConfigError::NotStarted);
        }
        if self.phase == PdoConfigPhase::Complete || self.phase == PdoConfigPhase::Faulted {
            return Ok(None);
        }
        if let Some(action) = self.pending {
            return Ok(Some(action));
        }
        if now_ns >= self.configuration_deadline_ns {
            return self.fail(PdoConfigError::Timeout);
        }
        if self.phase != PdoConfigPhase::Sending {
            return self.fail(PdoConfigError::NoPendingAction);
        }
        let request = match self.transfer.request() {
            Some(request) => request,
            None => return self.fail(PdoConfigError::Sdo(SdoError::InvalidState)),
        };
        if request.len() > MAX_MAILBOX_BYTES {
            return self.fail(PdoConfigError::RequestTooLarge);
        }
        let writes = self.plan.writes();
        let write = writes[self.operation_index];
        let mut request_payload = [0u8; MAX_MAILBOX_BYTES];
        let mut i: usize = 0;
        while i < request.len()
            invariant
                i <= request@.len() <= MAX_MAILBOX_BYTES,
                forall|k: int| 0 <= k < i ==> request_payload@[k] == request@[k],
                forall|k: int| i <= k < MAX_MAILBOX_BYTES ==> request_payload@[k] == 0,
            decreases request@.len() - i,
        {
            request_payload[i] = request[i];
            i = i + 1;
        }
        let request_len = request.len() as u8;
        let deadline = now_ns.saturating_add(self.request_timeout_ns);
        let deadline_ns = if deadline < self.configuration_deadline_ns {
            deadline
        } else {
            self.configuration_deadline_ns
        };
        let action = PdoConfigAction {
            token: self.next_token,
            generation: self.generation,
            station_address: self.station_address,
            operation_index: self.operation_index as u16,
            step: self.step,
            sdo_index: write.index,
            sdo_subindex: write.subindex,
            request_payload,
            request_len,
            deadline_ns,
        };
        assert(action.request_payload@ =~= self.transfer@.request + zeros(
            (MAX_MAILBOX_BYTES - self.transfer@.request.len()) as nat,
        ));
        self.next_token = if self.next_token == u8::MAX { 1 } else { self.next_token + 1 };
        self.pending = Some(action);
        self.phase = PdoConfigPhase::AwaitingResponse;
        Ok(Some(action))
    }

    /// Offer the mailbox response to `action`: on the download's answer the
    /// readback upload begins, and a readback that gives back the written
    /// value exactly moves on to the next write.
    pub fn accept(&mut self, action: PdoConfigAction, generation: u16, response: &[u8], now_ns: u64) -> (result:
        Result<PdoConfigProgress, PdoConfigError>)
        requires
            old(self).wf(),
        ensures
            final(self).wf(),
            (final(self)@, result) == pdo_accept_outcome(old(self)@, action, generation, response@, now_ns),
    {
        if !pending_is(&self.pending, &action) {
            return self.fail(PdoConfigError::ActionMismatch);
        }
        if action.generation != generation {
            return self.fail(PdoConfigError::GenerationMismatch);
        }
        if now_ns > action.deadline_ns {
            return self.fail(PdoConfigError::Timeout);
        }
        if response.len() == 0 || response.len() > MAX_MAILBOX_BYTES {
            return self.fail(PdoConfigError::PayloadLengthMismatch);
        }
        match self.transfer.accept_response(response) {
            Ok(SdoProgress::Advanced) => {
                self.pending = None;
                self.phase = PdoConfigPhase::Sending;
                Ok(PdoConfigProgress::Advanced)
            },
            Ok(SdoProgress::Complete) => {
                self.pending = None;
                self.phase = PdoConfigPhase::Sending;
                match self.step {
                    PdoConfigStep::Download => {
                        self.step = PdoConfigStep::VerifyUpload;
                        if let Err(error) = self.start_current_transfer() {
                            return self.fail(error);
                        }
                        Ok(PdoConfigProgress::Advanced)
                    },
                    PdoConfigStep::VerifyUpload => {
                        match self.verify_readback() {
                            Ok(()) => {},
                            Err(error) => return Err(error),
                        }
                        self.operation_index = self.operation_index + 1;
                        self.step = PdoConfigStep::Download;
                        if self.operation_index >= self.plan.len() {
                            self.phase = PdoConfigPhase::Complete;
                            Ok(PdoConfigProgress::Complete)
                        } else {
                            if let Err(error) = self.start_current_transfer() {
                                return self.fail(error);
                            }
                            Ok(PdoConfigProgress::Advanced)
                        }
                    },
                }
            },
            Err(error) => self.fail(PdoConfigError::Sdo(error)),
        }
    }

    /// Report that the deadline of `action` passed: faults once it has,
    /// and refuses, unchanged, before it.
    pub fn timeout(&mut self, action: PdoConfigAction, now_ns: u64) -> (result: Result<PdoConfigProgress, PdoConfigError>)
        requires
            old(self).wf(),
        ensures
            final(self).wf(),
            old(self)@.pending != Some(action) ==> final(self)@ == pdo_fault(old(self)@, PdoConfigError::ActionMismatch)
                && result == Err::<PdoConfigProgress, PdoConfigError>(PdoConfigError::ActionMismatch),
            old(self)@.pending == Some(action) && now_ns < action.deadline_ns ==> final(self)@ == old(self)@ && result
                == Err::<PdoConfigProgress, PdoConfigError>(PdoConfigError::Timeout),
            old(self)@.pending == Some(action) && now_ns >= action.deadline_ns ==> final(self)@ == pdo_fault(
                old(self)@,
                PdoConfigError::Timeout,
            ) && result == Err::<PdoConfigProgress, PdoConfigError>(PdoConfigError::Timeout),
    {
        if !pending_is(&self.pending, &action) {
            return self.fail(PdoConfigError::ActionMismatch);
        }
        if now_ns < action.deadline_ns {
            return Err(PdoConfigError::Timeout);
        }
        self.fail(PdoConfigError::Timeout)
    }

    /// Report that the mailbox exchange of `action` failed: the controller
    /// faults with the mailbox error.
    pub fn mailbox_failed(&mut self, action: PdoConfigAction, error: MailboxError) -> (result: Result<
        PdoConfigProgress,
        PdoConfigError,
    >)
        requires
            old(self).wf(),
        ensures
            final(self).wf(),
            old(self)@.pending != Some(action) ==> final(self)@ == pdo_fault(old(self)@, PdoConfigError::ActionMismatch)
                && result == Err::<PdoConfigProgress, PdoConfigError>(PdoConfigError::ActionMismatch),
            old(self)@.pending == Some(action) ==> final(self)@ == pdo_fault(old(self)@, PdoConfigError::Mailbox(error))
                && result == Err::<PdoConfigProgress, PdoConfigError>(PdoConfigError::Mailbox(error)),
    {
        if !pending_is(&self.pending, &action) {
            return self.fail(PdoConfigError::ActionMismatch);
        }
        self.fail(PdoConfigError::Mailbox(error))
    }
}

impl<const OPS: usize> Default for PdoConfigController<OPS> {
    fn default() -> (controller: Self)
        ensures
            controller@ == Self::spec_initial(),
            controller.wf(),
    {
        Self::new()
    }
}


/// The plain values of a configuration job.
pub struct PdoConfigJobView {
    pub station_address: u16,
    pub writes: Seq<PdoSdoWrite>,
    pub mailbox_config: MailboxConfig,
}

/// The plan for one station, with the mailbox it is configured through.
pub struct PdoConfigJob<const OPS: usize> {
    station_address: u16,
    plan: PdoConfigPlan<OPS>,
    mailbox_config: MailboxConfig,
}

impl<const OPS: usize> View for PdoConfigJob<OPS> {
    type V = PdoConfigJobView;

    closed spec fn view(&self) -> PdoConfigJobView {
        PdoConfigJobView {
            station_address: self.station_address,
            writes: self.plan.spec_writes(),
            mailbox_config: self.mailbox_config,
        }
    }
}

impl<const OPS: usize> PdoConfigJob<OPS> {
    pub closed spec fn wf(&self) -> bool {
        self.plan.wf()
    }

    pub fn new(station_address: u16, plan: PdoConfigPlan<OPS>, mailbox_config: MailboxConfig) -> (job: Self)
        ensures
            job@ == (PdoConfigJobView { station_address, writes: plan.spec_writes(), mailbox_config }),
            plan.wf() ==> job.wf(),
    {
        PdoConfigJob { station_address, plan, mailbox_config }
    }

    pub fn station_address(&self) -> (station_address: u16)
        ensures
            station_address == self@.station_address,
    {
        self.station_address
    }

    pub fn plan(&self) -> (plan: &PdoConfigPlan<OPS>)
        ensures
            plan.spec_writes() == self@.writes,
            self.wf() ==> plan.wf(),
    {
        &self.plan
    }

    pub fn mailbox_config(&self) -> (config: MailboxConfig)
        ensures
            config == self@.mailbox_config,
    {
        self.mailbox_config
    }
}

#[derive(Clone, Copy, Debug, PartialEq, Eq, Structural)]
pub enum PdoConfigBatchPlanError {
    Empty,
    CapacityExceeded,
    DuplicateStationAddress { station_address: u16 },
}

/// Whether no two jobs configure the same station.
pub open spec fn distinct_stations(jobs: Seq<PdoConfigJobView>) -> bool {
    forall|i: int, j: int|
        0 <= i < jobs.len() && 0 <= j < jobs.len() && i != j ==> (#[trigger] jobs[i]).station_address
            != (#[trigger] jobs[j]).station_address
}

/// Whether every job's writes carry at most four value bytes.
pub open spec fn jobs_fit(jobs: Seq<PdoConfigJobView>) -> bool {
    forall|i: int| 0 <= i < jobs.len() ==> writes_fit((#[trigger] jobs[i]).writes)
}

/// Jobs for up to `JOBS` stations, at most one per station, run in order.
pub struct PdoConfigBatchPlan<const JOBS: usize, const OPS: usize> {
    jobs: Vec<PdoConfigJob<OPS>>,
}

impl<const JOBS: usize, const OPS: usize> PdoConfigBatchPlan<JOBS, OPS> {
    pub closed spec fn spec_jobs(&self) -> Seq<PdoConfigJobView> {
        self.jobs@.map_values(|job: PdoConfigJob<OPS>| job@)
    }

    pub closed spec fn wf(&self) -> bool {
        &&& self.jobs@.len() <= JOBS
        &&& forall|i: int| 0 <= i < self.jobs@.len() ==> (#[trigger] self.jobs@[i]).wf()
        &&& distinct_stations(self.spec_jobs())
    }

    /// Every job's writes carry at most four value bytes.
    pub open spec fn fits(&self) -> bool {
        jobs_fit(self.spec_jobs())
    }

    pub fn new() -> (plan: Self)
        ensures
            plan.wf(),
            plan.spec_jobs() == Seq::<PdoConfigJobView>::empty(),
    {
        let plan = PdoConfigBatchPlan { jobs: Vec::new() };
        assert(plan.spec_jobs() =~= Seq::<PdoConfigJobView>::empty());
        plan
    }

    pub fn len(&self) -> (len: usize)
        ensures
            len == self.spec_jobs().len(),
    {
        self.jobs.len()
    }

    pub fn is_empty(&self) -> (empty: bool)
        ensures
            empty == (self.spec_jobs().len() == 0),
    {
        self.jobs.len() == 0
    }

    pub fn jobs(&self) -> (jobs: &[PdoConfigJob<OPS>])
        ensures
            jobs@.len() == self.spec_jobs().len(),
            forall|i: int| 0 <= i < jobs@.len() ==> (#[trigger] jobs@[i])@ == self.spec_jobs()[i],
    {
        self.jobs.as_slice()
    }

    /// Append a job while the plan has room and no job configures the
    /// same station yet.
    #[verifier::loop_isolation(false)]
    pub fn push(&mut self, job: PdoConfigJob<OPS>) -> (result: Result<(), PdoConfigBatchPlanError>)
        requires
            old(self).wf(),
            job.wf(),
        ensures
            final(self).wf(),
            old(self).spec_jobs().len() >= JOBS ==> result == Err::<(), PdoConfigBatchPlanError>(
                PdoConfigBatchPlanError::CapacityExceeded,
            ),
            old(self).spec_jobs().len() < JOBS && (exists|i: int|
                0 <= i < old(self).spec_jobs().len() && (#[trigger] old(self).spec_jobs()[i]).station_address
                    == job@.station_address) ==> result == Err::<(), PdoConfigBatchPlanError>(
                PdoConfigBatchPlanError::DuplicateStationAddress { station_address: job@.station_address },
            ),
            result is Err ==> final(self).spec_jobs() == old(self).spec_jobs(),
            result is Ok ==> final(self).spec_jobs() == old(self).spec_jobs().push(job@),
            old(self).spec_jobs().len() < JOBS && (forall|i: int|
                0 <= i < old(self).spec_jobs().len() ==> (#[trigger] old(self).spec_jobs()[i]).station_address
                    != job@.station_address) ==> result is Ok,
    {
        if self.jobs.len() >= JOBS {
            return Err(PdoConfigBatchPlanError::CapacityExceeded);
        }
        let mut i: usize = 0;
        while i < self.jobs.len()
            invariant
                i <= self.jobs@.len(),
                forall|k: int| 0 <= k < i ==> (#[trigger] self.spec_jobs()[k]).station_address != job@.station_address,
            decreases self.jobs@.len() - i,
        {
            if self.jobs[i].station_address == job.station_address {
                assert(self.spec_jobs()[i as int].station_address == job@.station_address);
                return Err(PdoConfigBatchPlanError::DuplicateStationAddress { station_address: job.station_address });
            }
            i = i + 1;
        }
        let ghost before = self.spec_jobs();
        let ghost old_jobs = self.jobs@;
        self.jobs.push(job);
        assert(self.spec_jobs() =~= before.push(job@));
        assert forall|k: int| 0 <= k < self.jobs@.len() implies (#[trigger] self.jobs@[k]).wf() by {
            if k < old_jobs.len() {
                assert(self.jobs@[k] == old_jobs[k]);
            }
        }
        Ok(())
    }

    /// Refuse an empty plan.
    pub fn validate(&self) -> (result: Result<(), PdoConfigBatchPlanError>)
        ensures
            self.spec_jobs().len() == 0 ==> result == Err::<(), PdoConfigBatchPlanError>(PdoConfigBatchPlanError::Empty),
            self.spec_jobs().len() > 0 ==> result is Ok,
    {
        if self.is_empty() {
            Err(PdoConfigBatchPlanError::Empty)
        } else {
            Ok(())
        }
    }
}

impl<const JOBS: usize, const OPS: usize> Default for PdoConfigBatchPlan<JOBS, OPS> {
    fn default() -> (plan: Self)
        ensures
            plan.wf(),
            plan.spec_jobs() == Seq::<PdoConfigJobView>::empty(),
    {
        Self::new()
    }
}


#[derive(Clone, Copy, Debug, PartialEq, Eq, Structural)]
pub enum PdoConfigBatchPhase {
    Idle,
    Configuring,
    Complete,
    Faulted,
}

#[derive(Clone, Copy, Debug, PartialEq, Eq, Structural)]
pub struct PdoConfigBatchStatus {
    pub phase: PdoConfigBatchPhase,
    pub current_index: usize,
    pub job_count: usize,
    pub station_address: Option<u16>,
    pub generation: Option<u16>,
}

#[derive(Clone, Copy, Debug, PartialEq, Eq, Structural)]
pub enum PdoConfigBatchError {
    Busy,
    NotStarted,
    GenerationOutOfBounds,
    Plan(PdoConfigBatchPlanError),
    Configuration(PdoConfigError),
}

/// The state of a batch as seen by its contracts.
#[verifier::ext_equal]
pub struct PdoConfigBatchView {
    pub phase: PdoConfigBatchPhase,
    pub jobs: Seq<PdoConfigJobView>,
    pub current_index: int,
    pub base_generation: u16,
    pub timeout_ns: u64,
    pub request_timeout_ns: u64,
    pub controller: PdoConfigView,
    pub mailbox: MailboxView,
    pub last_error: Option<PdoConfigBatchError>,
}

/// The phase a batch reports: a running batch whose controller faulted is
/// faulted.
pub open spec fn batch_phase(v: PdoConfigBatchView) -> PdoConfigBatchPhase {
    if v.phase == PdoConfigBatchPhase::Configuring && v.controller.phase == PdoConfigPhase::Faulted {
        PdoConfigBatchPhase::Faulted
    } else {
        v.phase
    }
}

/// The batch's own error, else the controller's.
pub open spec fn batch_last_error(v: PdoConfigBatchView) -> Option<PdoConfigBatchError> {
    match v.last_error {
        Some(e) => Some(e),
        None => match v.controller.last_error {
            Some(e) => Some(PdoConfigBatchError::Configuration(e)),
            None => None,
        },
    }
}

/// The status of a batch: its phase, the job it is on and the generation
/// that job runs under.
pub open spec fn batch_status(v: PdoConfigBatchView) -> PdoConfigBatchStatus {
    let current = 0 <= v.current_index < v.jobs.len();
    PdoConfigBatchStatus {
        phase: batch_phase(v),
        current_index: v.current_index as usize,
        job_count: v.jobs.len() as usize,
        station_address: if current {
            Some(v.jobs[v.current_index].station_address)
        } else {
            None
        },
        generation: if current {
            Some(wrapping_add_u16(v.base_generation, v.current_index as u16))
        } else {
            None
        },
    }
}

/// Start the jobs from the current one on, skipping those with empty plans,
/// until one runs, one cannot start, or the plan (or the budget of
/// `remaining` starts) ends; the batch completes in the last case. Each job
/// runs under the base generation plus its index.
pub open spec fn run_jobs(v: PdoConfigBatchView, now_ns: u64, remaining: nat) -> (PdoConfigBatchView, Result<
    (),
    PdoConfigBatchError,
>)
    decreases remaining,
{
    if !(v.current_index < v.jobs.len() && remaining != 0) {
        (PdoConfigBatchView { phase: PdoConfigBatchPhase::Complete, ..v }, Ok(()))
    } else {
        let job = v.jobs[v.current_index];
        let offset = v.current_index as u16;
        if v.base_generation + offset > u16::MAX {
            (v, Err(PdoConfigBatchError::GenerationOutOfBounds))
        } else {
            let (controller, started) = pdo_start_outcome(
                v.controller,
                job.writes,
                job.station_address,
                (v.base_generation + offset) as u16,
                now_ns,
                v.timeout_ns,
                v.request_timeout_ns,
            );
            match started {
                Err(e) => (
                    PdoConfigBatchView {
                        controller,
                        phase: PdoConfigBatchPhase::Faulted,
                        last_error: Some(PdoConfigBatchError::Configuration(e)),
                        ..v
                    },
                    Err(PdoConfigBatchError::Configuration(e)),
                ),
                Ok(()) => {
                    let running = PdoConfigBatchView { controller, phase: PdoConfigBatchPhase::Configuring, ..v };
                    if controller.phase != PdoConfigPhase::Complete {
                        (running, Ok(()))
                    } else {
                        run_jobs(
                            PdoConfigBatchView { current_index: v.current_index + 1, ..running },
                            now_ns,
                            (remaining - 1) as nat,
                        )
                    }
                },
            }
        }
    }
}

/// The batch and the result after `start` with a batch of `capacity` jobs.
pub open spec fn batch_start_outcome(
    v: PdoConfigBatchView,
    jobs: Seq<PdoConfigJobView>,
    base_generation: u16,
    now_ns: u64,
    timeout_ns: u64,
    request_timeout_ns: u64,
    capacity: nat,
) -> (PdoConfigBatchView, Result<(), PdoConfigBatchError>) {
    if batch_phase(v) == PdoConfigBatchPhase::Configuring {
        (v, Err(PdoConfigBatchError::Busy))
    } else if jobs.len() == 0 {
        (v, Err(PdoConfigBatchError::Plan(PdoConfigBatchPlanError::Empty)))
    } else if jobs.len() - 1 > u16::MAX || base_generation + (jobs.len() - 1) > u16::MAX {
        (v, Err(PdoConfigBatchError::GenerationOutOfBounds))
    } else {
        run_jobs(
            PdoConfigBatchView {
                phase: PdoConfigBatchPhase::Configuring,
                jobs,
                current_index: 0,
                base_generation,
                timeout_ns,
                request_timeout_ns,
                controller: pdo_initial_view(),
                mailbox: MailboxController::spec_initial(),
                last_error: None,
            },
            now_ns,
            capacity,
        )
    }
}

/// The batch and the result after `advance` with a batch of `capacity`
/// jobs.
pub open spec fn batch_advance_outcome(v: PdoConfigBatchView, now_ns: u64, capacity: nat) -> (PdoConfigBatchView, Result<
    PdoConfigBatchStatus,
    PdoConfigBatchError,
>) {
    let phase = batch_phase(v);
    if phase == PdoConfigBatchPhase::Idle {
        (v, Err(PdoConfigBatchError::NotStarted))
    } else if phase == PdoConfigBatchPhase::Complete {
        (v, Ok(batch_status(v)))
    } else if phase == PdoConfigBatchPhase::Faulted {
        let e = match batch_last_error(v) {
            Some(e) => e,
            None => PdoConfigBatchError::Configuration(PdoConfigError::NoPendingAction),
        };
        (PdoConfigBatchView { phase: PdoConfigBatchPhase::Faulted, last_error: Some(e), ..v }, Err(e))
    } else if v.controller.phase != PdoConfigPhase::Complete {
        (v, Ok(batch_status(v)))
    } else {
        let (after, started) = run_jobs(PdoConfigBatchView { current_index: v.current_index + 1, ..v }, now_ns, capacity);
        match started {
            Err(e) => (after, Err(e)),
            Ok(()) => (after, Ok(batch_status(after))),
        }
    }
}

/// Configures the stations of a batch plan one after another, each under
/// its own generation, through one controller and one mailbox.
pub struct PdoConfigBatch<const JOBS: usize, const OPS: usize> {
    phase: PdoConfigBatchPhase,
    plan: PdoConfigBatchPlan<JOBS, OPS>,
    current_index: usize,
    base_generation: u16,
    timeout_ns: u64,
    request_timeout_ns: u64,
    controller: PdoConfigController<OPS>,
    mailbox: MailboxController,
    last_error: Option<PdoConfigBatchError>,
}

impl<const JOBS: usize, const OPS: usize> View for PdoConfigBatch<JOBS, OPS> {
    type V = PdoConfigBatchView;

    closed spec fn view(&self) -> PdoConfigBatchView {
        PdoConfigBatchView {
            phase: self.phase,
            jobs: self.plan.spec_jobs(),
            current_index: self.current_index as int,
            base_generation: self.base_generation,
            timeout_ns: self.timeout_ns,
            request_timeout_ns: self.request_timeout_ns,
            controller: self.controller@,
            mailbox: self.mailbox@,
            last_error: self.last_error,
        }
    }
}

impl<const JOBS: usize, const OPS: usize> PdoConfigBatch<JOBS, OPS> {
    closed spec fn core_wf(&self) -> bool {
        &&& self.plan.wf()
        &&& self.plan.fits()
        &&& self.current_index <= self.plan.spec_jobs().len()
        &&& self.controller.wf()
        &&& self.mailbox.wf()
    }

    /// The plan fits, the job index lies in it, and a running batch is on
    /// one of its jobs.
    pub closed spec fn wf(&self) -> bool {
        &&& self.core_wf()
        &&& (self.phase == PdoConfigBatchPhase::Configuring ==> self.current_index < self.plan.spec_jobs().len())
    }

    pub open spec fn spec_initial() -> PdoConfigBatchView {
        PdoConfigBatchView {
            phase: PdoConfigBatchPhase::Idle,
            jobs: Seq::empty(),
            current_index: 0,
            base_generation: 0,
            timeout_ns: 0,
            request_timeout_ns: 0,
            controller: pdo_initial_view(),
            mailbox: MailboxController::spec_initial(),
            last_error: None,
        }
    }

    pub fn new() -> (batch: Self)
        ensures
            batch@ == Self::spec_initial(),
            batch.wf(),
    {
        PdoConfigBatch {
            phase: PdoConfigBatchPhase::Idle,
            plan: PdoConfigBatchPlan::new(),
            current_index: 0,
            base_generation: 0,
            timeout_ns: 0,
            request_timeout_ns: 0,
            controller: PdoConfigController::new(),
            mailbox: MailboxController::new(),
            last_error: None,
        }
    }

    pub fn phase(&self) -> (phase: PdoConfigBatchPhase)
        ensures
            phase == batch_phase(self@),
    {
        if self.phase == PdoConfigBatchPhase::Configuring && self.controller.phase() == PdoConfigPhase::Faulted {
            PdoConfigBatchPhase::Faulted
        } else {
            self.phase
        }
    }

    pub fn current_index(&self) -> (index: usize)
        ensures
            index == self@.current_index,
    {
        self.current_index
    }

    pub fn controller(&self) -> (controller: &PdoConfigController<OPS>)
        ensures
            controller@ == self@.controller,
            self.wf() ==> controller.wf(),
    {
        &self.controller
    }

    /// The controller of the current job, to drive its mailbox exchanges.
    pub fn controller_mut(&mut self) -> (controller: &mut PdoConfigController<OPS>)
        requires
            old(self).wf(),
        ensures
            controller@ == old(self)@.controller,
            controller.wf(),
            final(self)@ == (PdoConfigBatchView { controller: final(controller)@, ..old(self)@ }),
            final(controller).wf() ==> final(self).wf(),
    {
        &mut self.controller
    }

    pub fn mailbox(&self) -> (mailbox: &MailboxController)
        ensures
            mailbox@ == self@.mailbox,
            self.wf() ==> mailbox.wf(),
    {
        &self.mailbox
    }

    /// The mailbox the current job is configured through.
    pub fn mailbox_mut(&mut self) -> (mailbox: &mut MailboxController)
        requires
            old(self).wf(),
        ensures
            mailbox@ == old(self)@.mailbox,
            mailbox.wf(),
            final(self)@ == (PdoConfigBatchView { mailbox: final(mailbox)@, ..old(self)@ }),
            final(mailbox).wf() ==> final(self).wf(),
    {
        &mut self.mailbox
    }

    /// The mailbox configuration of the current job, if the batch is on one.
    pub fn current_mailbox_config(&self) -> (config: Option<MailboxConfig>)
        requires
            self.wf(),
        ensures
            0 <= self@.current_index < self@.jobs.len() ==> config == Some(self@.jobs[self@.current_index].mailbox_config),
            !(0 <= self@.current_index < self@.jobs.len()) ==> config is None,
    {
        if self.current_index < self.plan.jobs.len() {
            Some(self.plan.jobs[self.current_index].mailbox_config)
        } else {
            None
        }
    }

    pub fn last_error(&self) -> (error: Option<PdoConfigBatchError>)
        ensures
            error == batch_last_error(self@),
    {
        match self.last_error {
            Some(error) => Some(error),
            None => match self.controller.last_error() {
                Some(error) => Some(PdoConfigBatchError::Configuration(error)),
                None => None,
            },
        }
    }

    pub fn status(&self) -> (status: PdoConfigBatchStatus)
        requires
            self.wf(),
        ensures
            status == batch_status(self@),
    {
        if self.current_index < self.plan.jobs.len() {
            let job = &self.plan.jobs[self.current_index];
            PdoConfigBatchStatus {
                phase: self.phase(),
                current_index: self.current_index,
                job_count: self.plan.jobs.len(),
                station_address: Some(job.station_address),
                generation: Some(self.base_generation.wrapping_add(self.current_index as u16)),
            }
        } else {
            PdoConfigBatchStatus {
                phase: self.phase(),
                current_index: self.current_index,
                job_count: self.plan.jobs.len(),
                station_address: None,
                generation: None,
            }
        }
    }

    /// Start the jobs from the current one on; see `run_jobs`.
    fn start_current_or_finish(&mut self, now_ns: u64) -> (result: Result<(), PdoConfigBatchError>)
        requires
            old(self).core_wf(),
        ensures
            final(self).wf(),
            (final(self)@, result) == run_jobs(old(self)@, now_ns, JOBS as nat),
    {
        let mut remaining: usize = JOBS;
        while self.current_index < self.plan.jobs.len() && remaining != 0
            invariant
                self.core_wf(),
                remaining <= JOBS,
                run_jobs(old(self)@, now_ns, JOBS as nat) == run_jobs(self@, now_ns, remaining as nat),
            decreases remaining,
        {
            let index = self.current_index;
            proof {
                assert(self.plan.spec_jobs()[index as int] == self.plan.jobs@[index as int]@);
                assert(writes_fit(self.plan.spec_jobs()[index as int].writes));
                assert(self.plan.jobs@[index as int].wf());
            }
            let generation = match self.base_generation.checked_add(index as u16) {
                Some(generation) => generation,
                None => return Err(PdoConfigBatchError::GenerationOutOfBounds),
            };
            let job_plan = self.plan.jobs[index].plan.duplicate();
            let station_address = self.plan.jobs[index].station_address;
            if let Err(error) = self.controller.start(
                job_plan,
                station_address,
                generation,
                now_ns,
                self.timeout_ns,
                self.request_timeout_ns,
            ) {
                let error = PdoConfigBatchError::Configuration(error);
                self.phase = PdoConfigBatchPhase::Faulted;
                self.last_error = Some(error);
                return Err(error);
            }
            self.phase = PdoConfigBatchPhase::Configuring;
            if self.controller.phase() != PdoConfigPhase::Complete {
                return Ok(());
            }
            self.current_index = self.current_index + 1;
            remaining = remaining - 1;
        }
        self.phase = PdoConfigBatchPhase::Complete;
        Ok(())
    }

    /// Begin configuring the jobs of `plan` in order, the job at index `i`
    /// under generation `base_generation + i`. Refused while a batch runs,
    /// for an empty plan, and when the last generation would not fit.
    pub fn start(
        &mut self,
        plan: PdoConfigBatchPlan<JOBS, OPS>,
        base_generation: u16,
        now_ns: u64,
        timeout_ns: u64,
        request_timeout_ns: u64,
    ) -> (result: Result<(), PdoConfigBatchError>)
        requires
            old(self).wf(),
            plan.wf(),
            plan.fits(),
        ensures
            final(self).wf(),
            (final(self)@, result) == batch_start_outcome(
                old(self)@,
                plan.spec_jobs(),
                base_generation,
                now_ns,
                timeout_ns,
                request_timeout_ns,
                JOBS as nat,
            ),
    {
        if self.phase() == PdoConfigBatchPhase::Configuring {
            return Err(PdoConfigBatchError::Busy);
        }
        if let Err(error) = plan.validate() {
            return Err(PdoConfigBatchError::Plan(error));
        }
        let last_offset = plan.jobs.len() - 1;
        if last_offset > 65535 {
            return Err(PdoConfigBatchError::GenerationOutOfBounds);
        }
        if base_generation.checked_add(last_offset as u16).is_none() {
            return Err(PdoConfigBatchError::GenerationOutOfBounds);
        }
        self.phase = PdoConfigBatchPhase::Configuring;
        self.plan = plan;
        self.current_index = 0;
        self.base_generation = base_generation;
        self.timeout_ns = timeout_ns;
        self.request_timeout_ns = request_timeout_ns;
        self.controller = PdoConfigController::new();
        self.mailbox = MailboxController::new();
        self.last_error = None;
        self.start_current_or_finish(now_ns)
    }

    /// Move on once the current job completed; a fault is latched and
    /// reported until the batch is started again.
    pub fn advance(&mut self, now_ns: u64) -> (result: Result<PdoConfigBatchStatus, PdoConfigBatchError>)
        requires
            old(self).wf(),
        ensures
            final(self).wf(),
            (final(self)@, result) == batch_advance_outcome(old(self)@, now_ns, JOBS as nat),
    {
        let phase = self.phase();
        if phase == PdoConfigBatchPhase::Idle {
            return Err(PdoConfigBatchError::NotStarted);
        }
        if phase == PdoConfigBatchPhase::Complete {
            return Ok(self.status());
        }
        if phase == PdoConfigBatchPhase::Faulted {
            let error = match self.last_error() {
                Some(error) => error,
                None => PdoConfigBatchError::Configuration(PdoConfigError::NoPendingAction),
            };
            self.phase = PdoConfigBatchPhase::Faulted;
            self.last_error = Some(error);
            return Err(error);
        }
        if self.controller.phase() != PdoConfigPhase::Complete {
            return Ok(self.status());
        }
        self.current_index = self.current_index + 1;
        match self.start_current_or_finish(now_ns) {
            Ok(()) => {},
            Err(error) => return Err(error),
        }
        Ok(self.status())
    }
}

impl<const JOBS: usize, const OPS: usize> Default for PdoConfigBatch<JOBS, OPS> {
    fn default() -> (batch: Self)
        ensures
            batch@ == Self::spec_initial(),
            batch.wf(),
    {
        Self::new()
    }
}

} // verus!
