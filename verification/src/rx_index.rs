//! Fixed 256-entry table of RX expectations indexed by datagram index.
use vstd::prelude::*;

verus! {

#[derive(Clone, Copy, Debug, PartialEq, Eq, Structural)]
pub enum RxSlotState {
    Empty,
    Armed,
    Complete,
    Rejected,
}

impl RxSlotState {
    /// The state's wire and diagnostic number.
    pub open spec fn spec_code(self) -> u8 {
        match self {
            RxSlotState::Empty => 0,
            RxSlotState::Armed => 1,
            RxSlotState::Complete => 2,
            RxSlotState::Rejected => 3,
        }
    }

    #[verifier::when_used_as_spec(spec_code)]
    pub fn code(self) -> (code: u8)
        ensures
            code == self.spec_code(),
    {
        match self {
            RxSlotState::Empty => 0,
            RxSlotState::Armed => 1,
            RxSlotState::Complete => 2,
            RxSlotState::Rejected => 3,
        }
    }
}

#[derive(Clone, Copy, Debug, PartialEq, Eq, Structural)]
pub struct RxIndexEntry {
    pub slot_id: u16,
    pub generation: u16,
    pub deadline_ns: u64,
    pub expected_address: u32,
    pub expected_size: u16,
    pub expected_type: u8,
    pub expected_wkc: u16,
    pub state: RxSlotState,
}

#[derive(Clone, Copy, Debug, PartialEq, Eq, Structural)]
pub struct RxExpectation {
    pub generation: u16,
    pub deadline_ns: u64,
    pub expected_address: u32,
    pub expected_size: u16,
    pub expected_type: u8,
    pub expected_wkc: u16,
}

#[derive(Clone, Copy, Debug, PartialEq, Eq, Structural)]
pub struct RxResponse {
    pub generation: u16,
    pub address: u32,
    pub payload_size: u16,
    pub command: u8,
    pub working_counter: u16,
    pub received_at_ns: u64,
}

impl RxIndexEntry {
    pub open spec fn spec_empty() -> RxIndexEntry {
        RxIndexEntry {
            slot_id: 0,
            generation: 0,
            deadline_ns: 0,
            expected_address: 0,
            expected_size: 0,
            expected_type: 0,
            expected_wkc: 0,
            state: RxSlotState::Empty,
        }
    }

    pub fn empty() -> (entry: Self)
        ensures
            entry == Self::spec_empty(),
    {
        RxIndexEntry {
            slot_id: 0,
            generation: 0,
            deadline_ns: 0,
            expected_address: 0,
            expected_size: 0,
            expected_type: 0,
            expected_wkc: 0,
            state: RxSlotState::Empty,
        }
    }
}

#[derive(Clone, Copy, Debug, PartialEq, Eq, Structural)]
pub enum RxIndexError {
    AlreadyArmed,
    InvalidDeadline,
    UnknownIndex,
    NotArmed,
    GenerationMismatch,
    AddressMismatch,
    SizeMismatch,
    TypeMismatch,
    WorkingCounterMismatch,
    DeadlineExceeded,
}

#[derive(Clone, Copy, Debug, PartialEq, Eq, Structural)]
pub struct RxMatch {
    pub slot_id: u16,
    pub generation: u16,
    pub working_counter: u16,
}

/// RX indices that crossed their deadline during one bounded sweep, in
/// ascending order.
#[derive(Clone, Debug, PartialEq, Eq)]
pub struct RxExpiry {
    indices: Vec<u8>,
}

impl RxExpiry {
    pub closed spec fn view_indices(&self) -> Seq<u8> {
        self.indices@
    }

    pub fn count(&self) -> (count: usize)
        ensures
            count == self.view_indices().len(),
    {
        self.indices.len()
    }

    pub fn is_empty(&self) -> (empty: bool)
        ensures
            empty == (self.view_indices().len() == 0),
    {
        self.indices.len() == 0
    }

    /// The expired indices in ascending order.
    pub fn indices(&self) -> (indices: Vec<u8>)
        ensures
            indices@ == self.view_indices(),
    {
        self.indices.clone()
    }
}

/// The table entry after an arm request, or the rejection.
pub open spec fn spec_arm(entry: RxIndexEntry, slot_id: u16, expectation: RxExpectation) -> Result<
    RxIndexEntry,
    RxIndexError,
> {
    if entry.state == RxSlotState::Armed {
        Err(RxIndexError::AlreadyArmed)
    } else if expectation.deadline_ns == 0 {
        Err(RxIndexError::InvalidDeadline)
    } else {
        Ok(
            RxIndexEntry {
                slot_id,
                generation: expectation.generation,
                deadline_ns: expectation.deadline_ns,
                expected_address: expectation.expected_address,
                expected_size: expectation.expected_size,
                expected_type: expectation.expected_type,
                expected_wkc: expectation.expected_wkc,
                state: RxSlotState::Armed,
            },
        )
    }
}

/// The first check a response fails against an entry, or `None` when it
/// matches every expectation. Checks are ordered: state, deadline,
/// generation, address, size, command type, working counter.
pub open spec fn spec_response_check(entry: RxIndexEntry, response: RxResponse) -> Option<
    RxIndexError,
> {
    if entry.state == RxSlotState::Empty {
        Some(RxIndexError::UnknownIndex)
    } else if entry.state != RxSlotState::Armed {
        Some(RxIndexError::NotArmed)
    } else if response.received_at_ns > entry.deadline_ns {
        Some(RxIndexError::DeadlineExceeded)
    } else if entry.generation != response.generation {
        Some(RxIndexError::GenerationMismatch)
    } else if entry.expected_address != response.address {
        Some(RxIndexError::AddressMismatch)
    } else if entry.expected_size != response.payload_size {
        Some(RxIndexError::SizeMismatch)
    } else if entry.expected_type != response.command {
        Some(RxIndexError::TypeMismatch)
    } else if entry.expected_wkc != response.working_counter {
        Some(RxIndexError::WorkingCounterMismatch)
    } else {
        None
    }
}

/// Whether an entry is armed and overdue at `now_ns`.
pub open spec fn spec_expires(entry: RxIndexEntry, now_ns: u64) -> bool {
    entry.state == RxSlotState::Armed && now_ns > entry.deadline_ns
}

/// How many of the first `n` entries a cancel of `slot_id` clears.
pub open spec fn spec_owned_count(entries: Seq<RxIndexEntry>, slot_id: u16, n: int) -> nat
    decreases n,
{
    if n <= 0 {
        0
    } else {
        spec_owned_count(entries, slot_id, n - 1) + if entries[n - 1].state != RxSlotState::Empty
            && entries[n - 1].slot_id == slot_id {
            1nat
        } else {
            0nat
        }
    }
}

pub struct RxIndexTable {
    entries: Vec<RxIndexEntry>,
}

impl RxIndexTable {
    pub closed spec fn view_entries(&self) -> Seq<RxIndexEntry> {
        self.entries@
    }

    pub closed spec fn wf(&self) -> bool {
        self.entries@.len() == 256
    }

    /// A well-formed table has one entry per datagram index.
    pub proof fn lemma_wf_len(&self)
        requires
            self.wf(),
        ensures
            self.view_entries().len() == 256,
    {
    }

    pub fn new() -> (table: Self)
        ensures
            table.wf(),
            forall|i: int| 0 <= i < 256 ==> table.view_entries()[i] == RxIndexEntry::spec_empty(),
    {
        let mut entries: Vec<RxIndexEntry> = Vec::new();
        let mut i: usize = 0;
        while i < 256
            invariant
                i <= 256,
                entries@.len() == i,
                forall|k: int| 0 <= k < i ==> entries@[k] == RxIndexEntry::spec_empty(),
            decreases 256 - i,
        {
            entries.push(RxIndexEntry::empty());
            i = i + 1;
        }
        RxIndexTable { entries }
    }

    /// Arm `index` for one response owned by `slot_id`.
    pub fn arm(&mut self, index: u8, slot_id: u16, expectation: RxExpectation) -> (result: Result<
        (),
        RxIndexError,
    >)
        requires
            old(self).wf(),
        ensures
            final(self).wf(),
            match spec_arm(old(self).view_entries()[index as int], slot_id, expectation) {
                Ok(entry) => result is Ok && final(self).view_entries() == old(
                    self,
                ).view_entries().update(index as int, entry),
                Err(e) => result == Err::<(), RxIndexError>(e) && final(self).view_entries()
                    == old(self).view_entries(),
            },
    {
        let i = index as usize;
        let entry = self.entries[i];
        if entry.state == RxSlotState::Armed {
            return Err(RxIndexError::AlreadyArmed);
        }
        if expectation.deadline_ns == 0 {
            return Err(RxIndexError::InvalidDeadline);
        }
        self.entries.set(
            i,
            RxIndexEntry {
                slot_id,
                generation: expectation.generation,
                deadline_ns: expectation.deadline_ns,
                expected_address: expectation.expected_address,
                expected_size: expectation.expected_size,
                expected_type: expectation.expected_type,
                expected_wkc: expectation.expected_wkc,
                state: RxSlotState::Armed,
            },
        );
        Ok(())
    }

    /// Check a response against the armed expectation at `index`. A match
    /// completes the entry; a mismatch of an armed entry rejects it.
    pub fn validate_and_complete(&mut self, index: u8, response: RxResponse) -> (result: Result<
        RxMatch,
        RxIndexError,
    >)
        requires
            old(self).wf(),
        ensures
            final(self).wf(),
            ({
                let entry = old(self).view_entries()[index as int];
                match spec_response_check(entry, response) {
                    None => result == Ok::<RxMatch, RxIndexError>(
                        RxMatch {
                            slot_id: entry.slot_id,
                            generation: entry.generation,
                            working_counter: response.working_counter,
                        },
                    ) && final(self).view_entries() == old(self).view_entries().update(
                        index as int,
                        RxIndexEntry { state: RxSlotState::Complete, ..entry },
                    ),
                    Some(e) => result == Err::<RxMatch, RxIndexError>(e) && if entry.state
                        == RxSlotState::Armed {
                        final(self).view_entries() == old(self).view_entries().update(
                            index as int,
                            RxIndexEntry { state: RxSlotState::Rejected, ..entry },
                        )
                    } else {
                        final(self).view_entries() == old(self).view_entries()
                    },
                }
            }),
    {
        let i = index as usize;
        let entry = self.entries[i];
        if entry.state == RxSlotState::Empty {
            return Err(RxIndexError::UnknownIndex);
        }
        if entry.state != RxSlotState::Armed {
            return Err(RxIndexError::NotArmed);
        }
        let error = if response.received_at_ns > entry.deadline_ns {
            Some(RxIndexError::DeadlineExceeded)
        } else if entry.generation != response.generation {
            Some(RxIndexError::GenerationMismatch)
        } else if entry.expected_address != response.address {
            Some(RxIndexError::AddressMismatch)
        } else if entry.expected_size != response.payload_size {
            Some(RxIndexError::SizeMismatch)
        } else if entry.expected_type != response.command {
            Some(RxIndexError::TypeMismatch)
        } else if entry.expected_wkc != response.working_counter {
            Some(RxIndexError::WorkingCounterMismatch)
        } else {
            None
        };
        match error {
            Some(error) => {
                self.entries.set(i, RxIndexEntry { state: RxSlotState::Rejected, ..entry });
                Err(error)
            },
            None => {
                self.entries.set(i, RxIndexEntry { state: RxSlotState::Complete, ..entry });
                Ok(
                    RxMatch {
                        slot_id: entry.slot_id,
                        generation: entry.generation,
                        working_counter: response.working_counter,
                    },
                )
            },
        }
    }

    pub fn entry(&self, index: u8) -> (entry: RxIndexEntry)
        requires
            self.wf(),
        ensures
            entry == self.view_entries()[index as int],
    {
        self.entries[index as usize]
    }

    /// Mark every still-armed index whose deadline is in the past as
    /// rejected and report those indices. This is a fixed 256-entry scan.
    pub fn expire_armed(&mut self, now_ns: u64) -> (expiry: RxExpiry)
        requires
            old(self).wf(),
        ensures
            final(self).wf(),
            forall|i: int|
                0 <= i < 256 ==> #[trigger] final(self).view_entries()[i] == if spec_expires(
                    old(self).view_entries()[i],
                    now_ns,
                ) {
                    RxIndexEntry { state: RxSlotState::Rejected, ..old(self).view_entries()[i] }
                } else {
                    old(self).view_entries()[i]
                },
            forall|k: int|
                0 <= k < expiry.view_indices().len() ==> spec_expires(
                    old(self).view_entries()[#[trigger] expiry.view_indices()[k] as int],
                    now_ns,
                ),
            forall|j: int, k: int|
                0 <= j < k < expiry.view_indices().len() ==> expiry.view_indices()[j]
                    < expiry.view_indices()[k],
            forall|i: int|
                0 <= i < 256 && spec_expires(#[trigger] old(self).view_entries()[i], now_ns)
                    ==> expiry.view_indices().contains(i as u8),
    {
        let ghost initial = self.entries@;
        let mut indices: Vec<u8> = Vec::new();
        let mut i: usize = 0;
        while i < 256
            invariant
                i <= 256,
                self.entries@.len() == 256,
                initial.len() == 256,
                forall|k: int|
                    0 <= k < i ==> #[trigger] self.entries@[k] == if spec_expires(
                        initial[k],
                        now_ns,
                    ) {
                        RxIndexEntry { state: RxSlotState::Rejected, ..initial[k] }
                    } else {
                        initial[k]
                    },
                forall|k: int| i <= k < 256 ==> #[trigger] self.entries@[k] == initial[k],
                forall|k: int|
                    0 <= k < indices@.len() ==> #[trigger] indices@[k] < i && spec_expires(
                        initial[indices@[k] as int],
                        now_ns,
                    ),
                forall|j: int, k: int| 0 <= j < k < indices@.len() ==> indices@[j] < indices@[k],
                forall|k: int|
                    0 <= k < i && spec_expires(#[trigger] initial[k], now_ns) ==> indices@.contains(
                        k as u8,
                    ),
            decreases 256 - i,
        {
            let entry = self.entries[i];
            if entry.state == RxSlotState::Armed && now_ns > entry.deadline_ns {
                self.entries.set(i, RxIndexEntry { state: RxSlotState::Rejected, ..entry });
                let ghost before = indices@;
                indices.push(i as u8);
                assert(indices@.last() == i as u8);
                assert forall|k: int|
                    0 <= k < i + 1 && spec_expires(#[trigger] initial[k], now_ns) implies indices@.contains(
                    k as u8,
                ) by {
                    if k < i {
                        let w = choose|w: int| 0 <= w < before.len() && before[w] == k as u8;
                        assert(indices@[w] == k as u8);
                    } else {
                        assert(indices@[before.len() as int] == k as u8);
                    }
                }
            }
            i = i + 1;
        }
        RxExpiry { indices }
    }

    /// Cancel every expectation owned by one frame slot and return how many
    /// entries were cleared.
    pub fn cancel_slot(&mut self, slot_id: u16) -> (canceled: usize)
        requires
            old(self).wf(),
        ensures
            final(self).wf(),
            canceled == spec_owned_count(old(self).view_entries(), slot_id, 256),
            forall|i: int|
                0 <= i < 256 ==> #[trigger] final(self).view_entries()[i] == if old(
                    self,
                ).view_entries()[i].state != RxSlotState::Empty && old(self).view_entries()[i].slot_id
                    == slot_id {
                    RxIndexEntry::spec_empty()
                } else {
                    old(self).view_entries()[i]
                },
    {
        let ghost initial = self.entries@;
        let mut canceled: usize = 0;
        let mut i: usize = 0;
        while i < 256
            invariant
                i <= 256,
                self.entries@.len() == 256,
                initial.len() == 256,
                canceled == spec_owned_count(initial, slot_id, i as int),
                canceled <= i,
                forall|k: int|
                    0 <= k < i ==> #[trigger] self.entries@[k] == if initial[k].state
                        != RxSlotState::Empty && initial[k].slot_id == slot_id {
                        RxIndexEntry::spec_empty()
                    } else {
                        initial[k]
                    },
                forall|k: int| i <= k < 256 ==> #[trigger] self.entries@[k] == initial[k],
            decreases 256 - i,
        {
            let entry = self.entries[i];
            if entry.state != RxSlotState::Empty && entry.slot_id == slot_id {
                self.entries.set(i, RxIndexEntry::empty());
                canceled = canceled + 1;
            }
            i = i + 1;
        }
        canceled
    }

    /// Release completed and rejected entries for the next cycle.
    pub fn reset_complete(&mut self)
        requires
            old(self).wf(),
        ensures
            final(self).wf(),
            forall|i: int|
                0 <= i < 256 ==> #[trigger] final(self).view_entries()[i] == if old(
                    self,
                ).view_entries()[i].state == RxSlotState::Complete || old(
                    self,
                ).view_entries()[i].state == RxSlotState::Rejected {
                    RxIndexEntry { state: RxSlotState::Empty, ..old(self).view_entries()[i] }
                } else {
                    old(self).view_entries()[i]
                },
    {
        let ghost initial = self.entries@;
        let mut i: usize = 0;
        while i < 256
            invariant
                i <= 256,
                self.entries@.len() == 256,
                initial.len() == 256,
                forall|k: int|
                    0 <= k < i ==> #[trigger] self.entries@[k] == if initial[k].state
                        == RxSlotState::Complete || initial[k].state == RxSlotState::Rejected {
                        RxIndexEntry { state: RxSlotState::Empty, ..initial[k] }
                    } else {
                        initial[k]
                    },
                forall|k: int| i <= k < 256 ==> #[trigger] self.entries@[k] == initial[k],
            decreases 256 - i,
        {
            let entry = self.entries[i];
            if entry.state == RxSlotState::Complete || entry.state == RxSlotState::Rejected {
                self.entries.set(i, RxIndexEntry { state: RxSlotState::Empty, ..entry });
            }
            i = i + 1;
        }
    }
}

/// A response completes an armed entry exactly once: a second response for
/// the same index is refused and leaves the table unchanged.
pub proof fn lemma_completed_entry_refuses_second_response(
    entry: RxIndexEntry,
    first: RxResponse,
    second: RxResponse,
)
    requires
        spec_response_check(entry, first) is None,
    ensures
        spec_response_check(RxIndexEntry { state: RxSlotState::Complete, ..entry }, second)
            == Some(RxIndexError::NotArmed),
{
}


/// A response completes an armed expectation exactly when it matches it in
/// everything: it arrives by the deadline, carries the armed generation,
/// comes from the expected address with the expected payload size, command
/// type and working counter. One that matches in all but its payload size
/// is refused as a size mismatch.
pub proof fn lemma_response_completes_only_when_matching(entry: RxIndexEntry, response: RxResponse)
    ensures
        spec_response_check(entry, response) is None <==> {
            &&& entry.state == RxSlotState::Armed
            &&& response.received_at_ns <= entry.deadline_ns
            &&& response.generation == entry.generation
            &&& response.address == entry.expected_address
            &&& response.payload_size == entry.expected_size
            &&& response.command == entry.expected_type
            &&& response.working_counter == entry.expected_wkc
        },
        ({
            &&& entry.state == RxSlotState::Armed
            &&& response.received_at_ns <= entry.deadline_ns
            &&& response.generation == entry.generation
            &&& response.address == entry.expected_address
            &&& response.payload_size != entry.expected_size
        }) ==> spec_response_check(entry, response) == Some(RxIndexError::SizeMismatch),
{
}

} // verus!
