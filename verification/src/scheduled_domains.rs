//! Receive ownership for the Domains of a frozen multi-rate schedule.
//!
//! A bank binds every Domain of a schedule once, at activation, and owns
//! their receive borrow: each datagram index belongs to exactly one Domain,
//! and a receive cycle begins and finishes every Domain due on its tick, so
//! a missing response invalidates that Domain's quality rather than leaving
//! its previous image current.
use vstd::prelude::*;
use crate::bits::{has_bit, test_bit};
use crate::domain::{all_true, staged, Domain, DomainError, DomainQuality, DomainSegment, DomainStage};
use crate::control::{ControlExpiry, ControlRequestPool, RequestHandle, RequestState};
use crate::dc::{DcCyclicError, DcCyclicSync};
use crate::engine::{CycleError, CycleReport, EthercatMaster, RxDatagramConsumer};
use crate::frame_pool::FramePoolError;
use crate::plan::{total_datagrams, DatagramPlan, FramePlan, FramePlanSet};
use crate::rx_index::RxMatch;
use crate::schedule::{ScheduleDomain, ScheduleTable};
use crate::wire::{Command, DatagramHeader};

verus! {

/// What the bank sees of one bound Domain.
pub struct DomainRxState {
    pub address: u32,
    pub segments: Seq<DomainSegment>,
    pub expected_wkc: u16,
    pub generation: Option<u16>,
    pub quality: DomainQuality,
    pub stage: DomainStage,
}

/// The receive operations the bank needs from a configured Domain.
/// `Domain` implements it for any image and segment capacity.
pub trait ScheduledDomainRx {
    spec fn rx_state(&self) -> DomainRxState;

    /// The implementor's own invariant, kept by every operation.
    spec fn rx_ready(&self) -> bool;

    fn logical_address(&self) -> (address: u32)
        ensures
            address == self.rx_state().address,
    ;

    fn segments(&self) -> (segments: &[DomainSegment])
        ensures
            segments@ == self.rx_state().segments,
    ;

    fn receive_generation(&self) -> (generation: Option<u16>)
        ensures
            generation == self.rx_state().generation,
    ;

    fn quality(&self) -> (quality: DomainQuality)
        ensures
            quality == self.rx_state().quality,
    ;

    /// Start staging `generation`; refused for a Domain without segments.
    fn begin_receive(&mut self, generation: u16) -> (result: Result<(), DomainError>)
        requires
            old(self).rx_ready(),
        ensures
            final(self).rx_ready(),
            final(self).rx_state().address == old(self).rx_state().address,
            final(self).rx_state().segments == old(self).rx_state().segments,
            old(self).rx_state().segments.len() == 0 ==> result == Err::<(), DomainError>(DomainError::EmptyDomain)
                && final(self).rx_state() == old(self).rx_state(),
            old(self).rx_state().segments.len() > 0 ==> result is Ok && final(self).rx_state() == begun_state(
                old(self).rx_state(),
                generation,
            ),
    ;

    /// Close the receive of `generation`; the result tells whether the
    /// staged page was complete and published.
    fn finish_receive(&mut self, generation: u16, cycle: u64) -> (result: Result<bool, DomainError>)
        requires
            old(self).rx_ready(),
        ensures
            final(self).rx_ready(),
            final(self).rx_state().address == old(self).rx_state().address,
            final(self).rx_state().segments == old(self).rx_state().segments,
            old(self).rx_state().generation != Some(generation) ==> result == Err::<bool, DomainError>(
                DomainError::NoActiveReceive,
            ) && final(self).rx_state() == old(self).rx_state(),
            old(self).rx_state().generation == Some(generation) ==> result == Ok::<bool, DomainError>(
                stage_complete(old(self).rx_state()),
            ) && finished_state(old(self).rx_state(), final(self).rx_state(), cycle, stage_complete(old(self).rx_state())),
    ;

    /// Stage one datagram of the receive in progress; it is taken when
    /// staging succeeds, which needs the receive of the completion's
    /// generation to be in progress.
    fn accept_datagram(
        &mut self,
        cycle: u64,
        received_at_ns: u64,
        completion: RxMatch,
        header: DatagramHeader,
        payload: &[u8],
    ) -> (accepted: bool)
        requires
            old(self).rx_ready(),
        ensures
            final(self).rx_ready(),
            ({
                let s = old(self).rx_state();
                let (stage, staged_result) = staged(
                    s.segments,
                    s.generation,
                    s.stage,
                    completion.generation,
                    header.index,
                    payload@.len(),
                    completion.working_counter,
                );
                &&& final(self).rx_state() == DomainRxState { stage, ..s }
                &&& accepted == staged_result is Ok
            }),
    ;
}

/// A Domain that began staging `generation`.
pub open spec fn begun_state(s: DomainRxState, generation: u16) -> DomainRxState {
    DomainRxState {
        generation: Some(generation),
        quality: DomainQuality { complete: false, actual_wkc: 0, ..s.quality },
        stage: DomainStage { received: Seq::new(s.segments.len(), |i: int| false), staging_error: false, actual_wkc: 0 },
        ..s
    }
}

/// Whether a receive staged every segment exactly once, refused nothing,
/// and added up the expected working counter.
pub open spec fn stage_complete(s: DomainRxState) -> bool {
    !s.stage.staging_error && all_true(s.stage.received) && s.stage.actual_wkc == s.expected_wkc
}

/// Whether `after` is the Domain `before` after closing its receive in
/// `cycle`, complete or not: a complete page is valid and fresh as of
/// `cycle`; an incomplete one is invalid and one cycle older.
pub open spec fn finished_state(before: DomainRxState, after: DomainRxState, cycle: u64, complete: bool) -> bool {
    &&& after.address == before.address
    &&& after.segments == before.segments
    &&& after.expected_wkc == before.expected_wkc
    &&& after.stage == before.stage
    &&& after.generation is None
    &&& after.quality.actual_wkc == before.stage.actual_wkc
    &&& after.quality.complete == complete
    &&& after.quality.valid == complete
    &&& after.quality.expected_wkc == before.quality.expected_wkc
    &&& complete ==> after.quality.last_valid_cycle == cycle && after.quality.input_age_cycles == 0
    &&& !complete ==> after.quality.last_valid_cycle == before.quality.last_valid_cycle
        && after.quality.input_age_cycles == if before.quality.input_age_cycles == u64::MAX {
        u64::MAX as int
    } else {
        before.quality.input_age_cycles + 1
    }
}

impl<const BYTES: usize, const SEGMENTS: usize> ScheduledDomainRx for Domain<BYTES, SEGMENTS> {
    open spec fn rx_state(&self) -> DomainRxState {
        DomainRxState {
            address: self.spec_logical_address(),
            segments: self.spec_segments(),
            expected_wkc: self.spec_expected_wkc(),
            generation: self.spec_active_generation(),
            quality: self.spec_quality(),
            stage: self.spec_stage(),
        }
    }

    open spec fn rx_ready(&self) -> bool {
        self.wf()
    }

    fn logical_address(&self) -> (address: u32) {
        Domain::logical_address(self)
    }

    fn segments(&self) -> (segments: &[DomainSegment]) {
        Domain::segments(self)
    }

    fn receive_generation(&self) -> (generation: Option<u16>) {
        Domain::receive_generation(self)
    }

    fn quality(&self) -> (quality: DomainQuality) {
        Domain::quality(self)
    }

    fn begin_receive(&mut self, generation: u16) -> (result: Result<(), DomainError>) {
        Domain::begin_receive(self, generation)
    }

    fn finish_receive(&mut self, generation: u16, cycle: u64) -> (result: Result<bool, DomainError>) {
        Domain::finish_receive(self, generation, cycle)
    }

    fn accept_datagram(
        &mut self,
        cycle: u64,
        received_at_ns: u64,
        completion: RxMatch,
        header: DatagramHeader,
        payload: &[u8],
    ) -> (accepted: bool) {
        RxDatagramConsumer::accept(self, cycle, received_at_ns, completion, header, payload)
    }
}


pub struct ScheduledDomainEntry<'a> {
    pub id: u8,
    pub domain: &'a mut dyn ScheduledDomainRx,
}

#[derive(Clone, Copy, Debug, PartialEq, Eq, Structural)]
pub enum ScheduledDomainError {
    InvalidSchedule,
    EmptyDomain(usize),
    DuplicateDatagramIndex(u8),
    CycleOrder,
    CycleInProgress,
    DomainBusy(usize),
    Domain(usize, DomainError),
}

/// No datagram index owned yet.
pub open spec fn unowned() -> Seq<u8> {
    Seq::new(256, |i: int| 0u8)
}

/// Give the datagram indexes of the first `k` segments to `owner`,
/// refusing the first index that is already owned.
pub open spec fn claim_segments(owners: Seq<u8>, segments: Seq<DomainSegment>, k: int, owner: u8) -> Result<Seq<u8>, u8>
    decreases k,
{
    if k <= 0 {
        Ok(owners)
    } else {
        match claim_segments(owners, segments, k - 1, owner) {
            Err(index) => Err(index),
            Ok(claimed) => {
                let index = segments[k - 1].datagram_index;
                if claimed[index as int] != 0 {
                    Err(index)
                } else {
                    Ok(claimed.update(index as int, owner))
                }
            },
        }
    }
}

/// The owner table of the first `n` Domains, each owning its segments'
/// indexes under its slot plus one; the first Domain without segments, the
/// first with a receive in progress, or the first index owned twice is
/// refused.
pub open spec fn claim_domains(states: Seq<DomainRxState>, n: int) -> Result<Seq<u8>, ScheduledDomainError>
    decreases n,
{
    if n <= 0 {
        Ok(unowned())
    } else {
        match claim_domains(states, n - 1) {
            Err(e) => Err(e),
            Ok(owners) => {
                let s = states[n - 1];
                if s.segments.len() == 0 {
                    Err(ScheduledDomainError::EmptyDomain((n - 1) as usize))
                } else if s.generation is Some {
                    Err(ScheduledDomainError::DomainBusy((n - 1) as usize))
                } else {
                    match claim_segments(owners, s.segments, s.segments.len() as int, n as u8) {
                        Err(index) => Err(ScheduledDomainError::DuplicateDatagramIndex(index)),
                        Ok(claimed) => Ok(claimed),
                    }
                }
            },
        }
    }
}

proof fn lemma_claim_segments_error_persists(owners: Seq<u8>, segments: Seq<DomainSegment>, owner: u8, k: int, m: int)
    requires
        0 <= k <= m,
        claim_segments(owners, segments, k, owner) is Err,
    ensures
        claim_segments(owners, segments, m, owner) == claim_segments(owners, segments, k, owner),
    decreases m,
{
    if m > k {
        lemma_claim_segments_error_persists(owners, segments, owner, k, m - 1);
    }
}

proof fn lemma_claim_domains_error_persists(states: Seq<DomainRxState>, k: int, m: int)
    requires
        0 <= k <= m,
        claim_domains(states, k) is Err,
    ensures
        claim_domains(states, m) == claim_domains(states, k),
    decreases m,
{
    if m > k {
        lemma_claim_domains_error_persists(states, k, m - 1);
    }
}

proof fn lemma_claim_segments_owned(owners: Seq<u8>, segments: Seq<DomainSegment>, k: int, owner: u8)
    requires
        0 <= k <= segments.len(),
        owners.len() == 256,
        owner != 0,
        claim_segments(owners, segments, k, owner) is Ok,
    ensures
        ({
            let claimed = claim_segments(owners, segments, k, owner)->Ok_0;
            &&& claimed.len() == 256
            &&& forall|j: int| 0 <= j < k ==> claimed[(#[trigger] segments[j]).datagram_index as int] == owner
            &&& forall|x: int| 0 <= x < 256 && owners[x] != 0 ==> #[trigger] claimed[x] == owners[x]
        }),
    decreases k,
{
    if k > 0 {
        lemma_claim_segments_owned(owners, segments, k - 1, owner);
    }
}

/// Binding gives each datagram index of a bound Domain to that Domain
/// alone: the owner table names slot `i` plus one for every segment of the
/// Domain in slot `i`.
pub proof fn lemma_bound_indexes_are_owned(states: Seq<DomainRxState>, n: int)
    requires
        0 <= n <= states.len(),
        n < 256,
        claim_domains(states, n) is Ok,
    ensures
        claim_domains(states, n)->Ok_0.len() == 256,
        forall|i: int, k: int|
            0 <= i < n && 0 <= k < states[i].segments.len() ==> claim_domains(states, n)->Ok_0[(
            #[trigger] states[i].segments[k]).datagram_index as int] == i + 1,
    decreases n,
{
    if n > 0 {
        lemma_bound_indexes_are_owned(states, n - 1);
        let before = claim_domains(states, n - 1)->Ok_0;
        let s = states[n - 1];
        lemma_claim_segments_owned(before, s.segments, s.segments.len() as int, n as u8);
        let after = claim_domains(states, n)->Ok_0;
        assert forall|i: int, k: int|
            0 <= i < n && 0 <= k < states[i].segments.len() implies after[(
            #[trigger] states[i].segments[k]).datagram_index as int] == i + 1 by {
            if i < n - 1 {
                assert(before[states[i].segments[k].datagram_index as int] == i + 1);
            } else {
                assert(s.segments[k] == states[i].segments[k]);
            }
        }
    }
}

/// The Domains of a list of entries as the bank sees them.
pub open spec fn entry_states(entries: Seq<ScheduledDomainEntry>) -> Seq<DomainRxState> {
    Seq::new(entries.len(), |i: int| entries[i].domain.rx_state())
}

pub open spec fn entry_ids(entries: Seq<ScheduledDomainEntry>) -> Seq<u8> {
    Seq::new(entries.len(), |i: int| entries[i].id)
}

/// Whether the entries name the schedule's Domains in the schedule's order.
pub open spec fn ids_match_schedule(ids: Seq<u8>, domains: Seq<ScheduleDomain>) -> bool {
    &&& ids.len() == domains.len()
    &&& forall|i: int| 0 <= i < ids.len() ==> ids[i] == (#[trigger] domains[i]).id
}

/// Why a DC sample, with an optional control request, cannot be submitted
/// for the next shared receive generation.
#[derive(Clone, Copy, Debug, PartialEq, Eq, Structural)]
pub enum ScheduledServiceTxError {
    CycleOrder,
    InvalidDeadline,
    DcIndexConflict(u8),
    ControlIndexConflict(u8),
    InvalidControlRequest,
    ControlGenerationMismatch,
    ControlDeadlineExpired,
    Dc(DcCyclicError),
}

/// Whether slot `s` of the pool takes part in the next receive: a live
/// request in flight, or the prepared one about to be sent.
pub open spec fn conflict_considered<const REQUESTS: usize>(
    pool: ControlRequestPool<REQUESTS>,
    prepared: Option<RequestHandle>,
    s: int,
) -> bool {
    pool.is_live(s) && (pool.spec_requests()[s].state == RequestState::InFlight || (prepared matches Some(h)
        && h.spec_index() == s))
}

/// The first datagram index among the first `k` pool slots that a taking
/// part request shares with a Domain of the bank, with the DC datagram, or
/// with an earlier taking part request, if there is one.
pub open spec fn spec_control_conflict<const REQUESTS: usize>(
    owners: Seq<u8>,
    dc_index: u8,
    pool: ControlRequestPool<REQUESTS>,
    prepared: Option<RequestHandle>,
    k: int,
) -> Option<u8>
    decreases k,
{
    if k <= 0 {
        None
    } else {
        match spec_control_conflict(owners, dc_index, pool, prepared, k - 1) {
            Some(x) => Some(x),
            None => if conflict_considered(pool, prepared, k - 1) {
                let index = pool.spec_requests()[k - 1].datagram_index;
                if owners[index as int] != 0 || index == dc_index || exists|j: int|
                    0 <= j < k - 1 && conflict_considered(pool, prepared, j) && #[trigger] pool.spec_requests()[j].datagram_index
                        == index {
                    Some(index)
                } else {
                    None
                }
            } else {
                None
            },
        }
    }
}

/// Once a conflict is found, it stays the answer for every longer prefix.
pub proof fn lemma_control_conflict_prefix<const REQUESTS: usize>(
    owners: Seq<u8>,
    dc_index: u8,
    pool: ControlRequestPool<REQUESTS>,
    prepared: Option<RequestHandle>,
    k: int,
    m: int,
)
    requires
        0 < k <= m,
        spec_control_conflict(owners, dc_index, pool, prepared, k) is Some,
    ensures
        spec_control_conflict(owners, dc_index, pool, prepared, m) == spec_control_conflict(owners, dc_index, pool,
            prepared, k),
    decreases m - k,
{
    if m > k {
        lemma_control_conflict_prefix(owners, dc_index, pool, prepared, k, m - 1);
    }
}

/// The slots a pool's handles address.
pub open spec fn handle_slots(requests: usize) -> int {
    if requests < 64 {
        requests as int
    } else {
        64
    }
}

/// Why the bank refuses to submit a DC sample and the optional prepared
/// control `request` at `now_ns`, or the request's deadline when it does
/// not: cycles out of order, a deadline unset or already passed, a DC
/// index owned by a Domain, a DC generation still pending, a request that
/// is not live and prepared, prepared for another generation or past its
/// deadline, or a datagram index that a request taking part shares.
pub open spec fn spec_service_check<const REQUESTS: usize>(
    bank: ScheduledBankView,
    master_cycle: u64,
    dc_index: u8,
    dc_pending: bool,
    pool: ControlRequestPool<REQUESTS>,
    request: Option<RequestHandle>,
    generation: u16,
    now_ns: u64,
    rx_deadline_ns: u64,
    cycle_deadline_ns: u64,
) -> Result<Option<u64>, ScheduledServiceTxError> {
    if bank.active is Some || bank.last_cycle != master_cycle {
        Err(ScheduledServiceTxError::CycleOrder)
    } else if rx_deadline_ns == 0 || cycle_deadline_ns == 0 || now_ns >= rx_deadline_ns || now_ns >= cycle_deadline_ns {
        Err(ScheduledServiceTxError::InvalidDeadline)
    } else if bank.index_owner[dc_index as int] != 0 {
        Err(ScheduledServiceTxError::DcIndexConflict(dc_index))
    } else if dc_pending {
        Err(ScheduledServiceTxError::Dc(DcCyclicError::Busy))
    } else {
        let control = match request {
            None => Ok(None),
            Some(h) => {
                let i = h.spec_index() as int;
                if !pool.is_live(i) || pool.spec_requests()[i].state != RequestState::Prepared {
                    Err(ScheduledServiceTxError::InvalidControlRequest)
                } else if pool.spec_requests()[i].generation != generation {
                    Err(ScheduledServiceTxError::ControlGenerationMismatch)
                } else if pool.spec_requests()[i].deadline_ns <= now_ns {
                    Err(ScheduledServiceTxError::ControlDeadlineExpired)
                } else {
                    Ok(Some(pool.spec_requests()[i].deadline_ns))
                }
            },
        };
        match control {
            Err(e) => Err(e),
            Ok(deadline) => match spec_control_conflict(bank.index_owner, dc_index, pool, request, handle_slots(
                REQUESTS,
            )) {
                Some(index) => Err(ScheduledServiceTxError::ControlIndexConflict(index)),
                None => Ok(deadline),
            },
        }
    }
}

/// The state of a bank as seen by its contracts.
pub struct ScheduledBankView {
    pub ids: Seq<u8>,
    pub states: Seq<DomainRxState>,
    pub index_owner: Seq<u8>,
    pub active: Option<(u64, u16, u64)>,
    pub last_cycle: u64,
    pub last_generation: u16,
}

/// Owns the receive borrow of every Domain of a schedule. Only verified
/// datagrams of Domains due on the active tick reach their Domain; a receive
/// cycle begins every due Domain and finishes every one of them again.
pub struct ScheduledDomainBank<'a, const DOMAINS: usize, const SLOTS: usize> {
    schedule: &'a ScheduleTable<DOMAINS, SLOTS>,
    domains: [ScheduledDomainEntry<'a>; DOMAINS],
    index_owner: [u8; 256],
    active: Option<(u64, u16, u64)>,
    last_cycle: u64,
    last_generation: u16,
}

impl<'a, const DOMAINS: usize, const SLOTS: usize> ScheduledDomainBank<'a, DOMAINS, SLOTS> {
    pub closed spec fn spec_schedule(&self) -> ScheduleTable<DOMAINS, SLOTS> {
        *self.schedule
    }

    pub closed spec fn view(&self) -> ScheduledBankView {
        ScheduledBankView {
            ids: entry_ids(self.domains@),
            states: entry_states(self.domains@),
            index_owner: self.index_owner@,
            active: self.active,
            last_cycle: self.last_cycle,
            last_generation: self.last_generation,
        }
    }

    /// The bound Domains match the schedule, keep their segments, and each
    /// Domain due on the active tick has that receive in progress.
    pub closed spec fn wf(&self) -> bool {
        &&& self.schedule.wf()
        &&& 0 < DOMAINS
        &&& ids_match_schedule(entry_ids(self.domains@), self.schedule.spec_domains())
        &&& forall|i: int| 0 <= i < DOMAINS ==> (#[trigger] self.domains@[i]).domain.rx_ready()
        &&& forall|i: int| 0 <= i < DOMAINS ==> (#[trigger] self.domains@[i]).domain.rx_state().segments.len() > 0
        &&& forall|x: int| 0 <= x < 256 ==> (#[trigger] self.index_owner@[x]) <= DOMAINS
        &&& (self.active matches Some((cycle, generation, mask)) ==> forall|i: int|
            0 <= i < DOMAINS && has_bit(mask, (#[trigger] self.domains@[i]).id as u64)
                ==> self.domains@[i].domain.rx_state().generation == Some(generation))
    }

    /// Bind the Domains of `schedule`, given in its order. Each datagram
    /// index may belong to one Domain only; every Domain needs segments and
    /// no receive in progress.
    #[verifier::loop_isolation(false)]
    pub fn new(schedule: &'a ScheduleTable<DOMAINS, SLOTS>, domains: [ScheduledDomainEntry<'a>; DOMAINS]) -> (result: Result<
        Self,
        ScheduledDomainError,
    >)
        requires
            schedule.wf(),
            forall|i: int| 0 <= i < DOMAINS ==> (#[trigger] domains@[i]).domain.rx_ready(),
        ensures
            DOMAINS == 0 || !ids_match_schedule(entry_ids(domains@), schedule.spec_domains()) ==> result
                == Err::<Self, ScheduledDomainError>(ScheduledDomainError::InvalidSchedule),
            DOMAINS > 0 && ids_match_schedule(entry_ids(domains@), schedule.spec_domains()) ==> match claim_domains(
                entry_states(domains@),
                DOMAINS as int,
            ) {
                Err(e) => result == Err::<Self, ScheduledDomainError>(e),
                Ok(owners) => result matches Ok(bank) && {
                    &&& bank.wf()
                    &&& bank.spec_schedule() == *schedule
                    &&& bank.view() == ScheduledBankView {
                        ids: entry_ids(domains@),
                        states: entry_states(domains@),
                        index_owner: owners,
                        active: None,
                        last_cycle: 0,
                        last_generation: 0,
                    }
                },
            },
    {
        proof {
            schedule.lemma_wf_shape();
        }
        if DOMAINS == 0 || DOMAINS != schedule.domain_count() {
            return Err(ScheduledDomainError::InvalidSchedule);
        }
        let configured = schedule.domains();
        let mut i: usize = 0;
        while i < DOMAINS
            invariant
                i <= DOMAINS,
                configured@ == schedule.spec_domains(),
                configured@.len() == DOMAINS,
                forall|k: int| 0 <= k < i ==> domains@[k].id == (#[trigger] configured@[k]).id,
            decreases DOMAINS - i,
        {
            if domains[i].id != configured[i].id {
                assert(entry_ids(domains@)[i as int] != schedule.spec_domains()[i as int].id);
                return Err(ScheduledDomainError::InvalidSchedule);
            }
            i = i + 1;
        }
        assert(ids_match_schedule(entry_ids(domains@), schedule.spec_domains()));
        let ghost states = entry_states(domains@);
        let mut index_owner: [u8; 256] = [0u8; 256];
        assert(index_owner@ =~= unowned());
        let mut slot: usize = 0;
        while slot < DOMAINS
            invariant
                slot <= DOMAINS <= 64,
                states == entry_states(domains@),
                claim_domains(states, slot as int) == Ok::<Seq<u8>, ScheduledDomainError>(index_owner@),
                forall|x: int| 0 <= x < 256 ==> (#[trigger] index_owner@[x]) <= slot,
                forall|k: int| 0 <= k < slot ==> (#[trigger] states[k]).segments.len() > 0,
            decreases DOMAINS - slot,
        {
            let segments = domains[slot].domain.segments();
            if segments.len() == 0 {
                proof {
                    lemma_claim_domains_error_persists(states, slot + 1, DOMAINS as int);
                }
                return Err(ScheduledDomainError::EmptyDomain(slot));
            }
            if domains[slot].domain.receive_generation().is_some() {
                proof {
                    lemma_claim_domains_error_persists(states, slot + 1, DOMAINS as int);
                }
                return Err(ScheduledDomainError::DomainBusy(slot));
            }
            let owner: u8 = slot as u8 + 1;
            let ghost start = index_owner@;
            let mut k: usize = 0;
            while k < segments.len()
                invariant
                    k <= segments@.len(),
                    segments@ == states[slot as int].segments,
                    owner == slot + 1,
                    slot < DOMAINS <= 64,
                    claim_segments(start, segments@, k as int, owner) == Ok::<Seq<u8>, u8>(index_owner@),
                    forall|x: int| 0 <= x < 256 ==> (#[trigger] index_owner@[x]) <= slot + 1,
                decreases segments@.len() - k,
            {
                let index = segments[k].datagram_index;
                if index_owner[index as usize] != 0 {
                    proof {
                        lemma_claim_segments_error_persists(start, segments@, owner, k + 1, segments@.len() as int);
                        lemma_claim_domains_error_persists(states, slot + 1, DOMAINS as int);
                    }
                    return Err(ScheduledDomainError::DuplicateDatagramIndex(index));
                }
                index_owner[index as usize] = owner;
                k = k + 1;
            }
            slot = slot + 1;
        }
        let bank = ScheduledDomainBank { schedule, domains, index_owner, active: None, last_cycle: 0, last_generation: 0 };
        assert forall|k: int| 0 <= k < DOMAINS implies (#[trigger] bank.domains@[k]).domain.rx_state().segments.len() > 0 by {
            assert(states[k] == domains@[k].domain.rx_state());
        }
        assert(claim_domains(entry_states(domains@), DOMAINS as int) == Ok::<Seq<u8>, ScheduledDomainError>(index_owner@));
        assert(bank.view() == ScheduledBankView {
            ids: entry_ids(domains@),
            states: entry_states(domains@),
            index_owner: index_owner@,
            active: None,
            last_cycle: 0,
            last_generation: 0,
        });
        Ok(bank)
    }

    /// Whether the bank was bound to this very schedule table.
    pub fn uses_schedule(&self, schedule: &ScheduleTable<DOMAINS, SLOTS>) -> (uses: bool)
        ensures
            uses ==> self.spec_schedule() == *schedule,
    {
        same_table(self.schedule, schedule)
    }

    /// Whether a process submission report matches the frozen due
    /// traversal of the inputs for the report's cycle.
    #[verifier::loop_isolation(false)]
    fn process_tx_shape_matches<E, const PROCESS_FRAMES: usize, const PROCESS_DATAGRAMS: usize>(
        &self,
        inputs: &ScheduledProcessInputs<'_, DOMAINS, SLOTS, PROCESS_FRAMES, PROCESS_DATAGRAMS>,
        report: &ScheduledProcessTxReport<E>,
    ) -> (matches: bool)
        requires
            self.wf(),
            inputs.wf(),
            report.cycle >= 1,
            DOMAINS * PROCESS_FRAMES <= usize::MAX,
        ensures
            matches == tx_shape_matches(*report, inputs.spec_entries(), self.due_mask_of(report.cycle)),
    {
        if report.rx_deadline_ns == 0 {
            return false;
        }
        proof {
            self.schedule.lemma_wf_shape();
        }
        let hyperperiod = self.schedule.hyperperiod_ticks();
        let tick = (report.cycle - 1) % (hyperperiod as u64);
        proof {
            vstd::arithmetic::div_mod::lemma_small_mod(tick as nat, hyperperiod as nat);
        }
        let due_mask = self.schedule.due_mask(tick as u32);
        assert(due_mask == self.due_mask_of(report.cycle));
        let ghost ms = inputs.spec_entries();
        proof {
            inputs.lemma_entries_shape();
            lemma_due_frames_bound(ms, due_mask, DOMAINS as int, PROCESS_FRAMES as int);
            assert(DOMAINS * PROCESS_FRAMES <= usize::MAX);
        }
        let mut expected_frames: usize = 0;
        let mut i: usize = 0;
        while i < DOMAINS
            invariant
                i <= DOMAINS,
                ms == inputs.spec_entries(),
                ms.len() == DOMAINS,
                expected_frames == due_frames(ms, due_mask, i as int),
                forall|k: int| 0 <= k <= DOMAINS ==> #[trigger] due_frames(ms, due_mask, k) <= due_frames(ms, due_mask, DOMAINS as int),
                due_frames(ms, due_mask, DOMAINS as int) <= DOMAINS * PROCESS_FRAMES,
                DOMAINS * PROCESS_FRAMES <= usize::MAX,
            decreases DOMAINS - i,
        {
            let entry = &inputs.entries[i];
            assert(ms[i as int].id == entry.id && ms[i as int].frames == entry.plans.spec_frames());
            assert(due_frames(ms, due_mask, i + 1) <= due_frames(ms, due_mask, DOMAINS as int));
            if test_bit(due_mask, entry.id as u64) {
                expected_frames = expected_frames + entry.plans.frame_count();
            }
            i = i + 1;
        }
        if report.due_mask != due_mask || report.expected_frames != expected_frames || report.sent_frames > expected_frames {
            return false;
        }
        let failure = match &report.failure {
            None => return report.sent_frames == expected_frames,
            Some(failure) => failure,
        };
        let invalid_deadline = match &failure.error {
            ScheduledProcessFrameError::InvalidDeadline => true,
            _ => false,
        };
        if invalid_deadline && report.post_tx_deadline_met {
            return false;
        }
        let mut ordinal: usize = 0;
        let mut i: usize = 0;
        while i < DOMAINS
            invariant
                i <= DOMAINS,
                ms == inputs.spec_entries(),
                ms.len() == DOMAINS,
                ordinal == due_frames(ms, due_mask, i as int),
                forall|k: int| 0 <= k <= DOMAINS ==> #[trigger] due_frames(ms, due_mask, k) <= due_frames(ms, due_mask, DOMAINS as int),
                due_frames(ms, due_mask, DOMAINS as int) <= DOMAINS * PROCESS_FRAMES,
                first_due_with_id(ms, due_mask, failure.domain_id, 0) == first_due_with_id(ms, due_mask, failure.domain_id, i as int),
            decreases DOMAINS - i,
        {
            let entry = &inputs.entries[i];
            assert(ms[i as int].id == entry.id && ms[i as int].frames == entry.plans.spec_frames());
            assert(due_frames(ms, due_mask, i + 1) <= due_frames(ms, due_mask, DOMAINS as int));
            if test_bit(due_mask, entry.id as u64) {
                let frames = entry.plans.frame_count();
                if entry.id == failure.domain_id {
                    assert(first_due_with_id(ms, due_mask, failure.domain_id, i as int) == Some(i as int));
                    return failure.frame_index < frames && report.sent_frames == ordinal + failure.frame_index;
                }
                ordinal = ordinal + frames;
            }
            i = i + 1;
        }
        false
    }

    /// Whether a process submission report belongs to this bank's most
    /// recently finished cycle, under this bank's own schedule table, and
    /// matches the frozen due traversal exactly.
    pub fn confirms_process_tx<E, const PROCESS_FRAMES: usize, const PROCESS_DATAGRAMS: usize>(
        &self,
        inputs: &ScheduledProcessInputs<'_, DOMAINS, SLOTS, PROCESS_FRAMES, PROCESS_DATAGRAMS>,
        report: &ScheduledProcessTxReport<E>,
    ) -> (confirmed: bool)
        requires
            self.wf(),
            inputs.wf(),
            DOMAINS * PROCESS_FRAMES <= usize::MAX,
        ensures
            ({
                let v = self.view();
                let timely = v.active is None && v.last_cycle != 0 && v.last_cycle == report.cycle && v.last_generation
                    == report.generation;
                &&& confirmed ==> timely && self.spec_schedule() == inputs.spec_schedule() && tx_shape_matches(
                    *report,
                    inputs.spec_entries(),
                    self.due_mask_of(report.cycle),
                )
                &&& !timely ==> !confirmed
                &&& timely && !tx_shape_matches(*report, inputs.spec_entries(), self.due_mask_of(report.cycle)) ==> !confirmed
            }),
    {
        if self.active.is_some() || self.last_cycle == 0 || self.last_cycle != report.cycle || self.last_generation
            != report.generation || !same_table(self.schedule, inputs.schedule) {
            return false;
        }
        self.process_tx_shape_matches(inputs, report)
    }

    /// Whether a process submission report opens this bank's next cycle,
    /// under this bank's own schedule table, and matches the frozen due
    /// traversal exactly.
    pub fn accepts_process_tx<E, const PROCESS_FRAMES: usize, const PROCESS_DATAGRAMS: usize>(
        &self,
        inputs: &ScheduledProcessInputs<'_, DOMAINS, SLOTS, PROCESS_FRAMES, PROCESS_DATAGRAMS>,
        report: &ScheduledProcessTxReport<E>,
    ) -> (accepted: bool)
        requires
            self.wf(),
            inputs.wf(),
            DOMAINS * PROCESS_FRAMES <= usize::MAX,
        ensures
            ({
                let v = self.view();
                let next = v.active is None && report.cycle != 0 && v.last_cycle + 1 == report.cycle;
                &&& accepted ==> next && self.spec_schedule() == inputs.spec_schedule() && tx_shape_matches(
                    *report,
                    inputs.spec_entries(),
                    self.due_mask_of(report.cycle),
                )
                &&& !next ==> !accepted
                &&& next && !tx_shape_matches(*report, inputs.spec_entries(), self.due_mask_of(report.cycle)) ==> !accepted
            }),
    {
        if self.active.is_some() || report.cycle == 0 {
            return false;
        }
        match self.last_cycle.checked_add(1) {
            Some(next) => {
                if next != report.cycle {
                    return false;
                }
            },
            None => return false,
        }
        if !same_table(self.schedule, inputs.schedule) {
            return false;
        }
        self.process_tx_shape_matches(inputs, report)
    }

    /// Whether a receive report still describes this bank's most recently
    /// finished cycle and the actual quality of every bound Domain.
    pub fn confirms_receive<E>(&self, received: &ScheduledReceiveReport<E>) -> (confirmed: bool)
        requires
            self.wf(),
        ensures
            confirmed == ({
                let v = self.view();
                &&& v.active is None
                &&& v.last_cycle != 0
                &&& received.report.cycle == v.last_cycle
                &&& received.generation == v.last_generation
                &&& forall|i: int| 0 <= i < DOMAINS && i < received.qualities@.len() ==> v.states[i].quality
                    == #[trigger] received.qualities@[i]
            }),
    {
        if self.active.is_some() || self.last_cycle == 0 || received.report.cycle != self.last_cycle
            || received.generation != self.last_generation {
            return false;
        }
        let mut i: usize = 0;
        while i < DOMAINS && i < received.qualities.len()
            invariant
                i <= DOMAINS,
                forall|k: int| 0 <= k < i && k < received.qualities@.len() ==> self.view().states[k].quality
                    == #[trigger] received.qualities@[k],
            decreases DOMAINS - i,
        {
            assert(self.view().states[i as int] == self.domains@[i as int].domain.rx_state());
            if self.domains[i].domain.quality() != received.qualities[i] {
                return false;
            }
            i = i + 1;
        }
        true
    }

    /// The slot of the Domain with `id`, if the bank binds one.
    fn slot_of(&self, id: u8) -> (slot: Option<usize>)
        ensures
            match find_slot(self.view().ids, id, 0) {
                Some(i) => slot == Some(i as usize) && 0 <= i < DOMAINS,
                None => slot is None,
            },
    {
        proof {
            lemma_find_slot_range(self.view().ids, id, 0);
        }
        let ghost ids = self.view().ids;
        let mut slot: usize = 0;
        while slot < DOMAINS
            invariant
                slot <= DOMAINS,
                ids == self.view().ids,
                ids.len() == DOMAINS,
                find_slot(ids, id, 0) == find_slot(ids, id, slot as int),
            decreases DOMAINS - slot,
        {
            assert(ids[slot as int] == self.domains@[slot as int].id);
            if self.domains[slot].id == id {
                return Some(slot);
            }
            slot = slot + 1;
        }
        None
    }

    /// Whether the frame plans carry exactly the segments of the Domain with
    /// `id`: as many datagrams as it has segments, and for each segment a
    /// datagram with its index, image range, working counter and logical
    /// address. Frames may split the datagrams in any way.
    #[verifier::loop_isolation(false)]
    pub fn matches_frame_plans<const FRAMES: usize, const DATAGRAMS: usize>(
        &self,
        id: u8,
        plans: &FramePlanSet<FRAMES, DATAGRAMS>,
    ) -> (matches: bool)
        ensures
            matches == frames_match(self.view(), id, plans.spec_frames()),
    {
        let slot = match self.slot_of(id) {
            Some(slot) => slot,
            None => return false,
        };
        let entry = &self.domains[slot];
        assert(self.view().states[slot as int] == entry.domain.rx_state());
        let segments = entry.domain.segments();
        let address = entry.domain.logical_address();
        if plans.datagram_count() != segments.len() {
            return false;
        }
        let mut k: usize = 0;
        while k < segments.len()
            invariant
                k <= segments@.len(),
                forall|m: int| 0 <= m < k ==> frames_bind(plans.spec_frames(), #[trigger] segments@[m], address),
            decreases segments@.len() - k,
        {
            if !frames_bind_exec(plans, &segments[k], address) {
                return false;
            }
            k = k + 1;
        }
        true
    }

    /// Whether one frame plan carries exactly the segments of the Domain
    /// with `id`.
    #[verifier::loop_isolation(false)]
    pub fn matches_frame_plan<const DATAGRAMS: usize>(&self, id: u8, plan: &FramePlan<DATAGRAMS>) -> (matches: bool)
        ensures
            matches == match find_slot(self.view().ids, id, 0) {
                None => false,
                Some(i) => {
                    let state = self.view().states[i];
                    &&& plan.spec_datagrams().len() == state.segments.len()
                    &&& forall|k: int| 0 <= k < state.segments.len() ==> datagrams_bind(plan.spec_datagrams(), #[trigger] state.segments[k], state.address)
                },
            },
    {
        let slot = match self.slot_of(id) {
            Some(slot) => slot,
            None => return false,
        };
        let entry = &self.domains[slot];
        assert(self.view().states[slot as int] == entry.domain.rx_state());
        let segments = entry.domain.segments();
        let address = entry.domain.logical_address();
        if plan.len() != segments.len() {
            return false;
        }
        let datagrams = plan.datagrams();
        let mut k: usize = 0;
        while k < segments.len()
            invariant
                k <= segments@.len(),
                datagrams@ == plan.spec_datagrams(),
                forall|m: int| 0 <= m < k ==> datagrams_bind(plan.spec_datagrams(), #[trigger] segments@[m], address),
            decreases segments@.len() - k,
        {
            if !datagrams_bind_exec(datagrams, &segments[k], address) {
                return false;
            }
            k = k + 1;
        }
        true
    }

    /// The due mask of the tick of `cycle`: cycle one is tick zero.
    pub open spec fn due_mask_of(&self, cycle: u64) -> u64 {
        self.spec_schedule().spec_slots()[((cycle - 1) % (self.spec_schedule().spec_hyperperiod_ticks() as int))].due_mask
    }

    /// The first datagram index that a control request taking part in the
    /// next receive shares with a Domain, the DC datagram or another such
    /// request, if any.
    fn control_index_conflict<const REQUESTS: usize>(
        &self,
        dc_index: u8,
        controls: &ControlRequestPool<REQUESTS>,
        prepared: Option<RequestHandle>,
    ) -> (conflict: Option<u8>)
        requires
            controls.wf(),
        ensures
            conflict == spec_control_conflict(self.view().index_owner, dc_index, *controls, prepared, handle_slots(
                REQUESTS,
            )),
    {
        let ghost owners = self.view().index_owner;
        let mut claimed: Vec<bool> = vec![false; 256];
        let limit = if REQUESTS < 64 {
            REQUESTS
        } else {
            64
        };
        let mut slot: usize = 0;
        while slot < limit
            invariant
                limit == handle_slots(REQUESTS),
                slot <= limit,
                owners == self.view().index_owner,
                owners.len() == 256,
                claimed@.len() == 256,
                controls.wf(),
                spec_control_conflict(owners, dc_index, *controls, prepared, slot as int) is None,
                forall|x: int| 0 <= x < 256 ==> (#[trigger] claimed@[x] <==> exists|j: int|
                    0 <= j < slot && conflict_considered(*controls, prepared, j) && controls.spec_requests()[j].datagram_index
                        == x),
            decreases limit - slot,
        {
            let handle = match RequestHandle::from_index(slot) {
                Some(handle) => handle,
                None => {
                    slot = slot + 1;
                    continue;
                },
            };
            let request = match controls.get(handle) {
                Some(request) => request,
                None => {
                    assert(!conflict_considered(*controls, prepared, slot as int));
                    slot = slot + 1;
                    continue;
                },
            };
            let taking_part = request.state == RequestState::InFlight || match prepared {
                Some(p) => p.index() == slot,
                None => false,
            };
            if !taking_part {
                assert(!conflict_considered(*controls, prepared, slot as int));
                slot = slot + 1;
                continue;
            }
            let index = request.datagram_index as usize;
            if self.index_owner[index] != 0 || index == dc_index as usize || claimed[index] {
                proof {
                    if claimed@[index as int] && !(owners[index as int] != 0 || index == dc_index as usize) {
                        let j = choose|j: int|
                            0 <= j < slot && conflict_considered(*controls, prepared, j)
                                && controls.spec_requests()[j].datagram_index == index;
                        assert(controls.spec_requests()[j].datagram_index == index);
                    }
                    assert(conflict_considered(*controls, prepared, slot as int));
                    assert(spec_control_conflict(owners, dc_index, *controls, prepared, slot + 1) == Some(index as u8));
                    lemma_control_conflict_prefix(owners, dc_index, *controls, prepared, slot + 1, limit as int);
                }
                return Some(index as u8);
            }
            proof {
                assert forall|j: int|
                    0 <= j < slot && conflict_considered(*controls, prepared, j) implies #[trigger] controls.spec_requests()[j].datagram_index
                    != index by {
                    assert(claimed@[controls.spec_requests()[j].datagram_index as int]);
                }
            }
            claimed.set(index, true);
            proof {
                assert forall|x: int| 0 <= x < 256 implies (#[trigger] claimed@[x] <==> exists|j: int|
                    0 <= j < slot + 1 && conflict_considered(*controls, prepared, j)
                        && controls.spec_requests()[j].datagram_index == x) by {
                    if x == index {
                        assert(conflict_considered(*controls, prepared, slot as int)
                            && controls.spec_requests()[slot as int].datagram_index == x);
                    } else if claimed@[x] {
                        let j = choose|j: int|
                            0 <= j < slot && conflict_considered(*controls, prepared, j)
                                && controls.spec_requests()[j].datagram_index == x;
                        assert(0 <= j < slot + 1);
                    }
                }
            }
            slot = slot + 1;
        }
        None
    }

    /// Check that a DC sample, with the optional prepared control
    /// `request`, may be submitted at `now_ns` for the next shared receive
    /// generation, before anything is prepared or sent; gives the request's
    /// deadline.
    pub fn check_service_submission<const FRAMES: usize, const MTU: usize, const REQUESTS: usize>(
        &self,
        master: &EthercatMaster<FRAMES, MTU>,
        dc: &DcCyclicSync,
        controls: &ControlRequestPool<REQUESTS>,
        request: Option<RequestHandle>,
        generation: u16,
        now_ns: u64,
        rx_deadline_ns: u64,
        cycle_deadline_ns: u64,
    ) -> (result: Result<Option<u64>, ScheduledServiceTxError>)
        requires
            self.wf(),
            controls.wf(),
        ensures
            result == spec_service_check(self.view(), master.spec_cycle(), dc@.config.spec_datagram_plan().index,
                dc@.pending is Some, *controls, request, generation, now_ns, rx_deadline_ns, cycle_deadline_ns),
    {
        if self.active.is_some() || self.last_cycle != master.cycle_number() {
            return Err(ScheduledServiceTxError::CycleOrder);
        }
        if rx_deadline_ns == 0 || cycle_deadline_ns == 0 || now_ns >= rx_deadline_ns || now_ns >= cycle_deadline_ns {
            return Err(ScheduledServiceTxError::InvalidDeadline);
        }
        let dc_index = dc.datagram_plan().index;
        if self.index_owner[dc_index as usize] != 0 {
            return Err(ScheduledServiceTxError::DcIndexConflict(dc_index));
        }
        if dc.pending_generation().is_some() {
            return Err(ScheduledServiceTxError::Dc(DcCyclicError::Busy));
        }
        let control_deadline_ns = match request {
            Some(handle) => {
                let control = match controls.get(handle) {
                    Some(control) => control,
                    None => return Err(ScheduledServiceTxError::InvalidControlRequest),
                };
                if control.state != RequestState::Prepared {
                    return Err(ScheduledServiceTxError::InvalidControlRequest);
                }
                if control.generation != generation {
                    return Err(ScheduledServiceTxError::ControlGenerationMismatch);
                }
                if control.deadline_ns <= now_ns {
                    return Err(ScheduledServiceTxError::ControlDeadlineExpired);
                }
                Some(control.deadline_ns)
            },
            None => None,
        };
        if let Some(index) = self.control_index_conflict(dc_index, controls, request) {
            return Err(ScheduledServiceTxError::ControlIndexConflict(index));
        }
        Ok(control_deadline_ns)
    }

    /// Begin the receive of every Domain due on the tick of `cycle` under
    /// `generation`. Cycles run in order, one at a time; a due Domain with a
    /// receive still in progress refuses the cycle.
    #[verifier::loop_isolation(false)]
    pub fn begin_due(&mut self, cycle: u64, generation: u16) -> (result: Result<(), ScheduledDomainError>)
        requires
            old(self).wf(),
        ensures
            final(self).wf(),
            final(self).spec_schedule() == old(self).spec_schedule(),
            begin_due_outcome(old(self).view(), old(self).due_mask_of(cycle), cycle, generation, final(self).view(), result),
    {
        proof {
            self.schedule.lemma_wf_shape();
        }
        if self.active.is_some() {
            return Err(ScheduledDomainError::CycleInProgress);
        }
        if cycle == 0 || cycle != self.last_cycle.saturating_add(1) {
            return Err(ScheduledDomainError::CycleOrder);
        }
        let hyperperiod = self.schedule.hyperperiod_ticks();
        let tick = (cycle - 1) % (hyperperiod as u64);
        proof {
            assert(tick < hyperperiod);
            vstd::arithmetic::div_mod::lemma_small_mod(tick as nat, hyperperiod as nat);
        }
        let due_mask = self.schedule.due_mask(tick as u32);
        assert(due_mask == self.due_mask_of(cycle));
        let ghost ids = self.view().ids;
        let ghost before = self.view().states;
        proof {
            assert forall|i: int| 0 <= i < DOMAINS implies (#[trigger] ids[i]) < 64 by {
                assert(ids[i] == self.schedule.spec_domains()[i].id);
            }
        }
        let mut slot: usize = 0;
        while slot < DOMAINS
            invariant
                slot <= DOMAINS,
                self.wf(),
                self.view() == old(self).view(),
                ids == self.view().ids,
                before == self.view().states,
                first_busy(before, ids, due_mask, 0) == first_busy(before, ids, due_mask, slot as int),
                forall|i: int| 0 <= i < DOMAINS ==> (#[trigger] ids[i]) < 64,
                before.len() == DOMAINS,
            decreases DOMAINS - slot,
        {
            let entry = &self.domains[slot];
            assert(ids[slot as int] == entry.id && before[slot as int] == entry.domain.rx_state());
            if test_bit(due_mask, entry.id as u64) && entry.domain.receive_generation().is_some() {
                assert(first_busy(before, ids, due_mask, slot as int) == Some(slot as int));
                return Err(ScheduledDomainError::DomainBusy(slot));
            }
            slot = slot + 1;
        }
        let mut slot: usize = 0;
        while slot < DOMAINS
            invariant
                slot <= DOMAINS,
                self.schedule.wf(),
                *self.schedule == old(self).spec_schedule(),
                ids_match_schedule(entry_ids(self.domains@), self.schedule.spec_domains()),
                self.index_owner@ == old(self).view().index_owner,
                self.active == old(self).view().active,
                self.active is None,
                self.last_cycle == old(self).view().last_cycle,
                self.last_generation == old(self).view().last_generation,
                forall|x: int| 0 <= x < 256 ==> (#[trigger] self.index_owner@[x]) <= DOMAINS,
                entry_ids(self.domains@) == ids,
                first_busy(before, ids, due_mask, 0) is None,
                forall|i: int| 0 <= i < DOMAINS ==> (#[trigger] self.domains@[i]).domain.rx_ready(),
                forall|i: int| 0 <= i < DOMAINS ==> (#[trigger] self.domains@[i]).domain.rx_state().segments.len() > 0,
                forall|i: int| 0 <= i < slot ==> (#[trigger] self.domains@[i]).domain.rx_state() == begun_due(before, ids, due_mask, generation)[i],
                forall|i: int| slot <= i < DOMAINS ==> (#[trigger] self.domains@[i]).domain.rx_state() == before[i],
                forall|i: int| 0 <= i < DOMAINS ==> (#[trigger] ids[i]) < 64,
                before.len() == DOMAINS,
            decreases DOMAINS - slot,
        {
            assert(ids[slot as int] == self.domains@[slot as int].id);
            if test_bit(due_mask, self.domains[slot].id as u64) {
                if let Err(error) = self.domains[slot].domain.begin_receive(generation) {
                    return Err(ScheduledDomainError::Domain(slot, error));
                }
            }
            assert(self.domains@[slot as int].domain.rx_state() == begun_due(before, ids, due_mask, generation)[slot as int]);
            slot = slot + 1;
        }
        self.active = Some((cycle, generation, due_mask));
        proof {
            assert(self.view().states =~= begun_due(before, ids, due_mask, generation));
            assert forall|i: int| 0 <= i < DOMAINS && has_bit(due_mask, (#[trigger] self.domains@[i]).id as u64)
                implies self.domains@[i].domain.rx_state().generation == Some(generation) by {
                assert(ids[i] == self.domains@[i].id);
            }
        }
        Ok(())
    }
    /// Finish the receive of every Domain that `begin_due` began for this
    /// cycle and generation, complete or not, and report every Domain's
    /// quality in slot order.
    #[verifier::loop_isolation(false)]
    pub fn finish_due(&mut self, cycle: u64, generation: u16) -> (result: Result<Vec<DomainQuality>, ScheduledDomainError>)
        requires
            old(self).wf(),
        ensures
            final(self).wf(),
            final(self).spec_schedule() == old(self).spec_schedule(),
            finish_due_outcome(old(self).view(), cycle, generation, final(self).view(), result),
    {
        let (active_cycle, active_generation, due_mask) = match self.active {
            Some(active) => active,
            None => return Err(ScheduledDomainError::CycleOrder),
        };
        if cycle != active_cycle || generation != active_generation {
            return Err(ScheduledDomainError::CycleOrder);
        }
        proof {
            self.schedule.lemma_wf_shape();
        }
        let ghost ids = self.view().ids;
        let ghost before = self.view().states;
        proof {
            assert forall|i: int| 0 <= i < DOMAINS implies (#[trigger] ids[i]) < 64 by {
                assert(ids[i] == self.schedule.spec_domains()[i].id);
            }
        }
        self.active = None;
        let mut slot: usize = 0;
        while slot < DOMAINS
            invariant
                slot <= DOMAINS,
                self.schedule.wf(),
                *self.schedule == old(self).spec_schedule(),
                ids_match_schedule(entry_ids(self.domains@), self.schedule.spec_domains()),
                self.index_owner@ == old(self).view().index_owner,
                self.active is None,
                self.last_cycle == old(self).view().last_cycle,
                self.last_generation == old(self).view().last_generation,
                forall|x: int| 0 <= x < 256 ==> (#[trigger] self.index_owner@[x]) <= DOMAINS,
                entry_ids(self.domains@) == ids,
                forall|i: int| 0 <= i < DOMAINS ==> (#[trigger] ids[i]) < 64,
                before.len() == DOMAINS,
                forall|i: int| 0 <= i < DOMAINS ==> (#[trigger] self.domains@[i]).domain.rx_ready(),
                forall|i: int| 0 <= i < DOMAINS ==> (#[trigger] self.domains@[i]).domain.rx_state().segments.len() > 0,
                forall|i: int|
                    0 <= i < DOMAINS && slot_due(ids, due_mask, i) ==> (#[trigger] before[i]).generation == Some(generation),
                forall|i: int|
                    0 <= i < slot ==> #[trigger] finished_slot(before, self.domains@[i].domain.rx_state(), ids, due_mask, cycle, i),
                forall|i: int| slot <= i < DOMAINS ==> (#[trigger] self.domains@[i]).domain.rx_state() == before[i],
            decreases DOMAINS - slot,
        {
            assert(ids[slot as int] == self.domains@[slot as int].id);
            if test_bit(due_mask, self.domains[slot].id as u64) {
                if let Err(error) = self.domains[slot].domain.finish_receive(generation, cycle) {
                    return Err(ScheduledDomainError::Domain(slot, error));
                }
            }
            assert(finished_slot(before, self.domains@[slot as int].domain.rx_state(), ids, due_mask, cycle, slot as int));
            slot = slot + 1;
        }
        self.last_cycle = cycle;
        self.last_generation = generation;
        let mut qualities: Vec<DomainQuality> = Vec::new();
        let mut slot: usize = 0;
        while slot < DOMAINS
            invariant
                slot <= DOMAINS,
                qualities@.len() == slot,
                forall|i: int| 0 <= i < slot ==> qualities@[i] == (#[trigger] self.domains@[i]).domain.rx_state().quality,
            decreases DOMAINS - slot,
        {
            qualities.push(self.domains[slot].domain.quality());
            slot = slot + 1;
        }
        proof {
            let after = self.view();
            assert(finished_due(before, after.states, ids, due_mask, cycle)) by {
                assert forall|i: int| 0 <= i < before.len() implies #[trigger] finished_slot(before, after.states[i], ids, due_mask, cycle, i) by {
                    assert(after.states[i] == self.domains@[i].domain.rx_state());
                }
            }
            assert(qualities@ =~= Seq::new(after.states.len(), |i: int| after.states[i].quality));
        }
        Ok(qualities)
    }
}

/// The first slot from `from` on whose Domain has `id`.
pub open spec fn find_slot(ids: Seq<u8>, id: u8, from: int) -> Option<int>
    decreases ids.len() - from,
{
    if from < 0 || from >= ids.len() {
        None
    } else if ids[from] == id {
        Some(from)
    } else {
        find_slot(ids, id, from + 1)
    }
}

proof fn lemma_find_slot_range(ids: Seq<u8>, id: u8, from: int)
    requires
        0 <= from,
    ensures
        find_slot(ids, id, from) matches Some(i) ==> from <= i < ids.len() && ids[i] == id,
    decreases ids.len() - from,
{
    if from < ids.len() && ids[from] != id {
        lemma_find_slot_range(ids, id, from + 1);
    }
}

/// Whether datagram `d` carries segment `s` of a Domain at logical
/// `address`: same index, image range and working counter, and the logical
/// address of the segment, which must fit in 32 bits.
pub open spec fn binds(d: DatagramPlan, s: DomainSegment, address: u32) -> bool {
    &&& d.index == s.datagram_index
    &&& d.payload_offset == s.input_offset
    &&& d.payload_len == s.len
    &&& d.expected_wkc == s.expected_wkc
    &&& s.input_offset <= u32::MAX
    &&& address + s.input_offset <= u32::MAX
    &&& d.address == address + s.input_offset
}

/// Whether some datagram of `ds` carries segment `s`.
pub open spec fn datagrams_bind(ds: Seq<DatagramPlan>, s: DomainSegment, address: u32) -> bool {
    exists|j: int| 0 <= j < ds.len() && binds(#[trigger] ds[j], s, address)
}

/// Whether some datagram of some frame carries segment `s`.
pub open spec fn frames_bind(frames: Seq<Seq<DatagramPlan>>, s: DomainSegment, address: u32) -> bool {
    exists|f: int| 0 <= f < frames.len() && datagrams_bind(#[trigger] frames[f], s, address)
}

/// The number of datagrams of all frames, saturated to `usize`.
pub open spec fn saturated_count(frames: Seq<Seq<DatagramPlan>>) -> int {
    if total_datagrams(frames, frames.len() as int) > usize::MAX {
        usize::MAX as int
    } else {
        total_datagrams(frames, frames.len() as int)
    }
}

/// Whether the frames carry exactly the segments of the Domain of bank `v`
/// with `id`.
pub open spec fn frames_match(v: ScheduledBankView, id: u8, frames: Seq<Seq<DatagramPlan>>) -> bool {
    match find_slot(v.ids, id, 0) {
        None => false,
        Some(i) => {
            let state = v.states[i];
            &&& saturated_count(frames) == state.segments.len()
            &&& forall|k: int| 0 <= k < state.segments.len() ==> frames_bind(frames, #[trigger] state.segments[k], state.address)
        },
    }
}

fn binds_exec(d: &DatagramPlan, s: &DomainSegment, address: u32) -> (bound: bool)
    ensures
        bound == binds(*d, *s, address),
{
    if d.index != s.datagram_index || d.payload_offset != s.input_offset || d.payload_len != s.len
        || d.expected_wkc != s.expected_wkc {
        return false;
    }
    if s.input_offset > 0xFFFF_FFFF {
        return false;
    }
    match address.checked_add(s.input_offset as u32) {
        Some(logical) => logical == d.address,
        None => false,
    }
}

fn datagrams_bind_exec(ds: &[DatagramPlan], s: &DomainSegment, address: u32) -> (bound: bool)
    ensures
        bound == datagrams_bind(ds@, *s, address),
{
    let mut j: usize = 0;
    while j < ds.len()
        invariant
            j <= ds@.len(),
            forall|k: int| 0 <= k < j ==> !binds(#[trigger] ds@[k], *s, address),
        decreases ds@.len() - j,
    {
        if binds_exec(&ds[j], s, address) {
            return true;
        }
        j = j + 1;
    }
    false
}

fn frames_bind_exec<const FRAMES: usize, const DATAGRAMS: usize>(
    plans: &FramePlanSet<FRAMES, DATAGRAMS>,
    s: &DomainSegment,
    address: u32,
) -> (bound: bool)
    ensures
        bound == frames_bind(plans.spec_frames(), *s, address),
{
    let frames = plans.plans();
    let ghost spec_frames = plans.spec_frames();
    let mut f: usize = 0;
    while f < frames.len()
        invariant
            f <= frames@.len(),
            frames@.len() == spec_frames.len(),
            spec_frames == plans.spec_frames(),
            frames@.map_values(|p: FramePlan<DATAGRAMS>| p.spec_datagrams()) == spec_frames,
            forall|k: int| 0 <= k < f ==> !datagrams_bind(#[trigger] spec_frames[k], *s, address),
        decreases frames@.len() - f,
    {
        assert(spec_frames[f as int] == frames@[f as int].spec_datagrams());
        if datagrams_bind_exec(frames[f].datagrams(), s, address) {
            return true;
        }
        f = f + 1;
    }
    false
}

/// `core::ptr::eq` on two schedule tables: whether both references point to
/// the same table. A table is never zero-sized (it holds a `u64` and two
/// `Vec`s), so the same place holds the same table; when two references
/// name the same place is not stated, since that depends on where the
/// tables live.
#[verifier::external_body]
fn same_table<const DOMAINS: usize, const SLOTS: usize>(
    a: &ScheduleTable<DOMAINS, SLOTS>,
    b: &ScheduleTable<DOMAINS, SLOTS>,
) -> (same: bool)
    ensures
        same ==> *a == *b,
{
    core::ptr::eq(a, b)
}

/// Whether a datagram reaches a Domain of bank `v`: a cycle is active, the
/// datagram belongs to its cycle and generation, and its index belongs to a
/// Domain due on the active tick; the Domain's slot if so.
pub open spec fn routed_slot(v: ScheduledBankView, cycle: u64, completion: RxMatch, header: DatagramHeader) -> Option<int> {
    match v.active {
        None => None,
        Some((active_cycle, generation, mask)) => {
            let owner = v.index_owner[header.index as int];
            if cycle != active_cycle || completion.generation != generation || owner == 0 || !slot_due(
                v.ids,
                mask,
                owner - 1,
            ) {
                None
            } else {
                Some(owner - 1)
            }
        },
    }
}

impl<'a, const DOMAINS: usize, const SLOTS: usize> RxDatagramConsumer for ScheduledDomainBank<'a, DOMAINS, SLOTS> {
    open spec fn consumer_ready(&self) -> bool {
        self.wf()
    }

    /// Hand the datagram to the Domain that owns its index, if that Domain
    /// is due in the active cycle and generation; it is taken when that
    /// Domain stages it.
    fn accept(
        &mut self,
        cycle: u64,
        received_at_ns: u64,
        completion: RxMatch,
        header: DatagramHeader,
        payload: &[u8],
    ) -> (accepted: bool)
        ensures
            final(self).spec_schedule() == old(self).spec_schedule(),
            match routed_slot(old(self).view(), cycle, completion, header) {
                None => !accepted && final(self).view() == old(self).view(),
                Some(i) => {
                    let v = old(self).view();
                    let s = v.states[i];
                    let (stage, staged_result) = staged(
                        s.segments,
                        s.generation,
                        s.stage,
                        completion.generation,
                        header.index,
                        payload@.len(),
                        completion.working_counter,
                    );
                    &&& accepted == staged_result is Ok
                    &&& final(self).view() == ScheduledBankView {
                        states: v.states.update(i, DomainRxState { stage, ..s }),
                        ..v
                    }
                },
            },
    {
        let (active_cycle, generation, due_mask) = match self.active {
            Some(active) => active,
            None => return false,
        };
        if cycle != active_cycle || completion.generation != generation {
            return false;
        }
        let owner = self.index_owner[header.index as usize];
        if owner == 0 {
            return false;
        }
        let slot = (owner - 1) as usize;
        proof {
            self.schedule.lemma_wf_shape();
            assert(self.view().ids[slot as int] == self.domains@[slot as int].id);
            assert(self.domains@[slot as int].id == self.schedule.spec_domains()[slot as int].id);
        }
        let ghost before = self.domains@;
        let due = test_bit(due_mask, self.domains[slot].id as u64);
        if !due {
            return false;
        }
        let accepted = self.domains[slot].domain.accept_datagram(cycle, received_at_ns, completion, header, payload);
        proof {
            let s = old(self).view().states[slot as int];
            assert(s == before[slot as int].domain.rx_state());
            let stage = staged(
                s.segments,
                s.generation,
                s.stage,
                completion.generation,
                header.index,
                payload@.len(),
                completion.working_counter,
            ).0;
            assert(self.view().states =~= old(self).view().states.update(slot as int, DomainRxState { stage, ..s }));
            assert(self.view().ids =~= old(self).view().ids);
        }
        accepted
    }
}

/// Whether slot `i` is due under `mask`.
pub open spec fn slot_due(ids: Seq<u8>, mask: u64, i: int) -> bool {
    has_bit(mask, ids[i] as u64)
}

/// The first slot from `from` on that is due and has a receive in progress.
pub open spec fn first_busy(states: Seq<DomainRxState>, ids: Seq<u8>, mask: u64, from: int) -> Option<int>
    decreases states.len() - from,
{
    if from < 0 || from >= states.len() {
        None
    } else if slot_due(ids, mask, from) && states[from].generation is Some {
        Some(from)
    } else {
        first_busy(states, ids, mask, from + 1)
    }
}

/// The Domains after every due one began staging `generation`.
pub open spec fn begun_due(states: Seq<DomainRxState>, ids: Seq<u8>, mask: u64, generation: u16) -> Seq<DomainRxState> {
    Seq::new(
        states.len(),
        |i: int|
            if slot_due(ids, mask, i) {
                begun_state(states[i], generation)
            } else {
                states[i]
            },
    )
}

/// Whether `after` and `result` are the bank and the result of
/// `begin_due(cycle, generation)` on a bank `v` whose tick of `cycle` has
/// the due mask `mask`.
pub open spec fn begin_due_outcome(
    v: ScheduledBankView,
    mask: u64,
    cycle: u64,
    generation: u16,
    after: ScheduledBankView,
    result: Result<(), ScheduledDomainError>,
) -> bool {
    if v.active is Some {
        after == v && result == Err::<(), ScheduledDomainError>(ScheduledDomainError::CycleInProgress)
    } else if cycle == 0 || cycle != saturating_increment_u64(v.last_cycle) {
        after == v && result == Err::<(), ScheduledDomainError>(ScheduledDomainError::CycleOrder)
    } else {
        match first_busy(v.states, v.ids, mask, 0) {
            Some(slot) => after == v && result == Err::<(), ScheduledDomainError>(
                ScheduledDomainError::DomainBusy(slot as usize),
            ),
            None => result is Ok && after == ScheduledBankView {
                states: begun_due(v.states, v.ids, mask, generation),
                active: Some((cycle, generation, mask)),
                ..v
            },
        }
    }
}

/// Whether `after` is slot `i` of `before` after `finish_due`: a due Domain
/// closed its receive in `cycle`, any other is unchanged.
pub open spec fn finished_slot(
    before: Seq<DomainRxState>,
    after: DomainRxState,
    ids: Seq<u8>,
    mask: u64,
    cycle: u64,
    i: int,
) -> bool {
    if slot_due(ids, mask, i) {
        finished_state(before[i], after, cycle, stage_complete(before[i]))
    } else {
        after == before[i]
    }
}

pub open spec fn finished_due(before: Seq<DomainRxState>, after: Seq<DomainRxState>, ids: Seq<u8>, mask: u64, cycle: u64) -> bool {
    &&& after.len() == before.len()
    &&& forall|i: int| 0 <= i < before.len() ==> #[trigger] finished_slot(before, after[i], ids, mask, cycle, i)
}

/// Whether `after` and `result` are the bank and the result of
/// `finish_due(cycle, generation)` on a bank `v`.
pub open spec fn finish_due_outcome(
    v: ScheduledBankView,
    cycle: u64,
    generation: u16,
    after: ScheduledBankView,
    result: Result<Vec<DomainQuality>, ScheduledDomainError>,
) -> bool {
    match v.active {
        None => after == v && result == Err::<Vec<DomainQuality>, ScheduledDomainError>(ScheduledDomainError::CycleOrder),
        Some((active_cycle, active_generation, mask)) => if cycle != active_cycle || generation != active_generation {
            after == v && result == Err::<Vec<DomainQuality>, ScheduledDomainError>(ScheduledDomainError::CycleOrder)
        } else {
            &&& result matches Ok(qualities)
            &&& after.ids == v.ids
            &&& after.index_owner == v.index_owner
            &&& after.active is None
            &&& after.last_cycle == cycle
            &&& after.last_generation == generation
            &&& finished_due(v.states, after.states, v.ids, mask, cycle)
            &&& qualities@ == Seq::new(after.states.len(), |i: int| after.states[i].quality)
        },
    }
}

pub open spec fn saturating_increment_u64(x: u64) -> u64 {
    if x == u64::MAX {
        x
    } else {
        (x + 1) as u64
    }
}


/// Frozen process image and frame plans of one scheduled Domain.
pub struct ScheduledProcessInputEntry<'a, const FRAMES: usize, const DATAGRAMS: usize> {
    pub id: u8,
    pub image: &'a [u8],
    pub plans: &'a FramePlanSet<FRAMES, DATAGRAMS>,
}

#[derive(Clone, Copy, Debug, PartialEq, Eq, Structural)]
pub enum ScheduledProcessInputPlanError {
    InvalidSchedule,
    DomainMismatch { expected: u8, actual: u8 },
    InvalidPlan(u8),
    DuplicateIndex(u8),
    OverlappingWrite(u8, u8),
}

/// The plain values of one process input entry: its Domain id, image
/// length and frames.
pub struct ProcessInputModel {
    pub id: u8,
    pub image_len: int,
    pub frames: Seq<Seq<DatagramPlan>>,
}

pub open spec fn input_models<const FRAMES: usize, const DATAGRAMS: usize>(
    entries: Seq<ScheduledProcessInputEntry<FRAMES, DATAGRAMS>>,
) -> Seq<ProcessInputModel> {
    Seq::new(
        entries.len(),
        |i: int| ProcessInputModel { id: entries[i].id, image_len: entries[i].image@.len() as int, frames: entries[i].plans.spec_frames() },
    )
}

/// The datagrams of the first `n` frames, frame after frame.
pub open spec fn concat_frames(frames: Seq<Seq<DatagramPlan>>, n: int) -> Seq<DatagramPlan>
    decreases n,
{
    if n <= 0 {
        Seq::empty()
    } else {
        concat_frames(frames, n - 1) + frames[n - 1]
    }
}

/// The datagrams of all frames of an entry, in submission order.
pub open spec fn entry_datagrams(m: ProcessInputModel) -> Seq<DatagramPlan> {
    concat_frames(m.frames, m.frames.len() as int)
}

pub open spec fn writable(command: Command) -> bool {
    command == Command::Lwr || command == Command::Lrw
}

pub open spec fn saturating_add_u32(x: u32, y: u32) -> u32 {
    if x + y > u32::MAX {
        u32::MAX
    } else {
        (x + y) as u32
    }
}

/// Whether the logical range of `left` overlaps that of the writing
/// datagram `right`.
pub open spec fn writable_overlap(left: DatagramPlan, right: DatagramPlan) -> bool {
    &&& writable(right.command)
    &&& left.address < saturating_add_u32(right.address, right.payload_len as u32)
    &&& right.address < saturating_add_u32(left.address, left.payload_len as u32)
}

/// Whether datagram index `index` is used before datagram `t` of entry `e`.
pub open spec fn index_used_before(ms: Seq<ProcessInputModel>, e: int, t: int, index: u8) -> bool {
    ||| exists|p: int, u: int|
        0 <= p < e && 0 <= u < entry_datagrams(ms[p]).len() && (#[trigger] entry_datagrams(ms[p])[u]).index == index
    ||| exists|u: int| 0 <= u < t && (#[trigger] entry_datagrams(ms[e])[u]).index == index
}

/// The first entry before `e`, from `from` on, with a datagram that `d`
/// overlaps.
pub open spec fn first_overlapping_entry(ms: Seq<ProcessInputModel>, e: int, d: DatagramPlan, from: int) -> Option<int>
    decreases e - from,
{
    if from < 0 || from >= e {
        None
    } else if exists|u: int|
        0 <= u < entry_datagrams(ms[from]).len() && writable_overlap(d, #[trigger] entry_datagrams(ms[from])[u]) {
        Some(from)
    } else {
        first_overlapping_entry(ms, e, d, from + 1)
    }
}

/// The error of datagram `t` of entry `e`, if any: an unsupported command,
/// an empty payload or working counter, a payload beyond the image, an
/// index used before, or a write over the range of an earlier datagram.
pub open spec fn datagram_error(ms: Seq<ProcessInputModel>, e: int, t: int) -> Option<ScheduledProcessInputPlanError> {
    let m = ms[e];
    let ds = entry_datagrams(m);
    let d = ds[t];
    if !(d.command == Command::Lrd || writable(d.command)) || d.payload_len == 0 || d.expected_wkc == 0
        || d.payload_offset + d.payload_len > m.image_len {
        Some(ScheduledProcessInputPlanError::InvalidPlan(m.id))
    } else if index_used_before(ms, e, t, d.index) {
        Some(ScheduledProcessInputPlanError::DuplicateIndex(d.index))
    } else if !writable(d.command) {
        None
    } else {
        match first_overlapping_entry(ms, e, d, 0) {
            Some(p) => Some(ScheduledProcessInputPlanError::OverlappingWrite(m.id, ms[p].id)),
            None => if exists|u: int| 0 <= u < t && writable_overlap(d, #[trigger] ds[u]) {
                Some(ScheduledProcessInputPlanError::OverlappingWrite(m.id, m.id))
            } else {
                None
            },
        }
    }
}

/// The first error among the datagrams of entry `e` from `t` on.
pub open spec fn entry_error_from(ms: Seq<ProcessInputModel>, e: int, t: int) -> Option<ScheduledProcessInputPlanError>
    decreases entry_datagrams(ms[e]).len() - t,
{
    if t < 0 || t >= entry_datagrams(ms[e]).len() {
        None
    } else {
        match datagram_error(ms, e, t) {
            Some(error) => Some(error),
            None => entry_error_from(ms, e, t + 1),
        }
    }
}

/// The first error among the first `n` entries: each in schedule order,
/// with non-empty frames that match its bound Domain, and valid datagrams.
pub open spec fn inputs_error(
    v: ScheduledBankView,
    configured: Seq<ScheduleDomain>,
    ms: Seq<ProcessInputModel>,
    n: int,
) -> Option<ScheduledProcessInputPlanError>
    decreases n,
{
    if n <= 0 {
        None
    } else {
        match inputs_error(v, configured, ms, n - 1) {
            Some(error) => Some(error),
            None => {
                let m = ms[n - 1];
                if m.id != configured[n - 1].id {
                    Some(ScheduledProcessInputPlanError::DomainMismatch { expected: configured[n - 1].id, actual: m.id })
                } else if m.frames.len() == 0 || !frames_match(v, m.id, m.frames) {
                    Some(ScheduledProcessInputPlanError::InvalidPlan(m.id))
                } else {
                    entry_error_from(ms, n - 1, 0)
                }
            },
        }
    }
}


proof fn lemma_inputs_error_persists(
    v: ScheduledBankView,
    configured: Seq<ScheduleDomain>,
    ms: Seq<ProcessInputModel>,
    k: int,
    m: int,
)
    requires
        0 <= k <= m,
        inputs_error(v, configured, ms, k) is Some,
    ensures
        inputs_error(v, configured, ms, m) == inputs_error(v, configured, ms, k),
    decreases m,
{
    if m > k {
        lemma_inputs_error_persists(v, configured, ms, k, m - 1);
    }
}

proof fn lemma_inputs_ok_ids(v: ScheduledBankView, configured: Seq<ScheduleDomain>, ms: Seq<ProcessInputModel>, n: int)
    requires
        0 <= n,
        inputs_error(v, configured, ms, n) is None,
    ensures
        forall|i: int| 0 <= i < n ==> (#[trigger] ms[i]).id == configured[i].id,
    decreases n,
{
    if n > 0 {
        lemma_inputs_ok_ids(v, configured, ms, n - 1);
    }
}

/// The datagrams of all frames of `plans`, in submission order.
fn flatten_plans<const FRAMES: usize, const DATAGRAMS: usize>(plans: &FramePlanSet<FRAMES, DATAGRAMS>) -> (datagrams: Vec<DatagramPlan>)
    ensures
        datagrams@ == concat_frames(plans.spec_frames(), plans.spec_frames().len() as int),
{
    let frames = plans.plans();
    let ghost spec_frames = plans.spec_frames();
    let mut datagrams: Vec<DatagramPlan> = Vec::new();
    let mut f: usize = 0;
    while f < frames.len()
        invariant
            f <= frames@.len(),
            frames@.len() == spec_frames.len(),
            spec_frames == plans.spec_frames(),
            frames@.map_values(|p: FramePlan<DATAGRAMS>| p.spec_datagrams()) == spec_frames,
            datagrams@ == concat_frames(spec_frames, f as int),
        decreases frames@.len() - f,
    {
        assert(spec_frames[f as int] == frames@[f as int].spec_datagrams());
        let frame = frames[f].datagrams();
        let ghost start = datagrams@;
        let mut j: usize = 0;
        while j < frame.len()
            invariant
                j <= frame@.len(),
                datagrams@ == start + frame@.subrange(0, j as int),
            decreases frame@.len() - j,
        {
            datagrams.push(frame[j]);
            j = j + 1;
            assert(datagrams@ =~= start + frame@.subrange(0, j as int));
        }
        assert(frame@.subrange(0, frame@.len() as int) =~= frame@);
        f = f + 1;
    }
    datagrams
}

fn saturating_add_u32_exec(x: u32, y: u32) -> (sum: u32)
    ensures
        sum == saturating_add_u32(x, y),
{
    x.saturating_add(y)
}

/// Whether `left` overlaps the logical range that `right` writes.
fn process_writable_overlap(left: &DatagramPlan, right: &DatagramPlan) -> (overlap: bool)
    ensures
        overlap == writable_overlap(*left, *right),
{
    (right.command == Command::Lwr || right.command == Command::Lrw) && left.address < saturating_add_u32_exec(
        right.address,
        right.payload_len as u32,
    ) && right.address < saturating_add_u32_exec(left.address, left.payload_len as u32)
}


#[derive(Debug)]
pub enum ScheduledProcessFrameError<E> {
    InvalidDeadline,
    FramePool(FramePoolError),
    Build(CycleError<core::convert::Infallible>),
    Transmit(CycleError<E>),
}

#[derive(Debug)]
pub struct ScheduledProcessTxFailure<E> {
    pub domain_id: u8,
    pub frame_index: usize,
    pub error: ScheduledProcessFrameError<E>,
}

/// Evidence of the process-Domain submission preceding a shared receive:
/// the cycle and generation it armed, the frozen due mask of that cycle,
/// the frames due and sent, and the first frame the port did not take.
#[derive(Debug)]
pub struct ScheduledProcessTxReport<E> {
    pub cycle: u64,
    pub generation: u16,
    pub rx_deadline_ns: u64,
    pub due_mask: u64,
    pub expected_frames: usize,
    pub sent_frames: usize,
    pub failure: Option<ScheduledProcessTxFailure<E>>,
    pub post_tx_deadline_met: bool,
}

/// A shared receive cycle as the bank finished it: the cycle report, the
/// generation finished, each Domain's quality in slot order, the DC
/// result, the transport error if the port failed, and newly expired
/// control requests.
#[derive(Debug)]
pub struct ScheduledReceiveReport<E> {
    pub report: CycleReport,
    pub generation: u16,
    pub qualities: Vec<DomainQuality>,
    pub dc_result: Result<(), DcCyclicError>,
    pub transport_error: Option<CycleError<E>>,
    pub control_expiry: ControlExpiry,
}

/// Whether entry `i` is due under `mask`.
pub open spec fn entry_due(ms: Seq<ProcessInputModel>, mask: u64, i: int) -> bool {
    has_bit(mask, ms[i].id as u64)
}

/// The frames of the due entries among the first `n`.
pub open spec fn due_frames(ms: Seq<ProcessInputModel>, mask: u64, n: int) -> int
    decreases n,
{
    if n <= 0 {
        0
    } else {
        due_frames(ms, mask, n - 1) + if entry_due(ms, mask, n - 1) {
            ms[n - 1].frames.len() as int
        } else {
            0
        }
    }
}

/// The first due entry from `from` on with Domain id `id`.
pub open spec fn first_due_with_id(ms: Seq<ProcessInputModel>, mask: u64, id: u8, from: int) -> Option<int>
    decreases ms.len() - from,
{
    if from < 0 || from >= ms.len() {
        None
    } else if entry_due(ms, mask, from) && ms[from].id == id {
        Some(from)
    } else {
        first_due_with_id(ms, mask, id, from + 1)
    }
}

/// Whether a submission report matches the frozen due traversal of the
/// entries under `mask`: all due frames sent, or every frame before the
/// reported failure sent and the failure naming a frame of a due entry.
pub open spec fn tx_shape_matches<E>(report: ScheduledProcessTxReport<E>, ms: Seq<ProcessInputModel>, mask: u64) -> bool {
    if report.rx_deadline_ns == 0 {
        false
    } else {
        let expected = due_frames(ms, mask, ms.len() as int);
        if report.due_mask != mask || report.expected_frames != expected || report.sent_frames > expected {
            false
        } else {
            match report.failure {
                None => report.sent_frames == expected,
                Some(failure) => if (failure.error is InvalidDeadline) && report.post_tx_deadline_met {
                    false
                } else {
                    match first_due_with_id(ms, mask, failure.domain_id, 0) {
                        None => false,
                        Some(i) => failure.frame_index < ms[i].frames.len() && report.sent_frames == due_frames(ms, mask, i)
                            + failure.frame_index,
                    }
                },
            }
        }
    }
}

proof fn lemma_due_frames_bound(ms: Seq<ProcessInputModel>, mask: u64, n: int, frames: int)
    requires
        0 <= n <= ms.len(),
        0 <= frames,
        forall|i: int| 0 <= i < ms.len() ==> (#[trigger] ms[i]).frames.len() <= frames,
    ensures
        0 <= due_frames(ms, mask, n) <= n * frames,
        forall|k: int| 0 <= k <= n ==> #[trigger] due_frames(ms, mask, k) <= due_frames(ms, mask, n),
    decreases n,
{
    if n > 0 {
        lemma_due_frames_bound(ms, mask, n - 1, frames);
        assert((n - 1) * frames + frames == n * frames) by (nonlinear_arith);
    }
}

proof fn lemma_first_due_with_id_range(ms: Seq<ProcessInputModel>, mask: u64, id: u8, from: int)
    requires
        0 <= from,
    ensures
        first_due_with_id(ms, mask, id, from) matches Some(i) ==> from <= i < ms.len(),
    decreases ms.len() - from,
{
    if from < ms.len() && !(entry_due(ms, mask, from) && ms[from].id == id) {
        lemma_first_due_with_id_range(ms, mask, id, from + 1);
    }
}

/// The binding, made once at activation, between the frozen schedule and
/// every Domain frame submitted before the common receive.
pub struct ScheduledProcessInputs<'a, const DOMAINS: usize, const SCHEDULE_SLOTS: usize, const FRAMES: usize, const DATAGRAMS: usize> {
    schedule: &'a ScheduleTable<DOMAINS, SCHEDULE_SLOTS>,
    entries: [ScheduledProcessInputEntry<'a, FRAMES, DATAGRAMS>; DOMAINS],
}

impl<'a, const DOMAINS: usize, const SCHEDULE_SLOTS: usize, const FRAMES: usize, const DATAGRAMS: usize> ScheduledProcessInputs<
    'a,
    DOMAINS,
    SCHEDULE_SLOTS,
    FRAMES,
    DATAGRAMS,
> {
    pub closed spec fn spec_schedule(&self) -> ScheduleTable<DOMAINS, SCHEDULE_SLOTS> {
        *self.schedule
    }

    pub closed spec fn spec_entries(&self) -> Seq<ProcessInputModel> {
        input_models(self.entries@)
    }

    /// One entry per scheduled Domain, in schedule order, over well-formed
    /// frame plans.
    pub closed spec fn wf(&self) -> bool {
        &&& self.schedule.wf()
        &&& self.schedule.spec_domains().len() == DOMAINS
        &&& forall|i: int| 0 <= i < DOMAINS ==> (#[trigger] self.entries@[i]).id == self.schedule.spec_domains()[i].id
        &&& forall|i: int| 0 <= i < DOMAINS ==> (#[trigger] self.entries@[i]).plans.wf()
    }

    /// The entries of well-formed inputs name the scheduled Domains, whose
    /// ids lie below 64, and hold at most `FRAMES` frames each.
    pub proof fn lemma_entries_shape(&self)
        requires
            self.wf(),
        ensures
            self.spec_entries().len() == DOMAINS,
            forall|i: int| 0 <= i < DOMAINS ==> (#[trigger] self.spec_entries()[i]).id < 64,
            forall|i: int| 0 <= i < DOMAINS ==> (#[trigger] self.spec_entries()[i]).frames.len() <= FRAMES,
    {
        self.schedule.lemma_wf_shape();
        assert forall|i: int| 0 <= i < DOMAINS implies (#[trigger] self.spec_entries()[i]).frames.len() <= FRAMES by {
            self.entries@[i].plans.lemma_wf_frames();
        }
    }

    /// Check the entries against the schedule and the bank: one per
    /// scheduled Domain, in schedule order, with non-empty frame plans that
    /// carry exactly its bound segments, datagrams that read or write the
    /// logical image within the entry's image, datagram indexes used once,
    /// and no write overlapping an earlier datagram that writes.
    #[verifier::loop_isolation(false)]
    pub fn validate(
        bank: &ScheduledDomainBank<'_, DOMAINS, SCHEDULE_SLOTS>,
        schedule: &ScheduleTable<DOMAINS, SCHEDULE_SLOTS>,
        entries: &[ScheduledProcessInputEntry<'a, FRAMES, DATAGRAMS>; DOMAINS],
    ) -> (result: Result<(), ScheduledProcessInputPlanError>)
        requires
            bank.wf(),
        ensures
            schedule.spec_domains().len() != DOMAINS ==> result == Err::<(), ScheduledProcessInputPlanError>(
                ScheduledProcessInputPlanError::InvalidSchedule,
            ),
            schedule.spec_domains().len() == DOMAINS ==> result == match inputs_error(
                bank.view(),
                schedule.spec_domains(),
                input_models(entries@),
                DOMAINS as int,
            ) {
                Some(e) => Err::<(), ScheduledProcessInputPlanError>(e),
                None => Ok(()),
            },
    {
        if schedule.domain_count() != DOMAINS {
            return Err(ScheduledProcessInputPlanError::InvalidSchedule);
        }
        let configured = schedule.domains();
        let ghost ms = input_models(entries@);
        let ghost v = bank.view();
        let mut flat: Vec<Vec<DatagramPlan>> = Vec::new();
        let mut seen: [bool; 256] = [false; 256];
        let mut slot: usize = 0;
        while slot < DOMAINS
            invariant
                slot <= DOMAINS,
                configured@ == schedule.spec_domains(),
                configured@.len() == DOMAINS,
                ms == input_models(entries@),
                v == bank.view(),
                inputs_error(v, configured@, ms, slot as int) is None,
                flat@.len() == slot,
                forall|p: int| 0 <= p < slot ==> (#[trigger] flat@[p])@ == entry_datagrams(ms[p]),
                forall|x: int|
                    0 <= x < 256 ==> #[trigger] seen@[x] == index_used_before(ms, slot as int, 0, x as u8),
            decreases DOMAINS - slot,
        {
            let entry = &entries[slot];
            assert(ms[slot as int].id == entry.id);
            assert(ms[slot as int].frames == entry.plans.spec_frames());
            assert(ms[slot as int].image_len == entry.image@.len());
            if entry.id != configured[slot].id {
                proof {
                    lemma_inputs_error_persists(v, configured@, ms, slot + 1, DOMAINS as int);
                }
                return Err(ScheduledProcessInputPlanError::DomainMismatch { expected: configured[slot].id, actual: entry.id });
            }
            if entry.plans.is_empty() || !bank.matches_frame_plans(entry.id, entry.plans) {
                proof {
                    lemma_inputs_error_persists(v, configured@, ms, slot + 1, DOMAINS as int);
                }
                return Err(ScheduledProcessInputPlanError::InvalidPlan(entry.id));
            }
            let datagrams = flatten_plans(entry.plans);
            assert(datagrams@ == entry_datagrams(ms[slot as int]));
            let mut t: usize = 0;
            while t < datagrams.len()
                invariant
                    t <= datagrams@.len(),
                    datagrams@ == entry_datagrams(ms[slot as int]),
                    flat@.len() == slot,
                    forall|p: int| 0 <= p < slot ==> (#[trigger] flat@[p])@ == entry_datagrams(ms[p]),
                    entry_error_from(ms, slot as int, 0) == entry_error_from(ms, slot as int, t as int),
                    forall|x: int|
                        0 <= x < 256 ==> #[trigger] seen@[x] == index_used_before(ms, slot as int, t as int, x as u8),
                decreases datagrams@.len() - t,
            {
                let d = datagrams[t];
                let command_ok = d.command == Command::Lrd || d.command == Command::Lwr || d.command == Command::Lrw;
                let image_len = entry.image.len();
                let end_ok = d.payload_len <= image_len && d.payload_offset <= image_len - d.payload_len;
                if !command_ok || d.payload_len == 0 || d.expected_wkc == 0 || !end_ok {
                    proof {
                        let m = ms[slot as int];
                        assert(d == entry_datagrams(m)[t as int]);
                        assert(m.image_len == entry.image@.len());
                        assert(datagram_error(ms, slot as int, t as int) == Some(ScheduledProcessInputPlanError::InvalidPlan(entry.id)));
                        lemma_inputs_error_persists(v, configured@, ms, slot + 1, DOMAINS as int);
                    }
                    return Err(ScheduledProcessInputPlanError::InvalidPlan(entry.id));
                }
                if seen[d.index as usize] {
                    proof {
                        assert(seen@[d.index as int] == index_used_before(ms, slot as int, t as int, d.index));
                        assert(datagram_error(ms, slot as int, t as int) == Some(ScheduledProcessInputPlanError::DuplicateIndex(d.index)));
                        lemma_inputs_error_persists(v, configured@, ms, slot + 1, DOMAINS as int);
                    }
                    return Err(ScheduledProcessInputPlanError::DuplicateIndex(d.index));
                }
                proof {
                    assert(seen@[d.index as int] == index_used_before(ms, slot as int, t as int, d.index));
                }
                let ghost seen_before = seen@;
                seen[d.index as usize] = true;
                proof {
                    assert forall|x: int| 0 <= x < 256 implies #[trigger] seen@[x] == index_used_before(ms, slot as int, t + 1, x as u8) by {
                        if x == d.index as int {
                            assert(entry_datagrams(ms[slot as int])[t as int].index == x as u8);
                        } else {
                            assert(seen@[x] == seen_before[x]);
                            if index_used_before(ms, slot as int, t + 1, x as u8) {
                                if exists|u: int| 0 <= u < t + 1 && (#[trigger] entry_datagrams(ms[slot as int])[u]).index == x as u8 {
                                    let u = choose|u: int| 0 <= u < t + 1 && (#[trigger] entry_datagrams(ms[slot as int])[u]).index == x as u8;
                                    assert(u != t);
                                }
                            }
                        }
                    }
                }
                if d.command == Command::Lwr || d.command == Command::Lrw {
                    let mut p: usize = 0;
                    while p < slot
                        invariant
                            p <= slot,
                            flat@.len() == slot,
                            forall|q: int| 0 <= q < slot ==> (#[trigger] flat@[q])@ == entry_datagrams(ms[q]),
                            first_overlapping_entry(ms, slot as int, d, 0) == first_overlapping_entry(ms, slot as int, d, p as int),
                        decreases slot - p,
                    {
                        let earlier = &flat[p];
                        assert(earlier@ == entry_datagrams(ms[p as int]));
                        let mut u: usize = 0;
                        while u < earlier.len()
                            invariant
                                u <= earlier@.len(),
                                earlier@ == entry_datagrams(ms[p as int]),
                                forall|w: int| 0 <= w < u ==> !writable_overlap(d, #[trigger] entry_datagrams(ms[p as int])[w]),
                            decreases earlier@.len() - u,
                        {
                            if process_writable_overlap(&d, &earlier[u]) {
                                proof {
                                    assert(writable_overlap(d, entry_datagrams(ms[p as int])[u as int]));
                                    assert(first_overlapping_entry(ms, slot as int, d, p as int) == Some(p as int));
                                    assert(ms[p as int].id == entries@[p as int].id);
                                    assert(datagram_error(ms, slot as int, t as int) == Some(
                                        ScheduledProcessInputPlanError::OverlappingWrite(entry.id, entries@[p as int].id),
                                    ));
                                    lemma_inputs_error_persists(v, configured@, ms, slot + 1, DOMAINS as int);
                                }
                                return Err(ScheduledProcessInputPlanError::OverlappingWrite(entry.id, entries[p].id));
                            }
                            u = u + 1;
                        }
                        p = p + 1;
                    }
                    let mut u: usize = 0;
                    while u < t
                        invariant
                            u <= t < datagrams@.len(),
                            datagrams@ == entry_datagrams(ms[slot as int]),
                            first_overlapping_entry(ms, slot as int, d, 0) is None,
                            forall|w: int| 0 <= w < u ==> !writable_overlap(d, #[trigger] datagrams@[w]),
                        decreases t - u,
                    {
                        if process_writable_overlap(&d, &datagrams[u]) {
                            proof {
                                assert(writable_overlap(d, datagrams@[u as int]));
                                assert(datagram_error(ms, slot as int, t as int) == Some(
                                    ScheduledProcessInputPlanError::OverlappingWrite(entry.id, entry.id),
                                ));
                                lemma_inputs_error_persists(v, configured@, ms, slot + 1, DOMAINS as int);
                            }
                            return Err(ScheduledProcessInputPlanError::OverlappingWrite(entry.id, entry.id));
                        }
                        u = u + 1;
                    }
                }
                assert(datagram_error(ms, slot as int, t as int) is None);
                t = t + 1;
            }
            proof {
                assert forall|x: int| 0 <= x < 256 implies #[trigger] seen@[x] == index_used_before(ms, slot + 1, 0, x as u8) by {
                    if index_used_before(ms, slot + 1, 0, x as u8) {
                        let (p, u) = choose|p: int, u: int|
                            0 <= p < slot + 1 && 0 <= u < entry_datagrams(ms[p]).len() && (#[trigger] entry_datagrams(ms[p])[u]).index == x as u8;
                        if p < slot {
                            assert(index_used_before(ms, slot as int, t as int, x as u8));
                        } else {
                            assert(index_used_before(ms, slot as int, t as int, x as u8));
                        }
                    }
                    if index_used_before(ms, slot as int, t as int, x as u8) {
                        if exists|u: int| 0 <= u < t && (#[trigger] entry_datagrams(ms[slot as int])[u]).index == x as u8 {
                            let u = choose|u: int| 0 <= u < t && (#[trigger] entry_datagrams(ms[slot as int])[u]).index == x as u8;
                            assert(entry_datagrams(ms[slot as int])[u].index == x as u8);
                        }
                    }
                }
            }
            flat.push(datagrams);
            slot = slot + 1;
        }
        Ok(())
    }

    /// Bind the process inputs to the bank's own schedule table; see
    /// `validate`. Another table, even an equal one, is refused as an
    /// invalid schedule.
    pub fn new(
        bank: &ScheduledDomainBank<'_, DOMAINS, SCHEDULE_SLOTS>,
        schedule: &'a ScheduleTable<DOMAINS, SCHEDULE_SLOTS>,
        entries: [ScheduledProcessInputEntry<'a, FRAMES, DATAGRAMS>; DOMAINS],
    ) -> (result: Result<Self, ScheduledProcessInputPlanError>)
        requires
            bank.wf(),
            schedule.wf(),
            forall|i: int| 0 <= i < DOMAINS ==> (#[trigger] entries@[i]).plans.wf(),
        ensures
            ({
                let checked = if schedule.spec_domains().len() != DOMAINS {
                    Err::<(), ScheduledProcessInputPlanError>(ScheduledProcessInputPlanError::InvalidSchedule)
                } else {
                    match inputs_error(bank.view(), schedule.spec_domains(), input_models(entries@), DOMAINS as int) {
                        Some(e) => Err::<(), ScheduledProcessInputPlanError>(e),
                        None => Ok(()),
                    }
                };
                &&& checked is Err ==> result is Err
                &&& result matches Err(e) ==> e == ScheduledProcessInputPlanError::InvalidSchedule || checked == Err::<
                    (),
                    ScheduledProcessInputPlanError,
                >(e)
                &&& result matches Ok(inputs) ==> {
                    &&& checked is Ok
                    &&& inputs.wf()
                    &&& bank.spec_schedule() == *schedule
                    &&& inputs.spec_schedule() == *schedule
                    &&& inputs.spec_entries() == input_models(entries@)
                }
            }),
    {
        if !bank.uses_schedule(schedule) {
            return Err(ScheduledProcessInputPlanError::InvalidSchedule);
        }
        match Self::validate(bank, schedule, &entries) {
            Ok(()) => {},
            Err(error) => return Err(error),
        }
        proof {
            lemma_inputs_ok_ids(bank.view(), schedule.spec_domains(), input_models(entries@), DOMAINS as int);
            assert forall|i: int| 0 <= i < DOMAINS implies (#[trigger] entries@[i]).id == schedule.spec_domains()[i].id by {
                assert(input_models(entries@)[i].id == entries@[i].id);
            }
        }
        Ok(ScheduledProcessInputs { schedule, entries })
    }

    pub fn schedule(&self) -> (schedule: &ScheduleTable<DOMAINS, SCHEDULE_SLOTS>)
        ensures
            *schedule == self.spec_schedule(),
    {
        self.schedule
    }
}

} // verus!
