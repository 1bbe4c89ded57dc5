//! Activation-time registration for multiple process-data domains.
//!
//! The registry sits between generated device configuration and the cyclic
//! `Domain` and `FramePlan` objects: callers register domains, PDO entries
//! and datagrams, inspect the resulting offsets, and then freeze the whole
//! set by activating a schedule.
use vstd::prelude::*;
use crate::domain::DomainSegment;
use crate::mapping::{FmmuConfig, MappingSummary};
use crate::pdo::{PdoDirection, PdoEntry};
use crate::plan::{DatagramPlan, FramePlan, FramePlanSet, FramePlanSetError, PlanError};
use crate::schedule::{ScheduleDomain, ScheduleError, ScheduleTable};
use crate::wire::Command;

verus! {

/// Placement and rate of one process-data domain. The process-image region
/// is `process_image_len` bytes at `process_image_offset` of the caller's
/// image; PDO offsets are relative to that region.
#[derive(Clone, Copy, Debug, PartialEq, Eq, Structural)]
pub struct DomainConfig {
    pub id: u8,
    pub logical_address: u32,
    pub process_image_offset: usize,
    pub process_image_len: usize,
    pub period_ticks: u32,
    pub phase_ticks: u32,
}

impl DomainConfig {
    pub fn empty() -> (config: Self)
        ensures
            config == (DomainConfig {
                id: 0,
                logical_address: 0,
                process_image_offset: 0,
                process_image_len: 0,
                period_ticks: 0,
                phase_ticks: 0,
            }),
    {
        DomainConfig { id: 0, logical_address: 0, process_image_offset: 0, process_image_len: 0, period_ticks: 0, phase_ticks: 0 }
    }

    pub fn new(
        id: u8,
        logical_address: u32,
        process_image_offset: usize,
        process_image_len: usize,
        period_ticks: u32,
        phase_ticks: u32,
    ) -> (config: Self)
        ensures
            config == (DomainConfig {
                id,
                logical_address,
                process_image_offset,
                process_image_len,
                period_ticks,
                phase_ticks,
            }),
    {
        DomainConfig { id, logical_address, process_image_offset, process_image_len, period_ticks, phase_ticks }
    }
}

/// A PDO entry requested by the static device configuration.
#[derive(Clone, Copy, Debug, PartialEq, Eq, Structural)]
pub struct PdoRegistrationRequest {
    pub slave_position: u16,
    pub index: u16,
    pub subindex: u8,
    pub direction: PdoDirection,
    pub bit_length: u8,
    pub signed: bool,
}

impl PdoRegistrationRequest {
    pub fn new(slave_position: u16, index: u16, subindex: u8, direction: PdoDirection, bit_length: u8, signed: bool) -> (request: Self)
        ensures
            request == (PdoRegistrationRequest { slave_position, index, subindex, direction, bit_length, signed }),
    {
        PdoRegistrationRequest { slave_position, index, subindex, direction, bit_length, signed }
    }
}

/// A registered PDO together with the slave that owns the object.
#[derive(Clone, Copy, Debug, PartialEq, Eq, Structural)]
pub struct RegisteredPdo {
    pub slave_position: u16,
    pub entry: PdoEntry,
}

/// Handle returned by `DomainRegistry::register_pdo`.
#[derive(Clone, Copy, Debug, PartialEq, Eq, Structural)]
pub struct PdoEntryHandle {
    domain_id: u8,
    entry_index: usize,
    generation: u16,
}

impl PdoEntryHandle {
    pub closed spec fn spec_domain_id(self) -> u8 {
        self.domain_id
    }

    pub closed spec fn spec_entry_index(self) -> usize {
        self.entry_index
    }

    pub closed spec fn spec_generation(self) -> u16 {
        self.generation
    }

    pub fn domain_id(self) -> (id: u8)
        ensures
            id == self.spec_domain_id(),
    {
        self.domain_id
    }

    pub fn entry_index(self) -> (index: usize)
        ensures
            index == self.spec_entry_index(),
    {
        self.entry_index
    }

    pub fn generation(self) -> (generation: u16)
        ensures
            generation == self.spec_generation(),
    {
        self.generation
    }
}

/// One datagram belonging to a domain. `payload_offset` is relative to the
/// domain's process-image region; `input` tells whether the response payload
/// is committed to the domain's input image.
#[derive(Clone, Copy, Debug, PartialEq, Eq, Structural)]
pub struct DomainDatagramSpec {
    pub command: Command,
    pub index: u8,
    pub address: u32,
    pub payload_offset: usize,
    pub payload_len: usize,
    pub expected_wkc: u16,
    pub input: bool,
}

impl DomainDatagramSpec {
    pub fn new(
        command: Command,
        index: u8,
        address: u32,
        payload_offset: usize,
        payload_len: usize,
        expected_wkc: u16,
        input: bool,
    ) -> (spec: Self)
        ensures
            spec == (DomainDatagramSpec { command, index, address, payload_offset, payload_len, expected_wkc, input }),
    {
        DomainDatagramSpec { command, index, address, payload_offset, payload_len, expected_wkc, input }
    }

    /// A datagram whose response is committed to the input image.
    pub fn input(command: Command, index: u8, address: u32, payload_offset: usize, payload_len: usize, expected_wkc: u16) -> (spec: Self)
        ensures
            spec == (DomainDatagramSpec { command, index, address, payload_offset, payload_len, expected_wkc, input: true }),
    {
        Self::new(command, index, address, payload_offset, payload_len, expected_wkc, true)
    }

    /// A datagram that only carries outputs.
    pub fn output(command: Command, index: u8, address: u32, payload_offset: usize, payload_len: usize, expected_wkc: u16) -> (spec: Self)
        ensures
            spec == (DomainDatagramSpec { command, index, address, payload_offset, payload_len, expected_wkc, input: false }),
    {
        Self::new(command, index, address, payload_offset, payload_len, expected_wkc, false)
    }
}

/// A validated datagram plan with its input classification.
#[derive(Clone, Copy, Debug, PartialEq, Eq, Structural)]
pub struct DomainDatagram {
    pub plan: DatagramPlan,
    pub input: bool,
}

/// Read-only summary of one registered domain.
#[derive(Clone, Copy, Debug, PartialEq, Eq, Structural)]
pub struct DomainInfo {
    pub config: DomainConfig,
    pub pdo_count: usize,
    pub datagram_count: usize,
    pub allocated_bits: usize,
    pub expected_wkc: u16,
    pub input_expected_wkc: u16,
    pub process_image_end: usize,
    pub logical_end: u64,
}

/// Summary of a domain registered from a slave's process-data description,
/// with the mapping summary that the SM/FMMU writer binds to it.
#[derive(Clone, Copy, Debug, PartialEq, Eq, Structural)]
pub struct SiiDomainRegistration {
    pub domain: DomainInfo,
    pub mapping: MappingSummary,
    pub process_image_len: usize,
    pub rx_pdo_count: usize,
    pub tx_pdo_count: usize,
    pub segment_count: usize,
}

/// Wire index and expected working counter of one process-data segment's
/// datagram.
#[derive(Clone, Copy, Debug, PartialEq, Eq, Structural)]
pub struct SiiSegmentDatagramSpec {
    pub index: u8,
    pub expected_wkc: u16,
}

impl SiiSegmentDatagramSpec {
    pub fn new(index: u8, expected_wkc: u16) -> (spec: Self)
        ensures
            spec == (SiiSegmentDatagramSpec { index, expected_wkc }),
    {
        SiiSegmentDatagramSpec { index, expected_wkc }
    }
}

/// How a slave's SII projection disagrees with itself: a segment without
/// its FMMU, or an FMMU whose length is not the segment's.
#[derive(Clone, Copy, Debug, PartialEq, Eq, Structural)]
pub enum SiiConfigurationError {
    FmmuCountMismatch,
    FmmuMappingMismatch,
}

#[derive(Clone, Copy, Debug, PartialEq, Eq, Structural)]
pub enum DomainRegistryPhase {
    Configuring,
    Active,
}

#[derive(Clone, Copy, Debug, PartialEq, Eq, Structural)]
pub enum DomainRegistryError {
    CapacityExceeded,
    ConfigurationLocked,
    NoDomains,
    DuplicateDomainId,
    DomainIdOutOfRange,
    EmptyProcessImage,
    ProcessImageOverflow,
    ProcessImageOverlap,
    LogicalAddressOverflow,
    LogicalAddressOverlap,
    InvalidPeriod,
    InvalidPhase,
    UnknownDomain,
    InvalidPdoHandle,
    StalePdoHandle,
    PdoCapacityExceeded,
    DuplicatePdo,
    InvalidBitLength,
    PdoImageOverflow,
    PdoBitOverlap,
    DatagramCapacityExceeded,
    DuplicateDatagramIndex,
    DatagramLengthOutOfBounds,
    DatagramImageOverflow,
    ExpectedWkcOverflow,
    EmptyDomain,
    SegmentCapacityExceeded,
    SiiLogicalAddressMismatch,
    SiiProcessImageTooSmall,
    SiiDatagramCountMismatch,
    SiiSegmentNotByteAddressable,
    SiiConfiguration(SiiConfigurationError),
    FramePlans(FramePlanSetError),
    ActivationPlanCapacity,
    ActivationPlanNotEmpty,
    Plan(PlanError),
    Schedule(ScheduleError),
}

/// Half-open ranges `[left_start, left_end)` and `[right_start, right_end)`
/// share a point.
pub open spec fn ranges_overlap(left_start: int, left_end: int, right_start: int, right_end: int) -> bool {
    left_start < right_end && right_start < left_end
}

/// The end of a domain's logical address range, which must not pass the
/// 32-bit logical address space.
pub open spec fn spec_logical_end(config: DomainConfig) -> Result<u64, DomainRegistryError> {
    if config.logical_address + config.process_image_len > u32::MAX + 1 {
        Err(DomainRegistryError::LogicalAddressOverflow)
    } else {
        Ok((config.logical_address + config.process_image_len) as u64)
    }
}

fn logical_end(config: DomainConfig) -> (result: Result<u64, DomainRegistryError>)
    ensures
        result == spec_logical_end(config),
{
    if config.process_image_len as u128 > u64::MAX as u128 {
        return Err(DomainRegistryError::LogicalAddressOverflow);
    }
    let length = config.process_image_len as u64;
    let end = match (config.logical_address as u64).checked_add(length) {
        Some(end) => end,
        None => return Err(DomainRegistryError::LogicalAddressOverflow),
    };
    if end > u32::MAX as u64 + 1 {
        return Err(DomainRegistryError::LogicalAddressOverflow);
    }
    Ok(end)
}

/// The generation after `current`: it counts up and skips zero.
pub open spec fn next_generation(current: u16) -> u16 {
    if current == u16::MAX {
        1
    } else {
        (current + 1) as u16
    }
}

/// A domain as the registry's contracts see it.
pub struct DomainView {
    pub config: DomainConfig,
    pub pdos: Seq<RegisteredPdo>,
    pub datagrams: Seq<DomainDatagram>,
    pub next_bit_offset: usize,
    pub allocated_bits: usize,
    pub expected_wkc: u16,
    pub input_expected_wkc: u16,
}

/// A freshly registered domain.
pub open spec fn new_domain(config: DomainConfig) -> DomainView {
    DomainView {
        config,
        pdos: Seq::empty(),
        datagrams: Seq::empty(),
        next_bit_offset: 0,
        allocated_bits: 0,
        expected_wkc: 0,
        input_expected_wkc: 0,
    }
}

/// Why `config` conflicts with the first `k` registered domains, if it does:
/// the first conflicting domain decides.
pub open spec fn spec_domain_conflict(domains: Seq<DomainView>, config: DomainConfig, k: int) -> Option<DomainRegistryError>
    decreases k,
{
    if k <= 0 {
        None
    } else {
        match spec_domain_conflict(domains, config, k - 1) {
            Some(e) => Some(e),
            None => {
                let existing = domains[k - 1].config;
                if existing.id == config.id {
                    Some(DomainRegistryError::DuplicateDomainId)
                } else if existing.process_image_offset + existing.process_image_len > usize::MAX {
                    Some(DomainRegistryError::ProcessImageOverflow)
                } else if ranges_overlap(config.process_image_offset as int, config.process_image_offset + config.process_image_len,
                    existing.process_image_offset as int, existing.process_image_offset + existing.process_image_len) {
                    Some(DomainRegistryError::ProcessImageOverlap)
                } else if spec_logical_end(existing) is Err {
                    Some(DomainRegistryError::LogicalAddressOverflow)
                } else if ranges_overlap(config.logical_address as int, config.logical_address + config.process_image_len,
                    existing.logical_address as int, existing.logical_address + existing.process_image_len) {
                    Some(DomainRegistryError::LogicalAddressOverlap)
                } else {
                    None
                }
            },
        }
    }
}

/// Why a domain cannot be registered, if it cannot.
pub open spec fn spec_register_domain_error(
    active: bool,
    domains: Seq<DomainView>,
    capacity: usize,
    config: DomainConfig,
) -> Option<DomainRegistryError> {
    if active {
        Some(DomainRegistryError::ConfigurationLocked)
    } else if capacity == 0 || domains.len() >= capacity {
        Some(DomainRegistryError::CapacityExceeded)
    } else if config.id >= 64 {
        Some(DomainRegistryError::DomainIdOutOfRange)
    } else if config.process_image_len == 0 {
        Some(DomainRegistryError::EmptyProcessImage)
    } else if config.period_ticks == 0 {
        Some(DomainRegistryError::InvalidPeriod)
    } else if config.phase_ticks >= config.period_ticks {
        Some(DomainRegistryError::InvalidPhase)
    } else if config.process_image_offset + config.process_image_len > usize::MAX {
        Some(DomainRegistryError::ProcessImageOverflow)
    } else if spec_logical_end(config) is Err {
        Some(DomainRegistryError::LogicalAddressOverflow)
    } else {
        spec_domain_conflict(domains, config, domains.len() as int)
    }
}

/// The position of the domain with `id`, if registered.
pub open spec fn spec_find_domain(domains: Seq<DomainView>, id: u8) -> Option<int> {
    if exists|i: int| 0 <= i < domains.len() && domains[i].config.id == id {
        Some(choose|i: int| 0 <= i < domains.len() && domains[i].config.id == id)
    } else {
        None
    }
}

/// Registered domain ids are distinct.
pub open spec fn distinct_ids(domains: Seq<DomainView>) -> bool {
    forall|i: int, j: int| 0 <= i < j < domains.len() ==> domains[i].config.id != domains[j].config.id
}

/// What every registered domain keeps: a valid placement, PDO and datagram
/// counts within capacity, PDOs inside the image, and datagram payloads
/// inside the domain's region of the process image.
pub open spec fn domain_valid(d: DomainView, pdos: usize, datagrams: usize) -> bool {
    &&& d.config.process_image_offset + d.config.process_image_len <= usize::MAX
    &&& spec_logical_end(d.config) is Ok
    &&& d.pdos.len() <= pdos
    &&& d.datagrams.len() <= datagrams
    &&& forall|k: int| 0 <= k < d.pdos.len() ==> (#[trigger] d.pdos[k]).entry.bit_offset + d.pdos[k].entry.bit_length <= usize::MAX
    &&& forall|k: int| 0 <= k < d.datagrams.len() ==> d.config.process_image_offset <= (#[trigger] d.datagrams[k]).plan.payload_offset
}

/// Once a prefix of the domains conflicts, every longer prefix does, with
/// the same error.
pub proof fn lemma_conflict_persists(domains: Seq<DomainView>, config: DomainConfig, j: int, k: int)
    requires
        0 <= j <= k,
        spec_domain_conflict(domains, config, j) is Some,
    ensures
        spec_domain_conflict(domains, config, k) == spec_domain_conflict(domains, config, j),
    decreases k - j,
{
    if j < k {
        lemma_conflict_persists(domains, config, j, k - 1);
    }
}

/// Without a conflict, no registered domain shares the id.
pub proof fn lemma_no_conflict_distinct(domains: Seq<DomainView>, config: DomainConfig, k: int)
    requires
        0 <= k <= domains.len(),
        spec_domain_conflict(domains, config, k) is None,
    ensures
        forall|i: int| 0 <= i < k ==> domains[i].config.id != config.id,
    decreases k,
{
    if k > 0 {
        lemma_no_conflict_distinct(domains, config, k - 1);
    }
}

/// A registered PDO is the same object as a request: slave, index,
/// subindex and direction agree.
pub open spec fn pdo_matches(p: RegisteredPdo, r: PdoRegistrationRequest) -> bool {
    p.slave_position == r.slave_position && p.entry.index == r.index && p.entry.subindex == r.subindex
        && p.entry.direction == r.direction
}

/// Why a PDO cannot be placed at `bit_offset` in domain `d`, if it cannot.
pub open spec fn spec_pdo_error(d: DomainView, capacity: usize, bit_offset: usize, r: PdoRegistrationRequest) -> Option<DomainRegistryError> {
    let end = bit_offset + r.bit_length;
    if capacity == 0 || d.pdos.len() >= capacity {
        Some(DomainRegistryError::PdoCapacityExceeded)
    } else if !(1 <= r.bit_length <= 64) {
        Some(DomainRegistryError::InvalidBitLength)
    } else if exists|k: int| 0 <= k < d.pdos.len() && pdo_matches(#[trigger] d.pdos[k], r) {
        Some(DomainRegistryError::DuplicatePdo)
    } else if end > usize::MAX || d.config.process_image_len * 8 > usize::MAX || end > d.config.process_image_len * 8 {
        Some(DomainRegistryError::PdoImageOverflow)
    } else if exists|k: int|
        0 <= k < d.pdos.len() && ranges_overlap(bit_offset as int, end, (#[trigger] d.pdos[k]).entry.bit_offset as int,
            d.pdos[k].entry.bit_offset + d.pdos[k].entry.bit_length) {
        Some(DomainRegistryError::PdoBitOverlap)
    } else {
        None
    }
}

pub open spec fn max_usize(a: usize, b: usize) -> usize {
    if a >= b {
        a
    } else {
        b
    }
}

/// The domain with the PDO placed at `bit_offset`: the entry is appended and
/// both the automatic cursor and the allocated size reach at least its end.
pub open spec fn with_pdo(d: DomainView, bit_offset: usize, r: PdoRegistrationRequest) -> DomainView {
    let end = (bit_offset + r.bit_length) as usize;
    DomainView {
        pdos: d.pdos.push(RegisteredPdo {
            slave_position: r.slave_position,
            entry: PdoEntry {
                index: r.index,
                subindex: r.subindex,
                bit_offset,
                bit_length: r.bit_length,
                signed: r.signed,
                direction: r.direction,
            },
        }),
        next_bit_offset: max_usize(d.next_bit_offset, end),
        allocated_bits: max_usize(d.allocated_bits, end),
        ..d
    }
}

/// The registry after placing a PDO in domain `i`: a refused request
/// changes nothing, an accepted one appends the entry and hands out a handle
/// to it.
pub open spec fn pdo_outcome(
    before: Seq<DomainView>,
    after: Seq<DomainView>,
    i: int,
    domain_id: u8,
    bit_offset: usize,
    request: PdoRegistrationRequest,
    capacity: usize,
    generation: u16,
    result: Result<PdoEntryHandle, DomainRegistryError>,
) -> bool {
    match spec_pdo_error(before[i], capacity, bit_offset, request) {
        Some(e) => result == Err::<PdoEntryHandle, DomainRegistryError>(e) && after == before,
        None => result matches Ok(handle) && handle.spec_domain_id() == domain_id && handle.spec_entry_index()
            == before[i].pdos.len() && handle.spec_generation() == generation
            && after == before.update(i, with_pdo(before[i], bit_offset, request)),
    }
}

/// Some registered domain already uses the datagram index.
pub open spec fn index_registered(domains: Seq<DomainView>, index: u8) -> bool {
    exists|j: int, k: int|
        0 <= j < domains.len() && 0 <= k < domains[j].datagrams.len() && (#[trigger] domains[j].datagrams[k]).plan.index == index
}

/// Why a datagram cannot join domain `i`, if it cannot.
pub open spec fn spec_datagram_error(domains: Seq<DomainView>, i: int, capacity: usize, spec: DomainDatagramSpec) -> Option<DomainRegistryError> {
    let d = domains[i];
    if capacity == 0 || d.datagrams.len() >= capacity {
        Some(DomainRegistryError::DatagramCapacityExceeded)
    } else if index_registered(domains, spec.index) {
        Some(DomainRegistryError::DuplicateDatagramIndex)
    } else if spec.payload_len > 0x07FF {
        Some(DomainRegistryError::DatagramLengthOutOfBounds)
    } else if spec.payload_offset + spec.payload_len > d.config.process_image_len {
        Some(DomainRegistryError::DatagramImageOverflow)
    } else if d.config.process_image_offset + spec.payload_offset > usize::MAX {
        Some(DomainRegistryError::DatagramImageOverflow)
    } else if d.expected_wkc + spec.expected_wkc > u16::MAX {
        Some(DomainRegistryError::ExpectedWkcOverflow)
    } else if spec.input && d.input_expected_wkc + spec.expected_wkc > u16::MAX {
        Some(DomainRegistryError::ExpectedWkcOverflow)
    } else {
        None
    }
}

/// The datagram a domain registers for `spec`, its payload placed at the
/// absolute image offset.
pub open spec fn registered_datagram(d: DomainView, spec: DomainDatagramSpec) -> DomainDatagram {
    DomainDatagram {
        plan: DatagramPlan {
            command: spec.command,
            index: spec.index,
            address: spec.address,
            payload_offset: (d.config.process_image_offset + spec.payload_offset) as usize,
            payload_len: spec.payload_len,
            expected_wkc: spec.expected_wkc,
        },
        input: spec.input,
    }
}

/// The domain with the datagram appended and its expected working counters
/// raised.
pub open spec fn with_datagram(d: DomainView, spec: DomainDatagramSpec) -> DomainView {
    DomainView {
        datagrams: d.datagrams.push(registered_datagram(d, spec)),
        expected_wkc: (d.expected_wkc + spec.expected_wkc) as u16,
        input_expected_wkc: if spec.input {
            (d.input_expected_wkc + spec.expected_wkc) as u16
        } else {
            d.input_expected_wkc
        },
        ..d
    }
}

/// The summary of a registered domain.
pub open spec fn domain_info(d: DomainView) -> DomainInfo {
    DomainInfo {
        config: d.config,
        pdo_count: d.pdos.len() as usize,
        datagram_count: d.datagrams.len() as usize,
        allocated_bits: d.allocated_bits,
        expected_wkc: d.expected_wkc,
        input_expected_wkc: d.input_expected_wkc,
        process_image_end: (d.config.process_image_offset + d.config.process_image_len) as usize,
        logical_end: (d.config.logical_address + d.config.process_image_len) as u64,
    }
}

/// The input segments of the first `k` datagrams of a domain: input
/// datagrams with a payload, at their offset within the domain's region.
pub open spec fn input_segments(d: DomainView, k: int) -> Seq<DomainSegment>
    decreases k,
{
    if k <= 0 {
        Seq::empty()
    } else {
        let prior = input_segments(d, k - 1);
        let g = d.datagrams[k - 1];
        if g.input && g.plan.payload_len != 0 {
            prior.push(DomainSegment {
                datagram_index: g.plan.index,
                input_offset: (g.plan.payload_offset - d.config.process_image_offset) as usize,
                len: g.plan.payload_len,
                expected_wkc: g.plan.expected_wkc,
            })
        } else {
            prior
        }
    }
}

/// The datagram plans of a domain.
pub open spec fn domain_plans(d: DomainView) -> Seq<DatagramPlan> {
    d.datagrams.map_values(|g: DomainDatagram| g.plan)
}

/// Push the first `k` of `new` onto a plan holding `ds`, stopping at the
/// first refused datagram.
pub open spec fn spec_push_all(ds: Seq<DatagramPlan>, capacity: int, new: Seq<DatagramPlan>, k: int) -> Result<Seq<DatagramPlan>, PlanError>
    decreases k,
{
    if k <= 0 {
        Ok(ds)
    } else {
        match spec_push_all(ds, capacity, new, k - 1) {
            Err(e) => Err(e),
            Ok(current) => match crate::plan::spec_push_error(current, capacity, new[k - 1]) {
                Some(e) => Err(e),
                None => Ok(current.push(new[k - 1])),
            },
        }
    }
}

/// The schedule entry of a domain.
pub open spec fn schedule_domain(d: DomainView) -> ScheduleDomain {
    ScheduleDomain { id: d.config.id, period_ticks: d.config.period_ticks, phase_ticks: d.config.phase_ticks }
}

/// The schedule entries of the registered domains.
pub open spec fn schedule_domains(domains: Seq<DomainView>) -> Seq<ScheduleDomain> {
    domains.map_values(|d: DomainView| schedule_domain(d))
}

/// Some registered domain has no datagram.
pub open spec fn has_empty_domain(domains: Seq<DomainView>) -> bool {
    exists|i: int| 0 <= i < domains.len() && (#[trigger] domains[i]).datagrams.len() == 0
}

/// The frame plans of the first `k` domains, each split from an empty set,
/// or the first frame-plan error.
pub open spec fn spec_activation_plans(domains: Seq<DomainView>, frames: int, capacity: int, k: int) -> Result<Seq<Seq<Seq<DatagramPlan>>>, FramePlanSetError>
    decreases k,
{
    if k <= 0 {
        Ok(Seq::empty())
    } else {
        match spec_activation_plans(domains, frames, capacity, k - 1) {
            Err(e) => Err(e),
            Ok(prior) => match crate::plan::spec_append_all(Seq::empty(), frames, capacity, domain_plans(domains[k - 1]),
                domains[k - 1].datagrams.len() as int) {
                Err(e) => Err(e),
                Ok(split) => Ok(prior.push(split)),
            },
        }
    }
}

/// What building a schedule for the registered domains gives: no domains,
/// a refused schedule, or the table over their schedule entries.
pub open spec fn schedule_outcome<const DOMAINS: usize, const SLOTS: usize>(
    base_tick_ns: u64,
    domains: Seq<DomainView>,
    result: Result<ScheduleTable<DOMAINS, SLOTS>, DomainRegistryError>,
) -> bool {
    if domains.len() == 0 {
        result matches Err(e) && e == DomainRegistryError::NoDomains
    } else {
        match crate::schedule::spec_build_error(base_tick_ns, schedule_domains(domains), DOMAINS, SLOTS) {
            Some(e) => result matches Err(x) && x == DomainRegistryError::Schedule(e),
            None => result matches Ok(table) && table.wf() && table.spec_base_tick_ns() == base_tick_ns
                && table.spec_domains() == schedule_domains(domains),
        }
    }
}

pub proof fn lemma_input_segments_monotone(d: DomainView, j: int, k: int)
    requires
        0 <= j <= k,
    ensures
        input_segments(d, j).len() <= input_segments(d, k).len(),
    decreases k - j,
{
    if j < k {
        lemma_input_segments_monotone(d, j, k - 1);
    }
}

pub proof fn lemma_push_all_error_persists(ds: Seq<DatagramPlan>, capacity: int, new: Seq<DatagramPlan>, k: int, m: int)
    requires
        0 <= k <= m,
        spec_push_all(ds, capacity, new, k) is Err,
    ensures
        spec_push_all(ds, capacity, new, m) == spec_push_all(ds, capacity, new, k),
    decreases m - k,
{
    if m > k {
        lemma_push_all_error_persists(ds, capacity, new, k, m - 1);
    }
}

pub proof fn lemma_activation_error_persists(domains: Seq<DomainView>, frames: int, capacity: int, k: int, m: int)
    requires
        0 <= k <= m,
        spec_activation_plans(domains, frames, capacity, k) is Err,
    ensures
        spec_activation_plans(domains, frames, capacity, m) == spec_activation_plans(domains, frames, capacity, k),
    decreases m - k,
{
    if m > k {
        lemma_activation_error_persists(domains, frames, capacity, k, m - 1);
    }
}

struct DomainSlot {
    config: DomainConfig,
    pdos: Vec<RegisteredPdo>,
    datagrams: Vec<DomainDatagram>,
    next_bit_offset: usize,
    allocated_bits: usize,
    expected_wkc: u16,
    input_expected_wkc: u16,
}

impl DomainSlot {
    spec fn view_domain(&self) -> DomainView {
        DomainView {
            config: self.config,
            pdos: self.pdos@,
            datagrams: self.datagrams@,
            next_bit_offset: self.next_bit_offset,
            allocated_bits: self.allocated_bits,
            expected_wkc: self.expected_wkc,
            input_expected_wkc: self.input_expected_wkc,
        }
    }

    fn new(config: DomainConfig) -> (slot: Self)
        ensures
            slot.view_domain() == new_domain(config),
    {
        let slot = DomainSlot {
            config,
            pdos: Vec::new(),
            datagrams: Vec::new(),
            next_bit_offset: 0,
            allocated_bits: 0,
            expected_wkc: 0,
            input_expected_wkc: 0,
        };
        assert(slot.view_domain().pdos =~= Seq::<RegisteredPdo>::empty());
        assert(slot.view_domain().datagrams =~= Seq::<DomainDatagram>::empty());
        slot
    }
}

/// Fixed-capacity domain, PDO and datagram registration table. `PDOS` and
/// `DATAGRAMS` are per-domain capacities. Automatic PDO allocation advances
/// one bit cursor per domain; `register_pdo_at` takes an explicit offset.
pub struct DomainRegistry<const DOMAINS: usize, const PDOS: usize, const DATAGRAMS: usize> {
    slots: Vec<DomainSlot>,
    phase: DomainRegistryPhase,
    generation: u16,
}

impl<const DOMAINS: usize, const PDOS: usize, const DATAGRAMS: usize> DomainRegistry<DOMAINS, PDOS, DATAGRAMS> {
    pub closed spec fn view_domains(&self) -> Seq<DomainView> {
        self.slots@.map_values(|s: DomainSlot| s.view_domain())
    }

    pub closed spec fn spec_phase(&self) -> DomainRegistryPhase {
        self.phase
    }

    pub closed spec fn spec_generation(&self) -> u16 {
        self.generation
    }

    pub open spec fn spec_active(&self) -> bool {
        self.spec_phase() == DomainRegistryPhase::Active
    }

    pub closed spec fn wf(&self) -> bool {
        &&& self.slots@.len() <= DOMAINS
        &&& distinct_ids(self.view_domains())
        &&& forall|i: int| 0 <= i < self.slots@.len() ==> domain_valid(#[trigger] self.view_domains()[i], PDOS, DATAGRAMS)
    }

    pub fn new() -> (registry: Self)
        ensures
            registry.wf(),
            registry.view_domains() == Seq::<DomainView>::empty(),
            registry.spec_phase() == DomainRegistryPhase::Configuring,
            registry.spec_generation() == 1,
    {
        let registry = DomainRegistry { slots: Vec::new(), phase: DomainRegistryPhase::Configuring, generation: 1 };
        assert(registry.view_domains() =~= Seq::<DomainView>::empty());
        registry
    }

    pub fn phase(&self) -> (phase: DomainRegistryPhase)
        ensures
            phase == self.spec_phase(),
    {
        self.phase
    }

    pub fn is_active(&self) -> (active: bool)
        ensures
            active == self.spec_active(),
    {
        self.phase == DomainRegistryPhase::Active
    }

    pub fn domain_count(&self) -> (count: usize)
        ensures
            count == self.view_domains().len(),
    {
        self.slots.len()
    }

    pub fn generation(&self) -> (generation: u16)
        ensures
            generation == self.spec_generation(),
    {
        self.generation
    }

    fn slot_index(&self, domain_id: u8) -> (result: Result<usize, DomainRegistryError>)
        requires
            self.wf(),
        ensures
            match spec_find_domain(self.view_domains(), domain_id) {
                Some(i) => result == Ok::<usize, DomainRegistryError>(i as usize),
                None => result == Err::<usize, DomainRegistryError>(DomainRegistryError::UnknownDomain),
            },
    {
        let mut i: usize = 0;
        while i < self.slots.len()
            invariant
                self.wf(),
                i <= self.slots@.len(),
                forall|k: int| 0 <= k < i ==> self.view_domains()[k].config.id != domain_id,
            decreases self.slots@.len() - i,
        {
            if self.slots[i].config.id == domain_id {
                assert(self.view_domains()[i as int].config.id == domain_id);
                let ghost j = choose|j: int| 0 <= j < self.view_domains().len() && self.view_domains()[j].config.id == domain_id;
                assert(j == i);
                return Ok(i);
            }
            i = i + 1;
        }
        Err(DomainRegistryError::UnknownDomain)
    }

    /// Register a domain. It needs a free domain slot, an id below 64, a
    /// non-empty image, a positive period with a smaller phase, ranges that
    /// fit, and an id, image range and logical range of its own.
    #[verifier::loop_isolation(false)]
    pub fn register_domain(&mut self, config: DomainConfig) -> (result: Result<(), DomainRegistryError>)
        requires
            old(self).wf(),
        ensures
            final(self).wf(),
            final(self).spec_phase() == old(self).spec_phase(),
            final(self).spec_generation() == old(self).spec_generation(),
            match spec_register_domain_error(old(self).spec_active(), old(self).view_domains(), DOMAINS, config) {
                Some(e) => result == Err::<(), DomainRegistryError>(e) && final(self).view_domains() == old(self).view_domains(),
                None => result is Ok && final(self).view_domains() == old(self).view_domains().push(new_domain(config)),
            },
    {
        if self.phase == DomainRegistryPhase::Active {
            return Err(DomainRegistryError::ConfigurationLocked);
        }
        if DOMAINS == 0 || self.slots.len() >= DOMAINS {
            return Err(DomainRegistryError::CapacityExceeded);
        }
        if config.id >= 64 {
            return Err(DomainRegistryError::DomainIdOutOfRange);
        }
        if config.process_image_len == 0 {
            return Err(DomainRegistryError::EmptyProcessImage);
        }
        if config.period_ticks == 0 {
            return Err(DomainRegistryError::InvalidPeriod);
        }
        if config.phase_ticks >= config.period_ticks {
            return Err(DomainRegistryError::InvalidPhase);
        }
        let image_end = match config.process_image_offset.checked_add(config.process_image_len) {
            Some(end) => end,
            None => return Err(DomainRegistryError::ProcessImageOverflow),
        };
        let logical_end_value = match logical_end(config) {
            Ok(end) => end,
            Err(error) => return Err(error),
        };
        let ghost domains = self.view_domains();
        let mut k: usize = 0;
        while k < self.slots.len()
            invariant
                self.wf(),
                domains == self.view_domains(),
                k <= domains.len(),
                image_end == config.process_image_offset + config.process_image_len,
                spec_logical_end(config) == Ok::<u64, DomainRegistryError>(logical_end_value),
                spec_domain_conflict(domains, config, k as int) is None,
            decreases domains.len() - k,
        {
            let existing = self.slots[k].config;
            assert(domains[k as int].config == existing);
            assert(domain_valid(domains[k as int], PDOS, DATAGRAMS));
            if existing.id == config.id {
                proof { lemma_conflict_persists(domains, config, k as int + 1, domains.len() as int); }
                return Err(DomainRegistryError::DuplicateDomainId);
            }
            let existing_image_end = match existing.process_image_offset.checked_add(existing.process_image_len) {
                Some(end) => end,
                None => {
                    proof { lemma_conflict_persists(domains, config, k as int + 1, domains.len() as int); }
                    return Err(DomainRegistryError::ProcessImageOverflow);
                },
            };
            if config.process_image_offset < existing_image_end && existing.process_image_offset < image_end {
                proof { lemma_conflict_persists(domains, config, k as int + 1, domains.len() as int); }
                return Err(DomainRegistryError::ProcessImageOverlap);
            }
            let existing_logical_end = match logical_end(existing) {
                Ok(end) => end,
                Err(error) => {
                    proof { lemma_conflict_persists(domains, config, k as int + 1, domains.len() as int); }
                    return Err(error);
                },
            };
            if (config.logical_address as u64) < existing_logical_end && (existing.logical_address as u64) < logical_end_value {
                proof { lemma_conflict_persists(domains, config, k as int + 1, domains.len() as int); }
                return Err(DomainRegistryError::LogicalAddressOverlap);
            }
            k = k + 1;
        }
        proof {
            lemma_no_conflict_distinct(domains, config, domains.len() as int);
        }
        self.slots.push(DomainSlot::new(config));
        assert(self.view_domains() =~= domains.push(new_domain(config)));
        Ok(())
    }

    /// Place a PDO at the domain's automatic bit cursor.
    pub fn register_pdo(&mut self, domain_id: u8, request: PdoRegistrationRequest) -> (result: Result<PdoEntryHandle, DomainRegistryError>)
        requires
            old(self).wf(),
        ensures
            final(self).wf(),
            final(self).spec_phase() == old(self).spec_phase(),
            final(self).spec_generation() == old(self).spec_generation(),
            old(self).spec_active() ==> result == Err::<PdoEntryHandle, DomainRegistryError>(DomainRegistryError::ConfigurationLocked)
                && final(self).view_domains() == old(self).view_domains(),
            !old(self).spec_active() ==> match spec_find_domain(old(self).view_domains(), domain_id) {
                None => result == Err::<PdoEntryHandle, DomainRegistryError>(DomainRegistryError::UnknownDomain)
                    && final(self).view_domains() == old(self).view_domains(),
                Some(i) => pdo_outcome(old(self).view_domains(), final(self).view_domains(), i, domain_id,
                    old(self).view_domains()[i].next_bit_offset, request, PDOS, old(self).spec_generation(), result),
            },
    {
        if self.phase == DomainRegistryPhase::Active {
            return Err(DomainRegistryError::ConfigurationLocked);
        }
        let index = match self.slot_index(domain_id) {
            Ok(index) => index,
            Err(error) => return Err(error),
        };
        let bit_offset = self.slots[index].next_bit_offset;
        self.register_pdo_at(domain_id, bit_offset, request)
    }

    /// Place a PDO at an explicit bit offset of the domain's image. The
    /// domain needs PDO capacity; the entry must be 1 to 64 bits, new to the
    /// domain, inside the image and clear of every registered entry.
    #[verifier::loop_isolation(false)]
    pub fn register_pdo_at(&mut self, domain_id: u8, bit_offset: usize, request: PdoRegistrationRequest) -> (result: Result<
        PdoEntryHandle,
        DomainRegistryError,
    >)
        requires
            old(self).wf(),
        ensures
            final(self).wf(),
            final(self).spec_phase() == old(self).spec_phase(),
            final(self).spec_generation() == old(self).spec_generation(),
            old(self).spec_active() ==> result == Err::<PdoEntryHandle, DomainRegistryError>(DomainRegistryError::ConfigurationLocked)
                && final(self).view_domains() == old(self).view_domains(),
            !old(self).spec_active() ==> match spec_find_domain(old(self).view_domains(), domain_id) {
                None => result == Err::<PdoEntryHandle, DomainRegistryError>(DomainRegistryError::UnknownDomain)
                    && final(self).view_domains() == old(self).view_domains(),
                Some(i) => pdo_outcome(old(self).view_domains(), final(self).view_domains(), i, domain_id, bit_offset,
                    request, PDOS, old(self).spec_generation(), result),
            },
    {
        if self.phase == DomainRegistryPhase::Active {
            return Err(DomainRegistryError::ConfigurationLocked);
        }
        let index = match self.slot_index(domain_id) {
            Ok(index) => index,
            Err(error) => return Err(error),
        };
        let ghost domains = self.view_domains();
        let ghost d = domains[index as int];
        assert(domain_valid(d, PDOS, DATAGRAMS));
        let count = self.slots[index].pdos.len();
        if PDOS == 0 || count >= PDOS {
            return Err(DomainRegistryError::PdoCapacityExceeded);
        }
        if request.bit_length < 1 || request.bit_length > 64 {
            return Err(DomainRegistryError::InvalidBitLength);
        }
        let mut k: usize = 0;
        while k < count
            invariant
                k <= count,
                count == d.pdos.len(),
                self.view_domains() == domains,
                forall|m: int| 0 <= m < k ==> !pdo_matches(d.pdos[m], request),
            decreases count - k,
        {
            let registered = self.slots[index].pdos[k];
            assert(registered == d.pdos[k as int]);
            if registered.slave_position == request.slave_position && registered.entry.index == request.index
                && registered.entry.subindex == request.subindex && registered.entry.direction == request.direction {
                assert(pdo_matches(d.pdos[k as int], request));
                return Err(DomainRegistryError::DuplicatePdo);
            }
            k = k + 1;
        }
        let end = match bit_offset.checked_add(request.bit_length as usize) {
            Some(end) => end,
            None => return Err(DomainRegistryError::PdoImageOverflow),
        };
        let image_bits = match self.slots[index].config.process_image_len.checked_mul(8) {
            Some(bits) => bits,
            None => return Err(DomainRegistryError::PdoImageOverflow),
        };
        if end > image_bits {
            return Err(DomainRegistryError::PdoImageOverflow);
        }
        let mut m: usize = 0;
        while m < count
            invariant
                m <= count,
                count == d.pdos.len(),
                self.view_domains() == domains,
                end == bit_offset + request.bit_length,
                forall|j: int| 0 <= j < m ==> !ranges_overlap(bit_offset as int, end as int, (#[trigger] d.pdos[j]).entry.bit_offset as int,
                    d.pdos[j].entry.bit_offset + d.pdos[j].entry.bit_length),
            decreases count - m,
        {
            let registered = self.slots[index].pdos[m];
            assert(registered == d.pdos[m as int]);
            let existing_start = registered.entry.bit_offset;
            let existing_end = existing_start + registered.entry.bit_length as usize;
            if bit_offset < existing_end && existing_start < end {
                return Err(DomainRegistryError::PdoBitOverlap);
            }
            m = m + 1;
        }
        let entry = PdoEntry {
            index: request.index,
            subindex: request.subindex,
            bit_offset,
            bit_length: request.bit_length,
            signed: request.signed,
            direction: request.direction,
        };
        let mut slot = self.slots.remove(index);
        slot.pdos.push(RegisteredPdo { slave_position: request.slave_position, entry });
        if slot.next_bit_offset < end {
            slot.next_bit_offset = end;
        }
        if slot.allocated_bits < end {
            slot.allocated_bits = end;
        }
        self.slots.insert(index, slot);
        assert(self.view_domains() =~= domains.update(index as int, with_pdo(d, bit_offset, request)));
        Ok(PdoEntryHandle { domain_id, entry_index: count, generation: self.generation })
    }

    /// The PDO behind a handle of this configuration generation.
    pub fn pdo(&self, handle: PdoEntryHandle) -> (result: Result<RegisteredPdo, DomainRegistryError>)
        requires
            self.wf(),
        ensures
            handle.spec_generation() != self.spec_generation() ==> result == Err::<RegisteredPdo, DomainRegistryError>(
                DomainRegistryError::StalePdoHandle,
            ),
            handle.spec_generation() == self.spec_generation() ==> match spec_find_domain(self.view_domains(), handle.spec_domain_id()) {
                None => result == Err::<RegisteredPdo, DomainRegistryError>(DomainRegistryError::UnknownDomain),
                Some(i) => if handle.spec_entry_index() < self.view_domains()[i].pdos.len() {
                    result == Ok::<RegisteredPdo, DomainRegistryError>(self.view_domains()[i].pdos[handle.spec_entry_index() as int])
                } else {
                    result == Err::<RegisteredPdo, DomainRegistryError>(DomainRegistryError::InvalidPdoHandle)
                },
            },
    {
        if handle.generation != self.generation {
            return Err(DomainRegistryError::StalePdoHandle);
        }
        let index = match self.slot_index(handle.domain_id) {
            Ok(index) => index,
            Err(error) => return Err(error),
        };
        let slot = &self.slots[index];
        if handle.entry_index < slot.pdos.len() {
            Ok(slot.pdos[handle.entry_index])
        } else {
            Err(DomainRegistryError::InvalidPdoHandle)
        }
    }

    /// The PDOs registered in a domain, in registration order.
    pub fn pdos(&self, domain_id: u8) -> (result: Result<&[RegisteredPdo], DomainRegistryError>)
        requires
            self.wf(),
        ensures
            match spec_find_domain(self.view_domains(), domain_id) {
                None => result matches Err(e) && e == DomainRegistryError::UnknownDomain,
                Some(i) => result matches Ok(pdos) && pdos@ == self.view_domains()[i].pdos,
            },
    {
        let index = match self.slot_index(domain_id) {
            Ok(index) => index,
            Err(error) => return Err(error),
        };
        Ok(self.slots[index].pdos.as_slice())
    }

    /// Register a datagram of a domain. The domain needs datagram capacity;
    /// the index must be new to every domain, the payload at most 0x7FF
    /// bytes and inside the domain's image region, and the expected working
    /// counters must not overflow.
    #[verifier::loop_isolation(false)]
    pub fn register_datagram(&mut self, domain_id: u8, spec: DomainDatagramSpec) -> (result: Result<DomainDatagram, DomainRegistryError>)
        requires
            old(self).wf(),
        ensures
            final(self).wf(),
            final(self).spec_phase() == old(self).spec_phase(),
            final(self).spec_generation() == old(self).spec_generation(),
            old(self).spec_active() ==> result == Err::<DomainDatagram, DomainRegistryError>(DomainRegistryError::ConfigurationLocked)
                && final(self).view_domains() == old(self).view_domains(),
            !old(self).spec_active() ==> match spec_find_domain(old(self).view_domains(), domain_id) {
                None => result == Err::<DomainDatagram, DomainRegistryError>(DomainRegistryError::UnknownDomain)
                    && final(self).view_domains() == old(self).view_domains(),
                Some(i) => match spec_datagram_error(old(self).view_domains(), i, DATAGRAMS, spec) {
                    Some(e) => result == Err::<DomainDatagram, DomainRegistryError>(e) && final(self).view_domains() == old(self).view_domains(),
                    None => result == Ok::<DomainDatagram, DomainRegistryError>(registered_datagram(old(self).view_domains()[i], spec))
                        && final(self).view_domains() == old(self).view_domains().update(i, with_datagram(old(self).view_domains()[i], spec)),
                },
            },
    {
        if self.phase == DomainRegistryPhase::Active {
            return Err(DomainRegistryError::ConfigurationLocked);
        }
        let index = match self.slot_index(domain_id) {
            Ok(index) => index,
            Err(error) => return Err(error),
        };
        let ghost domains = self.view_domains();
        let ghost d = domains[index as int];
        assert(domain_valid(d, PDOS, DATAGRAMS));
        if DATAGRAMS == 0 || self.slots[index].datagrams.len() >= DATAGRAMS {
            return Err(DomainRegistryError::DatagramCapacityExceeded);
        }
        let mut j: usize = 0;
        while j < self.slots.len()
            invariant
                j <= domains.len(),
                self.view_domains() == domains,
                forall|a: int, b: int| 0 <= a < j && 0 <= b < domains[a].datagrams.len() ==> (#[trigger] domains[a].datagrams[b]).plan.index != spec.index,
            decreases domains.len() - j,
        {
            let mut k: usize = 0;
            while k < self.slots[j].datagrams.len()
                invariant
                    j < domains.len(),
                    k <= domains[j as int].datagrams.len(),
                    self.view_domains() == domains,
                    forall|a: int, b: int| 0 <= a < j && 0 <= b < domains[a].datagrams.len() ==> (#[trigger] domains[a].datagrams[b]).plan.index != spec.index,
                    forall|b: int| 0 <= b < k ==> (#[trigger] domains[j as int].datagrams[b]).plan.index != spec.index,
                decreases domains[j as int].datagrams.len() - k,
            {
                assert(self.slots[j as int].datagrams@[k as int] == domains[j as int].datagrams[k as int]);
                if self.slots[j].datagrams[k].plan.index == spec.index {
                    assert(index_registered(domains, spec.index));
                    return Err(DomainRegistryError::DuplicateDatagramIndex);
                }
                k = k + 1;
            }
            j = j + 1;
        }
        assert(!index_registered(domains, spec.index));
        if spec.payload_len > 0x07FF {
            return Err(DomainRegistryError::DatagramLengthOutOfBounds);
        }
        let relative_end = match spec.payload_offset.checked_add(spec.payload_len) {
            Some(end) => end,
            None => return Err(DomainRegistryError::DatagramImageOverflow),
        };
        if relative_end > self.slots[index].config.process_image_len {
            return Err(DomainRegistryError::DatagramImageOverflow);
        }
        let absolute_offset = match self.slots[index].config.process_image_offset.checked_add(spec.payload_offset) {
            Some(offset) => offset,
            None => return Err(DomainRegistryError::DatagramImageOverflow),
        };
        let expected_wkc = match self.slots[index].expected_wkc.checked_add(spec.expected_wkc) {
            Some(wkc) => wkc,
            None => return Err(DomainRegistryError::ExpectedWkcOverflow),
        };
        let input_expected_wkc = if spec.input {
            match self.slots[index].input_expected_wkc.checked_add(spec.expected_wkc) {
                Some(wkc) => wkc,
                None => return Err(DomainRegistryError::ExpectedWkcOverflow),
            }
        } else {
            self.slots[index].input_expected_wkc
        };
        let datagram = DomainDatagram {
            plan: DatagramPlan {
                command: spec.command,
                index: spec.index,
                address: spec.address,
                payload_offset: absolute_offset,
                payload_len: spec.payload_len,
                expected_wkc: spec.expected_wkc,
            },
            input: spec.input,
        };
        let mut slot = self.slots.remove(index);
        slot.datagrams.push(datagram);
        slot.expected_wkc = expected_wkc;
        slot.input_expected_wkc = input_expected_wkc;
        self.slots.insert(index, slot);
        assert(self.view_domains() =~= domains.update(index as int, with_datagram(d, spec)));
        Ok(datagram)
    }

    /// The datagrams registered in a domain, in registration order.
    pub fn datagrams(&self, domain_id: u8) -> (result: Result<&[DomainDatagram], DomainRegistryError>)
        requires
            self.wf(),
        ensures
            match spec_find_domain(self.view_domains(), domain_id) {
                None => result matches Err(e) && e == DomainRegistryError::UnknownDomain,
                Some(i) => result matches Ok(datagrams) && datagrams@ == self.view_domains()[i].datagrams,
            },
    {
        let index = match self.slot_index(domain_id) {
            Ok(index) => index,
            Err(error) => return Err(error),
        };
        Ok(self.slots[index].datagrams.as_slice())
    }

    /// The summary of a registered domain.
    pub fn domain(&self, domain_id: u8) -> (result: Result<DomainInfo, DomainRegistryError>)
        requires
            self.wf(),
        ensures
            match spec_find_domain(self.view_domains(), domain_id) {
                None => result == Err::<DomainInfo, DomainRegistryError>(DomainRegistryError::UnknownDomain),
                Some(i) => result == Ok::<DomainInfo, DomainRegistryError>(domain_info(self.view_domains()[i])),
            },
    {
        let index = match self.slot_index(domain_id) {
            Ok(index) => index,
            Err(error) => return Err(error),
        };
        let slot = &self.slots[index];
        assert(domain_valid(self.view_domains()[index as int], PDOS, DATAGRAMS));
        let process_image_end = match slot.config.process_image_offset.checked_add(slot.config.process_image_len) {
            Some(end) => end,
            None => return Err(DomainRegistryError::ProcessImageOverflow),
        };
        let logical_end_value = match logical_end(slot.config) {
            Ok(end) => end,
            Err(error) => return Err(error),
        };
        Ok(DomainInfo {
            config: slot.config,
            pdo_count: slot.pdos.len(),
            datagram_count: slot.datagrams.len(),
            allocated_bits: slot.allocated_bits,
            expected_wkc: slot.expected_wkc,
            input_expected_wkc: slot.input_expected_wkc,
            process_image_end,
            logical_end: logical_end_value,
        })
    }

    /// The configurations of the registered domains, in registration order.
    pub fn domain_configs(&self) -> (configs: Vec<DomainConfig>)
        ensures
            configs@ == self.view_domains().map_values(|d: DomainView| d.config),
    {
        let mut configs: Vec<DomainConfig> = Vec::new();
        let mut i: usize = 0;
        while i < self.slots.len()
            invariant
                i <= self.slots@.len(),
                configs@ == self.view_domains().map_values(|d: DomainView| d.config).subrange(0, i as int),
            decreases self.slots@.len() - i,
        {
            configs.push(self.slots[i].config);
            i = i + 1;
            assert(configs@ =~= self.view_domains().map_values(|d: DomainView| d.config).subrange(0, i as int));
        }
        assert(configs@ =~= self.view_domains().map_values(|d: DomainView| d.config));
        configs
    }

    /// Copy the input-bearing datagrams of a domain into `destination` as
    /// domain segments. A destination too small for all of them is left
    /// untouched.
    pub fn copy_domain_segments(&self, domain_id: u8, destination: &mut [DomainSegment]) -> (result: Result<usize, DomainRegistryError>)
        requires
            self.wf(),
        ensures
            match spec_find_domain(self.view_domains(), domain_id) {
                None => result == Err::<usize, DomainRegistryError>(DomainRegistryError::UnknownDomain)
                    && final(destination)@ == old(destination)@,
                Some(i) => {
                    let d = self.view_domains()[i];
                    let segments = input_segments(d, d.datagrams.len() as int);
                    if old(destination)@.len() < segments.len() {
                        result == Err::<usize, DomainRegistryError>(DomainRegistryError::SegmentCapacityExceeded)
                            && final(destination)@ == old(destination)@
                    } else {
                        result == Ok::<usize, DomainRegistryError>(segments.len() as usize)
                            && final(destination)@ == segments + old(destination)@.subrange(segments.len() as int, old(destination)@.len() as int)
                    }
                },
            },
    {
        let index = match self.slot_index(domain_id) {
            Ok(index) => index,
            Err(error) => return Err(error),
        };
        let slot = &self.slots[index];
        let ghost d = self.view_domains()[index as int];
        assert(domain_valid(d, PDOS, DATAGRAMS));
        let count = slot.datagrams.len();
        let mut required: usize = 0;
        let mut k: usize = 0;
        while k < count
            invariant
                k <= count,
                count == d.datagrams.len(),
                slot.datagrams@ == d.datagrams,
                required == input_segments(d, k as int).len(),
                required <= k,
            decreases count - k,
        {
            let datagram = slot.datagrams[k];
            if datagram.input && datagram.plan.payload_len != 0 {
                required = required + 1;
            }
            k = k + 1;
        }
        if destination.len() < required {
            return Err(DomainRegistryError::SegmentCapacityExceeded);
        }
        let ghost initial = destination@;
        let mut written: usize = 0;
        let mut k: usize = 0;
        while k < count
            invariant
                k <= count,
                count == d.datagrams.len(),
                slot.datagrams@ == d.datagrams,
                slot.config == d.config,
                domain_valid(d, PDOS, DATAGRAMS),
                written == input_segments(d, k as int).len(),
                required == input_segments(d, count as int).len(),
                initial.len() >= required,
                destination@.len() == initial.len(),
                destination@ == input_segments(d, k as int) + initial.subrange(written as int, initial.len() as int),
            decreases count - k,
        {
            proof {
                lemma_input_segments_monotone(d, k as int + 1, count as int);
            }
            let datagram = slot.datagrams[k];
            if datagram.input && datagram.plan.payload_len != 0 {
                assert(d.config.process_image_offset <= d.datagrams[k as int].plan.payload_offset);
                let input_offset = datagram.plan.payload_offset - slot.config.process_image_offset;
                let segment = DomainSegment {
                    datagram_index: datagram.plan.index,
                    input_offset,
                    len: datagram.plan.payload_len,
                    expected_wkc: datagram.plan.expected_wkc,
                };
                let ghost before = destination@;
                destination[written] = segment;
                assert(destination@ =~= input_segments(d, k as int + 1) + initial.subrange(written + 1, initial.len() as int));
                written = written + 1;
            }
            k = k + 1;
        }
        Ok(written)
    }

    /// Append every datagram of a domain to a frame plan. A domain that does
    /// not fit leaves the plan unchanged.
    #[verifier::loop_isolation(false)]
    pub fn append_frame_plan<const PLAN: usize>(&self, domain_id: u8, plan: &mut FramePlan<PLAN>) -> (result: Result<(), DomainRegistryError>)
        requires
            self.wf(),
            old(plan).wf(),
        ensures
            final(plan).wf(),
            match spec_find_domain(self.view_domains(), domain_id) {
                None => result == Err::<(), DomainRegistryError>(DomainRegistryError::UnknownDomain)
                    && final(plan).spec_datagrams() == old(plan).spec_datagrams(),
                Some(i) => {
                    let d = self.view_domains()[i];
                    match spec_push_all(old(plan).spec_datagrams(), PLAN as int, domain_plans(d), d.datagrams.len() as int) {
                        Err(e) => result == Err::<(), DomainRegistryError>(DomainRegistryError::Plan(e))
                            && final(plan).spec_datagrams() == old(plan).spec_datagrams(),
                        Ok(ds) => result is Ok && final(plan).spec_datagrams() == ds,
                    }
                },
            },
    {
        let index = match self.slot_index(domain_id) {
            Ok(index) => index,
            Err(error) => return Err(error),
        };
        let slot = &self.slots[index];
        let ghost d = self.view_domains()[index as int];
        let mut next = plan.duplicate();
        let count = slot.datagrams.len();
        let mut k: usize = 0;
        while k < count
            invariant
                k <= count,
                count == d.datagrams.len(),
                slot.datagrams@ == d.datagrams,
                next.wf(),
                spec_push_all(old(plan).spec_datagrams(), PLAN as int, domain_plans(d), k as int) == Ok::<Seq<DatagramPlan>, PlanError>(next.spec_datagrams()),
                plan.spec_datagrams() == old(plan).spec_datagrams(),
                plan.wf(),
            decreases count - k,
        {
            let datagram = slot.datagrams[k];
            assert(domain_plans(d)[k as int] == datagram.plan);
            match next.push(datagram.plan) {
                Ok(()) => {},
                Err(error) => {
                    proof {
                        lemma_push_all_error_persists(old(plan).spec_datagrams(), PLAN as int, domain_plans(d), k as int + 1, count as int);
                    }
                    return Err(DomainRegistryError::Plan(error));
                },
            }
            k = k + 1;
        }
        *plan = next;
        Ok(())
    }

    /// Append every datagram of a domain to a split frame-plan set, changing
    /// the set only when all of them fit. Returns the number appended.
    pub fn append_frame_plan_set<const FRAMES: usize, const PLAN: usize>(
        &self,
        domain_id: u8,
        plans: &mut FramePlanSet<FRAMES, PLAN>,
    ) -> (result: Result<usize, DomainRegistryError>)
        requires
            self.wf(),
            old(plans).wf(),
        ensures
            final(plans).wf(),
            match spec_find_domain(self.view_domains(), domain_id) {
                None => result == Err::<usize, DomainRegistryError>(DomainRegistryError::UnknownDomain)
                    && final(plans).spec_frames() == old(plans).spec_frames(),
                Some(i) => {
                    let d = self.view_domains()[i];
                    match crate::plan::spec_append_all(old(plans).spec_frames(), FRAMES as int, PLAN as int, domain_plans(d),
                        d.datagrams.len() as int) {
                        Err(e) => result == Err::<usize, DomainRegistryError>(DomainRegistryError::FramePlans(e))
                            && final(plans).spec_frames() == old(plans).spec_frames(),
                        Ok(frames) => result == Ok::<usize, DomainRegistryError>(d.datagrams.len() as usize)
                            && final(plans).spec_frames() == frames,
                    }
                },
            },
    {
        let index = match self.slot_index(domain_id) {
            Ok(index) => index,
            Err(error) => return Err(error),
        };
        let datagrams = self.plans_of(index);
        match plans.append_datagrams(datagrams.as_slice()) {
            Ok(count) => Ok(count),
            Err(error) => Err(DomainRegistryError::FramePlans(error)),
        }
    }

    fn plans_of(&self, index: usize) -> (plans: Vec<DatagramPlan>)
        requires
            index < self.view_domains().len(),
        ensures
            plans@ == domain_plans(self.view_domains()[index as int]),
    {
        let slot = &self.slots[index];
        let mut plans: Vec<DatagramPlan> = Vec::new();
        let mut k: usize = 0;
        while k < slot.datagrams.len()
            invariant
                k <= slot.datagrams@.len(),
                plans@ == slot.datagrams@.map_values(|g: DomainDatagram| g.plan).subrange(0, k as int),
            decreases slot.datagrams@.len() - k,
        {
            plans.push(slot.datagrams[k].plan);
            k = k + 1;
            assert(plans@ =~= slot.datagrams@.map_values(|g: DomainDatagram| g.plan).subrange(0, k as int));
        }
        assert(plans@ =~= slot.datagrams@.map_values(|g: DomainDatagram| g.plan));
        plans
    }

    /// Build the multi-rate schedule of the registered domains without
    /// changing the registry.
    pub fn build_schedule<const SLOTS: usize>(&self, base_tick_ns: u64) -> (result: Result<ScheduleTable<DOMAINS, SLOTS>, DomainRegistryError>)
        requires
            self.wf(),
        ensures
            schedule_outcome(base_tick_ns, self.view_domains(), result),
    {
        if self.slots.len() == 0 {
            return Err(DomainRegistryError::NoDomains);
        }
        let mut domains: Vec<ScheduleDomain> = Vec::new();
        let mut i: usize = 0;
        while i < self.slots.len()
            invariant
                i <= self.slots@.len(),
                domains@ == schedule_domains(self.view_domains()).subrange(0, i as int),
            decreases self.slots@.len() - i,
        {
            let config = self.slots[i].config;
            domains.push(ScheduleDomain { id: config.id, period_ticks: config.period_ticks, phase_ticks: config.phase_ticks });
            i = i + 1;
            assert(domains@ =~= schedule_domains(self.view_domains()).subrange(0, i as int));
        }
        assert(domains@ =~= schedule_domains(self.view_domains()));
        match ScheduleTable::build(base_tick_ns, domains.as_slice()) {
            Ok(table) => Ok(table),
            Err(error) => Err(DomainRegistryError::Schedule(error)),
        }
    }

    /// Freeze the registry and return its schedule. Every domain must own a
    /// datagram; a failed check leaves the registry configuring.
    pub fn activate<const SLOTS: usize>(&mut self, base_tick_ns: u64) -> (result: Result<ScheduleTable<DOMAINS, SLOTS>, DomainRegistryError>)
        requires
            old(self).wf(),
        ensures
            final(self).wf(),
            final(self).view_domains() == old(self).view_domains(),
            final(self).spec_generation() == old(self).spec_generation(),
            old(self).spec_active() ==> (result matches Err(e) && e == DomainRegistryError::ConfigurationLocked),
            !old(self).spec_active() && old(self).view_domains().len() == 0 ==> (result matches Err(e) && e == DomainRegistryError::NoDomains),
            !old(self).spec_active() && old(self).view_domains().len() > 0 && has_empty_domain(old(self).view_domains())
                ==> (result matches Err(e) && e == DomainRegistryError::EmptyDomain),
            !old(self).spec_active() && old(self).view_domains().len() > 0 && !has_empty_domain(old(self).view_domains())
                ==> schedule_outcome(base_tick_ns, old(self).view_domains(), result),
            final(self).spec_active() == (old(self).spec_active() || result is Ok),
    {
        if self.phase == DomainRegistryPhase::Active {
            return Err(DomainRegistryError::ConfigurationLocked);
        }
        if self.slots.len() == 0 {
            return Err(DomainRegistryError::NoDomains);
        }
        if self.any_empty_domain() {
            return Err(DomainRegistryError::EmptyDomain);
        }
        let schedule = match self.build_schedule(base_tick_ns) {
            Ok(schedule) => schedule,
            Err(error) => return Err(error),
        };
        self.phase = DomainRegistryPhase::Active;
        Ok(schedule)
    }

    fn any_empty_domain(&self) -> (empty: bool)
        ensures
            empty == has_empty_domain(self.view_domains()),
    {
        let mut i: usize = 0;
        while i < self.slots.len()
            invariant
                i <= self.slots@.len(),
                forall|k: int| 0 <= k < i ==> (#[trigger] self.view_domains()[k]).datagrams.len() != 0,
            decreases self.slots@.len() - i,
        {
            if self.slots[i].datagrams.len() == 0 {
                assert(self.view_domains()[i as int].datagrams.len() == 0);
                return true;
            }
            i = i + 1;
        }
        false
    }

    /// Build one split frame-plan set per domain into temporary storage,
    /// build the schedule, and only then publish the plans into
    /// `destination` (in registration order) and freeze the registry.
    #[verifier::loop_isolation(false)]
    pub fn activate_with_frame_plans<const SLOTS: usize, const FRAMES: usize, const PLAN: usize>(
        &mut self,
        base_tick_ns: u64,
        destination: &mut [FramePlanSet<FRAMES, PLAN>],
    ) -> (result: Result<ScheduleTable<DOMAINS, SLOTS>, DomainRegistryError>)
        requires
            old(self).wf(),
        ensures
            final(self).wf(),
            final(self).view_domains() == old(self).view_domains(),
            final(self).spec_generation() == old(self).spec_generation(),
            final(self).spec_active() == (old(self).spec_active() || result is Ok),
            result is Err ==> final(destination)@ == old(destination)@,
            ({
                let domains = old(self).view_domains();
                let n = domains.len() as int;
                if old(self).spec_active() {
                    result matches Err(e) && e == DomainRegistryError::ConfigurationLocked
                } else if n == 0 {
                    result matches Err(e) && e == DomainRegistryError::NoDomains
                } else if has_empty_domain(domains) {
                    result matches Err(e) && e == DomainRegistryError::EmptyDomain
                } else if old(destination)@.len() < n {
                    result matches Err(e) && e == DomainRegistryError::ActivationPlanCapacity
                } else if exists|i: int| 0 <= i < n && (#[trigger] old(destination)@[i]).spec_frames().len() != 0 {
                    result matches Err(e) && e == DomainRegistryError::ActivationPlanNotEmpty
                } else {
                    match spec_activation_plans(domains, FRAMES as int, PLAN as int, n) {
                        Err(e) => result matches Err(x) && x == DomainRegistryError::FramePlans(e),
                        Ok(split) => {
                            &&& schedule_outcome(base_tick_ns, domains, result)
                            &&& (result is Ok ==> final(destination)@.len() == old(destination)@.len()
                                && (forall|i: int| 0 <= i < n ==> (#[trigger] final(destination)@[i]).spec_frames() == split[i]
                                    && final(destination)@[i].wf())
                                && (forall|i: int| n <= i < old(destination)@.len() ==> #[trigger] final(destination)@[i] == old(destination)@[i]))
                        },
                    }
                }
            }),
    {
        if self.phase == DomainRegistryPhase::Active {
            return Err(DomainRegistryError::ConfigurationLocked);
        }
        let count = self.slots.len();
        if count == 0 {
            return Err(DomainRegistryError::NoDomains);
        }
        if self.any_empty_domain() {
            return Err(DomainRegistryError::EmptyDomain);
        }
        if destination.len() < count {
            return Err(DomainRegistryError::ActivationPlanCapacity);
        }
        let mut i: usize = 0;
        while i < count
            invariant
                i <= count,
                count <= destination@.len(),
                destination@ == old(destination)@,
                forall|k: int| 0 <= k < i ==> (#[trigger] destination@[k]).spec_frames().len() == 0,
            decreases count - i,
        {
            if !destination[i].is_empty() {
                return Err(DomainRegistryError::ActivationPlanNotEmpty);
            }
            i = i + 1;
        }
        let ghost domains = self.view_domains();
        let mut plans: Vec<FramePlanSet<FRAMES, PLAN>> = Vec::new();
        assert(plans@.map_values(|p: FramePlanSet<FRAMES, PLAN>| p.spec_frames()) =~= Seq::<Seq<Seq<DatagramPlan>>>::empty());
        let mut k: usize = 0;
        while k < count
            invariant
                k <= count,
                count == domains.len(),
                self.view_domains() == domains,
                self.wf(),
                plans@.len() == k,
                forall|m: int| 0 <= m < k ==> (#[trigger] plans@[m]).wf(),
                spec_activation_plans(domains, FRAMES as int, PLAN as int, k as int) == Ok::<Seq<Seq<Seq<DatagramPlan>>>, FramePlanSetError>(
                    plans@.map_values(|p: FramePlanSet<FRAMES, PLAN>| p.spec_frames())),
            decreases count - k,
        {
            let mut split = FramePlanSet::<FRAMES, PLAN>::new();
            let datagrams = self.plans_of(k);
            match split.append_datagrams(datagrams.as_slice()) {
                Ok(_) => {},
                Err(error) => {
                    proof {
                        lemma_activation_error_persists(domains, FRAMES as int, PLAN as int, k as int + 1, count as int);
                    }
                    return Err(DomainRegistryError::FramePlans(error));
                },
            }
            let ghost before = plans@;
            plans.push(split);
            assert(plans@.map_values(|p: FramePlanSet<FRAMES, PLAN>| p.spec_frames()) =~= before.map_values(
                |p: FramePlanSet<FRAMES, PLAN>| p.spec_frames(),
            ).push(split.spec_frames()));
            k = k + 1;
        }
        let schedule = match self.build_schedule(base_tick_ns) {
            Ok(schedule) => schedule,
            Err(error) => return Err(error),
        };
        let ghost split_frames = plans@.map_values(|p: FramePlanSet<FRAMES, PLAN>| p.spec_frames());
        let ghost initial = destination@;
        let mut m: usize = 0;
        while m < count
            invariant
                m <= count,
                count <= initial.len(),
                destination@.len() == initial.len(),
                plans@.len() == count - m,
                forall|j: int| 0 <= j < plans@.len() ==> (#[trigger] plans@[j]).wf() && plans@[j].spec_frames() == split_frames[m + j],
                forall|j: int| 0 <= j < m ==> (#[trigger] destination@[j]).spec_frames() == split_frames[j] && destination@[j].wf(),
                forall|j: int| count <= j < initial.len() ==> #[trigger] destination@[j] == initial[j],
            decreases count - m,
        {
            let split = plans.remove(0);
            destination[m] = split;
            m = m + 1;
        }
        self.phase = DomainRegistryPhase::Active;
        Ok(schedule)
    }

    /// Clear an inactive registry for a new configuration generation, so
    /// handles of the previous one become stale.
    pub fn reset(&mut self) -> (result: Result<(), DomainRegistryError>)
        requires
            old(self).wf(),
        ensures
            final(self).wf(),
            old(self).spec_active() ==> result == Err::<(), DomainRegistryError>(DomainRegistryError::ConfigurationLocked)
                && *final(self) == *old(self),
            !old(self).spec_active() ==> result is Ok && final(self).view_domains() == Seq::<DomainView>::empty()
                && final(self).spec_phase() == DomainRegistryPhase::Configuring
                && final(self).spec_generation() == next_generation(old(self).spec_generation()),
    {
        if self.phase == DomainRegistryPhase::Active {
            return Err(DomainRegistryError::ConfigurationLocked);
        }
        let generation = if self.generation == u16::MAX { 1 } else { self.generation + 1 };
        let mut fresh = Self::new();
        fresh.generation = generation;
        *self = fresh;
        Ok(())
    }
}

/// One process-data segment of a slave's SII description: its direction,
/// its bit offsets in the logical image, in the slave's memory and, already
/// taken into the domain, in the domain's image, and its length in bits.
#[derive(Clone, Copy, Debug, PartialEq, Eq, Structural)]
pub struct SiiSegment {
    pub direction: PdoDirection,
    pub logical_bit_offset: usize,
    pub physical_bit_offset: usize,
    pub domain_bit_offset: usize,
    pub bit_length: usize,
}

/// A slave's validated SII projection into a domain, as plain values: the
/// logical base it was projected to, the process image it needs, the
/// summary of its SM/FMMU mapping and the FMMUs of that mapping, one per
/// segment in segment order, its RX and TX PDO layouts with each entry's bit
/// offset already taken into the domain, and its process-data segments.
pub struct SiiProjection {
    pub logical_base: u32,
    pub process_image_len: usize,
    pub mapping: MappingSummary,
    pub fmmus: Vec<FmmuConfig>,
    pub rx: Vec<PdoEntry>,
    pub tx: Vec<PdoEntry>,
    pub rx_segments: Vec<SiiSegment>,
    pub tx_segments: Vec<SiiSegment>,
}

/// The layout entries of a projection, RX before TX.
pub open spec fn sii_entries(p: SiiProjection) -> Seq<PdoEntry> {
    p.rx@ + p.tx@
}

/// The registration request for one layout entry of the slave at
/// `slave_position`.
pub open spec fn sii_request(slave_position: u16, e: PdoEntry) -> PdoRegistrationRequest {
    PdoRegistrationRequest {
        slave_position,
        index: e.index,
        subindex: e.subindex,
        direction: e.direction,
        bit_length: e.bit_length,
        signed: e.signed,
    }
}

/// The domain after registering it and placing the first `k` entries.
pub open spec fn sii_domain(config: DomainConfig, slave_position: u16, entries: Seq<PdoEntry>, k: int) -> DomainView
    decreases k,
{
    if k <= 0 {
        new_domain(config)
    } else {
        with_pdo(sii_domain(config, slave_position, entries, k - 1), entries[k - 1].bit_offset,
            sii_request(slave_position, entries[k - 1]))
    }
}

/// Why one of the first `k` entries cannot be placed, if one cannot: the
/// first refused entry decides.
pub open spec fn sii_pdo_error(
    config: DomainConfig,
    slave_position: u16,
    entries: Seq<PdoEntry>,
    capacity: usize,
    k: int,
) -> Option<DomainRegistryError>
    decreases k,
{
    if k <= 0 {
        None
    } else {
        match sii_pdo_error(config, slave_position, entries, capacity, k - 1) {
            Some(e) => Some(e),
            None => spec_pdo_error(sii_domain(config, slave_position, entries, k - 1), capacity,
                entries[k - 1].bit_offset, sii_request(slave_position, entries[k - 1])),
        }
    }
}

/// Why a projection cannot be registered, if it cannot: a locked registry,
/// a projection made for another logical base or for a larger image, a
/// domain that cannot be registered, or a layout entry that cannot be
/// placed.
pub open spec fn spec_sii_projection_error(
    active: bool,
    domains: Seq<DomainView>,
    domain_capacity: usize,
    pdo_capacity: usize,
    config: DomainConfig,
    slave_position: u16,
    p: SiiProjection,
) -> Option<DomainRegistryError> {
    if active {
        Some(DomainRegistryError::ConfigurationLocked)
    } else if p.logical_base != config.logical_address {
        Some(DomainRegistryError::SiiLogicalAddressMismatch)
    } else if config.process_image_len < p.process_image_len {
        Some(DomainRegistryError::SiiProcessImageTooSmall)
    } else {
        match spec_register_domain_error(false, domains, domain_capacity, config) {
            Some(e) => Some(e),
            None => sii_pdo_error(config, slave_position, sii_entries(p), pdo_capacity, sii_entries(p).len() as int),
        }
    }
}

/// The segments of a projection, RX before TX.
pub open spec fn sii_segments(p: SiiProjection) -> Seq<SiiSegment> {
    p.rx_segments@ + p.tx_segments@
}

/// The datagram that moves segment `k` of a projection through FMMU `k`, or
/// why there is none: a segment must start and end on whole bytes in the
/// logical image and in the slave's memory, and the FMMU must exist and be
/// as long as the segment. An RX segment is written, a TX segment read into
/// the input image.
pub open spec fn sii_segment_datagram(
    p: SiiProjection,
    segment: SiiSegment,
    k: int,
    spec: SiiSegmentDatagramSpec,
) -> Result<DomainDatagramSpec, DomainRegistryError> {
    if segment.logical_bit_offset % 8 != 0 || segment.physical_bit_offset % 8 != 0 || segment.bit_length == 0
        || segment.bit_length % 8 != 0 {
        Err(DomainRegistryError::SiiSegmentNotByteAddressable)
    } else if k >= p.fmmus@.len() {
        Err(DomainRegistryError::SiiConfiguration(SiiConfigurationError::FmmuCountMismatch))
    } else if p.fmmus@[k].length != segment.bit_length / 8 {
        Err(DomainRegistryError::SiiConfiguration(SiiConfigurationError::FmmuMappingMismatch))
    } else {
        Ok(DomainDatagramSpec {
            command: match segment.direction {
                PdoDirection::Rx => Command::Lwr,
                PdoDirection::Tx => Command::Lrd,
            },
            index: spec.index,
            address: p.fmmus@[k].logical_start,
            payload_offset: segment.domain_bit_offset / 8,
            payload_len: segment.bit_length / 8,
            expected_wkc: spec.expected_wkc,
            input: segment.direction == PdoDirection::Tx,
        })
    }
}

/// The registry after the datagrams of the first `k` segments joined
/// domain `i`.
pub open spec fn sii_datagrams_state(
    domains: Seq<DomainView>,
    i: int,
    p: SiiProjection,
    specs: Seq<SiiSegmentDatagramSpec>,
    k: int,
) -> Seq<DomainView>
    decreases k,
{
    if k <= 0 {
        domains
    } else {
        let before = sii_datagrams_state(domains, i, p, specs, k - 1);
        match sii_segment_datagram(p, sii_segments(p)[k - 1], k - 1, specs[k - 1]) {
            Ok(spec) => before.update(i, with_datagram(before[i], spec)),
            Err(_) => before,
        }
    }
}

/// Why the datagram of one of the first `k` segments cannot join domain
/// `i`, if one cannot: the first refusal decides.
pub open spec fn sii_datagrams_error(
    domains: Seq<DomainView>,
    i: int,
    capacity: usize,
    p: SiiProjection,
    specs: Seq<SiiSegmentDatagramSpec>,
    k: int,
) -> Option<DomainRegistryError>
    decreases k,
{
    if k <= 0 {
        None
    } else {
        match sii_datagrams_error(domains, i, capacity, p, specs, k - 1) {
            Some(e) => Some(e),
            None => match sii_segment_datagram(p, sii_segments(p)[k - 1], k - 1, specs[k - 1]) {
                Err(e) => Some(e),
                Ok(spec) => spec_datagram_error(sii_datagrams_state(domains, i, p, specs, k - 1), i, capacity, spec),
            },
        }
    }
}

/// Why the segment datagrams of a projection cannot join the domain
/// `domain_id`, if they cannot: a locked registry, an unknown domain, a
/// projection made for another logical base or a larger image, a count of
/// datagram specs other than the count of segments, or a refused segment.
pub open spec fn spec_sii_datagrams_error(
    active: bool,
    domains: Seq<DomainView>,
    capacity: usize,
    domain_id: u8,
    p: SiiProjection,
    specs: Seq<SiiSegmentDatagramSpec>,
) -> Option<DomainRegistryError> {
    if active {
        Some(DomainRegistryError::ConfigurationLocked)
    } else {
        match spec_find_domain(domains, domain_id) {
            None => Some(DomainRegistryError::UnknownDomain),
            Some(i) => if domains[i].config.logical_address != p.logical_base {
                Some(DomainRegistryError::SiiLogicalAddressMismatch)
            } else if domains[i].config.process_image_len < p.process_image_len {
                Some(DomainRegistryError::SiiProcessImageTooSmall)
            } else if specs.len() != sii_segments(p).len() {
                Some(DomainRegistryError::SiiDatagramCountMismatch)
            } else {
                sii_datagrams_error(domains, i, capacity, p, specs, specs.len() as int)
            },
        }
    }
}

/// Adding segment datagrams to domain `i` only appends to its datagrams and
/// moves its working counters; every other domain and field stays.
pub proof fn lemma_sii_datagrams_state_shape(
    domains: Seq<DomainView>,
    i: int,
    p: SiiProjection,
    specs: Seq<SiiSegmentDatagramSpec>,
    k: int,
)
    requires
        0 <= i < domains.len(),
    ensures
        ({
            let after = sii_datagrams_state(domains, i, p, specs, k);
            &&& after.len() == domains.len()
            &&& forall|j: int| 0 <= j < domains.len() && j != i ==> after[j] == domains[j]
            &&& after[i].datagrams.len() >= domains[i].datagrams.len()
            &&& after[i].datagrams.subrange(0, domains[i].datagrams.len() as int) == domains[i].datagrams
            &&& after[i] == (DomainView {
                datagrams: after[i].datagrams,
                expected_wkc: after[i].expected_wkc,
                input_expected_wkc: after[i].input_expected_wkc,
                ..domains[i]
            })
        }),
    decreases k,
{
    if k > 0 {
        lemma_sii_datagrams_state_shape(domains, i, p, specs, k - 1);
        let before = sii_datagrams_state(domains, i, p, specs, k - 1);
        let n = domains[i].datagrams.len() as int;
        match sii_segment_datagram(p, sii_segments(p)[k - 1], k - 1, specs[k - 1]) {
            Ok(spec) => {
                let after = before.update(i, with_datagram(before[i], spec));
                assert(after[i].datagrams.subrange(0, n) =~= before[i].datagrams.subrange(0, n));
            },
            Err(_) => {},
        }
    }
}

/// Once a segment is refused, the first refusal stays the answer for every
/// longer prefix.
pub proof fn lemma_sii_datagrams_error_prefix(
    domains: Seq<DomainView>,
    i: int,
    capacity: usize,
    p: SiiProjection,
    specs: Seq<SiiSegmentDatagramSpec>,
    k: int,
    m: int,
)
    requires
        0 < k <= m,
        sii_datagrams_error(domains, i, capacity, p, specs, k) is Some,
    ensures
        sii_datagrams_error(domains, i, capacity, p, specs, m) == sii_datagrams_error(domains, i, capacity, p, specs, k),
    decreases m - k,
{
    if m > k {
        lemma_sii_datagrams_error_prefix(domains, i, capacity, p, specs, k, m - 1);
    }
}

fn segment_datagram(p: &SiiProjection, segment: SiiSegment, k: usize, spec: SiiSegmentDatagramSpec) -> (result: Result<
    DomainDatagramSpec,
    DomainRegistryError,
>)
    ensures
        result == sii_segment_datagram(*p, segment, k as int, spec),
{
    if segment.logical_bit_offset % 8 != 0 || segment.physical_bit_offset % 8 != 0 || segment.bit_length == 0
        || segment.bit_length % 8 != 0 {
        return Err(DomainRegistryError::SiiSegmentNotByteAddressable);
    }
    if k >= p.fmmus.len() {
        return Err(DomainRegistryError::SiiConfiguration(SiiConfigurationError::FmmuCountMismatch));
    }
    let fmmu = p.fmmus[k];
    let payload_len = segment.bit_length / 8;
    if fmmu.length as usize != payload_len {
        return Err(DomainRegistryError::SiiConfiguration(SiiConfigurationError::FmmuMappingMismatch));
    }
    let (command, input) = match segment.direction {
        PdoDirection::Rx => (Command::Lwr, false),
        PdoDirection::Tx => (Command::Lrd, true),
    };
    Ok(DomainDatagramSpec::new(command, spec.index, fmmu.logical_start, segment.domain_bit_offset / 8, payload_len,
        spec.expected_wkc, input))
}

impl<const DOMAINS: usize, const PDOS: usize, const DATAGRAMS: usize> DomainRegistry<DOMAINS, PDOS, DATAGRAMS> {
    /// Drop the most recently registered domain.
    fn remove_last_domain(&mut self)
        requires
            old(self).wf(),
            old(self).view_domains().len() > 0,
        ensures
            final(self).wf(),
            final(self).view_domains() == old(self).view_domains().drop_last(),
            final(self).spec_phase() == old(self).spec_phase(),
            final(self).spec_generation() == old(self).spec_generation(),
    {
        let _ = self.slots.pop();
        assert(self.view_domains() =~= old(self).view_domains().drop_last());
        assert forall|i: int| 0 <= i < self.slots@.len() implies domain_valid(#[trigger] self.view_domains()[i], PDOS,
            DATAGRAMS) by {
            assert(self.view_domains()[i] == old(self).view_domains()[i]);
        }
    }

    /// Register a slave's SII projection as a new domain, as
    /// `register_sii_projection` does, together with one datagram per
    /// process-data segment, as `register_sii_segment_datagrams` does, all at
    /// once: when any step is refused, the registry is left as it was.
    pub fn register_sii_projection_with_datagrams(
        &mut self,
        config: DomainConfig,
        slave_position: u16,
        projection: &SiiProjection,
        specs: &[SiiSegmentDatagramSpec],
    ) -> (result: Result<SiiDomainRegistration, DomainRegistryError>)
        requires
            old(self).wf(),
            projection.rx@.len() + projection.tx@.len() <= usize::MAX,
            projection.rx_segments@.len() + projection.tx_segments@.len() <= usize::MAX,
        ensures
            final(self).wf(),
            final(self).spec_phase() == old(self).spec_phase(),
            final(self).spec_generation() == old(self).spec_generation(),
            ({
                let old_domains = old(self).view_domains();
                let n = old_domains.len() as int;
                let d = sii_domain(config, slave_position, sii_entries(*projection), sii_entries(*projection).len() as int);
                let with_domain = old_domains.push(d);
                match spec_sii_projection_error(old(self).spec_active(), old_domains, DOMAINS, PDOS, config,
                    slave_position, *projection) {
                    Some(e) => result == Err::<SiiDomainRegistration, DomainRegistryError>(e)
                        && final(self).view_domains() == old_domains,
                    None => match spec_sii_datagrams_error(false, with_domain, DATAGRAMS, config.id, *projection, specs@) {
                        Some(e) => result == Err::<SiiDomainRegistration, DomainRegistryError>(e)
                            && final(self).view_domains() == old_domains,
                        None => {
                            let after = sii_datagrams_state(with_domain, n, *projection, specs@, specs@.len() as int);
                            &&& final(self).view_domains() == after
                            &&& result == Ok::<SiiDomainRegistration, DomainRegistryError>(SiiDomainRegistration {
                                domain: domain_info(after[n]),
                                mapping: projection.mapping,
                                process_image_len: projection.process_image_len,
                                rx_pdo_count: projection.rx@.len() as usize,
                                tx_pdo_count: projection.tx@.len() as usize,
                                segment_count: (projection.rx_segments@.len() + projection.tx_segments@.len()) as usize,
                            })
                        },
                    },
                }
            }),
    {
        let ghost old_domains = self.view_domains();
        let ghost n = old_domains.len() as int;
        let mut registration = match self.register_sii_projection(config, slave_position, projection) {
            Ok(registration) => registration,
            Err(error) => return Err(error),
        };
        let ghost with_domain = self.view_domains();
        proof {
            lemma_sii_domain_config(config, slave_position, sii_entries(*projection), sii_entries(*projection).len()
                as int);
            assert(with_domain[n].config.id == config.id);
            let f = spec_find_domain(with_domain, config.id)->Some_0;
            assert(spec_find_domain(with_domain, config.id) is Some);
            if f != n {
                if f < n {
                    assert(with_domain[f].config.id != with_domain[n].config.id);
                } else {
                    assert(with_domain[n].config.id != with_domain[f].config.id);
                }
            }
        }
        match self.register_sii_segment_datagrams(config.id, projection, specs) {
            Ok(_) => {},
            Err(error) => {
                self.remove_last_domain();
                assert(self.view_domains() =~= old_domains);
                return Err(error);
            },
        }
        let ghost after = self.view_domains();
        proof {
            lemma_sii_datagrams_state_shape(with_domain, n, *projection, specs@, specs@.len() as int);
            assert(after[n].config.id == config.id);
            let f = spec_find_domain(after, config.id)->Some_0;
            assert(spec_find_domain(after, config.id) is Some);
            if f != n {
                if f < n {
                    assert(after[f].config.id != after[n].config.id);
                } else {
                    assert(after[n].config.id != after[f].config.id);
                }
            }
        }
        registration.domain = match self.domain(config.id) {
            Ok(domain) => domain,
            Err(error) => return Err(error),
        };
        Ok(registration)
    }

    /// Cut domain `i` back to its first `count` datagrams and the given
    /// working counters, giving the registry `saved`.
    fn restore_domain(&mut self, i: usize, count: usize, expected_wkc: u16, input_expected_wkc: u16, saved: Ghost<
        Seq<DomainView>,
    >)
        requires
            old(self).wf(),
            i < old(self).view_domains().len(),
            count <= old(self).view_domains()[i as int].datagrams.len(),
            saved@ == old(self).view_domains().update(i as int, DomainView {
                datagrams: old(self).view_domains()[i as int].datagrams.subrange(0, count as int),
                expected_wkc,
                input_expected_wkc,
                ..old(self).view_domains()[i as int]
            }),
            distinct_ids(saved@),
            forall|j: int| 0 <= j < saved@.len() ==> domain_valid(#[trigger] saved@[j], PDOS, DATAGRAMS),
        ensures
            final(self).wf(),
            final(self).view_domains() == saved@,
            final(self).spec_phase() == old(self).spec_phase(),
            final(self).spec_generation() == old(self).spec_generation(),
    {
        let mut slot = self.slots.remove(i);
        slot.datagrams.truncate(count);
        slot.expected_wkc = expected_wkc;
        slot.input_expected_wkc = input_expected_wkc;
        self.slots.insert(i, slot);
        assert(self.view_domains() =~= saved@);
    }

    /// Register one logical datagram per process-data segment of a slave's
    /// SII projection in the domain `domain_id`, RX segments before TX
    /// segments, segment `k` through FMMU `k` with `specs[k]`, all at once:
    /// when any segment is refused, the registry is left as it was. Returns
    /// the number of datagrams registered.
    pub fn register_sii_segment_datagrams(
        &mut self,
        domain_id: u8,
        projection: &SiiProjection,
        specs: &[SiiSegmentDatagramSpec],
    ) -> (result: Result<usize, DomainRegistryError>)
        requires
            old(self).wf(),
            projection.rx_segments@.len() + projection.tx_segments@.len() <= usize::MAX,
        ensures
            final(self).wf(),
            final(self).spec_phase() == old(self).spec_phase(),
            final(self).spec_generation() == old(self).spec_generation(),
            match spec_sii_datagrams_error(old(self).spec_active(), old(self).view_domains(), DATAGRAMS, domain_id,
                *projection, specs@) {
                Some(e) => result == Err::<usize, DomainRegistryError>(e) && final(self).view_domains() == old(
                    self,
                ).view_domains(),
                None => result == Ok::<usize, DomainRegistryError>(specs@.len() as usize) && final(self).view_domains()
                    == sii_datagrams_state(old(self).view_domains(), spec_find_domain(old(self).view_domains(),
                    domain_id)->Some_0, *projection, specs@, specs@.len() as int),
            },
    {
        if self.phase == DomainRegistryPhase::Active {
            return Err(DomainRegistryError::ConfigurationLocked);
        }
        let index = match self.slot_index(domain_id) {
            Ok(index) => index,
            Err(error) => return Err(error),
        };
        let ghost domains = self.view_domains();
        let ghost i = index as int;
        if self.slots[index].config.logical_address != projection.logical_base {
            return Err(DomainRegistryError::SiiLogicalAddressMismatch);
        }
        if self.slots[index].config.process_image_len < projection.process_image_len {
            return Err(DomainRegistryError::SiiProcessImageTooSmall);
        }
        let rx_count = projection.rx_segments.len();
        let segment_count = rx_count + projection.tx_segments.len();
        if specs.len() != segment_count {
            return Err(DomainRegistryError::SiiDatagramCountMismatch);
        }
        let ghost segments = sii_segments(*projection);
        let count = self.slots[index].datagrams.len();
        let expected_wkc = self.slots[index].expected_wkc;
        let input_expected_wkc = self.slots[index].input_expected_wkc;
        proof {
            assert(domains[i].datagrams.subrange(0, count as int) =~= domains[i].datagrams);
            assert(domains.update(i, DomainView {
                datagrams: domains[i].datagrams.subrange(0, count as int),
                expected_wkc,
                input_expected_wkc,
                ..domains[i]
            }) =~= domains);
        }
        let mut k: usize = 0;
        while k < segment_count
            invariant
                self.wf(),
                !self.spec_active(),
                self.spec_phase() == old(self).spec_phase(),
                self.spec_generation() == old(self).spec_generation(),
                domains == old(self).view_domains(),
                distinct_ids(domains),
                forall|j: int| 0 <= j < domains.len() ==> domain_valid(#[trigger] domains[j], PDOS, DATAGRAMS),
                0 <= i < domains.len(),
                spec_find_domain(domains, domain_id) == Some(i),
                domains[i].config.id == domain_id,
                domains[i].config.logical_address == projection.logical_base,
                domains[i].config.process_image_len >= projection.process_image_len,
                index as int == i,
                count == domains[i].datagrams.len(),
                expected_wkc == domains[i].expected_wkc,
                input_expected_wkc == domains[i].input_expected_wkc,
                rx_count == projection.rx_segments@.len(),
                segment_count == segments.len(),
                segments == sii_segments(*projection),
                specs@.len() == segment_count,
                k <= segment_count,
                sii_datagrams_error(domains, i, DATAGRAMS, *projection, specs@, k as int) is None,
                self.view_domains() == sii_datagrams_state(domains, i, *projection, specs@, k as int),
            decreases segment_count - k,
        {
            let segment = if k < rx_count {
                projection.rx_segments[k]
            } else {
                projection.tx_segments[k - rx_count]
            };
            assert(segment == segments[k as int]);
            proof {
                lemma_sii_datagrams_state_shape(domains, i, *projection, specs@, k as int);
            }
            let ghost current = self.view_domains();
            let failed = match segment_datagram(projection, segment, k, specs[k]) {
                Err(error) => Some(error),
                Ok(spec) => {
                    proof {
                        assert(current[i].config.id == domain_id);
                        let f = spec_find_domain(current, domain_id)->Some_0;
                        assert(spec_find_domain(current, domain_id) is Some);
                        if f != i {
                            if f < i {
                                assert(current[f].config.id != current[i].config.id);
                            } else {
                                assert(current[i].config.id != current[f].config.id);
                            }
                        }
                    }
                    match self.register_datagram(domain_id, spec) {
                        Ok(_) => None,
                        Err(error) => Some(error),
                    }
                },
            };
            if let Some(error) = failed {
                proof {
                    assert(sii_datagrams_error(domains, i, DATAGRAMS, *projection, specs@, k as int + 1) == Some(error));
                    lemma_sii_datagrams_error_prefix(domains, i, DATAGRAMS, *projection, specs@, k as int + 1,
                        specs@.len() as int);
                    lemma_sii_datagrams_state_shape(domains, i, *projection, specs@, k as int);
                    assert(self.view_domains().update(i, DomainView {
                        datagrams: self.view_domains()[i].datagrams.subrange(0, count as int),
                        expected_wkc,
                        input_expected_wkc,
                        ..self.view_domains()[i]
                    }) =~= domains);
                }
                self.restore_domain(index, count, expected_wkc, input_expected_wkc, Ghost(domains));
                return Err(error);
            }
            k = k + 1;
        }
        Ok(segment_count)
    }

    /// Place one layout entry in the domain of `config`, the last one
    /// registered.
    fn place_sii_entry(&mut self, config: DomainConfig, slave_position: u16, entry: PdoEntry) -> (result: Result<
        (),
        DomainRegistryError,
    >)
        requires
            old(self).wf(),
            !old(self).spec_active(),
            old(self).view_domains().len() > 0,
            old(self).view_domains().last().config.id == config.id,
        ensures
            final(self).wf(),
            final(self).spec_phase() == old(self).spec_phase(),
            final(self).spec_generation() == old(self).spec_generation(),
            ({
                let n = old(self).view_domains().len() - 1;
                let d = old(self).view_domains()[n];
                match spec_pdo_error(d, PDOS, entry.bit_offset, sii_request(slave_position, entry)) {
                    Some(e) => result == Err::<(), DomainRegistryError>(e) && final(self).view_domains() == old(
                        self,
                    ).view_domains(),
                    None => result is Ok && final(self).view_domains() == old(self).view_domains().update(n,
                        with_pdo(d, entry.bit_offset, sii_request(slave_position, entry))),
                }
            }),
    {
        let ghost domains = self.view_domains();
        let ghost n = domains.len() - 1;
        proof {
            assert(domains[n].config.id == config.id);
            let i = spec_find_domain(domains, config.id)->Some_0;
            assert(spec_find_domain(domains, config.id) is Some);
            if i != n {
                if i < n {
                    assert(domains[i].config.id != domains[n].config.id);
                } else {
                    assert(domains[n].config.id != domains[i].config.id);
                }
            }
        }
        let request = PdoRegistrationRequest::new(slave_position, entry.index, entry.subindex, entry.direction,
            entry.bit_length, entry.signed);
        match self.register_pdo_at(config.id, entry.bit_offset, request) {
            Ok(_) => Ok(()),
            Err(error) => Err(error),
        }
    }

    /// Register a domain for `config` with every PDO of a slave's validated
    /// SII projection, RX entries before TX entries, all at once: when any
    /// step is refused, the registry is left as it was.
    pub fn register_sii_projection(
        &mut self,
        config: DomainConfig,
        slave_position: u16,
        projection: &SiiProjection,
    ) -> (result: Result<SiiDomainRegistration, DomainRegistryError>)
        requires
            old(self).wf(),
            projection.rx@.len() + projection.tx@.len() <= usize::MAX,
            projection.rx_segments@.len() + projection.tx_segments@.len() <= usize::MAX,
        ensures
            final(self).wf(),
            final(self).spec_phase() == old(self).spec_phase(),
            final(self).spec_generation() == old(self).spec_generation(),
            match spec_sii_projection_error(old(self).spec_active(), old(self).view_domains(), DOMAINS, PDOS, config,
                slave_position, *projection) {
                Some(e) => result == Err::<SiiDomainRegistration, DomainRegistryError>(e)
                    && final(self).view_domains() == old(self).view_domains(),
                None => {
                    let d = sii_domain(config, slave_position, sii_entries(*projection),
                        sii_entries(*projection).len() as int);
                    &&& final(self).view_domains() == old(self).view_domains().push(d)
                    &&& result == Ok::<SiiDomainRegistration, DomainRegistryError>(SiiDomainRegistration {
                        domain: domain_info(d),
                        mapping: projection.mapping,
                        process_image_len: projection.process_image_len,
                        rx_pdo_count: projection.rx@.len() as usize,
                        tx_pdo_count: projection.tx@.len() as usize,
                        segment_count: (projection.rx_segments@.len() + projection.tx_segments@.len()) as usize,
                    })
                },
            },
    {
        if self.phase == DomainRegistryPhase::Active {
            return Err(DomainRegistryError::ConfigurationLocked);
        }
        if projection.logical_base != config.logical_address {
            return Err(DomainRegistryError::SiiLogicalAddressMismatch);
        }
        if config.process_image_len < projection.process_image_len {
            return Err(DomainRegistryError::SiiProcessImageTooSmall);
        }
        let ghost old_domains = self.view_domains();
        let ghost entries = sii_entries(*projection);
        match self.register_domain(config) {
            Ok(()) => {},
            Err(error) => return Err(error),
        }
        let rx_len = projection.rx.len();
        let tx_len = projection.tx.len();
        let mut k: usize = 0;
        while k < rx_len + tx_len
            invariant
                self.wf(),
                !self.spec_active(),
                self.spec_phase() == old(self).spec_phase(),
                self.spec_generation() == old(self).spec_generation(),
                rx_len == projection.rx@.len(),
                tx_len == projection.tx@.len(),
                projection.rx@.len() + projection.tx@.len() <= usize::MAX,
                !old(self).spec_active(),
                old_domains == old(self).view_domains(),
                projection.logical_base == config.logical_address,
                config.process_image_len >= projection.process_image_len,
                spec_register_domain_error(false, old_domains, DOMAINS, config) is None,
                entries == projection.rx@ + projection.tx@,
                k <= entries.len(),
                sii_pdo_error(config, slave_position, entries, PDOS, k as int) is None,
                self.view_domains() == old_domains.push(sii_domain(config, slave_position, entries, k as int)),
            decreases entries.len() - k,
        {
            let entry = if k < rx_len {
                projection.rx[k]
            } else {
                projection.tx[k - rx_len]
            };
            assert(entry == entries[k as int]);
            assert(self.view_domains().last() == sii_domain(config, slave_position, entries, k as int));
            proof {
                lemma_sii_domain_config(config, slave_position, entries, k as int);
            }
            match self.place_sii_entry(config, slave_position, entry) {
                Ok(()) => {
                    assert(self.view_domains() =~= old_domains.push(sii_domain(config, slave_position, entries,
                        k + 1)));
                },
                Err(error) => {
                    proof {
                        assert(sii_pdo_error(config, slave_position, entries, PDOS, k as int + 1) == Some(error));
                        lemma_sii_pdo_error_prefix(config, slave_position, entries, PDOS, k as int + 1,
                            entries.len() as int);
                    }
                    self.remove_last_domain();
                    assert(self.view_domains() =~= old_domains);
                    return Err(error);
                },
            }
            k = k + 1;
        }
        let ghost d = sii_domain(config, slave_position, entries, entries.len() as int);
        proof {
            lemma_sii_domain_config(config, slave_position, entries, entries.len() as int);
            assert(self.view_domains()[old_domains.len() as int] == d);
        }
        let domain = match self.domain(config.id) {
            Ok(domain) => domain,
            Err(error) => {
                proof {
                    assert(self.view_domains()[old_domains.len() as int].config.id == config.id);
                }
                return Err(error);
            },
        };
        proof {
            let i = spec_find_domain(self.view_domains(), config.id)->Some_0;
            let n = old_domains.len() as int;
            assert(self.view_domains()[n].config.id == config.id);
            assert(spec_find_domain(self.view_domains(), config.id) is Some);
            if i != n {
                if i < n {
                    assert(self.view_domains()[i].config.id != self.view_domains()[n].config.id);
                } else {
                    assert(self.view_domains()[n].config.id != self.view_domains()[i].config.id);
                }
            }
        }
        Ok(SiiDomainRegistration {
            domain,
            mapping: projection.mapping,
            process_image_len: projection.process_image_len,
            rx_pdo_count: rx_len,
            tx_pdo_count: tx_len,
            segment_count: projection.rx_segments.len() + projection.tx_segments.len(),
        })
    }
}

/// Placing entries keeps the domain's configuration.
pub proof fn lemma_sii_domain_config(config: DomainConfig, slave_position: u16, entries: Seq<PdoEntry>, k: int)
    ensures
        sii_domain(config, slave_position, entries, k).config == config,
    decreases k,
{
    if k > 0 {
        lemma_sii_domain_config(config, slave_position, entries, k - 1);
    }
}

/// Once an entry is refused, the first refusal stays the answer for every
/// longer prefix.
pub proof fn lemma_sii_pdo_error_prefix(
    config: DomainConfig,
    slave_position: u16,
    entries: Seq<PdoEntry>,
    capacity: usize,
    k: int,
    m: int,
)
    requires
        0 < k <= m,
        sii_pdo_error(config, slave_position, entries, capacity, k) is Some,
    ensures
        sii_pdo_error(config, slave_position, entries, capacity, m) == sii_pdo_error(config, slave_position, entries,
            capacity, k),
    decreases m - k,
{
    if m > k {
        lemma_sii_pdo_error_prefix(config, slave_position, entries, capacity, k, m - 1);
    }
}

impl<const DOMAINS: usize, const PDOS: usize, const DATAGRAMS: usize> Default for DomainRegistry<DOMAINS, PDOS, DATAGRAMS> {
    fn default() -> (registry: Self)
        ensures
            registry.wf(),
            registry.view_domains() == Seq::<DomainView>::empty(),
            registry.spec_phase() == DomainRegistryPhase::Configuring,
            registry.spec_generation() == 1,
    {
        Self::new()
    }
}

} // verus!
