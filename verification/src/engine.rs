//! Cyclic master engine: RX dispatch of verified datagrams to consumers.
use vstd::prelude::*;
use crate::control::{ControlError, ControlRequestPool, RequestHandle};
use crate::diag::{wrapping_increment, Diagnostics, EventCode, EventRecord, EventSeverity};
use crate::dma::{DmaCacheOps, DmaDescriptorRing, DmaRingError, DmaTxHandle};
use crate::mailbox::saturating_add_u64;
use crate::frame_pool::{FrameHandle, FramePool, FramePoolError, FrameSlot};
use crate::plan::{DatagramPlan, FramePlan, PlanError};
use crate::port::{EthercatDmaTxPort, EthercatPort, LinkState, PortPoll, RxPoll};
use crate::ring::is_power_of_two;
use crate::rx_index::{
    spec_response_check, RxExpectation, RxIndexEntry, RxIndexError, RxIndexTable, RxMatch,
    RxResponse, RxSlotState,
};
use crate::wire::{
    decoded_view, lemma_decode_chain_error_last, lemma_decode_chain_len, spec_decode_chain,
    spec_parse_frame, Datagram, DatagramHeader, DecodedDatagram, FrameBuilder, FrameView,
    WireError, MAX_ETHERNET_FRAME_LEN,
};

verus! {

/// A sink for datagrams that passed RX validation.
///
/// `accept` returns false when the datagram cannot be consumed by the
/// implementor's staging model; the master counts such rejections apart from
/// wire corruption because the frame itself was valid. `cycle` and
/// `received_at_ns` are the values the master captured at the RX boundary.
pub trait RxDatagramConsumer {
    /// The consumer's own invariant, kept by every `accept`; none unless the
    /// consumer states one.
    open spec fn consumer_ready(&self) -> bool {
        true
    }

    /// Whether the consumer keeps a log of the datagrams offered to it; a
    /// consumer that does records every `accept` in `offered`.
    open spec fn logs_offers(&self) -> bool {
        false
    }

    /// The datagrams offered so far, oldest first, when `logs_offers`.
    open spec fn offered(&self) -> Seq<RxOffer> {
        Seq::empty()
    }

    fn accept(
        &mut self,
        cycle: u64,
        received_at_ns: u64,
        completion: RxMatch,
        header: DatagramHeader,
        payload: &[u8],
    ) -> (accepted: bool)
        requires
            old(self).consumer_ready(),
        ensures
            final(self).consumer_ready(),
            old(self).logs_offers() ==> final(self).logs_offers() && final(self).offered() == old(self).offered().push(
                RxOffer { cycle, received_at_ns, completion, header, payload: payload@ },
            ),
    ;
}

/// One datagram offered to a consumer, with the arguments of the offer.
pub struct RxOffer {
    pub cycle: u64,
    pub received_at_ns: u64,
    pub completion: RxMatch,
    pub header: DatagramHeader,
    pub payload: Seq<u8>,
}

/// The consumer that takes every datagram.
impl RxDatagramConsumer for () {
    open spec fn consumer_ready(&self) -> bool {
        true
    }

    fn accept(
        &mut self,
        cycle: u64,
        received_at_ns: u64,
        completion: RxMatch,
        header: DatagramHeader,
        payload: &[u8],
    ) -> (accepted: bool)
        ensures
            accepted,
    {
        true
    }
}

/// Routes verified datagrams to the first of two consumers that accepts
/// them. The consumers must own disjoint datagram-index sets; a static pair
/// keeps dispatch allocation-free with a fixed bound.
pub struct RxConsumerMux<FIRST, SECOND> {
    first: FIRST,
    second: SECOND,
}

impl<FIRST, SECOND> RxConsumerMux<FIRST, SECOND> {
    pub closed spec fn spec_first(&self) -> FIRST {
        self.first
    }

    pub closed spec fn spec_second(&self) -> SECOND {
        self.second
    }

    pub fn new(first: FIRST, second: SECOND) -> (mux: Self)
        ensures
            mux.spec_first() == first,
            mux.spec_second() == second,
    {
        RxConsumerMux { first, second }
    }

    pub fn first(&self) -> (first: &FIRST)
        ensures
            *first == self.spec_first(),
    {
        &self.first
    }

    pub fn first_mut(&mut self) -> (first: &mut FIRST)
        ensures
            *first == old(self).spec_first(),
            final(self).spec_first() == *final(first),
            final(self).spec_second() == old(self).spec_second(),
    {
        &mut self.first
    }

    pub fn second(&self) -> (second: &SECOND)
        ensures
            *second == self.spec_second(),
    {
        &self.second
    }

    pub fn second_mut(&mut self) -> (second: &mut SECOND)
        ensures
            *second == old(self).spec_second(),
            final(self).spec_second() == *final(second),
            final(self).spec_first() == old(self).spec_first(),
    {
        &mut self.second
    }

    pub fn into_inner(self) -> (parts: (FIRST, SECOND))
        ensures
            parts == (self.spec_first(), self.spec_second()),
    {
        (self.first, self.second)
    }
}

impl<FIRST: RxDatagramConsumer, SECOND: RxDatagramConsumer> RxDatagramConsumer for RxConsumerMux<
    FIRST,
    SECOND,
> {
    open spec fn consumer_ready(&self) -> bool {
        self.spec_first().consumer_ready() && self.spec_second().consumer_ready()
    }

    /// Offer the datagram to the first consumer, then, if it declines, to
    /// the second.
    fn accept(
        &mut self,
        cycle: u64,
        received_at_ns: u64,
        completion: RxMatch,
        header: DatagramHeader,
        payload: &[u8],
    ) -> (accepted: bool) {
        if self.first.accept(cycle, received_at_ns, completion, header, payload) {
            true
        } else {
            self.second.accept(cycle, received_at_ns, completion, header, payload)
        }
    }
}


#[derive(Clone, Copy, Debug, PartialEq, Eq)]
pub struct MasterConfig {
    pub destination_mac: [u8; 6],
    pub source_mac: [u8; 6],
    pub rx_budget_frames: usize,
    pub rx_budget_bytes: usize,
    pub rx_budget_ns: u64,
}

impl MasterConfig {
    /// A configuration with the default receive budgets: eight frames, eight
    /// maximum-size frames' worth of bytes and 50 microseconds.
    pub fn new(destination_mac: [u8; 6], source_mac: [u8; 6]) -> (config: Self)
        ensures
            config == (MasterConfig {
                destination_mac,
                source_mac,
                rx_budget_frames: 8,
                rx_budget_bytes: (8 * MAX_ETHERNET_FRAME_LEN) as usize,
                rx_budget_ns: 50_000,
            }),
    {
        MasterConfig {
            destination_mac,
            source_mac,
            rx_budget_frames: 8,
            rx_budget_bytes: 8 * MAX_ETHERNET_FRAME_LEN,
            rx_budget_ns: 50_000,
        }
    }
}

#[derive(Clone, Copy, Debug, PartialEq, Eq, Structural)]
pub struct CycleReport {
    pub cycle: u64,
    pub received_frames: usize,
    pub received_bytes: usize,
    pub parsed_datagrams: usize,
    pub unmatched_datagrams: usize,
    pub corrupt_frames: usize,
    pub wkc_mismatches: usize,
    pub timed_out_datagrams: usize,
    pub consumer_rejections: usize,
    pub budget_exhausted: bool,
    pub link_down: bool,
}

/// A report with every count at zero.
pub open spec fn empty_report(cycle: u64) -> CycleReport {
    CycleReport {
        cycle,
        received_frames: 0,
        received_bytes: 0,
        parsed_datagrams: 0,
        unmatched_datagrams: 0,
        corrupt_frames: 0,
        wkc_mismatches: 0,
        timed_out_datagrams: 0,
        consumer_rejections: 0,
        budget_exhausted: false,
        link_down: false,
    }
}

/// Headroom a report's datagram counters keep below the top of `usize`:
/// more than one frame and one table expiry can add.
pub const REPORT_HEADROOM: usize = 0x1000;

/// Every datagram counter of `r` has room for another frame's worth of
/// datagrams and an expiry of the whole index table.
pub open spec fn report_has_room(r: CycleReport) -> bool {
    &&& r.parsed_datagrams <= usize::MAX - REPORT_HEADROOM
    &&& r.unmatched_datagrams <= usize::MAX - REPORT_HEADROOM
    &&& r.corrupt_frames <= usize::MAX - REPORT_HEADROOM
    &&& r.wkc_mismatches <= usize::MAX - REPORT_HEADROOM
    &&& r.timed_out_datagrams <= usize::MAX - REPORT_HEADROOM
    &&& r.consumer_rejections <= usize::MAX - REPORT_HEADROOM
}

impl CycleReport {
    fn new(cycle: u64) -> (report: Self)
        ensures
            report == empty_report(cycle),
    {
        CycleReport {
            cycle,
            received_frames: 0,
            received_bytes: 0,
            parsed_datagrams: 0,
            unmatched_datagrams: 0,
            corrupt_frames: 0,
            wkc_mismatches: 0,
            timed_out_datagrams: 0,
            consumer_rejections: 0,
            budget_exhausted: false,
            link_down: false,
        }
    }

    /// Whether another frame may be counted into this report without a
    /// counter overflowing.
    pub fn has_room(&self) -> (room: bool)
        ensures
            room == report_has_room(*self),
    {
        let limit = usize::MAX - REPORT_HEADROOM;
        self.parsed_datagrams <= limit && self.unmatched_datagrams <= limit && self.corrupt_frames
            <= limit && self.wkc_mismatches <= limit && self.timed_out_datagrams <= limit
            && self.consumer_rejections <= limit
    }
}

#[derive(Clone, Copy, Debug, PartialEq, Eq)]
pub enum CycleError<E> {
    Port(E),
    Control(ControlError),
    Wire(WireError),
    FramePool(FramePoolError),
    Plan(PlanError),
    RxIndex(RxIndexError),
    Dma(DmaRingError),
    InvalidFrameLength,
}

/// Capacity of the master's diagnostic event queue.
pub const DIAGNOSTIC_EVENTS: usize = 64;

/// The receive-side state a frame acts on: the RX index entries, the cycle
/// report, the queued diagnostic events and the lost-event count.
pub struct RxState {
    pub entries: Seq<RxIndexEntry>,
    pub report: CycleReport,
    pub events: Seq<EventRecord>,
    pub lost: usize,
}

pub open spec fn event(
    cycle: u64,
    timestamp_ns: u64,
    code: EventCode,
    severity: EventSeverity,
    index: u8,
    value: u32,
    aux: u32,
) -> EventRecord {
    EventRecord { cycle, timestamp_ns, code, severity, index, reserved: 0, value, aux }
}

/// The state after the diagnostic queue records `e`: queued while there is
/// room, otherwise counted as lost.
pub open spec fn record_event(s: RxState, e: EventRecord) -> RxState {
    if s.events.len() < DIAGNOSTIC_EVENTS {
        RxState { events: s.events.push(e), ..s }
    } else {
        RxState { lost: wrapping_increment(s.lost), ..s }
    }
}

pub open spec fn bump(count: usize) -> usize {
    (count + 1) as usize
}

pub open spec fn with_report(s: RxState, report: CycleReport) -> RxState {
    RxState { report, ..s }
}

/// What one decoded datagram does to the receive state. A datagram whose
/// index is not armed is unmatched; an armed one is checked against its
/// expectation, completing or rejecting the entry. `accepted` is the
/// consumer's answer for a completed datagram.
pub open spec fn rx_datagram_step(
    s: RxState,
    d: Result<DecodedDatagram, WireError>,
    generation: u16,
    cycle: u64,
    at: u64,
    accepted: bool,
) -> RxState {
    match d {
        Err(_) => record_event(
            with_report(s, CycleReport { corrupt_frames: bump(s.report.corrupt_frames), ..s.report }),
            event(cycle, at, EventCode::FrameCorrupt, EventSeverity::Error, 0, 0, 0),
        ),
        Ok((header, payload, wkc)) => {
            let r = CycleReport { parsed_datagrams: bump(s.report.parsed_datagrams), ..s.report };
            let entry = s.entries[header.index as int];
            if entry.state != RxSlotState::Armed {
                record_event(
                    with_report(s, CycleReport { unmatched_datagrams: bump(r.unmatched_datagrams), ..r }),
                    event(cycle, at, EventCode::RxUnmatched, EventSeverity::Warning, header.index, entry.state.spec_code() as u32, 0),
                )
            } else {
                let response = RxResponse {
                    generation,
                    address: header.address,
                    payload_size: payload.len() as u16,
                    command: header.command.spec_code(),
                    working_counter: wkc,
                    received_at_ns: at,
                };
                match spec_response_check(entry, response) {
                    None => {
                        let done = RxState {
                            entries: s.entries.update(header.index as int, RxIndexEntry { state: RxSlotState::Complete, ..entry }),
                            report: r,
                            ..s
                        };
                        if accepted {
                            done
                        } else {
                            record_event(
                                with_report(done, CycleReport { consumer_rejections: bump(r.consumer_rejections), ..r }),
                                event(cycle, at, EventCode::ConsumerRejected, EventSeverity::Error, header.index, wkc as u32, 0),
                            )
                        }
                    },
                    Some(e) => {
                        let rejected = RxState {
                            entries: s.entries.update(header.index as int, RxIndexEntry { state: RxSlotState::Rejected, ..entry }),
                            report: r,
                            ..s
                        };
                        match e {
                            RxIndexError::WorkingCounterMismatch => record_event(
                                with_report(rejected, CycleReport { wkc_mismatches: bump(r.wkc_mismatches), ..r }),
                                event(cycle, at, EventCode::WorkingCounterMismatch, EventSeverity::Error, header.index, entry.expected_wkc as u32, wkc as u32),
                            ),
                            RxIndexError::DeadlineExceeded => record_event(
                                with_report(rejected, CycleReport { timed_out_datagrams: bump(r.timed_out_datagrams), ..r }),
                                event(cycle, at, EventCode::RxTimeout, EventSeverity::Error, header.index, 0, 0),
                            ),
                            RxIndexError::UnknownIndex | RxIndexError::NotArmed => record_event(
                                with_report(rejected, CycleReport { unmatched_datagrams: bump(r.unmatched_datagrams), ..r }),
                                event(cycle, at, EventCode::RxUnmatched, EventSeverity::Warning, header.index, entry.state.spec_code() as u32, 0),
                            ),
                            _ => record_event(
                                with_report(rejected, CycleReport { corrupt_frames: bump(r.corrupt_frames), ..r }),
                                event(cycle, at, EventCode::FrameCorrupt, EventSeverity::Error, header.index, 0, 0),
                            ),
                        }
                    },
                }
            }
        },
    }
}

/// The receive state after the first `k` datagrams of `chain`.
pub open spec fn rx_chain_outcome(
    s: RxState,
    chain: Seq<Result<DecodedDatagram, WireError>>,
    generation: u16,
    cycle: u64,
    at: u64,
    accepted: Seq<bool>,
    k: int,
) -> RxState
    decreases k,
{
    if k <= 0 {
        s
    } else {
        rx_datagram_step(
            rx_chain_outcome(s, chain, generation, cycle, at, accepted, k - 1),
            chain[k - 1],
            generation,
            cycle,
            at,
            accepted[k - 1],
        )
    }
}

/// The receive state after one frame: a frame whose headers do not parse is
/// counted corrupt; otherwise each datagram of its chain is applied in turn.
pub open spec fn rx_frame_outcome(
    s: RxState,
    bytes: Seq<u8>,
    generation: u16,
    cycle: u64,
    at: u64,
    accepted: Seq<bool>,
) -> RxState {
    match spec_parse_frame(bytes) {
        Err(_) => record_event(
            with_report(s, CycleReport { corrupt_frames: bump(s.report.corrupt_frames), ..s.report }),
            event(cycle, at, EventCode::FrameCorrupt, EventSeverity::Error, 0, bytes.len() as u32, 0),
        ),
        Ok(len) => {
            let chain = spec_decode_chain(bytes, 16, 16 + len);
            rx_chain_outcome(s, chain, generation, cycle, at, accepted, chain.len() as int)
        },
    }
}

/// The offer a decoded datagram makes to the consumer in receive state
/// `s`: one that completes an armed entry, with that entry's match.
pub open spec fn rx_datagram_offer(
    s: RxState,
    d: Result<DecodedDatagram, WireError>,
    generation: u16,
    cycle: u64,
    at: u64,
) -> Option<RxOffer> {
    match d {
        Err(_) => None,
        Ok((header, payload, wkc)) => {
            let entry = s.entries[header.index as int];
            if entry.state != RxSlotState::Armed {
                None
            } else {
                let response = RxResponse {
                    generation,
                    address: header.address,
                    payload_size: payload.len() as u16,
                    command: header.command.spec_code(),
                    working_counter: wkc,
                    received_at_ns: at,
                };
                match spec_response_check(entry, response) {
                    None => Some(
                        RxOffer {
                            cycle,
                            received_at_ns: at,
                            completion: RxMatch { slot_id: entry.slot_id, generation: entry.generation, working_counter: wkc },
                            header,
                            payload,
                        },
                    ),
                    Some(_) => None,
                }
            }
        },
    }
}

/// The offers made by the first `k` datagrams of `chain`, in order.
pub open spec fn rx_chain_offers(
    s: RxState,
    chain: Seq<Result<DecodedDatagram, WireError>>,
    generation: u16,
    cycle: u64,
    at: u64,
    accepted: Seq<bool>,
    k: int,
) -> Seq<RxOffer>
    decreases k,
{
    if k <= 0 {
        Seq::empty()
    } else {
        let earlier = rx_chain_offers(s, chain, generation, cycle, at, accepted, k - 1);
        match rx_datagram_offer(rx_chain_outcome(s, chain, generation, cycle, at, accepted, k - 1), chain[k - 1], generation, cycle, at) {
            Some(offer) => earlier.push(offer),
            None => earlier,
        }
    }
}

/// The offers one received frame makes to the consumer: every datagram that
/// completes an armed entry, in frame order; none for a frame that does not
/// parse.
pub open spec fn rx_frame_offers(
    s: RxState,
    bytes: Seq<u8>,
    generation: u16,
    cycle: u64,
    at: u64,
    accepted: Seq<bool>,
) -> Seq<RxOffer> {
    match spec_parse_frame(bytes) {
        Err(_) => Seq::empty(),
        Ok(len) => {
            let chain = spec_decode_chain(bytes, 16, 16 + len);
            rx_chain_offers(s, chain, generation, cycle, at, accepted, chain.len() as int)
        },
    }
}

/// Whether a logging consumer's log grew by exactly `offers`.
pub open spec fn offers_logged<C: RxDatagramConsumer>(before: C, after: C, offers: Seq<RxOffer>) -> bool {
    before.logs_offers() ==> after.logs_offers() && after.offered() == before.offered() + offers
}

/// The state after a link found down at `start_ns`: flagged in the report
/// and recorded as a fault.
pub open spec fn link_down_state(s: RxState, cycle: u64, start_ns: u64) -> RxState {
    record_event(
        with_report(s, CycleReport { link_down: true, ..s.report }),
        event(cycle, start_ns, EventCode::LinkDown, EventSeverity::Fault, 0, 0, 0),
    )
}

/// One outcome of polling the port inside a receive cycle: a frame of
/// `bytes` received at `at` (with the consumer's answer for each of its
/// datagrams), a frame whose reported length does not fit the scratch
/// storage, or a lost link.
pub enum RxPolled {
    Frame(Seq<u8>, u64, Seq<bool>),
    Corrupt(usize, u64),
    LinkDown(u64),
}

/// The receive state after one polled outcome.
pub open spec fn rx_polled_step(s: RxState, p: RxPolled, generation: u16) -> RxState {
    let r = s.report;
    match p {
        RxPolled::Frame(bytes, at, accepted) => rx_frame_outcome(
            with_report(s, CycleReport {
                received_frames: (r.received_frames + 1) as usize,
                received_bytes: saturating_add_usize(r.received_bytes, bytes.len() as usize),
                ..r
            }),
            bytes,
            generation,
            r.cycle,
            at,
            accepted,
        ),
        RxPolled::Corrupt(length, at) => record_event(
            with_report(s, CycleReport { corrupt_frames: bump(r.corrupt_frames), ..r }),
            event(r.cycle, at, EventCode::FrameCorrupt, EventSeverity::Error, 0, length as u32,
                MAX_ETHERNET_FRAME_LEN as u32),
        ),
        RxPolled::LinkDown(at) => link_down_state(s, r.cycle, at),
    }
}

/// The offers one polled outcome makes to the consumer.
pub open spec fn rx_polled_offers(s: RxState, p: RxPolled, generation: u16) -> Seq<RxOffer> {
    let r = s.report;
    match p {
        RxPolled::Frame(bytes, at, accepted) => rx_frame_offers(
            with_report(s, CycleReport {
                received_frames: (r.received_frames + 1) as usize,
                received_bytes: saturating_add_usize(r.received_bytes, bytes.len() as usize),
                ..r
            }),
            bytes,
            generation,
            r.cycle,
            at,
            accepted,
        ),
        _ => Seq::empty(),
    }
}

/// The receive state after the first `k` polled outcomes of `trace`.
pub open spec fn rx_trace_outcome(s: RxState, trace: Seq<RxPolled>, generation: u16, k: int) -> RxState
    decreases k,
{
    if k <= 0 {
        s
    } else {
        rx_polled_step(rx_trace_outcome(s, trace, generation, k - 1), trace[k - 1], generation)
    }
}

/// The offers made by the first `k` polled outcomes of `trace`, in order.
pub open spec fn rx_trace_offers(s: RxState, trace: Seq<RxPolled>, generation: u16, k: int) -> Seq<RxOffer>
    decreases k,
{
    if k <= 0 {
        Seq::empty()
    } else {
        rx_trace_offers(s, trace, generation, k - 1) + rx_polled_offers(
            rx_trace_outcome(s, trace, generation, k - 1),
            trace[k - 1],
            generation,
        )
    }
}

/// A prefix of a trace leads to the same state and offers whatever follows.
pub proof fn lemma_trace_prefix(s: RxState, trace: Seq<RxPolled>, p: RxPolled, generation: u16, k: int)
    requires
        0 <= k <= trace.len(),
    ensures
        rx_trace_outcome(s, trace.push(p), generation, k) == rx_trace_outcome(s, trace, generation, k),
        rx_trace_offers(s, trace.push(p), generation, k) == rx_trace_offers(s, trace, generation, k),
    decreases k,
{
    if k > 0 {
        lemma_trace_prefix(s, trace, p, generation, k - 1);
        assert(trace.push(p)[k - 1] == trace[k - 1]);
    }
}

/// The state in which a receive cycle closes: expired entries time out at
/// `now_ns`, a spent budget is flagged, and completed and rejected entries
/// are released.
pub open spec fn closed_cycle_state(s: RxState, config: MasterConfig, now_ns: u64, deadline_ns: u64, ix: Seq<u8>) -> RxState {
    let closed = rx_budget_outcome(rx_expire_outcome(s, ix, now_ns), config, now_ns, deadline_ns);
    RxState { entries: release_finished(closed.entries), ..closed }
}

/// The state a receive cycle starts from: the cycle counter advanced and
/// entries expired at `start_ns` timed out.
pub open spec fn begun_cycle_state<const SLOTS: usize, const MTU: usize>(
    before: EthercatMaster<SLOTS, MTU>,
    start_ns: u64,
    ix: Seq<u8>,
) -> RxState {
    rx_expire_outcome(before.rx_state(empty_report(wrapping_add_u64(before.spec_cycle()))), ix, start_ns)
}

/// Whether a logging port's poll record is the polled outcome `item`: a
/// frame whose length fits the scratch storage, with the bytes it left
/// there, a frame whose length does not, or a lost link, each at the clock
/// reading right after the poll.
pub open spec fn poll_matches(poll: PortPoll, item: RxPolled) -> bool {
    match item {
        RxPolled::Frame(bytes, at, _) => poll matches PortPoll::Frame { length, storage, now_ns } && 0 < length
            <= MAX_ETHERNET_FRAME_LEN && bytes == storage.subrange(0, length as int) && at == now_ns,
        RxPolled::Corrupt(bad, at) => poll matches PortPoll::Frame { length, storage, now_ns } && length == bad && (
        bad == 0 || bad > MAX_ETHERNET_FRAME_LEN) && at == now_ns,
        RxPolled::LinkDown(at) => poll matches PortPoll::LinkDown { now_ns } && at == now_ns,
    }
}

/// Whether `polls` are, one by one, the polled outcomes of `trace`.
pub open spec fn polls_match(polls: Seq<PortPoll>, trace: Seq<RxPolled>) -> bool {
    &&& polls.len() == trace.len()
    &&& forall|k: int| 0 <= k < trace.len() ==> poll_matches(#[trigger] polls[k], trace[k])
}

/// The polls a logging port recorded between `port_before` and `port_after`.
pub open spec fn new_polls<P: EthercatPort>(port_before: P, port_after: P) -> Seq<PortPoll> {
    port_after.polled().subrange(port_before.polled().len() as int, port_after.polled().len() as int)
}

/// A logging port's traffic during a cycle: nothing was submitted, its
/// polls were appended, and they begin with the outcomes of `trace`; after
/// those come `tail_len` more.
pub open spec fn port_polled_trace<P: EthercatPort>(port_before: P, port_after: P, trace: Seq<RxPolled>, tail_len: int) -> bool {
    port_before.logs_io() ==> {
        let polls = new_polls(port_before, port_after);
        &&& port_after.logs_io()
        &&& port_after.submitted() == port_before.submitted()
        &&& port_after.polled().len() == port_before.polled().len() + trace.len() + tail_len
        &&& port_after.polled().subrange(0, port_before.polled().len() as int) == port_before.polled()
        &&& polls_match(polls.subrange(0, trace.len() as int), trace)
    }
}

/// Why a cycle over a logging port ended without an error: an empty poll,
/// a lost link, a frame, byte or time budget spent at the port's last clock
/// reading, or a polled frame that the report has no room to count.
pub open spec fn cycle_stopped<P: EthercatPort>(
    port_before: P,
    port_after: P,
    trace: Seq<RxPolled>,
    s1: RxState,
    config: MasterConfig,
    deadline_ns: u64,
) -> bool {
    port_before.logs_io() ==> {
        let polls = new_polls(port_before, port_after);
        ||| port_polled_trace(port_before, port_after, trace, 1) && polls.last() is Empty
        ||| port_polled_trace(port_before, port_after, trace, 0) && trace.len() > 0 && trace.last() is LinkDown
        ||| port_polled_trace(port_before, port_after, trace, 0) && budget_spent(config, s1.report,
            port_after.spec_now(), deadline_ns)
        ||| port_polled_trace(port_before, port_after, trace, 1) && polls.last() is Frame && !report_has_room(s1.report)
    }
}

/// A logging port whose log grew by polls matching `trace` and then `tail`
/// polled `trace` with `tail.len()` more.
pub proof fn lemma_port_polled_trace<P: EthercatPort>(
    port_before: P,
    port_after: P,
    trace: Seq<RxPolled>,
    polls: Seq<PortPoll>,
    tail: Seq<PortPoll>,
)
    requires
        port_before.logs_io() ==> port_after.logs_io() && port_after.submitted() == port_before.submitted()
            && port_after.polled() == port_before.polled() + polls + tail && polls_match(polls, trace),
    ensures
        port_polled_trace(port_before, port_after, trace, tail.len() as int),
        port_before.logs_io() ==> new_polls(port_before, port_after) == polls + tail,
{
    if port_before.logs_io() {
        let n = port_before.polled().len() as int;
        assert(new_polls(port_before, port_after) =~= polls + tail);
        assert((polls + tail).subrange(0, trace.len() as int) =~= polls);
        assert(port_after.polled().subrange(0, n) =~= port_before.polled());
    }
}

/// A cycle stopped by a link found down at its start: the report flags it
/// and counts no frame, neither the consumer nor the port saw anything, and
/// only the expiry at the start and the fault were applied, the start being
/// a logging port's clock.
pub open spec fn stopped_at_start<const SLOTS: usize, const MTU: usize, C: RxDatagramConsumer, P: EthercatPort>(
    before: EthercatMaster<SLOTS, MTU>,
    after: EthercatMaster<SLOTS, MTU>,
    consumer_before: C,
    consumer_after: C,
    port_before: P,
    port_after: P,
    r: CycleReport,
) -> bool {
    &&& r.link_down
    &&& r.received_frames == 0
    &&& consumer_after == consumer_before
    &&& port_after == port_before
    &&& exists|start_ns: u64, ix: Seq<u8>|
        expiry_indices(before.spec_entries(), start_ns, ix) && (port_before.logs_io() ==> start_ns
            == port_before.spec_now()) && after.rx_state(r) == link_down_state(
            #[trigger] begun_cycle_state(before, start_ns, ix),
            wrapping_add_u64(before.spec_cycle()),
            start_ns,
        )
}

/// A cycle closed after the port's outcomes in `trace` were applied one by
/// one, each frame through `rx_frame_outcome` with its datagrams offered to
/// the consumer in order. A logging port polled exactly those outcomes and
/// one more at most, which explains why the cycle ended, and its clock gave
/// the start and the closing time.
pub open spec fn closed_after_trace<const SLOTS: usize, const MTU: usize, C: RxDatagramConsumer, P: EthercatPort>(
    before: EthercatMaster<SLOTS, MTU>,
    after: EthercatMaster<SLOTS, MTU>,
    consumer_before: C,
    consumer_after: C,
    port_before: P,
    port_after: P,
    generation: u16,
    r: CycleReport,
) -> bool {
    let config = before.spec_config();
    exists|start_ns: u64, ix: Seq<u8>, trace: Seq<RxPolled>, now_ns: u64, ix_end: Seq<u8>| {
        let s0 = begun_cycle_state(before, start_ns, ix);
        let s1 = rx_trace_outcome(s0, trace, generation, trace.len() as int);
        let deadline_ns = saturating_add_u64(start_ns, config.rx_budget_ns);
        &&& expiry_indices(before.spec_entries(), start_ns, ix)
        &&& expiry_indices(s1.entries, now_ns, ix_end)
        &&& after.rx_state(r) == #[trigger] closed_cycle_state(
            rx_trace_outcome(begun_cycle_state(before, start_ns, ix), trace, generation, trace.len() as int),
            config,
            now_ns,
            saturating_add_u64(start_ns, config.rx_budget_ns),
            ix_end,
        )
        &&& offers_logged(consumer_before, consumer_after, rx_trace_offers(s0, trace, generation, trace.len() as int))
        &&& port_before.logs_io() ==> start_ns == port_before.spec_now() && now_ns == port_after.spec_now()
        &&& cycle_stopped(port_before, port_after, trace, s1, config, deadline_ns)
    }
}

/// What a port-driven receive cycle leaves behind. The cycle counter
/// advances and the cycle starts from the expiry at some start time. A
/// report belongs to the new cycle, counts no more frames than the frame
/// budget, and comes from a cycle stopped at its start or closed after the
/// port's outcomes; a port error is returned as such after some of them. A
/// link that the port states down at the start stops the cycle there.
pub open spec fn receive_cycle_outcome<const SLOTS: usize, const MTU: usize, E, C: RxDatagramConsumer, P: EthercatPort>(
    before: EthercatMaster<SLOTS, MTU>,
    after: EthercatMaster<SLOTS, MTU>,
    consumer_before: C,
    consumer_after: C,
    port_before: P,
    port_after: P,
    generation: u16,
    down_at_start: bool,
    result: Result<CycleReport, CycleError<E>>,
) -> bool {
    let c = wrapping_add_u64(before.spec_cycle());
    let config = before.spec_config();
    &&& after.wf()
    &&& after.spec_cycle() == c
    &&& after.spec_frames() == before.spec_frames()
    &&& after.spec_config() == config
    &&& match result {
        Ok(r) => r.cycle == c && r.received_frames <= config.rx_budget_frames && (stopped_at_start(before, after,
            consumer_before, consumer_after, port_before, port_after, r) || closed_after_trace(before, after,
            consumer_before, consumer_after, port_before, port_after, generation, r)),
        Err(e) => e is Port && exists|start_ns: u64, ix: Seq<u8>, trace: Seq<RxPolled>| {
            let s0 = begun_cycle_state(before, start_ns, ix);
            let s1 = #[trigger] rx_trace_outcome(begun_cycle_state(before, start_ns, ix), trace, generation,
                trace.len() as int);
            &&& expiry_indices(before.spec_entries(), start_ns, ix)
            &&& after.rx_state(s1.report) == s1
            &&& offers_logged(consumer_before, consumer_after, rx_trace_offers(s0, trace, generation, trace.len() as int))
            &&& port_before.logs_io() ==> start_ns == port_before.spec_now()
            &&& port_polled_trace(port_before, port_after, trace, 1)
            &&& port_before.logs_io() ==> new_polls(port_before, port_after).last() is Failed
        },
    }
    &&& down_at_start ==> (result matches Ok(r) && stopped_at_start(before, after, consumer_before, consumer_after,
        port_before, port_after, r))
}

/// Each datagram counter of `after` grew from `before` by at most `n`, and
/// nothing else in the report changed.
pub open spec fn report_within(before: CycleReport, after: CycleReport, n: int) -> bool {
    &&& before.parsed_datagrams <= after.parsed_datagrams <= before.parsed_datagrams + n
    &&& before.unmatched_datagrams <= after.unmatched_datagrams <= before.unmatched_datagrams + n
    &&& before.corrupt_frames <= after.corrupt_frames <= before.corrupt_frames + n
    &&& before.wkc_mismatches <= after.wkc_mismatches <= before.wkc_mismatches + n
    &&& before.timed_out_datagrams <= after.timed_out_datagrams <= before.timed_out_datagrams + n
    &&& before.consumer_rejections <= after.consumer_rejections <= before.consumer_rejections + n
    &&& after.cycle == before.cycle
    &&& after.received_frames == before.received_frames
    &&& after.received_bytes == before.received_bytes
    &&& after.budget_exhausted == before.budget_exhausted
    &&& after.link_down == before.link_down
}

/// The outcome of a chain prefix depends only on the consumer answers for
/// that prefix.
pub proof fn lemma_chain_outcome_prefix(
    s: RxState,
    chain: Seq<Result<DecodedDatagram, WireError>>,
    generation: u16,
    cycle: u64,
    at: u64,
    a: Seq<bool>,
    b: Seq<bool>,
    k: int,
)
    requires
        0 <= k <= a.len(),
        k <= b.len(),
        forall|j: int| 0 <= j < k ==> a[j] == b[j],
    ensures
        rx_chain_outcome(s, chain, generation, cycle, at, a, k) == rx_chain_outcome(s, chain, generation, cycle, at, b, k),
        rx_chain_offers(s, chain, generation, cycle, at, a, k) == rx_chain_offers(s, chain, generation, cycle, at, b, k),
    decreases k,
{
    if k > 0 {
        lemma_chain_outcome_prefix(s, chain, generation, cycle, at, a, b, k - 1);
    }
}

/// `ix` lists, in ascending order, exactly the indices whose armed entries
/// are past their deadline at `now_ns`.
pub open spec fn expiry_indices(entries: Seq<RxIndexEntry>, now_ns: u64, ix: Seq<u8>) -> bool {
    &&& forall|k: int| 0 <= k < ix.len() ==> crate::rx_index::spec_expires(entries[#[trigger] ix[k] as int], now_ns)
    &&& forall|j: int, k: int| 0 <= j < k < ix.len() ==> ix[j] < ix[k]
    &&& forall|i: int| 0 <= i < 256 && crate::rx_index::spec_expires(#[trigger] entries[i], now_ns) ==> ix.contains(i as u8)
}

/// The entries with every expired armed entry rejected.
pub open spec fn expire_entries(entries: Seq<RxIndexEntry>, now_ns: u64) -> Seq<RxIndexEntry> {
    Seq::new(
        entries.len(),
        |i: int|
            if crate::rx_index::spec_expires(entries[i], now_ns) {
                RxIndexEntry { state: RxSlotState::Rejected, ..entries[i] }
            } else {
                entries[i]
            },
    )
}

/// The state after counting and recording the first `k` timed-out indices.
pub open spec fn timeout_events(s: RxState, ix: Seq<u8>, now_ns: u64, k: int) -> RxState
    decreases k,
{
    if k <= 0 {
        s
    } else {
        let p = timeout_events(s, ix, now_ns, k - 1);
        record_event(
            with_report(p, CycleReport { timed_out_datagrams: bump(p.report.timed_out_datagrams), ..p.report }),
            event(p.report.cycle, now_ns, EventCode::RxTimeout, EventSeverity::Error, ix[k - 1], 0, 0),
        )
    }
}

/// The state after expiring the table at `now_ns` with the expired indices
/// `ix`: the entries are rejected and each index is counted and recorded.
pub open spec fn rx_expire_outcome(s: RxState, ix: Seq<u8>, now_ns: u64) -> RxState {
    timeout_events(RxState { entries: expire_entries(s.entries, now_ns), ..s }, ix, now_ns, ix.len() as int)
}

/// Whether the receive budget is spent: the frame or byte budget is used up
/// or the deadline has passed.
pub open spec fn budget_spent(config: MasterConfig, report: CycleReport, now_ns: u64, deadline_ns: u64) -> bool {
    report.received_frames >= config.rx_budget_frames || report.received_bytes >= config.rx_budget_bytes
        || now_ns >= deadline_ns
}

/// The state after closing the budget: a spent budget is flagged and
/// recorded.
pub open spec fn rx_budget_outcome(s: RxState, config: MasterConfig, now_ns: u64, deadline_ns: u64) -> RxState {
    if budget_spent(config, s.report, now_ns, deadline_ns) {
        record_event(
            with_report(s, CycleReport { budget_exhausted: true, ..s.report }),
            event(s.report.cycle, now_ns, EventCode::RxBudgetExhausted, EventSeverity::Warning, 0,
                s.report.received_frames as u32, s.report.received_bytes as u32),
        )
    } else {
        s
    }
}

/// The entries with completed and rejected ones released.
pub open spec fn release_finished(entries: Seq<RxIndexEntry>) -> Seq<RxIndexEntry> {
    Seq::new(
        entries.len(),
        |i: int|
            if entries[i].state == RxSlotState::Complete || entries[i].state == RxSlotState::Rejected {
                RxIndexEntry { state: RxSlotState::Empty, ..entries[i] }
            } else {
                entries[i]
            },
    )
}

/// The entries with every expectation owned by `slot_id` cleared.
pub open spec fn cancel_entries(entries: Seq<RxIndexEntry>, slot_id: u16) -> Seq<RxIndexEntry> {
    Seq::new(
        entries.len(),
        |i: int|
            if entries[i].state != RxSlotState::Empty && entries[i].slot_id == slot_id {
                RxIndexEntry::spec_empty()
            } else {
                entries[i]
            },
    )
}

/// No two planned datagrams share an index.
pub open spec fn distinct_plan(ds: Seq<DatagramPlan>) -> bool {
    crate::plan::distinct_indices(ds)
}

/// The entry a planned datagram is armed with.
pub open spec fn armed_entry(d: DatagramPlan, slot_id: u16, generation: u16, deadline_ns: u64) -> RxIndexEntry {
    RxIndexEntry {
        slot_id,
        generation,
        deadline_ns,
        expected_address: d.address,
        expected_size: d.payload_len as u16,
        expected_type: d.command.spec_code(),
        expected_wkc: d.expected_wkc,
        state: RxSlotState::Armed,
    }
}

/// The entries with the first `k` planned datagrams armed.
pub open spec fn arm_all(
    entries: Seq<RxIndexEntry>,
    ds: Seq<DatagramPlan>,
    slot_id: u16,
    generation: u16,
    deadline_ns: u64,
    k: int,
) -> Seq<RxIndexEntry>
    decreases k,
{
    if k <= 0 {
        entries
    } else {
        arm_all(entries, ds, slot_id, generation, deadline_ns, k - 1).update(
            ds[k - 1].index as int,
            armed_entry(ds[k - 1], slot_id, generation, deadline_ns),
        )
    }
}

/// Some planned datagram's index is armed already.
pub open spec fn any_armed(entries: Seq<RxIndexEntry>, ds: Seq<DatagramPlan>) -> bool {
    exists|k: int| 0 <= k < ds.len() && entries[(#[trigger] ds[k]).index as int].state == RxSlotState::Armed
}

/// Arming leaves the entries of indices not among the armed datagrams
/// alone.
pub proof fn lemma_arm_all_other(
    entries: Seq<RxIndexEntry>,
    ds: Seq<DatagramPlan>,
    slot_id: u16,
    generation: u16,
    deadline_ns: u64,
    k: int,
    x: int,
)
    requires
        0 <= k <= ds.len(),
        entries.len() == 256,
        0 <= x < 256,
        forall|m: int| 0 <= m < k ==> ds[m].index as int != x,
    ensures
        arm_all(entries, ds, slot_id, generation, deadline_ns, k).len() == entries.len(),
        arm_all(entries, ds, slot_id, generation, deadline_ns, k)[x] == entries[x],
    decreases k,
{
    if k > 0 {
        lemma_arm_all_other(entries, ds, slot_id, generation, deadline_ns, k - 1, x);
    }
}

/// The build result a build-and-arm result carries: a refused arm follows
/// a build whose length the slot recorded.
pub open spec fn built_view(result: Result<usize, CycleError<core::convert::Infallible>>, recorded: usize) -> Result<usize, PlanError> {
    match result {
        Ok(length) => Ok(length),
        Err(CycleError::Plan(e)) => Err(e),
        Err(CycleError::RxIndex(_)) => Ok(recorded),
        Err(_) => Err(PlanError::BufferTooSmall),
    }
}

/// The length a successful build of `ds` from `image` produces.
pub open spec fn built_length(ds: Seq<DatagramPlan>, image: Seq<u8>) -> usize {
    crate::wire::frame_len(crate::plan::plan_images(ds, image)) as usize
}

/// The build result a DMA build-and-arm result carries.
pub open spec fn dma_built_view(
    result: Result<(DmaTxHandle, usize), CycleError<core::convert::Infallible>>,
    ds: Seq<DatagramPlan>,
    image: Seq<u8>,
) -> Result<usize, PlanError> {
    match result {
        Ok((_, length)) => Ok(length),
        Err(CycleError::Plan(e)) => Err(e),
        Err(_) => Ok(built_length(ds, image)),
    }
}

/// The error `tx_submit` refuses a descriptor with, if it refuses it.
pub open spec fn tx_submit_error(tx: Seq<crate::dma::DescriptorView>, handle: DmaTxHandle, length: usize, mtu: usize) -> Option<DmaRingError> {
    if length == 0 || length > mtu {
        Some(DmaRingError::InvalidLength)
    } else {
        match crate::dma::spec_validate(tx, handle.spec_index() as int, handle.spec_generation()) {
            Err(e) => Some(e),
            Ok(i) => if tx[i].owner != crate::dma::DmaOwner::CpuOwned {
                Some(DmaRingError::InvalidState { actual: tx[i].owner })
            } else {
                None
            },
        }
    }
}

/// The result a pool release gives for a handle.
pub open spec fn release_result<const SLOTS: usize, const MTU: usize>(frames: FramePool<SLOTS, MTU>, handle: FrameHandle) -> Result<(), FramePoolError> {
    let i = handle.spec_index() as int;
    if i < SLOTS && i < 64 && frames.view_used()[i] {
        Ok(())
    } else {
        Err(FramePoolError::InvalidHandle)
    }
}

/// A strictly increasing sequence of bytes has at most 256 elements.
pub proof fn lemma_increasing_bytes_len(ix: Seq<u8>)
    requires
        forall|j: int, k: int| 0 <= j < k < ix.len() ==> ix[j] < ix[k],
    ensures
        ix.len() <= 256,
{
    assert forall|k: int| 0 <= k < ix.len() implies ix[k] >= k by {
        lemma_increasing_bytes_lower(ix, k);
    }
    if ix.len() > 256 {
        assert(ix[256] >= 256);
    }
}

proof fn lemma_increasing_bytes_lower(ix: Seq<u8>, k: int)
    requires
        forall|j: int, m: int| 0 <= j < m < ix.len() ==> ix[j] < ix[m],
        0 <= k < ix.len(),
    ensures
        ix[k] >= k,
    decreases k,
{
    if k > 0 {
        lemma_increasing_bytes_lower(ix, k - 1);
    }
}

/// Counting and recording timeouts leaves the entries alone and bumps only
/// the timeout counter, once per index.
pub proof fn lemma_timeout_events(s: RxState, ix: Seq<u8>, now_ns: u64, k: int)
    requires
        0 <= k <= ix.len(),
        s.report.timed_out_datagrams + k <= usize::MAX,
    ensures
        timeout_events(s, ix, now_ns, k).entries == s.entries,
        timeout_events(s, ix, now_ns, k).report == (CycleReport {
            timed_out_datagrams: (s.report.timed_out_datagrams + k) as usize,
            ..s.report
        }),
    decreases k,
{
    if k > 0 {
        lemma_timeout_events(s, ix, now_ns, k - 1);
    }
}

/// A frame handle that the pool can test without shifting past its
/// 64-bit use mask.
pub open spec fn addressable<const SLOTS: usize>(handle: FrameHandle) -> bool {
    handle.spec_index() < SLOTS ==> handle.spec_index() < 64
}

/// The handle names a slot in use.
pub open spec fn slot_in_use<const SLOTS: usize, const MTU: usize>(frames: FramePool<SLOTS, MTU>, handle: FrameHandle) -> bool {
    handle.spec_index() < SLOTS && frames.view_used()[handle.spec_index() as int]
}

/// `after` is `before` with slot `i` holding `bytes` and frame length `len`;
/// everything else is unchanged.
pub open spec fn slot_rewritten<const SLOTS: usize, const MTU: usize>(
    before: FramePool<SLOTS, MTU>,
    after: FramePool<SLOTS, MTU>,
    i: int,
    bytes: Seq<u8>,
    len: usize,
) -> bool {
    &&& after.view_used() == before.view_used()
    &&& after.view_slots().len() == before.view_slots().len()
    &&& after.view_slots()[i].bytes@ == bytes
    &&& after.view_slots()[i].len == len
    &&& after.view_slots()[i].sequence == before.view_slots()[i].sequence
    &&& after.view_slots()[i].generation == before.view_slots()[i].generation
    &&& after.view_slots()[i].deadline_ns == before.view_slots()[i].deadline_ns
    &&& forall|k: int| 0 <= k < before.view_slots().len() && k != i ==> after.view_slots()[k] == before.view_slots()[k]
}

/// The plan error a cycle error carries, if it carries one.
pub open spec fn plan_view(result: Result<usize, CycleError<core::convert::Infallible>>) -> Result<usize, PlanError> {
    match result {
        Ok(length) => Ok(length),
        Err(CycleError::Plan(e)) => Err(e),
        Err(_) => Err(PlanError::BufferTooSmall),
    }
}

pub struct EthercatMaster<const SLOTS: usize, const MTU: usize> {
    config: MasterConfig,
    cycle: u64,
    frames: FramePool<SLOTS, MTU>,
    rx_index: RxIndexTable,
    diagnostics: Diagnostics<DIAGNOSTIC_EVENTS>,
}

impl<const SLOTS: usize, const MTU: usize> EthercatMaster<SLOTS, MTU> {
    pub closed spec fn spec_config(&self) -> MasterConfig {
        self.config
    }

    pub closed spec fn spec_cycle(&self) -> u64 {
        self.cycle
    }

    pub closed spec fn spec_frames(&self) -> FramePool<SLOTS, MTU> {
        self.frames
    }

    pub closed spec fn spec_entries(&self) -> Seq<RxIndexEntry> {
        self.rx_index.view_entries()
    }

    pub closed spec fn spec_diagnostics(&self) -> Diagnostics<DIAGNOSTIC_EVENTS> {
        self.diagnostics
    }

    /// The receive state of the master together with a report.
    pub open spec fn rx_state(&self, report: CycleReport) -> RxState {
        RxState {
            entries: self.spec_entries(),
            report,
            events: self.spec_diagnostics().view_events(),
            lost: self.spec_diagnostics().spec_lost_events(),
        }
    }

    pub closed spec fn wf(&self) -> bool {
        &&& self.frames.wf()
        &&& self.rx_index.wf()
        &&& self.diagnostics.wf()
    }

    pub fn new(config: MasterConfig) -> (master: Self)
        ensures
            master.wf(),
            master.spec_config() == config,
            master.spec_cycle() == 0,
            master.spec_entries() == Seq::new(256, |i: int| RxIndexEntry::spec_empty()),
            master.spec_diagnostics().view_events() == Seq::<EventRecord>::empty(),
            master.spec_diagnostics().spec_lost_events() == 0,
            forall|i: int| 0 <= i < SLOTS ==> !(#[trigger] master.spec_frames().view_used()[i]),
    {
        proof {
            reveal_with_fuel(is_power_of_two, 8);
        }
        let master = EthercatMaster {
            config,
            cycle: 0,
            frames: FramePool::new(),
            rx_index: RxIndexTable::new(),
            diagnostics: Diagnostics::new(),
        };
        proof {
            master.rx_index.lemma_wf_len();
        }
        assert(master.spec_entries() =~= Seq::new(256, |i: int| RxIndexEntry::spec_empty()));
        master
    }

    /// The number of the most recent receive cycle.
    pub fn cycle_number(&self) -> (cycle: u64)
        ensures
            cycle == self.spec_cycle(),
    {
        self.cycle
    }

    pub fn config(&self) -> (config: MasterConfig)
        ensures
            config == self.spec_config(),
    {
        self.config
    }

    pub fn arm_rx(&mut self, index: u8, slot_id: u16, expectation: RxExpectation) -> (result: Result<(), RxIndexError>)
        requires
            old(self).wf(),
        ensures
            final(self).wf(),
            match crate::rx_index::spec_arm(old(self).spec_entries()[index as int], slot_id, expectation) {
                Ok(entry) => result is Ok && final(self).spec_entries() == old(self).spec_entries().update(index as int, entry),
                Err(e) => result == Err::<(), RxIndexError>(e) && final(self).spec_entries() == old(self).spec_entries(),
            },
            final(self).spec_frames() == old(self).spec_frames(),
            final(self).spec_diagnostics() == old(self).spec_diagnostics(),
            final(self).spec_cycle() == old(self).spec_cycle(),
            final(self).spec_config() == old(self).spec_config(),
    {
        self.rx_index.arm(index, slot_id, expectation)
    }

    pub fn rx_entry(&self, index: u8) -> (entry: RxIndexEntry)
        requires
            self.wf(),
        ensures
            entry == self.spec_entries()[index as int],
    {
        self.rx_index.entry(index)
    }

    pub fn diagnostics(&self) -> (diagnostics: &Diagnostics<DIAGNOSTIC_EVENTS>)
        ensures
            *diagnostics == self.spec_diagnostics(),
    {
        &self.diagnostics
    }

    /// Queue one diagnostic event.
    fn record(&mut self, e: EventRecord)
        requires
            old(self).wf(),
        ensures
            final(self).wf(),
            forall|r: CycleReport| #[trigger] final(self).rx_state(r) == record_event(old(self).rx_state(r), e),
            final(self).spec_frames() == old(self).spec_frames(),
            final(self).spec_cycle() == old(self).spec_cycle(),
            final(self).spec_config() == old(self).spec_config(),
    {
        self.diagnostics.record(e);
    }

    fn record_corrupt_frame(&mut self, cycle: u64, timestamp_ns: u64, length: usize, limit: usize)
        requires
            old(self).wf(),
        ensures
            final(self).wf(),
            forall|r: CycleReport| #[trigger] final(self).rx_state(r) == record_event(
                old(self).rx_state(r),
                event(cycle, timestamp_ns, EventCode::FrameCorrupt, EventSeverity::Error, 0, length as u32, limit as u32),
            ),
            final(self).spec_frames() == old(self).spec_frames(),
            final(self).spec_cycle() == old(self).spec_cycle(),
            final(self).spec_config() == old(self).spec_config(),
    {
        self.record(EventRecord::new(cycle, timestamp_ns, EventCode::FrameCorrupt, EventSeverity::Error, 0, length as u32, limit as u32));
    }

    /// Parse one received frame and route each datagram through the RX index
    /// table: armed datagrams are validated and completed or rejected, and
    /// completed ones are offered to `consumer`. Every outcome is counted in
    /// `report` and recorded as a diagnostic event.
    fn process_received_frame<C: RxDatagramConsumer>(
        &mut self,
        bytes: &[u8],
        generation: u16,
        cycle: u64,
        received_at_ns: u64,
        report: &mut CycleReport,
        consumer: &mut C,
    ) -> (accepted: Ghost<Seq<bool>>)
        requires
            old(self).wf(),
            report_has_room(*old(report)),
            old(consumer).consumer_ready(),
        ensures
            final(self).wf(),
            final(consumer).consumer_ready(),
            rx_frame_outcome(old(self).rx_state(*old(report)), bytes@, generation, cycle, received_at_ns, accepted@)
                == final(self).rx_state(*final(report)),
            offers_logged(*old(consumer), *final(consumer), rx_frame_offers(old(self).rx_state(*old(report)), bytes@,
                generation, cycle, received_at_ns, accepted@)),
            report_within(*old(report), *final(report), 2048),
            final(self).spec_frames() == old(self).spec_frames(),
            final(self).spec_cycle() == old(self).spec_cycle(),
            final(self).spec_config() == old(self).spec_config(),
    {
        let ghost s0 = self.rx_state(*report);
        let ghost base = *report;
        let frame = match FrameView::parse(bytes) {
            Ok(frame) => frame,
            Err(_) => {
                self.record_corrupt_frame(cycle, received_at_ns, bytes.len(), 0);
                report.corrupt_frames += 1;
                assert(rx_frame_outcome(s0, bytes@, generation, cycle, received_at_ns, Seq::<bool>::empty())
                    == self.rx_state(*report));
                return Ghost(Seq::empty());
            },
        };
        let datagrams = frame.datagrams();
        let ghost len = frame.spec_ethercat_len();
        let ghost chain = spec_decode_chain(bytes@, 16, 16 + len);
        proof {
            lemma_decode_chain_len(bytes@, 16, 16 + len);
            self.rx_index.lemma_wf_len();
        }
        assert(datagrams@.len() == chain.len());
        let ghost mut accepted: Seq<bool> = Seq::empty();
        let ghost c0 = *consumer;
        assert(c0.offered() + Seq::<RxOffer>::empty() =~= c0.offered());
        let mut i: usize = 0;
        while i < datagrams.len()
            invariant
                self.wf(),
                self.spec_entries().len() == 256,
                consumer.consumer_ready(),
                c0 == *old(consumer),
                offers_logged(c0, *consumer, rx_chain_offers(s0, chain, generation, cycle, received_at_ns, accepted, i as int)),
                i <= datagrams@.len(),
                datagrams@.len() == chain.len(),
                chain.len() <= 2047,
                datagrams@.map_values(|r: Result<Datagram, WireError>| decoded_view(r)) == chain,
                accepted.len() == i,
                self.rx_state(*report) == rx_chain_outcome(s0, chain, generation, cycle, received_at_ns, accepted, i as int),
                report_within(base, *report, i as int),
                report_has_room(base),
                self.spec_frames() == old(self).spec_frames(),
                self.spec_cycle() == old(self).spec_cycle(),
                self.spec_config() == old(self).spec_config(),
                s0 == old(self).rx_state(base),
            decreases datagrams@.len() - i,
        {
            let ghost before = self.rx_state(*report);
            let ghost report_before = *report;
            let ghost c_before = *consumer;
            let ghost offers_before = rx_chain_offers(s0, chain, generation, cycle, received_at_ns, accepted, i as int);
            let ghost mut offer: Option<RxOffer> = None;
            assert(chain[i as int] == decoded_view(datagrams@[i as int]));
            let item = datagrams[i];
            let mut answer = true;
            match item {
                Err(_) => {
                    report.corrupt_frames += 1;
                    self.record(EventRecord::new(cycle, received_at_ns, EventCode::FrameCorrupt, EventSeverity::Error, 0, 0, 0));
                },
                Ok(datagram) => {
                    report.parsed_datagrams += 1;
                    let index = datagram.header.index;
                    let entry = self.rx_index.entry(index);
                    if entry.state != RxSlotState::Armed {
                        report.unmatched_datagrams += 1;
                        self.record(EventRecord::new(cycle, received_at_ns, EventCode::RxUnmatched, EventSeverity::Warning, index, entry.state.code() as u32, 0));
                    } else {
                        let response = RxResponse {
                            generation,
                            address: datagram.header.address,
                            payload_size: datagram.payload.len() as u16,
                            command: datagram.header.command.code(),
                            working_counter: datagram.working_counter,
                            received_at_ns,
                        };
                        match self.rx_index.validate_and_complete(index, response) {
                            Ok(completion) => {
                                answer = consumer.accept(cycle, received_at_ns, completion, datagram.header, datagram.payload);
                                proof {
                                    offer = Some(RxOffer { cycle, received_at_ns, completion, header: datagram.header, payload: datagram.payload@ });
                                }
                                if !answer {
                                    report.consumer_rejections += 1;
                                    self.record(EventRecord::new(cycle, received_at_ns, EventCode::ConsumerRejected, EventSeverity::Error, index, datagram.working_counter as u32, 0));
                                }
                            },
                            Err(RxIndexError::WorkingCounterMismatch) => {
                                report.wkc_mismatches += 1;
                                self.record(EventRecord::new(cycle, received_at_ns, EventCode::WorkingCounterMismatch, EventSeverity::Error, index, entry.expected_wkc as u32, datagram.working_counter as u32));
                            },
                            Err(RxIndexError::DeadlineExceeded) => {
                                report.timed_out_datagrams += 1;
                                self.record(EventRecord::new(cycle, received_at_ns, EventCode::RxTimeout, EventSeverity::Error, index, 0, 0));
                            },
                            Err(RxIndexError::UnknownIndex) | Err(RxIndexError::NotArmed) => {
                                report.unmatched_datagrams += 1;
                                self.record(EventRecord::new(cycle, received_at_ns, EventCode::RxUnmatched, EventSeverity::Warning, index, entry.state.code() as u32, 0));
                            },
                            Err(_) => {
                                report.corrupt_frames += 1;
                                self.record(EventRecord::new(cycle, received_at_ns, EventCode::FrameCorrupt, EventSeverity::Error, index, 0, 0));
                            },
                        }
                    }
                },
            }
            proof {
                let next = accepted.push(answer);
                lemma_chain_outcome_prefix(s0, chain, generation, cycle, received_at_ns, accepted, next, i as int);
                assert(self.rx_state(*report) == rx_datagram_step(before, chain[i as int], generation, cycle, received_at_ns, answer));
                assert(rx_datagram_offer(before, chain[i as int], generation, cycle, received_at_ns) == offer);
                match offer {
                    Some(o) => {
                        assert(c0.offered() + offers_before.push(o) =~= (c0.offered() + offers_before).push(o));
                    },
                    None => {},
                }
                accepted = next;
                self.rx_index.lemma_wf_len();
            }
            i = i + 1;
        }
        assert(rx_frame_outcome(s0, bytes@, generation, cycle, received_at_ns, accepted) == self.rx_state(*report));
        Ghost(accepted)
    }

    /// Reject every armed entry past its deadline, counting and recording
    /// each as a timeout in ascending index order.
    fn expire_rx_entries(&mut self, now_ns: u64, report: &mut CycleReport) -> (ix: Ghost<Seq<u8>>)
        requires
            old(self).wf(),
            old(report).timed_out_datagrams <= usize::MAX - 256,
        ensures
            final(self).wf(),
            expiry_indices(old(self).spec_entries(), now_ns, ix@),
            rx_expire_outcome(old(self).rx_state(*old(report)), ix@, now_ns) == final(self).rx_state(*final(report)),
            final(report).timed_out_datagrams <= old(report).timed_out_datagrams + 256,
            *final(report) == (CycleReport { timed_out_datagrams: final(report).timed_out_datagrams, ..*old(report) }),
            final(self).spec_frames() == old(self).spec_frames(),
            final(self).spec_cycle() == old(self).spec_cycle(),
            final(self).spec_config() == old(self).spec_config(),
    {
        let ghost s0 = self.rx_state(*report);
        let ghost entries0 = self.spec_entries();
        proof {
            self.rx_index.lemma_wf_len();
        }
        let expiry = self.rx_index.expire_armed(now_ns);
        let indices = expiry.indices();
        let ghost ix = indices@;
        proof {
            self.rx_index.lemma_wf_len();
            lemma_increasing_bytes_len(ix);
            assert(self.spec_entries() =~= expire_entries(entries0, now_ns));
        }
        let ghost s1 = RxState { entries: expire_entries(entries0, now_ns), ..s0 };
        let mut k: usize = 0;
        while k < indices.len()
            invariant
                self.wf(),
                k <= ix.len() <= 256,
                indices@ == ix,
                report.timed_out_datagrams == s0.report.timed_out_datagrams + k,
                s0.report.timed_out_datagrams <= usize::MAX - 256,
                s1.report == s0.report,
                *report == (CycleReport { timed_out_datagrams: report.timed_out_datagrams, ..s0.report }),
                self.rx_state(*report) == timeout_events(s1, ix, now_ns, k as int),
                self.spec_frames() == old(self).spec_frames(),
                self.spec_cycle() == old(self).spec_cycle(),
                self.spec_config() == old(self).spec_config(),
            decreases ix.len() - k,
        {
            let index = indices[k];
            report.timed_out_datagrams += 1;
            proof {
                lemma_timeout_events(s1, ix, now_ns, k as int);
            }
            self.record(EventRecord::new(report.cycle, now_ns, EventCode::RxTimeout, EventSeverity::Error, index, 0, 0));
            k = k + 1;
        }
        assert(expiry_indices(entries0, now_ns, ix));
        assert(rx_expire_outcome(s0, ix, now_ns) == self.rx_state(*report));
        Ghost(ix)
    }

    /// Flag and record a spent receive budget.
    fn finish_receive_report(&mut self, report: &mut CycleReport, now_ns: u64, deadline_ns: u64)
        requires
            old(self).wf(),
        ensures
            final(self).wf(),
            final(self).rx_state(*final(report)) == rx_budget_outcome(
                old(self).rx_state(*old(report)),
                old(self).spec_config(),
                now_ns,
                deadline_ns,
            ),
            final(self).spec_frames() == old(self).spec_frames(),
            final(self).spec_cycle() == old(self).spec_cycle(),
            final(self).spec_config() == old(self).spec_config(),
    {
        if report.received_frames >= self.config.rx_budget_frames || report.received_bytes
            >= self.config.rx_budget_bytes || now_ns >= deadline_ns {
            report.budget_exhausted = true;
            self.record(EventRecord::new(report.cycle, now_ns, EventCode::RxBudgetExhausted, EventSeverity::Warning, 0,
                report.received_frames as u32, report.received_bytes as u32));
        }
    }

    /// Release completed and rejected RX entries for the next generation.
    fn release_finished_entries(&mut self)
        requires
            old(self).wf(),
        ensures
            final(self).wf(),
            final(self).spec_entries() == release_finished(old(self).spec_entries()),
            final(self).spec_diagnostics() == old(self).spec_diagnostics(),
            final(self).spec_frames() == old(self).spec_frames(),
            final(self).spec_cycle() == old(self).spec_cycle(),
            final(self).spec_config() == old(self).spec_config(),
    {
        proof {
            self.rx_index.lemma_wf_len();
        }
        self.rx_index.reset_complete();
        proof {
            self.rx_index.lemma_wf_len();
        }
        assert(self.spec_entries() =~= release_finished(old(self).spec_entries()));
    }

    /// Take a frame slot stamped with the next cycle's sequence number.
    pub fn acquire_frame(&mut self, generation: u16, deadline_ns: u64) -> (result: Result<FrameHandle, FramePoolError>)
        requires
            old(self).wf(),
        ensures
            final(self).wf(),
            crate::frame_pool::acquire_outcome(old(self).spec_frames(), final(self).spec_frames(),
                wrapping_add_u64(old(self).spec_cycle()), generation, deadline_ns, result),
            final(self).spec_entries() == old(self).spec_entries(),
            final(self).spec_diagnostics() == old(self).spec_diagnostics(),
            final(self).spec_cycle() == old(self).spec_cycle(),
            final(self).spec_config() == old(self).spec_config(),
    {
        let sequence = self.cycle.wrapping_add(1);
        self.frames.acquire(sequence, generation, deadline_ns)
    }

    /// Mutable access to a frame slot in use.
    pub fn frame_slot_mut(&mut self, handle: FrameHandle) -> (slot: Option<&mut FrameSlot<MTU>>)
        requires
            old(self).wf(),
            addressable::<SLOTS>(handle),
        ensures
            final(self).spec_frames().view_used() == old(self).spec_frames().view_used(),
            final(self).spec_entries() == old(self).spec_entries(),
            final(self).spec_diagnostics() == old(self).spec_diagnostics(),
            final(self).spec_cycle() == old(self).spec_cycle(),
            final(self).spec_config() == old(self).spec_config(),
            !slot_in_use(old(self).spec_frames(), handle) ==> slot is None && final(self).spec_frames().view_slots()
                == old(self).spec_frames().view_slots() && final(self).wf(),
            slot_in_use(old(self).spec_frames(), handle) ==> (slot matches Some(s)
                && *s == old(self).spec_frames().view_slots()[handle.spec_index() as int]
                && final(self).spec_frames().view_slots() == old(self).spec_frames().view_slots().update(
                    handle.spec_index() as int,
                    *final(s),
                ) && (final(s).bytes@.len() == MTU ==> final(self).wf())),
    {
        self.frames.slot_mut(handle)
    }

    /// A frame builder for the slot of a handle in use, addressed with the
    /// configured MAC addresses and sized to the slot.
    pub fn frame_builder(&self, handle: FrameHandle) -> (result: Result<FrameBuilder, CycleError<core::convert::Infallible>>)
        requires
            self.wf(),
        ensures
            !slot_in_use(self.spec_frames(), handle) ==> result == Err::<FrameBuilder, CycleError<core::convert::Infallible>>(
                CycleError::FramePool(FramePoolError::InvalidHandle),
            ),
            slot_in_use(self.spec_frames(), handle) && MTU < crate::wire::MIN_ETHERNET_FRAME_LEN ==> result
                == Err::<FrameBuilder, CycleError<core::convert::Infallible>>(CycleError::Wire(WireError::BufferTooSmall)),
            slot_in_use(self.spec_frames(), handle) && MTU >= crate::wire::MIN_ETHERNET_FRAME_LEN ==> (result matches Ok(builder)
                && builder.wf() && builder.images() == Seq::<crate::wire::DatagramImage>::empty()
                && builder.spec_destination() == self.spec_config().destination_mac@
                && builder.spec_source() == self.spec_config().source_mac@
                && builder.spec_capacity() == if MTU < MAX_ETHERNET_FRAME_LEN { MTU as int } else { MAX_ETHERNET_FRAME_LEN as int }),
    {
        if !self.frames.is_in_use(handle) {
            return Err(CycleError::FramePool(FramePoolError::InvalidHandle));
        }
        match FrameBuilder::new(MTU, self.config.destination_mac, self.config.source_mac) {
            Ok(builder) => Ok(builder),
            Err(error) => Err(CycleError::Wire(error)),
        }
    }

    /// Record the encoded length of the frame in a slot in use.
    pub fn finish_frame(&mut self, handle: FrameHandle, length: usize) -> (result: Result<(), CycleError<core::convert::Infallible>>)
        requires
            old(self).wf(),
            addressable::<SLOTS>(handle),
        ensures
            final(self).wf(),
            final(self).spec_entries() == old(self).spec_entries(),
            final(self).spec_diagnostics() == old(self).spec_diagnostics(),
            final(self).spec_cycle() == old(self).spec_cycle(),
            final(self).spec_config() == old(self).spec_config(),
            !slot_in_use(old(self).spec_frames(), handle) ==> result == Err::<(), CycleError<core::convert::Infallible>>(
                CycleError::FramePool(FramePoolError::InvalidHandle),
            ) && final(self).spec_frames().view_slots() == old(self).spec_frames().view_slots()
                && final(self).spec_frames().view_used() == old(self).spec_frames().view_used(),
            slot_in_use(old(self).spec_frames(), handle) && length > MTU ==> result == Err::<(), CycleError<core::convert::Infallible>>(
                CycleError::InvalidFrameLength,
            ) && final(self).spec_frames().view_slots() == old(self).spec_frames().view_slots()
                && final(self).spec_frames().view_used() == old(self).spec_frames().view_used(),
            slot_in_use(old(self).spec_frames(), handle) && length <= MTU ==> result is Ok && slot_rewritten(
                old(self).spec_frames(),
                final(self).spec_frames(),
                handle.spec_index() as int,
                old(self).spec_frames().view_slots()[handle.spec_index() as int].bytes@,
                length,
            ),
    {
        proof {
            self.frames.lemma_wf_shape();
        }
        let slot = match self.frames.slot_mut(handle) {
            Some(slot) => slot,
            None => return Err(CycleError::FramePool(FramePoolError::InvalidHandle)),
        };
        if length > MTU {
            return Err(CycleError::InvalidFrameLength);
        }
        slot.len = length;
        Ok(())
    }

    /// Build a planned frame into the slot of a handle in use and record its
    /// length.
    pub fn build_frame_from_plan<const DATAGRAMS: usize>(
        &mut self,
        handle: FrameHandle,
        plan: &FramePlan<DATAGRAMS>,
        process_image: &[u8],
    ) -> (result: Result<usize, CycleError<core::convert::Infallible>>)
        requires
            old(self).wf(),
            plan.wf(),
            addressable::<SLOTS>(handle),
        ensures
            final(self).wf(),
            final(self).spec_entries() == old(self).spec_entries(),
            final(self).spec_diagnostics() == old(self).spec_diagnostics(),
            final(self).spec_cycle() == old(self).spec_cycle(),
            final(self).spec_config() == old(self).spec_config(),
            !slot_in_use(old(self).spec_frames(), handle) ==> result == Err::<usize, CycleError<core::convert::Infallible>>(
                CycleError::FramePool(FramePoolError::InvalidHandle),
            ) && final(self).spec_frames().view_slots() == old(self).spec_frames().view_slots()
                && final(self).spec_frames().view_used() == old(self).spec_frames().view_used(),
            slot_in_use(old(self).spec_frames(), handle) ==> ({
                let i = handle.spec_index() as int;
                let slot = old(self).spec_frames().view_slots()[i];
                let after = final(self).spec_frames().view_slots()[i];
                &&& (result is Ok || result matches Err(CycleError::Plan(_)))
                &&& crate::plan::build_outcome(plan.spec_datagrams(), slot.bytes@, after.bytes@,
                    old(self).spec_config().destination_mac@, old(self).spec_config().source_mac@, process_image@,
                    plan_view(result))
                &&& slot_rewritten(old(self).spec_frames(), final(self).spec_frames(), i, after.bytes@,
                    match result { Ok(length) => length, Err(_) => slot.len })
            }),
    {
        let destination = self.config.destination_mac;
        let source = self.config.source_mac;
        proof {
            self.frames.lemma_wf_shape();
        }
        let slot = match self.frames.slot_mut(handle) {
            Some(slot) => slot,
            None => return Err(CycleError::FramePool(FramePoolError::InvalidHandle)),
        };
        let ghost before = slot.bytes@;
        let built = plan.build(slot.bytes.as_mut_slice(), destination, source, process_image);
        match built {
            Ok(length) => {
                slot.len = length;
                Ok(length)
            },
            Err(error) => Err(CycleError::Plan(error)),
        }
    }

    /// Build a planned frame into a slot in use and arm every planned
    /// datagram against the slot's generation and deadline, so that no
    /// frame goes out without its completion expectations. A datagram index
    /// that is armed already refuses the whole frame before anything is
    /// built.
    #[verifier::loop_isolation(false)]
    pub fn build_and_arm_frame_from_plan<const DATAGRAMS: usize>(
        &mut self,
        handle: FrameHandle,
        plan: &FramePlan<DATAGRAMS>,
        process_image: &[u8],
    ) -> (result: Result<usize, CycleError<core::convert::Infallible>>)
        requires
            old(self).wf(),
            plan.wf(),
            addressable::<SLOTS>(handle),
        ensures
            final(self).wf(),
            final(self).spec_diagnostics() == old(self).spec_diagnostics(),
            final(self).spec_cycle() == old(self).spec_cycle(),
            final(self).spec_config() == old(self).spec_config(),
            any_armed(old(self).spec_entries(), plan.spec_datagrams()) ==> result
                == Err::<usize, CycleError<core::convert::Infallible>>(CycleError::RxIndex(RxIndexError::AlreadyArmed))
                && final(self).spec_entries() == old(self).spec_entries()
                && final(self).spec_frames().view_slots() == old(self).spec_frames().view_slots()
                && final(self).spec_frames().view_used() == old(self).spec_frames().view_used(),
            !any_armed(old(self).spec_entries(), plan.spec_datagrams()) && !slot_in_use(old(self).spec_frames(), handle)
                ==> result == Err::<usize, CycleError<core::convert::Infallible>>(CycleError::FramePool(FramePoolError::InvalidHandle))
                && final(self).spec_entries() == old(self).spec_entries()
                && final(self).spec_frames().view_slots() == old(self).spec_frames().view_slots()
                && final(self).spec_frames().view_used() == old(self).spec_frames().view_used(),
            !any_armed(old(self).spec_entries(), plan.spec_datagrams()) && slot_in_use(old(self).spec_frames(), handle) ==> ({
                let i = handle.spec_index() as int;
                let ds = plan.spec_datagrams();
                let slot = old(self).spec_frames().view_slots()[i];
                let after = final(self).spec_frames().view_slots()[i];
                let built = built_view(result, after.len);
                &&& (result is Ok || result matches Err(CycleError::Plan(_))
                    || result == Err::<usize, CycleError<core::convert::Infallible>>(CycleError::RxIndex(RxIndexError::InvalidDeadline)))
                &&& crate::plan::build_outcome(ds, slot.bytes@, after.bytes@, old(self).spec_config().destination_mac@,
                    old(self).spec_config().source_mac@, process_image@, built)
                &&& slot_rewritten(old(self).spec_frames(), final(self).spec_frames(), i, after.bytes@,
                    match built { Ok(length) => length, Err(_) => slot.len })
                &&& (built is Err ==> final(self).spec_entries() == old(self).spec_entries())
                &&& (built is Ok && slot.deadline_ns == 0 ==> result == Err::<usize, CycleError<core::convert::Infallible>>(
                    CycleError::RxIndex(RxIndexError::InvalidDeadline)) && final(self).spec_entries() == old(self).spec_entries())
                &&& (built is Ok && slot.deadline_ns != 0 ==> result is Ok
                    && final(self).spec_entries() == arm_all(old(self).spec_entries(), ds, i as u16, slot.generation,
                    slot.deadline_ns, ds.len() as int))
            }),
    {
        let datagrams = plan.datagrams();
        let ghost ds = plan.spec_datagrams();
        proof {
            self.rx_index.lemma_wf_len();
            plan.lemma_distinct();
        }
        let mut j: usize = 0;
        while j < datagrams.len()
            invariant
                self.wf(),
                *self == *old(self),
                datagrams@ == ds,
                ds == plan.spec_datagrams(),
                j <= ds.len(),
                self.spec_entries().len() == 256,
                forall|m: int| 0 <= m < j ==> self.spec_entries()[(#[trigger] ds[m]).index as int].state != RxSlotState::Armed,
            decreases ds.len() - j,
        {
            if self.rx_index.entry(datagrams[j].index).state == RxSlotState::Armed {
                assert(any_armed(old(self).spec_entries(), ds));
                return Err(CycleError::RxIndex(RxIndexError::AlreadyArmed));
            }
            j = j + 1;
        }
        assert(!any_armed(old(self).spec_entries(), ds));
        let length = match self.build_frame_from_plan(handle, plan, process_image) {
            Ok(length) => length,
            Err(error) => return Err(error),
        };
        proof {
            self.frames.lemma_wf_shape();
        }
        let (generation, deadline_ns) = match self.frames.slot(handle) {
            Some(slot) => (slot.generation, slot.deadline_ns),
            None => return Err(CycleError::FramePool(FramePoolError::InvalidHandle)),
        };
        let slot_id = handle.index() as u16;
        let ghost entries0 = self.spec_entries();
        let ghost built = *self;
        let mut k: usize = 0;
        while k < datagrams.len()
            invariant
                self.wf(),
                datagrams@ == ds,
                ds == plan.spec_datagrams(),
                !any_armed(old(self).spec_entries(), ds),
                distinct_plan(ds),
                k <= ds.len(),
                entries0 == old(self).spec_entries(),
                entries0.len() == 256,
                self.spec_entries() == arm_all(entries0, ds, slot_id, generation, deadline_ns, k as int),
                forall|m: int| 0 <= m < ds.len() ==> entries0[(#[trigger] ds[m]).index as int].state != RxSlotState::Armed,
                k > 0 ==> deadline_ns != 0,
                self.spec_frames() == built.spec_frames(),
                self.spec_diagnostics() == old(self).spec_diagnostics(),
                self.spec_cycle() == old(self).spec_cycle(),
                self.spec_config() == old(self).spec_config(),
            decreases ds.len() - k,
        {
            let datagram = datagrams[k];
            proof {
                assert forall|m: int| 0 <= m < k implies ds[m].index as int != ds[k as int].index as int by {
                    assert(ds[m].index != ds[k as int].index);
                }
                lemma_arm_all_other(entries0, ds, slot_id, generation, deadline_ns, k as int, ds[k as int].index as int);
                self.rx_index.lemma_wf_len();
            }
            let expectation = RxExpectation {
                generation,
                deadline_ns,
                expected_address: datagram.address,
                expected_size: datagram.payload_len as u16,
                expected_type: datagram.command.code(),
                expected_wkc: datagram.expected_wkc,
            };
            match self.rx_index.arm(datagram.index, slot_id, expectation) {
                Ok(()) => {},
                Err(error) => {
                    return Err(CycleError::RxIndex(error));
                },
            }
            k = k + 1;
        }
        Ok(length)
    }

    /// Build a planned frame straight into a free DMA TX descriptor and arm
    /// every planned datagram against the given generation and deadline. If
    /// building or arming fails, the descriptor is canceled and the
    /// expectations owned by its index are cleared.
    #[verifier::loop_isolation(false)]
    pub fn build_and_arm_dma_frame_from_plan<const TX: usize, const RX: usize, const DATAGRAMS: usize>(
        &mut self,
        ring: &mut DmaDescriptorRing<TX, RX, MTU>,
        plan: &FramePlan<DATAGRAMS>,
        process_image: &[u8],
        generation: u16,
        deadline_ns: u64,
    ) -> (result: Result<(DmaTxHandle, usize), CycleError<core::convert::Infallible>>)
        requires
            old(self).wf(),
            old(ring).wf(),
            plan.wf(),
        ensures
            final(self).wf(),
            final(ring).wf(),
            final(self).spec_frames() == old(self).spec_frames(),
            final(self).spec_diagnostics() == old(self).spec_diagnostics(),
            final(self).spec_cycle() == old(self).spec_cycle(),
            final(self).spec_config() == old(self).spec_config(),
            final(ring).view_rx() == old(ring).view_rx(),
            final(ring).spec_rx_cursor() == old(ring).spec_rx_cursor(),
            any_armed(old(self).spec_entries(), plan.spec_datagrams()) ==> result == Err::<
                (DmaTxHandle, usize),
                CycleError<core::convert::Infallible>,
            >(CycleError::RxIndex(RxIndexError::AlreadyArmed)) && final(self).spec_entries() == old(self).spec_entries()
                && final(ring).view_tx() == old(ring).view_tx() && final(ring).spec_tx_cursor() == old(ring).spec_tx_cursor(),
            !any_armed(old(self).spec_entries(), plan.spec_datagrams()) ==> match crate::dma::find_owner(
                crate::dma::owners_of(old(ring).view_tx()),
                old(ring).spec_tx_cursor() as int,
                crate::dma::DmaOwner::Free,
            ) {
                None => result == Err::<(DmaTxHandle, usize), CycleError<core::convert::Infallible>>(
                    CycleError::Dma(DmaRingError::NoTxDescriptor),
                ) && final(self).spec_entries() == old(self).spec_entries() && final(ring).view_tx() == old(ring).view_tx()
                    && final(ring).spec_tx_cursor() == old(ring).spec_tx_cursor(),
                Some(i) => {
                    let ds = plan.spec_datagrams();
                    let d = old(ring).view_tx()[i];
                    let g = crate::dma::next_generation(d.generation);
                    let after = final(ring).view_tx()[i];
                    let built = dma_built_view(result, ds, process_image@);
                    &&& final(ring).spec_tx_cursor() == (i + 1) % (TX as int)
                    &&& final(ring).view_tx().len() == old(ring).view_tx().len()
                    &&& forall|k: int| 0 <= k < TX && k != i ==> #[trigger] final(ring).view_tx()[k] == old(ring).view_tx()[k]
                    &&& after.generation == g
                    &&& after.length == 0
                    &&& crate::plan::build_outcome(ds, d.bytes, after.bytes, old(self).spec_config().destination_mac@,
                        old(self).spec_config().source_mac@, process_image@, built)
                    &&& (result matches Ok((h, length)) ==> h.spec_index() == i && h.spec_generation() == g
                        && after.owner == crate::dma::DmaOwner::CpuOwned && final(self).spec_entries() == arm_all(
                        old(self).spec_entries(), ds, i as u16, generation, deadline_ns, ds.len() as int))
                    &&& (built is Err ==> (result matches Err(CycleError::Plan(_))) && after.owner == crate::dma::DmaOwner::Free
                        && final(self).spec_entries() == old(self).spec_entries())
                    &&& (built is Ok && deadline_ns == 0 ==> result == Err::<(DmaTxHandle, usize), CycleError<core::convert::Infallible>>(
                        CycleError::RxIndex(RxIndexError::InvalidDeadline)) && after.owner == crate::dma::DmaOwner::Free
                        && final(self).spec_entries() == cancel_entries(old(self).spec_entries(), i as u16))
                    &&& (built is Ok && deadline_ns != 0 ==> result is Ok)
                },
            },
    {
        let datagrams = plan.datagrams();
        let ghost ds = plan.spec_datagrams();
        proof {
            self.rx_index.lemma_wf_len();
            plan.lemma_distinct();
        }
        let mut j: usize = 0;
        while j < datagrams.len()
            invariant
                self.wf(),
                *self == *old(self),
                datagrams@ == ds,
                ds == plan.spec_datagrams(),
                j <= ds.len(),
                self.spec_entries().len() == 256,
                forall|m: int| 0 <= m < j ==> self.spec_entries()[(#[trigger] ds[m]).index as int].state != RxSlotState::Armed,
            decreases ds.len() - j,
        {
            if self.rx_index.entry(datagrams[j].index).state == RxSlotState::Armed {
                assert(any_armed(old(self).spec_entries(), ds));
                return Err(CycleError::RxIndex(RxIndexError::AlreadyArmed));
            }
            j = j + 1;
        }
        assert(!any_armed(old(self).spec_entries(), ds));
        proof {
            ring.lemma_wf_shape();
        }
        let handle = match ring.tx_acquire() {
            Ok(handle) => handle,
            Err(error) => return Err(CycleError::Dma(error)),
        };
        proof {
            ring.lemma_wf_shape();
        }
        let destination = self.config.destination_mac;
        let source = self.config.source_mac;
        let length = {
            let buffer = match ring.tx_buffer_mut(handle) {
                Ok(buffer) => buffer,
                Err(error) => {
                    let _ = ring.tx_cancel(handle);
                    return Err(CycleError::Dma(error));
                },
            };
            match plan.build(buffer, destination, source, process_image) {
                Ok(length) => length,
                Err(error) => {
                    let _ = ring.tx_cancel(handle);
                    return Err(CycleError::Plan(error));
                },
            }
        };
        let ghost ring_built = *ring;
        let slot_id = handle.index() as u16;
        let ghost entries0 = self.spec_entries();
        let mut k: usize = 0;
        while k < datagrams.len()
            invariant
                self.wf(),
                *ring == ring_built,
                datagrams@ == ds,
                ds == plan.spec_datagrams(),
                distinct_plan(ds),
                k <= ds.len(),
                entries0 == old(self).spec_entries(),
                entries0.len() == 256,
                self.spec_entries() == arm_all(entries0, ds, slot_id, generation, deadline_ns, k as int),
                forall|m: int| 0 <= m < ds.len() ==> entries0[(#[trigger] ds[m]).index as int].state != RxSlotState::Armed,
                k > 0 ==> deadline_ns != 0,
                self.spec_frames() == old(self).spec_frames(),
                self.spec_diagnostics() == old(self).spec_diagnostics(),
                self.spec_cycle() == old(self).spec_cycle(),
                self.spec_config() == old(self).spec_config(),
            decreases ds.len() - k,
        {
            let datagram = datagrams[k];
            proof {
                assert forall|m: int| 0 <= m < k implies ds[m].index as int != ds[k as int].index as int by {
                    assert(ds[m].index != ds[k as int].index);
                }
                lemma_arm_all_other(entries0, ds, slot_id, generation, deadline_ns, k as int, ds[k as int].index as int);
                self.rx_index.lemma_wf_len();
            }
            let expectation = RxExpectation {
                generation,
                deadline_ns,
                expected_address: datagram.address,
                expected_size: datagram.payload_len as u16,
                expected_type: datagram.command.code(),
                expected_wkc: datagram.expected_wkc,
            };
            match self.rx_index.arm(datagram.index, slot_id, expectation) {
                Ok(()) => {},
                Err(error) => {
                    self.cancel_slot(slot_id);
                    let _ = ring.tx_cancel(handle);
                    return Err(CycleError::RxIndex(error));
                },
            }
            k = k + 1;
        }
        Ok((handle, length))
    }

    /// Hand a built DMA frame of `length` bytes to the platform TX path. If
    /// the port refuses it, the descriptor is aborted and the expectations
    /// owned by its index are cleared; otherwise the platform owns the
    /// completion.
    pub fn submit_dma_frame<P: EthercatDmaTxPort, C: DmaCacheOps, const TX: usize, const RX: usize>(
        &mut self,
        port: &mut P,
        ring: &mut DmaDescriptorRing<TX, RX, MTU>,
        handle: DmaTxHandle,
        length: usize,
        cache: &mut C,
    ) -> (result: Result<(), CycleError<P::Error>>)
        requires
            old(self).wf(),
            old(ring).wf(),
        ensures
            final(self).wf(),
            final(ring).wf(),
            final(self).spec_frames() == old(self).spec_frames(),
            final(self).spec_diagnostics() == old(self).spec_diagnostics(),
            final(self).spec_cycle() == old(self).spec_cycle(),
            final(self).spec_config() == old(self).spec_config(),
            final(ring).view_rx() == old(ring).view_rx(),
            final(ring).spec_tx_cursor() == old(ring).spec_tx_cursor(),
            final(ring).spec_rx_cursor() == old(ring).spec_rx_cursor(),
            ({
                let before = old(ring).view_tx();
                let i = handle.spec_index() as int;
                match tx_submit_error(before, handle, length, MTU) {
                    Some(e) => result == Err::<(), CycleError<P::Error>>(CycleError::Dma(e))
                        && final(ring).view_tx() == before && final(self).spec_entries() == old(self).spec_entries()
                        && *final(port) == *old(port) && *final(cache) == *old(cache),
                    None => {
                        &&& crate::dma::logged_calls(*old(cache), *final(cache), crate::dma::submit_calls::<MTU>(
                            crate::dma::CacheOp::CleanBuffer, length))
                        &&& old(port).logs_submissions() ==> final(port).logs_submissions()
                            && final(port).dma_submitted() == old(port).dma_submitted().push(
                            (handle, before[i].bytes.subrange(0, length as int)),
                        )
                        &&& ((result is Ok && final(ring).view_tx() == before.update(
                            i,
                            crate::dma::with_owner(before[i], crate::dma::DmaOwner::DmaOwned, length),
                        ) && final(self).spec_entries() == old(self).spec_entries())
                        || ((result matches Err(CycleError::Port(_))) && final(ring).view_tx() == before.update(
                            i,
                            crate::dma::with_owner(before[i], crate::dma::DmaOwner::Free, 0),
                        ) && final(self).spec_entries() == cancel_entries(old(self).spec_entries(), i as u16)))
                    },
                }
            }),
    {
        proof {
            ring.lemma_wf_shape();
        }
        match ring.tx_submit(handle, length, cache) {
            Ok(()) => {},
            Err(error) => return Err(CycleError::Dma(error)),
        }
        let submitted = {
            let frame = match ring.tx_buffer(handle) {
                Ok(frame) => frame,
                Err(error) => return Err(CycleError::Dma(error)),
            };
            port.tx_submit(handle, frame)
        };
        match submitted {
            Ok(()) => Ok(()),
            Err(error) => {
                self.cancel_dma_frame(handle);
                let _ = ring.tx_abort(handle);
                Err(CycleError::Port(error))
            },
        }
    }

    /// Encode a prepared control request into a frame slot in use, mark it
    /// in flight, record the frame length, and arm its datagram index.
    pub fn build_control_request<const REQUESTS: usize>(
        &mut self,
        pool: &mut ControlRequestPool<REQUESTS>,
        request: RequestHandle,
        frame: FrameHandle,
    ) -> (result: Result<usize, CycleError<core::convert::Infallible>>)
        requires
            old(self).wf(),
            old(pool).wf(),
            addressable::<SLOTS>(frame),
        ensures
            final(self).wf(),
            final(pool).wf(),
            final(self).spec_diagnostics() == old(self).spec_diagnostics(),
            final(self).spec_cycle() == old(self).spec_cycle(),
            final(self).spec_config() == old(self).spec_config(),
            final(pool).spec_used() == old(pool).spec_used(),
            ({
                let q = request.spec_index() as int;
                let i = frame.spec_index() as int;
                let r = old(pool).spec_requests()[q];
                let unchanged = final(self).spec_entries() == old(self).spec_entries()
                    && final(self).spec_frames().view_slots() == old(self).spec_frames().view_slots()
                    && final(self).spec_frames().view_used() == old(self).spec_frames().view_used()
                    && final(pool).spec_requests() == old(pool).spec_requests();
                if !old(pool).is_live(q) {
                    result == Err::<usize, CycleError<core::convert::Infallible>>(CycleError::Control(ControlError::InvalidHandle))
                        && unchanged
                } else if old(self).spec_entries()[r.datagram_index as int].state == RxSlotState::Armed {
                    result == Err::<usize, CycleError<core::convert::Infallible>>(CycleError::RxIndex(RxIndexError::AlreadyArmed))
                        && unchanged
                } else if !slot_in_use(old(self).spec_frames(), frame) {
                    result == Err::<usize, CycleError<core::convert::Infallible>>(CycleError::FramePool(FramePoolError::InvalidHandle))
                        && unchanged
                } else {
                    let slot = old(self).spec_frames().view_slots()[i];
                    let after_slot = final(self).spec_frames().view_slots()[i];
                    let after = final(pool).spec_requests()[q];
                    let built = match result {
                        Ok(length) => Ok(length),
                        Err(CycleError::Control(e)) => Err(e),
                        Err(_) => Ok(after_slot.len),
                    };
                    &&& (result is Ok || result matches Err(CycleError::Control(_)) || result matches Err(CycleError::RxIndex(_)))
                    &&& crate::control::control_build_outcome(r, after, slot.bytes@, after_slot.bytes@,
                        old(self).spec_config().destination_mac@, old(self).spec_config().source_mac@, built)
                    &&& final(pool).spec_requests() == old(pool).spec_requests().update(q, after)
                    &&& slot_rewritten(old(self).spec_frames(), final(self).spec_frames(), i, after_slot.bytes@,
                        match built { Ok(length) => length, Err(_) => slot.len })
                    &&& (built is Err ==> final(self).spec_entries() == old(self).spec_entries())
                    &&& (built is Ok ==> match crate::rx_index::spec_arm(old(self).spec_entries()[r.datagram_index as int],
                        q as u16, after.spec_expectation()) {
                        Ok(entry) => result is Ok && final(self).spec_entries() == old(self).spec_entries().update(
                            r.datagram_index as int, entry),
                        Err(e) => result == Err::<usize, CycleError<core::convert::Infallible>>(CycleError::RxIndex(e))
                            && final(self).spec_entries() == old(self).spec_entries(),
                    })
                }
            }),
    {
        let datagram_index = match pool.get(request) {
            Some(control_request) => control_request.datagram_index,
            None => return Err(CycleError::Control(ControlError::InvalidHandle)),
        };
        if self.rx_index.entry(datagram_index).state == RxSlotState::Armed {
            return Err(CycleError::RxIndex(RxIndexError::AlreadyArmed));
        }
        let destination = self.config.destination_mac;
        let source = self.config.source_mac;
        proof {
            self.frames.lemma_wf_shape();
        }
        let slot = match self.frames.slot_mut(frame) {
            Some(slot) => slot,
            None => return Err(CycleError::FramePool(FramePoolError::InvalidHandle)),
        };
        let control_request = match pool.get_mut(request) {
            Some(control_request) => control_request,
            None => return Err(CycleError::Control(ControlError::InvalidHandle)),
        };
        let length = match control_request.build_frame(slot.bytes.as_mut_slice(), destination, source) {
            Ok(length) => length,
            Err(error) => return Err(CycleError::Control(error)),
        };
        let expectation = control_request.expectation();
        slot.len = length;
        match self.rx_index.arm(datagram_index, request.index() as u16, expectation) {
            Ok(()) => Ok(length),
            Err(error) => Err(CycleError::RxIndex(error)),
        }
    }

    /// Send the frame of a slot through the port and release the slot. A
    /// refused send also clears the expectations owned by the slot.
    pub fn submit_frame<P: EthercatPort>(&mut self, port: &mut P, handle: FrameHandle) -> (result: Result<(), CycleError<P::Error>>)
        requires
            old(self).wf(),
        ensures
            final(self).wf(),
            final(self).spec_diagnostics() == old(self).spec_diagnostics(),
            final(self).spec_cycle() == old(self).spec_cycle(),
            final(self).spec_config() == old(self).spec_config(),
            ({
                let i = handle.spec_index() as int;
                let unchanged = final(self).spec_entries() == old(self).spec_entries()
                    && final(self).spec_frames() == old(self).spec_frames();
                if i >= SLOTS {
                    result == Err::<(), CycleError<P::Error>>(CycleError::FramePool(FramePoolError::InvalidHandle)) && unchanged
                        && *final(port) == *old(port)
                } else if old(self).spec_frames().view_slots()[i].len == 0 || old(self).spec_frames().view_slots()[i].len > MTU {
                    result == Err::<(), CycleError<P::Error>>(CycleError::InvalidFrameLength) && unchanged
                        && *final(port) == *old(port)
                } else {
                    let released = release_result(old(self).spec_frames(), handle);
                    let slot = old(self).spec_frames().view_slots()[i];
                    &&& old(port).logs_io() ==> final(port).logs_io() && final(port).submitted() == old(
                        port,
                    ).submitted().push(slot.bytes@.subrange(0, slot.len as int)) && final(port).polled() == old(
                        port,
                    ).polled()
                    &&& crate::frame_pool::release_outcome(old(self).spec_frames(), final(self).spec_frames(), handle, released)
                    &&& ((result matches Err(CycleError::Port(_))) && final(self).spec_entries() == cancel_entries(
                        old(self).spec_entries(), i as u16)
                        || final(self).spec_entries() == old(self).spec_entries() && match released {
                            Ok(()) => result is Ok,
                            Err(e) => result == Err::<(), CycleError<P::Error>>(CycleError::FramePool(e)),
                        })
                }
            }),
    {
        proof {
            self.frames.lemma_wf_shape();
        }
        let length = match self.frames.slot(handle) {
            Some(slot) => slot.len,
            None => return Err(CycleError::FramePool(FramePoolError::InvalidHandle)),
        };
        if length == 0 || length > MTU {
            return Err(CycleError::InvalidFrameLength);
        }
        let sent = {
            let slot = match self.frames.slot(handle) {
                Some(slot) => slot,
                None => return Err(CycleError::FramePool(FramePoolError::InvalidHandle)),
            };
            let bytes = slot.bytes.as_slice();
            port.tx_submit(&bytes[0..length])
        };
        match sent {
            Ok(()) => match self.frames.release(handle) {
                Ok(()) => Ok(()),
                Err(error) => Err(CycleError::FramePool(error)),
            },
            Err(error) => {
                self.cancel_slot(handle.index() as u16);
                let _ = self.frames.release(handle);
                Err(CycleError::Port(error))
            },
        }
    }

    /// Clear the RX expectations owned by a DMA frame that the platform
    /// refused before hardware took it; the descriptor itself is released
    /// through the ring.
    pub fn cancel_dma_frame(&mut self, handle: DmaTxHandle) -> (canceled: usize)
        requires
            old(self).wf(),
        ensures
            final(self).wf(),
            canceled == crate::rx_index::spec_owned_count(old(self).spec_entries(), handle.spec_index() as u16, 256),
            final(self).spec_entries() == cancel_entries(old(self).spec_entries(), handle.spec_index() as u16),
            final(self).spec_frames() == old(self).spec_frames(),
            final(self).spec_diagnostics() == old(self).spec_diagnostics(),
            final(self).spec_cycle() == old(self).spec_cycle(),
            final(self).spec_config() == old(self).spec_config(),
    {
        self.cancel_slot(handle.index() as u16)
    }

    fn cancel_slot(&mut self, slot_id: u16) -> (canceled: usize)
        requires
            old(self).wf(),
        ensures
            final(self).wf(),
            canceled == crate::rx_index::spec_owned_count(old(self).spec_entries(), slot_id, 256),
            final(self).spec_entries() == cancel_entries(old(self).spec_entries(), slot_id),
            final(self).spec_frames() == old(self).spec_frames(),
            final(self).spec_diagnostics() == old(self).spec_diagnostics(),
            final(self).spec_cycle() == old(self).spec_cycle(),
            final(self).spec_config() == old(self).spec_config(),
    {
        proof {
            self.rx_index.lemma_wf_len();
        }
        let canceled = self.rx_index.cancel_slot(slot_id);
        proof {
            self.rx_index.lemma_wf_len();
        }
        assert(self.spec_entries() =~= cancel_entries(old(self).spec_entries(), slot_id));
        canceled
    }

    /// Start a bounded receive session for frames that the platform takes
    /// from its own DMA RX ring: the cycle counter advances, expired entries
    /// time out, and the deadline is `start_ns` plus the time budget.
    pub fn begin_dma_receive_cycle(&mut self, start_ns: u64, generation: u16) -> (session: DmaReceiveCycle<'_, SLOTS, MTU>)
        requires
            old(self).wf(),
        ensures
            session.wf(),
            ({
                let cycle = wrapping_add_u64(old(self).spec_cycle());
                &&& session.spec_report().cycle == cycle
                &&& session.spec_master().spec_cycle() == cycle
                &&& exists|ix: Seq<u8>|
                    expiry_indices(old(self).spec_entries(), start_ns, ix) && #[trigger] rx_expire_outcome(
                        old(self).rx_state(empty_report(cycle)),
                        ix,
                        start_ns,
                    ) == session.spec_master().rx_state(session.spec_report())
            }),
            session.spec_report() == (CycleReport {
                timed_out_datagrams: session.spec_report().timed_out_datagrams,
                ..empty_report(wrapping_add_u64(old(self).spec_cycle()))
            }),
            session.spec_report().timed_out_datagrams <= 256,
            session.spec_generation() == generation,
            session.spec_deadline() == saturating_add_u64(start_ns, old(self).spec_config().rx_budget_ns),
            session.spec_master().spec_frames() == old(self).spec_frames(),
            session.spec_master().spec_config() == old(self).spec_config(),
            *final(self) == *final(session.spec_master_ref()),
    {
        self.cycle = self.cycle.wrapping_add(1);
        assert(self.cycle == wrapping_add_u64(old(self).spec_cycle()));
        let mut report = CycleReport::new(self.cycle);
        let ghost before = self.rx_state(report);
        assert(before == old(self).rx_state(report));
        let ix = self.expire_rx_entries(start_ns, &mut report);
        let ghost ix = ix@;
        assert(rx_expire_outcome(old(self).rx_state(empty_report(self.cycle)), ix, start_ns) == self.rx_state(report));
        let deadline_ns = start_ns.saturating_add(self.config.rx_budget_ns);
        DmaReceiveCycle { master: self, report, generation, deadline_ns }
    }

    /// Receive until the port is empty or a frame, byte or time budget is
    /// spent, offering validated datagrams to no consumer.
    pub fn cycle_receive<P: EthercatPort>(
        &mut self,
        port: &mut P,
        scratch: &mut [u8; MAX_ETHERNET_FRAME_LEN],
        generation: u16,
    ) -> (result: Result<CycleReport, CycleError<P::Error>>)
        requires
            old(self).wf(),
        ensures
            receive_cycle_outcome(*old(self), *final(self), (), (), *old(port), *final(port), generation,
                old(port).states_link() && old(port).spec_link_state() == LinkState::Down, result),
    {
        let mut noop = ();
        self.cycle_receive_with_consumer(port, scratch, generation, &mut noop)
    }

    /// Receive until the port is empty or a frame, byte or time budget is
    /// spent, offering each validated datagram to `consumer`. A link that is
    /// down at the start ends the cycle at once; a port error ends it with
    /// the error. The cycle also stops before a frame whose datagrams could
    /// overflow a report counter.
    #[verifier::loop_isolation(false)]
    pub fn cycle_receive_with_consumer<P: EthercatPort, C: RxDatagramConsumer>(
        &mut self,
        port: &mut P,
        scratch: &mut [u8; MAX_ETHERNET_FRAME_LEN],
        generation: u16,
        consumer: &mut C,
    ) -> (result: Result<CycleReport, CycleError<P::Error>>)
        requires
            old(self).wf(),
            old(consumer).consumer_ready(),
        ensures
            final(consumer).consumer_ready(),
            receive_cycle_outcome(*old(self), *final(self), *old(consumer), *final(consumer), *old(port), *final(port),
                generation, old(port).states_link() && old(port).spec_link_state() == LinkState::Down, result),
    {
        let ghost before = *self;
        let ghost c0 = *consumer;
        let ghost p0 = *port;
        let ghost c = wrapping_add_u64(before.spec_cycle());
        let start_ns = port.now_ns();
        let mut session = self.begin_dma_receive_cycle(start_ns, generation);
        let ghost master_after = *final(session.spec_master_ref());
        let ghost ix = choose|ix: Seq<u8>|
            expiry_indices(before.spec_entries(), start_ns, ix) && #[trigger] rx_expire_outcome(
                before.rx_state(empty_report(c)),
                ix,
                start_ns,
            ) == session.spec_master().rx_state(session.spec_report());
        let ghost s0 = begun_cycle_state(before, start_ns, ix);
        assert(s0 == session.spec_master().rx_state(session.spec_report()));
        if port.link_state() == LinkState::Down {
            session.record_link_down(start_ns);
            let report = session.report();
            assert(session.spec_master().rx_state(report) == link_down_state(s0, c, start_ns));
            return Ok(report);
        }
        let ghost mut trace: Seq<RxPolled> = Seq::empty();
        let ghost mut polls: Seq<PortPoll> = Seq::empty();
        let ghost mut tail: Seq<PortPoll> = Seq::empty();
        assert(c0.offered() + Seq::<RxOffer>::empty() =~= c0.offered());
        assert(p0.polled() + Seq::<PortPoll>::empty() =~= p0.polled());
        loop
            invariant
                p0 == *old(port),
                p0.logs_io() ==> start_ns == p0.spec_now(),
                p0.logs_io() ==> port.logs_io() && port.submitted() == p0.submitted() && port.polled() == p0.polled()
                    + polls,
                p0.logs_io() ==> polls_match(polls, trace),
                tail == Seq::<PortPoll>::empty(),
                session.wf(),
                consumer.consumer_ready(),
                *final(session.spec_master_ref()) == master_after,
                session.spec_report().cycle == c,
                session.spec_master().spec_cycle() == c,
                session.spec_master().spec_frames() == before.spec_frames(),
                session.spec_master().spec_config() == before.spec_config(),
                session.spec_generation() == generation,
                session.spec_deadline() == saturating_add_u64(start_ns, before.spec_config().rx_budget_ns),
                session.spec_report().received_frames <= before.spec_config().rx_budget_frames,
                session.spec_report().timed_out_datagrams <= usize::MAX - 2048,
                session.spec_master().rx_state(session.spec_report()) == rx_trace_outcome(s0, trace, generation,
                    trace.len() as int),
                offers_logged(c0, *consumer, rx_trace_offers(s0, trace, generation, trace.len() as int)),
            decreases
                before.spec_config().rx_budget_frames - session.spec_report().received_frames,
                usize::MAX - session.spec_report().corrupt_frames,
        {
            let now_ns = port.now_ns();
            if !session.can_consume(now_ns) {
                proof {
                    if p0.logs_io() {
                        assert(port.polled() =~= p0.polled() + polls + tail);
                    }
                    lemma_port_polled_trace(p0, *port, trace, polls, tail);
                    assert(cycle_stopped(p0, *port, trace, session.spec_master().rx_state(session.spec_report()),
                        before.spec_config(), session.spec_deadline()));
                }
                break;
            }
            let ghost s_before = session.spec_master().rx_state(session.spec_report());
            let ghost c_before = *consumer;
            let ghost offers_before = rx_trace_offers(s0, trace, generation, trace.len() as int);
            let polled = port.rx_poll(scratch);
            let ghost record = crate::port::poll_record(polled, scratch@, port.spec_now());
            let length = match polled {
                Ok(RxPoll::Frame(length)) => length,
                Ok(RxPoll::Empty) => {
                    proof {
                        tail = seq![record];
                        if p0.logs_io() {
                            assert(port.polled() =~= p0.polled() + polls + tail);
                        }
                        lemma_port_polled_trace(p0, *port, trace, polls, tail);
                        assert(cycle_stopped(p0, *port, trace, session.spec_master().rx_state(session.spec_report()),
                            before.spec_config(), session.spec_deadline()));
                    }
                    break;
                },
                Ok(RxPoll::LinkDown) => {
                    let now_ns = port.now_ns();
                    session.record_link_down(now_ns);
                    proof {
                        let p = RxPolled::LinkDown(now_ns);
                        lemma_trace_prefix(s0, trace, p, generation, trace.len() as int);
                        assert(offers_before + Seq::<RxOffer>::empty() =~= offers_before);
                        if p0.logs_io() {
                            assert(poll_matches(record, p));
                            assert(p0.polled() + polls.push(record) =~= (p0.polled() + polls).push(record));
                        }
                        trace = trace.push(p);
                        polls = polls.push(record);
                        if p0.logs_io() {
                            assert(port.polled() =~= p0.polled() + polls + tail);
                        }
                        lemma_port_polled_trace(p0, *port, trace, polls, tail);
                        assert(cycle_stopped(p0, *port, trace, session.spec_master().rx_state(session.spec_report()),
                            before.spec_config(), session.spec_deadline()));
                    }
                    break;
                },
                Err(error) => {
                    proof {
                        tail = seq![record];
                        if p0.logs_io() {
                            assert(port.polled() =~= p0.polled() + polls + tail);
                        }
                        lemma_port_polled_trace(p0, *port, trace, polls, tail);
                    }
                    return Err(CycleError::Port(error));
                },
            };
            if !session.report().has_room() {
                proof {
                    tail = seq![record];
                    if p0.logs_io() {
                        assert(port.polled() =~= p0.polled() + polls + tail);
                    }
                    lemma_port_polled_trace(p0, *port, trace, polls, tail);
                    assert(cycle_stopped(p0, *port, trace, session.spec_master().rx_state(session.spec_report()),
                        before.spec_config(), session.spec_deadline()));
                }
                break;
            }
            let received_at_ns = port.now_ns();
            let ghost frame = scratch@.subrange(0, length as int);
            session.accept_polled_frame(scratch.as_slice(), length, received_at_ns, consumer);
            proof {
                let p = if length == 0 || length > MAX_ETHERNET_FRAME_LEN {
                    assert(offers_before + Seq::<RxOffer>::empty() =~= offers_before);
                    RxPolled::Corrupt(length, received_at_ns)
                } else {
                    let r = s_before.report;
                    let counted = CycleReport {
                        received_frames: (r.received_frames + 1) as usize,
                        received_bytes: saturating_add_usize(r.received_bytes, length),
                        ..r
                    };
                    let accepted = choose|accepted: Seq<bool>|
                        #[trigger] rx_frame_outcome(with_report(s_before, counted), frame, generation, r.cycle,
                            received_at_ns, accepted) == session.spec_master().rx_state(session.spec_report())
                            && offers_logged(c_before, *consumer, rx_frame_offers(with_report(s_before, counted),
                            frame, generation, r.cycle, received_at_ns, accepted));
                    let offers = rx_frame_offers(with_report(s_before, counted), frame, generation, r.cycle,
                        received_at_ns, accepted);
                    assert(c0.offered() + (offers_before + offers) =~= (c0.offered() + offers_before) + offers);
                    RxPolled::Frame(frame, received_at_ns, accepted)
                };
                lemma_trace_prefix(s0, trace, p, generation, trace.len() as int);
                if p0.logs_io() {
                    assert(poll_matches(record, p));
                    assert(p0.polled() + polls.push(record) =~= (p0.polled() + polls).push(record));
                }
                trace = trace.push(p);
                polls = polls.push(record);
            }
        }
        let now_ns = port.now_ns();
        let ghost pre = session.spec_master();
        let ghost rep = session.spec_report();
        let ghost deadline = session.spec_deadline();
        let report = session.finish(now_ns);
        proof {
            let ix_end = choose|ix_end: Seq<u8>|
                expiry_indices(pre.spec_entries(), now_ns, ix_end) && {
                    let closed = rx_budget_outcome(
                        #[trigger] rx_expire_outcome(pre.rx_state(rep), ix_end, now_ns),
                        pre.spec_config(),
                        now_ns,
                        deadline,
                    );
                    &&& report == closed.report
                    &&& master_after.rx_state(report) == RxState { entries: release_finished(closed.entries), ..closed }
                };
            let s1 = rx_trace_outcome(s0, trace, generation, trace.len() as int);
            assert(pre.rx_state(rep) == s1);
            assert(master_after.rx_state(report) == closed_cycle_state(s1, before.spec_config(), now_ns,
                saturating_add_u64(start_ns, before.spec_config().rx_budget_ns), ix_end));
            assert(expiry_indices(s1.entries, now_ns, ix_end));
        }
        Ok(report)
    }
}


pub open spec fn wrapping_add_u64(x: u64) -> u64 {
    if x == u64::MAX {
        0
    } else {
        (x + 1) as u64
    }
}


pub open spec fn saturating_add_usize(x: usize, y: usize) -> usize {
    if x + y > usize::MAX {
        usize::MAX
    } else {
        (x + y) as usize
    }
}

/// A receive session over frames taken from a platform DMA RX ring. The
/// platform polls and completes descriptors itself and hands each completed
/// frame to `consume_frame`, which parses it in place; `finish` closes the
/// bounded cycle and releases completed RX entries.
pub struct DmaReceiveCycle<'master, const SLOTS: usize, const MTU: usize> {
    master: &'master mut EthercatMaster<SLOTS, MTU>,
    report: CycleReport,
    generation: u16,
    deadline_ns: u64,
}

impl<'master, const SLOTS: usize, const MTU: usize> DmaReceiveCycle<'master, SLOTS, MTU> {
    pub closed spec fn spec_master(&self) -> EthercatMaster<SLOTS, MTU> {
        *self.master
    }

    /// The borrow of the master that the session holds.
    pub closed spec fn spec_master_ref(&self) -> &'master mut EthercatMaster<SLOTS, MTU> {
        self.master
    }

    pub closed spec fn spec_report(&self) -> CycleReport {
        self.report
    }

    pub closed spec fn spec_generation(&self) -> u16 {
        self.generation
    }

    pub closed spec fn spec_deadline(&self) -> u64 {
        self.deadline_ns
    }

    pub closed spec fn wf(&self) -> bool {
        self.master.wf()
    }

    pub fn cycle(&self) -> (cycle: u64)
        ensures
            cycle == self.spec_report().cycle,
    {
        self.report.cycle
    }

    pub fn deadline_ns(&self) -> (deadline_ns: u64)
        ensures
            deadline_ns == self.spec_deadline(),
    {
        self.deadline_ns
    }

    pub fn report(&self) -> (report: CycleReport)
        ensures
            report == self.spec_report(),
    {
        self.report
    }

    /// Whether another frame may be consumed within the frame, byte and time
    /// budgets.
    pub fn can_consume(&self, now_ns: u64) -> (can: bool)
        ensures
            can == !budget_spent(self.spec_master().spec_config(), self.spec_report(), now_ns, self.spec_deadline()),
    {
        self.report.received_frames < self.master.config.rx_budget_frames && self.report.received_bytes
            < self.master.config.rx_budget_bytes && now_ns < self.deadline_ns
    }

    /// Parse and validate one descriptor-backed frame in place. Outside the
    /// budget the frame is not looked at and the budget is flagged as
    /// exhausted; an empty or oversized frame is counted corrupt.
    pub fn consume_frame<C: RxDatagramConsumer>(&mut self, frame: &[u8], received_at_ns: u64, consumer: &mut C)
        requires
            old(self).wf(),
            report_has_room(old(self).spec_report()),
            old(consumer).consumer_ready(),
        ensures
            final(self).wf(),
            final(consumer).consumer_ready(),
            final(self).spec_generation() == old(self).spec_generation(),
            final(self).spec_deadline() == old(self).spec_deadline(),
            final(self).spec_master().spec_frames() == old(self).spec_master().spec_frames(),
            final(self).spec_master().spec_cycle() == old(self).spec_master().spec_cycle(),
            final(self).spec_master().spec_config() == old(self).spec_master().spec_config(),
            *final(final(self).spec_master_ref()) == *final(old(self).spec_master_ref()),
            ({
                let m = old(self).spec_master();
                let r = old(self).spec_report();
                let len = frame@.len();
                if budget_spent(m.spec_config(), r, received_at_ns, old(self).spec_deadline()) {
                    final(self).spec_report() == (CycleReport { budget_exhausted: true, ..r })
                        && final(self).spec_master() == m && *final(consumer) == *old(consumer)
                } else if len == 0 || len > MAX_ETHERNET_FRAME_LEN {
                    *final(consumer) == *old(consumer)
                    && final(self).spec_master().rx_state(final(self).spec_report()) == record_event(
                        with_report(m.rx_state(r), CycleReport { corrupt_frames: bump(r.corrupt_frames), ..r }),
                        event(r.cycle, received_at_ns, EventCode::FrameCorrupt, EventSeverity::Error, 0, len as u32,
                            MAX_ETHERNET_FRAME_LEN as u32),
                    )
                } else {
                    let counted = CycleReport {
                        received_frames: (r.received_frames + 1) as usize,
                        received_bytes: saturating_add_usize(r.received_bytes, len as usize),
                        ..r
                    };
                    exists|accepted: Seq<bool>|
                        #[trigger] rx_frame_outcome(m.rx_state(counted), frame@, old(self).spec_generation(), r.cycle,
                            received_at_ns, accepted) == final(self).spec_master().rx_state(final(self).spec_report())
                        && offers_logged(*old(consumer), *final(consumer), rx_frame_offers(m.rx_state(counted), frame@,
                            old(self).spec_generation(), r.cycle, received_at_ns, accepted))
                }
            }),
    {
        if !self.can_consume(received_at_ns) {
            self.report.budget_exhausted = true;
            return;
        }
        if frame.len() == 0 || frame.len() > MAX_ETHERNET_FRAME_LEN {
            self.master.record_corrupt_frame(self.report.cycle, received_at_ns, frame.len(), MAX_ETHERNET_FRAME_LEN);
            self.report.corrupt_frames += 1;
            return;
        }
        self.report.received_frames += 1;
        self.report.received_bytes = self.report.received_bytes.saturating_add(frame.len());
        let ghost counted = self.report;
        let ghost m0 = *self.master;
        let accepted = self.master.process_received_frame(frame, self.generation, self.report.cycle, received_at_ns, &mut self.report, consumer);
        proof {
            let accepted = accepted@;
            let r = old(self).spec_report();
            assert(counted == CycleReport {
                received_frames: (r.received_frames + 1) as usize,
                received_bytes: saturating_add_usize(r.received_bytes, frame@.len() as usize),
                ..r
            });
            assert(rx_frame_outcome(old(self).spec_master().rx_state(CycleReport {
                received_frames: (r.received_frames + 1) as usize,
                received_bytes: saturating_add_usize(r.received_bytes, frame@.len() as usize),
                ..r
            }), frame@, old(self).spec_generation(), r.cycle, received_at_ns, accepted)
                == self.spec_master().rx_state(self.spec_report()));
            assert(m0.rx_state(counted) == old(self).spec_master().rx_state(counted));
        }
    }

    /// Count a frame that a port polled into `scratch` with the reported
    /// `length`: a length of zero or beyond the scratch storage is counted
    /// corrupt, anything else is received and processed.
    pub fn accept_polled_frame<C: RxDatagramConsumer>(
        &mut self,
        scratch: &[u8],
        length: usize,
        received_at_ns: u64,
        consumer: &mut C,
    )
        requires
            old(self).wf(),
            report_has_room(old(self).spec_report()),
            old(self).spec_report().received_frames < old(self).spec_master().spec_config().rx_budget_frames,
            old(consumer).consumer_ready(),
        ensures
            final(self).wf(),
            final(consumer).consumer_ready(),
            final(self).spec_generation() == old(self).spec_generation(),
            final(self).spec_deadline() == old(self).spec_deadline(),
            final(self).spec_master().spec_frames() == old(self).spec_master().spec_frames(),
            final(self).spec_master().spec_cycle() == old(self).spec_master().spec_cycle(),
            final(self).spec_master().spec_config() == old(self).spec_master().spec_config(),
            *final(final(self).spec_master_ref()) == *final(old(self).spec_master_ref()),
            final(self).spec_report().cycle == old(self).spec_report().cycle,
            final(self).spec_report().timed_out_datagrams <= old(self).spec_report().timed_out_datagrams + 2048,
            if length == 0 || length > scratch@.len() {
                final(self).spec_report().received_frames == old(self).spec_report().received_frames
                    && final(self).spec_report().corrupt_frames == old(self).spec_report().corrupt_frames + 1
            } else {
                final(self).spec_report().received_frames == old(self).spec_report().received_frames + 1
            },
            ({
                let m = old(self).spec_master();
                let r = old(self).spec_report();
                if length == 0 || length > scratch@.len() {
                    *final(consumer) == *old(consumer)
                    && final(self).spec_master().rx_state(final(self).spec_report()) == record_event(
                        with_report(m.rx_state(r), CycleReport { corrupt_frames: bump(r.corrupt_frames), ..r }),
                        event(r.cycle, received_at_ns, EventCode::FrameCorrupt, EventSeverity::Error, 0, length as u32,
                            scratch@.len() as u32),
                    )
                } else {
                    let counted = CycleReport {
                        received_frames: (r.received_frames + 1) as usize,
                        received_bytes: saturating_add_usize(r.received_bytes, length),
                        ..r
                    };
                    exists|accepted: Seq<bool>|
                        #[trigger] rx_frame_outcome(m.rx_state(counted), scratch@.subrange(0, length as int),
                            old(self).spec_generation(), r.cycle, received_at_ns, accepted)
                            == final(self).spec_master().rx_state(final(self).spec_report())
                        && offers_logged(*old(consumer), *final(consumer), rx_frame_offers(m.rx_state(counted),
                            scratch@.subrange(0, length as int), old(self).spec_generation(), r.cycle, received_at_ns,
                            accepted))
                }
            }),
    {
        if length > scratch.len() || length == 0 {
            self.report.corrupt_frames += 1;
            self.master.record_corrupt_frame(self.report.cycle, received_at_ns, length, scratch.len());
            return;
        }
        self.report.received_frames += 1;
        self.report.received_bytes = self.report.received_bytes.saturating_add(length);
        let frame = &scratch[0..length];
        let ghost counted = self.report;
        let ghost m0 = *self.master;
        let accepted = self.master.process_received_frame(frame, self.generation, self.report.cycle, received_at_ns, &mut self.report, consumer);
        proof {
            let accepted = accepted@;
            let r = old(self).spec_report();
            assert(counted == CycleReport {
                received_frames: (r.received_frames + 1) as usize,
                received_bytes: saturating_add_usize(r.received_bytes, length),
                ..r
            });
            assert(frame@ == scratch@.subrange(0, length as int));
            assert(rx_frame_outcome(old(self).spec_master().rx_state(CycleReport {
                received_frames: (r.received_frames + 1) as usize,
                received_bytes: saturating_add_usize(r.received_bytes, length),
                ..r
            }), scratch@.subrange(0, length as int), old(self).spec_generation(), r.cycle, received_at_ns, accepted)
                == self.spec_master().rx_state(self.spec_report()));
            assert(m0.rx_state(counted) == old(self).spec_master().rx_state(counted));
        }
    }

    /// Flag a lost link and record it.
    pub fn record_link_down(&mut self, now_ns: u64)
        requires
            old(self).wf(),
        ensures
            final(self).wf(),
            final(self).spec_generation() == old(self).spec_generation(),
            final(self).spec_deadline() == old(self).spec_deadline(),
            final(self).spec_master().spec_frames() == old(self).spec_master().spec_frames(),
            final(self).spec_master().spec_cycle() == old(self).spec_master().spec_cycle(),
            final(self).spec_master().spec_config() == old(self).spec_master().spec_config(),
            *final(final(self).spec_master_ref()) == *final(old(self).spec_master_ref()),
            final(self).spec_master().rx_state(final(self).spec_report()) == record_event(
                with_report(
                    old(self).spec_master().rx_state(old(self).spec_report()),
                    CycleReport { link_down: true, ..old(self).spec_report() },
                ),
                event(old(self).spec_report().cycle, now_ns, EventCode::LinkDown, EventSeverity::Fault, 0, 0, 0),
            ),
    {
        self.report.link_down = true;
        self.master.record(EventRecord::new(self.report.cycle, now_ns, EventCode::LinkDown, EventSeverity::Fault, 0, 0, 0));
    }

    /// Close the receive cycle: time out expired entries, flag a spent
    /// budget, and release completed and rejected entries for the next
    /// generation.
    pub fn finish(self, now_ns: u64) -> (report: CycleReport)
        requires
            self.wf(),
            self.spec_report().timed_out_datagrams <= usize::MAX - 256,
        ensures
            report.cycle == self.spec_report().cycle,
            report.received_frames == self.spec_report().received_frames,
            report.link_down == self.spec_report().link_down,
            ({
                let m = *final(self.spec_master_ref());
                let before = self.spec_master();
                &&& m.wf()
                &&& m.spec_frames() == before.spec_frames()
                &&& m.spec_cycle() == before.spec_cycle()
                &&& m.spec_config() == before.spec_config()
                &&& exists|ix: Seq<u8>|
                    expiry_indices(before.spec_entries(), now_ns, ix) && {
                        let closed = rx_budget_outcome(
                            #[trigger] rx_expire_outcome(before.rx_state(self.spec_report()), ix, now_ns),
                            before.spec_config(),
                            now_ns,
                            self.spec_deadline(),
                        );
                        &&& report == closed.report
                        &&& m.rx_state(report) == RxState { entries: release_finished(closed.entries), ..closed }
                    }
            }),
    {
        let DmaReceiveCycle { master, report, generation: _, deadline_ns } = self;
        let mut report = report;
        let ghost before = *master;
        let ghost report0 = report;
        let ix = master.expire_rx_entries(now_ns, &mut report);
        let ghost ix = ix@;
        let ghost expired = report;
        master.finish_receive_report(&mut report, now_ns, deadline_ns);
        master.release_finished_entries();
        proof {
            let closed = rx_budget_outcome(rx_expire_outcome(before.rx_state(report0), ix, now_ns), before.spec_config(), now_ns, deadline_ns);
            assert(report == closed.report);
            assert(master.rx_state(report) == RxState { entries: release_finished(closed.entries), ..closed });
            assert(expiry_indices(self.spec_master().spec_entries(), now_ns, ix) && {
                let closed = rx_budget_outcome(
                    rx_expire_outcome(self.spec_master().rx_state(self.spec_report()), ix, now_ns),
                    self.spec_master().spec_config(),
                    now_ns,
                    self.spec_deadline(),
                );
                &&& report == closed.report
                &&& master.rx_state(report) == RxState { entries: release_finished(closed.entries), ..closed }
            });
        }
        report
    }
}

} // verus!
