//! Fixed-size binary diagnostics: event records and CoE Emergency events
//! queued by the realtime side for a non-realtime consumer. A full queue
//! drops the new event and counts it as lost; it never blocks.
use vstd::prelude::*;
use crate::coe::CoeEmergency;
use crate::ring::{is_power_of_two, SpscRing};

verus! {

#[derive(Clone, Copy, Debug, PartialEq, Eq, Structural)]
pub enum EventCode {
    LinkDown,
    FrameCorrupt,
    RxUnmatched,
    WorkingCounterMismatch,
    ConsumerRejected,
    RxBudgetExhausted,
    RxTimeout,
}

impl EventCode {
    pub open spec fn spec_code(self) -> u16 {
        match self {
            EventCode::LinkDown => 1,
            EventCode::FrameCorrupt => 2,
            EventCode::RxUnmatched => 3,
            EventCode::WorkingCounterMismatch => 4,
            EventCode::ConsumerRejected => 5,
            EventCode::RxBudgetExhausted => 6,
            EventCode::RxTimeout => 7,
        }
    }

    /// The event's number in the binary record format.
    pub fn code(self) -> (code: u16)
        ensures
            code == self.spec_code(),
    {
        match self {
            EventCode::LinkDown => 1,
            EventCode::FrameCorrupt => 2,
            EventCode::RxUnmatched => 3,
            EventCode::WorkingCounterMismatch => 4,
            EventCode::ConsumerRejected => 5,
            EventCode::RxBudgetExhausted => 6,
            EventCode::RxTimeout => 7,
        }
    }
}

#[derive(Clone, Copy, Debug, PartialEq, Eq, Structural)]
pub enum EventSeverity {
    Info,
    Warning,
    Error,
    Fault,
}

impl EventSeverity {
    pub open spec fn spec_code(self) -> u8 {
        match self {
            EventSeverity::Info => 1,
            EventSeverity::Warning => 2,
            EventSeverity::Error => 3,
            EventSeverity::Fault => 4,
        }
    }

    /// The severity's number in the binary record format.
    pub fn code(self) -> (code: u8)
        ensures
            code == self.spec_code(),
    {
        match self {
            EventSeverity::Info => 1,
            EventSeverity::Warning => 2,
            EventSeverity::Error => 3,
            EventSeverity::Fault => 4,
        }
    }
}

#[derive(Clone, Copy, Debug, PartialEq, Eq, Structural)]
pub struct EventRecord {
    pub cycle: u64,
    pub timestamp_ns: u64,
    pub code: EventCode,
    pub severity: EventSeverity,
    pub index: u8,
    pub reserved: u8,
    pub value: u32,
    pub aux: u32,
}

impl EventRecord {
    pub fn new(
        cycle: u64,
        timestamp_ns: u64,
        code: EventCode,
        severity: EventSeverity,
        index: u8,
        value: u32,
        aux: u32,
    ) -> (record: Self)
        ensures
            record == (EventRecord {
                cycle,
                timestamp_ns,
                code,
                severity,
                index,
                reserved: 0,
                value,
                aux,
            }),
    {
        EventRecord { cycle, timestamp_ns, code, severity, index, reserved: 0, value, aux }
    }
}

/// `count` plus one, wrapping at the top of `usize`.
pub open spec fn wrapping_increment(count: usize) -> usize {
    if count < usize::MAX {
        (count + 1) as usize
    } else {
        0
    }
}

/// Fixed diagnostic event queue.
pub struct Diagnostics<const EVENTS: usize> {
    events: SpscRing<EventRecord, EVENTS>,
    lost_events: usize,
}

impl<const EVENTS: usize> Diagnostics<EVENTS> {
    pub closed spec fn view_events(&self) -> Seq<EventRecord> {
        self.events.view_items()
    }

    pub closed spec fn spec_lost_events(&self) -> usize {
        self.lost_events
    }

    pub closed spec fn wf(&self) -> bool {
        self.events.wf()
    }

    pub fn new() -> (diagnostics: Self)
        requires
            is_power_of_two(EVENTS as nat),
        ensures
            diagnostics.wf(),
            diagnostics.view_events() == Seq::<EventRecord>::empty(),
            diagnostics.spec_lost_events() == 0,
    {
        Diagnostics { events: SpscRing::new(), lost_events: 0 }
    }

    /// Queue `event`; when the queue is full the event is dropped, counted
    /// as lost, and false is returned.
    pub fn record(&mut self, event: EventRecord) -> (queued: bool)
        ensures
            old(self).wf() ==> final(self).wf(),
            old(self).wf() ==> queued == (old(self).view_events().len() < EVENTS),
            old(self).wf() && queued ==> final(self).view_events() == old(self).view_events().push(event)
                && final(self).spec_lost_events() == old(self).spec_lost_events(),
            old(self).wf() && !queued ==> final(self).view_events() == old(self).view_events()
                && final(self).spec_lost_events() == wrapping_increment(
                old(self).spec_lost_events(),
            ),
    {
        match self.events.push(event) {
            Ok(()) => true,
            Err(_) => {
                self.lost_events = self.lost_events.wrapping_add(1);
                false
            },
        }
    }

    /// Take the oldest queued event.
    pub fn pop(&mut self) -> (event: Option<EventRecord>)
        ensures
            old(self).wf() ==> final(self).wf(),
            final(self).spec_lost_events() == old(self).spec_lost_events(),
            old(self).wf() && old(self).view_events().len() == 0 ==> event is None && final(self).view_events()
                == old(self).view_events(),
            old(self).wf() && old(self).view_events().len() > 0 ==> event == Some(old(self).view_events()[0])
                && final(self).view_events() == old(self).view_events().drop_first(),
    {
        self.events.pop()
    }

    pub fn pending(&self) -> (pending: usize)
        ensures
            pending == self.view_events().len(),
    {
        self.events.len()
    }

    pub fn lost_events(&self) -> (lost: usize)
        ensures
            lost == self.spec_lost_events(),
    {
        self.lost_events
    }
}

#[derive(Clone, Copy, Debug, PartialEq, Eq)]
pub struct CoeEmergencyEvent {
    pub timestamp_ns: u64,
    pub station_address: u16,
    pub generation: u16,
    pub counter: u8,
    pub reserved: [u8; 3],
    pub error_code: u16,
    pub error_register: u8,
    pub manufacturer_data: [u8; 5],
}

impl CoeEmergencyEvent {
    pub fn new(
        timestamp_ns: u64,
        station_address: u16,
        generation: u16,
        counter: u8,
        emergency: CoeEmergency,
    ) -> (event: Self)
        ensures
            event.timestamp_ns == timestamp_ns,
            event.station_address == station_address,
            event.generation == generation,
            event.counter == counter,
            event.reserved@ == seq![0u8, 0u8, 0u8],
            event.error_code == emergency.error_code,
            event.error_register == emergency.error_register,
            event.manufacturer_data@ == emergency.manufacturer_data@,
    {
        let event = CoeEmergencyEvent {
            timestamp_ns,
            station_address,
            generation,
            counter,
            reserved: [0u8; 3],
            error_code: emergency.error_code,
            error_register: emergency.error_register,
            manufacturer_data: emergency.manufacturer_data,
        };
        assert(event.reserved@ =~= seq![0u8, 0u8, 0u8]);
        event
    }
}

/// A non-blocking destination for CoE Emergency notifications. `record`
/// returns whether the event was kept.
pub trait EmergencySink {
    /// Whether the sink keeps a log of the events handed to it; a sink that
    /// does records every `record` in `recorded`.
    open spec fn logs_events(&self) -> bool {
        false
    }

    /// The events handed to the sink so far, oldest first, when
    /// `logs_events`.
    open spec fn recorded(&self) -> Seq<CoeEmergencyEvent> {
        Seq::empty()
    }

    /// The sink's own invariant, kept by every `record`; none unless the
    /// sink states one.
    open spec fn sink_wf(&self) -> bool {
        true
    }

    /// The events the sink keeps, oldest first, when `logs_events`.
    open spec fn kept_events(&self) -> Seq<CoeEmergencyEvent> {
        Seq::empty()
    }

    /// How many events the sink keeps at most, when `logs_events`.
    open spec fn sink_capacity(&self) -> nat {
        0
    }

    fn record(&mut self, event: CoeEmergencyEvent) -> (kept: bool)
        ensures
            old(self).sink_wf() ==> final(self).sink_wf(),
            old(self).logs_events() ==> final(self).logs_events() && final(self).recorded() == old(
                self,
            ).recorded().push(event),
            old(self).logs_events() && old(self).sink_wf() ==> kept == (old(self).kept_events().len()
                < old(self).sink_capacity()) && final(self).kept_events() == if kept {
                old(self).kept_events().push(event)
            } else {
                old(self).kept_events()
            },
    ;
}

/// Fixed-size Emergency queue; overflow is counted in `lost_events`.
pub struct CoeEmergencyQueue<const EVENTS: usize> {
    events: SpscRing<CoeEmergencyEvent, EVENTS>,
    lost_events: usize,
    handed: Ghost<Seq<CoeEmergencyEvent>>,
}

impl<const EVENTS: usize> CoeEmergencyQueue<EVENTS> {
    pub closed spec fn view_events(&self) -> Seq<CoeEmergencyEvent> {
        self.events.view_items()
    }

    pub closed spec fn spec_lost_events(&self) -> usize {
        self.lost_events
    }

    pub closed spec fn wf(&self) -> bool {
        self.events.wf()
    }

    pub fn new() -> (queue: Self)
        requires
            is_power_of_two(EVENTS as nat),
        ensures
            queue.wf(),
            queue.view_events() == Seq::<CoeEmergencyEvent>::empty(),
            queue.spec_lost_events() == 0,
    {
        CoeEmergencyQueue { events: SpscRing::new(), lost_events: 0, handed: Ghost(Seq::empty()) }
    }

    /// Every event handed to the queue, kept or lost, oldest first.
    pub closed spec fn spec_handed(&self) -> Seq<CoeEmergencyEvent> {
        self.handed@
    }

    pub fn record(&mut self, event: CoeEmergencyEvent) -> (queued: bool)
        ensures
            final(self).spec_handed() == old(self).spec_handed().push(event),
            old(self).wf() ==> final(self).wf(),
            old(self).wf() ==> queued == (old(self).view_events().len() < EVENTS),
            old(self).wf() && queued ==> final(self).view_events() == old(self).view_events().push(event)
                && final(self).spec_lost_events() == old(self).spec_lost_events(),
            old(self).wf() && !queued ==> final(self).view_events() == old(self).view_events()
                && final(self).spec_lost_events() == wrapping_increment(
                old(self).spec_lost_events(),
            ),
    {
        proof {
            self.handed@ = self.handed@.push(event);
        }
        match self.events.push(event) {
            Ok(()) => true,
            Err(_) => {
                self.lost_events = self.lost_events.wrapping_add(1);
                false
            },
        }
    }

    pub fn pop(&mut self) -> (event: Option<CoeEmergencyEvent>)
        ensures
            old(self).wf() ==> final(self).wf(),
            final(self).spec_lost_events() == old(self).spec_lost_events(),
            old(self).wf() && old(self).view_events().len() == 0 ==> event is None && final(self).view_events()
                == old(self).view_events(),
            old(self).wf() && old(self).view_events().len() > 0 ==> event == Some(old(self).view_events()[0])
                && final(self).view_events() == old(self).view_events().drop_first(),
    {
        self.events.pop()
    }

    pub fn pending(&self) -> (pending: usize)
        ensures
            pending == self.view_events().len(),
    {
        self.events.len()
    }

    pub fn lost_events(&self) -> (lost: usize)
        ensures
            lost == self.spec_lost_events(),
    {
        self.lost_events
    }
}

impl<const EVENTS: usize> EmergencySink for CoeEmergencyQueue<EVENTS> {
    open spec fn logs_events(&self) -> bool {
        true
    }

    open spec fn recorded(&self) -> Seq<CoeEmergencyEvent> {
        self.spec_handed()
    }

    open spec fn sink_wf(&self) -> bool {
        self.wf()
    }

    open spec fn kept_events(&self) -> Seq<CoeEmergencyEvent> {
        self.view_events()
    }

    open spec fn sink_capacity(&self) -> nat {
        EVENTS as nat
    }

    fn record(&mut self, event: CoeEmergencyEvent) -> (kept: bool)
        ensures
            old(self).wf() ==> final(self).wf(),
            old(self).wf() ==> kept == (old(self).view_events().len() < EVENTS),
            old(self).wf() && kept ==> final(self).view_events() == old(self).view_events().push(
                event,
            ),
    {
        CoeEmergencyQueue::record(self, event)
    }
}

} // verus!
