use lib::dma::{DmaDescriptorRing, DmaOwner, NoopDmaCache};
use lib::engine::{CycleError, EthercatMaster, MasterConfig, RxConsumerMux, RxDatagramConsumer};
use lib::frame_pool::FramePoolError;
use lib::plan::{DatagramPlan, FramePlan};
use lib::port::{EthercatDmaTxPort, EthercatPort, LinkState, PortError, RxPoll};
use lib::rx_index::{RxExpectation, RxIndexError, RxMatch, RxSlotState};
use lib::wire::{Command, DatagramHeader, MAX_ETHERNET_FRAME_LEN};

fn config() -> MasterConfig {
    MasterConfig::new([0xFF; 6], [2, 0, 0, 0, 0, 1])
}

fn one_datagram_plan(index: u8) -> FramePlan<1> {
    let mut plan = FramePlan::<1>::new();
    plan.push(DatagramPlan { command: Command::Lrd, index, address: 0x1000, payload_offset: 0, payload_len: 4, expected_wkc: 1 })
        .unwrap();
    plan
}

/// The frame a slave returns for a one-datagram frame: the payload read and
/// the working counter set.
fn response(frame: &[u8], payload: [u8; 4], wkc: u16) -> Vec<u8> {
    let mut bytes = frame.to_vec();
    bytes[26..30].copy_from_slice(&payload);
    bytes[30..32].copy_from_slice(&wkc.to_le_bytes());
    bytes
}

struct Recorder {
    seen: Vec<(u64, u8, Vec<u8>)>,
    answer: bool,
}

impl RxDatagramConsumer for Recorder {
    fn accept(&mut self, cycle: u64, _: u64, _: RxMatch, header: DatagramHeader, payload: &[u8]) -> bool {
        self.seen.push((cycle, header.index, payload.to_vec()));
        self.answer
    }
}

#[test]
fn master_config_has_default_budgets() {
    let config = config();
    assert_eq!(config.rx_budget_frames, 8);
    assert_eq!(config.rx_budget_bytes, 8 * MAX_ETHERNET_FRAME_LEN);
    assert_eq!(config.rx_budget_ns, 50_000);
}

#[test]
fn armed_frame_completes_and_is_released_at_finish() {
    let mut master = EthercatMaster::<2, MAX_ETHERNET_FRAME_LEN>::new(config());
    let handle = master.acquire_frame(7, 1_000).unwrap();
    let plan = one_datagram_plan(3);
    let length = master.build_and_arm_frame_from_plan(handle, &plan, &[0; 4]).unwrap();
    assert_eq!(length, 60);
    assert_eq!(master.rx_entry(3).state, RxSlotState::Armed);
    let frame = master.frame_slot_mut(handle).unwrap().bytes[..length].to_vec();
    let reply = response(&frame, [1, 2, 3, 4], 1);

    let mut consumer = Recorder { seen: Vec::new(), answer: true };
    let mut session = master.begin_dma_receive_cycle(500, 7);
    assert_eq!(session.cycle(), 1);
    assert_eq!(session.deadline_ns(), 50_500);
    assert!(session.can_consume(600));
    session.consume_frame(&reply, 600, &mut consumer);
    let report = session.finish(700);
    assert_eq!(report.received_frames, 1);
    assert_eq!(report.received_bytes, 60);
    assert_eq!(report.parsed_datagrams, 1);
    assert_eq!(report.unmatched_datagrams, 0);
    assert_eq!(report.consumer_rejections, 0);
    assert!(!report.budget_exhausted);
    assert_eq!(consumer.seen, vec![(1, 3, vec![1, 2, 3, 4])]);
    assert_eq!(master.rx_entry(3).state, RxSlotState::Empty);
    assert_eq!(master.diagnostics().pending(), 0);
}

#[test]
fn unarmed_and_wrong_counter_datagrams_are_counted_and_recorded() {
    let mut master = EthercatMaster::<1, MAX_ETHERNET_FRAME_LEN>::new(config());
    let handle = master.acquire_frame(1, 1_000).unwrap();
    let length = master.build_and_arm_frame_from_plan(handle, &one_datagram_plan(4), &[0; 4]).unwrap();
    let frame = master.frame_slot_mut(handle).unwrap().bytes[..length].to_vec();
    let mut session = master.begin_dma_receive_cycle(0, 1);
    session.consume_frame(&response(&frame, [0; 4], 2), 10, &mut ());
    session.consume_frame(&response(&frame, [0; 4], 1), 20, &mut ());
    let report = session.finish(30);
    assert_eq!(report.parsed_datagrams, 2);
    assert_eq!(report.wkc_mismatches, 1);
    assert_eq!(report.unmatched_datagrams, 1);
    assert_eq!(master.diagnostics().pending(), 2);
}

#[test]
fn consumer_rejection_is_counted_apart_from_corruption() {
    let mut master = EthercatMaster::<1, MAX_ETHERNET_FRAME_LEN>::new(config());
    let handle = master.acquire_frame(1, 1_000).unwrap();
    let length = master.build_and_arm_frame_from_plan(handle, &one_datagram_plan(9), &[0; 4]).unwrap();
    let frame = master.frame_slot_mut(handle).unwrap().bytes[..length].to_vec();
    let mut consumer = Recorder { seen: Vec::new(), answer: false };
    let mut mux = RxConsumerMux::new((), ());
    let mut session = master.begin_dma_receive_cycle(0, 1);
    session.consume_frame(&response(&frame, [0; 4], 1), 5, &mut consumer);
    session.consume_frame(&[], 6, &mut mux);
    session.consume_frame(&[0u8; 20], 7, &mut mux);
    let report = session.report();
    assert_eq!(report.consumer_rejections, 1);
    assert_eq!(report.corrupt_frames, 2);
    assert_eq!(report.received_frames, 2);
}

#[test]
fn consume_after_deadline_exhausts_budget_without_parsing() {
    let mut master = EthercatMaster::<1, MAX_ETHERNET_FRAME_LEN>::new(config());
    let mut session = master.begin_dma_receive_cycle(100, 0);
    assert!(!session.can_consume(50_100));
    session.consume_frame(&[0u8; 60], 50_100, &mut ());
    let report = session.finish(50_200);
    assert!(report.budget_exhausted);
    assert_eq!(report.received_frames, 0);
    assert_eq!(master.diagnostics().pending(), 1);
}

#[test]
fn expired_expectations_time_out_when_a_cycle_begins() {
    let mut master = EthercatMaster::<1, MAX_ETHERNET_FRAME_LEN>::new(config());
    let handle = master.acquire_frame(1, 100).unwrap();
    master.build_and_arm_frame_from_plan(handle, &one_datagram_plan(2), &[0; 4]).unwrap();
    let session = master.begin_dma_receive_cycle(200, 1);
    assert_eq!(session.report().timed_out_datagrams, 1);
    session.finish(210);
    assert_eq!(master.rx_entry(2).state, RxSlotState::Empty);
}

#[test]
fn arming_an_armed_index_is_refused_before_building() {
    let mut master = EthercatMaster::<2, MAX_ETHERNET_FRAME_LEN>::new(config());
    let first = master.acquire_frame(1, 100).unwrap();
    let second = master.acquire_frame(1, 100).unwrap();
    master.build_and_arm_frame_from_plan(first, &one_datagram_plan(2), &[0; 4]).unwrap();
    assert_eq!(
        master.build_and_arm_frame_from_plan(second, &one_datagram_plan(2), &[0; 4]),
        Err(CycleError::RxIndex(RxIndexError::AlreadyArmed))
    );
    assert_eq!(master.frame_slot_mut(second).unwrap().len, 0);
}

#[test]
fn finish_frame_checks_handle_and_length() {
    let mut master = EthercatMaster::<1, 64>::new(config());
    let handle = master.acquire_frame(0, 1).unwrap();
    assert_eq!(master.finish_frame(handle, 65), Err(CycleError::InvalidFrameLength));
    assert_eq!(master.finish_frame(handle, 60), Ok(()));
    assert_eq!(master.frame_slot_mut(handle).unwrap().len, 60);
    assert!(master.frame_builder(handle).is_ok());
    let mut other = EthercatMaster::<1, 64>::new(config());
    assert_eq!(other.finish_frame(handle, 60), Err(CycleError::FramePool(FramePoolError::InvalidHandle)));
}

struct LoopbackPort {
    sent: Vec<Vec<u8>>,
    refuse: bool,
}

impl EthercatPort for LoopbackPort {
    type Error = PortError;

    fn link_state(&self) -> LinkState {
        LinkState::Up
    }

    fn now_ns(&self) -> u64 {
        0
    }

    fn tx_submit(&mut self, frame: &[u8]) -> Result<(), PortError> {
        if self.refuse {
            return Err(PortError::TxUnavailable);
        }
        self.sent.push(frame.to_vec());
        Ok(())
    }

    fn rx_poll(&mut self, _: &mut [u8; MAX_ETHERNET_FRAME_LEN]) -> Result<RxPoll, PortError> {
        Ok(RxPoll::Empty)
    }
}

impl EthercatDmaTxPort for LoopbackPort {
    type Error = PortError;

    fn tx_submit(&mut self, _: lib::dma::DmaTxHandle, frame: &[u8]) -> Result<(), PortError> {
        EthercatPort::tx_submit(self, frame)
    }
}

#[test]
fn submitted_frames_release_their_slot_and_refusals_clear_expectations() {
    let mut master = EthercatMaster::<1, MAX_ETHERNET_FRAME_LEN>::new(config());
    let handle = master.acquire_frame(1, 100).unwrap();
    let length = master.build_and_arm_frame_from_plan(handle, &one_datagram_plan(1), &[9; 4]).unwrap();
    let mut port = LoopbackPort { sent: Vec::new(), refuse: false };
    master.submit_frame(&mut port, handle).unwrap();
    assert_eq!(port.sent.len(), 1);
    assert_eq!(port.sent[0].len(), length);
    assert!(master.frame_slot_mut(handle).is_none());

    let handle = master.acquire_frame(2, 100).unwrap();
    master
        .arm_rx(
            5,
            handle.index() as u16,
            RxExpectation { generation: 2, deadline_ns: 100, expected_address: 0, expected_size: 0, expected_type: 0, expected_wkc: 1 },
        )
        .unwrap();
    master.finish_frame(handle, 60).unwrap();
    let mut refusing = LoopbackPort { sent: Vec::new(), refuse: true };
    assert_eq!(master.submit_frame(&mut refusing, handle), Err(CycleError::Port(PortError::TxUnavailable)));
    assert_eq!(master.rx_entry(5).state, RxSlotState::Empty);
}

#[test]
fn dma_frame_is_built_in_place_and_port_refusal_aborts_it() {
    let mut master = EthercatMaster::<1, 128>::new(config());
    let mut ring = DmaDescriptorRing::<2, 1, 128>::new();
    let plan = one_datagram_plan(6);
    let (handle, length) = master.build_and_arm_dma_frame_from_plan(&mut ring, &plan, &[5; 4], 3, 1_000).unwrap();
    assert_eq!(length, 60);
    assert_eq!(master.rx_entry(6).state, RxSlotState::Armed);
    assert_eq!(master.rx_entry(6).slot_id, handle.index() as u16);
    let mut cache = NoopDmaCache;
    let mut refusing = LoopbackPort { sent: Vec::new(), refuse: true };
    assert_eq!(
        master.submit_dma_frame(&mut refusing, &mut ring, handle, length, &mut cache),
        Err(CycleError::Port(PortError::TxUnavailable))
    );
    assert_eq!(ring.tx_owner(handle), Ok(DmaOwner::Free));
    assert_eq!(master.rx_entry(6).state, RxSlotState::Empty);

    let (handle, length) = master.build_and_arm_dma_frame_from_plan(&mut ring, &plan, &[5; 4], 3, 1_000).unwrap();
    let mut port = LoopbackPort { sent: Vec::new(), refuse: false };
    master.submit_dma_frame(&mut port, &mut ring, handle, length, &mut cache).unwrap();
    assert_eq!(ring.tx_owner(handle), Ok(DmaOwner::DmaOwned));
    assert_eq!(port.sent[0][26..30], [5, 5, 5, 5]);
}

#[test]
fn dma_frame_with_zero_deadline_is_canceled() {
    let mut master = EthercatMaster::<1, 128>::new(config());
    let mut ring = DmaDescriptorRing::<1, 1, 128>::new();
    assert_eq!(
        master.build_and_arm_dma_frame_from_plan(&mut ring, &one_datagram_plan(6), &[5; 4], 3, 0),
        Err(CycleError::RxIndex(RxIndexError::InvalidDeadline))
    );
    assert_eq!(ring.tx_in_flight(), 0);
    assert_eq!(master.cancel_dma_frame(ring.tx_acquire().unwrap()), 0);
}

struct ScriptedPort {
    link: LinkState,
    clock: u64,
    frames: Vec<Vec<u8>>,
    fail: bool,
}

impl EthercatPort for ScriptedPort {
    type Error = PortError;

    fn link_state(&self) -> LinkState {
        self.link
    }

    fn now_ns(&self) -> u64 {
        self.clock
    }

    fn tx_submit(&mut self, _: &[u8]) -> Result<(), PortError> {
        Ok(())
    }

    fn rx_poll(&mut self, destination: &mut [u8; MAX_ETHERNET_FRAME_LEN]) -> Result<RxPoll, PortError> {
        if self.fail {
            return Err(PortError::RxUnavailable);
        }
        if self.frames.is_empty() {
            return Ok(RxPoll::Empty);
        }
        let frame = self.frames.remove(0);
        destination[..frame.len()].copy_from_slice(&frame);
        self.clock += 10;
        Ok(RxPoll::Frame(frame.len()))
    }
}

#[test]
fn link_down_at_start_ends_the_cycle_with_a_fault() {
    let mut master = EthercatMaster::<1, MAX_ETHERNET_FRAME_LEN>::new(config());
    let mut port = ScriptedPort { link: LinkState::Down, clock: 100, frames: vec![vec![0; 60]], fail: false };
    let mut scratch = [0u8; MAX_ETHERNET_FRAME_LEN];
    let report = master.cycle_receive(&mut port, &mut scratch, 1).unwrap();
    assert_eq!(report.cycle, 1);
    assert!(report.link_down);
    assert_eq!(report.received_frames, 0);
    assert_eq!(port.frames.len(), 1);
    assert_eq!(master.diagnostics().pending(), 1);
}

#[test]
fn polled_frames_are_offered_to_the_consumer_in_the_cycle() {
    let mut master = EthercatMaster::<2, MAX_ETHERNET_FRAME_LEN>::new(config());
    let handle = master.acquire_frame(7, 1_000).unwrap();
    let length = master.build_and_arm_frame_from_plan(handle, &one_datagram_plan(3), &[0; 4]).unwrap();
    let frame = master.frame_slot_mut(handle).unwrap().bytes[..length].to_vec();
    let reply = response(&frame, [5, 6, 7, 8], 1);
    let mut port = ScriptedPort { link: LinkState::Up, clock: 500, frames: vec![reply], fail: false };
    let mut scratch = [0u8; MAX_ETHERNET_FRAME_LEN];
    let mut consumer = Recorder { seen: Vec::new(), answer: true };
    let report = master.cycle_receive_with_consumer(&mut port, &mut scratch, 7, &mut consumer).unwrap();
    assert_eq!(report.cycle, 1);
    assert!(!report.link_down);
    assert_eq!(report.received_frames, 1);
    assert_eq!(report.received_bytes, 60);
    assert_eq!(report.parsed_datagrams, 1);
    assert_eq!(consumer.seen, vec![(1, 3, vec![5, 6, 7, 8])]);
    assert_eq!(master.rx_entry(3).state, RxSlotState::Empty);
}

#[test]
fn port_poll_error_is_returned() {
    let mut master = EthercatMaster::<1, MAX_ETHERNET_FRAME_LEN>::new(config());
    let mut port = ScriptedPort { link: LinkState::Up, clock: 0, frames: Vec::new(), fail: true };
    let mut scratch = [0u8; MAX_ETHERNET_FRAME_LEN];
    assert_eq!(master.cycle_receive(&mut port, &mut scratch, 1), Err(CycleError::Port(PortError::RxUnavailable)));
    port.fail = false;
    assert_eq!(master.cycle_receive(&mut port, &mut scratch, 1).unwrap().cycle, 2);
}
