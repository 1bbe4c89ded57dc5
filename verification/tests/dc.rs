use lib::control::{ControlRequestPool, RequestState};
use lib::dc::{
    DcActionKind, DcConfig, DcController, DcCyclicConfig, DcCyclicError, DcCyclicSync, DcError,
    DcLockState, DcMonitor, DcPhase, DcProgress,
};
use lib::domain::{Domain, DomainSegment};
use lib::engine::{RxConsumerMux, RxDatagramConsumer};
use lib::plan::{DatagramPlan, FramePlan};
use lib::registers::{fixed_address, ESC_DC_CUC, ESC_DC_SYNC_ACTIVATION, ESC_DC_SYSTEM_TIME};
use lib::rx_index::RxMatch;
use lib::wire::{Command, DatagramHeader, FrameView, MAX_ETHERNET_FRAME_LEN};

fn dc_header(length: u16) -> DatagramHeader {
    DatagramHeader { command: Command::Frmw, index: 13, address: fixed_address(0x1000, ESC_DC_SYSTEM_TIME), length, last: true }
}

#[test]
fn controller_follows_soem_dc_sync0_sequence() {
    let mut controller = DcController::new();
    controller.start(DcConfig::sync0(1_000_000, 0), 0x1001, 7, 0).unwrap();

    let disable = controller.next_action(1).unwrap().unwrap();
    assert_eq!(disable.kind, DcActionKind::DisableSync);
    assert_eq!(disable.address, fixed_address(0x1001, ESC_DC_SYNC_ACTIVATION));
    assert_eq!(disable.payload(), &[0]);
    controller.accept(disable, 7, &[], 1, 2).unwrap();

    let access = controller.next_action(3).unwrap().unwrap();
    assert_eq!(access.kind, DcActionKind::GrantEthercatAccess);
    assert_eq!(access.address, fixed_address(0x1001, ESC_DC_CUC));
    controller.accept(access, 7, &[], 1, 4).unwrap();

    let read = controller.next_action(5).unwrap().unwrap();
    assert_eq!(read.kind, DcActionKind::ReadSystemTime);
    assert_eq!(read.response_len(), 8);
    let system_time = 1_234_567_890u64;
    controller.accept(read, 7, &system_time.to_le_bytes(), 1, 6).unwrap();
    assert_eq!(controller.system_time_ns(), system_time);
    assert_eq!(controller.first_trigger_ns(), 1_335_000_000);

    let start = controller.next_action(7).unwrap().unwrap();
    assert_eq!(start.kind, DcActionKind::WriteStartTime);
    assert_eq!(start.payload(), &1_335_000_000u64.to_le_bytes());
    controller.accept(start, 7, &[], 1, 8).unwrap();

    let cycle = controller.next_action(9).unwrap().unwrap();
    assert_eq!(cycle.kind, DcActionKind::WriteCycle0);
    assert_eq!(cycle.payload(), &1_000_000u32.to_le_bytes());
    controller.accept(cycle, 7, &[], 1, 10).unwrap();

    let activate = controller.next_action(11).unwrap().unwrap();
    assert_eq!(activate.kind, DcActionKind::ActivateSync);
    assert_eq!(activate.payload(), &[0x03]);
    assert_eq!(controller.accept(activate, 7, &[], 1, 12), Ok(DcProgress::Complete));
    assert_eq!(controller.phase(), DcPhase::Complete);
}

#[test]
fn controller_programs_sync1_and_uses_combined_cycle_for_start_time() {
    let mut controller = DcController::new();
    controller.start(DcConfig::sync0_sync1(1_000_000, 2_000_000, 0), 1, 2, 0).unwrap();

    for timestamp in [1u64, 3] {
        let action = controller.next_action(timestamp).unwrap().unwrap();
        controller.accept(action, 2, &[], 1, timestamp + 1).unwrap();
    }
    let read = controller.next_action(5).unwrap().unwrap();
    assert_eq!(read.kind, DcActionKind::ReadSystemTime);
    controller.accept(read, 2, &3_100_000u64.to_le_bytes(), 1, 7).unwrap();
    assert_eq!(controller.first_trigger_ns(), 105_000_000);

    let start = controller.next_action(8).unwrap().unwrap();
    controller.accept(start, 2, &[], 1, 9).unwrap();
    let cycle0 = controller.next_action(10).unwrap().unwrap();
    controller.accept(cycle0, 2, &[], 1, 11).unwrap();
    let cycle1 = controller.next_action(12).unwrap().unwrap();
    assert_eq!(cycle1.kind, DcActionKind::WriteCycle1);
    assert_eq!(cycle1.payload(), &2_000_000u32.to_le_bytes());
    controller.accept(cycle1, 2, &[], 1, 13).unwrap();
    let activate = controller.next_action(14).unwrap().unwrap();
    assert_eq!(activate.payload(), &[0x07]);
}

#[test]
fn controller_can_be_driven_from_the_control_request_pool() {
    let mut controller = DcController::new();
    controller.start(DcConfig::sync0(1_000_000, 0), 0x1000, 9, 0).unwrap();
    let action = controller.next_action(1).unwrap().unwrap();
    let mut pool = ControlRequestPool::<1>::new();
    let handle = controller.enqueue_pending(&mut pool).unwrap();
    let request = pool.get_mut(handle).unwrap();
    request.state = RequestState::InFlight;
    pool.complete(handle, action.generation, action.address, action.payload(), 1).unwrap();
    assert_eq!(controller.accept_completed(&mut pool, handle, 2), Ok(DcProgress::Advanced));
    assert_eq!(pool.in_use(), 0);
}

#[test]
fn monitor_requires_good_cycles_and_latches_unlocked_hysteresis() {
    let mut monitor = DcMonitor::new(50, 10, 2, 2);
    monitor.observe(1, 1_000, 1_020);
    assert_eq!(monitor.state(), DcLockState::Locking);
    assert!(monitor.observe(2, 2_000, 2_020).within_limits);
    assert!(monitor.is_locked());
    assert_eq!(monitor.offset_ns(), 20);
    assert_eq!(monitor.jitter_ns(), 0);

    monitor.observe(3, 3_000, 3_200);
    assert_eq!(monitor.state(), DcLockState::Degraded);
    monitor.observe(4, 4_000, 4_200);
    assert_eq!(monitor.state(), DcLockState::Unlocked);
    assert_eq!(monitor.bad_cycles(), 2);

    monitor.observe(5, 5_000, 5_020);
    assert_eq!(monitor.state(), DcLockState::Unlocked);
    monitor.observe(6, 6_000, 6_020);
    assert_eq!(monitor.state(), DcLockState::Locking);
    monitor.observe(7, 7_000, 7_020);
    assert!(monitor.is_locked());
}

#[test]
fn invalid_cycle_configuration_fails_closed() {
    let mut controller = DcController::new();
    let mut config = DcConfig::sync0(0, 0);
    config.timeout_ns = 1;
    config.request_timeout_ns = 1;
    assert_eq!(controller.start(config, 1, 1, 0), Err(DcError::InvalidConfiguration));
}

#[test]
fn cyclic_sync_updates_application_time_and_observes_reference_clock() {
    let config = DcCyclicConfig::new(0x1000, 13, 3);
    let monitor = DcMonitor::new(50, 10, 1, 2);
    let mut sync = DcCyclicSync::new(config, monitor);
    let mut process_image = [0u8; 11];

    sync.prepare(7, 1_020, &mut process_image).unwrap();
    assert_eq!(&process_image[3..11], &1_020u64.to_le_bytes());
    assert_eq!(sync.pending_generation(), Some(7));

    let mut plan = FramePlan::<2>::new();
    plan.push(DatagramPlan { command: Command::Lrw, index: 12, address: 0, payload_offset: 0, payload_len: 3, expected_wkc: 1 }).unwrap();
    plan.push(sync.datagram_plan()).unwrap();
    let mut frame = [0u8; MAX_ETHERNET_FRAME_LEN];
    let length = plan.build(&mut frame, [0xFF; 6], [1, 2, 3, 4, 5, 6], &process_image).unwrap();
    let view = FrameView::parse(&frame[..length]).unwrap();
    let dc_datagram = view.datagrams()[1].unwrap();
    assert_eq!(dc_datagram.header.command, Command::Frmw);
    assert_eq!(dc_datagram.header.index, 13);
    assert_eq!(dc_datagram.header.address, fixed_address(0x1000, ESC_DC_SYSTEM_TIME));
    assert_eq!(dc_datagram.payload, &1_020u64.to_le_bytes());

    sync.complete(42, 100, RxMatch { slot_id: 1, generation: 7, working_counter: 1 }, dc_header(8), &1_000u64.to_le_bytes()).unwrap();

    assert_eq!(sync.last_application_time_ns(), 1_020);
    assert_eq!(sync.last_reference_time_ns(), 1_000);
    assert_eq!(sync.last_sync_cycle(), 42);
    assert_eq!(sync.sync_count(), 1);
    assert_eq!(sync.monitor().state(), DcLockState::Locked);
    assert_eq!(sync.monitor().offset_ns(), 20);
}

#[test]
fn consumer_mux_routes_domain_and_dc_by_datagram_index() {
    let mut domain = Domain::<4, 1>::new(0);
    domain.add_segment(DomainSegment { datagram_index: 12, input_offset: 0, len: 2, expected_wkc: 1 }).unwrap();
    domain.begin_receive(7).unwrap();

    let config = DcCyclicConfig::new(0x1000, 13, 2);
    let monitor = DcMonitor::new(50, 10, 1, 2);
    let mut sync = DcCyclicSync::new(config, monitor);
    let mut process_image = [0u8; 10];
    sync.prepare(7, 1_020, &mut process_image).unwrap();

    let mut mux = RxConsumerMux::new(domain, sync);
    assert!(mux.accept(
        42,
        100,
        RxMatch { slot_id: 0, generation: 7, working_counter: 1 },
        DatagramHeader { command: Command::Lrw, index: 12, address: 0, length: 2, last: false },
        &[0xAA, 0x55],
    ));
    assert!(mux.accept(42, 100, RxMatch { slot_id: 1, generation: 7, working_counter: 1 }, dc_header(8), &1_000u64.to_le_bytes()));

    assert!(mux.first_mut().finish_receive(7, 42).unwrap());
    assert_eq!(mux.first().input(), &[0xAA, 0x55, 0, 0]);
    assert!(mux.second().monitor().is_locked());
}

#[test]
fn cyclic_sync_rejects_regressed_application_time() {
    let mut sync = DcCyclicSync::new(DcCyclicConfig::new(0x1000, 13, 0), DcMonitor::new(50, 10, 1, 2));
    let mut process_image = [0u8; 8];
    sync.prepare(1, 100, &mut process_image).unwrap();
    sync.complete(1, 10, RxMatch { slot_id: 1, generation: 1, working_counter: 1 }, dc_header(8), &100u64.to_le_bytes()).unwrap();

    assert_eq!(sync.prepare(2, 99, &mut process_image), Err(DcCyclicError::ApplicationTimeRegressed));
    assert_eq!(sync.last_error(), Some(DcCyclicError::ApplicationTimeRegressed));
}

#[test]
fn cyclic_sync_rejects_foreign_datagrams_and_small_images() {
    let mut sync = DcCyclicSync::new(DcCyclicConfig::new(0x1000, 13, 4), DcMonitor::new(50, 10, 1, 2));
    let mut small = [0u8; 11];
    assert_eq!(sync.prepare(1, 5, &mut small), Err(DcCyclicError::ProcessImageOutOfBounds));
    let mut image = [0u8; 12];
    sync.prepare(1, 5, &mut image).unwrap();
    assert_eq!(sync.prepare(1, 6, &mut image), Err(DcCyclicError::Busy));
    sync.prepare(2, 6, &mut image).unwrap();
    let mut wrong = dc_header(8);
    wrong.address = 0;
    assert_eq!(
        sync.complete(1, 1, RxMatch { slot_id: 0, generation: 2, working_counter: 1 }, wrong, &[0; 8]),
        Err(DcCyclicError::UnexpectedDatagram)
    );
    sync.prepare(3, 7, &mut image).unwrap();
    assert_eq!(
        sync.complete(1, 1, RxMatch { slot_id: 0, generation: 4, working_counter: 1 }, dc_header(8), &[0; 8]),
        Err(DcCyclicError::GenerationMismatch)
    );
    assert!(!sync.accept(1, 1, RxMatch { slot_id: 0, generation: 4, working_counter: 1 }, DatagramHeader { index: 12, ..dc_header(8) }, &[0; 8]));
}

#[test]
fn dc_first_trigger_overflow_faults() {
    let mut controller = DcController::new();
    controller.start(DcConfig::sync0(1_000, -5_000), 1, 1, 0).unwrap();
    for t in [1u64, 2] {
        let action = controller.next_action(t).unwrap().unwrap();
        controller.accept(action, 1, &[], 1, t).unwrap();
    }
    let read = controller.next_action(3).unwrap().unwrap();
    assert_eq!(controller.accept(read, 1, &u64::MAX.to_le_bytes(), 1, 3), Err(DcError::SystemTimeOverflow));
    assert_eq!(controller.phase(), DcPhase::Faulted);
}
