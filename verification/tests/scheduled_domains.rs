use lib::control::RegisterOperation;
use lib::dc::{DcCyclicConfig, DcCyclicError, DcCyclicSync, DcMonitor};
use lib::engine::{EthercatMaster, MasterConfig};
use lib::scheduled_domains::ScheduledServiceTxError;
use lib::wire::MAX_ETHERNET_FRAME_LEN;
use lib::domain::{Domain, DomainSegment};
use lib::engine::RxDatagramConsumer;
use lib::plan::{DatagramPlan, FramePlanSet};
use lib::rx_index::RxMatch;
use lib::schedule::{ScheduleDomain, ScheduleTable};
use lib::scheduled_domains::{
    ScheduledDomainBank, ScheduledDomainEntry, ScheduledDomainError, ScheduledProcessFrameError,
    ScheduledProcessInputEntry, ScheduledProcessInputPlanError, ScheduledProcessInputs, ScheduledProcessTxFailure,
    ScheduledProcessTxReport, ScheduledReceiveReport,
};
use lib::control::ControlRequestPool;
use lib::engine::CycleReport;
use lib::wire::{Command, DatagramHeader};

fn domain<const BYTES: usize>(index: u8) -> Domain<BYTES, 1> {
    let mut domain = Domain::new(0x1000 + u32::from(index));
    domain
        .add_segment(DomainSegment { datagram_index: index, input_offset: 0, len: BYTES, expected_wkc: 1 })
        .unwrap();
    domain
}

fn two_rate_schedule() -> ScheduleTable<2, 2> {
    ScheduleTable::<2, 2>::build(
        100_000,
        &[
            ScheduleDomain { id: 9, period_ticks: 1, phase_ticks: 0 },
            ScheduleDomain { id: 10, period_ticks: 2, phase_ticks: 0 },
        ],
    )
    .unwrap()
}

#[test]
fn schedule_binding_rejects_wrong_order_duplicate_indices_and_empty_domains() {
    let schedule = two_rate_schedule();
    let mut first = domain::<2>(12);
    let mut second = domain::<1>(12);
    assert!(matches!(
        ScheduledDomainBank::new(
            &schedule,
            [
                ScheduledDomainEntry { id: 10, domain: &mut first },
                ScheduledDomainEntry { id: 9, domain: &mut second },
            ],
        ),
        Err(ScheduledDomainError::InvalidSchedule)
    ));
    assert!(matches!(
        ScheduledDomainBank::new(
            &schedule,
            [
                ScheduledDomainEntry { id: 9, domain: &mut first },
                ScheduledDomainEntry { id: 10, domain: &mut second },
            ],
        ),
        Err(ScheduledDomainError::DuplicateDatagramIndex(12))
    ));
    let mut empty = Domain::<2, 1>::new(0x2000);
    assert!(matches!(
        ScheduledDomainBank::new(
            &schedule,
            [
                ScheduledDomainEntry { id: 9, domain: &mut first },
                ScheduledDomainEntry { id: 10, domain: &mut empty },
            ],
        ),
        Err(ScheduledDomainError::EmptyDomain(1))
    ));
}

#[test]
fn non_due_and_wrong_generation_datagrams_cannot_change_domain_quality() {
    let schedule = two_rate_schedule();
    let mut first = domain::<2>(12);
    let mut second = domain::<1>(13);
    let mut bank = ScheduledDomainBank::new(
        &schedule,
        [
            ScheduledDomainEntry { id: 9, domain: &mut first },
            ScheduledDomainEntry { id: 10, domain: &mut second },
        ],
    )
    .unwrap();
    let completion = |generation| RxMatch { slot_id: 0, generation, working_counter: 1 };
    let header = |index| DatagramHeader { command: Command::Lrw, index, address: 0x1000, length: 1, last: true };
    assert_eq!(bank.begin_due(2, 1), Err(ScheduledDomainError::CycleOrder));
    bank.begin_due(1, 1).unwrap();
    assert_eq!(bank.begin_due(1, 1), Err(ScheduledDomainError::CycleInProgress));
    assert!(!bank.accept(1, 100, completion(2), header(13), &[9]));
    assert!(bank.accept(1, 100, completion(1), header(13), &[8]));
    assert!(bank.accept(1, 100, completion(1), header(12), &[1, 2]));
    assert_eq!(bank.finish_due(1, 2), Err(ScheduledDomainError::CycleOrder));
    let qualities = bank.finish_due(1, 1).unwrap();
    assert!(qualities.iter().all(|quality| quality.valid));
    bank.begin_due(2, 2).unwrap();
    assert!(!bank.accept(2, 200, completion(2), header(13), &[3]));
    assert!(bank.accept(2, 200, completion(2), header(12), &[4, 5]));
    let qualities = bank.finish_due(2, 2).unwrap();
    assert_eq!(qualities[1].last_valid_cycle, 1);
    assert_eq!(qualities[1].actual_wkc, 1);
    bank.begin_due(3, 3).unwrap();
    assert!(bank.accept(3, 300, completion(3), header(12), &[6, 7]));
    let qualities = bank.finish_due(3, 3).unwrap();
    assert!(!qualities[1].valid);
    assert!(!qualities[1].complete);
    assert_eq!(qualities[1].last_valid_cycle, 1);
}

#[test]
fn split_output_plans_must_match_every_bound_domain_segment() {
    let schedule = two_rate_schedule();
    let mut motion = domain::<2>(12);
    let mut auxiliary = Domain::<2, 2>::new(0x2000);
    for (index, offset) in [(13, 0), (14, 1)] {
        auxiliary
            .add_segment(DomainSegment { datagram_index: index, input_offset: offset, len: 1, expected_wkc: 1 })
            .unwrap();
    }
    let bank = ScheduledDomainBank::new(
        &schedule,
        [
            ScheduledDomainEntry { id: 9, domain: &mut motion },
            ScheduledDomainEntry { id: 10, domain: &mut auxiliary },
        ],
    )
    .unwrap();
    let mut plans = FramePlanSet::<2, 1>::new();
    for (index, offset) in [(13, 0), (14, 1)] {
        plans
            .push(DatagramPlan {
                command: Command::Lrw,
                index,
                address: 0x2000 + offset as u32,
                payload_offset: offset,
                payload_len: 1,
                expected_wkc: 1,
            })
            .unwrap();
    }
    assert_eq!(plans.frame_count(), 2);
    assert!(bank.matches_frame_plans(10, &plans));
    assert!(!bank.matches_frame_plans(9, &plans));
    let mut wrong = FramePlanSet::<2, 1>::new();
    wrong.push(DatagramPlan { address: 0x2002, ..plans.plan(0).unwrap().datagrams()[0] }).unwrap();
    wrong.push(plans.plan(1).unwrap().datagrams()[0]).unwrap();
    assert!(!bank.matches_frame_plans(10, &wrong));
}

#[test]
fn process_inputs_bind_schedule_order_images_and_non_overlapping_writes() {
    let schedule = ScheduleTable::<2, 1>::build(
        100_000,
        &[
            ScheduleDomain { id: 9, period_ticks: 1, phase_ticks: 0 },
            ScheduleDomain { id: 10, period_ticks: 1, phase_ticks: 0 },
        ],
    )
    .unwrap();
    let mut motion = Domain::<2, 1>::new(0x1000);
    motion.add_segment(DomainSegment { datagram_index: 12, input_offset: 0, len: 2, expected_wkc: 1 }).unwrap();
    let mut auxiliary = Domain::<1, 1>::new(0x2000);
    auxiliary.add_segment(DomainSegment { datagram_index: 13, input_offset: 0, len: 1, expected_wkc: 1 }).unwrap();
    let bank = ScheduledDomainBank::new(
        &schedule,
        [
            ScheduledDomainEntry { id: 9, domain: &mut motion },
            ScheduledDomainEntry { id: 10, domain: &mut auxiliary },
        ],
    )
    .unwrap();
    let mut motion_plans = FramePlanSet::<1, 1>::new();
    motion_plans
        .push(DatagramPlan {
            command: Command::Lrw,
            index: 12,
            address: 0x1000,
            payload_offset: 0,
            payload_len: 2,
            expected_wkc: 1,
        })
        .unwrap();
    let mut auxiliary_plans = FramePlanSet::<1, 1>::new();
    auxiliary_plans
        .push(DatagramPlan {
            command: Command::Lrw,
            index: 13,
            address: 0x2000,
            payload_offset: 0,
            payload_len: 1,
            expected_wkc: 1,
        })
        .unwrap();
    let motion_image = [0u8; 2];
    let auxiliary_image = [0u8; 1];
    assert!(ScheduledProcessInputs::new(
        &bank,
        &schedule,
        [
            ScheduledProcessInputEntry { id: 9, image: &motion_image, plans: &motion_plans },
            ScheduledProcessInputEntry { id: 10, image: &auxiliary_image, plans: &auxiliary_plans },
        ],
    )
    .is_ok());
    assert!(matches!(
        ScheduledProcessInputs::new(
            &bank,
            &schedule,
            [
                ScheduledProcessInputEntry { id: 10, image: &motion_image, plans: &motion_plans },
                ScheduledProcessInputEntry { id: 9, image: &auxiliary_image, plans: &auxiliary_plans },
            ],
        ),
        Err(ScheduledProcessInputPlanError::DomainMismatch { expected: 9, actual: 10 })
    ));
    assert!(matches!(
        ScheduledProcessInputs::new(
            &bank,
            &schedule,
            [
                ScheduledProcessInputEntry { id: 9, image: &auxiliary_image, plans: &motion_plans },
                ScheduledProcessInputEntry { id: 10, image: &auxiliary_image, plans: &auxiliary_plans },
            ],
        ),
        Err(ScheduledProcessInputPlanError::InvalidPlan(9))
    ));
}

#[test]
fn process_inputs_refuse_another_schedule_table_and_overlapping_writes() {
    let configured = [
        ScheduleDomain { id: 9, period_ticks: 1, phase_ticks: 0 },
        ScheduleDomain { id: 10, period_ticks: 1, phase_ticks: 0 },
    ];
    let schedule = ScheduleTable::<2, 1>::build(100_000, &configured).unwrap();
    let copy = ScheduleTable::<2, 1>::build(100_000, &configured).unwrap();
    let mut motion = Domain::<2, 1>::new(0x1000);
    motion.add_segment(DomainSegment { datagram_index: 12, input_offset: 0, len: 2, expected_wkc: 1 }).unwrap();
    let mut auxiliary = Domain::<1, 1>::new(0x1001);
    auxiliary.add_segment(DomainSegment { datagram_index: 13, input_offset: 0, len: 1, expected_wkc: 1 }).unwrap();
    let bank = ScheduledDomainBank::new(
        &schedule,
        [
            ScheduledDomainEntry { id: 9, domain: &mut motion },
            ScheduledDomainEntry { id: 10, domain: &mut auxiliary },
        ],
    )
    .unwrap();
    assert!(bank.uses_schedule(&schedule));
    assert!(!bank.uses_schedule(&copy));
    let mut motion_plans = FramePlanSet::<1, 1>::new();
    motion_plans
        .push(DatagramPlan { command: Command::Lrw, index: 12, address: 0x1000, payload_offset: 0, payload_len: 2, expected_wkc: 1 })
        .unwrap();
    let mut auxiliary_plans = FramePlanSet::<1, 1>::new();
    auxiliary_plans
        .push(DatagramPlan { command: Command::Lwr, index: 13, address: 0x1001, payload_offset: 0, payload_len: 1, expected_wkc: 1 })
        .unwrap();
    let motion_image = [0u8; 2];
    let auxiliary_image = [0u8; 1];
    assert!(matches!(
        ScheduledProcessInputs::new(
            &bank,
            &copy,
            [
                ScheduledProcessInputEntry { id: 9, image: &motion_image, plans: &motion_plans },
                ScheduledProcessInputEntry { id: 10, image: &auxiliary_image, plans: &auxiliary_plans },
            ],
        ),
        Err(ScheduledProcessInputPlanError::InvalidSchedule)
    ));
    assert!(matches!(
        ScheduledProcessInputs::new(
            &bank,
            &schedule,
            [
                ScheduledProcessInputEntry { id: 9, image: &motion_image, plans: &motion_plans },
                ScheduledProcessInputEntry { id: 10, image: &auxiliary_image, plans: &auxiliary_plans },
            ],
        ),
        Err(ScheduledProcessInputPlanError::OverlappingWrite(10, 9))
    ));
}

#[test]
fn bank_refuses_a_busy_due_domain_and_out_of_order_finish() {
    let schedule = two_rate_schedule();
    let mut first = domain::<2>(12);
    let mut second = domain::<1>(13);
    second.begin_receive(7).unwrap();
    assert!(matches!(
        ScheduledDomainBank::new(
            &schedule,
            [
                ScheduledDomainEntry { id: 9, domain: &mut first },
                ScheduledDomainEntry { id: 10, domain: &mut second },
            ],
        ),
        Err(ScheduledDomainError::DomainBusy(1))
    ));
    let mut second = domain::<1>(13);
    let mut bank = ScheduledDomainBank::new(
        &schedule,
        [
            ScheduledDomainEntry { id: 9, domain: &mut first },
            ScheduledDomainEntry { id: 10, domain: &mut second },
        ],
    )
    .unwrap();
    assert_eq!(bank.finish_due(1, 1), Err(ScheduledDomainError::CycleOrder));
    bank.begin_due(1, 4).unwrap();
    let qualities = bank.finish_due(1, 4).unwrap();
    assert_eq!(qualities.len(), 2);
    assert!(!qualities[0].valid);
    assert_eq!(qualities[0].input_age_cycles, 1);
    assert_eq!(bank.begin_due(3, 5), Err(ScheduledDomainError::CycleOrder));
    bank.begin_due(2, 5).unwrap();
    let qualities = bank.finish_due(2, 5).unwrap();
    assert_eq!(qualities[1].input_age_cycles, 1);
    assert_eq!(qualities[0].input_age_cycles, 2);
}

fn report(cycle: u64, generation: u16, sent_frames: usize, failure: Option<ScheduledProcessTxFailure<()>>) -> ScheduledProcessTxReport<()> {
    ScheduledProcessTxReport {
        cycle,
        generation,
        rx_deadline_ns: 1_000,
        due_mask: (1 << 9) | (1 << 10),
        expected_frames: 2,
        sent_frames,
        failure,
        post_tx_deadline_met: true,
    }
}

#[test]
fn process_reports_are_checked_against_the_frozen_due_traversal() {
    let schedule = ScheduleTable::<2, 1>::build(
        100_000,
        &[
            ScheduleDomain { id: 9, period_ticks: 1, phase_ticks: 0 },
            ScheduleDomain { id: 10, period_ticks: 1, phase_ticks: 0 },
        ],
    )
    .unwrap();
    let mut motion = Domain::<2, 1>::new(0x1000);
    motion.add_segment(DomainSegment { datagram_index: 12, input_offset: 0, len: 2, expected_wkc: 1 }).unwrap();
    let mut auxiliary = Domain::<1, 1>::new(0x2000);
    auxiliary.add_segment(DomainSegment { datagram_index: 13, input_offset: 0, len: 1, expected_wkc: 1 }).unwrap();
    let mut bank = ScheduledDomainBank::new(
        &schedule,
        [
            ScheduledDomainEntry { id: 9, domain: &mut motion },
            ScheduledDomainEntry { id: 10, domain: &mut auxiliary },
        ],
    )
    .unwrap();
    let mut motion_plans = FramePlanSet::<1, 1>::new();
    motion_plans
        .push(DatagramPlan { command: Command::Lrw, index: 12, address: 0x1000, payload_offset: 0, payload_len: 2, expected_wkc: 1 })
        .unwrap();
    let mut auxiliary_plans = FramePlanSet::<1, 1>::new();
    auxiliary_plans
        .push(DatagramPlan { command: Command::Lrd, index: 13, address: 0x2000, payload_offset: 0, payload_len: 1, expected_wkc: 1 })
        .unwrap();
    let motion_image = [0u8; 2];
    let auxiliary_image = [0u8; 1];
    let inputs = ScheduledProcessInputs::new(
        &bank,
        &schedule,
        [
            ScheduledProcessInputEntry { id: 9, image: &motion_image, plans: &motion_plans },
            ScheduledProcessInputEntry { id: 10, image: &auxiliary_image, plans: &auxiliary_plans },
        ],
    )
    .unwrap();

    assert!(bank.accepts_process_tx(&inputs, &report(1, 3, 2, None)));
    assert!(!bank.accepts_process_tx(&inputs, &report(1, 3, 1, None)));
    assert!(!bank.accepts_process_tx(&inputs, &report(2, 3, 2, None)));
    let stopped_at_auxiliary =
        ScheduledProcessTxFailure { domain_id: 10, frame_index: 0, error: ScheduledProcessFrameError::InvalidDeadline };
    assert!(!bank.accepts_process_tx(&inputs, &report(1, 3, 1, Some(stopped_at_auxiliary))));
    let stopped_at_auxiliary = ScheduledProcessTxFailure {
        domain_id: 10,
        frame_index: 0,
        error: ScheduledProcessFrameError::FramePool(lib::frame_pool::FramePoolError::SlotBusy),
    };
    assert!(bank.accepts_process_tx(&inputs, &report(1, 3, 1, Some(stopped_at_auxiliary))));
    assert!(!bank.confirms_process_tx(&inputs, &report(1, 3, 2, None)));

    bank.begin_due(1, 3).unwrap();
    assert!(!bank.confirms_process_tx(&inputs, &report(1, 3, 2, None)));
    bank.finish_due(1, 3).unwrap();
    assert!(bank.confirms_process_tx(&inputs, &report(1, 3, 2, None)));
    assert!(!bank.confirms_process_tx(&inputs, &report(1, 4, 2, None)));
}

fn receive_report(cycle: u64, generation: u16, qualities: Vec<lib::domain::DomainQuality>) -> ScheduledReceiveReport<()> {
    let mut pool = ControlRequestPool::<1>::new();
    ScheduledReceiveReport {
        report: CycleReport {
            cycle,
            received_frames: 0,
            received_bytes: 0,
            parsed_datagrams: 0,
            unmatched_datagrams: 0,
            corrupt_frames: 0,
            wkc_mismatches: 0,
            timed_out_datagrams: 0,
            consumer_rejections: 0,
            budget_exhausted: false,
            link_down: false,
        },
        generation,
        qualities,
        dc_result: Ok(()),
        transport_error: None,
        control_expiry: pool.expire_in_flight(0),
    }
}

#[test]
fn receive_reports_must_describe_the_last_finished_cycle() {
    let schedule = two_rate_schedule();
    let mut first = domain::<2>(12);
    let mut second = domain::<1>(13);
    let mut bank = ScheduledDomainBank::new(
        &schedule,
        [
            ScheduledDomainEntry { id: 9, domain: &mut first },
            ScheduledDomainEntry { id: 10, domain: &mut second },
        ],
    )
    .unwrap();
    bank.begin_due(1, 8).unwrap();
    let qualities = bank.finish_due(1, 8).unwrap();
    assert!(bank.confirms_receive(&receive_report(1, 8, qualities.clone())));
    assert!(!bank.confirms_receive(&receive_report(1, 9, qualities.clone())));
    assert!(!bank.confirms_receive(&receive_report(2, 8, qualities.clone())));
    let mut stale = qualities.clone();
    stale[0].input_age_cycles = 0;
    assert!(!bank.confirms_receive(&receive_report(1, 8, stale)));
    bank.begin_due(2, 9).unwrap();
    assert!(!bank.confirms_receive(&receive_report(1, 8, qualities)));
}

#[test]
fn service_submission_checks_order_deadlines_indices_and_the_control_request() {
    let schedule = two_rate_schedule();
    let mut first = domain::<2>(12);
    let mut second = domain::<1>(13);
    let bank = ScheduledDomainBank::new(
        &schedule,
        [
            ScheduledDomainEntry { id: 9, domain: &mut first },
            ScheduledDomainEntry { id: 10, domain: &mut second },
        ],
    )
    .unwrap();
    let mut master = EthercatMaster::<1, MAX_ETHERNET_FRAME_LEN>::new(MasterConfig::new([0xFF; 6], [2, 0, 0, 0, 0, 1]));
    let dc = DcCyclicSync::new(DcCyclicConfig::new(0x1000, 20, 0), DcMonitor::new(50, 10, 1, 2));
    let owned_dc = DcCyclicSync::new(DcCyclicConfig::new(0x1000, 12, 0), DcMonitor::new(50, 10, 1, 2));
    let mut pool = ControlRequestPool::<4>::new();
    let handle = pool.acquire(21, 5, 0x1000, RegisterOperation::Read, &[0; 2], 10_000).unwrap();

    assert_eq!(
        bank.check_service_submission(&master, &dc, &pool, Some(handle), 5, 100, 1_000, 2_000),
        Ok(Some(10_000))
    );
    assert_eq!(bank.check_service_submission(&master, &dc, &pool, None, 5, 100, 1_000, 2_000), Ok(None));
    assert_eq!(
        bank.check_service_submission(&master, &dc, &pool, Some(handle), 5, 100, 0, 2_000),
        Err(ScheduledServiceTxError::InvalidDeadline)
    );
    assert_eq!(
        bank.check_service_submission(&master, &dc, &pool, Some(handle), 5, 2_000, 3_000, 2_000),
        Err(ScheduledServiceTxError::InvalidDeadline)
    );
    assert_eq!(
        bank.check_service_submission(&master, &owned_dc, &pool, Some(handle), 5, 100, 1_000, 2_000),
        Err(ScheduledServiceTxError::DcIndexConflict(12))
    );
    assert_eq!(
        bank.check_service_submission(&master, &dc, &pool, Some(handle), 6, 100, 1_000, 2_000),
        Err(ScheduledServiceTxError::ControlGenerationMismatch)
    );
    assert_eq!(
        bank.check_service_submission(&master, &dc, &pool, Some(handle), 5, 20_000, 30_000, 30_000),
        Err(ScheduledServiceTxError::ControlDeadlineExpired)
    );

    let clashing = pool.acquire(20, 5, 0x1000, RegisterOperation::Read, &[0; 2], 10_000).unwrap();
    assert_eq!(
        bank.check_service_submission(&master, &dc, &pool, Some(clashing), 5, 100, 1_000, 2_000),
        Err(ScheduledServiceTxError::ControlIndexConflict(20))
    );
    let mut frame = [0u8; MAX_ETHERNET_FRAME_LEN];
    pool.get_mut(handle).unwrap().build_frame(&mut frame, [0xFF; 6], [1, 2, 3, 4, 5, 6]).unwrap();
    assert_eq!(
        bank.check_service_submission(&master, &dc, &pool, Some(handle), 5, 100, 1_000, 2_000),
        Err(ScheduledServiceTxError::InvalidControlRequest)
    );
    let twin = pool.acquire(21, 5, 0x1000, RegisterOperation::Read, &[0; 2], 10_000).unwrap();
    assert_eq!(
        bank.check_service_submission(&master, &dc, &pool, Some(twin), 5, 100, 1_000, 2_000),
        Err(ScheduledServiceTxError::ControlIndexConflict(21))
    );

    let mut busy_dc = DcCyclicSync::new(DcCyclicConfig::new(0x1000, 20, 0), DcMonitor::new(50, 10, 1, 2));
    let mut image = [0u8; 8];
    busy_dc.prepare(5, 1_000, &mut image).unwrap();
    assert_eq!(
        bank.check_service_submission(&master, &busy_dc, &pool, None, 5, 100, 1_000, 2_000),
        Err(ScheduledServiceTxError::Dc(DcCyclicError::Busy))
    );

    master.begin_dma_receive_cycle(0, 1).finish(0);
    assert_eq!(master.cycle_number(), 1);
    assert_eq!(
        bank.check_service_submission(&master, &dc, &pool, None, 5, 100, 1_000, 2_000),
        Err(ScheduledServiceTxError::CycleOrder)
    );
}
