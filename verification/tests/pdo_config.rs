use lib::coe::{CoeHeader, CoeService};
use lib::mailbox::{MailboxConfig, MailboxError};
use lib::pdo_config::{
    PdoConfigAction, PdoConfigBatch, PdoConfigBatchError, PdoConfigBatchPhase, PdoConfigBatchPlan,
    PdoConfigBatchPlanError, PdoConfigBatchStatus, PdoConfigController, PdoConfigError, PdoConfigJob,
    PdoConfigPhase, PdoConfigPlan, PdoConfigPlanError, PdoConfigProgress, PdoConfigStep, PdoEntrySpec,
    PdoSdoWrite,
};

fn response_header(dst: &mut [u8]) {
    CoeHeader { number: 0, service: CoeService::SdoResponse }.encode(dst).unwrap();
}

fn download_response(action: PdoConfigAction) -> [u8; 6] {
    let mut response = [0; 6];
    response_header(&mut response);
    response[2] = 0x60;
    response[3..5].copy_from_slice(&action.sdo_index.to_le_bytes());
    response[5] = action.sdo_subindex;
    response
}

fn expedited_upload_response(action: PdoConfigAction, data: &[u8]) -> [u8; 10] {
    assert!((1..=4).contains(&data.len()));
    let mut response = [0; 10];
    response_header(&mut response);
    response[2] = 0x43 | (((4 - data.len()) as u8) << 2);
    response[3..5].copy_from_slice(&action.sdo_index.to_le_bytes());
    response[5] = action.sdo_subindex;
    response[6..6 + data.len()].copy_from_slice(data);
    response
}

#[test]
fn plan_emits_clear_entries_and_final_counts_in_order() {
    let mut plan = PdoConfigPlan::<8>::new();
    plan.append_mapping(0x1600, &[PdoEntrySpec::new(0x6040, 0, 16), PdoEntrySpec::new(0x607A, 0, 32)])
        .unwrap();
    plan.append_assignment(0x1C12, &[0x1600]).unwrap();

    assert_eq!(plan.len(), 7);
    assert_eq!(plan.writes()[0], PdoSdoWrite::new(0x1600, 0, &[0]).unwrap());
    assert_eq!(plan.writes()[1], PdoSdoWrite::new(0x1600, 1, &0x1000_6040u32.to_le_bytes()).unwrap());
    assert_eq!(plan.writes()[2], PdoSdoWrite::new(0x1600, 2, &0x2000_607Au32.to_le_bytes()).unwrap());
    assert_eq!(plan.writes()[3], PdoSdoWrite::new(0x1600, 0, &[2]).unwrap());
    assert_eq!(plan.writes()[4], PdoSdoWrite::new(0x1C12, 0, &[0]).unwrap());
    assert_eq!(plan.writes()[5], PdoSdoWrite::new(0x1C12, 1, &0x1600u16.to_le_bytes()).unwrap());
    assert_eq!(plan.writes()[6], PdoSdoWrite::new(0x1C12, 0, &[1]).unwrap());
}

#[test]
fn controller_downloads_and_verifies_every_pdo_write() {
    let mut plan = PdoConfigPlan::<3>::new();
    plan.append_assignment(0x1C12, &[0x1600]).unwrap();
    let mut controller = PdoConfigController::<3>::new();
    controller.start(plan, 0x1000, 9, 0, 10_000, 100).unwrap();
    let expected_values: [&[u8]; 3] = [&[0], &0x1600u16.to_le_bytes(), &[1]];

    for (expected_operation, expected_value) in expected_values.iter().enumerate() {
        let download = controller.next_action(1 + expected_operation as u64).unwrap().unwrap();
        assert_eq!(download.operation_index, expected_operation as u16);
        assert_eq!(download.step, PdoConfigStep::Download);
        assert_eq!(controller.step(), PdoConfigStep::Download);
        assert_eq!(
            controller.accept(download, 9, &download_response(download), 2).unwrap(),
            PdoConfigProgress::Advanced
        );
        assert_eq!(controller.operation_index(), expected_operation);

        let verify = controller.next_action(3).unwrap().unwrap();
        assert_eq!(verify.operation_index, expected_operation as u16);
        assert_eq!(verify.step, PdoConfigStep::VerifyUpload);
        assert_eq!(verify.payload()[2], 0x40);
        let response = expedited_upload_response(verify, expected_value);
        let progress = controller.accept(verify, 9, &response, 4).unwrap();
        let expected_progress =
            if expected_operation == 2 { PdoConfigProgress::Complete } else { PdoConfigProgress::Advanced };
        assert_eq!(progress, expected_progress);
    }

    assert_eq!(controller.phase(), PdoConfigPhase::Complete);
    assert_eq!(controller.next_action(3), Ok(None));
}

#[test]
fn controller_accepts_segmented_verification_upload() {
    let mut plan = PdoConfigPlan::<1>::new();
    plan.push(PdoSdoWrite::new(0x6040, 0, &[0x06, 0]).unwrap()).unwrap();
    let mut controller = PdoConfigController::<1>::new();
    controller.start(plan, 0x1000, 9, 0, 10_000, 100).unwrap();

    let download = controller.next_action(1).unwrap().unwrap();
    controller.accept(download, 9, &download_response(download), 2).unwrap();
    let initiate = controller.next_action(3).unwrap().unwrap();
    let mut initiate_response = [0; 10];
    response_header(&mut initiate_response);
    initiate_response[2] = 0x41;
    initiate_response[3..5].copy_from_slice(&initiate.sdo_index.to_le_bytes());
    initiate_response[5] = initiate.sdo_subindex;
    initiate_response[6..10].copy_from_slice(&2u32.to_le_bytes());
    assert_eq!(controller.accept(initiate, 9, &initiate_response, 4).unwrap(), PdoConfigProgress::Advanced);

    let segment = controller.next_action(5).unwrap().unwrap();
    assert_eq!(segment.step, PdoConfigStep::VerifyUpload);
    assert_eq!(segment.payload(), &[0, 0x20, 0x60]);
    let mut segment_response = [0; 10];
    response_header(&mut segment_response);
    segment_response[2] = 0x0B;
    segment_response[3..5].copy_from_slice(&[0x06, 0]);
    assert_eq!(controller.accept(segment, 9, &segment_response, 6).unwrap(), PdoConfigProgress::Complete);
    assert_eq!(controller.operation_index(), 1);
}

fn started_single_write_controller() -> (PdoConfigController<1>, PdoConfigAction) {
    let mut plan = PdoConfigPlan::<1>::new();
    plan.push(PdoSdoWrite::new(0x6040, 0, &[0x06, 0]).unwrap()).unwrap();
    let mut controller = PdoConfigController::<1>::new();
    controller.start(plan, 0x1000, 9, 0, 10_000, 100).unwrap();
    let download = controller.next_action(1).unwrap().unwrap();
    controller.accept(download, 9, &download_response(download), 2).unwrap();
    let verify = controller.next_action(3).unwrap().unwrap();
    (controller, verify)
}

#[test]
fn readback_length_mismatch_faults_without_advancing() {
    let (mut controller, verify) = started_single_write_controller();

    assert_eq!(
        controller.accept(verify, 9, &expedited_upload_response(verify, &[0x06]), 4),
        Err(PdoConfigError::ReadbackLengthMismatch { expected: 2, actual: 1 })
    );
    assert_eq!(controller.phase(), PdoConfigPhase::Faulted);
    assert_eq!(controller.operation_index(), 0);
}

#[test]
fn readback_value_mismatch_reports_first_changed_byte() {
    let (mut controller, verify) = started_single_write_controller();

    assert_eq!(
        controller.accept(verify, 9, &expedited_upload_response(verify, &[0x06, 0x7F]), 4),
        Err(PdoConfigError::ReadbackValueMismatch { byte_index: 1, expected: 0, actual: 0x7F })
    );
    assert_eq!(controller.operation_index(), 0);
}

#[test]
fn verification_action_matching_generation_and_deadline_fail_closed() {
    let (mut controller, verify) = started_single_write_controller();
    let mut modified = verify;
    modified.step = PdoConfigStep::Download;
    assert_eq!(controller.accept(modified, 9, &[0; 6], 4), Err(PdoConfigError::ActionMismatch));
    assert_eq!(controller.operation_index(), 0);

    let mut plan = PdoConfigPlan::<1>::new();
    plan.push(PdoSdoWrite::new(0x6040, 0, &[0x06, 0]).unwrap()).unwrap();
    controller.start(plan, 0x1000, 9, 0, 10_000, 100).unwrap();
    let download = controller.next_action(1).unwrap().unwrap();
    controller.accept(download, 9, &download_response(download), 2).unwrap();
    let verify = controller.next_action(3).unwrap().unwrap();
    assert_eq!(controller.accept(verify, 10, &[0; 6], 4), Err(PdoConfigError::GenerationMismatch));
    assert_eq!(controller.operation_index(), 0);

    let mut plan = PdoConfigPlan::<1>::new();
    plan.push(PdoSdoWrite::new(0x6040, 0, &[0x06, 0]).unwrap()).unwrap();
    controller.start(plan, 0x1000, 9, 0, 10_000, 100).unwrap();
    let download = controller.next_action(1).unwrap().unwrap();
    controller.accept(download, 9, &download_response(download), 2).unwrap();
    let verify = controller.next_action(3).unwrap().unwrap();
    assert_eq!(controller.accept(verify, 9, &[], 4), Err(PdoConfigError::PayloadLengthMismatch));
    assert_eq!(controller.operation_index(), 0);

    let mut plan = PdoConfigPlan::<1>::new();
    plan.push(PdoSdoWrite::new(0x6040, 0, &[0x06, 0]).unwrap()).unwrap();
    controller.start(plan, 0x1000, 9, 0, 10_000, 100).unwrap();
    let download = controller.next_action(1).unwrap().unwrap();
    controller.accept(download, 9, &download_response(download), 2).unwrap();
    let verify = controller.next_action(3).unwrap().unwrap();
    assert_eq!(controller.timeout(verify, verify.deadline_ns), Err(PdoConfigError::Timeout));
    assert_eq!(controller.operation_index(), 0);
}

#[test]
fn capacity_failure_does_not_leave_a_partial_mapping() {
    let mut plan = PdoConfigPlan::<3>::new();
    plan.push(PdoSdoWrite::new(0x6040, 0, &[0x06, 0]).unwrap()).unwrap();

    assert_eq!(
        plan.append_mapping(0x1600, &[PdoEntrySpec::new(0x6040, 0, 16)]),
        Err(PdoConfigPlanError::CapacityExceeded)
    );
    assert_eq!(plan.len(), 1);
    assert_eq!(plan.writes()[0].index, 0x6040);
}

#[test]
fn invalid_bit_length_does_not_leave_a_partial_mapping() {
    let mut plan = PdoConfigPlan::<4>::new();
    assert_eq!(
        plan.append_mapping(0x1600, &[PdoEntrySpec::new(0x6040, 0, 0)]),
        Err(PdoConfigPlanError::InvalidBitLength)
    );
    assert!(plan.is_empty());
}

#[test]
fn controller_rejects_stale_action_without_advancing_plan() {
    let mut plan = PdoConfigPlan::<1>::new();
    plan.push(PdoSdoWrite::new(0x6040, 0, &[0x06, 0]).unwrap()).unwrap();
    let mut controller = PdoConfigController::<1>::new();
    controller.start(plan, 0x1000, 9, 0, 10_000, 100).unwrap();
    let action = controller.next_action(1).unwrap().unwrap();
    let mut stale = action;
    stale.token = stale.token.wrapping_add(1).max(1);
    assert_eq!(controller.accept(stale, 9, &[0; 6], 2), Err(PdoConfigError::ActionMismatch));
    assert_eq!(controller.phase(), PdoConfigPhase::Faulted);
    assert_eq!(controller.operation_index(), 0);
}

#[test]
fn controller_latches_matching_mailbox_failure_without_advancing() {
    let mut plan = PdoConfigPlan::<1>::new();
    plan.push(PdoSdoWrite::new(0x1C12, 0, &[0]).unwrap()).unwrap();
    let mut controller = PdoConfigController::new();
    controller.start(plan, 0x1000, 7, 0, 100, 20).unwrap();
    let action = controller.next_action(1).unwrap().unwrap();

    assert_eq!(
        controller.mailbox_failed(action, MailboxError::Timeout),
        Err(PdoConfigError::Mailbox(MailboxError::Timeout))
    );
    assert_eq!(controller.phase(), PdoConfigPhase::Faulted);
    assert_eq!(controller.operation_index(), 0);
    assert_eq!(controller.pending(), None);
    assert_eq!(controller.last_error(), Some(PdoConfigError::Mailbox(MailboxError::Timeout)));

    let mut restart_plan = PdoConfigPlan::<1>::new();
    restart_plan.push(PdoSdoWrite::new(0x1C12, 0, &[0]).unwrap()).unwrap();
    controller.start(restart_plan, 0x1000, 8, 2, 100, 20).unwrap();
    assert_eq!(controller.phase(), PdoConfigPhase::Sending);
    assert_eq!(controller.last_error(), None);
}

#[test]
fn controller_rejects_mailbox_failure_for_modified_action() {
    let mut plan = PdoConfigPlan::<1>::new();
    plan.push(PdoSdoWrite::new(0x1C12, 0, &[0]).unwrap()).unwrap();
    let mut controller = PdoConfigController::new();
    controller.start(plan, 0x1000, 7, 0, 100, 20).unwrap();
    let action = controller.next_action(1).unwrap().unwrap();
    let mut modified = action;
    modified.token = modified.token.wrapping_add(1);

    assert_eq!(controller.mailbox_failed(modified, MailboxError::Timeout), Err(PdoConfigError::ActionMismatch));
    assert_eq!(controller.phase(), PdoConfigPhase::Faulted);
    assert_eq!(controller.operation_index(), 0);
    assert_eq!(controller.pending(), None);
}

fn one_write_plan(index: u16, value: u8) -> PdoConfigPlan<1> {
    let mut plan = PdoConfigPlan::new();
    plan.push(PdoSdoWrite::new(index, 0, &[value]).unwrap()).unwrap();
    plan
}

fn complete_batch_job<const JOBS: usize>(
    batch: &mut PdoConfigBatch<JOBS, 1>,
    generation: u16,
    value: u8,
    now_ns: u64,
) {
    let download = batch.controller_mut().next_action(now_ns).unwrap().unwrap();
    assert_eq!(download.generation, generation);
    batch.controller_mut().accept(download, generation, &download_response(download), now_ns + 1).unwrap();
    let verify = batch.controller_mut().next_action(now_ns + 2).unwrap().unwrap();
    assert_eq!(verify.generation, generation);
    assert_eq!(
        batch.controller_mut().accept(verify, generation, &expedited_upload_response(verify, &[value]), now_ns + 3),
        Ok(PdoConfigProgress::Complete)
    );
}

#[test]
fn batch_plan_rejects_duplicate_stations_and_capacity_transactionally() {
    let config = MailboxConfig::new(0x1000, 32, 0x1100, 32);
    let mut plan = PdoConfigBatchPlan::<1, 1>::new();
    assert_eq!(plan.validate(), Err(PdoConfigBatchPlanError::Empty));
    plan.push(PdoConfigJob::new(0x1001, one_write_plan(0x1C12, 0), config)).unwrap();
    assert_eq!(
        plan.push(PdoConfigJob::new(0x1001, one_write_plan(0x1C13, 0), config)),
        Err(PdoConfigBatchPlanError::CapacityExceeded)
    );
    assert_eq!(plan.len(), 1);

    let mut duplicate = PdoConfigBatchPlan::<2, 1>::new();
    duplicate.push(PdoConfigJob::new(0x1001, PdoConfigPlan::new(), config)).unwrap();
    assert_eq!(
        duplicate.push(PdoConfigJob::new(0x1001, PdoConfigPlan::new(), config)),
        Err(PdoConfigBatchPlanError::DuplicateStationAddress { station_address: 0x1001 })
    );
    assert_eq!(duplicate.len(), 1);
}

#[test]
fn batch_advances_jobs_in_order_with_distinct_generations() {
    let first_config = MailboxConfig::new(0x1000, 32, 0x1100, 32);
    let second_config = MailboxConfig::new(0x1200, 32, 0x1300, 32);
    let mut plan = PdoConfigBatchPlan::<2, 1>::new();
    plan.push(PdoConfigJob::new(0x1001, one_write_plan(0x1C12, 1), first_config)).unwrap();
    plan.push(PdoConfigJob::new(0x1002, one_write_plan(0x1C13, 2), second_config)).unwrap();
    let mut batch = PdoConfigBatch::new();
    batch.start(plan, 41, 0, 1_000, 100).unwrap();

    assert_eq!(
        batch.status(),
        PdoConfigBatchStatus {
            phase: PdoConfigBatchPhase::Configuring,
            current_index: 0,
            job_count: 2,
            station_address: Some(0x1001),
            generation: Some(41),
        }
    );
    assert_eq!(batch.current_mailbox_config(), Some(first_config));
    complete_batch_job(&mut batch, 41, 1, 1);
    assert_eq!(batch.controller().phase(), PdoConfigPhase::Complete);

    assert_eq!(
        batch.advance(10).unwrap(),
        PdoConfigBatchStatus {
            phase: PdoConfigBatchPhase::Configuring,
            current_index: 1,
            job_count: 2,
            station_address: Some(0x1002),
            generation: Some(42),
        }
    );
    assert_eq!(batch.current_mailbox_config(), Some(second_config));
    complete_batch_job(&mut batch, 42, 2, 11);
    assert_eq!(batch.advance(20).unwrap().phase, PdoConfigBatchPhase::Complete);
    assert_eq!(batch.current_index(), 2);
    assert_eq!(batch.current_mailbox_config(), None);
}

#[test]
fn batch_skips_empty_jobs_and_rejects_generation_overflow() {
    let config = MailboxConfig::new(0x1000, 32, 0x1100, 32);
    let mut plan = PdoConfigBatchPlan::<2, 0>::new();
    plan.push(PdoConfigJob::new(0x1001, PdoConfigPlan::new(), config)).unwrap();
    plan.push(PdoConfigJob::new(0x1002, PdoConfigPlan::new(), config)).unwrap();
    let mut batch = PdoConfigBatch::new();
    batch.start(plan, 7, 0, 100, 10).unwrap();
    assert_eq!(batch.phase(), PdoConfigBatchPhase::Complete);
    assert_eq!(batch.current_index(), 2);
    assert_eq!(batch.controller().pending(), None);

    let mut overflow_plan = PdoConfigBatchPlan::<2, 0>::new();
    overflow_plan.push(PdoConfigJob::new(0x1001, PdoConfigPlan::new(), config)).unwrap();
    overflow_plan.push(PdoConfigJob::new(0x1002, PdoConfigPlan::new(), config)).unwrap();
    assert_eq!(batch.start(overflow_plan, u16::MAX, 0, 100, 10), Err(PdoConfigBatchError::GenerationOutOfBounds));
    assert_eq!(batch.phase(), PdoConfigBatchPhase::Complete);
}

#[test]
fn batch_fault_retains_the_exact_job_until_explicit_restart() {
    let config = MailboxConfig::new(0x1000, 32, 0x1100, 32);
    let mut plan = PdoConfigBatchPlan::<2, 1>::new();
    plan.push(PdoConfigJob::new(0x1001, one_write_plan(0x1C12, 1), config)).unwrap();
    plan.push(PdoConfigJob::new(0x1002, one_write_plan(0x1C13, 2), config)).unwrap();
    let mut batch = PdoConfigBatch::new();
    batch.start(plan, 20, 0, 10, 5).unwrap();
    assert_eq!(batch.controller_mut().next_action(10), Err(PdoConfigError::Timeout));
    assert_eq!(batch.phase(), PdoConfigBatchPhase::Faulted);
    assert_eq!(batch.current_index(), 0);
    assert_eq!(batch.advance(11), Err(PdoConfigBatchError::Configuration(PdoConfigError::Timeout)));
    assert_eq!(batch.current_index(), 0);

    let mut restart = PdoConfigBatchPlan::<2, 1>::new();
    restart.push(PdoConfigJob::new(0x1002, one_write_plan(0x1C13, 3), config)).unwrap();
    batch.start(restart, 30, 12, 100, 10).unwrap();
    assert_eq!(batch.phase(), PdoConfigBatchPhase::Configuring);
    assert_eq!(batch.current_index(), 0);
    assert_eq!(batch.status().station_address, Some(0x1002));
    assert_eq!(batch.status().generation, Some(30));
    assert_eq!(batch.last_error(), None);
}

#[test]
fn sdo_write_refuses_empty_and_oversized_values() {
    assert_eq!(PdoSdoWrite::new(0x6040, 0, &[]), Err(PdoConfigPlanError::DataLengthOutOfBounds));
    assert_eq!(PdoSdoWrite::new(0x6040, 0, &[1, 2, 3, 4, 5]), Err(PdoConfigPlanError::DataLengthOutOfBounds));
    let write = PdoSdoWrite::new(0x6040, 3, &[1, 2, 3]).unwrap();
    assert_eq!(write.data, [1, 2, 3, 0]);
    assert_eq!(write.data_len, 3);
}

#[test]
fn mapping_with_too_many_entries_is_refused() {
    let entries = vec![PdoEntrySpec::new(0x6000, 1, 8); 256];
    let mut plan = PdoConfigPlan::<300>::new();
    assert_eq!(plan.append_mapping(0x1A00, &entries), Err(PdoConfigPlanError::CountOutOfBounds));
    assert!(plan.is_empty());
}

#[test]
fn controller_and_batch_refuse_work_before_start_and_while_busy() {
    let mut controller = PdoConfigController::<1>::new();
    assert_eq!(controller.next_action(0), Err(PdoConfigError::NotStarted));
    controller.start(one_write_plan(0x1C12, 1), 0x1000, 1, 0, 100, 10).unwrap();
    assert_eq!(controller.start(one_write_plan(0x1C12, 1), 0x1000, 1, 0, 100, 10), Err(PdoConfigError::Busy));

    let mut batch = PdoConfigBatch::<1, 1>::new();
    assert_eq!(batch.advance(0), Err(PdoConfigBatchError::NotStarted));
    assert_eq!(
        batch.start(PdoConfigBatchPlan::new(), 0, 0, 100, 10),
        Err(PdoConfigBatchError::Plan(PdoConfigBatchPlanError::Empty))
    );
    let config = MailboxConfig::new(0x1000, 32, 0x1100, 32);
    let mut plan = PdoConfigBatchPlan::<1, 1>::new();
    plan.push(PdoConfigJob::new(0x1001, one_write_plan(0x1C12, 1), config)).unwrap();
    batch.start(plan, 0, 0, 100, 10).unwrap();
    let mut again = PdoConfigBatchPlan::<1, 1>::new();
    again.push(PdoConfigJob::new(0x1001, one_write_plan(0x1C12, 1), config)).unwrap();
    assert_eq!(batch.start(again, 0, 0, 100, 10), Err(PdoConfigBatchError::Busy));
}

#[test]
fn next_action_repeats_the_pending_request_and_bounds_its_deadline() {
    let mut controller = PdoConfigController::<1>::new();
    controller.start(one_write_plan(0x1C12, 5), 0x1000, 3, 0, 50, 100).unwrap();
    let first = controller.next_action(10).unwrap().unwrap();
    assert_eq!(first.deadline_ns, 50);
    assert_eq!(first.token, 1);
    assert_eq!(first.payload(), &[0, 0x20, 0x2F, 0x12, 0x1C, 0, 5, 0, 0, 0]);
    assert_eq!(controller.next_action(20), Ok(Some(first)));
}
