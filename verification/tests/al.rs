use lib::al::{
    AlError, AlErrorAcknowledgePolicy, AlErrorAcknowledgeStatus, AlFaultRecord, AlPhase,
    AlProgress, AlTransitionController, AlTransitionRequest,
};
use lib::control::{ControlRequestPool, RegisterOperation};
use lib::registers::{ESC_AL_CONTROL, ESC_AL_STATUS};
use lib::slave::{AlStatus, EthercatState, AL_ERROR_FLAG};

fn status(state: EthercatState, code: u16) -> [u8; 6] {
    let mut bytes = [0; 6];
    bytes[0..2].copy_from_slice(&state.code().to_le_bytes());
    bytes[4..6].copy_from_slice(&code.to_le_bytes());
    bytes
}

fn request(current: EthercatState, requested: EthercatState, generation: u16, timeout_ns: u64, request_timeout_ns: u64) -> AlTransitionRequest {
    AlTransitionRequest {
        station_address: 0x1000,
        current_state: current,
        requested_state: requested,
        generation,
        now_ns: 0,
        timeout_ns,
        request_timeout_ns,
    }
}

#[test]
fn controller_performs_one_legal_step_and_polls_until_reached() {
    let mut controller = AlTransitionController::new();
    controller.start(request(EthercatState::Init, EthercatState::Op, 9, 1_000, 100)).unwrap();
    assert_eq!(controller.expected_state(), EthercatState::PreOp);

    let write = controller.next_action(1).unwrap().unwrap();
    assert_eq!(write.operation, RegisterOperation::Write);
    assert_eq!(write.address as u16, ESC_AL_CONTROL);
    assert_eq!(write.payload(), &[0x02, 0x00]);
    controller.accept(write.token, 9, &[], 1, 2).unwrap();

    let read = controller.next_action(3).unwrap().unwrap();
    assert_eq!(read.address as u16, ESC_AL_STATUS);
    assert_eq!(controller.accept(read.token, 9, &status(EthercatState::Init, 0), 1, 4), Ok(AlProgress::Polling));
    let read = controller.next_action(5).unwrap().unwrap();
    assert_eq!(
        controller.accept(read.token, 9, &status(EthercatState::PreOp, 0), 1, 6),
        Ok(AlProgress::Reached(EthercatState::PreOp))
    );
    assert_eq!(controller.phase(), AlPhase::Complete);
}

#[test]
fn al_error_latches_fault_and_rejects_auto_recovery() {
    let mut controller = AlTransitionController::new();
    controller.start(request(EthercatState::SafeOp, EthercatState::Op, 1, 1_000, 100)).unwrap();
    let write = controller.next_action(1).unwrap().unwrap();
    controller.accept(write.token, 1, &[], 1, 2).unwrap();
    let read = controller.next_action(3).unwrap().unwrap();
    let mut error_status = status(EthercatState::SafeOp, 0x001B);
    error_status[0] |= 0x10;
    assert_eq!(controller.accept(read.token, 1, &error_status, 1, 4), Err(AlError::AlErrorCode(0x001B)));
    assert_eq!(controller.phase(), AlPhase::Faulted);
    assert_eq!(controller.next_action(5), Ok(None));
    assert_eq!(
        controller.fault_record(),
        Some(AlFaultRecord {
            status: AlStatus::new(0x14, 0x001B),
            requested_state: EthercatState::Op,
            acknowledgement: AlErrorAcknowledgeStatus::NotAttempted,
        })
    );
}

#[test]
fn enabled_policy_acknowledges_error_but_does_not_retry_transition() {
    let mut controller = AlTransitionController::new();
    controller
        .start_with_status(
            request(EthercatState::SafeOp, EthercatState::Op, 2, 1_000, 100),
            AlStatus::new(EthercatState::SafeOp.code(), 0),
            AlErrorAcknowledgePolicy::Enabled,
        )
        .unwrap();

    let transition = controller.next_action(1).unwrap().unwrap();
    assert_eq!(transition.payload(), &[EthercatState::Op.code() as u8, 0]);
    controller.accept(transition.token, 2, &[], 1, 2).unwrap();
    let status_read = controller.next_action(3).unwrap().unwrap();
    let mut error_status = status(EthercatState::SafeOp, 0x001B);
    error_status[0] |= AL_ERROR_FLAG as u8;
    assert_eq!(controller.accept(status_read.token, 2, &error_status, 1, 4), Ok(AlProgress::Polling));

    let acknowledge = controller.next_action(5).unwrap().unwrap();
    assert_eq!(controller.phase(), AlPhase::WritingErrorAcknowledge);
    assert_eq!(acknowledge.payload(), &[0x14, 0x00]);
    controller.accept(acknowledge.token, 2, &[], 1, 6).unwrap();
    let verify = controller.next_action(7).unwrap().unwrap();
    assert_eq!(
        controller.accept(verify.token, 2, &status(EthercatState::SafeOp, 0), 1, 8),
        Err(AlError::AlErrorCode(0x001B))
    );
    assert_eq!(controller.phase(), AlPhase::Faulted);
    assert_eq!(controller.fault_record().unwrap().acknowledgement, AlErrorAcknowledgeStatus::Complete);
    assert_eq!(controller.next_action(9), Ok(None));
}

#[test]
fn acknowledgement_timeout_preserves_first_al_fault() {
    let mut controller = AlTransitionController::new();
    let mut initial_status = status(EthercatState::PreOp, 0x0011);
    initial_status[0] |= AL_ERROR_FLAG as u8;
    controller
        .start_with_status(
            request(EthercatState::PreOp, EthercatState::SafeOp, 5, 1_000, 10),
            AlStatus::new(u16::from_le_bytes([initial_status[0], initial_status[1]]), 0x0011),
            AlErrorAcknowledgePolicy::Enabled,
        )
        .unwrap();

    let acknowledge = controller.next_action(1).unwrap().unwrap();
    assert_eq!(acknowledge.payload(), &[0x12, 0x00]);
    assert_eq!(controller.timeout(acknowledge.token, acknowledge.deadline_ns), Err(AlError::Timeout));
    assert_eq!(controller.last_error(), Some(AlError::Timeout));
    assert_eq!(
        controller.fault_record(),
        Some(AlFaultRecord {
            status: AlStatus::new(0x12, 0x0011),
            requested_state: EthercatState::SafeOp,
            acknowledgement: AlErrorAcknowledgeStatus::InProgress,
        })
    );
}

#[test]
fn invalid_acknowledgement_response_preserves_first_al_fault() {
    let mut controller = AlTransitionController::new();
    controller
        .start_with_status(
            request(EthercatState::PreOp, EthercatState::SafeOp, 6, 1_000, 100),
            AlStatus::new(0x12, 0x0011),
            AlErrorAcknowledgePolicy::Enabled,
        )
        .unwrap();

    let acknowledge = controller.next_action(1).unwrap().unwrap();
    controller.accept(acknowledge.token, 6, &[], 1, 2).unwrap();
    let verify = controller.next_action(3).unwrap().unwrap();
    assert_eq!(
        controller.accept(verify.token, 6, &status(EthercatState::SafeOp, 0), 1, 4),
        Err(AlError::InvalidResponse)
    );
    assert_eq!(controller.last_error(), Some(AlError::InvalidResponse));
    assert_eq!(
        controller.fault_record(),
        Some(AlFaultRecord {
            status: AlStatus::new(0x12, 0x0011),
            requested_state: EthercatState::SafeOp,
            acknowledgement: AlErrorAcknowledgeStatus::InProgress,
        })
    );
}

#[test]
fn already_reached_state_is_idempotent_but_unknown_is_rejected() {
    let mut controller = AlTransitionController::new();
    controller.start(request(EthercatState::PreOp, EthercatState::PreOp, 1, 100, 10)).unwrap();
    assert_eq!(controller.phase(), AlPhase::Complete);
    assert_eq!(controller.next_action(1), Ok(None));

    assert_eq!(
        controller.start(request(EthercatState::Unknown, EthercatState::PreOp, 1, 100, 10)),
        Err(AlError::InvalidTransition)
    );
}

#[test]
fn al_rejects_wrong_token_without_side_effects_and_busy_start() {
    let mut controller = AlTransitionController::new();
    controller.start(request(EthercatState::Init, EthercatState::PreOp, 3, 1_000, 100)).unwrap();
    let write = controller.next_action(1).unwrap().unwrap();
    assert_eq!(controller.accept(write.token.wrapping_add(1), 3, &[], 1, 2), Err(AlError::TokenMismatch));
    assert_eq!(controller.pending(), Some(write));
    assert_eq!(
        controller.start(request(EthercatState::Init, EthercatState::PreOp, 3, 1_000, 100)),
        Err(AlError::Busy)
    );
    assert_eq!(controller.accept(write.token, 4, &[], 1, 2), Err(AlError::GenerationMismatch));
    assert_eq!(controller.phase(), AlPhase::Faulted);
}

#[test]
fn al_transition_timeout_and_illegal_step() {
    let mut controller = AlTransitionController::new();
    controller.start(request(EthercatState::Init, EthercatState::SafeOp, 1, 10, 5)).unwrap();
    assert_eq!(controller.next_action(10), Err(AlError::Timeout));
    assert_eq!(controller.phase(), AlPhase::Faulted);

    let mut controller = AlTransitionController::new();
    assert_eq!(
        controller.start_with_status(
            request(EthercatState::Op, EthercatState::Op, 1, 10, 5),
            AlStatus::new(EthercatState::SafeOp.code(), 0),
            AlErrorAcknowledgePolicy::Disabled,
        ),
        Err(AlError::InvalidTransition)
    );
}

#[test]
fn al_pending_action_can_be_enqueued_in_a_control_pool() {
    let mut controller = AlTransitionController::new();
    controller.start(request(EthercatState::Init, EthercatState::PreOp, 7, 1_000, 100)).unwrap();
    let mut pool = ControlRequestPool::<2>::new();
    assert!(controller.enqueue_pending(&mut pool).is_err());
    let write = controller.next_action(1).unwrap().unwrap();
    let handle = controller.enqueue_pending(&mut pool).unwrap();
    let queued = pool.get(handle).unwrap();
    assert_eq!(queued.address, write.address);
    assert_eq!(queued.payload(), &[0x02, 0x00]);
    assert_eq!(queued.length, 2);
}
