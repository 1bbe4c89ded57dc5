use lib::coe::{CoeEmergency, CoeHeader, CoeService};
use lib::control::{ControlError, ControlRequestPool, RegisterOperation};
use lib::diag::{CoeEmergencyEvent, CoeEmergencyQueue};
use lib::mailbox::{
    MailboxConfig, MailboxController, MailboxError, MailboxFrame, MailboxHeader, MailboxPhase,
    MailboxProgress, MailboxProtocol, MailboxRetryPolicy, MailboxStatusBit, MAILBOX_HEADER_LEN,
};
use lib::registers::fixed_address;
use lib::wire::MAX_ETHERNET_FRAME_LEN;

fn header(length: u16, protocol: MailboxProtocol, counter: u8) -> MailboxHeader {
    MailboxHeader { length, address: 0, priority: 0, protocol, counter }
}

#[test]
fn mailbox_header_round_trips_protocol_and_counter() {
    let header = MailboxHeader { length: 10, address: 0x1234, priority: 2, protocol: MailboxProtocol::CoE, counter: 5 };
    let mut bytes = [0; MAILBOX_HEADER_LEN];
    header.encode(&mut bytes).unwrap();
    assert_eq!(MailboxHeader::decode(&bytes), Ok(header));
}

#[test]
fn controller_writes_mailbox_then_polls_and_caches_response() {
    let mut config = MailboxConfig::new(0x1000, 32, 0x1100, 32);
    config.poll_interval_ns = 10;
    let mut controller = MailboxController::new();
    controller.start(config, 0x1000, 7, 0, MailboxProtocol::CoE, &[0xAA, 0xBB]).unwrap();

    let send = controller.next_action(1).unwrap().unwrap();
    assert_eq!(send.operation, RegisterOperation::Write);
    assert_eq!(send.write_len, 8);
    controller.accept(send, 7, &[0; 8], 1, 2).unwrap();

    let poll = controller.next_action(3).unwrap().unwrap();
    assert_eq!(poll.operation, RegisterOperation::Read);
    assert_eq!(poll.read_len, 32);
    let mut mailbox = [0; 32];
    header(2, MailboxProtocol::CoE, 1).encode(&mut mailbox).unwrap();
    mailbox[MAILBOX_HEADER_LEN..MAILBOX_HEADER_LEN + 2].copy_from_slice(&[1, 2]);
    assert_eq!(controller.accept(poll, 7, &mailbox, 1, 4), Ok(MailboxProgress::Complete));
    assert_eq!(controller.phase(), MailboxPhase::Complete);
    assert_eq!(controller.response().unwrap().1, &[1, 2]);
}

#[test]
fn mailbox_counter_mismatch_is_not_published() {
    let config = MailboxConfig::new(0x1000, 32, 0x1100, 32);
    let mut controller = MailboxController::new();
    controller.start(config, 0x1000, 7, 0, MailboxProtocol::CoE, &[1]).unwrap();
    let send = controller.next_action(1).unwrap().unwrap();
    controller.accept(send, 7, &[0; 7], 1, 2).unwrap();
    let poll = controller.next_action(3).unwrap().unwrap();
    let mut mailbox = [0; 32];
    header(1, MailboxProtocol::CoE, 7).encode(&mut mailbox).unwrap();
    assert_eq!(controller.accept(poll, 7, &mailbox, 1, 4), Err(MailboxError::CounterMismatch));
    assert_eq!(controller.phase(), MailboxPhase::Faulted);
    assert!(controller.response().is_none());
}

#[test]
fn mailbox_retries_protocol_mismatch_without_changing_transaction_counter() {
    let config = MailboxConfig::new(0x1000, 32, 0x1100, 32).with_retry_policy(MailboxRetryPolicy::new(2, 10));
    let mut controller = MailboxController::new();
    controller.start(config, 0x1000, 7, 0, MailboxProtocol::CoE, &[1]).unwrap();
    let send = controller.next_action(1).unwrap().unwrap();
    controller.accept(send, 7, &[0; 7], 1, 2).unwrap();

    let poll = controller.next_action(3).unwrap().unwrap();
    let mut wrong = [0; 32];
    header(1, MailboxProtocol::EoE, 1).encode(&mut wrong).unwrap();
    assert_eq!(controller.accept(poll, 7, &wrong, 1, 4), Ok(MailboxProgress::RetryScheduled));
    assert_eq!(controller.retry_count(), 1);
    assert_eq!(controller.last_retry_error(), Some(MailboxError::ProtocolMismatch));
    assert_eq!(controller.discarded_frames(), 1);
    assert!(controller.next_action(5).unwrap().is_none());

    let retry = controller.next_action(14).unwrap().unwrap();
    let mut response = [0; 32];
    header(1, MailboxProtocol::CoE, 1).encode(&mut response).unwrap();
    response[MAILBOX_HEADER_LEN] = 0xCC;
    assert_eq!(controller.accept(retry, 7, &response, 1, 15), Ok(MailboxProgress::Complete));
    assert_eq!(controller.response().unwrap().1, &[0xCC]);
}

#[test]
fn mailbox_retry_budget_exhaustion_latches_fault() {
    let config = MailboxConfig::new(0x1000, 32, 0x1100, 32).with_retry_policy(MailboxRetryPolicy::new(1, 10));
    let mut controller = MailboxController::new();
    controller.start(config, 0x1000, 7, 0, MailboxProtocol::CoE, &[1]).unwrap();
    let send = controller.next_action(1).unwrap().unwrap();
    controller.accept(send, 7, &[0; 7], 1, 2).unwrap();

    let mut wrong = [0; 32];
    header(1, MailboxProtocol::EoE, 1).encode(&mut wrong).unwrap();
    let poll = controller.next_action(3).unwrap().unwrap();
    assert_eq!(controller.accept(poll, 7, &wrong, 1, 4), Ok(MailboxProgress::RetryScheduled));
    let retry = controller.next_action(14).unwrap().unwrap();
    assert_eq!(controller.accept(retry, 7, &wrong, 1, 15), Err(MailboxError::ProtocolMismatch));
    assert_eq!(controller.phase(), MailboxPhase::Faulted);
    assert_eq!(controller.retry_count(), 1);
    assert_eq!(controller.last_error(), Some(MailboxError::ProtocolMismatch));
}

#[test]
fn emergency_is_delivered_without_completing_the_sdo_transaction() {
    let config = MailboxConfig::new(0x1000, 32, 0x1100, 32);
    let mut controller = MailboxController::new();
    controller.start(config, 0x1000, 7, 0, MailboxProtocol::CoE, &[1]).unwrap();
    let send = controller.next_action(1).unwrap().unwrap();
    controller.accept(send, 7, &[0; 7], 1, 2).unwrap();
    let poll = controller.next_action(3).unwrap().unwrap();

    let mut emergency_frame = [0; 32];
    header(10, MailboxProtocol::CoE, 7).encode(&mut emergency_frame).unwrap();
    CoeHeader { number: 0, service: CoeService::Emergency }.encode(&mut emergency_frame[MAILBOX_HEADER_LEN..]).unwrap();
    emergency_frame[MAILBOX_HEADER_LEN + 2..MAILBOX_HEADER_LEN + 4].copy_from_slice(&0x2310u16.to_le_bytes());
    emergency_frame[MAILBOX_HEADER_LEN + 4] = 0x81;
    emergency_frame[MAILBOX_HEADER_LEN + 5..MAILBOX_HEADER_LEN + 10].copy_from_slice(&[9, 8, 7, 6, 5]);

    let mut queue = CoeEmergencyQueue::<2>::new();
    assert_eq!(
        controller.accept_with_emergency_sink(poll, 7, &emergency_frame, 1, 4, &mut queue),
        Ok(MailboxProgress::EmergencyConsumed)
    );
    assert_eq!(controller.phase(), MailboxPhase::Polling);
    assert_eq!(controller.discarded_frames(), 1);
    assert_eq!(queue.pending(), 1);
    assert_eq!(
        queue.pop(),
        Some(CoeEmergencyEvent::new(
            4,
            0x1000,
            7,
            7,
            CoeEmergency { error_code: 0x2310, error_register: 0x81, manufacturer_data: [9, 8, 7, 6, 5] },
        ))
    );
    assert!(controller.next_action(4).unwrap().is_none());
    assert!(controller.next_action(1_004).unwrap().is_some());
}

#[test]
fn status_bit_polling_avoids_mailbox_read_until_status_is_active() {
    let config = MailboxConfig::new(0x1000, 32, 0x1100, 32).with_status_bit(MailboxStatusBit::new(0x1200, 0x08, true));
    let mut controller = MailboxController::new();
    controller.start(config, 0x1000, 7, 0, MailboxProtocol::CoE, &[1]).unwrap();
    let send = controller.next_action(1).unwrap().unwrap();
    controller.accept(send, 7, &[0; 7], 1, 2).unwrap();

    let status = controller.next_action(3).unwrap().unwrap();
    assert_eq!(status.operation, RegisterOperation::Read);
    assert_eq!(status.address, fixed_address(0x1000, 0x1200));
    assert_eq!(status.read_len, 1);
    assert_eq!(controller.accept(status, 7, &[0], 1, 4), Ok(MailboxProgress::NoMessage));
    assert_eq!(controller.phase(), MailboxPhase::CheckingStatus);
    assert!(controller.next_action(5).unwrap().is_none());

    let status = controller.next_action(1_004).unwrap().unwrap();
    assert_eq!(controller.accept(status, 7, &[0x08], 1, 1_005), Ok(MailboxProgress::Advanced));
    assert_eq!(controller.phase(), MailboxPhase::Polling);
    let poll = controller.next_action(1_006).unwrap().unwrap();
    assert_eq!(poll.address, fixed_address(0x1000, 0x1100));
    assert_eq!(poll.read_len, 32);
}

#[test]
fn status_bit_requires_a_nonzero_mask() {
    let config = MailboxConfig::new(0x1000, 32, 0x1100, 32).with_status_bit(MailboxStatusBit::new(0x1200, 0, true));
    let mut controller = MailboxController::new();
    assert_eq!(
        controller.start(config, 0x1000, 7, 0, MailboxProtocol::CoE, &[1]),
        Err(MailboxError::InvalidConfiguration)
    );
}

#[test]
fn control_pool_wkc_failure_is_translated_into_a_mailbox_retry() {
    let config = MailboxConfig::new(0x1000, 32, 0x1100, 32).with_retry_policy(MailboxRetryPolicy::new(1, 10));
    let mut controller = MailboxController::new();
    controller.start(config, 0x1000, 7, 0, MailboxProtocol::CoE, &[1]).unwrap();
    let action = controller.next_action(1).unwrap().unwrap();
    let mut pool = ControlRequestPool::<1>::new();
    let handle = controller.enqueue_pending(&mut pool).unwrap();
    let mut frame = [0; MAX_ETHERNET_FRAME_LEN];
    pool.get_mut(handle).unwrap().build_frame(&mut frame, [0; 6], [0; 6]).unwrap();
    assert_eq!(
        pool.complete(handle, action.generation, action.address, &[0; 7], 0),
        Err(ControlError::WorkingCounterMismatch)
    );
    assert_eq!(controller.accept_completed(&mut pool, handle, 2), Ok(MailboxProgress::RetryScheduled));
    assert_eq!(pool.in_use(), 0);
    assert_eq!(controller.retry_count(), 1);
    assert_eq!(controller.phase(), MailboxPhase::Sending);
}

#[test]
fn mailbox_frame_parse_and_header_errors() {
    let mut bytes = [0u8; 10];
    header(4, MailboxProtocol::FoE, 3).encode(&mut bytes).unwrap();
    bytes[6..10].copy_from_slice(&[1, 2, 3, 4]);
    let frame = MailboxFrame::parse(&bytes).unwrap();
    assert_eq!(frame.header.protocol, MailboxProtocol::FoE);
    assert_eq!(frame.payload, &[1, 2, 3, 4]);
    assert_eq!(MailboxFrame::parse(&bytes[..9]), Err(MailboxError::LengthOutOfBounds));
    assert_eq!(MailboxHeader::decode(&bytes[..5]), Err(MailboxError::HeaderTruncated));
    let mut unknown = bytes;
    unknown[5] = 0x09;
    assert_eq!(MailboxHeader::decode(&unknown), Err(MailboxError::UnknownProtocol));
    assert_eq!(header(0x800, MailboxProtocol::CoE, 1).encode(&mut [0u8; 6]), Err(MailboxError::LengthOutOfBounds));
    assert_eq!(header(1, MailboxProtocol::CoE, 8).encode(&mut [0u8; 6]), Err(MailboxError::CounterOutOfBounds));
    assert_eq!(header(1, MailboxProtocol::CoE, 1).encode(&mut [0u8; 5]), Err(MailboxError::BufferTooSmall));
}

#[test]
fn mailbox_counter_cycles_and_unconsumed_emergency_faults() {
    let config = MailboxConfig::new(0x1000, 32, 0x1100, 32);
    let mut controller = MailboxController::new();
    assert_eq!(controller.next_action(0), Err(MailboxError::NotStarted));
    controller.start(config, 0x1000, 7, 0, MailboxProtocol::CoE, &[1]).unwrap();
    assert_eq!(controller.start(config, 0x1000, 7, 0, MailboxProtocol::CoE, &[1]), Err(MailboxError::Busy));
    let send = controller.next_action(1).unwrap().unwrap();
    controller.accept(send, 7, &[0; 7], 1, 2).unwrap();
    let poll = controller.next_action(3).unwrap().unwrap();
    let mut emergency = [0u8; 32];
    header(10, MailboxProtocol::CoE, 1).encode(&mut emergency).unwrap();
    emergency[MAILBOX_HEADER_LEN + 1] = 0x10;
    assert_eq!(controller.accept(poll, 7, &emergency, 1, 4), Err(MailboxError::EmergencyUnconsumed));
    assert_eq!(controller.phase(), MailboxPhase::Faulted);
}
