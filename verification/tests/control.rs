use lib::control::{
    ControlError, ControlRequestPool, ControlRxConsumer, RegisterOperation, RequestHandle, RequestState,
};
use lib::engine::RxDatagramConsumer;
use lib::rx_index::RxMatch;
use lib::wire::{Command, DatagramHeader, FrameView, MAX_ETHERNET_FRAME_LEN};

#[test]
fn fixed_request_pool_builds_and_completes_register_read() {
    let mut pool = ControlRequestPool::<2>::new();
    let handle = pool.acquire(4, 9, 0x1000, RegisterOperation::Read, &[0; 4], 10_000).unwrap();
    let expectation = pool.expectation(handle).unwrap();
    assert_eq!(expectation.expected_address, 0x1000);
    let mut frame = [0; MAX_ETHERNET_FRAME_LEN];
    let length = pool.get_mut(handle).unwrap().build_frame(&mut frame, [0xFF; 6], [1, 2, 3, 4, 5, 6]).unwrap();
    let view = FrameView::parse(&frame[..length]).unwrap();
    let datagram = view.datagrams()[0].unwrap();
    assert_eq!(datagram.header.command, Command::Fprd);
    pool.complete(handle, 9, 0x1000, &[1, 2, 3, 4], 1).unwrap();
    assert_eq!(pool.get(handle).unwrap().state, RequestState::Complete);
    assert_eq!(pool.get(handle).unwrap().payload(), &[1, 2, 3, 4]);
    pool.release(handle).unwrap();
    assert_eq!(pool.in_use(), 0);
}

#[test]
fn read_request_zero_fills_tx_data_and_keeps_full_rx_payload() {
    let mut pool = ControlRequestPool::<1>::new();
    let handle = pool.acquire_with_response_len(4, 9, 0x1000, RegisterOperation::Read, &[], 4, 10_000).unwrap();
    let request = pool.get(handle).unwrap();
    assert_eq!(request.length, 4);
    assert_eq!(request.response_length, 4);
    assert_eq!(request.payload(), &[0, 0, 0, 0]);

    let mut frame = [0; MAX_ETHERNET_FRAME_LEN];
    let length = pool.get_mut(handle).unwrap().build_frame(&mut frame, [0xFF; 6], [1, 2, 3, 4, 5, 6]).unwrap();
    let view = FrameView::parse(&frame[..length]).unwrap();
    let datagram = view.datagrams()[0].unwrap();
    assert_eq!(datagram.payload, &[0, 0, 0, 0]);

    pool.complete(handle, 9, 0x1000, &[1, 2, 3, 4], 1).unwrap();
    assert_eq!(pool.get(handle).unwrap().payload(), &[1, 2, 3, 4]);
}

#[test]
fn request_pool_rejects_bad_completion_without_publishing_data() {
    let mut pool = ControlRequestPool::<1>::new();
    let handle = pool.acquire(1, 1, 0x20, RegisterOperation::Write, &[7, 8], 10).unwrap();
    let mut frame = [0; MAX_ETHERNET_FRAME_LEN];
    pool.get_mut(handle).unwrap().build_frame(&mut frame, [0; 6], [0; 6]).unwrap();
    let sent = pool.get(handle).unwrap().payload().to_vec();
    assert_eq!(pool.complete(handle, 1, 0x20, &[9, 9], 0), Err(ControlError::WorkingCounterMismatch));
    assert_eq!(pool.get(handle).unwrap().state, RequestState::Failed);
    assert_eq!(pool.get(handle).unwrap().last_error(), Some(ControlError::WorkingCounterMismatch));
    assert_eq!(pool.get(handle).unwrap().payload(), &sent[..]);
    assert_eq!(pool.get(handle).unwrap().payload(), &[7, 8]);
}

#[test]
fn unrelated_datagram_cannot_complete_a_control_request_with_the_same_slot_id() {
    let mut pool = ControlRequestPool::<1>::new();
    let handle = pool.acquire(15, 2, 0x5000, RegisterOperation::Read, &[0; 4], 250_000).unwrap();
    let mut frame = [0; MAX_ETHERNET_FRAME_LEN];
    pool.get_mut(handle).unwrap().build_frame(&mut frame, [0xFF; 6], [1, 2, 3, 4, 5, 6]).unwrap();
    let completion = RxMatch { slot_id: handle.index() as u16, generation: 2, working_counter: 1 };
    let other_index = DatagramHeader::new(Command::Fprd, 12, 0x5000, 4);
    let other_command = DatagramHeader::new(Command::Fpwr, 15, 0x5000, 4);
    assert_eq!(pool.complete_match(completion, other_index, &[1, 2, 3, 4]), Err(ControlError::DatagramIndexMismatch));
    assert_eq!(pool.complete_match(completion, other_command, &[1, 2, 3, 4]), Err(ControlError::TypeMismatch));
    let mut consumer = ControlRxConsumer::new(&mut pool);
    assert!(!consumer.accept(1, 200_000, completion, other_index, &[1, 2, 3, 4]));
    assert_eq!(consumer.rejected(), 0);
    assert!(!consumer.accept(1, 200_000, completion, other_command, &[1, 2, 3, 4]));
    assert_eq!(consumer.rejected(), 1);
    assert_eq!(pool.get(handle).unwrap().state, RequestState::InFlight);
    assert_eq!(pool.get(handle).unwrap().payload(), &[0; 4]);
    let expected = DatagramHeader::new(Command::Fprd, 15, 0x5000, 4);
    assert!(pool.complete_match(completion, expected, &[1, 2, 3, 4]).is_ok());
    assert_eq!(pool.get(handle).unwrap().state, RequestState::Complete);
    let mut consumer = ControlRxConsumer::new(&mut pool);
    assert!(!consumer.accept(2, 210_000, completion, expected, &[9, 9, 9, 9]));
    assert_eq!(consumer.rejected(), 0);
    assert_eq!(pool.get(handle).unwrap().state, RequestState::Complete);
    assert_eq!(pool.get(handle).unwrap().payload(), &[1, 2, 3, 4]);
}

#[test]
fn expiry_is_bounded_once_and_preserves_terminal_requests_and_payloads() {
    let mut pool = ControlRequestPool::<64>::new();
    let prepared = pool.acquire(1, 7, 0x1000, RegisterOperation::Read, &[0; 2], 10).unwrap();
    let overdue = pool.acquire(2, 7, 0x1001, RegisterOperation::Read, &[0; 2], 10).unwrap();
    let on_boundary = pool.acquire(3, 7, 0x1002, RegisterOperation::Read, &[0; 2], 11).unwrap();
    let completed = pool.acquire(4, 7, 0x1003, RegisterOperation::Read, &[0; 2], 10).unwrap();
    let mut frame = [0; MAX_ETHERNET_FRAME_LEN];
    for handle in [overdue, on_boundary, completed] {
        pool.build_into_buffer(handle, &mut frame, [0; 6], [0; 6]).unwrap();
    }
    pool.complete(completed, 7, 0x1003, &[8, 9], 1).unwrap();

    assert!(pool.expire_in_flight(10).is_empty());
    let expired = pool.expire_in_flight(11);
    assert_eq!(expired.count(), 1);
    assert_eq!(expired.handles(), vec![overdue]);
    assert!(expired.contains(overdue));
    assert!(!expired.contains(on_boundary));
    assert_eq!(pool.get(prepared).unwrap().state, RequestState::Prepared);
    assert_eq!(pool.get(overdue).unwrap().state, RequestState::Failed);
    assert_eq!(pool.get(overdue).unwrap().last_error(), Some(ControlError::Timeout));
    assert_eq!(pool.get(overdue).unwrap().payload(), &[0, 0]);
    assert_eq!(pool.get(completed).unwrap().payload(), &[8, 9]);
    assert!(pool.expire_in_flight(11).is_empty());
    assert_eq!(pool.expire_in_flight(12).handles().first().copied(), Some(on_boundary));
    assert!(pool.expire_in_flight(20).is_empty());
    assert_eq!(pool.in_use(), 4);

    let completion = RxMatch { slot_id: overdue.index() as u16, generation: 7, working_counter: 1 };
    let header = DatagramHeader::new(Command::Fprd, 2, 0x1001, 2);
    let mut consumer = ControlRxConsumer::new(&mut pool);
    assert!(!consumer.accept(2, 20, completion, header, &[1, 2]));
    assert_eq!(consumer.rejected(), 0);
    assert_eq!(pool.complete_match(completion, header, &[1, 2]), Err(ControlError::InvalidState));
    assert_eq!(pool.get(overdue).unwrap().last_error(), Some(ControlError::Timeout));
    assert_eq!(pool.get(overdue).unwrap().payload(), &[0, 0]);
    assert_eq!(pool.complete(completed, 7, 0x1003, &[1, 2], 1), Err(ControlError::InvalidState));
    assert_eq!(pool.get(completed).unwrap().payload(), &[8, 9]);
}

#[test]
fn expiry_reports_last_pool_slot_without_allocating() {
    let mut pool = ControlRequestPool::<64>::new();
    let mut last = None;
    for index in 0..64 {
        last = Some(pool.acquire(index, 1, 0x1000, RegisterOperation::Read, &[], 1).unwrap());
    }
    let last = last.unwrap();
    pool.build_into_buffer(last, &mut [0; MAX_ETHERNET_FRAME_LEN], [0; 6], [0; 6]).unwrap();
    assert_eq!(last.index(), 63);
    assert_eq!(pool.expire_in_flight(2).handles().first().copied(), Some(last));
}

#[test]
fn request_pool_rejects_invalid_acquires_and_handles() {
    let mut empty = ControlRequestPool::<0>::new();
    assert_eq!(empty.acquire(1, 1, 0, RegisterOperation::Read, &[], 1), Err(ControlError::TooManyRequests));
    let mut pool = ControlRequestPool::<1>::new();
    assert_eq!(pool.acquire(1, 1, 0, RegisterOperation::Write, &[0; 129], 1), Err(ControlError::PayloadTooLarge));
    assert_eq!(
        pool.acquire_with_response_len(1, 1, 0, RegisterOperation::Read, &[], 129, 1),
        Err(ControlError::ResponseTooLarge)
    );
    let handle = pool.acquire(1, 1, 0, RegisterOperation::Read, &[], 1).unwrap();
    assert_eq!(pool.acquire(2, 1, 0, RegisterOperation::Read, &[], 1), Err(ControlError::SlotBusy));
    let stray = RequestHandle::from_index(5).unwrap();
    assert!(RequestHandle::from_index(64).is_none());
    assert_eq!(pool.release(stray), Err(ControlError::InvalidHandle));
    assert_eq!(pool.expectation(stray), Err(ControlError::InvalidHandle));
    let mut frame = [0u8; 59];
    assert_eq!(
        pool.build_into_buffer(handle, &mut frame, [0; 6], [0; 6]),
        Err(ControlError::Wire(lib::wire::WireError::BufferTooSmall))
    );
    assert_eq!(pool.complete(handle, 1, 0, &[], 1), Err(ControlError::InvalidState));
    assert_eq!(pool.get(handle).unwrap().state, RequestState::Failed);
}

#[test]
fn an_oversized_pool_acquires_nothing_and_expires_nothing() {
    let mut pool = ControlRequestPool::<65>::new();
    assert_eq!(
        pool.acquire(1, 1, 0x20, RegisterOperation::Read, &[0; 2], 10),
        Err(ControlError::TooManyRequests)
    );
    let expiry = pool.expire_in_flight(1_000);
    assert!(expiry.is_empty());
    assert_eq!(expiry.count(), 0);
}
