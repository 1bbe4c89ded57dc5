use lib::rx_index::{RxExpectation, RxIndexError, RxIndexTable, RxMatch, RxResponse, RxSlotState};

fn expectation(generation: u16, deadline_ns: u64, address: u32, size: u16, kind: u8, wkc: u16) -> RxExpectation {
    RxExpectation {
        generation,
        deadline_ns,
        expected_address: address,
        expected_size: size,
        expected_type: kind,
        expected_wkc: wkc,
    }
}

#[test]
fn index_lookup_is_generation_and_wkc_checked() {
    let mut table = RxIndexTable::new();
    table.arm(9, 3, expectation(17, 100, 0x1000, 4, 0x0C, 2)).unwrap();
    assert_eq!(
        table.validate_and_complete(
            9,
            RxResponse {
                generation: 16,
                address: 0x1000,
                payload_size: 4,
                command: 0x0C,
                working_counter: 2,
                received_at_ns: 10,
            },
        ),
        Err(RxIndexError::GenerationMismatch)
    );
    assert_eq!(table.entry(9).state, RxSlotState::Rejected);
    table.arm(9, 3, expectation(17, 100, 0x1000, 4, 0x0C, 2)).unwrap();
    assert_eq!(
        table.validate_and_complete(
            9,
            RxResponse {
                generation: 17,
                address: 0x1000,
                payload_size: 4,
                command: 0x0C,
                working_counter: 1,
                received_at_ns: 10,
            },
        ),
        Err(RxIndexError::WorkingCounterMismatch)
    );
    assert_eq!(table.entry(9).state, RxSlotState::Rejected);
    table.arm(9, 3, expectation(17, 100, 0x1000, 4, 0x0C, 2)).unwrap();
    assert_eq!(
        table.validate_and_complete(
            9,
            RxResponse {
                generation: 17,
                address: 0x1000,
                payload_size: 4,
                command: 0x0C,
                working_counter: 2,
                received_at_ns: 10,
            },
        ),
        Ok(RxMatch { slot_id: 3, generation: 17, working_counter: 2 })
    );
    assert_eq!(table.entry(9).state, RxSlotState::Complete);
}

#[test]
fn index_lookup_rejects_wrong_address() {
    let mut table = RxIndexTable::new();
    table.arm(1, 2, expectation(3, 100, 0x2000, 1, 0x0B, 0)).unwrap();
    assert_eq!(
        table.validate_and_complete(
            1,
            RxResponse {
                generation: 3,
                address: 0x2001,
                payload_size: 1,
                command: 0x0B,
                working_counter: 0,
                received_at_ns: 10,
            },
        ),
        Err(RxIndexError::AddressMismatch)
    );
}

#[test]
fn expired_indices_are_reported_and_late_frames_are_rejected() {
    let mut table = RxIndexTable::new();
    table.arm(3, 1, expectation(9, 20, 0x1000, 2, 0x04, 1)).unwrap();
    let expired = table.expire_armed(21);
    assert_eq!(expired.count(), 1);
    assert_eq!(expired.indices(), vec![3]);
    assert_eq!(table.entry(3).state, RxSlotState::Rejected);

    table.arm(4, 1, expectation(9, 20, 0x1000, 2, 0x04, 1)).unwrap();
    assert_eq!(
        table.validate_and_complete(
            4,
            RxResponse {
                generation: 9,
                address: 0x1000,
                payload_size: 2,
                command: 0x04,
                working_counter: 1,
                received_at_ns: 21,
            },
        ),
        Err(RxIndexError::DeadlineExceeded)
    );
}

#[test]
fn cancel_slot_releases_all_owned_expectations() {
    let mut table = RxIndexTable::new();
    let expectation = expectation(1, 100, 0, 0, 0, 0);
    table.arm(1, 9, expectation).unwrap();
    table.arm(2, 9, expectation).unwrap();
    table.arm(3, 10, expectation).unwrap();
    assert_eq!(table.cancel_slot(9), 2);
    assert_eq!(table.entry(1).state, RxSlotState::Empty);
    assert_eq!(table.entry(2).state, RxSlotState::Empty);
    assert_eq!(table.entry(3).state, RxSlotState::Armed);
}

#[test]
fn arm_rejects_double_arm_and_zero_deadline() {
    let mut table = RxIndexTable::new();
    assert_eq!(table.arm(5, 1, expectation(1, 0, 0, 0, 0, 0)), Err(RxIndexError::InvalidDeadline));
    table.arm(5, 1, expectation(1, 10, 0, 0, 0, 0)).unwrap();
    assert_eq!(table.arm(5, 1, expectation(1, 10, 0, 0, 0, 0)), Err(RxIndexError::AlreadyArmed));
}

#[test]
fn completed_entry_refuses_second_response_and_reset_frees_it() {
    let mut table = RxIndexTable::new();
    table.arm(7, 2, expectation(4, 50, 0x10, 2, 4, 1)).unwrap();
    let response = RxResponse { generation: 4, address: 0x10, payload_size: 2, command: 4, working_counter: 1, received_at_ns: 5 };
    assert!(table.validate_and_complete(7, response).is_ok());
    assert_eq!(table.validate_and_complete(7, response), Err(RxIndexError::NotArmed));
    assert_eq!(table.validate_and_complete(8, response), Err(RxIndexError::UnknownIndex));
    table.reset_complete();
    assert_eq!(table.entry(7).state, RxSlotState::Empty);
    assert!(table.expire_armed(1_000).is_empty());
}
