use lib::control::{ControlRequestPool, RegisterOperation};
use lib::registers::{auto_increment_address, fixed_address, BASIC_ESC_INFO_LEN, ESC_AL_STATUS, ESC_TYPE};
use lib::scan::{ScanController, ScanError, ScanPhase, ScanProgress};
use lib::slave::EthercatState;

fn basic_info() -> [u8; 9] {
    [0x88, 0x02, 3, 4, 5, 6, 0x00, 0x20, 0x01]
}

#[test]
fn scan_progresses_through_probe_basic_address_and_al_status() {
    let mut scan = ScanController::<2>::new(0x1000);
    scan.start(7, 0, 1_000, 100).unwrap();

    let probe = scan.next_action(1).unwrap().unwrap();
    assert_eq!(probe.operation, RegisterOperation::AutoIncrementRead);
    assert_eq!(probe.address, auto_increment_address(0, ESC_TYPE));
    scan.accept(probe.token, 7, &[0x88, 0x02], 1, 2).unwrap();

    let basic = scan.next_action(3).unwrap().unwrap();
    assert_eq!(basic.read_len, BASIC_ESC_INFO_LEN);
    scan.accept(basic.token, 7, &basic_info(), 1, 4).unwrap();

    let assign = scan.next_action(5).unwrap().unwrap();
    assert_eq!(assign.operation, RegisterOperation::AutoIncrementWrite);
    assert_eq!(assign.payload(), &[0x00, 0x10]);
    scan.accept(assign.token, 7, &[], 1, 6).unwrap();

    let status = scan.next_action(7).unwrap().unwrap();
    assert_eq!(status.address, fixed_address(0x1000, ESC_AL_STATUS));
    scan.accept(status.token, 7, &[0x04, 0x00, 0, 0, 0, 0], 1, 8).unwrap();

    let next_probe = scan.next_action(9).unwrap().unwrap();
    assert_eq!(next_probe.position, 1);
    scan.timeout(next_probe.token, next_probe.deadline_ns).unwrap();
    assert_eq!(scan.phase(), ScanPhase::Complete);
    assert_eq!(scan.len(), 1);
    assert_eq!(scan.records()[0].al_status.state, EthercatState::SafeOp);
}

#[test]
fn zero_wkc_probe_finishes_without_creating_a_record() {
    let mut scan = ScanController::<4>::new(0x1000);
    scan.start(2, 0, 1_000, 100).unwrap();
    let action = scan.next_action(1).unwrap().unwrap();
    assert_eq!(scan.accept(action.token, 2, &[], 0, 2).unwrap(), ScanProgress::Complete);
    assert!(scan.is_empty());
    assert_eq!(scan.phase(), ScanPhase::Complete);
}

#[test]
fn non_probe_timeout_faults_and_cannot_auto_complete() {
    let mut scan = ScanController::<1>::new(0x1000);
    scan.start(1, 0, 1_000, 10).unwrap();
    let probe = scan.next_action(1).unwrap().unwrap();
    scan.accept(probe.token, 1, &[1, 0], 1, 2).unwrap();
    let basic = scan.next_action(3).unwrap().unwrap();
    assert_eq!(scan.timeout(basic.token, basic.deadline_ns), Err(ScanError::Timeout));
    assert_eq!(scan.phase(), ScanPhase::Faulted);
    assert_eq!(scan.last_error(), Some(ScanError::Timeout));
}

#[test]
fn scan_records_basic_info_and_stops_at_capacity() {
    let mut scan = ScanController::<1>::new(0x2000);
    assert_eq!(scan.next_action(0), Err(ScanError::NotStarted));
    scan.start(3, 0, 1_000, 100).unwrap();
    assert_eq!(scan.start(3, 0, 1_000, 100), Err(ScanError::Busy));
    let probe = scan.next_action(1).unwrap().unwrap();
    assert_eq!(scan.next_action(1).unwrap().unwrap(), probe);
    assert_eq!(scan.accept(probe.token.wrapping_add(1), 3, &[1, 0], 1, 2), Err(ScanError::TokenMismatch));
    assert_eq!(scan.accept(probe.token, 3, &[1, 0], 1, 2), Ok(ScanProgress::Advanced));
    let basic = scan.next_action(3).unwrap().unwrap();
    scan.accept(basic.token, 3, &basic_info(), 1, 4).unwrap();
    let assign = scan.next_action(5).unwrap().unwrap();
    let mut pool = ControlRequestPool::<2>::new();
    let handle = scan.enqueue_pending(&mut pool).unwrap();
    assert_eq!(pool.get(handle).unwrap().payload(), &[0x00, 0x20]);
    scan.accept(assign.token, 3, &[], 1, 6).unwrap();
    let status = scan.next_action(7).unwrap().unwrap();
    assert_eq!(scan.accept(status.token, 3, &[0x02, 0x00, 0, 0, 0, 0], 1, 8), Ok(ScanProgress::DeviceDiscovered(0)));
    let record = scan.records()[0];
    assert_eq!(record.station_address, 0x2000);
    assert_eq!(record.esc_type, 1);
    assert_eq!(record.revision, 3);
    assert_eq!(record.ram_size, 0x2000);
    assert_eq!(record.port_descriptor, 1);
    assert_eq!(scan.next_action(9), Ok(None));
    assert_eq!(scan.phase(), ScanPhase::Complete);
}

#[test]
fn wrong_counter_and_payload_length_fault_the_scan() {
    let mut scan = ScanController::<2>::new(0x1000);
    scan.start(1, 0, 1_000, 100).unwrap();
    let probe = scan.next_action(1).unwrap().unwrap();
    assert_eq!(scan.accept(probe.token, 1, &[1], 1, 2), Err(ScanError::PayloadLengthMismatch));
    assert_eq!(scan.phase(), ScanPhase::Faulted);
    scan.start(2, 0, 1_000, 100).unwrap();
    let probe = scan.next_action(1).unwrap().unwrap();
    assert_eq!(scan.accept(probe.token, 2, &[1, 0], 2, 2), Err(ScanError::UnexpectedWorkingCounter));
    scan.start(3, 0, 10, 100).unwrap();
    assert_eq!(scan.next_action(10), Err(ScanError::Timeout));
}
