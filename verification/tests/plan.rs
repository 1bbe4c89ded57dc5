use lib::plan::{DatagramPlan, FramePlan, FramePlanSet, FramePlanSetError, PlanError};
use lib::wire::{Command, FrameView, MAX_ETHERNET_FRAME_LEN};

#[test]
fn plan_builds_fixed_datagrams_from_process_image() {
    let mut plan = FramePlan::<2>::new();
    plan.push(DatagramPlan { command: Command::Lrw, index: 1, address: 0x1000, payload_offset: 2, payload_len: 3, expected_wkc: 1 }).unwrap();
    plan.push(DatagramPlan { command: Command::Fprd, index: 2, address: 0x2000, payload_offset: 0, payload_len: 2, expected_wkc: 1 }).unwrap();

    let mut frame = [0u8; MAX_ETHERNET_FRAME_LEN];
    let process_image = [0xA0, 0xA1, 0xA2, 0xA3, 0xA4];
    let length = plan.build(&mut frame, [0xFF; 6], [1, 2, 3, 4, 5, 6], &process_image).unwrap();
    let view = FrameView::parse(&frame[..length]).unwrap();
    let datagrams = view.datagrams();
    let first = datagrams[0].unwrap();
    let second = datagrams[1].unwrap();
    assert_eq!(first.payload, &[0xA2, 0xA3, 0xA4]);
    assert_eq!(second.payload, &[0xA0, 0xA1]);
}

#[test]
fn plan_rejects_process_image_overrun() {
    let mut plan = FramePlan::<1>::new();
    plan.push(DatagramPlan { command: Command::Lwr, index: 1, address: 0, payload_offset: 4, payload_len: 2, expected_wkc: 0 }).unwrap();
    let mut frame = [0u8; MAX_ETHERNET_FRAME_LEN];
    assert_eq!(plan.build(&mut frame, [0; 6], [0; 6], &[0; 5]), Err(PlanError::ProcessImageOutOfBounds));
}

#[test]
fn plan_rejects_duplicate_indices() {
    let mut plan = FramePlan::<2>::new();
    let datagram = DatagramPlan { command: Command::Lrw, index: 5, address: 0, payload_offset: 0, payload_len: 1, expected_wkc: 1 };
    plan.push(datagram).unwrap();
    assert_eq!(plan.push(datagram), Err(PlanError::DuplicateIndex));
}

fn datagram(index: u8, payload_len: usize) -> DatagramPlan {
    DatagramPlan { command: Command::Lrw, index, address: 0, payload_offset: 0, payload_len, expected_wkc: 1 }
}

#[test]
fn plan_set_splits_when_frame_datagram_capacity_is_reached() {
    let mut plans = FramePlanSet::<2, 1>::new();
    plans.append_datagrams(&[datagram(1, 1), datagram(2, 1)]).unwrap();
    assert_eq!(plans.frame_count(), 2);
    assert_eq!(plans.datagram_count(), 2);
    assert_eq!(plans.plan(0).unwrap().datagrams()[0].index, 1);
    assert_eq!(plans.plan(1).unwrap().datagrams()[0].index, 2);
}

#[test]
fn plan_set_splits_when_encoded_frame_exceeds_mtu() {
    let mut plans = FramePlanSet::<2, 4>::new();
    plans.append_datagrams(&[datagram(1, 750), datagram(2, 750)]).unwrap();
    assert_eq!(plans.frame_count(), 2);
    assert_eq!(plans.plan(0).unwrap().len(), 1);
    assert_eq!(plans.plan(1).unwrap().len(), 1);
}

#[test]
fn plan_set_failure_does_not_publish_partial_frames() {
    let mut plans = FramePlanSet::<1, 1>::new();
    let initial = plans.clone();
    assert_eq!(plans.append_datagrams(&[datagram(1, 1), datagram(2, 1)]), Err(FramePlanSetError::CapacityExceeded));
    assert_eq!(plans, initial);
}

#[test]
fn plan_set_rejects_duplicate_indices_across_frames() {
    let mut plans = FramePlanSet::<2, 1>::new();
    plans.push(datagram(1, 1)).unwrap();
    plans.push(datagram(2, 1)).unwrap();
    let initial = plans.clone();
    assert_eq!(plans.push(datagram(1, 1)), Err(FramePlanSetError::DuplicateIndex));
    assert_eq!(plans, initial);
}

#[test]
fn plan_limits_frame_size_and_pads_short_frames() {
    let mut plan = FramePlan::<4>::new();
    assert_eq!(plan.push(datagram(1, 0x0800)), Err(PlanError::DatagramLengthOutOfBounds));
    plan.push(datagram(1, 1400)).unwrap();
    assert_eq!(plan.push(datagram(2, 100)), Err(PlanError::FrameTooLarge));
    let mut small = FramePlan::<1>::new();
    small.push(datagram(3, 2)).unwrap();
    assert_eq!(small.push(datagram(4, 2)), Err(PlanError::CapacityExceeded));
    assert_eq!(small.payload_len(), 14);
    let mut frame = [0xEEu8; 64];
    let length = small.build(&mut frame, [1; 6], [2; 6], &[7, 8]).unwrap();
    assert_eq!(length, 60);
    assert_eq!(&frame[12..16], &[0x88, 0xA4, 14, 0x10]);
    assert_eq!(&frame[16..30], &[12, 3, 0, 0, 0, 0, 2, 0, 0, 0, 7, 8, 0, 0]);
    assert!(frame[30..60].iter().all(|byte| *byte == 0));
    assert_eq!(&frame[60..64], &[0xEE; 4]);
    let mut tiny = [0u8; 20];
    assert_eq!(small.build(&mut tiny, [0; 6], [0; 6], &[7, 8]), Err(PlanError::BufferTooSmall));
}
