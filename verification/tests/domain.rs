use lib::domain::{Domain, DomainError, DomainSegment};
use lib::wire::{Command, DatagramHeader};

fn header(index: u8) -> DatagramHeader {
    DatagramHeader { command: Command::Lrw, index, address: 0x1000, length: 2, last: true }
}

#[test]
fn domain_commits_only_a_complete_generation() {
    let mut domain = Domain::<4, 2>::new(0x1000);
    domain.add_segment(DomainSegment { datagram_index: 1, input_offset: 0, len: 2, expected_wkc: 1 }).unwrap();
    domain.add_segment(DomainSegment { datagram_index: 2, input_offset: 2, len: 2, expected_wkc: 1 }).unwrap();

    domain.begin_receive(7).unwrap();
    domain.stage_datagram(7, header(1), &[1, 2], 1).unwrap();
    assert!(!domain.finish_receive(7, 10).unwrap());
    assert_eq!(domain.input(), &[0, 0, 0, 0]);
    assert!(!domain.quality().valid);
    assert_eq!(domain.quality().input_age_cycles, 1);

    domain.begin_receive(8).unwrap();
    domain.stage_datagram(8, header(1), &[3, 4], 1).unwrap();
    domain.stage_datagram(8, header(2), &[5, 6], 1).unwrap();
    assert!(domain.finish_receive(8, 11).unwrap());
    assert_eq!(domain.input(), &[3, 4, 5, 6]);
    assert!(domain.quality().valid);
    assert_eq!(domain.quality().last_valid_cycle, 11);
    assert_eq!(domain.quality().input_age_cycles, 0);
}

#[test]
fn domain_rejects_duplicate_segments_and_payloads() {
    let mut domain = Domain::<2, 1>::new(0);
    let segment = DomainSegment { datagram_index: 1, input_offset: 0, len: 2, expected_wkc: 1 };
    domain.add_segment(segment).unwrap();
    assert_eq!(domain.add_segment(segment), Err(DomainError::TooManySegments));
    domain.begin_receive(1).unwrap();
    domain.stage_datagram(1, header(1), &[1, 2], 1).unwrap();
    assert_eq!(domain.stage_datagram(1, header(1), &[1, 2], 1), Err(DomainError::DuplicateDatagram));
    assert!(!domain.finish_receive(1, 1).unwrap());
}

#[test]
fn domain_rejects_wrong_generation_length_and_unknown_index() {
    let mut domain = Domain::<4, 2>::new(0);
    assert_eq!(domain.begin_receive(1), Err(DomainError::EmptyDomain));
    domain.add_segment(DomainSegment { datagram_index: 1, input_offset: 0, len: 2, expected_wkc: 2 }).unwrap();
    assert_eq!(
        domain.add_segment(DomainSegment { datagram_index: 1, input_offset: 2, len: 2, expected_wkc: 1 }),
        Err(DomainError::DuplicateDatagramIndex)
    );
    assert_eq!(
        domain.add_segment(DomainSegment { datagram_index: 2, input_offset: 3, len: 2, expected_wkc: 1 }),
        Err(DomainError::SegmentOutOfBounds)
    );
    assert_eq!(domain.expected_wkc(), 2);
    domain.begin_receive(5).unwrap();
    assert_eq!(domain.stage_datagram(6, header(1), &[1, 2], 2), Err(DomainError::GenerationMismatch));
    assert_eq!(domain.stage_datagram(5, header(9), &[1, 2], 2), Err(DomainError::UnknownDatagramIndex));
    assert_eq!(domain.stage_datagram(5, header(1), &[1], 2), Err(DomainError::PayloadLengthMismatch));
    assert_eq!(domain.finish_receive(6, 1), Err(DomainError::NoActiveReceive));
    assert!(!domain.finish_receive(5, 1).unwrap());
    domain.begin_receive(6).unwrap();
    domain.stage_datagram(6, header(1), &[7, 8], 1).unwrap();
    assert!(!domain.finish_receive(6, 2).unwrap());
    assert_eq!(domain.quality().actual_wkc, 1);
    assert_eq!(domain.input(), &[0, 0, 0, 0]);
    domain.write_output(2, &[9, 9]).unwrap();
    assert_eq!(domain.output(), &[0, 0, 9, 9]);
    assert_eq!(domain.write_output(3, &[1, 1]), Err(DomainError::SegmentOutOfBounds));
}

#[test]
fn output_image_is_written_in_place() {
    let mut domain = Domain::<4, 2>::new(0x1000);
    domain.output_mut()[1] = 0xAB;
    domain.output_mut()[3] = 0x01;
    assert_eq!(domain.output(), &[0, 0xAB, 0, 0x01]);
    assert_eq!(domain.output_mut().len(), 4);
}
