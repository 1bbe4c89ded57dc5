use lib::coe::CoeEmergency;
use lib::diag::{CoeEmergencyEvent, CoeEmergencyQueue, Diagnostics, EventCode, EventRecord, EventSeverity};
use lib::ring::{RingError, SpscRing};
use std::sync::atomic::{AtomicUsize, Ordering};

#[test]
fn fixed_event_queue_preserves_events_and_counts_overflow() {
    let mut diagnostics = Diagnostics::<2>::new();
    assert!(diagnostics.record(EventRecord::new(1, 10, EventCode::WorkingCounterMismatch, EventSeverity::Error, 7, 2, 1)));
    assert!(diagnostics.record(EventRecord::new(1, 11, EventCode::RxUnmatched, EventSeverity::Warning, 8, 0, 0)));
    assert!(!diagnostics.record(EventRecord::new(1, 12, EventCode::FrameCorrupt, EventSeverity::Fault, 0, 0, 0)));
    assert_eq!(diagnostics.pending(), 2);
    assert_eq!(diagnostics.lost_events(), 1);
    assert_eq!(diagnostics.pop().unwrap().code, EventCode::WorkingCounterMismatch);
    assert_eq!(diagnostics.pop().unwrap().code, EventCode::RxUnmatched);
    assert!(diagnostics.pop().is_none());
}

#[test]
fn emergency_queue_is_fixed_and_non_blocking_when_full() {
    let mut queue = CoeEmergencyQueue::<1>::new();
    let event = CoeEmergencyEvent::new(
        10,
        7,
        9,
        3,
        CoeEmergency { error_code: 0x2310, error_register: 0x81, manufacturer_data: [1, 2, 3, 4, 5] },
    );
    assert!(queue.record(event));
    assert!(!queue.record(event));
    assert_eq!(queue.lost_events(), 1);
    assert_eq!(queue.pop(), Some(event));
    assert!(queue.pop().is_none());
}

#[test]
fn event_codes_match_the_binary_record_format() {
    assert_eq!(EventCode::LinkDown.code(), 1);
    assert_eq!(EventCode::RxTimeout.code(), 7);
    assert_eq!(EventSeverity::Info.code(), 1);
    assert_eq!(EventSeverity::Fault.code(), 4);
    let record = EventRecord::new(3, 4, EventCode::ConsumerRejected, EventSeverity::Error, 5, 6, 7);
    assert_eq!(record.reserved, 0);
    assert_eq!(record.aux, 7);
}

#[test]
fn ring_handles_empty_full_and_reuse_without_allocations() {
    let mut ring = SpscRing::<u32, 2>::new();
    assert!(ring.pop().is_none());
    assert_eq!(ring.push(10), Ok(()));
    assert_eq!(ring.push(20), Ok(()));
    assert_eq!(ring.push(30), Err(30));
    assert!(ring.is_full());
    assert_eq!(ring.pop(), Some(10));
    assert_eq!(ring.push(30), Ok(()));
    assert_eq!(ring.pop(), Some(20));
    assert_eq!(ring.pop(), Some(30));
    assert!(ring.pop().is_none());
    assert!(ring.is_empty());
}

#[test]
fn ring_drops_unconsumed_values() {
    struct DropCounter<'a>(&'a AtomicUsize);
    impl Drop for DropCounter<'_> {
        fn drop(&mut self) {
            self.0.fetch_add(1, Ordering::Relaxed);
        }
    }
    let drops = AtomicUsize::new(0);
    {
        let mut ring = SpscRing::<DropCounter<'_>, 2>::new();
        assert!(ring.push(DropCounter(&drops)).is_ok());
    }
    assert_eq!(drops.load(Ordering::Relaxed), 1);
}

#[test]
fn invalid_capacity_is_rejected() {
    assert!(matches!(SpscRing::<u8, 3>::try_new(), Err(RingError::CapacityMustBePowerOfTwo)));
    assert!(matches!(SpscRing::<u8, 0>::try_new(), Err(RingError::CapacityMustBePowerOfTwo)));
    let ring = SpscRing::<u8, 4>::try_new().unwrap();
    assert_eq!(ring.capacity(), 4);
    assert_eq!(ring.len(), 0);
}

#[test]
fn ring_preserves_order_across_wraparound() {
    let mut ring = SpscRing::<usize, 4>::new();
    let mut expected = 0usize;
    for value in 0..100usize {
        ring.push(value).unwrap();
        if ring.len() == 3 {
            assert_eq!(ring.pop(), Some(expected));
            expected += 1;
        }
    }
    while let Some(value) = ring.pop() {
        assert_eq!(value, expected);
        expected += 1;
    }
    assert_eq!(expected, 100);
}
