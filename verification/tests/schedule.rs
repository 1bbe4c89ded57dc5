use lib::schedule::{ScheduleDomain, ScheduleError, ScheduleTable};

fn domain(id: u8, period_ticks: u32, phase_ticks: u32) -> ScheduleDomain {
    ScheduleDomain { id, period_ticks, phase_ticks }
}

#[test]
fn schedule_expands_periods_and_phases_into_due_masks() {
    let table = ScheduleTable::<3, 16>::build(250_000, &[domain(0, 1, 0), domain(1, 4, 0), domain(2, 4, 2)]).unwrap();
    assert_eq!(table.base_tick_ns(), 250_000);
    assert_eq!(table.hyperperiod_ticks(), 4);
    assert_eq!(table.due_mask(0), 0b011);
    assert_eq!(table.due_mask(1), 0b001);
    assert_eq!(table.due_mask(2), 0b101);
    assert_eq!(table.due_mask(4), table.due_mask(0));
    assert!(table.slot(6).is_due(2));
}

#[test]
fn schedule_rejects_invalid_activation_inputs() {
    assert!(matches!(ScheduleTable::<1, 4>::build(0, &[domain(0, 1, 0)]), Err(ScheduleError::InvalidBaseTick)));
    assert!(matches!(ScheduleTable::<2, 4>::build(1, &[domain(1, 2, 2)]), Err(ScheduleError::InvalidPhase)));
    assert!(matches!(
        ScheduleTable::<2, 4>::build(1, &[domain(1, 2, 0), domain(1, 4, 0)]),
        Err(ScheduleError::DuplicateDomainId)
    ));
}

#[test]
fn schedule_rejects_hyperperiod_larger_than_static_table() {
    assert!(matches!(
        ScheduleTable::<2, 8>::build(1, &[domain(0, 3, 0), domain(1, 4, 0)]),
        Err(ScheduleError::HyperperiodTooLarge)
    ));
}

#[test]
fn schedule_hyperperiod_is_least_common_multiple_and_rejects_bad_ids() {
    let table = ScheduleTable::<2, 12>::build(1, &[domain(3, 4, 1), domain(5, 6, 0)]).unwrap();
    assert_eq!(table.hyperperiod_ticks(), 12);
    assert_eq!(table.domain_count(), 2);
    assert_eq!(table.domains()[1].id, 5);
    assert!(table.slot(1).is_due(3));
    assert!(!table.slot(1).is_due(5));
    assert!(table.slot(12).is_due(5));
    assert!(!table.slot(0).is_due(64));
    assert!(matches!(ScheduleTable::<1, 4>::build(1, &[domain(64, 1, 0)]), Err(ScheduleError::TooManyDomains)));
    assert!(matches!(ScheduleTable::<1, 4>::build(1, &[domain(1, 0, 0)]), Err(ScheduleError::InvalidPeriod)));
    assert!(matches!(ScheduleTable::<1, 4>::build(1, &[domain(1, 1, 0), domain(2, 1, 0)]), Err(ScheduleError::CapacityExceeded)));
    assert!(matches!(ScheduleTable::<1, 0>::build(1, &[domain(1, 1, 0)]), Err(ScheduleError::HyperperiodTooLarge)));
    assert!(matches!(
        ScheduleTable::<2, 16>::build(1, &[domain(1, 0xFFFF_FFFF, 0), domain(2, 2, 0)]),
        Err(ScheduleError::HyperperiodOverflow)
    ));
}
