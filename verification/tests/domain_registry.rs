use lib::domain::DomainSegment;
use lib::domain_registry::{
    DomainConfig, DomainDatagramSpec, DomainRegistry, DomainRegistryError, DomainRegistryPhase, PdoRegistrationRequest,
};
use lib::pdo::PdoDirection;
use lib::plan::{FramePlan, FramePlanSet, PlanError};
use lib::schedule::ScheduleError;
use lib::wire::Command;

fn config(id: u8, logical_address: u32, image_offset: usize, image_len: usize, period_ticks: u32, phase_ticks: u32) -> DomainConfig {
    DomainConfig::new(id, logical_address, image_offset, image_len, period_ticks, phase_ticks)
}

fn pdo(slave_position: u16, index: u16, direction: PdoDirection, bits: u8) -> PdoRegistrationRequest {
    PdoRegistrationRequest::new(slave_position, index, 0, direction, bits, false)
}

fn empty_segment() -> DomainSegment {
    DomainSegment { datagram_index: 0, input_offset: 0, len: 0, expected_wkc: 0 }
}

#[test]
fn registration_assigns_offsets_and_absolute_datagram_image_ranges() {
    let mut registry = DomainRegistry::<2, 4, 4>::new();
    registry.register_domain(config(0, 0x1000, 8, 8, 1, 0)).unwrap();
    let first = registry.register_pdo(0, pdo(1, 0x6040, PdoDirection::Rx, 12)).unwrap();
    let second = registry.register_pdo(0, pdo(1, 0x607A, PdoDirection::Rx, 4)).unwrap();
    assert_eq!(registry.pdo(first).unwrap().entry.bit_offset, 0);
    assert_eq!(registry.pdo(second).unwrap().entry.bit_offset, 12);

    let input = registry.register_datagram(0, DomainDatagramSpec::input(Command::Lrw, 7, 0x1000, 0, 4, 1)).unwrap();
    let output = registry.register_datagram(0, DomainDatagramSpec::output(Command::Lwr, 8, 0x1004, 4, 2, 1)).unwrap();
    assert_eq!(input.plan.payload_offset, 8);
    assert_eq!(output.plan.payload_offset, 12);
    let info = registry.domain(0).unwrap();
    assert_eq!(info.pdo_count, 2);
    assert_eq!(info.datagram_count, 2);
    assert_eq!(info.expected_wkc, 2);
    assert_eq!(info.input_expected_wkc, 1);
    assert_eq!(info.process_image_end, 16);
}

#[test]
fn input_segments_and_frame_plan_are_built_without_partial_updates() {
    let mut registry = DomainRegistry::<1, 2, 2>::new();
    registry.register_domain(config(0, 0x1000, 4, 4, 1, 0)).unwrap();
    registry.register_datagram(0, DomainDatagramSpec::input(Command::Lrd, 3, 0x1000, 1, 2, 1)).unwrap();
    registry.register_datagram(0, DomainDatagramSpec::output(Command::Lwr, 4, 0x1002, 0, 1, 1)).unwrap();

    let mut segments = [empty_segment(); 1];
    assert_eq!(registry.copy_domain_segments(0, &mut segments), Ok(1));
    assert_eq!(segments[0], DomainSegment { datagram_index: 3, input_offset: 1, len: 2, expected_wkc: 1 });

    let mut plan = FramePlan::<1>::new();
    assert_eq!(registry.append_frame_plan(0, &mut plan), Err(DomainRegistryError::Plan(PlanError::CapacityExceeded)));
    assert!(plan.is_empty());
}

#[test]
fn activation_builds_multi_rate_schedule_and_locks_registration() {
    let mut registry = DomainRegistry::<2, 1, 1>::new();
    registry.register_domain(config(0, 0x1000, 0, 2, 1, 0)).unwrap();
    registry.register_domain(config(1, 0x2000, 2, 2, 4, 2)).unwrap();
    registry.register_datagram(0, DomainDatagramSpec::output(Command::Lwr, 1, 0x1000, 0, 1, 1)).unwrap();
    registry.register_datagram(1, DomainDatagramSpec::input(Command::Lrd, 2, 0x2000, 0, 1, 1)).unwrap();

    let schedule = registry.activate::<8>(250_000).unwrap();
    assert!(registry.is_active());
    assert_eq!(schedule.hyperperiod_ticks(), 4);
    assert_eq!(schedule.due_mask(0), 0b01);
    assert_eq!(schedule.due_mask(2), 0b11);
    assert_eq!(registry.register_pdo(0, pdo(1, 0x6041, PdoDirection::Tx, 16)), Err(DomainRegistryError::ConfigurationLocked));
}

#[test]
fn invalid_layouts_and_incomplete_activation_fail_closed() {
    let mut registry = DomainRegistry::<2, 2, 1>::new();
    registry.register_domain(config(0, 0x1000, 0, 4, 1, 0)).unwrap();
    assert_eq!(registry.register_domain(config(0, 0x2000, 4, 4, 1, 0)), Err(DomainRegistryError::DuplicateDomainId));
    assert_eq!(registry.register_domain(config(1, 0x2000, 2, 4, 1, 0)), Err(DomainRegistryError::ProcessImageOverlap));
    assert_eq!(registry.register_domain(config(1, 0x1002, 4, 4, 1, 0)), Err(DomainRegistryError::LogicalAddressOverlap));

    let first = registry.register_pdo(0, pdo(1, 0x6040, PdoDirection::Rx, 16)).unwrap();
    assert_eq!(registry.register_pdo(0, pdo(1, 0x6040, PdoDirection::Rx, 16)), Err(DomainRegistryError::DuplicatePdo));
    assert_eq!(registry.register_pdo_at(0, 8, pdo(1, 0x607A, PdoDirection::Rx, 16)), Err(DomainRegistryError::PdoBitOverlap));
    assert_eq!(registry.pdo(first).unwrap().entry.bit_offset, 0);
    assert!(matches!(registry.activate::<4>(1), Err(DomainRegistryError::EmptyDomain)));
}

#[test]
fn datagram_and_pdo_validation_is_atomic() {
    let mut registry = DomainRegistry::<2, 2, 2>::new();
    registry.register_domain(config(0, 0x1000, 0, 2, 1, 0)).unwrap();
    assert_eq!(registry.register_pdo(0, pdo(1, 0x6040, PdoDirection::Rx, 0)), Err(DomainRegistryError::InvalidBitLength));
    assert_eq!(registry.register_pdo_at(0, 9, pdo(1, 0x607A, PdoDirection::Rx, 8)), Err(DomainRegistryError::PdoImageOverflow));
    registry.register_datagram(0, DomainDatagramSpec::output(Command::Lwr, 4, 0x1000, 0, 1, 1)).unwrap();
    assert_eq!(
        registry.register_datagram(0, DomainDatagramSpec::input(Command::Lrd, 4, 0x1000, 1, 1, 1)),
        Err(DomainRegistryError::DuplicateDatagramIndex)
    );
    assert_eq!(
        registry.register_datagram(0, DomainDatagramSpec::input(Command::Lrd, 5, 0x1000, 2, 1, 1)),
        Err(DomainRegistryError::DatagramImageOverflow)
    );
    assert_eq!(registry.domain(0).unwrap().datagram_count, 1);
}

#[test]
fn schedule_failure_does_not_lock_registry() {
    let mut registry = DomainRegistry::<1, 1, 1>::new();
    registry.register_domain(config(0, 0x1000, 0, 1, 3, 0)).unwrap();
    registry.register_datagram(0, DomainDatagramSpec::output(Command::Lwr, 1, 0x1000, 0, 1, 1)).unwrap();
    assert!(matches!(registry.activate::<2>(1), Err(DomainRegistryError::Schedule(ScheduleError::HyperperiodTooLarge))));
    assert_eq!(registry.phase(), DomainRegistryPhase::Configuring);
    registry.register_pdo(0, pdo(1, 0x6040, PdoDirection::Rx, 8)).unwrap();
}

#[test]
fn reset_invalidates_handles_from_the_previous_configuration_generation() {
    let mut registry = DomainRegistry::<1, 1, 1>::new();
    registry.register_domain(config(0, 0x1000, 0, 1, 1, 0)).unwrap();
    let old = registry.register_pdo(0, pdo(1, 0x6040, PdoDirection::Rx, 8)).unwrap();
    let old_generation = registry.generation();
    registry.reset().unwrap();
    assert_ne!(registry.generation(), old_generation);
    assert_eq!(registry.pdo(old), Err(DomainRegistryError::StalePdoHandle));

    registry.register_domain(config(0, 0x2000, 0, 1, 1, 0)).unwrap();
    let new = registry.register_pdo(0, pdo(1, 0x607A, PdoDirection::Rx, 8)).unwrap();
    assert_ne!(old.generation(), new.generation());
    assert_eq!(registry.pdo(new).unwrap().entry.index, 0x607A);
}

#[test]
fn activation_publishes_one_plan_set_per_domain() {
    let mut registry = DomainRegistry::<2, 1, 2>::new();
    registry.register_domain(config(0, 0x1000, 0, 4, 1, 0)).unwrap();
    registry.register_domain(config(1, 0x2000, 4, 4, 2, 1)).unwrap();
    registry.register_datagram(0, DomainDatagramSpec::output(Command::Lwr, 1, 0x1000, 0, 2, 1)).unwrap();
    registry.register_datagram(1, DomainDatagramSpec::input(Command::Lrd, 2, 0x2000, 0, 2, 1)).unwrap();
    let mut destination = vec![FramePlanSet::<1, 2>::new(), FramePlanSet::<1, 2>::new()];
    assert_eq!(registry.activate_with_frame_plans::<4, 1, 2>(100, &mut destination[..1]).err(),
        Some(DomainRegistryError::ActivationPlanCapacity));
    let schedule = registry.activate_with_frame_plans::<4, 1, 2>(100, &mut destination).unwrap();
    assert_eq!(schedule.hyperperiod_ticks(), 2);
    assert_eq!(destination[0].plan(0).unwrap().datagrams()[0].index, 1);
    assert_eq!(destination[1].plan(0).unwrap().datagrams()[0].payload_offset, 4);
    assert!(registry.is_active());
    assert_eq!(registry.reset(), Err(DomainRegistryError::ConfigurationLocked));
    assert_eq!(registry.domain_configs().len(), 2);
}

#[test]
fn unknown_domains_and_capacity_are_reported() {
    let mut registry = DomainRegistry::<1, 1, 1>::new();
    assert_eq!(registry.domain(3), Err(DomainRegistryError::UnknownDomain));
    assert!(matches!(registry.activate::<2>(1), Err(DomainRegistryError::NoDomains)));
    assert_eq!(registry.register_domain(config(64, 0, 0, 1, 1, 0)), Err(DomainRegistryError::DomainIdOutOfRange));
    assert_eq!(registry.register_domain(config(1, 0, 0, 0, 1, 0)), Err(DomainRegistryError::EmptyProcessImage));
    assert_eq!(registry.register_domain(config(1, 0, 0, 1, 0, 0)), Err(DomainRegistryError::InvalidPeriod));
    assert_eq!(registry.register_domain(config(1, 0, 0, 1, 2, 2)), Err(DomainRegistryError::InvalidPhase));
    assert_eq!(registry.register_domain(config(1, u32::MAX, 0, 2, 1, 0)), Err(DomainRegistryError::LogicalAddressOverflow));
    registry.register_domain(config(1, 0, 0, 1, 1, 0)).unwrap();
    assert_eq!(registry.register_domain(config(2, 8, 8, 1, 1, 0)), Err(DomainRegistryError::CapacityExceeded));
    registry.register_pdo(1, pdo(1, 0x6000, PdoDirection::Tx, 8)).unwrap();
    assert_eq!(registry.register_pdo(1, pdo(1, 0x6001, PdoDirection::Tx, 8)), Err(DomainRegistryError::PdoCapacityExceeded));
    assert_eq!(registry.pdos(1).unwrap().len(), 1);
    registry.register_datagram(1, DomainDatagramSpec::input(Command::Lrd, 1, 0, 0, 1, u16::MAX)).unwrap();
    assert_eq!(
        registry.register_datagram(1, DomainDatagramSpec::input(Command::Lrd, 2, 0, 0, 1, 1)),
        Err(DomainRegistryError::DatagramCapacityExceeded)
    );
    assert_eq!(registry.datagrams(1).unwrap().len(), 1);
}
