use lib::domain_registry::{
    DomainConfig, DomainRegistry, DomainRegistryError, SiiConfigurationError, SiiProjection, SiiSegment,
    SiiSegmentDatagramSpec,
};
use lib::mapping::{FmmuConfig, MappingSummary};
use lib::pdo::{PdoDirection, PdoEntry};
use lib::wire::Command;

fn entry(index: u16, direction: PdoDirection, bit_offset: usize, bit_length: u8) -> PdoEntry {
    PdoEntry { index, subindex: 0, bit_offset, bit_length, signed: false, direction }
}

fn fmmu(index: u8, logical_start: u32, length: u16) -> FmmuConfig {
    FmmuConfig {
        index,
        logical_start,
        length,
        logical_start_bit: 0,
        logical_end_bit: 7,
        physical_start: 0x1100,
        physical_start_bit: 0,
        fmmu_type: 1,
        enable: true,
    }
}

fn segment(direction: PdoDirection, logical_bit_offset: usize, bit_length: usize) -> SiiSegment {
    SiiSegment { direction, logical_bit_offset, physical_bit_offset: 0, domain_bit_offset: logical_bit_offset, bit_length }
}

fn projection() -> SiiProjection {
    SiiProjection {
        logical_base: 0x1000,
        process_image_len: 6,
        mapping: MappingSummary { sync_manager_count: 2, fmmu_count: 2, logical_end: 0x1006 },
        fmmus: vec![fmmu(0, 0x1000, 4), fmmu(1, 0x1004, 2)],
        rx: vec![entry(0x6040, PdoDirection::Rx, 0, 16), entry(0x607A, PdoDirection::Rx, 16, 16)],
        tx: vec![entry(0x6041, PdoDirection::Tx, 32, 16)],
        rx_segments: vec![segment(PdoDirection::Rx, 0, 32)],
        tx_segments: vec![segment(PdoDirection::Tx, 32, 16)],
    }
}

fn config(logical_address: u32, image_len: usize) -> DomainConfig {
    DomainConfig::new(3, logical_address, 0, image_len, 1, 0)
}

#[test]
fn sii_projection_registers_its_domain_and_every_pdo() {
    let mut registry = DomainRegistry::<2, 4, 4>::new();
    let registration = registry.register_sii_projection(config(0x1000, 8), 5, &projection()).unwrap();
    assert_eq!(registration.rx_pdo_count, 2);
    assert_eq!(registration.tx_pdo_count, 1);
    assert_eq!(registration.segment_count, 2);
    assert_eq!(registration.process_image_len, 6);
    assert_eq!(registration.domain.pdo_count, 3);
    assert_eq!(registration.domain.allocated_bits, 48);
    assert_eq!(registration.mapping.fmmu_count, 2);
    assert_eq!(registry.domain(3).unwrap(), registration.domain);
}

#[test]
fn sii_projection_refusals_leave_the_registry_unchanged() {
    let mut registry = DomainRegistry::<2, 4, 4>::new();
    assert_eq!(
        registry.register_sii_projection(config(0x2000, 8), 5, &projection()),
        Err(DomainRegistryError::SiiLogicalAddressMismatch)
    );
    assert_eq!(
        registry.register_sii_projection(config(0x1000, 4), 5, &projection()),
        Err(DomainRegistryError::SiiProcessImageTooSmall)
    );
    let mut overlapping = projection();
    overlapping.tx = vec![entry(0x6041, PdoDirection::Tx, 8, 16)];
    assert_eq!(
        registry.register_sii_projection(config(0x1000, 8), 5, &overlapping),
        Err(DomainRegistryError::PdoBitOverlap)
    );
    assert_eq!(registry.domain(3), Err(DomainRegistryError::UnknownDomain));
    assert_eq!(registry.domain_count(), 0);
}

#[test]
fn sii_segments_register_one_datagram_per_segment() {
    let mut registry = DomainRegistry::<2, 4, 4>::new();
    registry.register_sii_projection(config(0x1000, 8), 5, &projection()).unwrap();
    let specs = [SiiSegmentDatagramSpec::new(10, 1), SiiSegmentDatagramSpec::new(11, 1)];
    assert_eq!(registry.register_sii_segment_datagrams(3, &projection(), &specs), Ok(2));
    let datagrams = registry.datagrams(3).unwrap();
    assert_eq!(datagrams.len(), 2);
    assert_eq!(datagrams[0].plan.command, Command::Lwr);
    assert_eq!(datagrams[0].plan.address, 0x1000);
    assert_eq!(datagrams[0].plan.payload_len, 4);
    assert!(!datagrams[0].input);
    assert_eq!(datagrams[1].plan.command, Command::Lrd);
    assert_eq!(datagrams[1].plan.address, 0x1004);
    assert_eq!(datagrams[1].plan.payload_offset, 4);
    assert_eq!(datagrams[1].plan.payload_len, 2);
    assert!(datagrams[1].input);
    let info = registry.domain(3).unwrap();
    assert_eq!(info.expected_wkc, 2);
    assert_eq!(info.input_expected_wkc, 1);
}

#[test]
fn sii_segment_refusals_leave_the_domain_unchanged() {
    let mut registry = DomainRegistry::<2, 4, 4>::new();
    registry.register_sii_projection(config(0x1000, 8), 5, &projection()).unwrap();
    assert_eq!(
        registry.register_sii_segment_datagrams(3, &projection(), &[SiiSegmentDatagramSpec::new(10, 1)]),
        Err(DomainRegistryError::SiiDatagramCountMismatch)
    );
    let specs = [SiiSegmentDatagramSpec::new(10, 1), SiiSegmentDatagramSpec::new(11, 1)];
    let mut short_fmmu = projection();
    short_fmmu.fmmus = vec![fmmu(0, 0x1000, 4), fmmu(1, 0x1004, 3)];
    assert_eq!(
        registry.register_sii_segment_datagrams(3, &short_fmmu, &specs),
        Err(DomainRegistryError::SiiConfiguration(SiiConfigurationError::FmmuMappingMismatch))
    );
    let mut missing_fmmu = projection();
    missing_fmmu.fmmus = vec![fmmu(0, 0x1000, 4)];
    assert_eq!(
        registry.register_sii_segment_datagrams(3, &missing_fmmu, &specs),
        Err(DomainRegistryError::SiiConfiguration(SiiConfigurationError::FmmuCountMismatch))
    );
    let mut unaligned = projection();
    unaligned.tx_segments = vec![segment(PdoDirection::Tx, 36, 16)];
    assert_eq!(
        registry.register_sii_segment_datagrams(3, &unaligned, &specs),
        Err(DomainRegistryError::SiiSegmentNotByteAddressable)
    );
    let info = registry.domain(3).unwrap();
    assert_eq!(info.datagram_count, 0);
    assert_eq!(info.expected_wkc, 0);
    assert_eq!(
        registry.register_sii_segment_datagrams(4, &projection(), &specs),
        Err(DomainRegistryError::UnknownDomain)
    );
}

#[test]
fn sii_projection_with_datagrams_is_all_or_nothing() {
    let mut registry = DomainRegistry::<2, 4, 4>::new();
    let specs = [SiiSegmentDatagramSpec::new(10, 1), SiiSegmentDatagramSpec::new(10, 1)];
    assert_eq!(
        registry.register_sii_projection_with_datagrams(config(0x1000, 8), 5, &projection(), &specs),
        Err(DomainRegistryError::DuplicateDatagramIndex)
    );
    assert_eq!(registry.domain_count(), 0);
    let specs = [SiiSegmentDatagramSpec::new(10, 1), SiiSegmentDatagramSpec::new(11, 1)];
    let registration =
        registry.register_sii_projection_with_datagrams(config(0x1000, 8), 5, &projection(), &specs).unwrap();
    assert_eq!(registration.domain.datagram_count, 2);
    assert_eq!(registration.domain.pdo_count, 3);
    assert_eq!(registration.segment_count, 2);
}
