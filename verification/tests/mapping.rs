use lib::mapping::{FmmuConfig, MappingError, MappingTable, SyncManagerConfig, FMMU_IMAGE_LEN, SYNC_MANAGER_IMAGE_LEN};

fn sm(index: u8, start: u16, length: u16) -> SyncManagerConfig {
    SyncManagerConfig { index, physical_start: start, length, control: 0x26, status: 0, enable: true }
}

fn fmmu(index: u8, logical_start: u32, physical_start: u16) -> FmmuConfig {
    FmmuConfig {
        index,
        logical_start,
        length: 4,
        logical_start_bit: 0,
        logical_end_bit: 7,
        physical_start,
        physical_start_bit: 0,
        fmmu_type: 2,
        enable: true,
    }
}

#[test]
fn mapping_table_rejects_overlaps_and_exposes_register_addresses() {
    let mut table = MappingTable::<2, 2>::new();
    table.add_sync_manager(sm(2, 0x1000, 8)).unwrap();
    assert_eq!(table.add_sync_manager(sm(3, 0x1004, 4)), Err(MappingError::SyncManagerOverlap));
    table.add_fmmu(fmmu(0, 0x2000, 0x1000)).unwrap();
    assert_eq!(table.add_fmmu(fmmu(1, 0x2002, 0x1010)), Err(MappingError::LogicalOverlap));
    assert_eq!(table.sync_manager(2).unwrap().register_address(), 0x0810);
    assert_eq!(table.fmmu(0).unwrap().register_address(), 0x0600);
    assert_eq!(table.summary().logical_end, 0x2004);
}

#[test]
fn mapping_register_images_are_little_endian_and_fixed_size() {
    let sync = sm(0, 0x1234, 0x0020);
    let mut sync_image = [0xFF; SYNC_MANAGER_IMAGE_LEN];
    sync.encode(&mut sync_image).unwrap();
    assert_eq!(sync_image, [0x34, 0x12, 0x20, 0x00, 0x26, 0, 1, 0]);

    let fmmu = fmmu(0, 0x1122_3344, 0x5566);
    let mut fmmu_image = [0xFF; FMMU_IMAGE_LEN];
    fmmu.encode(&mut fmmu_image).unwrap();
    assert_eq!(&fmmu_image[0..4], &0x1122_3344u32.to_le_bytes());
    assert_eq!(&fmmu_image[8..10], &0x5566u16.to_le_bytes());
    assert_eq!(fmmu_image[11], 2);
    assert_eq!(fmmu_image[12], 1);
    assert_eq!(&fmmu_image[13..16], &[0, 0, 0]);
}

#[test]
fn mapping_rejects_invalid_entries() {
    let mut table = MappingTable::<1, 1>::new();
    assert_eq!(table.add_sync_manager(sm(0, 0, 0)), Err(MappingError::EmptySyncManager));
    assert_eq!(table.add_sync_manager(sm(0, 0xFFFF, 2)), Err(MappingError::PhysicalRangeOverflow));
    table.add_sync_manager(sm(0, 0, 2)).unwrap();
    assert_eq!(table.add_sync_manager(sm(1, 8, 2)), Err(MappingError::CapacityExceeded));
    let mut bad = fmmu(0, 0, 0);
    bad.logical_end_bit = 8;
    assert_eq!(table.add_fmmu(bad), Err(MappingError::InvalidBitRange));
    let mut wrap = fmmu(0, 0xFFFF_FFFE, 0);
    wrap.length = 4;
    assert_eq!(table.add_fmmu(wrap), Err(MappingError::LogicalRangeOverflow));
    assert_eq!(table.fmmu(3), Err(MappingError::UnknownFmmu));
    assert_eq!(table.sync_manager(9), Err(MappingError::UnknownSyncManager));
    assert_eq!(fmmu(0, 1, 0).logical_bit_range(), Ok((8, 40)));
    let mut short = [0u8; 4];
    assert_eq!(sm(0, 0, 1).encode(&mut short), Err(MappingError::BufferTooSmall));
}
