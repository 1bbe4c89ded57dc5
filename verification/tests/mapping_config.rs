use lib::control::{ControlRequestPool, RegisterOperation, RequestState};
use lib::mapping::{FmmuConfig, MappingTable, SyncManagerConfig, ESC_FMMU_BASE, ESC_SYNC_MANAGER_BASE, FMMU_IMAGE_LEN, SYNC_MANAGER_IMAGE_LEN};
use lib::mapping_config::{MappingConfigController, MappingConfigError, MappingConfigItem, MappingConfigPhase, MappingConfigProgress};
use lib::registers::fixed_address;

fn mapping_table() -> MappingTable<1, 1> {
    let mut table = MappingTable::new();
    table
        .add_sync_manager(SyncManagerConfig { index: 2, physical_start: 0x1000, length: 8, control: 0x26, status: 0, enable: true })
        .unwrap();
    table
        .add_fmmu(FmmuConfig {
            index: 0,
            logical_start: 0x2000,
            length: 8,
            logical_start_bit: 0,
            logical_end_bit: 7,
            physical_start: 0x1000,
            physical_start_bit: 0,
            fmmu_type: 2,
            enable: true,
        })
        .unwrap();
    table
}

#[test]
fn writes_and_reads_back_every_mapping_entry() {
    let table = mapping_table();
    let mut controller = MappingConfigController::<1, 1>::new();
    controller.start(0x1000, 5, 0, 1_000, 100, &table).unwrap();

    let write_sm = controller.next_action(1).unwrap().unwrap();
    assert_eq!(write_sm.item, MappingConfigItem::SyncManager(2));
    assert_eq!(write_sm.address, 0x1000_0810);
    assert_eq!(write_sm.operation, RegisterOperation::Write);
    assert_eq!(write_sm.datagram_len(), SYNC_MANAGER_IMAGE_LEN);
    controller.accept(write_sm, 5, &[], 1, 2).unwrap();

    let read_sm = controller.next_action(3).unwrap().unwrap();
    let mut sm_image = [0; SYNC_MANAGER_IMAGE_LEN];
    table.sync_manager(2).unwrap().encode(&mut sm_image).unwrap();
    assert_eq!(controller.accept(read_sm, 5, &sm_image, 1, 4), Ok(MappingConfigProgress::Advanced));

    let write_fmmu = controller.next_action(5).unwrap().unwrap();
    assert_eq!(write_fmmu.item, MappingConfigItem::Fmmu(0));
    assert_eq!(write_fmmu.address, 0x1000_0600);
    assert_eq!(write_fmmu.operation, RegisterOperation::Write);
    controller.accept(write_fmmu, 5, &[], 1, 6).unwrap();

    let read_fmmu = controller.next_action(7).unwrap().unwrap();
    let mut fmmu_image = [0; FMMU_IMAGE_LEN];
    table.fmmu(0).unwrap().encode(&mut fmmu_image).unwrap();
    assert_eq!(controller.accept(read_fmmu, 5, &fmmu_image, 1, 8), Ok(MappingConfigProgress::Complete));
    assert_eq!(controller.phase(), MappingConfigPhase::Complete);
    assert_eq!(controller.next_action(9), Ok(None));
}

#[test]
fn readback_mismatch_latches_configuration_fault() {
    let table = mapping_table();
    let mut controller = MappingConfigController::<1, 1>::new();
    controller.start(0x1000, 5, 0, 1_000, 100, &table).unwrap();
    let write = controller.next_action(1).unwrap().unwrap();
    controller.accept(write, 5, &[], 1, 2).unwrap();
    let read = controller.next_action(3).unwrap().unwrap();
    assert_eq!(controller.accept(read, 5, &[0; SYNC_MANAGER_IMAGE_LEN], 1, 4), Err(MappingConfigError::ReadbackMismatch));
    assert_eq!(controller.phase(), MappingConfigPhase::Faulted);
    assert_eq!(controller.last_error(), Some(MappingConfigError::ReadbackMismatch));
}

#[test]
fn completed_readback_uses_control_pool_and_releases_slot() {
    let table = mapping_table();
    let mut controller = MappingConfigController::<1, 1>::new();
    controller.start(0x1000, 5, 0, 1_000, 100, &table).unwrap();
    let action = controller.next_action(1).unwrap().unwrap();
    let mut pool = ControlRequestPool::<1>::new();
    let handle = controller.enqueue_pending(&mut pool).unwrap();
    assert_eq!(pool.get(handle).unwrap().length, SYNC_MANAGER_IMAGE_LEN);
    assert_eq!(pool.get(handle).unwrap().response_length, SYNC_MANAGER_IMAGE_LEN);
    pool.get_mut(handle).unwrap().state = RequestState::Complete;
    pool.get_mut(handle).unwrap().actual_wkc = 1;
    assert_eq!(controller.accept_completed(&mut pool, handle, 2), Ok(MappingConfigProgress::Advanced));
    assert_eq!(pool.in_use(), 0);
    assert_eq!(action.address, fixed_address(0x1000, ESC_SYNC_MANAGER_BASE + 16));
    assert_eq!(controller.next_action(3).unwrap().unwrap().address, fixed_address(0x1000, ESC_SYNC_MANAGER_BASE + 16));
    assert_eq!(ESC_FMMU_BASE, 0x0600);
}

#[test]
fn empty_table_completes_immediately_and_busy_is_rejected() {
    let table = MappingTable::<1, 1>::new();
    let mut controller = MappingConfigController::<1, 1>::new();
    assert_eq!(controller.next_action(0), Err(MappingConfigError::NotStarted));
    controller.start(0x1000, 1, 0, 10, 5, &table).unwrap();
    assert_eq!(controller.phase(), MappingConfigPhase::Complete);
    assert_eq!(controller.sync_manager_count(), 0);
    let table = mapping_table();
    controller.start(0x1000, 1, 0, 10, 5, &table).unwrap();
    assert_eq!(controller.fmmu_count(), 1);
    assert_eq!(controller.start(0x1000, 1, 0, 10, 5, &table), Err(MappingConfigError::Busy));
    assert_eq!(controller.next_action(10), Err(MappingConfigError::Timeout));
}
