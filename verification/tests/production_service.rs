use lib::dc::DcPhase;
use lib::mailbox::MailboxPhase;
use lib::mapping_config::MappingConfigPhase;
use lib::pdo_config::{PdoConfigBatchPhase, PdoConfigPhase};
use lib::production_service::{
    select_service, service_active, PdoConfigurationStatus, ProductionServiceStatus,
    ScheduledProductionServiceKind, ScheduledProductionServiceScheduler, StartupRequirements, StartupStage,
    StartupStatus,
};

fn at_barrier(pdo: bool, mapping: bool, dc: bool) -> Option<StartupStatus> {
    Some(StartupStatus {
        stage: StartupStage::AwaitingConfiguration,
        requirements: StartupRequirements { pdo_configuration: pdo, mapping, dc_configuration: dc },
    })
}

fn status(
    startup: Option<StartupStatus>,
    pdo: Option<PdoConfigurationStatus>,
    mapping: Option<MappingConfigPhase>,
    dc: Option<DcPhase>,
    mailbox: Option<MailboxPhase>,
) -> ProductionServiceStatus {
    ProductionServiceStatus { startup, pdo_configuration: pdo, mapping, dc_configuration: dc, mailbox }
}

#[test]
fn barrier_selects_idle_required_services_in_fixed_order() {
    let mut scheduler = ScheduledProductionServiceScheduler::new();
    let idle = status(
        at_barrier(true, true, true),
        Some(PdoConfigurationStatus::Single(PdoConfigPhase::Idle)),
        Some(MappingConfigPhase::Idle),
        Some(DcPhase::Idle),
        None,
    );
    scheduler.refresh_selection(&idle);
    assert_eq!(scheduler.active(), ScheduledProductionServiceKind::PdoConfiguration);

    let pdo_done = status(
        at_barrier(true, true, true),
        Some(PdoConfigurationStatus::Single(PdoConfigPhase::Complete)),
        Some(MappingConfigPhase::Idle),
        Some(DcPhase::Idle),
        None,
    );
    scheduler.refresh_selection(&pdo_done);
    assert_eq!(scheduler.active(), ScheduledProductionServiceKind::Mapping);

    let mapping_done = status(
        at_barrier(true, true, true),
        Some(PdoConfigurationStatus::Single(PdoConfigPhase::Complete)),
        Some(MappingConfigPhase::Complete),
        Some(DcPhase::Idle),
        None,
    );
    scheduler.refresh_selection(&mapping_done);
    assert_eq!(scheduler.active(), ScheduledProductionServiceKind::DcConfiguration);
}

#[test]
fn barrier_releases_only_after_all_required_controllers_complete() {
    let missing_mapping = status(
        at_barrier(true, true, false),
        Some(PdoConfigurationStatus::Batch(PdoConfigBatchPhase::Complete)),
        None,
        None,
        None,
    );
    assert_eq!(
        select_service(ScheduledProductionServiceKind::Idle, false, &missing_mapping),
        ScheduledProductionServiceKind::Mapping
    );
    let all_done = status(
        at_barrier(true, true, false),
        Some(PdoConfigurationStatus::Batch(PdoConfigBatchPhase::Complete)),
        Some(MappingConfigPhase::Complete),
        None,
        None,
    );
    assert_eq!(
        select_service(ScheduledProductionServiceKind::Mapping, false, &all_done),
        ScheduledProductionServiceKind::Startup
    );
}

#[test]
fn active_service_and_outstanding_requests_keep_the_selection() {
    let busy_mapping = status(None, None, Some(MappingConfigPhase::WritingFmmu), None, Some(MailboxPhase::Polling));
    assert_eq!(
        select_service(ScheduledProductionServiceKind::Mapping, false, &busy_mapping),
        ScheduledProductionServiceKind::Mapping
    );
    let nothing = status(None, None, None, None, None);
    assert_eq!(
        select_service(ScheduledProductionServiceKind::Mailbox, true, &nothing),
        ScheduledProductionServiceKind::Mailbox
    );
    assert_eq!(
        select_service(ScheduledProductionServiceKind::Mailbox, false, &nothing),
        ScheduledProductionServiceKind::Idle
    );
}

#[test]
fn outside_the_barrier_the_first_active_service_in_order_is_selected() {
    let running = status(
        Some(StartupStatus {
            stage: StartupStage::Ready,
            requirements: StartupRequirements { pdo_configuration: false, mapping: false, dc_configuration: false },
        }),
        Some(PdoConfigurationStatus::Single(PdoConfigPhase::Faulted)),
        Some(MappingConfigPhase::Idle),
        Some(DcPhase::ReadingSystemTime),
        Some(MailboxPhase::Sending),
    );
    assert!(service_active(&running, ScheduledProductionServiceKind::PdoConfiguration));
    assert!(!service_active(&running, ScheduledProductionServiceKind::Startup));
    assert_eq!(
        select_service(ScheduledProductionServiceKind::Idle, false, &running),
        ScheduledProductionServiceKind::PdoConfiguration
    );
    let later = status(None, None, None, Some(DcPhase::Complete), Some(MailboxPhase::Sending));
    assert_eq!(
        select_service(ScheduledProductionServiceKind::Idle, false, &later),
        ScheduledProductionServiceKind::Mailbox
    );
}
