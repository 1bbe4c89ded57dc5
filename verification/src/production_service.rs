//! Selection of the one configuration or mailbox service that a scheduled
//! production cycle serves.
//!
//! At most one service owns the cycle's control request. While a request or
//! a PDO action is outstanding, or while the selected service is still
//! active, the selection is kept. At the startup configuration barrier the
//! required services run first, in a fixed order, and the startup service is
//! selected again only once every required service is complete. Otherwise
//! the first active service in the fixed order `Startup, PdoConfiguration,
//! Mapping, DcConfiguration, Mailbox` is selected.
use vstd::prelude::*;
use crate::control::RequestHandle;
use crate::dc::DcPhase;
use crate::mailbox::MailboxPhase;
use crate::mapping_config::MappingConfigPhase;
use crate::pdo_config::{PdoConfigAction, PdoConfigBatchPhase, PdoConfigPhase};

verus! {

#[derive(Clone, Copy, Debug, PartialEq, Eq, Structural)]
pub enum ScheduledProductionServiceKind {
    Idle,
    Startup,
    PdoConfiguration,
    Mapping,
    DcConfiguration,
    Mailbox,
}

/// Where the startup sequence stands, as the scheduler reads it: idle, held
/// at the configuration barrier, ready, or anywhere in between.
#[derive(Clone, Copy, Debug, PartialEq, Eq, Structural)]
pub enum StartupStage {
    Idle,
    AwaitingConfiguration,
    Ready,
    InProgress,
}

/// The configuration services the startup sequence waits for at its
/// barrier.
#[derive(Clone, Copy, Debug, PartialEq, Eq, Structural)]
pub struct StartupRequirements {
    pub pdo_configuration: bool,
    pub mapping: bool,
    pub dc_configuration: bool,
}

#[derive(Clone, Copy, Debug, PartialEq, Eq, Structural)]
pub struct StartupStatus {
    pub stage: StartupStage,
    pub requirements: StartupRequirements,
}

/// The PDO configuration service: one controller, or a batch of jobs.
#[derive(Clone, Copy, Debug, PartialEq, Eq, Structural)]
pub enum PdoConfigurationStatus {
    Single(PdoConfigPhase),
    Batch(PdoConfigBatchPhase),
}

/// The services bound to a production cycle, each by the phase the
/// scheduler reads; `None` where no service is bound.
#[derive(Clone, Copy, Debug, PartialEq, Eq, Structural)]
pub struct ProductionServiceStatus {
    pub startup: Option<StartupStatus>,
    pub pdo_configuration: Option<PdoConfigurationStatus>,
    pub mapping: Option<MappingConfigPhase>,
    pub dc_configuration: Option<DcPhase>,
    pub mailbox: Option<MailboxPhase>,
}

pub open spec fn spec_pdo_complete(status: PdoConfigurationStatus) -> bool {
    match status {
        PdoConfigurationStatus::Single(phase) => phase == PdoConfigPhase::Complete,
        PdoConfigurationStatus::Batch(phase) => phase == PdoConfigBatchPhase::Complete,
    }
}

pub open spec fn spec_pdo_active(status: PdoConfigurationStatus) -> bool {
    match status {
        PdoConfigurationStatus::Single(phase) => !(phase == PdoConfigPhase::Idle || phase == PdoConfigPhase::Complete),
        PdoConfigurationStatus::Batch(phase) => !(phase == PdoConfigBatchPhase::Idle || phase
            == PdoConfigBatchPhase::Complete),
    }
}

/// Whether the service of `kind` has work in progress.
pub open spec fn spec_service_active(status: ProductionServiceStatus, kind: ScheduledProductionServiceKind) -> bool {
    match kind {
        ScheduledProductionServiceKind::Idle => false,
        ScheduledProductionServiceKind::Startup => status.startup matches Some(s) && s.stage
            == StartupStage::InProgress,
        ScheduledProductionServiceKind::PdoConfiguration => status.pdo_configuration matches Some(p)
            && spec_pdo_active(p),
        ScheduledProductionServiceKind::Mapping => status.mapping matches Some(phase) && !(phase
            == MappingConfigPhase::Idle || phase == MappingConfigPhase::Complete),
        ScheduledProductionServiceKind::DcConfiguration => status.dc_configuration matches Some(phase) && !(phase
            == DcPhase::Idle || phase == DcPhase::Complete),
        ScheduledProductionServiceKind::Mailbox => status.mailbox matches Some(phase) && !(phase
            == MailboxPhase::Idle || phase == MailboxPhase::Complete),
    }
}

/// Whether a required service still has to complete before the barrier.
pub open spec fn spec_pdo_pending(status: ProductionServiceStatus, r: StartupRequirements) -> bool {
    r.pdo_configuration && !(status.pdo_configuration matches Some(p) && spec_pdo_complete(p))
}

pub open spec fn spec_mapping_pending(status: ProductionServiceStatus, r: StartupRequirements) -> bool {
    r.mapping && !(status.mapping matches Some(phase) && phase == MappingConfigPhase::Complete)
}

pub open spec fn spec_dc_pending(status: ProductionServiceStatus, r: StartupRequirements) -> bool {
    r.dc_configuration && !(status.dc_configuration matches Some(phase) && phase == DcPhase::Complete)
}

/// The service chosen at the startup barrier: the first required service
/// that is not complete, in the order PDO configuration, mapping, DC; the
/// startup service itself once all of them are complete.
pub open spec fn spec_barrier_service(status: ProductionServiceStatus, r: StartupRequirements) -> ScheduledProductionServiceKind {
    if spec_pdo_pending(status, r) {
        ScheduledProductionServiceKind::PdoConfiguration
    } else if spec_mapping_pending(status, r) {
        ScheduledProductionServiceKind::Mapping
    } else if spec_dc_pending(status, r) {
        ScheduledProductionServiceKind::DcConfiguration
    } else {
        ScheduledProductionServiceKind::Startup
    }
}

/// The fixed service order, by position.
pub open spec fn service_order() -> Seq<ScheduledProductionServiceKind> {
    seq![
        ScheduledProductionServiceKind::Startup,
        ScheduledProductionServiceKind::PdoConfiguration,
        ScheduledProductionServiceKind::Mapping,
        ScheduledProductionServiceKind::DcConfiguration,
        ScheduledProductionServiceKind::Mailbox,
    ]
}

/// The first active service in the fixed order, or `Idle`.
pub open spec fn spec_first_active(status: ProductionServiceStatus) -> ScheduledProductionServiceKind {
    if spec_service_active(status, ScheduledProductionServiceKind::Startup) {
        ScheduledProductionServiceKind::Startup
    } else if spec_service_active(status, ScheduledProductionServiceKind::PdoConfiguration) {
        ScheduledProductionServiceKind::PdoConfiguration
    } else if spec_service_active(status, ScheduledProductionServiceKind::Mapping) {
        ScheduledProductionServiceKind::Mapping
    } else if spec_service_active(status, ScheduledProductionServiceKind::DcConfiguration) {
        ScheduledProductionServiceKind::DcConfiguration
    } else if spec_service_active(status, ScheduledProductionServiceKind::Mailbox) {
        ScheduledProductionServiceKind::Mailbox
    } else {
        ScheduledProductionServiceKind::Idle
    }
}

/// The service selected after `current`: kept while `busy` (a request or
/// PDO action is outstanding) or while it is active; chosen at the barrier
/// while the startup sequence waits there; else the first active one.
pub open spec fn spec_select_service(
    current: ScheduledProductionServiceKind,
    busy: bool,
    status: ProductionServiceStatus,
) -> ScheduledProductionServiceKind {
    if busy || spec_service_active(status, current) {
        current
    } else {
        match status.startup {
            Some(s) => if s.stage == StartupStage::AwaitingConfiguration {
                spec_barrier_service(status, s.requirements)
            } else {
                spec_first_active(status)
            },
            None => spec_first_active(status),
        }
    }
}

fn pdo_complete(status: PdoConfigurationStatus) -> (complete: bool)
    ensures
        complete == spec_pdo_complete(status),
{
    match status {
        PdoConfigurationStatus::Single(phase) => phase == PdoConfigPhase::Complete,
        PdoConfigurationStatus::Batch(phase) => phase == PdoConfigBatchPhase::Complete,
    }
}

fn pdo_active(status: PdoConfigurationStatus) -> (active: bool)
    ensures
        active == spec_pdo_active(status),
{
    match status {
        PdoConfigurationStatus::Single(phase) => !(phase == PdoConfigPhase::Idle || phase == PdoConfigPhase::Complete),
        PdoConfigurationStatus::Batch(phase) => !(phase == PdoConfigBatchPhase::Idle || phase
            == PdoConfigBatchPhase::Complete),
    }
}

/// Whether the service of `kind` has work in progress.
pub fn service_active(status: &ProductionServiceStatus, kind: ScheduledProductionServiceKind) -> (active: bool)
    ensures
        active == spec_service_active(*status, kind),
{
    match kind {
        ScheduledProductionServiceKind::Idle => false,
        ScheduledProductionServiceKind::Startup => match status.startup {
            Some(startup) => startup.stage == StartupStage::InProgress,
            None => false,
        },
        ScheduledProductionServiceKind::PdoConfiguration => match status.pdo_configuration {
            Some(pdo) => pdo_active(pdo),
            None => false,
        },
        ScheduledProductionServiceKind::Mapping => match status.mapping {
            Some(phase) => !(phase == MappingConfigPhase::Idle || phase == MappingConfigPhase::Complete),
            None => false,
        },
        ScheduledProductionServiceKind::DcConfiguration => match status.dc_configuration {
            Some(phase) => !(phase == DcPhase::Idle || phase == DcPhase::Complete),
            None => false,
        },
        ScheduledProductionServiceKind::Mailbox => match status.mailbox {
            Some(phase) => !(phase == MailboxPhase::Idle || phase == MailboxPhase::Complete),
            None => false,
        },
    }
}

/// The service selected after `current`; see `spec_select_service`.
pub fn select_service(
    current: ScheduledProductionServiceKind,
    busy: bool,
    status: &ProductionServiceStatus,
) -> (selected: ScheduledProductionServiceKind)
    ensures
        selected == spec_select_service(current, busy, *status),
{
    if busy || service_active(status, current) {
        return current;
    }
    if let Some(startup) = status.startup {
        if startup.stage == StartupStage::AwaitingConfiguration {
            let requirements = startup.requirements;
            let pdo_done = match status.pdo_configuration {
                Some(pdo) => pdo_complete(pdo),
                None => false,
            };
            let mapping_done = match status.mapping {
                Some(phase) => phase == MappingConfigPhase::Complete,
                None => false,
            };
            let dc_done = match status.dc_configuration {
                Some(phase) => phase == DcPhase::Complete,
                None => false,
            };
            return if requirements.pdo_configuration && !pdo_done {
                ScheduledProductionServiceKind::PdoConfiguration
            } else if requirements.mapping && !mapping_done {
                ScheduledProductionServiceKind::Mapping
            } else if requirements.dc_configuration && !dc_done {
                ScheduledProductionServiceKind::DcConfiguration
            } else {
                ScheduledProductionServiceKind::Startup
            };
        }
    }
    if service_active(status, ScheduledProductionServiceKind::Startup) {
        ScheduledProductionServiceKind::Startup
    } else if service_active(status, ScheduledProductionServiceKind::PdoConfiguration) {
        ScheduledProductionServiceKind::PdoConfiguration
    } else if service_active(status, ScheduledProductionServiceKind::Mapping) {
        ScheduledProductionServiceKind::Mapping
    } else if service_active(status, ScheduledProductionServiceKind::DcConfiguration) {
        ScheduledProductionServiceKind::DcConfiguration
    } else if service_active(status, ScheduledProductionServiceKind::Mailbox) {
        ScheduledProductionServiceKind::Mailbox
    } else {
        ScheduledProductionServiceKind::Idle
    }
}

/// Outside the barrier, an idle selection takes the first active service of
/// the fixed order: the selected service is active, or none is and it is
/// `Idle`, and every service before it in the order is inactive.
pub proof fn lemma_selection_follows_fixed_order(
    current: ScheduledProductionServiceKind,
    busy: bool,
    status: ProductionServiceStatus,
)
    requires
        !busy,
        !spec_service_active(status, current),
        !(status.startup matches Some(s) && s.stage == StartupStage::AwaitingConfiguration),
    ensures
        ({
            let selected = spec_select_service(current, busy, status);
            &&& selected == ScheduledProductionServiceKind::Idle ==> forall|k: int|
                0 <= k < 5 ==> !spec_service_active(status, #[trigger] service_order()[k])
            &&& selected != ScheduledProductionServiceKind::Idle ==> spec_service_active(status, selected)
                && exists|k: int|
                0 <= k < 5 && service_order()[k] == selected && forall|j: int|
                    0 <= j < k ==> !spec_service_active(status, #[trigger] service_order()[j])
        }),
{
    let selected = spec_select_service(current, busy, status);
    let order = service_order();
    assert(order[0] == ScheduledProductionServiceKind::Startup);
    assert(order[1] == ScheduledProductionServiceKind::PdoConfiguration);
    assert(order[2] == ScheduledProductionServiceKind::Mapping);
    assert(order[3] == ScheduledProductionServiceKind::DcConfiguration);
    assert(order[4] == ScheduledProductionServiceKind::Mailbox);
    if selected == ScheduledProductionServiceKind::Startup {
        assert(order[0] == selected);
    } else if selected == ScheduledProductionServiceKind::PdoConfiguration {
        assert(order[1] == selected);
    } else if selected == ScheduledProductionServiceKind::Mapping {
        assert(order[2] == selected);
    } else if selected == ScheduledProductionServiceKind::DcConfiguration {
        assert(order[3] == selected);
    } else if selected == ScheduledProductionServiceKind::Mailbox {
        assert(order[4] == selected);
    }
}

/// A selection is kept while a request or PDO action is outstanding, and
/// while the selected service is active.
pub proof fn lemma_selection_kept_while_busy(
    current: ScheduledProductionServiceKind,
    busy: bool,
    status: ProductionServiceStatus,
)
    requires
        busy || spec_service_active(status, current),
    ensures
        spec_select_service(current, busy, status) == current,
{
}

/// At the startup barrier, with nothing outstanding, the startup service is
/// selected exactly when every required service is complete.
pub proof fn lemma_barrier_releases_only_when_required_complete(
    current: ScheduledProductionServiceKind,
    status: ProductionServiceStatus,
)
    requires
        status.startup matches Some(s) && s.stage == StartupStage::AwaitingConfiguration,
        !spec_service_active(status, current),
    ensures
        ({
            let r = status.startup->Some_0.requirements;
            (spec_select_service(current, false, status) == ScheduledProductionServiceKind::Startup) <==> (
            !spec_pdo_pending(status, r) && !spec_mapping_pending(status, r) && !spec_dc_pending(status, r))
        }),
{
}

/// The production scheduler's selection: the service that owns the cycle,
/// the control request it has in flight, and the PDO action it works on.
pub struct ScheduledProductionServiceScheduler {
    active: ScheduledProductionServiceKind,
    request: Option<RequestHandle>,
    pdo_action: Option<PdoConfigAction>,
}

impl ScheduledProductionServiceScheduler {
    pub closed spec fn spec_active(&self) -> ScheduledProductionServiceKind {
        self.active
    }

    pub closed spec fn spec_request(&self) -> Option<RequestHandle> {
        self.request
    }

    pub closed spec fn spec_busy(&self) -> bool {
        self.request is Some || self.pdo_action is Some
    }

    pub fn new() -> (scheduler: Self)
        ensures
            scheduler.spec_active() == ScheduledProductionServiceKind::Idle,
            scheduler.spec_request() is None,
            !scheduler.spec_busy(),
    {
        ScheduledProductionServiceScheduler { active: ScheduledProductionServiceKind::Idle, request: None, pdo_action: None }
    }

    pub fn active(&self) -> (active: ScheduledProductionServiceKind)
        ensures
            active == self.spec_active(),
    {
        self.active
    }

    pub fn request(&self) -> (request: Option<RequestHandle>)
        ensures
            request == self.spec_request(),
    {
        self.request
    }

    /// Select the service for the next cycle from the services' status.
    pub fn refresh_selection(&mut self, status: &ProductionServiceStatus)
        ensures
            final(self).spec_active() == spec_select_service(old(self).spec_active(), old(self).spec_busy(), *status),
            final(self).spec_request() == old(self).spec_request(),
            final(self).spec_busy() == old(self).spec_busy(),
    {
        let busy = self.request.is_some() || self.pdo_action.is_some();
        self.active = select_service(self.active, busy, status);
    }
}

impl Default for ScheduledProductionServiceScheduler {
    fn default() -> (scheduler: Self)
        ensures
            scheduler.spec_active() == ScheduledProductionServiceKind::Idle,
            scheduler.spec_request() is None,
    {
        ScheduledProductionServiceScheduler::new()
    }
}

} // verus!
