//! Leaving service, and the installations in service.
use std::sync::Arc;

use operune_application::active::{ActiveEntry, ActiveInstallation, ActiveRuntimeRegistry};
use operune_application::audit::AuditEvent;
use operune_application::error::RuntimeExecutionError;
use operune_application::event::{EventLimits, EventService};
use operune_application::lifecycle::{LifecycleController, LifecycleError};
use operune_application::policies::InProcessCheckpoint;
use operune_application::ports::{AuditError, CheckpointError};
use operune_application::scheduler::{SchedulerError, SchedulerLimits, SchedulerService};
use operune_application::timers::ScheduleTrigger;
use operune_application::values::{
    ComponentId, ComponentLifecycleEvent, ComponentLifecycleState, ComponentVersion, ContentDigest,
    Duration, ErrorSource, InstallationId, UtcInstant,
};

fn installation(seed: u128) -> InstallationId {
    InstallationId { value: seed }
}

fn digest(seed: u128) -> ContentDigest {
    ContentDigest { high: 0, low: seed }
}

fn active(seed: u128, bytes: u128) -> Arc<ActiveEntry> {
    Arc::new(ActiveEntry {
        installation: ActiveInstallation {
            installation_id: installation(seed),
            component_id: ComponentId { text: format!("component-{seed}") },
            version: ComponentVersion { major: 1, minor: 0, patch: 0 },
            digest: digest(bytes),
        },
        runtime: 7,
        manifest: None,
    })
}

/// A host that keeps every audit event and drains without trouble.
struct Host {
    controller: LifecycleController,
    registry: ActiveRuntimeRegistry,
    scheduler: SchedulerService,
    events: EventService,
    audit: Vec<AuditEvent>,
}

impl Host {
    fn new() -> Host {
        Host {
            controller: LifecycleController::new(Duration::from_secs(10)),
            registry: ActiveRuntimeRegistry::new(),
            scheduler: SchedulerService::new(SchedulerLimits::default()),
            events: EventService::new(EventLimits::default()),
            audit: Vec::new(),
        }
    }

    fn activate(&mut self) -> InstallationId {
        let inst = installation(5);
        self.registry.swap(inst, active(5, 50));
        inst
    }

    fn in_service(&self, inst: InstallationId) -> Option<ContentDigest> {
        self.registry.get(inst).map(|entry| entry.installation.digest)
    }

    fn ready(&mut self, inst: InstallationId) -> Result<(), LifecycleError> {
        let found = self.in_service(inst);
        self.controller.ready(inst, found)
    }

    fn begin_drain(&mut self, inst: InstallationId) -> Result<(), LifecycleError> {
        let found = self.in_service(inst);
        let event = self.controller.begin_drain(inst, found)?;
        self.audit.push(event);
        self.controller.drain_audited(inst, Ok(()), &mut self.scheduler, &mut self.events)?;
        let found = self.in_service(inst);
        self.controller.drained(inst, found, Ok(()))
    }

    fn stop(&mut self, inst: InstallationId) -> Result<(), LifecycleError> {
        let event = self.controller.stop(inst)?;
        self.audit.push(event);
        self.controller.stop_audited(inst, Ok(()))
    }
}

#[test]
fn ready_drain_stop_orchestration() {
    let mut h = Host::new();
    let inst = h.activate();
    assert_eq!(h.ready(inst), Ok(()));
    assert_eq!(h.controller.phase(inst), Some(ComponentLifecycleState::Active));
    assert_eq!(h.begin_drain(inst), Ok(()));
    assert_eq!(h.controller.phase(inst), Some(ComponentLifecycleState::Draining));
    assert_eq!(
        h.audit,
        vec![AuditEvent::DrainStarted {
            installation: inst,
            digest: digest(50),
            deadline_secs: 10
        }]
    );
    assert_eq!(h.stop(inst), Ok(()));
    assert_eq!(h.controller.phase(inst), Some(ComponentLifecycleState::Disabled));
    assert_eq!(
        h.audit[1],
        AuditEvent::DrainCompleted { installation: inst, digest: digest(50) }
    );
}

#[test]
fn drain_stops_scheduler_and_event_background_services() {
    let mut h = Host::new();
    let inst = h.activate();
    let now = UtcInstant { nanos: 0 };
    let at = UtcInstant { nanos: 10_000_000_000 };
    let trigger = ScheduleTrigger::OneShot { at };
    assert!(h.scheduler.schedule(inst, trigger, true, Ok(true), Some(now)).is_ok());
    assert_eq!(h.begin_drain(inst), Ok(()));
    assert!(h.scheduler.is_stopped(inst));
    assert!(h.events.is_stopped(inst));
    assert_eq!(
        h.scheduler.schedule(inst, trigger, true, Ok(true), Some(now)),
        Err(SchedulerError::NotReady)
    );
}

#[test]
fn stop_without_drain_is_invalid_transition() {
    let mut h = Host::new();
    let inst = h.activate();
    assert_eq!(h.ready(inst), Ok(()));
    assert_eq!(
        h.stop(inst),
        Err(LifecycleError::InvalidTransition(
            ComponentLifecycleState::Active,
            ComponentLifecycleEvent::DrainCompleted
        ))
    );
    assert_eq!(h.controller.phase(inst), Some(ComponentLifecycleState::Active));
}

#[test]
fn double_drain_and_double_stop_are_rejected() {
    let mut h = Host::new();
    let inst = h.activate();
    assert_eq!(h.begin_drain(inst), Ok(()));
    assert!(matches!(h.begin_drain(inst), Err(LifecycleError::InvalidTransition(..))));
    assert_eq!(h.stop(inst), Ok(()));
    assert!(matches!(h.stop(inst), Err(LifecycleError::InvalidTransition(..))));
}

#[test]
fn begin_drain_unknown_installation_is_not_found() {
    let mut h = Host::new();
    assert_eq!(
        h.begin_drain(installation(99)),
        Err(LifecycleError::NotFound(installation(99)))
    );
    assert_eq!(h.stop(installation(99)), Err(LifecycleError::NotFound(installation(99))));
}

#[test]
fn checkpoint_is_orchestrated_before_terminal_state() {
    let mut h = Host::new();
    let mut checkpoint = InProcessCheckpoint::new();
    let inst = h.activate();
    let written = checkpoint.checkpoint(inst);
    assert_eq!(h.controller.checkpoint(written), Ok(()));
    assert_eq!(checkpoint.checkpoint_calls(), 1);
    assert_eq!(h.begin_drain(inst), Ok(()));
    let written = checkpoint.checkpoint(inst);
    assert_eq!(h.controller.checkpoint(written), Ok(()));
    assert_eq!(checkpoint.checkpoint_calls(), 2);
    assert_eq!(h.stop(inst), Ok(()));
    let failed = CheckpointError::Failed(inst, "disk");
    assert_eq!(
        h.controller.checkpoint(Err(failed)),
        Err(LifecycleError::Checkpoint(CheckpointError::Failed(inst, "disk")))
    );
}

#[test]
fn ready_requires_registry_entry() {
    let mut h = Host::new();
    let error = h.ready(installation(7));
    assert!(matches!(error, Err(LifecycleError::NotFound(_))));
}

#[test]
fn ready_does_not_revive() {
    let mut h = Host::new();
    let inst = h.activate();
    assert_eq!(h.begin_drain(inst), Ok(()));
    assert_eq!(h.ready(inst), Err(LifecycleError::NotReady(inst, "ready")));
}

#[test]
fn unkept_audit_event_changes_nothing() {
    let mut h = Host::new();
    let inst = h.activate();
    assert_eq!(h.ready(inst), Ok(()));
    let failed = || Err(AuditError::Storage(ErrorSource { message: "disk".to_owned() }));
    let found = h.in_service(inst);
    assert!(h.controller.begin_drain(inst, found).is_ok());
    let refused =
        h.controller.drain_audited(inst, failed(), &mut h.scheduler, &mut h.events);
    assert!(matches!(refused, Err(LifecycleError::Audit(_))));
    assert_eq!(h.controller.phase(inst), Some(ComponentLifecycleState::Active));
    assert!(!h.scheduler.is_stopped(inst));
    assert!(!h.events.is_stopped(inst));
    assert!(matches!(h.controller.stop_audited(inst, failed()), Err(LifecycleError::Audit(_))));
}

#[test]
fn failed_drain_is_told() {
    let h = Host::new();
    let inst = installation(1);
    assert_eq!(
        h.controller.drained(inst, Some(digest(1)), Err(RuntimeExecutionError::Busy)),
        Err(LifecycleError::Drain(RuntimeExecutionError::Busy))
    );
    assert_eq!(h.controller.drained(inst, None, Ok(())), Err(LifecycleError::NotFound(inst)));
}

#[test]
fn registry_keeps_one_entry_per_installation() {
    let mut registry = ActiveRuntimeRegistry::new();
    assert!(registry.is_empty());
    registry.swap(installation(3), active(3, 30));
    registry.swap(installation(1), active(1, 10));
    registry.swap(installation(2), active(2, 20));
    let held = registry.get(installation(2));
    registry.swap(installation(2), active(2, 21));
    assert_eq!(registry.len(), 3);
    let order: Vec<u128> =
        registry.list().iter().map(|found| found.installation_id.value).collect();
    assert_eq!(order, vec![1, 2, 3]);
    assert_eq!(
        registry.get(installation(2)).map(|entry| entry.installation.digest),
        Some(digest(21))
    );
    assert_eq!(
        held.map(|entry| entry.installation.digest),
        Some(digest(20)),
        "what a reader holds does not change"
    );
    registry.remove(installation(1));
    registry.remove(installation(9));
    assert!(registry.get(installation(1)).is_none());
    assert_eq!(registry.len(), 2);
    assert!(registry.take_previous(installation(3)).is_some());
}
