//! Installing, upgrading and rolling back: one run of the pipeline, step by
//! step.
//!
//! A run asks for one piece of work at a time and is told how it went. Bytes
//! are judged before anything is kept, identity before grants, grants before a
//! guest runs, readiness before service; the audit log hears of a change before
//! it is made, and a run that the log cannot follow stops. Once a candidate is
//! kept, whatever else goes wrong before it is in service fails the candidate and
//! leaves what is in service as it was.
use vstd::prelude::*;

use crate::audit::{AuditEvent, RejectReason};
use crate::error::{ApplicationError, RuntimeExecutionError};
use crate::guest::GuestComponentDescriptor;
use crate::install_rules;
use crate::model::{
    ContractSurface, GrantApproval, InstallationGrant, InstallationRecord, PipelineTarget,
    RuntimeConfig, WasiGrant,
};
use crate::ports::{AuditError, ConfigError, GrantError, RegistryError};
use crate::values::{
    ByteSize, CapabilityId, ComponentId, ComponentLifecycleEvent, ComponentLifecycleState,
    ComponentVersion, ContentDigest, DomainError, ErrorSource, InstallationId,
};
use crate::web_path::WebManifestData;

verus! {

/// Where a run stands: the work that it waits for.
#[derive(Debug, Clone, Copy, PartialEq, Eq, Structural)]
pub enum Stage {
    Compile,
    ReadSurface,
    RecordCandidate,
    PersistArtifact,
    UpsertCandidate,
    FirstDescriptor,
    SecondDescriptor,
    CheckIdentity,
    ResolveVersion,
    AllocateInstallation,
    RecordIdentity,
    BindVersion,
    InsertInstallation,
    LoadValidated,
    MarkValidated,
    LoadGrants,
    CheckWasi,
    Prepare,
    RecordActivation,
    LoadActivating,
    MarkActivating,
    Instantiate,
    CheckReadiness,
    ReadManifest,
    CacheAsset,
    RecordGrants,
    StoreGrants,
    FindPrevious,
    RecordSuccess,
    RecordManifest,
    LoadDraining,
    MarkDraining,
    UpdateInstallation,
    LoadActive,
    MarkActive,
    SwapActive,
    RecordDrain,
    Drain,
    RecordDrained,
    LoadDisabled,
    MarkDisabled,
    /// The bytes are turned away; the log is to hear of it.
    Reject,
    /// The candidate has failed; the log is to hear of it.
    Fail,
    LoadFailed,
    MarkFailed,
    Finished,
}

/// The order of the stages.
pub open spec fn rank(s: Stage) -> int {
    match s {
        Stage::Compile => 0,
        Stage::ReadSurface => 1,
        Stage::RecordCandidate => 2,
        Stage::PersistArtifact => 3,
        Stage::UpsertCandidate => 4,
        Stage::FirstDescriptor => 5,
        Stage::SecondDescriptor => 6,
        Stage::CheckIdentity => 7,
        Stage::ResolveVersion => 8,
        Stage::AllocateInstallation => 9,
        Stage::RecordIdentity => 10,
        Stage::BindVersion => 11,
        Stage::InsertInstallation => 12,
        Stage::LoadValidated => 13,
        Stage::MarkValidated => 14,
        Stage::LoadGrants => 15,
        Stage::CheckWasi => 16,
        Stage::Prepare => 17,
        Stage::RecordActivation => 18,
        Stage::LoadActivating => 19,
        Stage::MarkActivating => 20,
        Stage::Instantiate => 21,
        Stage::CheckReadiness => 22,
        Stage::ReadManifest => 23,
        Stage::CacheAsset => 24,
        Stage::RecordGrants => 25,
        Stage::StoreGrants => 26,
        Stage::FindPrevious => 27,
        Stage::RecordSuccess => 28,
        Stage::RecordManifest => 29,
        Stage::LoadDraining => 30,
        Stage::MarkDraining => 31,
        Stage::UpdateInstallation => 32,
        Stage::LoadActive => 33,
        Stage::MarkActive => 34,
        Stage::SwapActive => 35,
        Stage::RecordDrain => 36,
        Stage::Drain => 37,
        Stage::RecordDrained => 38,
        Stage::LoadDisabled => 39,
        Stage::MarkDisabled => 40,
        Stage::Reject => 41,
        Stage::Fail => 42,
        Stage::LoadFailed => 43,
        Stage::MarkFailed => 44,
        Stage::Finished => 45,
    }
}

/// A stage on the way to service, as against one of a failure.
pub open spec fn is_main(s: Stage) -> bool {
    rank(s) <= 40
}

/// What a run has come to know.
#[derive(Debug, PartialEq, Eq)]
pub struct Facts {
    pub config: RuntimeConfig,
    pub approval: GrantApproval,
    pub target: PipelineTarget,
    pub digest: ContentDigest,
    pub byte_len: u64,
    pub surface: Option<ContractSurface>,
    pub required: Vec<CapabilityId>,
    pub descriptor: Option<GuestComponentDescriptor>,
    pub component_id: Option<ComponentId>,
    pub installation: Option<InstallationId>,
    pub grants: Vec<InstallationGrant>,
    pub wasi: Vec<WasiGrant>,
    pub manifest: Option<WebManifestData>,
    pub asset_index: usize,
    pub cached: u64,
    pub next_state: Option<ComponentLifecycleState>,
}

impl Facts {
    /// The version that the descriptor declares.
    pub open spec fn spec_version(&self) -> ComponentVersion {
        ComponentVersion {
            major: self.descriptor->0.major as u64,
            minor: self.descriptor->0.minor as u64,
            patch: self.descriptor->0.patch as u64,
        }
    }

    pub open spec fn is_install(&self) -> bool {
        self.target is Install
    }

    /// The digest in service before the run, for an upgrade or a rollback.
    pub open spec fn old_digest(&self) -> Option<ContentDigest> {
        match self.target.spec_current() {
            Some(current) => current.active_digest,
            None => None,
        }
    }

    /// The assets that the manifest lists.
    pub open spec fn asset_count(&self) -> nat {
        match self.manifest {
            Some(m) => m.assets@.len(),
            None => 0,
        }
    }

    /// The record that puts the new digest in service.
    pub open spec fn active_record(&self) -> InstallationRecord {
        InstallationRecord {
            installation_id: self.installation->0,
            component_id: self.component_id->0,
            version: self.spec_version(),
            active_digest: Some(self.digest),
            last_known_good_digest: if self.is_install() {
                Some(self.digest)
            } else {
                self.old_digest()
            },
            state: ComponentLifecycleState::Active,
        }
    }

    pub(crate) fn version(&self) -> (r: ComponentVersion)
        requires
            self.descriptor is Some,
        ensures
            r == self.spec_version(),
    {
        let d: &GuestComponentDescriptor = self.descriptor.as_ref().unwrap();
        ComponentVersion::from_parts(d.major as u64, d.minor as u64, d.patch as u64)
    }

    pub(crate) fn installs(&self) -> (r: bool)
        ensures
            r == self.is_install(),
    {
        match self.target {
            PipelineTarget::Install => true,
            _ => false,
        }
    }

    pub(crate) fn previous_digest(&self) -> (r: Option<ContentDigest>)
        ensures
            r == self.old_digest(),
    {
        match self.target.current() {
            Some(current) => current.active_digest,
            None => None,
        }
    }

    pub(crate) fn record(&self) -> (r: InstallationRecord)
        requires
            self.installation is Some,
            self.component_id is Some,
            self.descriptor is Some,
        ensures
            r == self.active_record(),
    {
        InstallationRecord {
            installation_id: self.installation.unwrap(),
            component_id: self.component_id.as_ref().unwrap().clone(),
            version: self.version(),
            active_digest: Some(self.digest),
            last_known_good_digest: if self.installs() {
                Some(self.digest)
            } else {
                self.previous_digest()
            },
            state: ComponentLifecycleState::Active,
        }
    }
}

/// How a run that was turned away or has failed will end.
#[derive(Debug, PartialEq, Eq)]
pub struct Tail {
    /// What the log is to hear.
    pub event: AuditEvent,
    /// What moves the candidate on, where one was kept.
    pub transition: Option<ComponentLifecycleEvent>,
    /// What the caller is to hear.
    pub error: ApplicationError,
}

/// What a run came to.
#[derive(Debug, PartialEq, Eq)]
pub enum PipelineResult {
    /// The digest is in service.
    Activated { installation: InstallationRecord, digest: ContentDigest },
    /// The grants at hand do not suffice; nothing was changed.
    RequiresApproval { installation: InstallationRecord, missing: Vec<CapabilityId> },
}

/// How a piece of work went.
#[derive(Debug, PartialEq, Eq)]
pub enum Reply {
    /// The audit log took an event, or not.
    Audited(Result<(), AuditError>),
    /// The registry wrote, or not.
    Stored(Result<(), RegistryError>),
    /// The runtime did its part, or not.
    Ran(Result<(), RuntimeExecutionError>),
    /// The binary's surface, and for each import what the domain's grammar says
    /// of its capability text.
    Surface(Result<(ContractSurface, Vec<Result<(), DomainError>>), RuntimeExecutionError>),
    Descriptor(Result<GuestComponentDescriptor, RuntimeExecutionError>),
    /// What the domain's grammar says of the component's identifier.
    Identity(Result<(), DomainError>),
    /// The digest that the version is bound to.
    Version(Result<Option<ContentDigest>, RegistryError>),
    Allocated(InstallationId),
    /// The candidate's next state, where it has a record: what the domain's
    /// lifecycle makes of the event.
    Candidate(Result<Option<Result<ComponentLifecycleState, DomainError>>, RegistryError>),
    Grants(Result<Vec<InstallationGrant>, GrantError>),
    /// Whether every WASI grant is valid.
    WasiChecked(Result<(), ErrorSource>),
    Manifest(Result<Option<WebManifestData>, RuntimeExecutionError>),
    /// Whether the asset that was read found room in the cache.
    AssetCached(Result<bool, RuntimeExecutionError>),
    GrantsStored(Result<(), GrantError>),
    /// Whether the version before is in the snapshot.
    Previous(bool),
    Swapped,
}

impl Reply {
    /// The reply is one to the work of `stage`.
    pub open spec fn fits(&self, stage: Stage) -> bool {
        match stage {
            Stage::Compile | Stage::Prepare | Stage::Instantiate | Stage::CheckReadiness
            | Stage::Drain => self is Ran,
            Stage::ReadSurface => self matches Reply::Surface(r) && (r matches Ok(p)
                ==> p.1@.len() == p.0.imports@.len()),
            Stage::RecordCandidate | Stage::RecordIdentity | Stage::RecordActivation
            | Stage::RecordGrants | Stage::RecordSuccess | Stage::RecordManifest | Stage::RecordDrain
            | Stage::RecordDrained | Stage::Reject | Stage::Fail => self is Audited,
            Stage::PersistArtifact | Stage::UpsertCandidate | Stage::BindVersion
            | Stage::InsertInstallation | Stage::MarkValidated | Stage::MarkActivating
            | Stage::MarkDraining | Stage::UpdateInstallation | Stage::MarkActive | Stage::MarkDisabled
            | Stage::MarkFailed => self is Stored,
            Stage::FirstDescriptor | Stage::SecondDescriptor => self is Descriptor,
            Stage::CheckIdentity => self is Identity,
            Stage::ResolveVersion => self is Version,
            Stage::AllocateInstallation => self is Allocated,
            Stage::LoadValidated | Stage::LoadActivating | Stage::LoadDraining | Stage::LoadActive
            | Stage::LoadDisabled | Stage::LoadFailed => self is Candidate,
            Stage::LoadGrants => self is Grants,
            Stage::CheckWasi => self is WasiChecked,
            Stage::ReadManifest => self is Manifest,
            Stage::CacheAsset => self is AssetCached,
            Stage::StoreGrants => self is GrantsStored,
            Stage::FindPrevious => self is Previous,
            Stage::SwapActive => self is Swapped,
            Stage::Finished => false,
        }
    }

    /// The work was done.
    pub open spec fn succeeded(&self) -> bool {
        match *self {
            Reply::Audited(r) => r is Ok,
            Reply::Stored(r) => r is Ok,
            Reply::Ran(r) => r is Ok,
            Reply::Surface(r) => r is Ok,
            Reply::Descriptor(r) => r is Ok,
            Reply::Identity(r) => r is Ok,
            Reply::Version(r) => r is Ok,
            Reply::Allocated(_) => true,
            Reply::Candidate(r) => r matches Ok(Some(Ok(_))),
            Reply::Grants(r) => r is Ok,
            Reply::WasiChecked(r) => r is Ok,
            Reply::Manifest(r) => r is Ok,
            Reply::AssetCached(r) => r is Ok,
            Reply::GrantsStored(r) => r is Ok,
            Reply::Previous(found) => found,
            Reply::Swapped => true,
        }
    }
}

/// The state that a candidate goes on to, or why it is not known.
pub open spec fn next_state_of(
    r: Result<Option<Result<ComponentLifecycleState, DomainError>>, RegistryError>,
) -> Result<ComponentLifecycleState, ApplicationError> {
    match r {
        Err(e) => Err(ApplicationError::Registry(e)),
        Ok(None) => Err(ApplicationError::Internal("candidate record missing")),
        Ok(Some(Err(e))) => Err(ApplicationError::Domain(e)),
        Ok(Some(Ok(state))) => Ok(state),
    }
}

/// One run of the pipeline.
#[derive(Debug, PartialEq, Eq)]
pub struct InstallRun {
    pub facts: Facts,
    pub stage: Stage,
    pub tail: Option<Tail>,
    pub result: Option<Result<PipelineResult, ApplicationError>>,
}

impl InstallRun {
    /// What holds of every run.
    pub open spec fn wf(&self) -> bool {
        let f = self.facts;
        let n = rank(self.stage);
        &&& f.config.drain_deadline.wf()
        &&& f.is_install() ==> f.approval is Explicit
        &&& is_main(self.stage) ==> {
            &&& n > rank(Stage::ReadSurface) ==> f.surface is Some
            &&& n > rank(Stage::FirstDescriptor) ==> f.descriptor is Some
            &&& n > rank(Stage::CheckIdentity) ==> f.component_id is Some
            &&& n > rank(Stage::AllocateInstallation) ==> f.installation is Some
            &&& n >= rank(Stage::FindPrevious) && !f.is_install() ==> (f.old_digest() is Some
                && f.old_digest() != Some(f.digest))
        }
        &&& match self.stage {
            Stage::AllocateInstallation | Stage::InsertInstallation => f.is_install(),
            Stage::LoadGrants => f.approval is ReuseExisting,
            Stage::RecordGrants | Stage::StoreGrants => f.approval is Explicit,
            Stage::MarkValidated | Stage::MarkActivating | Stage::MarkActive => f.next_state is Some,
            Stage::MarkDraining | Stage::MarkDisabled => f.next_state is Some && !f.is_install(),
            Stage::FindPrevious | Stage::LoadDraining | Stage::RecordDrain | Stage::Drain
            | Stage::RecordDrained | Stage::LoadDisabled => !f.is_install(),
            Stage::CacheAsset => f.asset_index < f.asset_count() && f.cached <= f.asset_index,
            Stage::Reject => self.tail is Some,
            Stage::Fail | Stage::LoadFailed => self.tail is Some && self.tail->0.transition is Some,
            Stage::MarkFailed => self.tail is Some && self.tail->0.transition is Some
                && f.next_state is Some,
            Stage::Finished => self.result is Some,
            _ => true,
        }
    }

    pub open spec fn at(self, stage: Stage) -> InstallRun {
        InstallRun { stage, ..self }
    }

    pub open spec fn stopped(self, error: ApplicationError) -> InstallRun {
        InstallRun { stage: Stage::Finished, result: Some(Err(error)), ..self }
    }

    pub open spec fn finished(self, result: PipelineResult) -> InstallRun {
        InstallRun { stage: Stage::Finished, result: Some(Ok(result)), ..self }
    }

    pub open spec fn rejected(self, reason: RejectReason, error: ApplicationError) -> InstallRun {
        InstallRun {
            stage: Stage::Reject,
            tail: Some(
                Tail {
                    event: AuditEvent::InstallRejected { digest: self.facts.digest, reason },
                    transition: None,
                    error,
                },
            ),
            ..self
        }
    }

    pub open spec fn failed(
        self,
        event: AuditEvent,
        transition: ComponentLifecycleEvent,
        error: ApplicationError,
    ) -> InstallRun {
        InstallRun {
            stage: Stage::Fail,
            tail: Some(Tail { event, transition: Some(transition), error }),
            ..self
        }
    }

    pub open spec fn descriptor_failed(self, reason: &'static str, error: ApplicationError) -> InstallRun {
        self.failed(
            AuditEvent::DescriptorFailed { digest: self.facts.digest, reason },
            ComponentLifecycleEvent::ValidationFailed,
            error,
        )
    }

    pub open spec fn activation_failed(self, stage: &'static str, error: ApplicationError) -> InstallRun {
        self.failed(
            AuditEvent::ActivationFailed { installation: self.facts.installation->0, stage },
            ComponentLifecycleEvent::ReadinessFailed,
            error,
        )
    }

    /// The candidate fails after its identity was established and before it is
    /// activated; no requirement was left open.
    pub open spec fn resolution_fails(self, error: ApplicationError, next: InstallRun) -> bool {
        &&& next.tail matches Some(tail)
        &&& tail.event matches AuditEvent::ResolutionFailed { installation, missing }
        &&& Some(installation) == self.facts.installation
        &&& missing@.len() == 0
        &&& next == self.failed(tail.event, ComponentLifecycleEvent::ResolutionFailed, error)
    }

    /// The run ends with the error that was set aside.
    pub open spec fn ended(self) -> InstallRun {
        InstallRun {
            stage: Stage::Finished,
            tail: None,
            result: Some(Err(self.tail->0.error)),
            ..self
        }
    }

    pub(crate) fn goto(self, stage: Stage) -> (r: InstallRun)
        ensures
            r == self.at(stage),
    {
        InstallRun { facts: self.facts, stage, tail: self.tail, result: self.result }
    }

    pub(crate) fn stop(self, error: ApplicationError) -> (r: InstallRun)
        ensures
            r == self.stopped(error),
    {
        InstallRun { facts: self.facts, stage: Stage::Finished, tail: self.tail, result: Some(Err(error)) }
    }

    pub(crate) fn finish(self, result: PipelineResult) -> (r: InstallRun)
        ensures
            r == self.finished(result),
    {
        InstallRun { facts: self.facts, stage: Stage::Finished, tail: self.tail, result: Some(Ok(result)) }
    }

    pub(crate) fn reject(self, reason: RejectReason, error: ApplicationError) -> (r: InstallRun)
        ensures
            r == self.rejected(reason, error),
    {
        let event = AuditEvent::InstallRejected { digest: self.facts.digest, reason };
        InstallRun {
            facts: self.facts,
            stage: Stage::Reject,
            tail: Some(Tail { event, transition: None, error }),
            result: self.result,
        }
    }

    pub(crate) fn fail_candidate(
        self,
        event: AuditEvent,
        transition: ComponentLifecycleEvent,
        error: ApplicationError,
    ) -> (r: InstallRun)
        ensures
            r == self.failed(event, transition, error),
    {
        InstallRun {
            facts: self.facts,
            stage: Stage::Fail,
            tail: Some(Tail { event, transition: Some(transition), error }),
            result: self.result,
        }
    }

    pub(crate) fn fail_descriptor(self, reason: &'static str, error: ApplicationError) -> (r: InstallRun)
        ensures
            r == self.descriptor_failed(reason, error),
    {
        let event = AuditEvent::DescriptorFailed { digest: self.facts.digest, reason };
        self.fail_candidate(event, ComponentLifecycleEvent::ValidationFailed, error)
    }

    pub(crate) fn fail_activating(self, stage: &'static str, error: ApplicationError) -> (r: InstallRun)
        requires
            self.facts.installation is Some,
        ensures
            r == self.activation_failed(stage, error),
    {
        let event = AuditEvent::ActivationFailed { installation: self.facts.installation.unwrap(), stage };
        self.fail_candidate(event, ComponentLifecycleEvent::ReadinessFailed, error)
    }

    pub(crate) fn fail_resolution(self, error: ApplicationError) -> (r: InstallRun)
        requires
            self.facts.installation is Some,
        ensures
            self.resolution_fails(error, r),
    {
        let event = AuditEvent::ResolutionFailed {
            installation: self.facts.installation.unwrap(),
            missing: Vec::new(),
        };
        self.fail_candidate(event, ComponentLifecycleEvent::ResolutionFailed, error)
    }

    pub(crate) fn end(self) -> (r: InstallRun)
        requires
            self.tail is Some,
        ensures
            r == self.ended(),
    {
        let tail: Tail = self.tail.unwrap();
        InstallRun {
            facts: self.facts,
            stage: Stage::Finished,
            tail: None,
            result: Some(Err(tail.error)),
        }
    }

    /// A run that has only begun.
    pub open spec fn is_fresh(
        self,
        config: RuntimeConfig,
        approval: GrantApproval,
        byte_len: u64,
        digest: ContentDigest,
        target: PipelineTarget,
    ) -> bool {
        &&& self.facts == Facts {
            config,
            approval,
            target,
            digest,
            byte_len,
            surface: None,
            required: self.facts.required,
            descriptor: None,
            component_id: None,
            installation: None,
            grants: self.facts.grants,
            wasi: self.facts.wasi,
            manifest: None,
            asset_index: 0,
            cached: 0,
            next_state: None,
        }
        &&& self.facts.required@.len() == 0
        &&& self.facts.grants@.len() == 0
        &&& self.facts.wasi@.len() == 0
        &&& self.result is None
    }

    /// Begins a run over `byte_len` bytes with this digest. It does not begin
    /// where the configuration cannot be read or is invalid, or where a fresh
    /// install brings no grants of its own; bytes over the limit are turned
    /// away.
    pub fn start(
        config: Result<RuntimeConfig, ConfigError>,
        approval: GrantApproval,
        byte_len: u64,
        digest: ContentDigest,
        target: PipelineTarget,
    ) -> (r: Result<InstallRun, ApplicationError>)
        requires
            config matches Ok(c) ==> c.drain_deadline.wf(),
        ensures
            match config {
                Err(e) => r == Err::<InstallRun, ApplicationError>(ApplicationError::ConfigSource(e)),
                Ok(c) => if c.fault() is Some {
                    r == Err::<InstallRun, ApplicationError>(ApplicationError::Config(c.fault()->0))
                } else if target is Install && approval is ReuseExisting {
                    r == Err::<InstallRun, ApplicationError>(
                        ApplicationError::GrantApprovalRequired("a fresh install requires explicit grants"),
                    )
                } else {
                    &&& r matches Ok(run)
                    &&& run.wf()
                    &&& run.is_fresh(c, approval, byte_len, digest, target)
                    &&& if byte_len > c.max_component_bytes.bytes {
                        run == run.rejected(
                            RejectReason::Oversized,
                            ApplicationError::OversizedComponent {
                                limit: c.max_component_bytes,
                                actual: ByteSize { bytes: byte_len },
                            },
                        )
                    } else {
                        run.stage == Stage::Compile && run.tail is None
                    }
                },
            },
    {
        let c: RuntimeConfig = match config {
            Err(e) => return Err(ApplicationError::ConfigSource(e)),
            Ok(c) => c,
        };
        match c.validate() {
            Err(e) => return Err(e),
            Ok(_) => {},
        }
        let fresh_install: bool = match target {
            PipelineTarget::Install => true,
            _ => false,
        };
        let reuses: bool = match approval {
            GrantApproval::ReuseExisting => true,
            GrantApproval::Explicit(_) => false,
        };
        if fresh_install && reuses {
            return Err(
                ApplicationError::GrantApprovalRequired("a fresh install requires explicit grants"),
            );
        }
        let run = InstallRun {
            facts: Facts {
                config: c,
                approval,
                target,
                digest,
                byte_len,
                surface: None,
                required: Vec::new(),
                descriptor: None,
                component_id: None,
                installation: None,
                grants: Vec::new(),
                wasi: Vec::new(),
                manifest: None,
                asset_index: 0,
                cached: 0,
                next_state: None,
            },
            stage: Stage::Compile,
            tail: None,
            result: None,
        };
        if byte_len > c.max_component_bytes.bytes {
            Ok(
                run.reject(
                    RejectReason::Oversized,
                    ApplicationError::OversizedComponent {
                        limit: c.max_component_bytes,
                        actual: ByteSize::from_bytes(byte_len),
                    },
                ),
            )
        } else {
            Ok(run)
        }
    }

    /// The audit log took the event: on to `then`. It did not: the run stops.
    pub open spec fn after_audit(self, r: Result<(), AuditError>, then: InstallRun) -> InstallRun {
        match r {
            Ok(_) => then,
            Err(e) => self.stopped(ApplicationError::Audit(e)),
        }
    }

    /// The registry wrote: on to `then`. It did not: the run stops.
    pub open spec fn after_store(self, r: Result<(), RegistryError>, then: InstallRun) -> InstallRun {
        match r {
            Ok(_) => then,
            Err(e) => self.stopped(ApplicationError::Registry(e)),
        }
    }

    /// On to `mark`, which writes the candidate's next state.
    pub open spec fn marking(self, state: ComponentLifecycleState, mark: Stage) -> InstallRun {
        InstallRun { stage: mark, facts: Facts { next_state: Some(state), ..self.facts }, ..self }
    }

    /// The candidate's next state is known: on to `mark`, which writes it. It is
    /// not: the run stops.
    pub open spec fn after_load(
        self,
        r: Result<Option<Result<ComponentLifecycleState, DomainError>>, RegistryError>,
        mark: Stage,
    ) -> InstallRun {
        match next_state_of(r) {
            Err(e) => self.stopped(e),
            Ok(state) => self.marking(state, mark),
        }
    }

    /// As [`InstallRun::after_store`] while the candidate is activated: where the
    /// registry did not write, the candidate fails.
    pub open spec fn activated(self, r: Result<(), RegistryError>, what: &'static str, then: Stage) -> InstallRun {
        match r {
            Ok(_) => self.at(then),
            Err(e) => self.activation_failed(what, ApplicationError::Registry(e)),
        }
    }

    /// As [`InstallRun::after_load`] while the candidate is activated: where the
    /// next state is not known, the candidate fails.
    pub open spec fn activating(
        self,
        r: Result<Option<Result<ComponentLifecycleState, DomainError>>, RegistryError>,
        what: &'static str,
        mark: Stage,
    ) -> InstallRun {
        match next_state_of(r) {
            Err(e) => self.activation_failed(what, e),
            Ok(state) => self.marking(state, mark),
        }
    }

    /// Service begins: at once for an install, after finding the version before
    /// for an upgrade or a rollback. Bytes already in service stay there.
    pub open spec fn entering_service(self) -> InstallRun {
        if self.facts.is_install() {
            self.at(Stage::RecordSuccess)
        } else {
            match self.facts.old_digest() {
                None => self.activation_failed(
                    "active-digest",
                    ApplicationError::Internal("active installation lacks an active digest"),
                ),
                Some(old) => if old == self.facts.digest {
                    self.finished(
                        PipelineResult::Activated {
                            installation: self.facts.target.spec_current()->0,
                            digest: self.facts.digest,
                        },
                    )
                } else {
                    self.at(Stage::FindPrevious)
                },
            }
        }
    }

    /// The assets from place `i` on are to be cached, then grants are written.
    pub open spec fn caching_from(self, i: usize) -> InstallRun {
        if i < self.facts.asset_count() {
            if self.facts.manifest->0.assets@[i as int].size > self.facts.config.max_asset_bytes.bytes {
                self.activation_failed(
                    "asset-size",
                    ApplicationError::ContractViolation("asset exceeds the host-side per-asset limit"),
                )
            } else {
                InstallRun {
                    stage: Stage::CacheAsset,
                    facts: Facts { asset_index: i, ..self.facts },
                    ..self
                }
            }
        } else if self.facts.approval is Explicit {
            self.at(Stage::RecordGrants)
        } else {
            self.entering_service()
        }
    }

    /// The grants of the run are known. Where they leave a requirement open, an
    /// explicit approval fails the candidate and a reuse asks for approval.
    pub open spec fn resolves(self, grants: Seq<InstallationGrant>, next: InstallRun) -> bool {
        let missing = install_rules::missing_of(self.facts.required@, grants);
        if missing.len() == 0 {
            &&& next == InstallRun {
                stage: Stage::CheckWasi,
                facts: Facts { grants: next.facts.grants, wasi: next.facts.wasi, ..self.facts },
                ..self
            }
            &&& next.facts.grants@ == grants
            &&& next.facts.wasi@ == install_rules::wasi_grants_of(grants)
        } else if self.facts.approval is Explicit {
            &&& next.tail matches Some(tail)
            &&& tail.event matches AuditEvent::ResolutionFailed { installation, missing: noted }
            &&& tail.error matches ApplicationError::UnresolvedImport { missing: reported }
            &&& Some(installation) == self.facts.installation
            &&& noted@ == missing
            &&& reported@ == missing
            &&& next == self.failed(tail.event, ComponentLifecycleEvent::ResolutionFailed, tail.error)
        } else {
            &&& next.result matches Some(Ok(PipelineResult::RequiresApproval { installation, missing: reported }))
            &&& Some(installation) == self.facts.target.spec_current()
            &&& reported@ == missing
            &&& next == self.finished(PipelineResult::RequiresApproval { installation, missing: reported })
        }
    }

    /// The bytes are judged and kept.
    #[verifier::opaque]
    pub open spec fn keeps_bytes(self, reply: Reply, next: InstallRun) -> bool {
        let f = self.facts;
        match (self.stage, reply) {
            (Stage::Compile, Reply::Ran(Err(e))) => next == self.rejected(
                RejectReason::InvalidBytes,
                ApplicationError::InvalidComponent(e),
            ),
            (Stage::Compile, Reply::Ran(Ok(_))) => next == self.at(Stage::ReadSurface),
            (Stage::ReadSurface, Reply::Surface(Err(e))) => next == self.stopped(
                ApplicationError::Runtime(e),
            ),
            (Stage::ReadSurface, Reply::Surface(Ok((surface, verdicts)))) => if !(surface.exports_name(
                "descriptor"@,
            ) || surface.exports_name("operune:component/descriptor@0.1.0"@)) {
                next == self.rejected(
                    RejectReason::MissingComponentDescriptor,
                    ApplicationError::ContractViolation(
                        "component must export the operune:component/descriptor interface",
                    ),
                )
            } else if next.stage == Stage::RecordCandidate {
                &&& install_rules::classifies(surface, verdicts@, Ok(next.facts.required))
                &&& next == InstallRun {
                    stage: Stage::RecordCandidate,
                    facts: Facts { surface: Some(surface), required: next.facts.required, ..f },
                    ..self
                }
            } else {
                &&& next.tail matches Some(tail)
                &&& install_rules::classifies(surface, verdicts@, Err(tail.error))
                &&& next == self.rejected(RejectReason::ContractSurface, tail.error)
            },
            (Stage::RecordCandidate, Reply::Audited(r)) => next == self.after_audit(
                r,
                self.at(Stage::PersistArtifact),
            ),
            (Stage::PersistArtifact, Reply::Stored(r)) => next == self.after_store(
                r,
                self.at(Stage::UpsertCandidate),
            ),
            (Stage::UpsertCandidate, Reply::Stored(r)) => next == self.after_store(
                r,
                self.at(Stage::FirstDescriptor),
            ),
            _ => false,
        }
    }

    /// The component's identity and version are established.
    #[verifier::opaque]
    pub open spec fn establishes_identity(self, reply: Reply, next: InstallRun) -> bool {
        let f = self.facts;
        match (self.stage, reply) {
            (Stage::FirstDescriptor, Reply::Descriptor(Err(e))) => next == self.descriptor_failed(
                "descriptor-call",
                ApplicationError::Runtime(e),
            ),
            (Stage::FirstDescriptor, Reply::Descriptor(Ok(d))) => next == InstallRun {
                stage: Stage::SecondDescriptor,
                facts: Facts { descriptor: Some(d), ..f },
                ..self
            },
            (Stage::SecondDescriptor, Reply::Descriptor(Err(e))) => next == self.descriptor_failed(
                "descriptor-call",
                ApplicationError::Runtime(e),
            ),
            (Stage::SecondDescriptor, Reply::Descriptor(Ok(d))) => if d@ == f.descriptor->0@ {
                next == self.at(Stage::CheckIdentity)
            } else {
                next == self.failed(
                    AuditEvent::DescriptorMismatch { digest: f.digest },
                    ComponentLifecycleEvent::ValidationFailed,
                    ApplicationError::DescriptorViolation(
                        "descriptor result is not deterministic (contract violation, §19.3)",
                    ),
                )
            },
            (Stage::CheckIdentity, Reply::Identity(verdict)) => match install_rules::identity_fault(
                f.descriptor->0,
                verdict,
            ) {
                Some(m) => next == self.descriptor_failed(
                    "invalid-metadata",
                    ApplicationError::DescriptorViolation(m),
                ),
                None => {
                    let id = ComponentId { text: f.descriptor->0.component_id };
                    match f.target.spec_current() {
                        Some(current) if current.component_id@ != id@ => next == self.descriptor_failed(
                            "upgrade-identity-mismatch",
                            ApplicationError::UpgradeComponentMismatch {
                                expected: current.component_id,
                                actual: id,
                            },
                        ),
                        _ => next == InstallRun {
                            stage: Stage::ResolveVersion,
                            facts: Facts { component_id: Some(id), ..f },
                            ..self
                        },
                    }
                },
            },
            (Stage::ResolveVersion, Reply::Version(Err(e))) => next == self.descriptor_failed(
                "version-lookup",
                ApplicationError::Registry(e),
            ),
            (Stage::ResolveVersion, Reply::Version(Ok(bound))) => match bound {
                Some(existing) if existing != f.digest => next == self.failed(
                    AuditEvent::VersionConflict {
                        component_id: f.component_id->0,
                        version: f.spec_version(),
                        existing,
                        incoming: f.digest,
                    },
                    ComponentLifecycleEvent::ValidationFailed,
                    ApplicationError::SupplyChainConflict {
                        component_id: f.component_id->0,
                        version: f.spec_version(),
                        existing,
                        incoming: f.digest,
                    },
                ),
                _ => match f.target.spec_current() {
                    None => next == self.at(Stage::AllocateInstallation),
                    Some(current) => next == InstallRun {
                        stage: Stage::RecordIdentity,
                        facts: Facts { installation: Some(current.installation_id), ..f },
                        ..self
                    },
                },
            },
            (Stage::AllocateInstallation, Reply::Allocated(id)) => next == InstallRun {
                stage: Stage::RecordIdentity,
                facts: Facts { installation: Some(id), ..f },
                ..self
            },
            (Stage::RecordIdentity, Reply::Audited(r)) => next == self.after_audit(
                r,
                self.at(Stage::BindVersion),
            ),
            (Stage::BindVersion, Reply::Stored(Ok(_))) => next == self.at(
                if f.is_install() {
                    Stage::InsertInstallation
                } else {
                    Stage::LoadValidated
                },
            ),
            (Stage::BindVersion, Reply::Stored(Err(e))) => match e {
                RegistryError::VersionBindingConflict { component_id, version, existing, incoming } => next
                    == self.failed(
                    AuditEvent::VersionConflict { component_id, version, existing, incoming },
                    ComponentLifecycleEvent::ValidationFailed,
                    ApplicationError::SupplyChainConflict { component_id, version, existing, incoming },
                ),
                _ => next == self.descriptor_failed("version-binding", ApplicationError::Registry(e)),
            },
            (Stage::InsertInstallation, Reply::Stored(r)) => next == match r {
                Ok(_) => self.at(Stage::LoadValidated),
                Err(e) => self.descriptor_failed("installation-record", ApplicationError::Registry(e)),
            },
            (Stage::LoadValidated, Reply::Candidate(r)) => next == match next_state_of(r) {
                Err(e) => self.descriptor_failed("candidate-state", e),
                Ok(state) => self.marking(state, Stage::MarkValidated),
            },
            (Stage::MarkValidated, Reply::Stored(Err(e))) => next == self.descriptor_failed(
                "candidate-state",
                ApplicationError::Registry(e),
            ),
            (Stage::MarkValidated, Reply::Stored(Ok(_))) => match f.approval {
                GrantApproval::Explicit(grants) => self.resolves(grants@, next),
                GrantApproval::ReuseExisting => next == self.at(Stage::LoadGrants),
            },
            _ => false,
        }
    }

    /// Grants are resolved and the candidate is linked.
    #[verifier::opaque]
    pub open spec fn resolves_grants(self, reply: Reply, next: InstallRun) -> bool {
        let f = self.facts;
        match (self.stage, reply) {
            (Stage::LoadGrants, Reply::Grants(Err(e))) => self.resolution_fails(
                ApplicationError::Grants(e),
                next,
            ),
            (Stage::LoadGrants, Reply::Grants(Ok(grants))) => self.resolves(grants@, next),
            (Stage::CheckWasi, Reply::WasiChecked(Err(e))) => self.resolution_fails(
                ApplicationError::GrantInvalid(e),
                next,
            ),
            (Stage::CheckWasi, Reply::WasiChecked(Ok(_))) => next == self.at(Stage::Prepare),
            (Stage::Prepare, Reply::Ran(Err(e))) => self.resolution_fails(
                ApplicationError::Runtime(e),
                next,
            ),
            (Stage::Prepare, Reply::Ran(Ok(_))) => next == self.at(Stage::RecordActivation),
            (Stage::RecordActivation, Reply::Audited(r)) => next == self.after_audit(
                r,
                self.at(Stage::LoadActivating),
            ),
            (Stage::LoadActivating, Reply::Candidate(r)) => match next_state_of(r) {
                Err(e) => self.resolution_fails(e, next),
                Ok(state) => next == self.marking(state, Stage::MarkActivating),
            },
            (Stage::MarkActivating, Reply::Stored(Err(e))) => self.resolution_fails(
                ApplicationError::Registry(e),
                next,
            ),
            (Stage::MarkActivating, Reply::Stored(Ok(_))) => next == self.at(Stage::Instantiate),
            _ => false,
        }
    }

    /// The candidate is brought up, its assets are cached and its grants written.
    #[verifier::opaque]
    pub open spec fn brings_up(self, reply: Reply, next: InstallRun) -> bool {
        let f = self.facts;
        match (self.stage, reply) {
            (Stage::Instantiate, Reply::Ran(Err(e))) => next == self.activation_failed(
                "instantiate",
                ApplicationError::Runtime(e),
            ),
            (Stage::Instantiate, Reply::Ran(Ok(_))) => next == self.at(Stage::CheckReadiness),
            (Stage::CheckReadiness, Reply::Ran(Err(e))) => next == self.activation_failed(
                "readiness",
                ApplicationError::Runtime(e),
            ),
            (Stage::CheckReadiness, Reply::Ran(Ok(_))) => next == self.at(Stage::ReadManifest),
            (Stage::ReadManifest, Reply::Manifest(Err(e))) => next == self.activation_failed(
                "web-manifest",
                ApplicationError::Runtime(e),
            ),
            (Stage::ReadManifest, Reply::Manifest(Ok(manifest))) => match install_rules::manifest_fault(
                manifest,
                f.surface->0,
                f.config.max_web_assets,
            ) {
                Some(m) => next == self.activation_failed(
                    "web-manifest",
                    ApplicationError::ContractViolation(m),
                ),
                None => next == InstallRun {
                    facts: Facts { manifest, cached: 0, ..f },
                    ..self
                }.caching_from(0),
            },
            (Stage::CacheAsset, Reply::AssetCached(Err(e))) => next == self.activation_failed(
                "asset-read",
                ApplicationError::Runtime(e),
            ),
            (Stage::CacheAsset, Reply::AssetCached(Ok(kept))) => next == InstallRun {
                facts: Facts { cached: (f.cached + if kept { 1int } else { 0int }) as u64, ..f },
                ..self
            }.caching_from((f.asset_index + 1) as usize),
            (Stage::RecordGrants, Reply::Audited(r)) => next == self.after_audit(
                r,
                self.at(Stage::StoreGrants),
            ),
            (Stage::StoreGrants, Reply::GrantsStored(Err(e))) => next == self.activation_failed(
                "grant-store",
                ApplicationError::Grants(e),
            ),
            (Stage::StoreGrants, Reply::GrantsStored(Ok(_))) => next == self.entering_service(),
            _ => false,
        }
    }

    /// The candidate is put in service.
    #[verifier::opaque]
    pub open spec fn puts_in_service(self, reply: Reply, next: InstallRun) -> bool {
        let f = self.facts;
        match (self.stage, reply) {
            (Stage::FindPrevious, Reply::Previous(found)) => next == if found {
                self.at(Stage::RecordSuccess)
            } else {
                self.activation_failed(
                    "previous-runtime",
                    ApplicationError::Internal("active snapshot misses the previous runtime"),
                )
            },
            (Stage::RecordSuccess, Reply::Audited(r)) => next == self.after_audit(
                r,
                self.at(Stage::RecordManifest),
            ),
            (Stage::RecordManifest, Reply::Audited(r)) => next == self.after_audit(
                r,
                self.at(
                    if f.is_install() {
                        Stage::UpdateInstallation
                    } else {
                        Stage::LoadDraining
                    },
                ),
            ),
            (Stage::LoadDraining, Reply::Candidate(r)) => next == self.activating(
                r,
                "previous-state",
                Stage::MarkDraining,
            ),
            (Stage::MarkDraining, Reply::Stored(r)) => next == self.activated(
                r,
                "previous-state",
                Stage::UpdateInstallation,
            ),
            (Stage::UpdateInstallation, Reply::Stored(r)) => next == self.activated(
                r,
                "installation-record",
                Stage::LoadActive,
            ),
            (Stage::LoadActive, Reply::Candidate(r)) => next == self.activating(
                r,
                "candidate-state",
                Stage::MarkActive,
            ),
            (Stage::MarkActive, Reply::Stored(r)) => next == self.activated(
                r,
                "candidate-state",
                Stage::SwapActive,
            ),
            _ => false,
        }
    }

    /// The snapshot is swapped and the version before retired.
    #[verifier::opaque]
    pub open spec fn retires_previous(self, reply: Reply, next: InstallRun) -> bool {
        let f = self.facts;
        match (self.stage, reply) {
            (Stage::SwapActive, Reply::Swapped) => next == if f.is_install() {
                self.finished(
                    PipelineResult::Activated { installation: f.active_record(), digest: f.digest },
                )
            } else {
                self.at(Stage::RecordDrain)
            },
            (Stage::RecordDrain, Reply::Audited(r)) => next == self.after_audit(r, self.at(Stage::Drain)),
            (Stage::Drain, Reply::Ran(Err(e))) => next == self.stopped(ApplicationError::Runtime(e)),
            (Stage::Drain, Reply::Ran(Ok(_))) => next == self.at(Stage::RecordDrained),
            (Stage::RecordDrained, Reply::Audited(r)) => next == self.after_audit(
                r,
                self.at(Stage::LoadDisabled),
            ),
            (Stage::LoadDisabled, Reply::Candidate(r)) => next == self.after_load(r, Stage::MarkDisabled),
            (Stage::MarkDisabled, Reply::Stored(r)) => next == self.after_store(
                r,
                self.finished(
                    PipelineResult::Activated { installation: f.active_record(), digest: f.digest },
                ),
            ),
            _ => false,
        }
    }

    /// A failure is recorded.
    #[verifier::opaque]
    pub open spec fn records_failure(self, reply: Reply, next: InstallRun) -> bool {
        match (self.stage, reply) {
            (Stage::Reject, Reply::Audited(r)) => next == self.after_audit(r, self.ended()),
            (Stage::Fail, Reply::Audited(r)) => next == self.after_audit(r, self.at(Stage::LoadFailed)),
            (Stage::LoadFailed, Reply::Candidate(r)) => next == self.after_load(r, Stage::MarkFailed),
            (Stage::MarkFailed, Reply::Stored(r)) => next == self.after_store(r, self.ended()),
            _ => false,
        }
    }

    /// `next` is where the run stands once it has heard `reply`.
    pub open spec fn step(self, reply: Reply, next: InstallRun) -> bool {
        let n = rank(self.stage);
        if n <= rank(Stage::UpsertCandidate) {
            self.keeps_bytes(reply, next)
        } else if n <= rank(Stage::MarkValidated) {
            self.establishes_identity(reply, next)
        } else if n <= rank(Stage::MarkActivating) {
            self.resolves_grants(reply, next)
        } else if n <= rank(Stage::StoreGrants) {
            self.brings_up(reply, next)
        } else if n <= rank(Stage::MarkActive) {
            self.puts_in_service(reply, next)
        } else if n <= rank(Stage::MarkDisabled) {
            self.retires_previous(reply, next)
        } else {
            self.records_failure(reply, next)
        }
    }
}

} // verus!
