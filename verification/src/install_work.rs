//! The work that a run of the pipeline asks for at each stage.
use vstd::prelude::*;

use crate::active::ActiveInstallation;
use crate::audit::AuditEvent;
use crate::error::ApplicationError;
use crate::install::{Facts, InstallRun, PipelineResult, Stage};
use crate::install_rules;
use crate::install_rules::audit_shapes;
use crate::model::{
    CandidateRecord, DigestVersionBinding, InstallOutcome, InstallationGrant, InstallationRecord,
    PipelineTarget, ResourceBudget, WasiGrant,
};
use crate::values::{
    ByteSize, ComponentId, ComponentLifecycleEvent, ComponentLifecycleState, ComponentVersion,
    ContentDigest, Duration, InstallationId,
};
use crate::web_path::WebAssetPath;

verus! {

/// A piece of work for the host.
#[derive(Debug, PartialEq, Eq)]
pub enum Action<'a> {
    /// Validate and compile the bytes.
    Compile,
    /// Read what the binary imports and exports, and judge the capability text
    /// of each import.
    ReadSurface,
    /// Append an event that the run has built for this stage.
    Audit(AuditEvent),
    /// Append the event that was set aside when the run failed.
    AuditSetAside(&'a AuditEvent),
    PersistArtifact { digest: ContentDigest },
    UpsertCandidate(CandidateRecord),
    ReadDescriptor,
    /// Judge the component's identifier.
    CheckIdentity(&'a str),
    ResolveVersion { component_id: &'a ComponentId, version: ComponentVersion },
    AllocateInstallation,
    BindVersion(DigestVersionBinding),
    InsertInstallation(InstallationRecord),
    /// Read the candidate's record and ask the domain's lifecycle for the state
    /// that the event leads to.
    NextState { digest: ContentDigest, event: ComponentLifecycleEvent },
    SetState { digest: ContentDigest, state: ComponentLifecycleState },
    LoadGrants { installation: InstallationId },
    CheckWasi(&'a Vec<WasiGrant>),
    Prepare { installation: InstallationId, wasi: &'a Vec<WasiGrant>, budget: ResourceBudget },
    Instantiate,
    CheckReadiness,
    ReadManifest,
    /// Read an asset from the guest and offer it to the cache.
    CacheAsset { digest: ContentDigest, path: &'a WebAssetPath },
    StoreGrants { installation: InstallationId, grants: &'a Vec<InstallationGrant> },
    FindPrevious { installation: InstallationId },
    UpdateInstallation(InstallationRecord),
    /// Put the candidate in the snapshot of what is in service.
    SwapActive(ActiveInstallation),
    /// Let the version before finish its work, within the deadline.
    Drain { deadline: Duration },
    Finished,
}

impl Facts {
    /// The record of an installation that is not yet in service.
    pub open spec fn validated_record(&self) -> InstallationRecord {
        InstallationRecord {
            installation_id: self.installation->0,
            component_id: self.component_id->0,
            version: self.spec_version(),
            active_digest: None,
            last_known_good_digest: None,
            state: ComponentLifecycleState::Validated,
        }
    }

    /// What the log hears once the candidate is ready for service.
    pub open spec fn success_event(&self) -> AuditEvent {
        match self.target {
            PipelineTarget::Install => AuditEvent::ActivationSucceeded {
                installation: self.installation->0,
                component_id: self.component_id->0,
                version: self.spec_version(),
                digest: self.digest,
            },
            PipelineTarget::Upgrade { current } => AuditEvent::UpgradeSwapped {
                installation: self.installation->0,
                from: self.old_digest()->0,
                to: self.digest,
            },
            PipelineTarget::Rollback { current } => AuditEvent::Rollback {
                installation: self.installation->0,
                from: self.old_digest()->0,
                to: self.digest,
            },
        }
    }
}

impl InstallRun {
    /// `a` is the work that the run waits for.
    pub open spec fn asks(&self, a: Action<'_>) -> bool {
        let f = self.facts;
        match self.stage {
            Stage::Compile => a is Compile,
            Stage::ReadSurface => a is ReadSurface,
            Stage::RecordCandidate => a == Action::Audit(AuditEvent::CandidatePersisted { digest: f.digest }),
            Stage::PersistArtifact => a == (Action::PersistArtifact { digest: f.digest }),
            Stage::UpsertCandidate => a == Action::UpsertCandidate(
                CandidateRecord {
                    digest: f.digest,
                    state: ComponentLifecycleState::spec_initial(),
                    byte_len: ByteSize { bytes: f.byte_len },
                },
            ),
            Stage::FirstDescriptor | Stage::SecondDescriptor => a is ReadDescriptor,
            Stage::CheckIdentity => a matches Action::CheckIdentity(t) && t@
                == f.descriptor->0.component_id@,
            Stage::ResolveVersion => a matches Action::ResolveVersion { component_id, version } && {
                &&& *component_id == f.component_id->0
                &&& version == f.spec_version()
            },
            Stage::AllocateInstallation => a is AllocateInstallation,
            Stage::RecordIdentity => a == Action::Audit(
                AuditEvent::IdentityRegistered {
                    installation: f.installation->0,
                    component_id: f.component_id->0,
                    version: f.spec_version(),
                    digest: f.digest,
                },
            ),
            Stage::BindVersion => a == Action::BindVersion(
                DigestVersionBinding {
                    component_id: f.component_id->0,
                    version: f.spec_version(),
                    digest: f.digest,
                },
            ),
            Stage::InsertInstallation => a == Action::InsertInstallation(f.validated_record()),
            Stage::LoadValidated => a == (Action::NextState {
                digest: f.digest,
                event: ComponentLifecycleEvent::ValidationSucceeded,
            }),
            Stage::LoadActivating => a == (Action::NextState {
                digest: f.digest,
                event: ComponentLifecycleEvent::ActivationRequested,
            }),
            Stage::LoadDraining => a == (Action::NextState {
                digest: f.old_digest()->0,
                event: ComponentLifecycleEvent::DrainStarted,
            }),
            Stage::LoadActive => a == (Action::NextState {
                digest: f.digest,
                event: ComponentLifecycleEvent::ReadinessSucceeded,
            }),
            Stage::LoadDisabled => a == (Action::NextState {
                digest: f.old_digest()->0,
                event: ComponentLifecycleEvent::DrainCompleted,
            }),
            Stage::LoadFailed => a == (Action::NextState {
                digest: f.digest,
                event: self.tail->0.transition->0,
            }),
            Stage::MarkValidated | Stage::MarkActivating | Stage::MarkActive | Stage::MarkFailed => a == (
            Action::SetState { digest: f.digest, state: f.next_state->0 }),
            Stage::MarkDraining | Stage::MarkDisabled => a == (Action::SetState {
                digest: f.old_digest()->0,
                state: f.next_state->0,
            }),
            Stage::LoadGrants => a == (Action::LoadGrants { installation: f.installation->0 }),
            Stage::CheckWasi => a matches Action::CheckWasi(w) && w@ == f.wasi@,
            Stage::Prepare => a matches Action::Prepare { installation, wasi, budget } && {
                &&& Some(installation) == f.installation
                &&& wasi@ == f.wasi@
                &&& budget == f.config.candidate_budget
            },
            Stage::RecordActivation => a == Action::Audit(
                AuditEvent::ActivationStarted { installation: f.installation->0 },
            ),
            Stage::Instantiate => a is Instantiate,
            Stage::CheckReadiness => a is CheckReadiness,
            Stage::ReadManifest => a is ReadManifest,
            Stage::CacheAsset => a matches Action::CacheAsset { digest, path } && {
                &&& digest == f.digest
                &&& path@ == f.manifest->0.assets@[f.asset_index as int].path@
            },
            Stage::RecordGrants => a matches Action::Audit(
                AuditEvent::GrantsApproved { installation, grants },
            ) && {
                &&& Some(installation) == f.installation
                &&& install_rules::shapes_match(grants@, f.grants@)
            },
            Stage::StoreGrants => a matches Action::StoreGrants { installation, grants } && {
                &&& Some(installation) == f.installation
                &&& grants@ == f.grants@
            },
            Stage::FindPrevious => a == (Action::FindPrevious { installation: f.installation->0 }),
            Stage::RecordSuccess => a == Action::Audit(f.success_event()),
            Stage::RecordManifest => a == Action::Audit(
                AuditEvent::WebManifestLoaded {
                    installation: f.installation->0,
                    assets: f.asset_count() as u64,
                    cached: f.cached,
                },
            ),
            Stage::UpdateInstallation => a == Action::UpdateInstallation(f.active_record()),
            Stage::SwapActive => a == Action::SwapActive(
                ActiveInstallation {
                    installation_id: f.installation->0,
                    component_id: f.component_id->0,
                    version: f.spec_version(),
                    digest: f.digest,
                },
            ),
            Stage::RecordDrain => a == Action::Audit(
                AuditEvent::DrainStarted {
                    installation: f.installation->0,
                    digest: f.old_digest()->0,
                    deadline_secs: (f.config.drain_deadline.nanos / 1_000_000_000) as u64,
                },
            ),
            Stage::Drain => a == (Action::Drain { deadline: f.config.drain_deadline }),
            Stage::RecordDrained => a == Action::Audit(
                AuditEvent::DrainCompleted { installation: f.installation->0, digest: f.old_digest()->0 },
            ),
            Stage::Reject | Stage::Fail => a matches Action::AuditSetAside(e) && *e == self.tail->0.event,
            Stage::Finished => a is Finished,
        }
    }

    /// The work that the run waits for.
    pub fn action(&self) -> (a: Action<'_>)
        requires
            self.wf(),
        ensures
            self.asks(a),
    {
        let f: &Facts = &self.facts;
        match self.stage {
            Stage::Compile => Action::Compile,
            Stage::ReadSurface => Action::ReadSurface,
            Stage::RecordCandidate => Action::Audit(AuditEvent::CandidatePersisted { digest: f.digest }),
            Stage::PersistArtifact => Action::PersistArtifact { digest: f.digest },
            Stage::UpsertCandidate => Action::UpsertCandidate(
                CandidateRecord {
                    digest: f.digest,
                    state: ComponentLifecycleState::initial(),
                    byte_len: ByteSize::from_bytes(f.byte_len),
                },
            ),
            Stage::FirstDescriptor | Stage::SecondDescriptor => Action::ReadDescriptor,
            Stage::CheckIdentity => Action::CheckIdentity(
                f.descriptor.as_ref().unwrap().component_id.as_str(),
            ),
            Stage::ResolveVersion => Action::ResolveVersion {
                component_id: f.component_id.as_ref().unwrap(),
                version: f.version(),
            },
            Stage::AllocateInstallation => Action::AllocateInstallation,
            Stage::RecordIdentity => Action::Audit(
                AuditEvent::IdentityRegistered {
                    installation: f.installation.unwrap(),
                    component_id: f.component_id.as_ref().unwrap().clone(),
                    version: f.version(),
                    digest: f.digest,
                },
            ),
            Stage::BindVersion => Action::BindVersion(
                DigestVersionBinding {
                    component_id: f.component_id.as_ref().unwrap().clone(),
                    version: f.version(),
                    digest: f.digest,
                },
            ),
            Stage::InsertInstallation => Action::InsertInstallation(
                InstallationRecord {
                    installation_id: f.installation.unwrap(),
                    component_id: f.component_id.as_ref().unwrap().clone(),
                    version: f.version(),
                    active_digest: None,
                    last_known_good_digest: None,
                    state: ComponentLifecycleState::Validated,
                },
            ),
            Stage::LoadValidated => Action::NextState {
                digest: f.digest,
                event: ComponentLifecycleEvent::ValidationSucceeded,
            },
            Stage::LoadActivating => Action::NextState {
                digest: f.digest,
                event: ComponentLifecycleEvent::ActivationRequested,
            },
            Stage::LoadDraining => Action::NextState {
                digest: f.previous_digest().unwrap(),
                event: ComponentLifecycleEvent::DrainStarted,
            },
            Stage::LoadActive => Action::NextState {
                digest: f.digest,
                event: ComponentLifecycleEvent::ReadinessSucceeded,
            },
            Stage::LoadDisabled => Action::NextState {
                digest: f.previous_digest().unwrap(),
                event: ComponentLifecycleEvent::DrainCompleted,
            },
            Stage::LoadFailed => Action::NextState {
                digest: f.digest,
                event: self.tail.as_ref().unwrap().transition.unwrap(),
            },
            Stage::MarkValidated | Stage::MarkActivating | Stage::MarkActive | Stage::MarkFailed =>
            Action::SetState { digest: f.digest, state: f.next_state.unwrap() },
            Stage::MarkDraining | Stage::MarkDisabled => Action::SetState {
                digest: f.previous_digest().unwrap(),
                state: f.next_state.unwrap(),
            },
            Stage::LoadGrants => Action::LoadGrants { installation: f.installation.unwrap() },
            Stage::CheckWasi => Action::CheckWasi(&f.wasi),
            Stage::Prepare => Action::Prepare {
                installation: f.installation.unwrap(),
                wasi: &f.wasi,
                budget: f.config.candidate_budget,
            },
            Stage::RecordActivation => Action::Audit(
                AuditEvent::ActivationStarted { installation: f.installation.unwrap() },
            ),
            Stage::Instantiate => Action::Instantiate,
            Stage::CheckReadiness => Action::CheckReadiness,
            Stage::ReadManifest => Action::ReadManifest,
            Stage::CacheAsset => Action::CacheAsset {
                digest: f.digest,
                path: &f.manifest.as_ref().unwrap().assets[f.asset_index].path,
            },
            Stage::RecordGrants => Action::Audit(
                AuditEvent::GrantsApproved {
                    installation: f.installation.unwrap(),
                    grants: audit_shapes(&f.grants),
                },
            ),
            Stage::StoreGrants => Action::StoreGrants {
                installation: f.installation.unwrap(),
                grants: &f.grants,
            },
            Stage::FindPrevious => Action::FindPrevious { installation: f.installation.unwrap() },
            Stage::RecordSuccess => {
                let installation: InstallationId = f.installation.unwrap();
                match &f.target {
                    PipelineTarget::Install => Action::Audit(
                        AuditEvent::ActivationSucceeded {
                            installation,
                            component_id: f.component_id.as_ref().unwrap().clone(),
                            version: f.version(),
                            digest: f.digest,
                        },
                    ),
                    PipelineTarget::Upgrade { .. } => Action::Audit(
                        AuditEvent::UpgradeSwapped {
                            installation,
                            from: f.previous_digest().unwrap(),
                            to: f.digest,
                        },
                    ),
                    PipelineTarget::Rollback { .. } => Action::Audit(
                        AuditEvent::Rollback {
                            installation,
                            from: f.previous_digest().unwrap(),
                            to: f.digest,
                        },
                    ),
                }
            },
            Stage::RecordManifest => {
                let assets: u64 = match &f.manifest {
                    Some(m) => m.assets.len() as u64,
                    None => 0,
                };
                Action::Audit(
                    AuditEvent::WebManifestLoaded {
                        installation: f.installation.unwrap(),
                        assets,
                        cached: f.cached,
                    },
                )
            },
            Stage::UpdateInstallation => Action::UpdateInstallation(f.record()),
            Stage::SwapActive => Action::SwapActive(
                ActiveInstallation {
                    installation_id: f.installation.unwrap(),
                    component_id: f.component_id.as_ref().unwrap().clone(),
                    version: f.version(),
                    digest: f.digest,
                },
            ),
            Stage::RecordDrain => Action::Audit(
                AuditEvent::DrainStarted {
                    installation: f.installation.unwrap(),
                    digest: f.previous_digest().unwrap(),
                    deadline_secs: f.config.drain_deadline.as_secs(),
                },
            ),
            Stage::Drain => Action::Drain { deadline: f.config.drain_deadline },
            Stage::RecordDrained => Action::Audit(
                AuditEvent::DrainCompleted {
                    installation: f.installation.unwrap(),
                    digest: f.previous_digest().unwrap(),
                },
            ),
            Stage::Reject | Stage::Fail => Action::AuditSetAside(&self.tail.as_ref().unwrap().event),
            Stage::Finished => Action::Finished,
        }
    }

    /// What a finished run came to.
    pub fn into_result(self) -> (r: Result<PipelineResult, ApplicationError>)
        requires
            self.wf(),
            self.stage == Stage::Finished,
        ensures
            Some(r) == self.result,
    {
        self.result.unwrap()
    }
}

/// Installs are told apart from upgrades by what they may come to: an install
/// never waits for approval.
pub struct InstallService {}

impl InstallService {
    /// What the caller of an install hears.
    pub fn install(outcome: Result<PipelineResult, ApplicationError>) -> (r: Result<
        InstallOutcome,
        ApplicationError,
    >)
        ensures
            match outcome {
                Err(e) => r == Err::<InstallOutcome, ApplicationError>(e),
                Ok(PipelineResult::Activated { installation, digest }) => r == Ok::<
                    InstallOutcome,
                    ApplicationError,
                >(
                    InstallOutcome::Activated {
                        installation: installation.installation_id,
                        version: installation.version,
                        digest,
                    },
                ),
                Ok(PipelineResult::RequiresApproval { installation, missing }) => r == Err::<
                    InstallOutcome,
                    ApplicationError,
                >(ApplicationError::Internal("fresh install cannot require approval")),
            },
    {
        match outcome {
            Err(e) => Err(e),
            Ok(PipelineResult::Activated { installation, digest }) => Ok(
                InstallOutcome::Activated {
                    installation: installation.installation_id,
                    version: installation.version,
                    digest,
                },
            ),
            Ok(PipelineResult::RequiresApproval { .. }) => Err(
                ApplicationError::Internal("fresh install cannot require approval"),
            ),
        }
    }
}

} // verus!
