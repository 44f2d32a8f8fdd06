//! How a run of the pipeline moves on, and what it asks for.
use vstd::prelude::*;

use crate::audit::{AuditEvent, RejectReason};
use crate::error::{ApplicationError, RuntimeExecutionError};
use crate::guest::GuestComponentDescriptor;
use crate::install;
use crate::install::{InstallRun, PipelineResult, Reply, Stage};
use crate::install_rules::{
    check_identity, classify_imports, copy_capabilities, copy_grants, missing_capabilities,
    validate_manifest, wasi_grants,
};
use crate::model::{
    ContractSurface, GrantApproval, InstallationGrant, InstallationRecord, WasiGrant,
};
use crate::ports::{AuditError, RegistryError};
use crate::values::{
    CapabilityId, ComponentId, ComponentLifecycleEvent, ComponentLifecycleState, ComponentVersion,
    ContentDigest, DomainError, InstallationId,
};
use crate::web_path::WebManifestData;

verus! {

/// The state that a candidate goes on to, or why it is not known.
fn next_state(
    r: Result<Option<Result<ComponentLifecycleState, DomainError>>, RegistryError>,
) -> (state: Result<ComponentLifecycleState, ApplicationError>)
    ensures
        state == install::next_state_of(r),
{
    match r {
        Err(e) => Err(ApplicationError::Registry(e)),
        Ok(None) => Err(ApplicationError::Internal("candidate record missing")),
        Ok(Some(Err(e))) => Err(ApplicationError::Domain(e)),
        Ok(Some(Ok(state))) => Ok(state),
    }
}

impl InstallRun {
    fn audited(self, r: Result<(), AuditError>, then: Stage) -> (next: InstallRun)
        ensures
            next == self.after_audit(r, self.at(then)),
    {
        match r {
            Ok(_) => self.goto(then),
            Err(e) => self.stop(ApplicationError::Audit(e)),
        }
    }

    fn stored(self, r: Result<(), RegistryError>, then: Stage) -> (next: InstallRun)
        ensures
            next == self.after_store(r, self.at(then)),
    {
        match r {
            Ok(_) => self.goto(then),
            Err(e) => self.stop(ApplicationError::Registry(e)),
        }
    }

    fn loaded(
        self,
        r: Result<Option<Result<ComponentLifecycleState, DomainError>>, RegistryError>,
        mark: Stage,
    ) -> (next: InstallRun)
        ensures
            next == self.after_load(r, mark),
    {
        match next_state(r) {
            Err(e) => self.stop(e),
            Ok(state) => self.mark(state, mark),
        }
    }

    fn mark(self, state: ComponentLifecycleState, mark: Stage) -> (next: InstallRun)
        ensures
            next == self.marking(state, mark),
    {
        let mut run = self;
        run.facts.next_state = Some(state);
        run.stage = mark;
        run
    }

    fn stored_for_activation(self, r: Result<(), RegistryError>, what: &'static str, then: Stage) -> (next:
        InstallRun)
        requires
            self.facts.installation is Some,
        ensures
            next == self.activated(r, what, then),
    {
        match r {
            Ok(_) => self.goto(then),
            Err(e) => self.fail_activating(what, ApplicationError::Registry(e)),
        }
    }

    fn loaded_for_activation(
        self,
        r: Result<Option<Result<ComponentLifecycleState, DomainError>>, RegistryError>,
        what: &'static str,
        mark: Stage,
    ) -> (next: InstallRun)
        requires
            self.facts.installation is Some,
        ensures
            next == self.activating(r, what, mark),
    {
        match next_state(r) {
            Err(e) => self.fail_activating(what, e),
            Ok(state) => self.mark(state, mark),
        }
    }

    fn ran(self, r: Result<(), RuntimeExecutionError>, what: &'static str, then: Stage) -> (next: InstallRun)
        requires
            self.facts.installation is Some,
        ensures
            next == match r {
                Ok(_) => self.at(then),
                Err(e) => self.activation_failed(what, ApplicationError::Runtime(e)),
            },
    {
        match r {
            Ok(_) => self.goto(then),
            Err(e) => self.fail_activating(what, ApplicationError::Runtime(e)),
        }
    }

    fn on_surface(
        self,
        surface: ContractSurface,
        verdicts: Vec<Result<(), DomainError>>,
    ) -> (next: InstallRun)
        requires
            self.wf(),
            self.stage == Stage::ReadSurface,
            verdicts@.len() == surface.imports@.len(),
        ensures
            next.wf(),
            self.keeps_bytes(Reply::Surface(Ok((surface, verdicts))), next),
    {
        proof {
            reveal(InstallRun::keeps_bytes);
        }
        if !surface.exports_component_descriptor() {
            return self.reject(
                RejectReason::MissingComponentDescriptor,
                ApplicationError::ContractViolation(
                    "component must export the operune:component/descriptor interface",
                ),
            );
        }
        match classify_imports(&surface, &verdicts) {
            Err(e) => self.reject(RejectReason::ContractSurface, e),
            Ok(required) => {
                let mut run = self;
                run.facts.surface = Some(surface);
                run.facts.required = required;
                run.stage = Stage::RecordCandidate;
                run
            },
        }
    }

    fn on_second_descriptor(self, second: GuestComponentDescriptor) -> (next: InstallRun)
        requires
            self.wf(),
            self.stage == Stage::SecondDescriptor,
        ensures
            next.wf(),
            self.establishes_identity(Reply::Descriptor(Ok(second)), next),
    {
        proof {
            reveal(InstallRun::establishes_identity);
        }
        if second.same(self.facts.descriptor.as_ref().unwrap()) {
            self.goto(Stage::CheckIdentity)
        } else {
            let event = AuditEvent::DescriptorMismatch { digest: self.facts.digest };
            self.fail_candidate(
                event,
                ComponentLifecycleEvent::ValidationFailed,
                ApplicationError::DescriptorViolation(
                    "descriptor result is not deterministic (contract violation, §19.3)",
                ),
            )
        }
    }

    fn on_identity(self, verdict: Result<(), DomainError>) -> (next: InstallRun)
        requires
            self.wf(),
            self.stage == Stage::CheckIdentity,
        ensures
            next.wf(),
            self.establishes_identity(Reply::Identity(verdict), next),
    {
        proof {
            reveal(InstallRun::establishes_identity);
        }
        match check_identity(self.facts.descriptor.as_ref().unwrap(), &verdict) {
            Some(m) => {
                return self.fail_descriptor("invalid-metadata", ApplicationError::DescriptorViolation(m));
            },
            None => {},
        }
        let id = ComponentId { text: self.facts.descriptor.as_ref().unwrap().component_id.clone() };
        let expected: Option<ComponentId> = match self.facts.target.current() {
            Some(current) => if current.component_id.same(&id) {
                None
            } else {
                Some(current.component_id.clone())
            },
            None => None,
        };
        match expected {
            Some(expected) => self.fail_descriptor(
                "upgrade-identity-mismatch",
                ApplicationError::UpgradeComponentMismatch { expected, actual: id },
            ),
            None => {
                let mut run = self;
                run.facts.component_id = Some(id);
                run.stage = Stage::ResolveVersion;
                run
            },
        }
    }

    fn on_version(self, bound: Option<ContentDigest>) -> (next: InstallRun)
        requires
            self.wf(),
            self.stage == Stage::ResolveVersion,
        ensures
            next.wf(),
            self.establishes_identity(Reply::Version(Ok(bound)), next),
    {
        proof {
            reveal(InstallRun::establishes_identity);
        }
        match bound {
            Some(existing) => {
                if existing != self.facts.digest {
                    let version: ComponentVersion = self.facts.version();
                    let incoming: ContentDigest = self.facts.digest;
                    let event = AuditEvent::VersionConflict {
                        component_id: self.facts.component_id.as_ref().unwrap().clone(),
                        version,
                        existing,
                        incoming,
                    };
                    let error = ApplicationError::SupplyChainConflict {
                        component_id: self.facts.component_id.as_ref().unwrap().clone(),
                        version,
                        existing,
                        incoming,
                    };
                    return self.fail_candidate(event, ComponentLifecycleEvent::ValidationFailed, error);
                }
            },
            None => {},
        }
        let known: Option<InstallationId> = match self.facts.target.current() {
            Some(current) => Some(current.installation_id),
            None => None,
        };
        match known {
            None => self.goto(Stage::AllocateInstallation),
            Some(id) => {
                let mut run = self;
                run.facts.installation = Some(id);
                run.stage = Stage::RecordIdentity;
                run
            },
        }
    }

    fn on_bound(self, r: Result<(), RegistryError>) -> (next: InstallRun)
        requires
            self.wf(),
            self.stage == Stage::BindVersion,
        ensures
            next.wf(),
            self.establishes_identity(Reply::Stored(r), next),
    {
        proof {
            reveal(InstallRun::establishes_identity);
        }
        match r {
            Ok(_) => {
                if self.facts.installs() {
                    self.goto(Stage::InsertInstallation)
                } else {
                    self.goto(Stage::LoadValidated)
                }
            },
            Err(RegistryError::VersionBindingConflict { component_id, version, existing, incoming }) => {
                let event = AuditEvent::VersionConflict {
                    component_id: component_id.clone(),
                    version,
                    existing,
                    incoming,
                };
                self.fail_candidate(
                    event,
                    ComponentLifecycleEvent::ValidationFailed,
                    ApplicationError::SupplyChainConflict { component_id, version, existing, incoming },
                )
            },
            Err(e) => self.fail_descriptor("version-binding", ApplicationError::Registry(e)),
        }
    }

    fn on_inserted(self, r: Result<(), RegistryError>) -> (next: InstallRun)
        requires
            self.wf(),
            self.stage == Stage::InsertInstallation,
        ensures
            next.wf(),
            self.establishes_identity(Reply::Stored(r), next),
    {
        proof {
            reveal(InstallRun::establishes_identity);
        }
        match r {
            Ok(_) => self.goto(Stage::LoadValidated),
            Err(e) => self.fail_descriptor("installation-record", ApplicationError::Registry(e)),
        }
    }

    fn on_validity(
        self,
        r: Result<Option<Result<ComponentLifecycleState, DomainError>>, RegistryError>,
    ) -> (next: InstallRun)
        requires
            self.wf(),
            self.stage == Stage::LoadValidated,
        ensures
            next.wf(),
            self.establishes_identity(Reply::Candidate(r), next),
    {
        proof {
            reveal(InstallRun::establishes_identity);
        }
        match next_state(r) {
            Err(e) => self.fail_descriptor("candidate-state", e),
            Ok(state) => self.mark(state, Stage::MarkValidated),
        }
    }

    fn resolve(self, grants: Vec<InstallationGrant>) -> (next: InstallRun)
        requires
            self.wf(),
            self.stage == Stage::MarkValidated || self.stage == Stage::LoadGrants,
            self.stage == Stage::MarkValidated ==> self.facts.approval is Explicit,
        ensures
            next.wf(),
            self.resolves(grants@, next),
    {
        let missing: Vec<CapabilityId> = missing_capabilities(&self.facts.required, &grants);
        if missing.len() == 0 {
            let wasi: Vec<WasiGrant> = wasi_grants(&grants);
            let mut run = self;
            run.facts.grants = grants;
            run.facts.wasi = wasi;
            run.stage = Stage::CheckWasi;
            return run;
        }
        let explicit: bool = match self.facts.approval {
            GrantApproval::Explicit(_) => true,
            GrantApproval::ReuseExisting => false,
        };
        if explicit {
            let noted: Vec<CapabilityId> = copy_capabilities(&missing);
            let event = AuditEvent::ResolutionFailed {
                installation: self.facts.installation.unwrap(),
                missing: noted,
            };
            self.fail_candidate(
                event,
                ComponentLifecycleEvent::ResolutionFailed,
                ApplicationError::UnresolvedImport { missing },
            )
        } else {
            let installation: InstallationRecord = self.facts.target.current().unwrap().clone();
            self.finish(PipelineResult::RequiresApproval { installation, missing })
        }
    }

    fn on_validated(self) -> (next: InstallRun)
        requires
            self.wf(),
            self.stage == Stage::MarkValidated,
        ensures
            next.wf(),
            match self.facts.approval {
                GrantApproval::Explicit(grants) => self.resolves(grants@, next),
                GrantApproval::ReuseExisting => next == self.at(Stage::LoadGrants),
            },
    {
        let explicit: Option<Vec<InstallationGrant>> = match &self.facts.approval {
            GrantApproval::Explicit(grants) => Some(copy_grants(grants)),
            GrantApproval::ReuseExisting => None,
        };
        match explicit {
            Some(grants) => self.resolve(grants),
            None => self.goto(Stage::LoadGrants),
        }
    }

    fn on_prepared(self, r: Result<(), RuntimeExecutionError>) -> (next: InstallRun)
        requires
            self.wf(),
            self.stage == Stage::Prepare,
        ensures
            next.wf(),
            self.resolves_grants(Reply::Ran(r), next),
    {
        proof {
            reveal(InstallRun::resolves_grants);
        }
        match r {
            Ok(_) => self.goto(Stage::RecordActivation),
            Err(e) => self.fail_resolution(ApplicationError::Runtime(e)),
        }
    }

    fn on_activation_state(
        self,
        r: Result<Option<Result<ComponentLifecycleState, DomainError>>, RegistryError>,
    ) -> (next: InstallRun)
        requires
            self.wf(),
            self.stage == Stage::LoadActivating,
        ensures
            next.wf(),
            self.resolves_grants(Reply::Candidate(r), next),
    {
        proof {
            reveal(InstallRun::resolves_grants);
        }
        match next_state(r) {
            Err(e) => self.fail_resolution(e),
            Ok(state) => self.mark(state, Stage::MarkActivating),
        }
    }

    fn enter_service(self) -> (next: InstallRun)
        requires
            self.facts.config.drain_deadline.wf(),
            self.facts.is_install() ==> self.facts.approval is Explicit,
            self.facts.surface is Some,
            self.facts.descriptor is Some,
            self.facts.component_id is Some,
            self.facts.installation is Some,
        ensures
            next.wf(),
            next == self.entering_service(),
    {
        if self.facts.installs() {
            return self.goto(Stage::RecordSuccess);
        }
        match self.facts.previous_digest() {
            None => self.fail_activating(
                "active-digest",
                ApplicationError::Internal("active installation lacks an active digest"),
            ),
            Some(old) => {
                if old == self.facts.digest {
                    let installation: InstallationRecord = self.facts.target.current().unwrap().clone();
                    let digest: ContentDigest = self.facts.digest;
                    self.finish(PipelineResult::Activated { installation, digest })
                } else {
                    self.goto(Stage::FindPrevious)
                }
            },
        }
    }

    fn cache_from(self, i: usize) -> (next: InstallRun)
        requires
            self.facts.config.drain_deadline.wf(),
            self.facts.is_install() ==> self.facts.approval is Explicit,
            self.facts.surface is Some,
            self.facts.descriptor is Some,
            self.facts.component_id is Some,
            self.facts.installation is Some,
            self.facts.cached <= i,
        ensures
            next.wf(),
            next == self.caching_from(i),
    {
        let oversized: Option<bool> = match &self.facts.manifest {
            None => None,
            Some(m) => if i < m.assets.len() {
                Some(m.assets[i].size > self.facts.config.max_asset_bytes.bytes)
            } else {
                None
            },
        };
        match oversized {
            Some(true) => self.fail_activating(
                "asset-size",
                ApplicationError::ContractViolation("asset exceeds the host-side per-asset limit"),
            ),
            Some(false) => {
                let mut run = self;
                run.facts.asset_index = i;
                run.stage = Stage::CacheAsset;
                run
            },
            None => {
                let explicit: bool = match self.facts.approval {
                    GrantApproval::Explicit(_) => true,
                    GrantApproval::ReuseExisting => false,
                };
                if explicit {
                    self.goto(Stage::RecordGrants)
                } else {
                    self.enter_service()
                }
            },
        }
    }

    fn on_manifest(self, manifest: Option<WebManifestData>) -> (next: InstallRun)
        requires
            self.wf(),
            self.stage == Stage::ReadManifest,
        ensures
            next.wf(),
            self.brings_up(Reply::Manifest(Ok(manifest)), next),
    {
        proof {
            reveal(InstallRun::brings_up);
        }
        match validate_manifest(
            &manifest,
            self.facts.surface.as_ref().unwrap(),
            self.facts.config.max_web_assets,
        ) {
            Some(m) => self.fail_activating("web-manifest", ApplicationError::ContractViolation(m)),
            None => {
                let mut run = self;
                run.facts.manifest = manifest;
                run.facts.cached = 0;
                run.cache_from(0)
            },
        }
    }

    fn on_asset(self, r: Result<bool, RuntimeExecutionError>) -> (next: InstallRun)
        requires
            self.wf(),
            self.stage == Stage::CacheAsset,
        ensures
            next.wf(),
            self.brings_up(Reply::AssetCached(r), next),
    {
        proof {
            reveal(InstallRun::brings_up);
        }
        match r {
            Err(e) => self.fail_activating("asset-read", ApplicationError::Runtime(e)),
            Ok(kept) => {
                let count: usize = self.facts.manifest.as_ref().unwrap().assets.len();
                assert(self.facts.asset_index < count);
                let i: usize = self.facts.asset_index + 1;
                let mut run = self;
                if kept {
                    run.facts.cached = run.facts.cached + 1;
                }
                run.cache_from(i)
            },
        }
    }

    fn on_swapped(self) -> (next: InstallRun)
        requires
            self.wf(),
            self.stage == Stage::SwapActive,
        ensures
            next.wf(),
            self.retires_previous(Reply::Swapped, next),
    {
        proof {
            reveal(InstallRun::retires_previous);
        }
        if self.facts.installs() {
            let installation: InstallationRecord = self.facts.record();
            let digest: ContentDigest = self.facts.digest;
            self.finish(PipelineResult::Activated { installation, digest })
        } else {
            self.goto(Stage::RecordDrain)
        }
    }

    fn on_disabled(self, r: Result<(), RegistryError>) -> (next: InstallRun)
        requires
            self.wf(),
            self.stage == Stage::MarkDisabled,
        ensures
            next.wf(),
            self.retires_previous(Reply::Stored(r), next),
    {
        proof {
            reveal(InstallRun::retires_previous);
        }
        match r {
            Err(e) => self.stop(ApplicationError::Registry(e)),
            Ok(_) => {
                let installation: InstallationRecord = self.facts.record();
                let digest: ContentDigest = self.facts.digest;
                self.finish(PipelineResult::Activated { installation, digest })
            },
        }
    }

    /// The part of the pipeline that takes the bytes in.
    fn keep_bytes(self, reply: Reply) -> (next: InstallRun)
        requires
            self.wf(),
            reply.fits(self.stage),
            install::rank(Stage::Compile) <= install::rank(self.stage) <= install::rank(Stage::UpsertCandidate),
        ensures
            next.wf(),
            self.keeps_bytes(reply, next),
    {
        proof {
            reveal(InstallRun::keeps_bytes);
        }
        match (self.stage, reply) {
            (Stage::Compile, Reply::Ran(Err(e))) => self.reject(
                RejectReason::InvalidBytes,
                ApplicationError::InvalidComponent(e),
            ),
            (Stage::Compile, Reply::Ran(Ok(_))) => self.goto(Stage::ReadSurface),
            (Stage::ReadSurface, Reply::Surface(Err(e))) => self.stop(ApplicationError::Runtime(e)),
            (Stage::ReadSurface, Reply::Surface(Ok((surface, verdicts)))) => self.on_surface(
                surface,
                verdicts,
            ),
            (Stage::RecordCandidate, Reply::Audited(r)) => self.audited(r, Stage::PersistArtifact),
            (Stage::PersistArtifact, Reply::Stored(r)) => self.stored(r, Stage::UpsertCandidate),
            (Stage::UpsertCandidate, Reply::Stored(r)) => self.stored(r, Stage::FirstDescriptor),
            _ => {
                assert(false);
                self
            },
        }
    }

    /// The part of the pipeline that establishes who the component is.
    fn establish_identity(self, reply: Reply) -> (next: InstallRun)
        requires
            self.wf(),
            reply.fits(self.stage),
            install::rank(Stage::FirstDescriptor) <= install::rank(self.stage) <= install::rank(Stage::MarkValidated),
        ensures
            next.wf(),
            self.establishes_identity(reply, next),
    {
        proof {
            reveal(InstallRun::establishes_identity);
        }
        match (self.stage, reply) {
            (Stage::FirstDescriptor, Reply::Descriptor(Err(e))) => self.fail_descriptor(
                "descriptor-call",
                ApplicationError::Runtime(e),
            ),
            (Stage::FirstDescriptor, Reply::Descriptor(Ok(d))) => {
                let mut run = self;
                run.facts.descriptor = Some(d);
                run.stage = Stage::SecondDescriptor;
                run
            },
            (Stage::SecondDescriptor, Reply::Descriptor(Err(e))) => self.fail_descriptor(
                "descriptor-call",
                ApplicationError::Runtime(e),
            ),
            (Stage::SecondDescriptor, Reply::Descriptor(Ok(d))) => self.on_second_descriptor(d),
            (Stage::CheckIdentity, Reply::Identity(verdict)) => self.on_identity(verdict),
            (Stage::ResolveVersion, Reply::Version(Err(e))) => self.fail_descriptor(
                "version-lookup",
                ApplicationError::Registry(e),
            ),
            (Stage::ResolveVersion, Reply::Version(Ok(bound))) => self.on_version(bound),
            (Stage::AllocateInstallation, Reply::Allocated(id)) => {
                let mut run = self;
                run.facts.installation = Some(id);
                run.stage = Stage::RecordIdentity;
                run
            },
            (Stage::RecordIdentity, Reply::Audited(r)) => self.audited(r, Stage::BindVersion),
            (Stage::BindVersion, Reply::Stored(r)) => self.on_bound(r),
            (Stage::InsertInstallation, Reply::Stored(r)) => self.on_inserted(r),
            (Stage::LoadValidated, Reply::Candidate(r)) => self.on_validity(r),
            (Stage::MarkValidated, Reply::Stored(Err(e))) => self.fail_descriptor(
                "candidate-state",
                ApplicationError::Registry(e),
            ),
            (Stage::MarkValidated, Reply::Stored(Ok(_))) => self.on_validated(),
            _ => {
                assert(false);
                self
            },
        }
    }

    /// The part of the pipeline that resolves grants and links the candidate.
    fn resolve_grants(self, reply: Reply) -> (next: InstallRun)
        requires
            self.wf(),
            reply.fits(self.stage),
            install::rank(Stage::LoadGrants) <= install::rank(self.stage) <= install::rank(Stage::MarkActivating),
        ensures
            next.wf(),
            self.resolves_grants(reply, next),
    {
        proof {
            reveal(InstallRun::resolves_grants);
        }
        match (self.stage, reply) {
            (Stage::LoadGrants, Reply::Grants(Err(e))) => self.fail_resolution(ApplicationError::Grants(e)),
            (Stage::LoadGrants, Reply::Grants(Ok(grants))) => self.resolve(grants),
            (Stage::CheckWasi, Reply::WasiChecked(Err(e))) => self.fail_resolution(
                ApplicationError::GrantInvalid(e),
            ),
            (Stage::CheckWasi, Reply::WasiChecked(Ok(_))) => self.goto(Stage::Prepare),
            (Stage::Prepare, Reply::Ran(r)) => self.on_prepared(r),
            (Stage::RecordActivation, Reply::Audited(r)) => self.audited(r, Stage::LoadActivating),
            (Stage::LoadActivating, Reply::Candidate(r)) => self.on_activation_state(r),
            (Stage::MarkActivating, Reply::Stored(Err(e))) => self.fail_resolution(
                ApplicationError::Registry(e),
            ),
            (Stage::MarkActivating, Reply::Stored(Ok(_))) => self.goto(Stage::Instantiate),
            _ => {
                assert(false);
                self
            },
        }
    }

    /// The part of the pipeline that brings the candidate up.
    fn bring_up(self, reply: Reply) -> (next: InstallRun)
        requires
            self.wf(),
            reply.fits(self.stage),
            install::rank(Stage::Instantiate) <= install::rank(self.stage) <= install::rank(Stage::StoreGrants),
        ensures
            next.wf(),
            self.brings_up(reply, next),
    {
        proof {
            reveal(InstallRun::brings_up);
        }
        match (self.stage, reply) {
            (Stage::Instantiate, Reply::Ran(r)) => self.ran(r, "instantiate", Stage::CheckReadiness),
            (Stage::CheckReadiness, Reply::Ran(r)) => self.ran(r, "readiness", Stage::ReadManifest),
            (Stage::ReadManifest, Reply::Manifest(Err(e))) => self.fail_activating(
                "web-manifest",
                ApplicationError::Runtime(e),
            ),
            (Stage::ReadManifest, Reply::Manifest(Ok(manifest))) => self.on_manifest(manifest),
            (Stage::CacheAsset, Reply::AssetCached(r)) => self.on_asset(r),
            (Stage::RecordGrants, Reply::Audited(r)) => self.audited(r, Stage::StoreGrants),
            (Stage::StoreGrants, Reply::GrantsStored(Err(e))) => self.fail_activating(
                "grant-store",
                ApplicationError::Grants(e),
            ),
            (Stage::StoreGrants, Reply::GrantsStored(Ok(_))) => self.enter_service(),
            _ => {
                assert(false);
                self
            },
        }
    }

    /// The part of the pipeline that puts the candidate in service.
    fn put_in_service(self, reply: Reply) -> (next: InstallRun)
        requires
            self.wf(),
            reply.fits(self.stage),
            install::rank(Stage::FindPrevious) <= install::rank(self.stage) <= install::rank(Stage::MarkActive),
        ensures
            next.wf(),
            self.puts_in_service(reply, next),
    {
        proof {
            reveal(InstallRun::puts_in_service);
        }
        match (self.stage, reply) {
            (Stage::FindPrevious, Reply::Previous(found)) => if found {
                self.goto(Stage::RecordSuccess)
            } else {
                self.fail_activating(
                    "previous-runtime",
                    ApplicationError::Internal("active snapshot misses the previous runtime"),
                )
            },
            (Stage::RecordSuccess, Reply::Audited(r)) => self.audited(r, Stage::RecordManifest),
            (Stage::RecordManifest, Reply::Audited(r)) => {
                let then: Stage = if self.facts.installs() {
                    Stage::UpdateInstallation
                } else {
                    Stage::LoadDraining
                };
                self.audited(r, then)
            },
            (Stage::LoadDraining, Reply::Candidate(r)) => self.loaded_for_activation(
                r,
                "previous-state",
                Stage::MarkDraining,
            ),
            (Stage::MarkDraining, Reply::Stored(r)) => self.stored_for_activation(
                r,
                "previous-state",
                Stage::UpdateInstallation,
            ),
            (Stage::UpdateInstallation, Reply::Stored(r)) => self.stored_for_activation(
                r,
                "installation-record",
                Stage::LoadActive,
            ),
            (Stage::LoadActive, Reply::Candidate(r)) => self.loaded_for_activation(
                r,
                "candidate-state",
                Stage::MarkActive,
            ),
            (Stage::MarkActive, Reply::Stored(r)) => self.stored_for_activation(
                r,
                "candidate-state",
                Stage::SwapActive,
            ),
            _ => {
                assert(false);
                self
            },
        }
    }

    /// The part of the pipeline that swaps the snapshot and retires the version before.
    fn retire_previous(self, reply: Reply) -> (next: InstallRun)
        requires
            self.wf(),
            reply.fits(self.stage),
            install::rank(Stage::SwapActive) <= install::rank(self.stage) <= install::rank(Stage::MarkDisabled),
        ensures
            next.wf(),
            self.retires_previous(reply, next),
    {
        proof {
            reveal(InstallRun::retires_previous);
        }
        match (self.stage, reply) {
            (Stage::SwapActive, Reply::Swapped) => self.on_swapped(),
            (Stage::RecordDrain, Reply::Audited(r)) => self.audited(r, Stage::Drain),
            (Stage::Drain, Reply::Ran(Err(e))) => self.stop(ApplicationError::Runtime(e)),
            (Stage::Drain, Reply::Ran(Ok(_))) => self.goto(Stage::RecordDrained),
            (Stage::RecordDrained, Reply::Audited(r)) => self.audited(r, Stage::LoadDisabled),
            (Stage::LoadDisabled, Reply::Candidate(r)) => self.loaded(r, Stage::MarkDisabled),
            (Stage::MarkDisabled, Reply::Stored(r)) => self.on_disabled(r),
            _ => {
                assert(false);
                self
            },
        }
    }

    /// The part of the pipeline that records a failure.
    fn record_failure(self, reply: Reply) -> (next: InstallRun)
        requires
            self.wf(),
            reply.fits(self.stage),
            install::rank(Stage::Reject) <= install::rank(self.stage) <= install::rank(Stage::MarkFailed),
        ensures
            next.wf(),
            self.records_failure(reply, next),
    {
        proof {
            reveal(InstallRun::records_failure);
        }
        match (self.stage, reply) {
            (Stage::Reject, Reply::Audited(Ok(_))) => self.end(),
            (Stage::Reject, Reply::Audited(Err(e))) => self.stop(ApplicationError::Audit(e)),
            (Stage::Fail, Reply::Audited(r)) => self.audited(r, Stage::LoadFailed),
            (Stage::LoadFailed, Reply::Candidate(r)) => self.loaded(r, Stage::MarkFailed),
            (Stage::MarkFailed, Reply::Stored(Ok(_))) => self.end(),
            (Stage::MarkFailed, Reply::Stored(Err(e))) => self.stop(ApplicationError::Registry(e)),
            _ => {
                assert(false);
                self
            },
        }
    }

    /// The run after it has heard how its work went.
    pub fn advance(self, reply: Reply) -> (next: InstallRun)
        requires
            self.wf(),
            reply.fits(self.stage),
        ensures
            next.wf(),
            self.step(reply, next),
    {
        match self.stage {
            Stage::Compile | Stage::ReadSurface | Stage::RecordCandidate | Stage::PersistArtifact | Stage::UpsertCandidate => self.keep_bytes(reply),
            Stage::FirstDescriptor | Stage::SecondDescriptor | Stage::CheckIdentity | Stage::ResolveVersion | Stage::AllocateInstallation | Stage::RecordIdentity | Stage::BindVersion | Stage::InsertInstallation | Stage::LoadValidated | Stage::MarkValidated => self.establish_identity(reply),
            Stage::LoadGrants | Stage::CheckWasi | Stage::Prepare | Stage::RecordActivation | Stage::LoadActivating | Stage::MarkActivating => self.resolve_grants(reply),
            Stage::Instantiate | Stage::CheckReadiness | Stage::ReadManifest | Stage::CacheAsset | Stage::RecordGrants | Stage::StoreGrants => self.bring_up(reply),
            Stage::FindPrevious | Stage::RecordSuccess | Stage::RecordManifest | Stage::LoadDraining | Stage::MarkDraining | Stage::UpdateInstallation | Stage::LoadActive | Stage::MarkActive => self.put_in_service(reply),
            Stage::SwapActive | Stage::RecordDrain | Stage::Drain | Stage::RecordDrained | Stage::LoadDisabled | Stage::MarkDisabled => self.retire_previous(reply),
            Stage::Reject | Stage::Fail | Stage::LoadFailed | Stage::MarkFailed => self.record_failure(reply),
            Stage::Finished => {
                assert(false);
                self
            },
        }
    }
}

} // verus!
