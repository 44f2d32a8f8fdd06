//! Installing, upgrading and rolling back, over a host in memory.
use std::collections::BTreeMap;
use std::sync::Arc;

use operune_application::active::{ActiveEntry, ActiveRuntimeRegistry};
use operune_application::audit::{AuditEvent, RejectReason};
use operune_application::error::{ApplicationError, RuntimeExecutionError};
use operune_application::guest::GuestComponentDescriptor;
use operune_application::install::{InstallRun, PipelineResult, Reply, Stage};
use operune_application::install_rules::copy_grants;
use operune_application::install_work::{Action, InstallService};
use operune_application::model::{
    ContractSurface, DigestVersionBinding, GrantApproval, GrantScope, InstallOutcome,
    InstallRequest, InstallationGrant, InstallationRecord, PipelineTarget, ResourceBudget,
    RuntimeConfig,
};
use operune_application::ports::{AuditError, ConfigError, GrantError, RegistryError};
use operune_application::values::{
    ByteSize, CapabilityId, ComponentId, ComponentLifecycleEvent as Event,
    ComponentLifecycleState as State, ComponentVersion, ContentDigest, DomainError, ErrorSource, InstallationId,
};
use operune_application::web_path::{
    WebAssetEntry, WebAssetPath, WebManifestData, WebManifestFeatures,
};

/// A digest for tests.
fn digest_of(bytes: &[u8]) -> ContentDigest {
    let mut low: u128 = 0x6c62_272e_07bb_0142_62b8_2175_6295_c58d;
    for byte in bytes {
        low ^= u128::from(*byte);
        low = low.wrapping_mul(0x0100_0000_0000_0000_0000_013b);
    }
    ContentDigest { high: bytes.len() as u128, low }
}

fn next_state(
    state: State,
    event: Event,
) -> Result<State, DomainError> {
    match (state, event) {
        (State::Installed, Event::ValidationSucceeded) => Ok(State::Validated),
        (State::Installed, Event::ValidationFailed) => Ok(State::Failed),
        (State::Validated, Event::ActivationRequested) => Ok(State::Activating),
        (State::Validated, Event::ResolutionFailed) => Ok(State::Failed),
        (State::Activating, Event::ReadinessSucceeded) => Ok(State::Active),
        (State::Activating, Event::ReadinessFailed) => Ok(State::Failed),
        (State::Active, Event::DrainStarted) => Ok(State::Draining),
        (State::Draining, Event::DrainCompleted) => Ok(State::Disabled),
        _ => Err(DomainError { message: "invalid transition".to_owned() }),
    }
}

fn descriptor(id: &str, major: u32, display_name: &str) -> GuestComponentDescriptor {
    GuestComponentDescriptor {
        component_id: id.to_owned(),
        major,
        minor: 0,
        patch: 0,
        display_name: display_name.to_owned(),
        author: None,
    }
}

fn default_descriptor() -> GuestComponentDescriptor {
    descriptor("demo", 1, "Demo")
}

fn path(text: &str) -> WebAssetPath {
    match WebAssetPath::new(text) {
        Ok(path) => path,
        Err(e) => panic!("{text}: {e:?}"),
    }
}

fn grant(capability: &str) -> InstallationGrant {
    InstallationGrant {
        capability: CapabilityId { text: capability.to_owned() },
        scope: GrantScope::Unscoped,
    }
}

fn default_config() -> RuntimeConfig {
    RuntimeConfig::with_budget(ResourceBudget {
        linear_memory: Some(ByteSize::from_bytes(67_108_864)),
        max_concurrent: 4,
        call_deadline: None,
    })
}

fn plain(bytes: &[u8]) -> InstallRequest {
    InstallRequest { bytes: bytes.to_vec(), grants: GrantApproval::Explicit(Vec::new()) }
}

fn surface(imports: &[&str], exports: &[&str]) -> (Vec<String>, Vec<String>) {
    (
        imports.iter().map(|s| (*s).to_owned()).collect(),
        exports.iter().map(|s| (*s).to_owned()).collect(),
    )
}

struct Host {
    config: RuntimeConfig,
    surface: (Vec<String>, Vec<String>),
    descriptors: Vec<GuestComponentDescriptor>,
    manifest: Option<WebManifestData>,
    assets: BTreeMap<String, Vec<u8>>,
    failing: Option<Stage>,
    candidates: Vec<(ContentDigest, State)>,
    installations: Vec<InstallationRecord>,
    bindings: Vec<DigestVersionBinding>,
    grants: Vec<(InstallationId, Vec<InstallationGrant>)>,
    active: ActiveRuntimeRegistry,
    cache: BTreeMap<(u128, String), Vec<u8>>,
    audit: Vec<AuditEvent>,
    calls: Vec<Stage>,
    persisted: Vec<ContentDigest>,
    allocated: u128,
}

fn guest_failure() -> RuntimeExecutionError {
    RuntimeExecutionError::Internal("scripted failure")
}

fn registry_failure() -> RegistryError {
    RegistryError::NotFound("scripted failure")
}

fn grant_failure() -> GrantError {
    GrantError::Storage(ErrorSource { message: "scripted failure".to_owned() })
}

impl Host {
    fn new(config: RuntimeConfig) -> Host {
        Host {
            config,
            surface: surface(&[], &["descriptor"]),
            descriptors: Vec::new(),
            manifest: None,
            assets: BTreeMap::new(),
            failing: None,
            candidates: Vec::new(),
            installations: Vec::new(),
            bindings: Vec::new(),
            grants: Vec::new(),
            active: ActiveRuntimeRegistry::new(),
            cache: BTreeMap::new(),
            audit: Vec::new(),
            calls: Vec::new(),
            persisted: Vec::new(),
            allocated: 100,
        }
    }

    fn calls(&self, stage: Stage) -> usize {
        self.calls.iter().filter(|s| **s == stage).count()
    }

    fn candidate_state(&self, digest: ContentDigest) -> Option<State> {
        self.candidates.iter().find(|(d, _)| *d == digest).map(|(_, s)| *s)
    }

    fn bound(&self, id: &str, version: ComponentVersion) -> Option<ContentDigest> {
        self.bindings
            .iter()
            .find(|b| b.component_id.as_str() == id && b.version == version)
            .map(|b| b.digest)
    }

    fn record(&self, installation: InstallationId) -> Option<&InstallationRecord> {
        self.installations.iter().find(|r| r.installation_id == installation)
    }

    fn stored_grants(&self, installation: InstallationId) -> usize {
        self.grants.iter().find(|(i, _)| *i == installation).map_or(0, |(_, g)| g.len())
    }

    fn append(&mut self, stage: Stage, event: AuditEvent) -> Reply {
        if self.failing == Some(stage) {
            return Reply::Audited(Err(AuditError::Storage(ErrorSource {
                message: "disk".to_owned(),
            })));
        }
        self.audit.push(event);
        Reply::Audited(Ok(()))
    }

    fn put_installation(&mut self, record: InstallationRecord) -> Reply {
        self.installations.retain(|r| r.installation_id != record.installation_id);
        self.installations.push(record);
        Reply::Stored(Ok(()))
    }

    fn ran(&self, stage: Stage) -> Reply {
        Reply::Ran(if self.failing == Some(stage) { Err(guest_failure()) } else { Ok(()) })
    }

    /// What the registry and the grant store say where the stage is to fail.
    fn lost(&self, stage: Stage) -> Option<Reply> {
        if self.failing != Some(stage) {
            return None;
        }
        match stage {
            Stage::BindVersion
            | Stage::InsertInstallation
            | Stage::MarkValidated
            | Stage::MarkActivating
            | Stage::MarkDraining
            | Stage::UpdateInstallation
            | Stage::MarkActive
            | Stage::MarkFailed => Some(Reply::Stored(Err(registry_failure()))),
            Stage::LoadValidated
            | Stage::LoadActivating
            | Stage::LoadDraining
            | Stage::LoadActive
            | Stage::LoadFailed => Some(Reply::Candidate(Err(registry_failure()))),
            Stage::ResolveVersion => Some(Reply::Version(Err(registry_failure()))),
            Stage::LoadGrants => Some(Reply::Grants(Err(grant_failure()))),
            Stage::StoreGrants => Some(Reply::GrantsStored(Err(grant_failure()))),
            Stage::FindPrevious => Some(Reply::Previous(false)),
            _ => None,
        }
    }

    fn perform(&mut self, stage: Stage, action: Action<'_>) -> Reply {
        if let Some(reply) = self.lost(stage) {
            return reply;
        }
        match action {
            Action::Compile
            | Action::Prepare { .. }
            | Action::Instantiate
            | Action::CheckReadiness
            | Action::Drain { .. } => self.ran(stage),
            Action::ReadSurface => {
                let (imports, exports) = &self.surface;
                let verdicts = imports.iter().map(|_| Ok(())).collect();
                let surface =
                    ContractSurface { imports: imports.clone(), exports: exports.clone() };
                Reply::Surface(Ok((surface, verdicts)))
            }
            Action::Audit(event) => self.append(stage, event),
            Action::AuditSetAside(event) => {
                let copied = copy_event(event);
                self.append(stage, copied)
            }
            Action::PersistArtifact { digest } => {
                self.persisted.push(digest);
                Reply::Stored(Ok(()))
            }
            Action::UpsertCandidate(record) => {
                self.candidates.retain(|(d, _)| *d != record.digest);
                self.candidates.push((record.digest, record.state));
                Reply::Stored(Ok(()))
            }
            Action::ReadDescriptor => Reply::Descriptor(if self.failing == Some(stage) {
                Err(guest_failure())
            } else if self.descriptors.is_empty() {
                Ok(default_descriptor())
            } else {
                Ok(self.descriptors.remove(0))
            }),
            Action::CheckIdentity(text) => Reply::Identity(if text.contains(' ') {
                Err(DomainError { message: "component id".to_owned() })
            } else {
                Ok(())
            }),
            Action::ResolveVersion { component_id, version } => {
                Reply::Version(Ok(self.bound(component_id.as_str(), version)))
            }
            Action::AllocateInstallation => {
                self.allocated += 1;
                Reply::Allocated(InstallationId { value: self.allocated })
            }
            Action::BindVersion(binding) => {
                self.bindings.push(binding);
                Reply::Stored(Ok(()))
            }
            Action::InsertInstallation(record) | Action::UpdateInstallation(record) => {
                self.put_installation(record)
            }
            Action::NextState { digest, event } => Reply::Candidate(Ok(self
                .candidate_state(digest)
                .map(|state| next_state(state, event)))),
            Action::SetState { digest, state } => {
                self.candidates.retain(|(d, _)| *d != digest);
                self.candidates.push((digest, state));
                Reply::Stored(Ok(()))
            }
            Action::LoadGrants { installation } => Reply::Grants(Ok(self
                .grants
                .iter()
                .find(|(i, _)| *i == installation)
                .map_or(Vec::new(), |(_, g)| copy_grants(g)))),
            Action::CheckWasi(_) => Reply::WasiChecked(if self.failing == Some(stage) {
                Err(ErrorSource { message: "wasi".to_owned() })
            } else {
                Ok(())
            }),
            Action::ReadManifest => Reply::Manifest(Ok(self.manifest.take())),
            Action::CacheAsset { digest, path } => {
                Reply::AssetCached(match self.assets.get(path.as_str()) {
                    None => Err(guest_failure()),
                    Some(bytes) => {
                        self.cache
                            .insert((digest.low, path.as_str().to_owned()), bytes.clone());
                        Ok(true)
                    }
                })
            }
            Action::StoreGrants { installation, grants } => {
                self.grants.retain(|(i, _)| *i != installation);
                self.grants.push((installation, copy_grants(grants)));
                Reply::GrantsStored(Ok(()))
            }
            Action::FindPrevious { installation } => {
                Reply::Previous(self.active.get(installation).is_some())
            }
            Action::SwapActive(installation) => {
                let id = installation.installation_id;
                let entry = ActiveEntry { installation, runtime: 1, manifest: None };
                self.active.swap(id, Arc::new(entry));
                Reply::Swapped
            }
            Action::Finished => panic!("the run is not finished"),
        }
    }

    fn run(
        &mut self,
        bytes: &[u8],
        grants: GrantApproval,
        target: PipelineTarget,
    ) -> Result<PipelineResult, ApplicationError> {
        let digest = digest_of(bytes);
        let mut run =
            InstallRun::start(Ok(self.config), grants, bytes.len() as u64, digest, target)?;
        while run.stage != Stage::Finished {
            let stage = run.stage;
            self.calls.push(stage);
            let reply = self.perform(stage, run.action());
            run = run.advance(reply);
        }
        run.into_result()
    }

    fn install(&mut self, request: InstallRequest) -> Result<InstallOutcome, ApplicationError> {
        InstallService::install(self.run(&request.bytes, request.grants, PipelineTarget::Install))
    }

    fn current(&self, installation: InstallationId) -> InstallationRecord {
        match self.record(installation) {
            Some(record) => record.clone(),
            None => panic!("no such installation"),
        }
    }

    fn installed(&mut self, bytes: &[u8]) -> InstallationId {
        match self.install(plain(bytes)) {
            Ok(InstallOutcome::Activated { installation, .. }) => installation,
            Err(e) => panic!("install: {e:?}"),
        }
    }
}

/// The events that are set aside hold only what is copied here.
fn copy_event(event: &AuditEvent) -> AuditEvent {
    match event {
        AuditEvent::InstallRejected { digest, reason } => {
            AuditEvent::InstallRejected { digest: *digest, reason: *reason }
        }
        AuditEvent::DescriptorFailed { digest, reason } => {
            AuditEvent::DescriptorFailed { digest: *digest, reason }
        }
        AuditEvent::DescriptorMismatch { digest } => {
            AuditEvent::DescriptorMismatch { digest: *digest }
        }
        AuditEvent::VersionConflict { component_id, version, existing, incoming } => {
            AuditEvent::VersionConflict {
                component_id: component_id.clone(),
                version: *version,
                existing: *existing,
                incoming: *incoming,
            }
        }
        AuditEvent::ResolutionFailed { installation, missing } => AuditEvent::ResolutionFailed {
            installation: *installation,
            missing: missing.iter().map(|c| c.clone()).collect(),
        },
        AuditEvent::ActivationFailed { installation, stage } => {
            AuditEvent::ActivationFailed { installation: *installation, stage }
        }
        other => panic!("not an event of a failure: {other:?}"),
    }
}

fn host() -> Host {
    Host::new(default_config())
}

#[test]
fn two_phase_install_happy_path_activates() {
    let mut h = host();
    let bytes = b"v1 bytes";
    let digest = digest_of(bytes);
    let installation = match h.install(plain(bytes)) {
        Ok(InstallOutcome::Activated { installation, version, digest: actual }) => {
            assert_eq!(version, ComponentVersion::from_parts(1, 0, 0));
            assert_eq!(actual, digest);
            installation
        }
        Err(e) => panic!("install v1: {e:?}"),
    };
    assert_eq!(h.candidate_state(digest), Some(State::Active));
    let record = h.current(installation);
    assert_eq!(record.state, State::Active);
    assert_eq!(record.active_digest, Some(digest));
    assert_eq!(record.last_known_good_digest, Some(digest));
    assert_eq!(h.bound("demo", ComponentVersion::from_parts(1, 0, 0)), Some(digest));
    assert_eq!(
        h.active.get(installation).map(|entry| entry.installation.digest),
        Some(digest)
    );
    assert_eq!(h.calls(Stage::FirstDescriptor) + h.calls(Stage::SecondDescriptor), 2);
    assert_eq!(h.calls(Stage::Compile), 1);
    assert_eq!(h.calls(Stage::Prepare), 1);
    assert_eq!(h.calls(Stage::Instantiate), 1);
    assert!(h.audit.iter().any(|e| matches!(e, AuditEvent::CandidatePersisted { .. })));
    assert!(h.audit.iter().any(|e| matches!(e, AuditEvent::IdentityRegistered { .. })));
    assert!(h.audit.iter().any(|e| matches!(e, AuditEvent::ActivationSucceeded { .. })));
    assert!(h.audit.iter().any(|e| matches!(e, AuditEvent::GrantsApproved { .. })));
}

#[test]
fn install_rejects_oversized_bytes() {
    let config =
        RuntimeConfig { max_component_bytes: ByteSize::from_bytes(8), ..default_config() };
    let mut h = Host::new(config);
    let bytes = b"123456789";
    let result = h.install(plain(bytes));
    assert_eq!(
        result,
        Err(ApplicationError::OversizedComponent {
            limit: ByteSize::from_bytes(8),
            actual: ByteSize::from_bytes(9)
        })
    );
    assert!(h.candidate_state(digest_of(bytes)).is_none());
    assert!(h.audit.iter().any(|e| matches!(
        e,
        AuditEvent::InstallRejected { reason: RejectReason::Oversized, .. }
    )));
}

#[test]
fn install_rejects_invalid_bytes() {
    let mut h = host();
    h.failing = Some(Stage::Compile);
    let result = h.install(plain(b"garbage"));
    assert!(
        matches!(result, Err(ApplicationError::InvalidComponent(_))),
        "invalid bytes must be rejected: {result:?}"
    );
    assert!(h.audit.iter().any(|e| matches!(
        e,
        AuditEvent::InstallRejected { reason: RejectReason::InvalidBytes, .. }
    )));
}

#[test]
fn install_descriptor_mismatch_quarantines() {
    let mut h = host();
    h.descriptors = vec![default_descriptor(), descriptor("demo", 1, "Different")];
    let bytes = b"bytes";
    let result = h.install(plain(bytes));
    assert!(
        matches!(result, Err(ApplicationError::DescriptorViolation(_))),
        "descriptor mismatch must be a contract violation: {result:?}"
    );
    assert_eq!(h.candidate_state(digest_of(bytes)), Some(State::Failed));
    assert!(h.active.is_empty());
    assert!(h.audit.iter().any(|e| matches!(e, AuditEvent::DescriptorMismatch { .. })));
}

#[test]
fn install_prepare_failure_fails_candidate() {
    let mut h = host();
    h.failing = Some(Stage::Prepare);
    let bytes = b"bytes";
    assert_eq!(h.install(plain(bytes)), Err(ApplicationError::Runtime(guest_failure())));
    assert_eq!(h.candidate_state(digest_of(bytes)), Some(State::Failed));
    assert!(h.active.is_empty());
    assert!(h.audit.iter().any(|e| matches!(e, AuditEvent::ResolutionFailed { .. })));
}

#[test]
fn install_readiness_failure_fails_candidate() {
    let mut h = host();
    h.failing = Some(Stage::CheckReadiness);
    let bytes = b"bytes";
    assert_eq!(h.install(plain(bytes)), Err(ApplicationError::Runtime(guest_failure())));
    assert_eq!(h.candidate_state(digest_of(bytes)), Some(State::Failed));
    assert!(h.active.is_empty());
    assert!(h.audit.iter().any(|e| matches!(e, AuditEvent::ActivationFailed { .. })));
}

#[test]
fn install_descriptor_failure_fails_candidate() {
    let mut h = host();
    h.failing = Some(Stage::FirstDescriptor);
    let bytes = b"bytes";
    assert!(h.install(plain(bytes)).is_err());
    assert_eq!(h.candidate_state(digest_of(bytes)), Some(State::Failed));
    assert!(h.active.is_empty());
    assert!(h.audit.iter().any(|e| matches!(e, AuditEvent::DescriptorFailed { .. })));
}

#[test]
fn install_denies_unknown_import() {
    let mut h = host();
    h.surface = surface(&["wasi:cli/run@0.2.0"], &["descriptor"]);
    let bytes = b"bytes";
    let result = h.install(plain(bytes));
    assert_eq!(
        result,
        Err(ApplicationError::UnresolvedImport {
            missing: vec![CapabilityId { text: "wasi:cli/run".to_owned() }]
        }),
        "ungranted import must be denied"
    );
    assert_eq!(h.candidate_state(digest_of(bytes)), Some(State::Failed));
    assert!(h.active.is_empty());
    assert!(h.audit.iter().any(|e| matches!(e, AuditEvent::ResolutionFailed { .. })));
}

#[test]
fn install_granted_import_passes_resolution() {
    let mut h = host();
    h.surface = surface(&["wasi:cli/run@0.2.0"], &["descriptor"]);
    let outcome = h.install(InstallRequest {
        bytes: b"bytes".to_vec(),
        grants: GrantApproval::Explicit(vec![grant("wasi:cli/run")]),
    });
    match outcome {
        Ok(InstallOutcome::Activated { installation, .. }) => {
            assert_eq!(h.stored_grants(installation), 1);
        }
        Err(e) => panic!("install with grant: {e:?}"),
    }
}

#[test]
fn install_supply_chain_conflict_blocked() {
    let mut h = host();
    let other_digest = digest_of(b"different bytes");
    h.bindings.push(DigestVersionBinding {
        component_id: ComponentId { text: "demo".to_owned() },
        version: ComponentVersion::from_parts(1, 0, 0),
        digest: other_digest,
    });
    let result = h.install(plain(b"v1 bytes"));
    assert!(
        matches!(result, Err(ApplicationError::SupplyChainConflict { .. })),
        "same logical version with a different digest must be blocked: {result:?}"
    );
    assert_eq!(h.bound("demo", ComponentVersion::from_parts(1, 0, 0)), Some(other_digest));
    assert!(h.active.is_empty());
    assert!(h.audit.iter().any(|e| matches!(e, AuditEvent::VersionConflict { .. })));
}

#[test]
fn install_rejects_invalid_metadata() {
    let mut h = host();
    h.descriptors = vec![descriptor("demo", 1, ""), descriptor("demo", 1, "")];
    let bytes = b"bytes";
    assert_eq!(
        h.install(plain(bytes)),
        Err(ApplicationError::DescriptorViolation(
            "display-name is empty or exceeds the host-side limit"
        ))
    );
    assert_eq!(h.candidate_state(digest_of(bytes)), Some(State::Failed));
    assert!(h.audit.iter().any(|e| matches!(e, AuditEvent::DescriptorFailed { .. })));
}

#[test]
fn install_missing_operune_descriptor_export_rejected() {
    let mut h = host();
    h.surface = surface(&[], &[]);
    let bytes = b"bytes";
    let result = h.install(plain(bytes));
    assert!(
        matches!(result, Err(ApplicationError::ContractViolation(_))),
        "missing descriptor export must be rejected: {result:?}"
    );
    assert!(h.candidate_state(digest_of(bytes)).is_none());
    assert!(h.audit.iter().any(|e| matches!(
        e,
        AuditEvent::InstallRejected { reason: RejectReason::MissingComponentDescriptor, .. }
    )));
}

#[test]
fn install_unsupported_component_to_component_import_rejected() {
    let mut h = host();
    h.surface = surface(&["acme:provider/widget@1.0.0"], &["descriptor"]);
    let result = h.install(plain(b"bytes"));
    assert_eq!(
        result,
        Err(ApplicationError::UnsupportedCapability(CapabilityId {
            text: "acme:provider/widget".to_owned()
        }))
    );
    assert!(h.active.is_empty());
}

#[test]
fn install_requires_explicit_grants() {
    let mut h = host();
    let bytes = b"bytes";
    let result = h.install(InstallRequest {
        bytes: bytes.to_vec(),
        grants: GrantApproval::ReuseExisting,
    });
    assert!(
        matches!(result, Err(ApplicationError::GrantApprovalRequired(_))),
        "fresh install must require explicit grants: {result:?}"
    );
    assert!(h.candidate_state(digest_of(bytes)).is_none());
}

#[test]
fn web_manifest_feature_mismatch_fails_activation() {
    let mut h = host();
    h.manifest = Some(WebManifestData {
        entry: path("/index.html"),
        features: WebManifestFeatures { static_assets: false, backend_actions: true },
        assets: Vec::new(),
    });
    let bytes = b"bytes";
    assert!(h.install(plain(bytes)).is_err());
    assert_eq!(h.candidate_state(digest_of(bytes)), Some(State::Failed));
    assert!(h.active.is_empty());
    assert!(h
        .audit
        .iter()
        .any(|e| matches!(e, AuditEvent::ActivationFailed { stage: "web-manifest", .. })));
}

fn one_asset(size: u64) -> Option<WebManifestData> {
    Some(WebManifestData {
        entry: path("/index.html"),
        features: WebManifestFeatures { static_assets: true, backend_actions: true },
        assets: vec![WebAssetEntry {
            path: path("/index.html"),
            size,
            content_type: Some("text/html".to_owned()),
        }],
    })
}

#[test]
fn web_asset_read_and_cache_at_activation() {
    let mut h = host();
    h.surface = surface(&[], &["descriptor", "assets", "actions"]);
    h.manifest = one_asset(5);
    h.assets.insert("/index.html".to_owned(), b"hello".to_vec());
    let bytes = b"bytes";
    let digest = digest_of(bytes);
    assert!(h.install(plain(bytes)).is_ok());
    assert_eq!(
        h.cache.get(&(digest.low, "/index.html".to_owned())),
        Some(&b"hello".to_vec())
    );
    assert_eq!(h.calls(Stage::CacheAsset), 1);
    assert!(h
        .audit
        .iter()
        .any(|e| matches!(e, AuditEvent::WebManifestLoaded { assets: 1, cached: 1, .. })));
}

#[test]
fn grant_scope_env_value_never_in_audit() {
    let mut h = host();
    let outcome = h.install(InstallRequest {
        bytes: b"bytes".to_vec(),
        grants: GrantApproval::Explicit(vec![InstallationGrant {
            capability: CapabilityId { text: "operune:env".to_owned() },
            scope: GrantScope::WasiEnv {
                key: "TOKEN".to_owned(),
                value: "super-secret-value".to_owned(),
            },
        }]),
    });
    assert!(outcome.is_ok());
    assert!(h.audit.iter().any(|e| matches!(e, AuditEvent::GrantsApproved { .. })));
    for event in &h.audit {
        let shown = format!("{event:?}");
        assert!(
            !shown.contains("super-secret-value"),
            "audit must not contain env grant values: {shown}"
        );
    }
}

#[test]
fn oversized_asset_fails_activation() {
    let mut h = host();
    h.surface = surface(&[], &["descriptor", "assets", "actions"]);
    h.manifest = one_asset(8_388_609);
    assert_eq!(
        h.install(plain(b"bytes")),
        Err(ApplicationError::ContractViolation("asset exceeds the host-side per-asset limit"))
    );
    assert_eq!(h.calls(Stage::CacheAsset), 0);
}

#[test]
fn unkept_audit_event_stops_the_run() {
    let mut h = host();
    h.failing = Some(Stage::RecordCandidate);
    let bytes = b"bytes";
    assert!(matches!(h.install(plain(bytes)), Err(ApplicationError::Audit(_))));
    assert!(h.persisted.is_empty());
    let mut h = host();
    h.failing = Some(Stage::RecordSuccess);
    assert!(matches!(h.install(plain(bytes)), Err(ApplicationError::Audit(_))));
    assert!(h.active.is_empty());
}

#[test]
fn upgrade_swaps_and_drains_the_version_before() {
    let mut h = host();
    let installation = h.installed(b"v1");
    h.descriptors = vec![descriptor("demo", 2, "Demo"), descriptor("demo", 2, "Demo")];
    let current = h.current(installation);
    let outcome = h.run(b"v2", GrantApproval::ReuseExisting, PipelineTarget::Upgrade { current });
    assert!(matches!(outcome, Ok(PipelineResult::Activated { .. })), "{outcome:?}");
    let record = h.current(installation);
    assert_eq!(record.version, ComponentVersion::from_parts(2, 0, 0));
    assert_eq!(record.active_digest, Some(digest_of(b"v2")));
    assert_eq!(record.last_known_good_digest, Some(digest_of(b"v1")));
    assert_eq!(h.candidate_state(digest_of(b"v1")), Some(State::Disabled));
    assert_eq!(h.candidate_state(digest_of(b"v2")), Some(State::Active));
    assert!(h.audit.iter().any(|e| matches!(
        e,
        AuditEvent::UpgradeSwapped { from, to, .. }
            if *from == digest_of(b"v1") && *to == digest_of(b"v2")
    )));
    assert!(h.audit.iter().any(|e| matches!(
        e,
        AuditEvent::DrainStarted { deadline_secs: 10, .. }
    )));
}

#[test]
fn upgrade_to_another_component_is_refused() {
    let mut h = host();
    let installation = h.installed(b"v1");
    h.descriptors = vec![descriptor("other", 2, "Demo"), descriptor("other", 2, "Demo")];
    let current = h.current(installation);
    let outcome = h.run(b"v2", GrantApproval::ReuseExisting, PipelineTarget::Upgrade { current });
    assert!(matches!(outcome, Err(ApplicationError::UpgradeComponentMismatch { .. })));
    assert_eq!(h.current(installation).active_digest, Some(digest_of(b"v1")));
    assert_eq!(
        h.active.get(installation).map(|e| e.installation.digest),
        Some(digest_of(b"v1"))
    );
}

#[test]
fn upgrade_that_needs_more_waits_for_approval() {
    let mut h = host();
    let installation = h.installed(b"v1");
    h.surface = surface(&["wasi:cli/run@0.2.0"], &["descriptor"]);
    h.descriptors = vec![descriptor("demo", 2, "Demo"), descriptor("demo", 2, "Demo")];
    let current = h.current(installation);
    let outcome = h.run(b"v2", GrantApproval::ReuseExisting, PipelineTarget::Upgrade { current });
    assert_eq!(
        outcome,
        Ok(PipelineResult::RequiresApproval {
            installation: h.current(installation),
            missing: vec![CapabilityId { text: "wasi:cli/run".to_owned() }]
        })
    );
    assert_eq!(h.current(installation).active_digest, Some(digest_of(b"v1")));
}

#[test]
fn failed_upgrade_leaves_the_version_in_service() {
    for stage in [Stage::Prepare, Stage::Instantiate, Stage::CheckReadiness] {
        let mut h = host();
        let installation = h.installed(b"v1");
        h.failing = Some(stage);
        h.descriptors = vec![descriptor("demo", 2, "Demo"), descriptor("demo", 2, "Demo")];
        let current = h.current(installation);
        let target = PipelineTarget::Upgrade { current };
        assert!(h.run(b"v2", GrantApproval::ReuseExisting, target).is_err());
        assert_eq!(h.candidate_state(digest_of(b"v1")), Some(State::Active));
        assert_eq!(h.candidate_state(digest_of(b"v2")), Some(State::Failed));
        assert_eq!(
            h.active.get(installation).map(|e| e.installation.digest),
            Some(digest_of(b"v1"))
        );
    }
}

#[test]
fn refused_wasi_grant_fails_the_candidate() {
    let mut h = host();
    h.failing = Some(Stage::CheckWasi);
    let bytes = b"bytes";
    let result = h.install(InstallRequest {
        bytes: bytes.to_vec(),
        grants: GrantApproval::Explicit(vec![InstallationGrant {
            capability: CapabilityId { text: "wasi:filesystem/preopens".to_owned() },
            scope: GrantScope::WasiPreopen {
                guest_path: "not absolute".to_owned(),
                host_path: "/srv".to_owned(),
                read: true,
                write: false,
            },
        }]),
    });
    assert!(matches!(result, Err(ApplicationError::GrantInvalid(_))), "{result:?}");
    assert_eq!(h.candidate_state(digest_of(bytes)), Some(State::Failed));
    assert!(h.active.is_empty());
    assert!(h.audit.iter().any(|e| matches!(
        e,
        AuditEvent::ResolutionFailed { missing, .. } if missing.is_empty()
    )));
}

#[test]
fn every_failed_step_of_an_install_fails_the_candidate() {
    for stage in [
        Stage::FirstDescriptor,
        Stage::SecondDescriptor,
        Stage::ResolveVersion,
        Stage::BindVersion,
        Stage::InsertInstallation,
        Stage::LoadValidated,
        Stage::MarkValidated,
        Stage::CheckWasi,
        Stage::Prepare,
        Stage::LoadActivating,
        Stage::MarkActivating,
        Stage::Instantiate,
        Stage::CheckReadiness,
        Stage::StoreGrants,
        Stage::UpdateInstallation,
        Stage::LoadActive,
        Stage::MarkActive,
    ] {
        let mut h = host();
        h.failing = Some(stage);
        let bytes = b"bytes";
        assert!(h.install(plain(bytes)).is_err(), "{stage:?}");
        assert_eq!(h.candidate_state(digest_of(bytes)), Some(State::Failed), "{stage:?}");
        assert!(h.active.is_empty(), "{stage:?}");
    }
}

#[test]
fn every_failed_step_of_an_upgrade_fails_the_candidate() {
    for stage in [
        Stage::ResolveVersion,
        Stage::BindVersion,
        Stage::LoadGrants,
        Stage::CheckWasi,
        Stage::FindPrevious,
        Stage::LoadDraining,
        Stage::MarkDraining,
        Stage::UpdateInstallation,
        Stage::LoadActive,
        Stage::MarkActive,
    ] {
        let mut h = host();
        let installation = h.installed(b"v1");
        h.failing = Some(stage);
        h.descriptors = vec![descriptor("demo", 2, "Demo"), descriptor("demo", 2, "Demo")];
        let current = h.current(installation);
        let target = PipelineTarget::Upgrade { current };
        assert!(h.run(b"v2", GrantApproval::ReuseExisting, target).is_err(), "{stage:?}");
        assert_eq!(h.candidate_state(digest_of(b"v2")), Some(State::Failed), "{stage:?}");
        assert_eq!(
            h.active.get(installation).map(|e| e.installation.digest),
            Some(digest_of(b"v1")),
            "{stage:?}"
        );
    }
}

#[test]
fn failed_steps_are_named_to_the_caller_and_the_log() {
    let expect = |stage: Stage, error: ApplicationError, noted: &str| {
        let mut h = host();
        h.failing = Some(stage);
        assert_eq!(h.install(plain(b"bytes")), Err(error));
        let shown = format!("{:?}", h.audit.last());
        assert!(shown.contains(noted), "{stage:?}: {shown}");
    };
    let registry = || ApplicationError::Registry(registry_failure());
    expect(Stage::ResolveVersion, registry(), "version-lookup");
    expect(Stage::BindVersion, registry(), "version-binding");
    expect(Stage::InsertInstallation, registry(), "installation-record");
    expect(Stage::LoadValidated, registry(), "candidate-state");
    expect(Stage::MarkActivating, registry(), "ResolutionFailed");
    expect(Stage::StoreGrants, ApplicationError::Grants(grant_failure()), "grant-store");
    expect(Stage::UpdateInstallation, registry(), "installation-record");
    expect(Stage::MarkActive, registry(), "candidate-state");
}

#[test]
fn version_bound_in_between_is_a_conflict() {
    let run = InstallRun::start(
        Ok(default_config()),
        GrantApproval::Explicit(Vec::new()),
        1,
        digest_of(b"x"),
        PipelineTarget::Install,
    );
    let found = ContractSurface { imports: Vec::new(), exports: vec!["descriptor".to_owned()] };
    let conflict = || RegistryError::VersionBindingConflict {
        component_id: ComponentId { text: "demo".to_owned() },
        version: ComponentVersion::from_parts(1, 0, 0),
        existing: digest_of(b"y"),
        incoming: digest_of(b"x"),
    };
    match run {
        Err(e) => panic!("start: {e:?}"),
        Ok(run) => {
            let run = run
                .advance(Reply::Ran(Ok(())))
                .advance(Reply::Surface(Ok((found, Vec::new()))))
                .advance(Reply::Audited(Ok(())))
                .advance(Reply::Stored(Ok(())))
                .advance(Reply::Stored(Ok(())))
                .advance(Reply::Descriptor(Ok(default_descriptor())))
                .advance(Reply::Descriptor(Ok(default_descriptor())))
                .advance(Reply::Identity(Ok(())))
                .advance(Reply::Version(Ok(None)))
                .advance(Reply::Allocated(InstallationId { value: 7 }))
                .advance(Reply::Audited(Ok(())))
                .advance(Reply::Stored(Err(conflict())));
            assert_eq!(run.stage, Stage::Fail);
            assert!(matches!(
                run.action(),
                Action::AuditSetAside(AuditEvent::VersionConflict { .. })
            ));
            let run = run
                .advance(Reply::Audited(Ok(())))
                .advance(Reply::Candidate(Ok(Some(Ok(State::Failed)))))
                .advance(Reply::Stored(Ok(())));
            assert!(matches!(
                run.into_result(),
                Err(ApplicationError::SupplyChainConflict { .. })
            ));
        }
    }
}

#[test]
fn mismatch_is_told_in_full() {
    let mut h = host();
    h.descriptors = vec![default_descriptor(), descriptor("demo", 1, "Different")];
    assert_eq!(
        h.install(plain(b"bytes")),
        Err(ApplicationError::DescriptorViolation(
            "descriptor result is not deterministic (contract violation, §19.3)"
        ))
    );
}

#[test]
fn rollback_goes_back() {
    let mut h = host();
    let installation = h.installed(b"v1");
    h.descriptors = vec![descriptor("demo", 2, "Demo"), descriptor("demo", 2, "Demo")];
    let current = h.current(installation);
    let target = PipelineTarget::Upgrade { current };
    assert!(h.run(b"v2", GrantApproval::ReuseExisting, target).is_ok());
    let current = h.current(installation);
    let target = PipelineTarget::Rollback { current };
    assert!(h.run(b"v1", GrantApproval::ReuseExisting, target).is_ok());
    assert_eq!(h.current(installation).active_digest, Some(digest_of(b"v1")));
    assert!(h.audit.iter().any(|e| matches!(
        e,
        AuditEvent::Rollback { from, to, .. }
            if *from == digest_of(b"v2") && *to == digest_of(b"v1")
    )));
}

#[test]
fn runs_do_not_begin_without_a_configuration() {
    let lost = ConfigError::Storage(ErrorSource { message: "gone".to_owned() });
    let run = InstallRun::start(
        Err(lost),
        GrantApproval::Explicit(Vec::new()),
        1,
        digest_of(b"x"),
        PipelineTarget::Install,
    );
    assert!(matches!(run, Err(ApplicationError::ConfigSource(_))));
    let config = RuntimeConfig { max_web_assets: 0, ..default_config() };
    let run = InstallRun::start(
        Ok(config),
        GrantApproval::Explicit(Vec::new()),
        1,
        digest_of(b"x"),
        PipelineTarget::Install,
    );
    assert!(matches!(run, Err(ApplicationError::Config("max_web_assets must be non-zero"))));
}

#[test]
fn registry_failures_stop_the_run() {
    let start = || {
        InstallRun::start(
            Ok(default_config()),
            GrantApproval::Explicit(Vec::new()),
            1,
            digest_of(b"x"),
            PipelineTarget::Install,
        )
    };
    let to_store = |run: InstallRun| {
        let exports = vec!["descriptor".to_owned()];
        let found = ContractSurface { imports: Vec::new(), exports };
        run.advance(Reply::Ran(Ok(())))
            .advance(Reply::Surface(Ok((found, Vec::new()))))
            .advance(Reply::Audited(Ok(())))
    };
    match start() {
        Err(e) => panic!("start: {e:?}"),
        Ok(run) => {
            let run = to_store(run);
            assert_eq!(run.stage, Stage::PersistArtifact);
            let run = run.advance(Reply::Stored(Err(RegistryError::NotFound("artifact"))));
            assert_eq!(
                run.into_result(),
                Err(ApplicationError::Registry(RegistryError::NotFound("artifact")))
            );
        }
    }
}
