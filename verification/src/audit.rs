//! What the audit log keeps. No event carries a secret, a configuration value,
//! a piece of state or the value of an environment variable.
use vstd::prelude::*;

use crate::model::{ActionDenied, GrantAuditShape};
use crate::values::{
    CapabilityId, ComponentId, ComponentVersion, ConfigFormat, ConfigRevision, ContentDigest,
    InstallationId, SecretName, SecretVersion, StateKey, StateSchemaVersion,
};

verus! {

/// Why bytes were turned away before anything was kept.
#[derive(Debug, Clone, Copy, PartialEq, Eq, Structural)]
pub enum RejectReason {
    Oversized,
    InvalidBytes,
    MissingComponentDescriptor,
    ContractSurface,
}

/// What happened to a component.
#[allow(inconsistent_fields)]
#[derive(Debug, PartialEq, Eq)]
pub enum AuditEvent {
    InstallRejected { digest: ContentDigest, reason: RejectReason },
    CandidatePersisted { digest: ContentDigest },
    DescriptorFailed { digest: ContentDigest, reason: &'static str },
    DescriptorMismatch { digest: ContentDigest },
    IdentityRegistered {
        installation: InstallationId,
        component_id: ComponentId,
        version: ComponentVersion,
        digest: ContentDigest,
    },
    VersionConflict {
        component_id: ComponentId,
        version: ComponentVersion,
        existing: ContentDigest,
        incoming: ContentDigest,
    },
    ResolutionFailed { installation: InstallationId, missing: Vec<CapabilityId> },
    GrantsApproved { installation: InstallationId, grants: Vec<GrantAuditShape> },
    ActivationStarted { installation: InstallationId },
    ActivationFailed { installation: InstallationId, stage: &'static str },
    ActivationSucceeded {
        installation: InstallationId,
        component_id: ComponentId,
        version: ComponentVersion,
        digest: ContentDigest,
    },
    UpgradeSwapped { installation: InstallationId, from: ContentDigest, to: ContentDigest },
    DrainStarted { installation: InstallationId, digest: ContentDigest, deadline_secs: u64 },
    DrainCompleted { installation: InstallationId, digest: ContentDigest },
    WebManifestLoaded { installation: InstallationId, assets: u64, cached: u64 },
    ActionInvoked { installation: InstallationId, version: ComponentVersion, action: String },
    ActionDenied { installation: InstallationId, action: String, reason: ActionDenied },
    Rollback { installation: InstallationId, from: ContentDigest, to: ContentDigest },
    ProviderGraphRejected { installation: InstallationId, reason: &'static str },
    GraphRecordsCommitted { installation: InstallationId },
    GraphRecordsRemoved { installation: InstallationId },
    GraphPolicyUpdated { bindings: usize, exclusions: usize },
}

/// What happened to a component's state, configuration or secrets.
#[allow(inconsistent_fields)]
#[derive(Debug, PartialEq, Eq)]
pub enum StatefulAuditEvent {
    StateRead { installation: InstallationId, key: StateKey },
    StateCasApplied { installation: InstallationId, key: StateKey },
    StateCasRejected { installation: InstallationId, key: StateKey },
    StateTxBegan { installation: InstallationId, schema_version: StateSchemaVersion },
    StateTxCommitted { installation: InstallationId, schema_version: StateSchemaVersion },
    StateTxAborted { installation: InstallationId, schema_version: StateSchemaVersion },
    StateTxPut { installation: InstallationId, key: StateKey },
    StateTxDeleted { installation: InstallationId, key: StateKey },
    StateFailed { installation: InstallationId, operation: &'static str, reason: &'static str },
    MigrationStarted { installation: InstallationId, from: StateSchemaVersion, to: StateSchemaVersion },
    MigrationCommitted { installation: InstallationId, from: StateSchemaVersion, to: StateSchemaVersion },
    MigrationRolledBack {
        installation: InstallationId,
        from: StateSchemaVersion,
        to: StateSchemaVersion,
        reason: &'static str,
    },
    MigrationFailed {
        installation: InstallationId,
        from: StateSchemaVersion,
        to: StateSchemaVersion,
        reason: &'static str,
    },
    ConfigRead { installation: InstallationId, revision: ConfigRevision },
    ConfigWritten { installation: InstallationId, revision: ConfigRevision, format: ConfigFormat },
    ConfigFailed { installation: InstallationId, operation: &'static str, reason: &'static str },
    SecretRead { installation: InstallationId, name: SecretName, version: SecretVersion },
    SecretDenied { installation: InstallationId, name: SecretName },
    SecretRotated { installation: InstallationId, name: SecretName, version: SecretVersion },
    SecretDeleted { installation: InstallationId, name: SecretName },
    SecretListed { installation: InstallationId, names: usize },
    SecretFailed { installation: InstallationId, name: Option<SecretName>, reason: &'static str },
}

} // verus!
