//! How use cases fail.
use vstd::prelude::*;

use crate::composition::{ProviderGraphError, UpgradeCompatibilityReport};
use crate::contract::ContractValueError;
use crate::graph::GraphPolicyError;
use crate::guest::{GuestDescriptorError, GuestStateDeclarationError};
use crate::migration::MigrationError;
use crate::model::ActionDenied;
use crate::ports::{
    AuditError, ConfigError, GrantError, GraphStoreError, RegistryError, StateStoreError,
};
use crate::values::{
    ByteSize, CapabilityId, ComponentId, ComponentLifecycleState, ComponentVersion, ContentDigest,
    DomainError, ErrorSource, InstallationId, StateSchemaVersion,
};
use crate::web_app_guest::GuestAppDescriptorError;

verus! {

/// Why a call into a guest did not give a result.
#[derive(Debug, PartialEq, Eq)]
pub enum RuntimeExecutionError {
    /// The runtime itself failed.
    Runtime(ErrorSource),
    /// The component lacks an export that the call needs.
    MissingOperuneExport(&'static str),
    /// The guest's value breaks the contract.
    MalformedGuestData(ContractValueError),
    GuestDescriptorError(GuestDescriptorError),
    GuestStateDeclarationError(GuestStateDeclarationError),
    GuestAppDescriptorError(GuestAppDescriptorError),
    GuestWebError(&'static str),
    DeadlineExceeded,
    ConfigUnavailable,
    /// Every instance is taken.
    Busy,
    ResponseTooLarge,
    /// Grants reach into WASI, which this host does not link.
    WasiIntegrationUnavailable,
    Internal(&'static str),
}

/// Why a use case failed.
#[allow(inconsistent_fields)]
#[derive(Debug, PartialEq, Eq)]
pub enum ApplicationError {
    Domain(DomainError),
    OversizedComponent { limit: ByteSize, actual: ByteSize },
    InvalidComponent(RuntimeExecutionError),
    ContractViolation(&'static str),
    DescriptorViolation(&'static str),
    SupplyChainConflict {
        component_id: ComponentId,
        version: ComponentVersion,
        existing: ContentDigest,
        incoming: ContentDigest,
    },
    UnresolvedImport { missing: Vec<CapabilityId> },
    UnsupportedCapability(CapabilityId),
    InstallationNotFound(InstallationId),
    NotActive(InstallationId),
    UpgradeComponentMismatch { expected: ComponentId, actual: ComponentId },
    RollbackUnavailable(ContentDigest),
    NoRollbackTarget(InstallationId),
    GrantInvalid(ErrorSource),
    Registry(RegistryError),
    Grants(GrantError),
    Audit(AuditError),
    ConfigSource(ConfigError),
    Config(&'static str),
    Runtime(RuntimeExecutionError),
    InvalidWebAssetPath(&'static str),
    InvalidActionName(&'static str),
    ActionDenied(ActionDenied),
    NotActiveForWeb(InstallationId),
    GrantApprovalRequired(&'static str),
    ProviderGraphResolution { source: ProviderGraphError },
    ProviderGraphPolicy(GraphPolicyError),
    ProviderUpgradeIncompatible { installation: InstallationId, report: UpgradeCompatibilityReport },
    UnresolvableImport(String),
    GraphStore(GraphStoreError),
    StateSchemaDowngrade { installation: InstallationId, stored: StateSchemaVersion, declared: StateSchemaVersion },
    StateMigrationRejected { installation: InstallationId, from: StateSchemaVersion, to: StateSchemaVersion, reason: &'static str },
    StateMigration(MigrationError),
    StateStore(StateStoreError),
    ProviderHasConsumers { installation: InstallationId, consumers: Vec<InstallationId> },
    EnableInvalidState { installation: InstallationId, state: ComponentLifecycleState },
    EnableRequiresApproval { installation: InstallationId, missing: Vec<CapabilityId> },
    BackgroundStop(ErrorSource),
    ArtifactUnavailable(ContentDigest),
    Internal(&'static str),
}

} // verus!
