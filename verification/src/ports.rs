//! How the host's collaborators fail: storage, the audit log, the grant store
//! and the delivery of work to guests.
use vstd::prelude::*;

use crate::values::{
    ComponentId, ComponentVersion, ContentDigest, ErrorSource, InstallationId, StateSchemaVersion,
};

verus! {

/// The audit log could not keep an event. What depends on the event must not go
/// ahead.
#[derive(Debug, PartialEq, Eq)]
pub enum AuditError {
    Storage(ErrorSource),
}

/// The host's own configuration could not be read.
#[derive(Debug, PartialEq, Eq)]
pub enum ConfigError {
    Storage(ErrorSource),
}

/// The component registry failed.
#[derive(Debug, PartialEq, Eq)]
pub enum RegistryError {
    /// A version is bound to other bytes already.
    VersionBindingConflict {
        component_id: ComponentId,
        version: ComponentVersion,
        existing: ContentDigest,
        incoming: ContentDigest,
    },
    NotFound(&'static str),
    Storage(ErrorSource),
}

/// The grant store failed.
#[derive(Debug, PartialEq, Eq)]
pub enum GrantError {
    NotFound(InstallationId),
    Storage(ErrorSource),
}

/// The store of component configurations failed.
#[derive(Debug, PartialEq, Eq)]
pub enum ConfigStoreError {
    NotFound(String),
    InvalidArgument(String),
    Corrupt(String),
    Storage(ErrorSource),
}

/// The secret store failed. No variant carries a value.
#[derive(Debug, PartialEq, Eq)]
pub enum SecretStoreError {
    NotFound(String),
    InvalidArgument(String),
    Corrupt(String),
    Storage(ErrorSource),
}

/// The state store failed.
#[derive(Debug, PartialEq, Eq)]
pub enum StateStoreError {
    NotFound(String),
    SchemaVersionMismatch { installation: InstallationId, current: Option<StateSchemaVersion>, requested: StateSchemaVersion },
    TransactionConflict(String),
    InvalidArgument(String),
    Corrupt(String),
    Storage(ErrorSource),
}

/// The store of provider graph records failed.
#[derive(Debug, PartialEq, Eq)]
pub enum GraphStoreError {
    Storage(ErrorSource),
}

/// An installation's state could not be confirmed as kept.
#[derive(Debug, PartialEq, Eq)]
pub enum CheckpointError {
    Failed(InstallationId, &'static str),
}

/// A guest's event handler failed. The event counts as consumed.
#[derive(Debug, PartialEq, Eq)]
pub enum EventDeliveryError {
    Guest(&'static str),
}

/// A guest's trigger handler failed. The trigger counts as consumed.
#[derive(Debug, PartialEq, Eq)]
pub enum SchedulerDeliveryError {
    Guest(&'static str),
}

} // verus!
