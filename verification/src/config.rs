//! A component's configuration, as the guest reads it and the administrator
//! writes it.
//!
//! Each operation is answered in two steps. From what the store said it makes an
//! audit event and the answer that is due; [`ConfigAnswer::settle`] gives the
//! answer out once the event is kept.
use vstd::prelude::*;

use crate::audit::StatefulAuditEvent;
use crate::ports::{AuditError, ConfigStoreError};
use crate::values::{ConfigFormat, ConfigRevision, InstallationId};

verus! {

/// The version of the schema that a configuration follows.
#[derive(Debug, Clone, Copy, PartialEq, Eq, PartialOrd, Ord, Hash, Structural)]
pub struct ConfigSchemaVersion {
    pub value: u32,
}

/// A configuration: what was written, and how often writing has happened.
#[derive(Debug, PartialEq, Eq)]
pub struct ConfigSnapshot {
    pub revision: ConfigRevision,
    pub value: Vec<u8>,
}

impl ConfigSnapshot {
    pub fn revision(&self) -> (r: ConfigRevision)
        ensures
            r == self.revision,
    {
        self.revision
    }

    pub fn value(&self) -> (r: &Vec<u8>)
        ensures
            *r == self.value,
    {
        &self.value
    }
}

/// Why a configuration could not be read or written.
#[derive(Debug, PartialEq, Eq)]
pub enum ConfigError {
    /// There is no configuration yet.
    NotReady,
    Corrupt,
    Store(ConfigStoreError),
    Audit(AuditError),
}

impl ConfigError {
    pub open spec fn label(&self) -> &'static str {
        match *self {
            ConfigError::NotReady => "not-ready",
            ConfigError::Corrupt => "corrupt",
            ConfigError::Store(_) => "store-failure",
            ConfigError::Audit(_) => "audit-failure",
        }
    }

    /// What the audit log calls the error.
    pub fn audit_label(&self) -> (r: &'static str)
        ensures
            r == self.label(),
    {
        match self {
            ConfigError::NotReady => "not-ready",
            ConfigError::Corrupt => "corrupt",
            ConfigError::Store(_) => "store-failure",
            ConfigError::Audit(_) => "audit-failure",
        }
    }
}

/// What a failure of the store is to a caller.
pub open spec fn store_error(error: ConfigStoreError) -> ConfigError {
    match error {
        ConfigStoreError::Corrupt(_) => ConfigError::Corrupt,
        _ => ConfigError::Store(error),
    }
}

/// What a failure of the store is to a caller.
fn map_store_error(error: ConfigStoreError) -> (r: ConfigError)
    ensures
        r == store_error(error),
{
    match error {
        ConfigStoreError::Corrupt(_) => ConfigError::Corrupt,
        other => ConfigError::Store(other),
    }
}

/// An answer that is due once its audit event is kept.
#[derive(Debug)]
pub struct ConfigAnswer<T> {
    pub event: StatefulAuditEvent,
    pub outcome: Result<T, ConfigError>,
}

impl<T> ConfigAnswer<T> {
    /// Gives the answer out. Where the event could not be kept, that is the
    /// answer.
    pub fn settle(self, audited: Result<(), AuditError>) -> (r: Result<T, ConfigError>)
        ensures
            r == match audited {
                Ok(_) => self.outcome,
                Err(e) => Err(ConfigError::Audit(e)),
            },
    {
        match audited {
            Ok(_) => self.outcome,
            Err(e) => Err(ConfigError::Audit(e)),
        }
    }
}

/// The configurations of a host's components.
#[derive(Debug)]
pub struct ConfigService {}

impl ConfigService {
    /// The audit event of a read.
    pub open spec fn read_event(
        installation: InstallationId,
        operation: &'static str,
        stored: Result<Option<ConfigRevision>, ConfigStoreError>,
    ) -> StatefulAuditEvent {
        match stored {
            Ok(Some(revision)) => StatefulAuditEvent::ConfigRead { installation, revision },
            Ok(None) => StatefulAuditEvent::ConfigFailed {
                installation,
                operation,
                reason: ConfigError::NotReady.label(),
            },
            Err(error) => StatefulAuditEvent::ConfigFailed {
                installation,
                operation,
                reason: store_error(error).label(),
            },
        }
    }

    /// Answers a read of the whole configuration, from what the store said.
    pub fn snapshot(
        installation: InstallationId,
        stored: Result<Option<ConfigSnapshot>, ConfigStoreError>,
    ) -> (r: ConfigAnswer<ConfigSnapshot>)
        ensures
            r.event == Self::read_event(installation, "snapshot", revision_of(stored)),
            r.outcome == match stored {
                Ok(Some(snapshot)) => Ok(snapshot),
                Ok(None) => Err(ConfigError::NotReady),
                Err(error) => Err(store_error(error)),
            },
    {
        match stored {
            Ok(Some(snapshot)) => ConfigAnswer {
                event: StatefulAuditEvent::ConfigRead { installation, revision: snapshot.revision },
                outcome: Ok(snapshot),
            },
            Ok(None) => Self::failed(installation, "snapshot", ConfigError::NotReady),
            Err(error) => Self::failed(installation, "snapshot", map_store_error(error)),
        }
    }

    /// Answers a question for the revision alone, from what the store said.
    pub fn version(
        installation: InstallationId,
        stored: Result<Option<ConfigSnapshot>, ConfigStoreError>,
    ) -> (r: ConfigAnswer<ConfigRevision>)
        ensures
            r.event == Self::read_event(installation, "version", revision_of(stored)),
            r.outcome == match stored {
                Ok(Some(snapshot)) => Ok(snapshot.revision),
                Ok(None) => Err(ConfigError::NotReady),
                Err(error) => Err(store_error(error)),
            },
    {
        match stored {
            Ok(Some(snapshot)) => ConfigAnswer {
                event: StatefulAuditEvent::ConfigRead { installation, revision: snapshot.revision },
                outcome: Ok(snapshot.revision),
            },
            Ok(None) => Self::failed(installation, "version", ConfigError::NotReady),
            Err(error) => Self::failed(installation, "version", map_store_error(error)),
        }
    }

    /// Answers a write, from what the store said of it.
    pub fn put(
        installation: InstallationId,
        format: ConfigFormat,
        stored: Result<ConfigRevision, ConfigStoreError>,
    ) -> (r: ConfigAnswer<ConfigRevision>)
        ensures
            match stored {
                Ok(revision) => {
                    &&& r.event == (StatefulAuditEvent::ConfigWritten { installation, revision, format })
                    &&& r.outcome == Ok::<ConfigRevision, ConfigError>(revision)
                },
                Err(error) => {
                    &&& r.event == (StatefulAuditEvent::ConfigFailed {
                        installation,
                        operation: "put",
                        reason: store_error(error).label(),
                    })
                    &&& r.outcome == Err::<ConfigRevision, ConfigError>(store_error(error))
                },
            },
    {
        match stored {
            Ok(revision) => ConfigAnswer {
                event: StatefulAuditEvent::ConfigWritten { installation, revision, format },
                outcome: Ok(revision),
            },
            Err(error) => Self::failed(installation, "put", map_store_error(error)),
        }
    }

    fn failed<T>(installation: InstallationId, operation: &'static str, error: ConfigError) -> (r:
        ConfigAnswer<T>)
        ensures
            r.event == (StatefulAuditEvent::ConfigFailed {
                installation,
                operation,
                reason: error.label(),
            }),
            r.outcome == Err::<T, ConfigError>(error),
    {
        ConfigAnswer {
            event: StatefulAuditEvent::ConfigFailed {
                installation,
                operation,
                reason: error.audit_label(),
            },
            outcome: Err(error),
        }
    }
}

/// What the store said, but for the configuration itself.
pub open spec fn revision_of(stored: Result<Option<ConfigSnapshot>, ConfigStoreError>) -> Result<
    Option<ConfigRevision>,
    ConfigStoreError,
> {
    match stored {
        Ok(Some(snapshot)) => Ok(Some(snapshot.revision)),
        Ok(None) => Ok(None),
        Err(error) => Err(error),
    }
}

/// The audit log never learns what a configuration holds: two configurations of
/// one revision make the same event.
pub proof fn law_audit_hides_the_configuration(
    installation: InstallationId,
    operation: &'static str,
    one: ConfigSnapshot,
    other: ConfigSnapshot,
)
    requires
        one.revision == other.revision,
    ensures
        ConfigService::read_event(installation, operation, revision_of(Ok(Some(one))))
            == ConfigService::read_event(installation, operation, revision_of(Ok(Some(other)))),
{
}

/// Law: two failures have the same label exactly where they are of one kind.
pub proof fn law_config_labels_tell_kinds_apart(a: ConfigError, b: ConfigError)
    ensures
        a.label()@ == b.label()@ <==> {
            ||| a is NotReady && b is NotReady
            ||| a is Corrupt && b is Corrupt
            ||| a is Store && b is Store
            ||| a is Audit && b is Audit
        },
        a is NotReady ==> a.label()@ == "not-ready"@,
        a is Corrupt ==> a.label()@ == "corrupt"@,
        a is Store ==> a.label()@ == "store-failure"@,
        a is Audit ==> a.label()@ == "audit-failure"@,
{
    reveal_strlit("not-ready");
    reveal_strlit("corrupt");
    reveal_strlit("store-failure");
    reveal_strlit("audit-failure");
    assert("not-ready"@[0] == 'n');
    assert("corrupt"@[0] == 'c');
    assert("store-failure"@[0] == 's');
    assert("audit-failure"@[0] == 'a');
}

/// Law: a caller hears of a configuration that cannot be read as corrupt, and of
/// everything else as the store's own failure, with what the store said.
pub proof fn law_config_store_failures_are_told_apart(error: ConfigStoreError)
    ensures
        store_error(error) is Corrupt <==> error is Corrupt,
        !(error is Corrupt) ==> store_error(error) == ConfigError::Store(error),
{
}

/// Law: the log hears of a read under the revision that was read, and of a read
/// that failed under the operation and the kind of failure; none at all counts as
/// not ready.
pub proof fn law_config_read_is_told(
    installation: InstallationId,
    operation: &'static str,
    stored: Result<Option<ConfigSnapshot>, ConfigStoreError>,
)
    ensures
        stored matches Ok(Some(snapshot)) ==> ConfigService::read_event(
            installation,
            operation,
            revision_of(stored),
        ) == (StatefulAuditEvent::ConfigRead { installation, revision: snapshot.revision }),
        stored matches Ok(None) ==> ConfigService::read_event(installation, operation, revision_of(stored)) == (
        StatefulAuditEvent::ConfigFailed { installation, operation, reason: "not-ready" }),
        stored matches Err(e) ==> e is Corrupt ==> ConfigService::read_event(
            installation,
            operation,
            revision_of(stored),
        ) == (StatefulAuditEvent::ConfigFailed { installation, operation, reason: "corrupt" }),
        stored matches Err(e) ==> !(e is Corrupt) ==> ConfigService::read_event(
            installation,
            operation,
            revision_of(stored),
        ) == (StatefulAuditEvent::ConfigFailed { installation, operation, reason: "store-failure" }),
{
}

} // verus!
