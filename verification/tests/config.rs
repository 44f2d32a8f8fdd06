//! Component configurations.
use operune_application::audit::StatefulAuditEvent;
use operune_application::config::{ConfigAnswer, ConfigError, ConfigService, ConfigSnapshot};
use operune_application::ports::{AuditError, ConfigStoreError};
use operune_application::values::{ConfigFormat, ConfigRevision, ErrorSource, InstallationId};

/// A host with a store and an audit log in memory.
struct Host {
    stored: Vec<(InstallationId, ConfigRevision, Vec<u8>)>,
    audit: Vec<StatefulAuditEvent>,
}

impl Host {
    fn new() -> Host {
        Host { stored: Vec::new(), audit: Vec::new() }
    }

    fn load(&self, inst: InstallationId) -> Result<Option<ConfigSnapshot>, ConfigStoreError> {
        Ok(self.stored.iter().find(|(i, _, _)| *i == inst).map(|(_, revision, value)| {
            ConfigSnapshot { revision: *revision, value: value.clone() }
        }))
    }

    fn settle<T>(&mut self, answer: ConfigAnswer<T>) -> Result<T, ConfigError> {
        let ConfigAnswer { event, outcome } = answer;
        let kept = ConfigAnswer {
            event: StatefulAuditEvent::ConfigRead {
                installation: InstallationId { value: 0 },
                revision: ConfigRevision { value: 0 },
            },
            outcome,
        };
        self.audit.push(event);
        kept.settle(Ok(()))
    }

    fn snapshot(&mut self, inst: InstallationId) -> Result<ConfigSnapshot, ConfigError> {
        let answer = ConfigService::snapshot(inst, self.load(inst));
        self.settle(answer)
    }

    fn version(&mut self, inst: InstallationId) -> Result<ConfigRevision, ConfigError> {
        let answer = ConfigService::version(inst, self.load(inst));
        self.settle(answer)
    }

    fn put(
        &mut self,
        inst: InstallationId,
        format: ConfigFormat,
        value: &[u8],
    ) -> Result<ConfigRevision, ConfigError> {
        let next = match self.stored.iter_mut().find(|(i, _, _)| *i == inst) {
            Some((_, revision, stored)) => {
                revision.value += 1;
                *stored = value.to_vec();
                *revision
            }
            None => {
                let first = ConfigRevision { value: 1 };
                self.stored.push((inst, first, value.to_vec()));
                first
            }
        };
        let answer = ConfigService::put(inst, format, Ok(next));
        self.settle(answer)
    }
}

fn inst() -> InstallationId {
    InstallationId { value: 1 }
}

fn revision(value: u64) -> ConfigRevision {
    ConfigRevision { value }
}

#[test]
fn snapshot_returns_atomic_revision_and_value() {
    let mut h = Host::new();
    assert_eq!(h.put(inst(), ConfigFormat::Json, b"{\"a\":1}"), Ok(revision(1)));
    match h.snapshot(inst()) {
        Ok(snapshot) => {
            assert_eq!(snapshot.revision(), revision(1));
            assert_eq!(snapshot.value().as_slice(), b"{\"a\":1}");
        }
        Err(e) => panic!("snapshot: {e:?}"),
    }
    assert!(h.audit.iter().any(|event| matches!(
        event,
        StatefulAuditEvent::ConfigRead { revision, .. } if revision.value == 1
    )));
}

#[test]
fn snapshot_is_not_ready_without_validated_config() {
    let mut h = Host::new();
    assert!(matches!(h.snapshot(inst()), Err(ConfigError::NotReady)));
    assert!(matches!(h.version(inst()), Err(ConfigError::NotReady)));
    for wanted in ["snapshot", "version"] {
        assert!(h.audit.iter().any(|event| matches!(
            event,
            StatefulAuditEvent::ConfigFailed { operation, reason, .. }
                if *operation == wanted && *reason == "not-ready"
        )));
    }
}

#[test]
fn version_returns_current_revision() {
    let mut h = Host::new();
    assert_eq!(h.put(inst(), ConfigFormat::Raw, b"v"), Ok(revision(1)));
    assert_eq!(h.version(inst()), Ok(revision(1)));
}

#[test]
fn put_increments_revision_monotonically() {
    let mut h = Host::new();
    assert_eq!(h.put(inst(), ConfigFormat::Raw, b"v1"), Ok(revision(1)));
    assert_eq!(h.put(inst(), ConfigFormat::Raw, b"v2"), Ok(revision(2)));
    assert!(h.audit.iter().any(|event| matches!(
        event,
        StatefulAuditEvent::ConfigWritten { revision, .. } if revision.value == 2
    )));
    match h.snapshot(inst()) {
        Ok(snapshot) => {
            assert_eq!(snapshot.revision(), revision(2));
            assert_eq!(snapshot.value().as_slice(), b"v2");
        }
        Err(e) => panic!("snapshot: {e:?}"),
    }
}

#[test]
fn config_audit_never_contains_config_bytes() {
    let mut h = Host::new();
    let payload = b"config-payload-that-must-not-audit";
    assert_eq!(h.put(inst(), ConfigFormat::Json, payload), Ok(revision(1)));
    assert!(h.snapshot(inst()).is_ok());
    let shown_bytes = format!("{payload:?}");
    for event in &h.audit {
        let shown = format!("{event:?}");
        assert!(
            !shown.contains("config-payload-that-must-not-audit") && !shown.contains(&shown_bytes),
            "config audit leaked payload: {shown}"
        );
    }
}

#[test]
fn store_failures_keep_their_kind() {
    let corrupt = ConfigService::snapshot(inst(), Err(ConfigStoreError::Corrupt("x".to_owned())));
    assert_eq!(corrupt.outcome, Err(ConfigError::Corrupt));
    assert!(matches!(
        corrupt.event,
        StatefulAuditEvent::ConfigFailed { operation: "snapshot", reason: "corrupt", .. }
    ));
    let lost = ConfigStoreError::NotFound("x".to_owned());
    let put = ConfigService::put(inst(), ConfigFormat::Toml, Err(lost));
    assert_eq!(
        put.outcome,
        Err(ConfigError::Store(ConfigStoreError::NotFound("x".to_owned())))
    );
    assert!(matches!(
        put.event,
        StatefulAuditEvent::ConfigFailed { operation: "put", reason: "store-failure", .. }
    ));
}

#[test]
fn audit_failure_is_the_answer() {
    let failed = AuditError::Storage(ErrorSource { message: "disk".to_owned() });
    let answer = ConfigService::put(inst(), ConfigFormat::Raw, Ok(revision(1)));
    assert!(matches!(answer.settle(Err(failed)), Err(ConfigError::Audit(_))));
}
