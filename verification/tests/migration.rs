//! Migrating state, over a store in memory.
use std::collections::BTreeMap;

use operune_application::audit::StatefulAuditEvent;
use operune_application::migration::{
    MigrationAction, MigrationError, MigrationGuestError, MigrationOutcome, MigrationReply,
    MigrationStage, StateMigrationService,
};
use operune_application::ports::{AuditError, StateStoreError};
use operune_application::values::{ErrorSource, InstallationId, StateSchemaVersion};

const V1: StateSchemaVersion = StateSchemaVersion { value: 1 };
const V2: StateSchemaVersion = StateSchemaVersion { value: 2 };
const V3: StateSchemaVersion = StateSchemaVersion { value: 3 };

fn inst() -> InstallationId {
    InstallationId { value: 1 }
}

type Values = BTreeMap<String, Vec<u8>>;

struct Transaction {
    number: u64,
    schema: StateSchemaVersion,
    writes: Values,
}

/// A host with one installation's state, one transaction at a time, and an
/// audit log.
#[derive(Default)]
struct Host {
    version: Option<StateSchemaVersion>,
    values: Values,
    transaction: Option<Transaction>,
    begun: u64,
    window_open: bool,
    audit: Vec<StatefulAuditEvent>,
    audit_fails_on: Option<&'static str>,
    commit_fails: bool,
    aborted: Vec<u64>,
}

impl Host {
    fn new() -> Host {
        Host::default()
    }

    fn put(&mut self, key: &str, schema: StateSchemaVersion, value: &[u8]) {
        self.version = Some(schema);
        self.values.insert(key.to_owned(), value.to_vec());
    }

    fn begin(&mut self, schema: StateSchemaVersion) -> Result<u64, StateStoreError> {
        if self.transaction.is_some() {
            return Err(StateStoreError::TransactionConflict("open".to_owned()));
        }
        self.begun += 1;
        self.transaction =
            Some(Transaction { number: self.begun, schema, writes: BTreeMap::new() });
        Ok(self.begun)
    }

    /// An ordinary transaction waits for the window to close.
    fn begin_transaction(&mut self, schema: StateSchemaVersion) -> Option<u64> {
        if self.window_open {
            return None;
        }
        self.begin(schema).ok()
    }

    fn tx_put(&mut self, number: u64, key: &str, value: &[u8]) {
        match &mut self.transaction {
            Some(tx) if tx.number == number => {
                tx.writes.insert(key.to_owned(), value.to_vec());
            }
            _ => panic!("no such transaction"),
        }
    }

    fn commit(&mut self, number: u64) -> Result<(), StateStoreError> {
        if self.commit_fails {
            return Err(StateStoreError::Corrupt("disk".to_owned()));
        }
        match self.transaction.take() {
            Some(tx) if tx.number == number => {
                self.version = Some(tx.schema);
                self.values.extend(tx.writes);
                Ok(())
            }
            _ => Err(StateStoreError::TransactionConflict("gone".to_owned())),
        }
    }

    fn abort(&mut self, number: u64) -> Result<(), StateStoreError> {
        self.aborted.push(number);
        match self.transaction.take() {
            Some(tx) if tx.number == number => Ok(()),
            _ => Err(StateStoreError::NotFound("transaction".to_owned())),
        }
    }

    /// Ordinary reads wait for the window to close.
    fn get(&self, schema: StateSchemaVersion, key: &str) -> Option<Option<Vec<u8>>> {
        if self.window_open || self.version != Some(schema) {
            None
        } else {
            Some(self.values.get(key).cloned())
        }
    }

    fn append(&mut self, event: StatefulAuditEvent) -> Result<(), AuditError> {
        if let Some(word) = self.audit_fails_on {
            if format!("{event:?}").starts_with(word) {
                return Err(AuditError::Storage(ErrorSource { message: "disk".to_owned() }));
            }
        }
        self.audit.push(event);
        Ok(())
    }

    fn migrate(
        &mut self,
        from: StateSchemaVersion,
        to: StateSchemaVersion,
        mut guest: impl FnMut(&mut Host, u64) -> Result<(), MigrationGuestError>,
    ) -> Result<MigrationOutcome, MigrationError> {
        let mut run = StateMigrationService::migrate(inst(), from, to);
        while run.stage != MigrationStage::Finished {
            let reply = match run.action() {
                MigrationAction::ReadVersion { .. } => MigrationReply::Version(Ok(self.version)),
                MigrationAction::OpenWindow { .. } => {
                    self.window_open = true;
                    MigrationReply::Window
                }
                MigrationAction::Begin { to, .. } => MigrationReply::Begun(self.begin(to)),
                MigrationAction::Audit(event) => MigrationReply::Audited(self.append(event)),
                MigrationAction::CallGuest { transaction } => {
                    MigrationReply::Guest(guest(self, transaction))
                }
                MigrationAction::Commit { transaction } => {
                    MigrationReply::Ended(self.commit(transaction))
                }
                MigrationAction::Abort { transaction } => {
                    MigrationReply::Ended(self.abort(transaction))
                }
                MigrationAction::CloseWindow { .. } => {
                    self.window_open = false;
                    MigrationReply::Window
                }
                MigrationAction::Finished => panic!("the migration is not finished"),
            };
            run = run.advance(reply);
        }
        assert!(!self.window_open, "the window is closed on every way out");
        run.into_result()
    }
}

#[test]
fn migrate_success_commits_and_advances_schema_version() {
    let mut h = Host::new();
    h.put("old", V1, b"old-shape");
    let outcome = h.migrate(V1, V2, |host, tx| {
        host.tx_put(tx, "new", b"new-shape");
        Ok(())
    });
    assert_eq!(outcome, Ok(MigrationOutcome::Migrated { from: V1, to: V2 }));
    assert_eq!(h.version, Some(V2));
    assert_eq!(h.values.get("old"), Some(&b"old-shape".to_vec()));
    assert_eq!(h.values.get("new"), Some(&b"new-shape".to_vec()));
    assert!(h.get(V2, "old").is_some());
    assert_eq!(
        h.audit,
        vec![
            StatefulAuditEvent::MigrationStarted { installation: inst(), from: V1, to: V2 },
            StatefulAuditEvent::MigrationCommitted { installation: inst(), from: V1, to: V2 },
        ]
    );
}

#[test]
fn migrate_guest_failure_rolls_back_guest_writes() {
    let mut h = Host::new();
    h.put("old", V1, b"old-shape");
    let outcome = h.migrate(V1, V2, |host, tx| {
        host.tx_put(tx, "partial", b"half");
        Err(MigrationGuestError::MalformedSource)
    });
    assert_eq!(
        outcome,
        Ok(MigrationOutcome::RolledBack {
            from: V1,
            to: V2,
            reason: MigrationGuestError::MalformedSource
        })
    );
    assert_eq!(h.version, Some(V1));
    assert_eq!(h.values.get("partial"), None);
    assert_eq!(h.values.get("old"), Some(&b"old-shape".to_vec()));
    assert!(h.get(V1, "old").is_some());
    assert!(h.audit.iter().any(|event| matches!(
        event,
        StatefulAuditEvent::MigrationRolledBack { reason, .. } if *reason == "malformed-source"
    )));
}

#[test]
fn migrate_host_observed_failure_rolls_back() {
    let mut h = Host::new();
    h.put("old", V1, b"old-shape");
    let outcome =
        h.migrate(V1, V2, |_, _| Err(MigrationGuestError::Host("epoch-deadline-exceeded")));
    assert!(matches!(
        outcome,
        Ok(MigrationOutcome::RolledBack {
            reason: MigrationGuestError::Host("epoch-deadline-exceeded"),
            ..
        })
    ));
    assert_eq!(h.version, Some(V1));
}

#[test]
fn migrate_retry_after_crash_is_idempotent() {
    let mut h = Host::new();
    h.put("old", V1, b"old-shape");
    let first = h.migrate(V1, V2, |host, tx| {
        host.tx_put(tx, "new", b"new-shape");
        host.transaction = None;
        Ok(())
    });
    assert_eq!(first, Err(MigrationError::Conflict));
    assert_eq!(h.version, Some(V1));
    assert_eq!(h.values.get("new"), None);
    let retry = h.migrate(V1, V2, |host, tx| {
        host.tx_put(tx, "new", b"new-shape");
        Ok(())
    });
    assert_eq!(retry, Ok(MigrationOutcome::Migrated { from: V1, to: V2 }));
    assert_eq!(h.version, Some(V2));
    assert_eq!(h.values.get("new"), Some(&b"new-shape".to_vec()));
}

#[test]
fn migrate_is_noop_when_already_at_target() {
    let mut h = Host::new();
    h.put("a", V2, b"v");
    let mut called = false;
    let outcome = h.migrate(V2, V2, |_, _| {
        called = true;
        Ok(())
    });
    assert_eq!(outcome, Ok(MigrationOutcome::AlreadyAtTarget { version: V2 }));
    assert!(!called, "no-op migration must not invoke the guest");
}

#[test]
fn migrate_empty_store_is_noop() {
    let mut h = Host::new();
    let outcome = h.migrate(V1, V3, |_, _| Ok(()));
    assert_eq!(outcome, Ok(MigrationOutcome::NothingToMigrate));
}

#[test]
fn migrate_rejects_stale_plan_version() {
    let mut h = Host::new();
    h.put("a", V2, b"v");
    let error = h.migrate(V1, V3, |_, _| Ok(()));
    assert_eq!(
        error,
        Err(MigrationError::UnexpectedStoreVersion {
            installation: inst(),
            expected: V1,
            current: V2
        })
    );
}

#[test]
fn migrate_rejects_downgrade() {
    let mut h = Host::new();
    h.put("a", V2, b"v");
    let error = h.migrate(V2, V1, |_, _| Ok(()));
    assert_eq!(error, Err(MigrationError::UnsupportedVersionRange { from: V2, to: V1 }));
}

#[test]
fn runtime_ops_return_not_ready_during_migration_window() {
    let mut h = Host::new();
    h.put("old", V1, b"old-shape");
    let outcome = h.migrate(V1, V2, |host, _| {
        assert!(host.window_open);
        assert!(host.get(V1, "old").is_none());
        assert!(host.begin_transaction(V1).is_none());
        Ok(())
    });
    assert!(matches!(outcome, Ok(MigrationOutcome::Migrated { .. })));
    assert!(h.get(V2, "old").is_some());
}

#[test]
fn guest_self_aborting_migration_tx_leads_to_conflict() {
    let mut h = Host::new();
    h.put("old", V1, b"old-shape");
    let outcome = h.migrate(V1, V2, |host, tx| {
        assert_eq!(host.abort(tx), Ok(()));
        Ok(())
    });
    assert_eq!(outcome, Err(MigrationError::Conflict));
    assert_eq!(h.version, Some(V1));
    assert!(h.get(V1, "old").is_some());
}

#[test]
fn migrate_is_busy_while_another_transaction_is_open() {
    let mut h = Host::new();
    h.put("old", V1, b"v");
    let normal = match h.begin_transaction(V1) {
        Some(number) => number,
        None => panic!("begin"),
    };
    assert_eq!(h.migrate(V1, V2, |_, _| Ok(())), Err(MigrationError::Busy));
    assert_eq!(h.commit(normal), Ok(()));
    let retry = h.migrate(V1, V2, |host, tx| {
        host.tx_put(tx, "n", b"x");
        Ok(())
    });
    assert!(matches!(retry, Ok(MigrationOutcome::Migrated { .. })));
}

#[test]
fn migration_audit_never_contains_data() {
    let mut h = Host::new();
    let payload = b"migration-secret-payload";
    h.put("old", V1, payload);
    let outcome = h.migrate(V1, V2, |host, tx| {
        host.tx_put(tx, "new", payload);
        Ok(())
    });
    assert!(outcome.is_ok());
    let as_numbers = format!("{:?}", payload.to_vec());
    for event in &h.audit {
        let shown = format!("{event:?}");
        assert!(
            !shown.contains("migration-secret-payload") && !shown.contains(&as_numbers),
            "migration audit leaked data: {shown}"
        );
    }
}

#[test]
fn commit_waits_for_the_audit_log() {
    let mut h = Host::new();
    h.put("old", V1, b"v");
    h.audit_fails_on = Some("MigrationCommitted");
    let outcome = h.migrate(V1, V2, |host, tx| {
        host.tx_put(tx, "new", b"x");
        Ok(())
    });
    assert!(matches!(outcome, Err(MigrationError::Audit(_))));
    assert_eq!(h.version, Some(V1));
    assert_eq!(h.values.get("new"), None);
    assert!(h.transaction.is_none());
}

#[test]
fn failed_commit_gives_the_transaction_up() {
    for audit_fails_on in [None, Some("MigrationFailed")] {
        let mut h = Host::new();
        h.put("old", V1, b"v");
        h.commit_fails = true;
        h.audit_fails_on = audit_fails_on;
        let outcome = h.migrate(V1, V2, |host, tx| {
            host.tx_put(tx, "new", b"x");
            Ok(())
        });
        if audit_fails_on.is_none() {
            assert_eq!(
                outcome,
                Err(MigrationError::Store(StateStoreError::Corrupt("disk".to_owned())))
            );
            assert_eq!(
                h.audit.last(),
                Some(&StatefulAuditEvent::MigrationFailed {
                    installation: inst(),
                    from: V1,
                    to: V2,
                    reason: "commit"
                })
            );
        } else {
            assert!(matches!(outcome, Err(MigrationError::Audit(_))));
        }
        assert_eq!(h.aborted, vec![1]);
        assert!(h.transaction.is_none());
        assert_eq!(h.version, Some(V1));
        assert_eq!(h.values.get("new"), None);
    }
}

#[test]
fn lost_transaction_is_not_given_up_again() {
    let mut h = Host::new();
    h.put("old", V1, b"v");
    let outcome = h.migrate(V1, V2, |host, _| {
        host.transaction = None;
        Ok(())
    });
    assert_eq!(outcome, Err(MigrationError::Conflict));
    assert!(h.aborted.is_empty());
}

#[test]
fn guest_waits_for_the_audit_log() {
    let mut h = Host::new();
    h.put("old", V1, b"v");
    h.audit_fails_on = Some("MigrationStarted");
    let mut called = false;
    let outcome = h.migrate(V1, V2, |_, _| {
        called = true;
        Ok(())
    });
    assert!(matches!(outcome, Err(MigrationError::Audit(_))));
    assert!(!called);
    assert!(h.transaction.is_none());
}

#[test]
fn rollback_goes_ahead_without_the_audit_log() {
    let mut h = Host::new();
    h.put("old", V1, b"v");
    h.audit_fails_on = Some("MigrationRolledBack");
    let outcome = h.migrate(V1, V2, |_, _| Err(MigrationGuestError::Internal));
    assert!(matches!(outcome, Ok(MigrationOutcome::RolledBack { .. })));
    assert!(h.transaction.is_none());
}

#[test]
fn store_failures_end_the_migration() {
    let lost = || StateStoreError::Corrupt("x".to_owned());
    let run = StateMigrationService::migrate(inst(), V1, V2);
    let run = run.advance(MigrationReply::Version(Err(lost())));
    assert_eq!(run.into_result(), Err(MigrationError::Store(lost())));
    let run = StateMigrationService::migrate(inst(), V1, V2)
        .advance(MigrationReply::Version(Ok(Some(V1))))
        .advance(MigrationReply::Window)
        .advance(MigrationReply::Begun(Err(lost())));
    assert_eq!(
        run.action(),
        MigrationAction::Audit(StatefulAuditEvent::MigrationFailed {
            installation: inst(),
            from: V1,
            to: V2,
            reason: "begin"
        })
    );
    let run = run.advance(MigrationReply::Audited(Ok(()))).advance(MigrationReply::Window);
    assert_eq!(run.into_result(), Err(MigrationError::Store(lost())));
}

#[test]
fn guest_errors_have_labels() {
    for (error, label) in [
        (MigrationGuestError::UnsupportedVersionRange, "unsupported-version-range"),
        (MigrationGuestError::MalformedSource, "malformed-source"),
        (MigrationGuestError::OverBudget, "over-budget"),
        (MigrationGuestError::Internal, "guest-internal"),
        (MigrationGuestError::Host("trap"), "trap"),
    ] {
        assert_eq!(error.audit_label(), label);
    }
}
