//! Migrating a component's state from one schema version to a later one.
//!
//! The store's version decides whether there is anything to do. While a
//! migration is under way its window is open, so that ordinary state operations
//! wait. The audit log hears of the commit before it is made; a guest that
//! fails is rolled back, and so is a commit that the store could not make; the
//! window is closed on every way out.
use vstd::prelude::*;

use crate::audit::StatefulAuditEvent;
use crate::ports::{AuditError, StateStoreError};
use crate::values::{InstallationId, StateSchemaVersion};

verus! {

/// How a guest's migration failed.
#[derive(Debug, Clone, Copy, PartialEq, Eq)]
pub enum MigrationGuestError {
    UnsupportedVersionRange,
    MalformedSource,
    OverBudget,
    Internal,
    /// The host saw the call fail.
    Host(&'static str),
}

impl MigrationGuestError {
    pub open spec fn label(self) -> &'static str {
        match self {
            MigrationGuestError::UnsupportedVersionRange => "unsupported-version-range",
            MigrationGuestError::MalformedSource => "malformed-source",
            MigrationGuestError::OverBudget => "over-budget",
            MigrationGuestError::Internal => "guest-internal",
            MigrationGuestError::Host(reason) => reason,
        }
    }

    /// What the audit log shows of the failure.
    pub fn audit_label(self) -> (r: &'static str)
        ensures
            r == self.label(),
    {
        match self {
            MigrationGuestError::UnsupportedVersionRange => "unsupported-version-range",
            MigrationGuestError::MalformedSource => "malformed-source",
            MigrationGuestError::OverBudget => "over-budget",
            MigrationGuestError::Internal => "guest-internal",
            MigrationGuestError::Host(reason) => reason,
        }
    }
}

/// What a migration came to.
#[allow(inconsistent_fields)]
#[derive(Debug, Clone, Copy, PartialEq, Eq)]
pub enum MigrationOutcome {
    Migrated { from: StateSchemaVersion, to: StateSchemaVersion },
    AlreadyAtTarget { version: StateSchemaVersion },
    NothingToMigrate,
    RolledBack { from: StateSchemaVersion, to: StateSchemaVersion, reason: MigrationGuestError },
}

/// Why a migration could not be carried through. A guest's own failure is an
/// outcome, not one of these.
#[derive(Debug, PartialEq, Eq)]
pub enum MigrationError {
    UnexpectedStoreVersion {
        installation: InstallationId,
        expected: StateSchemaVersion,
        current: StateSchemaVersion,
    },
    UnsupportedVersionRange { from: StateSchemaVersion, to: StateSchemaVersion },
    Busy,
    Conflict,
    Store(StateStoreError),
    Audit(AuditError),
    Internal(&'static str),
}

/// Where a migration stands: the work that it waits for.
#[derive(Debug, Clone, Copy, PartialEq, Eq, Structural)]
pub enum MigrationStage {
    ReadVersion,
    OpenWindow,
    Begin,
    RecordBeginFailure,
    RecordStart,
    CallGuest,
    RecordCommit,
    Commit,
    RecordCommitFailure,
    RecordRollback,
    /// Give the transaction up because the guest failed.
    Rollback,
    /// Give the transaction up because the audit log or the store failed.
    Abandon,
    CloseWindow,
    Finished,
}

/// A piece of work for the host.
#[derive(Debug, PartialEq, Eq)]
pub enum MigrationAction {
    ReadVersion { installation: InstallationId },
    OpenWindow { installation: InstallationId },
    Begin { installation: InstallationId, to: StateSchemaVersion },
    Audit(StatefulAuditEvent),
    CallGuest { transaction: u64 },
    Commit { transaction: u64 },
    Abort { transaction: u64 },
    CloseWindow { installation: InstallationId },
    Finished,
}

/// How a piece of work went.
#[derive(Debug, PartialEq, Eq)]
pub enum MigrationReply {
    /// The store's version, where it holds anything.
    Version(Result<Option<StateSchemaVersion>, StateStoreError>),
    /// The window is open, or closed, as asked.
    Window,
    Begun(Result<u64, StateStoreError>),
    Audited(Result<(), AuditError>),
    Guest(Result<(), MigrationGuestError>),
    /// The transaction was committed, or aborted, as asked.
    Ended(Result<(), StateStoreError>),
}

impl MigrationReply {
    /// The reply is one to the work of `stage`.
    pub open spec fn fits(&self, stage: MigrationStage) -> bool {
        match stage {
            MigrationStage::ReadVersion => self is Version,
            MigrationStage::OpenWindow | MigrationStage::CloseWindow => self is Window,
            MigrationStage::Begin => self is Begun,
            MigrationStage::RecordBeginFailure | MigrationStage::RecordStart
            | MigrationStage::RecordCommit | MigrationStage::RecordCommitFailure
            | MigrationStage::RecordRollback => self is Audited,
            MigrationStage::CallGuest => self is Guest,
            MigrationStage::Commit | MigrationStage::Rollback | MigrationStage::Abandon => self is Ended,
            MigrationStage::Finished => false,
        }
    }
}

/// One migration of one installation's state.
#[derive(Debug, PartialEq, Eq)]
pub struct StateMigration {
    pub installation: InstallationId,
    pub from: StateSchemaVersion,
    pub to: StateSchemaVersion,
    pub stage: MigrationStage,
    pub transaction: Option<u64>,
    pub guest_error: Option<MigrationGuestError>,
    pub result: Option<Result<MigrationOutcome, MigrationError>>,
}

impl StateMigration {
    /// What holds of every migration.
    pub open spec fn wf(&self) -> bool {
        &&& match self.stage {
            MigrationStage::RecordStart | MigrationStage::CallGuest | MigrationStage::RecordCommit
            | MigrationStage::Commit => self.transaction is Some,
            MigrationStage::RecordCommitFailure => self.transaction is Some && self.result is Some,
            MigrationStage::RecordRollback | MigrationStage::Rollback => self.transaction is Some
                && self.guest_error is Some,
            MigrationStage::Abandon => self.transaction is Some && self.result is Some,
            MigrationStage::RecordBeginFailure | MigrationStage::CloseWindow | MigrationStage::Finished =>
            self.result is Some,
            _ => true,
        }
        &&& self.stage != MigrationStage::ReadVersion && self.stage != MigrationStage::Finished
            ==> self.to.value > self.from.value
    }

    pub open spec fn at(self, stage: MigrationStage) -> StateMigration {
        StateMigration { stage, ..self }
    }

    /// The migration has its result; the window is still to be closed.
    pub open spec fn leaving(self, result: Result<MigrationOutcome, MigrationError>) -> StateMigration {
        StateMigration { stage: MigrationStage::CloseWindow, result: Some(result), ..self }
    }

    pub open spec fn with_result(
        self,
        stage: MigrationStage,
        result: Result<MigrationOutcome, MigrationError>,
    ) -> StateMigration {
        StateMigration { stage, result: Some(result), ..self }
    }

    /// The store said that the transaction had ended before it could be
    /// committed.
    pub open spec fn lost_transaction(self) -> bool {
        self.result matches Some(Err(MigrationError::Conflict))
    }

    /// Where a migration that could not be committed goes on: the transaction is
    /// given up, unless it has already ended.
    pub open spec fn after_commit_failure(self) -> MigrationStage {
        if self.lost_transaction() {
            MigrationStage::CloseWindow
        } else {
            MigrationStage::Abandon
        }
    }

    /// Where the migration stands once it has heard `reply`.
    pub open spec fn next(self, reply: MigrationReply) -> StateMigration {
        match (self.stage, reply) {
            (MigrationStage::ReadVersion, MigrationReply::Version(Err(e))) => self.with_result(
                MigrationStage::Finished,
                Err(MigrationError::Store(e)),
            ),
            (MigrationStage::ReadVersion, MigrationReply::Version(Ok(None))) => self.with_result(
                MigrationStage::Finished,
                Ok(MigrationOutcome::NothingToMigrate),
            ),
            (MigrationStage::ReadVersion, MigrationReply::Version(Ok(Some(current)))) => if current
                == self.to {
                self.with_result(
                    MigrationStage::Finished,
                    Ok(MigrationOutcome::AlreadyAtTarget { version: current }),
                )
            } else if current != self.from {
                self.with_result(
                    MigrationStage::Finished,
                    Err(
                        MigrationError::UnexpectedStoreVersion {
                            installation: self.installation,
                            expected: self.from,
                            current,
                        },
                    ),
                )
            } else if self.to.value <= self.from.value {
                self.with_result(
                    MigrationStage::Finished,
                    Err(MigrationError::UnsupportedVersionRange { from: self.from, to: self.to }),
                )
            } else {
                self.at(MigrationStage::OpenWindow)
            },
            (MigrationStage::OpenWindow, MigrationReply::Window) => self.at(MigrationStage::Begin),
            (MigrationStage::Begin, MigrationReply::Begun(Ok(tx))) => StateMigration {
                stage: MigrationStage::RecordStart,
                transaction: Some(tx),
                ..self
            },
            (MigrationStage::Begin, MigrationReply::Begun(Err(e))) => match e {
                StateStoreError::TransactionConflict(_) => self.leaving(Err(MigrationError::Busy)),
                StateStoreError::SchemaVersionMismatch { installation, current, requested } => self.leaving(
                    Err(MigrationError::UnsupportedVersionRange { from: self.from, to: self.to }),
                ),
                _ => self.with_result(
                    MigrationStage::RecordBeginFailure,
                    Err(MigrationError::Store(e)),
                ),
            },
            (MigrationStage::RecordBeginFailure, MigrationReply::Audited(Ok(_))) => self.at(
                MigrationStage::CloseWindow,
            ),
            (MigrationStage::RecordBeginFailure, MigrationReply::Audited(Err(e))) => self.leaving(
                Err(MigrationError::Audit(e)),
            ),
            (MigrationStage::RecordStart, MigrationReply::Audited(Ok(_))) => self.at(
                MigrationStage::CallGuest,
            ),
            (MigrationStage::RecordStart, MigrationReply::Audited(Err(e))) => self.with_result(
                MigrationStage::Abandon,
                Err(MigrationError::Audit(e)),
            ),
            (MigrationStage::CallGuest, MigrationReply::Guest(Ok(_))) => self.at(
                MigrationStage::RecordCommit,
            ),
            (MigrationStage::CallGuest, MigrationReply::Guest(Err(reason))) => StateMigration {
                stage: MigrationStage::RecordRollback,
                guest_error: Some(reason),
                ..self
            },
            (MigrationStage::RecordCommit, MigrationReply::Audited(Ok(_))) => self.at(
                MigrationStage::Commit,
            ),
            (MigrationStage::RecordCommit, MigrationReply::Audited(Err(e))) => self.with_result(
                MigrationStage::Abandon,
                Err(MigrationError::Audit(e)),
            ),
            (MigrationStage::Commit, MigrationReply::Ended(Ok(_))) => self.leaving(
                Ok(MigrationOutcome::Migrated { from: self.from, to: self.to }),
            ),
            (MigrationStage::Commit, MigrationReply::Ended(Err(e))) => self.with_result(
                MigrationStage::RecordCommitFailure,
                Err(
                    if e is TransactionConflict {
                        MigrationError::Conflict
                    } else {
                        MigrationError::Store(e)
                    },
                ),
            ),
            (MigrationStage::RecordCommitFailure, MigrationReply::Audited(Ok(_))) => self.at(
                self.after_commit_failure(),
            ),
            (MigrationStage::RecordCommitFailure, MigrationReply::Audited(Err(e))) => self.with_result(
                self.after_commit_failure(),
                Err(MigrationError::Audit(e)),
            ),
            (MigrationStage::RecordRollback, MigrationReply::Audited(_)) => self.at(
                MigrationStage::Rollback,
            ),
            (MigrationStage::Rollback, MigrationReply::Ended(Ok(_))) => self.leaving(
                Ok(
                    MigrationOutcome::RolledBack {
                        from: self.from,
                        to: self.to,
                        reason: self.guest_error->0,
                    },
                ),
            ),
            (MigrationStage::Rollback, MigrationReply::Ended(Err(e))) => self.leaving(
                Err(MigrationError::Store(e)),
            ),
            (MigrationStage::Abandon, MigrationReply::Ended(_)) => self.at(MigrationStage::CloseWindow),
            (MigrationStage::CloseWindow, MigrationReply::Window) => self.at(MigrationStage::Finished),
            _ => self,
        }
    }

    fn goto(self, stage: MigrationStage) -> (r: StateMigration)
        ensures
            r == self.at(stage),
    {
        StateMigration {
            installation: self.installation,
            from: self.from,
            to: self.to,
            stage,
            transaction: self.transaction,
            guest_error: self.guest_error,
            result: self.result,
        }
    }

    fn conclude(self, stage: MigrationStage, result: Result<MigrationOutcome, MigrationError>) -> (r: StateMigration)
        ensures
            r == self.with_result(stage, result),
    {
        StateMigration {
            installation: self.installation,
            from: self.from,
            to: self.to,
            stage,
            transaction: self.transaction,
            guest_error: self.guest_error,
            result: Some(result),
        }
    }

    fn on_version(self, current: StateSchemaVersion) -> (r: StateMigration)
        requires
            self.wf(),
            self.stage == MigrationStage::ReadVersion,
        ensures
            r.wf(),
            r == self.next(MigrationReply::Version(Ok(Some(current)))),
    {
        let from: StateSchemaVersion = self.from;
        let to: StateSchemaVersion = self.to;
        if current == to {
            self.conclude(
                MigrationStage::Finished,
                Ok(MigrationOutcome::AlreadyAtTarget { version: current }),
            )
        } else if current != from {
            let installation: InstallationId = self.installation;
            self.conclude(
                MigrationStage::Finished,
                Err(MigrationError::UnexpectedStoreVersion { installation, expected: from, current }),
            )
        } else if to.value <= from.value {
            self.conclude(
                MigrationStage::Finished,
                Err(MigrationError::UnsupportedVersionRange { from, to }),
            )
        } else {
            self.goto(MigrationStage::OpenWindow)
        }
    }

    fn on_begin_error(self, e: StateStoreError) -> (r: StateMigration)
        requires
            self.wf(),
            self.stage == MigrationStage::Begin,
        ensures
            r.wf(),
            r == self.next(MigrationReply::Begun(Err(e))),
    {
        let from: StateSchemaVersion = self.from;
        let to: StateSchemaVersion = self.to;
        match e {
            StateStoreError::TransactionConflict(_) => self.conclude(
                MigrationStage::CloseWindow,
                Err(MigrationError::Busy),
            ),
            StateStoreError::SchemaVersionMismatch { .. } => self.conclude(
                MigrationStage::CloseWindow,
                Err(MigrationError::UnsupportedVersionRange { from, to }),
            ),
            other => self.conclude(MigrationStage::RecordBeginFailure, Err(MigrationError::Store(other))),
        }
    }

    fn on_committed(self, ended: Result<(), StateStoreError>) -> (r: StateMigration)
        requires
            self.wf(),
            self.stage == MigrationStage::Commit,
        ensures
            r.wf(),
            r == self.next(MigrationReply::Ended(ended)),
    {
        let from: StateSchemaVersion = self.from;
        let to: StateSchemaVersion = self.to;
        match ended {
            Ok(_) => self.conclude(
                MigrationStage::CloseWindow,
                Ok(MigrationOutcome::Migrated { from, to }),
            ),
            Err(StateStoreError::TransactionConflict(_)) => self.conclude(
                MigrationStage::RecordCommitFailure,
                Err(MigrationError::Conflict),
            ),
            Err(other) => self.conclude(
                MigrationStage::RecordCommitFailure,
                Err(MigrationError::Store(other)),
            ),
        }
    }

    fn on_commit_failure_recorded(self, audited: Result<(), AuditError>) -> (r: StateMigration)
        requires
            self.wf(),
            self.stage == MigrationStage::RecordCommitFailure,
        ensures
            r.wf(),
            r == self.next(MigrationReply::Audited(audited)),
    {
        let stage: MigrationStage = match &self.result {
            Some(Err(MigrationError::Conflict)) => MigrationStage::CloseWindow,
            _ => MigrationStage::Abandon,
        };
        match audited {
            Ok(_) => self.goto(stage),
            Err(e) => self.conclude(stage, Err(MigrationError::Audit(e))),
        }
    }

    /// The migration after it has heard how its work went.
    pub fn advance(self, reply: MigrationReply) -> (r: StateMigration)
        requires
            self.wf(),
            reply.fits(self.stage),
        ensures
            r.wf(),
            r == self.next(reply),
    {
        match (self.stage, reply) {
            (MigrationStage::ReadVersion, MigrationReply::Version(Err(e))) => self.conclude(
                MigrationStage::Finished,
                Err(MigrationError::Store(e)),
            ),
            (MigrationStage::ReadVersion, MigrationReply::Version(Ok(None))) => self.conclude(
                MigrationStage::Finished,
                Ok(MigrationOutcome::NothingToMigrate),
            ),
            (MigrationStage::ReadVersion, MigrationReply::Version(Ok(Some(current)))) => self.on_version(
                current,
            ),
            (MigrationStage::OpenWindow, MigrationReply::Window) => self.goto(MigrationStage::Begin),
            (MigrationStage::Begin, MigrationReply::Begun(Ok(tx))) => {
                let mut run = self;
                run.stage = MigrationStage::RecordStart;
                run.transaction = Some(tx);
                run
            },
            (MigrationStage::Begin, MigrationReply::Begun(Err(e))) => self.on_begin_error(e),
            (MigrationStage::RecordBeginFailure, MigrationReply::Audited(Ok(_))) => self.goto(
                MigrationStage::CloseWindow,
            ),
            (MigrationStage::RecordBeginFailure, MigrationReply::Audited(Err(e))) => self.conclude(
                MigrationStage::CloseWindow,
                Err(MigrationError::Audit(e)),
            ),
            (MigrationStage::RecordStart, MigrationReply::Audited(Ok(_))) => self.goto(
                MigrationStage::CallGuest,
            ),
            (MigrationStage::RecordStart, MigrationReply::Audited(Err(e))) => self.conclude(
                MigrationStage::Abandon,
                Err(MigrationError::Audit(e)),
            ),
            (MigrationStage::CallGuest, MigrationReply::Guest(Ok(_))) => self.goto(
                MigrationStage::RecordCommit,
            ),
            (MigrationStage::CallGuest, MigrationReply::Guest(Err(reason))) => {
                let mut run = self;
                run.stage = MigrationStage::RecordRollback;
                run.guest_error = Some(reason);
                run
            },
            (MigrationStage::RecordCommit, MigrationReply::Audited(Ok(_))) => self.goto(
                MigrationStage::Commit,
            ),
            (MigrationStage::RecordCommit, MigrationReply::Audited(Err(e))) => self.conclude(
                MigrationStage::Abandon,
                Err(MigrationError::Audit(e)),
            ),
            (MigrationStage::Commit, MigrationReply::Ended(ended)) => self.on_committed(ended),
            (MigrationStage::RecordCommitFailure, MigrationReply::Audited(audited)) => {
                self.on_commit_failure_recorded(audited)
            },
            (MigrationStage::RecordRollback, MigrationReply::Audited(_)) => self.goto(
                MigrationStage::Rollback,
            ),
            (MigrationStage::Rollback, MigrationReply::Ended(Ok(_))) => {
                let outcome = MigrationOutcome::RolledBack {
                    from: self.from,
                    to: self.to,
                    reason: self.guest_error.unwrap(),
                };
                self.conclude(MigrationStage::CloseWindow, Ok(outcome))
            },
            (MigrationStage::Rollback, MigrationReply::Ended(Err(e))) => self.conclude(
                MigrationStage::CloseWindow,
                Err(MigrationError::Store(e)),
            ),
            (MigrationStage::Abandon, MigrationReply::Ended(_)) => self.goto(MigrationStage::CloseWindow),
            (MigrationStage::CloseWindow, MigrationReply::Window) => self.goto(MigrationStage::Finished),
            _ => {
                assert(false);
                self
            },
        }
    }

    /// The work that the migration waits for.
    pub open spec fn asks(&self) -> MigrationAction {
        let installation = self.installation;
        let from = self.from;
        let to = self.to;
        match self.stage {
            MigrationStage::ReadVersion => MigrationAction::ReadVersion { installation },
            MigrationStage::OpenWindow => MigrationAction::OpenWindow { installation },
            MigrationStage::Begin => MigrationAction::Begin { installation, to },
            MigrationStage::RecordBeginFailure => MigrationAction::Audit(
                StatefulAuditEvent::MigrationFailed { installation, from, to, reason: "begin" },
            ),
            MigrationStage::RecordStart => MigrationAction::Audit(
                StatefulAuditEvent::MigrationStarted { installation, from, to },
            ),
            MigrationStage::CallGuest => MigrationAction::CallGuest { transaction: self.transaction->0 },
            MigrationStage::RecordCommit => MigrationAction::Audit(
                StatefulAuditEvent::MigrationCommitted { installation, from, to },
            ),
            MigrationStage::Commit => MigrationAction::Commit { transaction: self.transaction->0 },
            MigrationStage::RecordCommitFailure => MigrationAction::Audit(
                StatefulAuditEvent::MigrationFailed { installation, from, to, reason: "commit" },
            ),
            MigrationStage::RecordRollback => MigrationAction::Audit(
                StatefulAuditEvent::MigrationRolledBack {
                    installation,
                    from,
                    to,
                    reason: self.guest_error->0.label(),
                },
            ),
            MigrationStage::Rollback | MigrationStage::Abandon => MigrationAction::Abort {
                transaction: self.transaction->0,
            },
            MigrationStage::CloseWindow => MigrationAction::CloseWindow { installation },
            MigrationStage::Finished => MigrationAction::Finished,
        }
    }

    /// The work that the migration waits for.
    pub fn action(&self) -> (a: MigrationAction)
        requires
            self.wf(),
        ensures
            a == self.asks(),
    {
        let installation: InstallationId = self.installation;
        let from: StateSchemaVersion = self.from;
        let to: StateSchemaVersion = self.to;
        match self.stage {
            MigrationStage::ReadVersion => MigrationAction::ReadVersion { installation },
            MigrationStage::OpenWindow => MigrationAction::OpenWindow { installation },
            MigrationStage::Begin => MigrationAction::Begin { installation, to },
            MigrationStage::RecordBeginFailure => MigrationAction::Audit(
                StatefulAuditEvent::MigrationFailed { installation, from, to, reason: "begin" },
            ),
            MigrationStage::RecordStart => MigrationAction::Audit(
                StatefulAuditEvent::MigrationStarted { installation, from, to },
            ),
            MigrationStage::CallGuest => MigrationAction::CallGuest {
                transaction: self.transaction.unwrap(),
            },
            MigrationStage::RecordCommit => MigrationAction::Audit(
                StatefulAuditEvent::MigrationCommitted { installation, from, to },
            ),
            MigrationStage::Commit => MigrationAction::Commit { transaction: self.transaction.unwrap() },
            MigrationStage::RecordCommitFailure => MigrationAction::Audit(
                StatefulAuditEvent::MigrationFailed { installation, from, to, reason: "commit" },
            ),
            MigrationStage::RecordRollback => MigrationAction::Audit(
                StatefulAuditEvent::MigrationRolledBack {
                    installation,
                    from,
                    to,
                    reason: self.guest_error.unwrap().audit_label(),
                },
            ),
            MigrationStage::Rollback | MigrationStage::Abandon => MigrationAction::Abort {
                transaction: self.transaction.unwrap(),
            },
            MigrationStage::CloseWindow => MigrationAction::CloseWindow { installation },
            MigrationStage::Finished => MigrationAction::Finished,
        }
    }

    /// What a finished migration came to.
    pub fn into_result(self) -> (r: Result<MigrationOutcome, MigrationError>)
        requires
            self.wf(),
            self.stage == MigrationStage::Finished,
        ensures
            Some(r) == self.result,
    {
        self.result.unwrap()
    }

    /// Whether ordinary state operations wait for this migration.
    pub open spec fn window_is_open(&self) -> bool {
        match self.stage {
            MigrationStage::ReadVersion | MigrationStage::OpenWindow | MigrationStage::Finished => false,
            _ => true,
        }
    }
}

/// Begins migrations.
pub struct StateMigrationService {}

impl StateMigrationService {
    /// A migration of an installation's state from version `from` to version
    /// `to`.
    pub fn migrate(
        installation: InstallationId,
        from: StateSchemaVersion,
        to: StateSchemaVersion,
    ) -> (r: StateMigration)
        ensures
            r.wf(),
            r == (StateMigration {
                installation,
                from,
                to,
                stage: MigrationStage::ReadVersion,
                transaction: None,
                guest_error: None,
                result: None,
            }),
    {
        StateMigration {
            installation,
            from,
            to,
            stage: MigrationStage::ReadVersion,
            transaction: None,
            guest_error: None,
            result: None,
        }
    }
}

/// The states of a migration and the replies that led from each to the next.
pub open spec fn is_migration(states: Seq<StateMigration>, replies: Seq<MigrationReply>) -> bool {
    &&& states.len() == replies.len() + 1
    &&& states[0].stage == MigrationStage::ReadVersion
    &&& states[0].transaction is None
    &&& states[0].guest_error is None
    &&& states[0].result is None
    &&& forall|i: int|
        0 <= i < replies.len() ==> {
            &&& (#[trigger] replies[i]).fits(states[i].stage)
            &&& states[i + 1] == states[i].next(replies[i])
        }
}

/// The order of the stages.
pub open spec fn migration_rank(s: MigrationStage) -> int {
    match s {
        MigrationStage::ReadVersion => 0,
        MigrationStage::OpenWindow => 1,
        MigrationStage::Begin => 2,
        MigrationStage::RecordBeginFailure => 3,
        MigrationStage::RecordStart => 4,
        MigrationStage::CallGuest => 5,
        MigrationStage::RecordCommit => 6,
        MigrationStage::Commit => 7,
        MigrationStage::RecordCommitFailure => 8,
        MigrationStage::RecordRollback => 9,
        MigrationStage::Rollback => 10,
        MigrationStage::Abandon => 11,
        MigrationStage::CloseWindow => 12,
        MigrationStage::Finished => 13,
    }
}

/// Law: every step moves a migration forward, so every migration comes to an
/// end.
pub proof fn law_migration_moves_forward(s: StateMigration, reply: MigrationReply)
    requires
        reply.fits(s.stage),
    ensures
        migration_rank(s.next(reply).stage) > migration_rank(s.stage),
{
}

/// Law: a window that was opened is closed before the migration ends.
pub proof fn law_window_never_left_open(s: StateMigration, reply: MigrationReply)
    requires
        reply.fits(s.stage),
        s.next(reply).stage == MigrationStage::Finished,
    ensures
        s.stage == MigrationStage::CloseWindow || s.stage == MigrationStage::ReadVersion,
        s.stage == MigrationStage::ReadVersion ==> !s.window_is_open(),
{
}

/// Law: a commit is asked for only after the guest has succeeded and the audit
/// log has taken the commit.
pub proof fn law_commit_needs_guest_and_audit(
    states: Seq<StateMigration>,
    replies: Seq<MigrationReply>,
    n: int,
)
    requires
        is_migration(states, replies),
        0 <= n < states.len(),
        states[n].stage == MigrationStage::Commit,
    ensures
        n >= 2,
        states[n - 1].stage == MigrationStage::RecordCommit,
        replies[n - 1] matches MigrationReply::Audited(Ok(_)),
        states[n - 2].stage == MigrationStage::CallGuest,
        replies[n - 2] matches MigrationReply::Guest(Ok(_)),
{
    assert(n >= 1);
    let last = replies[n - 1];
    assert(states[n - 1 + 1] == states[n - 1].next(last));
    assert(n >= 2);
    let before = replies[n - 2];
    assert(states[n - 2 + 1] == states[n - 2].next(before));
}

/// Law: once the guest has failed, the migration never commits and ends as
/// rolled back, or with an error of the store.
pub proof fn law_failed_guest_never_commits(
    states: Seq<StateMigration>,
    replies: Seq<MigrationReply>,
    i: int,
    n: int,
)
    requires
        is_migration(states, replies),
        0 <= i < n < states.len(),
        states[i].stage == MigrationStage::CallGuest,
        replies[i] matches MigrationReply::Guest(Err(_)),
    ensures
        states[n].stage != MigrationStage::Commit,
        states[n].stage == MigrationStage::Finished ==> match states[n].result {
            Some(Ok(MigrationOutcome::RolledBack { from, to, reason })) => replies[i]
                == MigrationReply::Guest(Err(reason)),
            Some(Err(MigrationError::Store(_))) => true,
            _ => false,
        },
{
    lemma_after_guest_failure(states, replies, i, n);
}

proof fn lemma_after_guest_failure(
    states: Seq<StateMigration>,
    replies: Seq<MigrationReply>,
    i: int,
    n: int,
)
    requires
        is_migration(states, replies),
        0 <= i < n < states.len(),
        states[i].stage == MigrationStage::CallGuest,
        replies[i] matches MigrationReply::Guest(Err(_)),
    ensures
        match states[n].stage {
            MigrationStage::RecordRollback | MigrationStage::Rollback => states[n].guest_error == Some(
                replies[i]->Guest_0->Err_0,
            ),
            MigrationStage::CloseWindow | MigrationStage::Finished => match states[n].result {
                Some(Ok(MigrationOutcome::RolledBack { from, to, reason })) => replies[i]
                    == MigrationReply::Guest(Err(reason)),
                Some(Err(MigrationError::Store(_))) => true,
                _ => false,
            },
            _ => false,
        },
    decreases n,
{
    let reply = replies[n - 1];
    assert(reply.fits(states[n - 1].stage));
    assert(states[n - 1 + 1] == states[n - 1].next(reply));
    if i < n - 1 {
        lemma_after_guest_failure(states, replies, i, n - 1);
    } else {
        assert(replies[i]->Guest_0 is Err);
    }
}

/// Law: a migration reports success exactly where the store committed.
pub proof fn law_migrated_means_committed(s: StateMigration, reply: MigrationReply)
    requires
        reply.fits(s.stage),
        !(s.result matches Some(Ok(MigrationOutcome::Migrated { from, to }))),
    ensures
        (s.next(reply).result matches Some(Ok(MigrationOutcome::Migrated { from, to }))) <==> (s.stage
            == MigrationStage::Commit && (reply matches MigrationReply::Ended(Ok(_)))),
{
}

/// Law: where the store cannot commit, the transaction is given up before the
/// migration ends, whatever the audit log says, and the caller hears of the
/// store's failure or else of the log's.
pub proof fn law_failed_commit_is_given_up(
    s: StateMigration,
    e: StateStoreError,
    audited: Result<(), AuditError>,
    ended: Result<(), StateStoreError>,
)
    requires
        s.wf(),
        s.stage == MigrationStage::Commit,
        !(e is TransactionConflict),
    ensures
        ({
            let recorded = s.next(MigrationReply::Ended(Err(e))).next(MigrationReply::Audited(audited));
            let left = recorded.next(MigrationReply::Ended(ended));
            &&& recorded.asks() == (MigrationAction::Abort { transaction: s.transaction->0 })
            &&& left.stage == MigrationStage::CloseWindow
            &&& left.result == Some(
                Err::<MigrationOutcome, MigrationError>(
                    match audited {
                        Ok(_) => MigrationError::Store(e),
                        Err(a) => MigrationError::Audit(a),
                    },
                ),
            )
        }),
{
}

/// The transaction has ended by the work of this step: it was committed, it was
/// found to have ended already, or it was given up.
pub open spec fn ends_transaction(s: StateMigration, reply: MigrationReply) -> bool {
    match s.stage {
        MigrationStage::Commit => match reply {
            MigrationReply::Ended(Ok(_)) => true,
            MigrationReply::Ended(Err(e)) => e is TransactionConflict,
            _ => false,
        },
        MigrationStage::Rollback | MigrationStage::Abandon => true,
        _ => false,
    }
}

/// Law: no transaction is left open. A migration that began one has it committed,
/// or finds that it has ended, or gives it up, before it ends.
pub proof fn law_no_transaction_is_left_open(
    states: Seq<StateMigration>,
    replies: Seq<MigrationReply>,
    n: int,
)
    requires
        is_migration(states, replies),
        0 <= n < states.len(),
        states[n].stage == MigrationStage::Finished,
        states[n].transaction is Some,
    ensures
        exists|i: int| 0 <= i < n && ends_transaction(#[trigger] states[i], replies[i]),
{
    lemma_transaction_ends(states, replies, n);
}

proof fn lemma_transaction_ends(states: Seq<StateMigration>, replies: Seq<MigrationReply>, n: int)
    requires
        is_migration(states, replies),
        0 <= n < states.len(),
    ensures
        migration_rank(states[n].stage) <= migration_rank(MigrationStage::RecordBeginFailure)
            ==> states[n].transaction is None,
        states[n].transaction is Some && (states[n].stage == MigrationStage::CloseWindow || states[n].stage
            == MigrationStage::Finished || (states[n].stage == MigrationStage::RecordCommitFailure
            && states[n].lost_transaction())) ==> exists|i: int|
            0 <= i < n && ends_transaction(#[trigger] states[i], replies[i]),
    decreases n,
{
    if n > 0 {
        let s = states[n - 1];
        let reply = replies[n - 1];
        assert(reply.fits(s.stage));
        assert(states[n - 1 + 1] == s.next(reply));
        lemma_transaction_ends(states, replies, n - 1);
        if ends_transaction(s, reply) {
            assert(ends_transaction(states[n - 1], replies[n - 1]));
        }
    }
}

/// Law: a migration to the version that the store already has is done at once
/// and touches nothing, so a migration may be repeated.
pub proof fn law_migration_is_idempotent(s: StateMigration)
    requires
        s.stage == MigrationStage::ReadVersion,
    ensures
        s.next(MigrationReply::Version(Ok(Some(s.to)))) == s.with_result(
            MigrationStage::Finished,
            Ok(MigrationOutcome::AlreadyAtTarget { version: s.to }),
        ),
{
}

/// Law: a migration forward is taken up however far it goes. Where the store is at
/// the version to migrate from and the version to migrate to is a later one, the
/// window is opened next; and the range is refused only where it is not a later one.
pub proof fn law_forward_migration_is_taken_up(s: StateMigration)
    requires
        s.stage == MigrationStage::ReadVersion,
        s.result is None,
    ensures
        s.to.value > s.from.value ==> s.next(MigrationReply::Version(Ok(Some(s.from)))).stage
            == MigrationStage::OpenWindow,
        s.to.value > s.from.value ==> s.next(MigrationReply::Version(Ok(Some(s.from)))).result is None,
        s.to.value < s.from.value ==> s.next(MigrationReply::Version(Ok(Some(s.from)))).result == Some(
            Err::<MigrationOutcome, MigrationError>(
                MigrationError::UnsupportedVersionRange { from: s.from, to: s.to },
            ),
        ),
        forall|version: Result<Option<StateSchemaVersion>, StateStoreError>|
            (#[trigger] s.next(MigrationReply::Version(version))).result matches Some(
                Err(MigrationError::UnsupportedVersionRange { from, to }),
            ) ==> s.to.value <= s.from.value && version == Ok::<Option<StateSchemaVersion>, StateStoreError>(
                Some(s.from),
            ),
{
}

/// Law: what the store's version decides. An empty store has nothing to migrate, a
/// store at the target is done, a store at any other version than the plan's is a
/// stale plan, and a store that cannot be read is the store's failure; none of these
/// opens the window.
pub proof fn law_store_version_decides(
    s: StateMigration,
    current: StateSchemaVersion,
    lost: StateStoreError,
)
    requires
        s.stage == MigrationStage::ReadVersion,
    ensures
        ({
            let empty = s.next(MigrationReply::Version(Ok(None)));
            &&& empty.stage == MigrationStage::Finished
            &&& empty.result == Some(
                Ok::<MigrationOutcome, MigrationError>(MigrationOutcome::NothingToMigrate),
            )
        }),
        current == s.to ==> ({
            let done = s.next(MigrationReply::Version(Ok(Some(current))));
            &&& done.stage == MigrationStage::Finished
            &&& done.result == Some(
                Ok::<MigrationOutcome, MigrationError>(
                    MigrationOutcome::AlreadyAtTarget { version: current },
                ),
            )
        }),
        current != s.to && current != s.from ==> ({
            let stale = s.next(MigrationReply::Version(Ok(Some(current))));
            &&& stale.stage == MigrationStage::Finished
            &&& stale.result == Some(
                Err::<MigrationOutcome, MigrationError>(
                    MigrationError::UnexpectedStoreVersion {
                        installation: s.installation,
                        expected: s.from,
                        current,
                    },
                ),
            )
        }),
        ({
            let failed = s.next(MigrationReply::Version(Err(lost)));
            &&& failed.stage == MigrationStage::Finished
            &&& failed.result == Some(Err::<MigrationOutcome, MigrationError>(MigrationError::Store(lost)))
        }),
{
}

/// The work was done.
pub open spec fn went_well(reply: MigrationReply) -> bool {
    match reply {
        MigrationReply::Version(r) => r is Ok,
        MigrationReply::Window => true,
        MigrationReply::Begun(r) => r is Ok,
        MigrationReply::Audited(r) => r is Ok,
        MigrationReply::Guest(r) => r is Ok,
        MigrationReply::Ended(r) => r is Ok,
    }
}

/// Law: a migration forward whose work all goes well migrates. Its work is, in this
/// order: the window is opened, a transaction is begun, the start is recorded, the
/// guest is called in that transaction, the commit is recorded, the same transaction
/// is committed, and the window is closed; the outcome names both versions.
pub proof fn law_migration_that_goes_well_migrates(
    states: Seq<StateMigration>,
    replies: Seq<MigrationReply>,
    transaction: u64,
)
    requires
        is_migration(states, replies),
        replies.len() == 8,
        states[0].to.value > states[0].from.value,
        replies[0] == MigrationReply::Version(Ok(Some(states[0].from))),
        replies[2] == MigrationReply::Begun(Ok(transaction)),
        forall|i: int| 0 <= i < 8 ==> went_well(#[trigger] replies[i]),
    ensures
        ({
            let installation = states[0].installation;
            let from = states[0].from;
            let to = states[0].to;
            &&& states[0].asks() == (MigrationAction::ReadVersion { installation })
            &&& states[1].asks() == (MigrationAction::OpenWindow { installation })
            &&& states[2].asks() == (MigrationAction::Begin { installation, to })
            &&& states[3].asks() == MigrationAction::Audit(
                StatefulAuditEvent::MigrationStarted { installation, from, to },
            )
            &&& states[4].asks() == (MigrationAction::CallGuest { transaction })
            &&& states[5].asks() == MigrationAction::Audit(
                StatefulAuditEvent::MigrationCommitted { installation, from, to },
            )
            &&& states[6].asks() == (MigrationAction::Commit { transaction })
            &&& states[7].asks() == (MigrationAction::CloseWindow { installation })
            &&& states[8].stage == MigrationStage::Finished
            &&& states[8].result == Some(
                Ok::<MigrationOutcome, MigrationError>(MigrationOutcome::Migrated { from, to }),
            )
        }),
{
    assert(went_well(replies[0]) && states[0int + 1] == states[0].next(replies[0]));
    assert(replies[1].fits(states[1].stage) && states[1int + 1] == states[1].next(replies[1]));
    assert(went_well(replies[2]) && states[2int + 1] == states[2].next(replies[2]));
    assert(replies[3].fits(states[3].stage) && went_well(replies[3]) && states[3int + 1] == states[3].next(
        replies[3],
    ));
    assert(replies[4].fits(states[4].stage) && went_well(replies[4]) && states[4int + 1] == states[4].next(
        replies[4],
    ));
    assert(replies[5].fits(states[5].stage) && went_well(replies[5]) && states[5int + 1] == states[5].next(
        replies[5],
    ));
    assert(replies[6].fits(states[6].stage) && went_well(replies[6]) && states[6int + 1] == states[6].next(
        replies[6],
    ));
    assert(replies[7].fits(states[7].stage) && states[7int + 1] == states[7].next(replies[7]));
}

/// Law: what a migration is about never changes, and a transaction once begun is the
/// one that the guest writes in and that is committed or given up.
pub proof fn law_migration_keeps_its_subject(s: StateMigration, reply: MigrationReply)
    requires
        s.wf(),
        reply.fits(s.stage),
    ensures
        s.next(reply).installation == s.installation,
        s.next(reply).from == s.from,
        s.next(reply).to == s.to,
        s.stage == MigrationStage::Begin ==> s.next(reply).transaction == match reply->Begun_0 {
            Ok(transaction) => Some(transaction),
            Err(_) => s.transaction,
        },
        s.stage != MigrationStage::Begin ==> s.next(reply).transaction == s.transaction,
        s.asks() matches MigrationAction::CallGuest { transaction } ==> s.transaction == Some(transaction),
        s.asks() matches MigrationAction::Commit { transaction } ==> s.transaction == Some(transaction),
        s.asks() matches MigrationAction::Abort { transaction } ==> s.transaction == Some(transaction),
{
}

/// Law: how a transaction fails to begin decides what the caller hears: another one
/// that is open is a matter of waiting, a version that the store refuses is an
/// unsupported range, and anything else is the store's failure, which the audit log
/// hears of.
pub proof fn law_begin_failures_are_told_apart(s: StateMigration, e: StateStoreError)
    requires
        s.wf(),
        s.stage == MigrationStage::Begin,
    ensures
        ({
            let next = s.next(MigrationReply::Begun(Err(e)));
            match e {
                StateStoreError::TransactionConflict(_) => {
                    &&& next.stage == MigrationStage::CloseWindow
                    &&& next.result == Some(Err::<MigrationOutcome, MigrationError>(MigrationError::Busy))
                },
                StateStoreError::SchemaVersionMismatch { installation, current, requested } => {
                    &&& next.stage == MigrationStage::CloseWindow
                    &&& next.result == Some(
                        Err::<MigrationOutcome, MigrationError>(
                            MigrationError::UnsupportedVersionRange { from: s.from, to: s.to },
                        ),
                    )
                },
                _ => {
                    &&& next.result == Some(Err::<MigrationOutcome, MigrationError>(MigrationError::Store(e)))
                    &&& next.asks() == MigrationAction::Audit(
                        StatefulAuditEvent::MigrationFailed {
                            installation: s.installation,
                            from: s.from,
                            to: s.to,
                            reason: "begin",
                        },
                    )
                },
            }
        }),
{
}

/// Law: a guest that fails is rolled back: the audit log hears why, the transaction
/// is given up whatever the log says, and the caller hears both versions and why,
/// or else that the store could not give the transaction up.
pub proof fn law_failed_guest_is_rolled_back(
    s: StateMigration,
    reason: MigrationGuestError,
    audited: Result<(), AuditError>,
    ended: Result<(), StateStoreError>,
)
    requires
        s.wf(),
        s.stage == MigrationStage::CallGuest,
    ensures
        ({
            let failed = s.next(MigrationReply::Guest(Err(reason)));
            let recorded = failed.next(MigrationReply::Audited(audited));
            let left = recorded.next(MigrationReply::Ended(ended));
            &&& failed.asks() matches MigrationAction::Audit(
                StatefulAuditEvent::MigrationRolledBack { installation, from, to, reason: noted },
            )
            &&& installation == s.installation && from == s.from && to == s.to
            &&& match reason {
                MigrationGuestError::UnsupportedVersionRange => noted == "unsupported-version-range",
                MigrationGuestError::MalformedSource => noted == "malformed-source",
                MigrationGuestError::OverBudget => noted == "over-budget",
                MigrationGuestError::Internal => noted == "guest-internal",
                MigrationGuestError::Host(seen) => noted == seen,
            }
            &&& recorded.asks() == (MigrationAction::Abort { transaction: s.transaction->0 })
            &&& left.asks() == (MigrationAction::CloseWindow { installation: s.installation })
            &&& left.result == Some(
                match ended {
                    Ok(_) => Ok::<MigrationOutcome, MigrationError>(
                        MigrationOutcome::RolledBack { from: s.from, to: s.to, reason },
                    ),
                    Err(e) => Err(MigrationError::Store(e)),
                },
            )
        }),
{
}

/// Law: a migration that the audit log cannot follow is given up: the transaction is
/// aborted, and the caller hears of the log.
pub proof fn law_unrecorded_migration_is_given_up(
    s: StateMigration,
    e: AuditError,
    ended: Result<(), StateStoreError>,
)
    requires
        s.wf(),
        s.stage == MigrationStage::RecordStart || s.stage == MigrationStage::RecordCommit,
    ensures
        ({
            let failed = s.next(MigrationReply::Audited(Err(e)));
            let left = failed.next(MigrationReply::Ended(ended));
            &&& failed.asks() == (MigrationAction::Abort { transaction: s.transaction->0 })
            &&& left.asks() == (MigrationAction::CloseWindow { installation: s.installation })
            &&& left.result == Some(Err::<MigrationOutcome, MigrationError>(MigrationError::Audit(e)))
        }),
{
}

/// Law: a transaction that had ended before it could be committed is a conflict, which
/// the audit log hears of as a failed commit.
pub proof fn law_lost_transaction_is_a_conflict(s: StateMigration, e: StateStoreError)
    requires
        s.wf(),
        s.stage == MigrationStage::Commit,
        e is TransactionConflict,
    ensures
        ({
            let failed = s.next(MigrationReply::Ended(Err(e)));
            let left = failed.next(MigrationReply::Audited(Ok(())));
            &&& failed.asks() == MigrationAction::Audit(
                StatefulAuditEvent::MigrationFailed {
                    installation: s.installation,
                    from: s.from,
                    to: s.to,
                    reason: "commit",
                },
            )
            &&& left.asks() == (MigrationAction::CloseWindow { installation: s.installation })
            &&& left.result == Some(Err::<MigrationOutcome, MigrationError>(MigrationError::Conflict))
        }),
{
}

/// Law: a result once reached is what the caller hears: giving the transaction up
/// and closing the window do not change it. A failure to begin is heard as such,
/// unless the log could not take it.
pub proof fn law_result_is_kept_to_the_end(s: StateMigration, reply: MigrationReply)
    requires
        s.wf(),
        reply.fits(s.stage),
    ensures
        s.stage == MigrationStage::Abandon ==> {
            &&& s.next(reply).result == s.result
            &&& s.next(reply).asks() == (MigrationAction::CloseWindow { installation: s.installation })
        },
        s.stage == MigrationStage::CloseWindow ==> {
            &&& s.next(reply).result == s.result
            &&& s.next(reply).stage == MigrationStage::Finished
        },
        s.stage == MigrationStage::RecordBeginFailure ==> {
            &&& s.next(reply).asks() == (MigrationAction::CloseWindow { installation: s.installation })
            &&& s.next(reply).result == match reply->Audited_0 {
                Ok(_) => s.result,
                Err(e) => Some(Err::<MigrationOutcome, MigrationError>(MigrationError::Audit(e))),
            }
        },
{
}

/// Law: ordinary state operations wait from when the window was opened until it is
/// closed.
pub proof fn law_operations_wait_while_the_window_is_open(s: StateMigration, reply: MigrationReply)
    requires
        s.wf(),
        reply.fits(s.stage),
    ensures
        s.asks() is ReadVersion || s.asks() is OpenWindow || s.asks() is Finished <==> !s.window_is_open(),
        s.asks() is OpenWindow ==> s.next(reply).window_is_open(),
        s.asks() is CloseWindow ==> !s.next(reply).window_is_open(),
        s.window_is_open() && !(s.asks() is CloseWindow) ==> s.next(reply).window_is_open(),
{
}

} // verus!
