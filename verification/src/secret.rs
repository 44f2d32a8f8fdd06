//! Secrets: a guest reads those it was granted, an administrator rotates and
//! deletes them.
//!
//! An operation goes step by step. Each step says what the host does next: ask
//! the store, ask the cipher, or keep an audit event and then give the answer
//! out. The plain bytes are nowhere but in the answer of a read.
use vstd::prelude::*;

use crate::audit::StatefulAuditEvent;
use crate::ports::{AuditError, GrantError, SecretStoreError};
use crate::secret_bytes::SecretBytes;
use crate::values::{ErrorSource, InstallationId, SecretName, SecretVersion};

verus! {

/// Why a secret could not be read, listed, rotated or deleted. No variant carries
/// the secret.
#[derive(Debug, PartialEq, Eq)]
pub enum SecretError {
    /// Not granted, or not there: which of the two is not told.
    Denied,
    Unavailable,
    Corrupt,
    OverBudget,
    Grant(GrantError),
    Store(SecretStoreError),
    Audit(AuditError),
    Internal(&'static str),
}

impl SecretError {
    pub open spec fn label(&self) -> &'static str {
        match *self {
            SecretError::Denied => "denied",
            SecretError::Unavailable => "unavailable",
            SecretError::Corrupt => "corrupt",
            SecretError::OverBudget => "over-budget",
            SecretError::Grant(_) => "grant-set-failure",
            SecretError::Store(_) => "store-failure",
            SecretError::Audit(_) => "audit-failure",
            SecretError::Internal(_) => "internal",
        }
    }

    /// What the audit log calls the error.
    pub fn audit_label(&self) -> (r: &'static str)
        ensures
            r == self.label(),
    {
        match self {
            SecretError::Denied => "denied",
            SecretError::Unavailable => "unavailable",
            SecretError::Corrupt => "corrupt",
            SecretError::OverBudget => "over-budget",
            SecretError::Grant(_) => "grant-set-failure",
            SecretError::Store(_) => "store-failure",
            SecretError::Audit(_) => "audit-failure",
            SecretError::Internal(_) => "internal",
        }
    }
}

/// How the cipher fails.
#[derive(Debug, PartialEq, Eq)]
pub enum CipherError {
    Decryption,
    OverBudget,
    Encryption,
    KeyUnavailable(ErrorSource),
    CorruptKey,
}

/// What a failure of the store is to a caller.
pub open spec fn store_error(error: SecretStoreError) -> SecretError {
    match error {
        SecretStoreError::NotFound(_) => SecretError::Store(error),
        SecretStoreError::InvalidArgument(_) => SecretError::OverBudget,
        SecretStoreError::Corrupt(_) => SecretError::Corrupt,
        SecretStoreError::Storage(_) => SecretError::Store(error),
    }
}

/// What a failure of the store is to a caller.
fn map_store_error(error: SecretStoreError) -> (r: SecretError)
    ensures
        r == store_error(error),
{
    match error {
        SecretStoreError::NotFound(what) => SecretError::Store(SecretStoreError::NotFound(what)),
        SecretStoreError::InvalidArgument(_) => SecretError::OverBudget,
        SecretStoreError::Corrupt(_) => SecretError::Corrupt,
        SecretStoreError::Storage(source) => SecretError::Store(SecretStoreError::Storage(source)),
    }
}

/// What a failure of the cipher is to a caller.
pub open spec fn cipher_error(error: CipherError) -> SecretError {
    match error {
        CipherError::Decryption => SecretError::Corrupt,
        CipherError::OverBudget => SecretError::OverBudget,
        CipherError::Encryption => SecretError::Internal("secret encryption failed"),
        CipherError::KeyUnavailable(_) => SecretError::Unavailable,
        CipherError::CorruptKey => SecretError::Corrupt,
    }
}

/// What a failure of the cipher is to a caller.
fn map_cipher_error(error: CipherError) -> (r: SecretError)
    ensures
        r == cipher_error(error),
{
    match error {
        CipherError::Decryption => SecretError::Corrupt,
        CipherError::OverBudget => SecretError::OverBudget,
        CipherError::Encryption => SecretError::Internal("secret encryption failed"),
        CipherError::KeyUnavailable(_) => SecretError::Unavailable,
        CipherError::CorruptKey => SecretError::Corrupt,
    }
}

/// A secret as the store keeps it.
#[derive(Debug, PartialEq, Eq)]
pub struct SecretCiphertextRecord {
    pub name: SecretName,
    pub version: SecretVersion,
    pub ciphertext: Vec<u8>,
}

/// What may be told of a secret.
#[derive(Debug, PartialEq, Eq)]
pub struct SecretMetadata {
    pub name: SecretName,
    pub version: SecretVersion,
}

impl Clone for SecretMetadata {
    fn clone(&self) -> (r: Self)
        ensures
            r == *self,
    {
        SecretMetadata { name: self.name.clone(), version: self.version }
    }
}

/// An answer that is due once its audit event is kept.
#[derive(Debug)]
pub struct SecretAnswer<T> {
    pub event: StatefulAuditEvent,
    pub outcome: Result<T, SecretError>,
}

impl<T> SecretAnswer<T> {
    /// Gives the answer out. Where the event could not be kept, that is the
    /// answer.
    pub fn settle(self, audited: Result<(), AuditError>) -> (r: Result<T, SecretError>)
        ensures
            r == match audited {
                Ok(_) => self.outcome,
                Err(e) => Err(SecretError::Audit(e)),
            },
    {
        match audited {
            Ok(_) => self.outcome,
            Err(e) => Err(SecretError::Audit(e)),
        }
    }
}

/// What the host does next in a read.
#[derive(Debug)]
pub enum ReadStep {
    /// Answer with an error, without an audit event.
    Refuse(SecretError),
    /// Ask the store for the secret.
    Fetch,
    /// Have the cipher decrypt what the store keeps.
    Decrypt(SecretCiphertextRecord),
    /// Keep the event and give the answer out.
    Answer(SecretAnswer<SecretBytes>),
}

/// What the host does next in a listing.
#[derive(Debug)]
pub enum ListStep {
    /// Answer with an error, without an audit event.
    Refuse(SecretError),
    /// Ask the store for all that it holds; these names are granted.
    List(Vec<SecretName>),
}

/// What the host does next in a rotation.
#[derive(Debug)]
pub enum RotateStep {
    /// Have the store keep the ciphertext.
    Store(Vec<u8>),
    /// Keep the event and give the answer out.
    Answer(SecretAnswer<SecretVersion>),
}

/// The name is among those granted.
pub open spec fn is_granted(granted: Seq<SecretName>, name: Seq<char>) -> bool {
    exists|i: int| 0 <= i < granted.len() && (#[trigger] granted[i])@ == name
}

fn grants_name(granted: &Vec<SecretName>, name: &SecretName) -> (r: bool)
    ensures
        r == is_granted(granted@, name@),
{
    let mut i: usize = 0;
    while i < granted.len()
        invariant
            i <= granted@.len(),
            forall|j: int| 0 <= j < i ==> (#[trigger] granted@[j])@ != name@,
        decreases granted@.len() - i,
    {
        if granted[i].same(name) {
            assert(granted@[i as int]@ == name@);
            return true;
        }
        i = i + 1;
    }
    false
}

/// Those of a list whose names are granted, in its order.
pub open spec fn only_granted(all: Seq<SecretMetadata>, granted: Seq<SecretName>) -> Seq<SecretMetadata>
    decreases all.len(),
{
    if all.len() == 0 {
        Seq::empty()
    } else if is_granted(granted, all.last().name@) {
        only_granted(all.drop_last(), granted).push(all.last())
    } else {
        only_granted(all.drop_last(), granted)
    }
}

/// The secrets of a host's installations.
#[derive(Debug)]
pub struct SecretService {}

impl SecretService {
    pub open spec fn denied_event(installation: InstallationId, name: SecretName) -> StatefulAuditEvent {
        StatefulAuditEvent::SecretDenied { installation, name }
    }

    pub open spec fn failed_event(
        installation: InstallationId,
        name: Option<SecretName>,
        error: SecretError,
    ) -> StatefulAuditEvent {
        StatefulAuditEvent::SecretFailed { installation, name, reason: error.label() }
    }

    fn failed<T>(installation: InstallationId, name: Option<SecretName>, error: SecretError) -> (r:
        SecretAnswer<T>)
        ensures
            r.event == Self::failed_event(installation, name, error),
            r.outcome == Err::<T, SecretError>(error),
    {
        SecretAnswer {
            event: StatefulAuditEvent::SecretFailed { installation, name, reason: error.audit_label() },
            outcome: Err(error),
        }
    }

    fn denied(installation: InstallationId, name: &SecretName) -> (r: SecretAnswer<SecretBytes>)
        ensures
            r.event == Self::denied_event(installation, *name),
            r.outcome == Err::<SecretBytes, SecretError>(SecretError::Denied),
    {
        SecretAnswer {
            event: StatefulAuditEvent::SecretDenied { installation, name: name.clone() },
            outcome: Err(SecretError::Denied),
        }
    }

    /// What the host does next in a read, from what the grant store said.
    pub open spec fn step_after_grant(
        installation: InstallationId,
        name: SecretName,
        granted: Result<Vec<SecretName>, GrantError>,
    ) -> ReadStep {
        match granted {
            Err(e) => ReadStep::Refuse(SecretError::Grant(e)),
            Ok(names) => if is_granted(names@, name@) {
                ReadStep::Fetch
            } else {
                ReadStep::Answer(
                    SecretAnswer {
                        event: Self::denied_event(installation, name),
                        outcome: Err(SecretError::Denied),
                    },
                )
            },
        }
    }

    /// What the host does next in a read, from what the store said.
    pub open spec fn step_after_fetch(
        installation: InstallationId,
        name: SecretName,
        stored: Result<Option<SecretCiphertextRecord>, SecretStoreError>,
    ) -> ReadStep {
        match stored {
            Ok(Some(record)) => ReadStep::Decrypt(record),
            Ok(None) => ReadStep::Answer(
                SecretAnswer {
                    event: Self::denied_event(installation, name),
                    outcome: Err(SecretError::Denied),
                },
            ),
            Err(error) => ReadStep::Answer(
                SecretAnswer {
                    event: Self::failed_event(installation, Some(name), store_error(error)),
                    outcome: Err(store_error(error)),
                },
            ),
        }
    }

    /// Begins a read, from what the grant store said the installation may read.
    pub fn read_secret(
        installation: InstallationId,
        name: &SecretName,
        granted: Result<Vec<SecretName>, GrantError>,
    ) -> (r: ReadStep)
        ensures
            r == Self::step_after_grant(installation, *name, granted),
    {
        match granted {
            Err(e) => ReadStep::Refuse(SecretError::Grant(e)),
            Ok(names) => if grants_name(&names, name) {
                ReadStep::Fetch
            } else {
                ReadStep::Answer(Self::denied(installation, name))
            },
        }
    }

    /// Goes on with a read, from what the store said.
    pub fn fetched(
        installation: InstallationId,
        name: &SecretName,
        stored: Result<Option<SecretCiphertextRecord>, SecretStoreError>,
    ) -> (r: ReadStep)
        ensures
            r == Self::step_after_fetch(installation, *name, stored),
    {
        match stored {
            Ok(Some(record)) => ReadStep::Decrypt(record),
            Ok(None) => ReadStep::Answer(Self::denied(installation, name)),
            Err(error) => ReadStep::Answer(
                Self::failed(installation, Some(name.clone()), map_store_error(error)),
            ),
        }
    }

    /// The audit event of a read that got as far as the cipher.
    pub open spec fn decrypted_event(
        installation: InstallationId,
        name: SecretName,
        version: SecretVersion,
        failure: Option<CipherError>,
    ) -> StatefulAuditEvent {
        match failure {
            None => StatefulAuditEvent::SecretRead { installation, name, version },
            Some(error) => Self::failed_event(installation, Some(name), cipher_error(error)),
        }
    }

    /// Ends a read, from what the cipher said.
    pub fn decrypted(
        installation: InstallationId,
        name: &SecretName,
        version: SecretVersion,
        plaintext: Result<SecretBytes, CipherError>,
    ) -> (r: SecretAnswer<SecretBytes>)
        ensures
            r.event == Self::decrypted_event(
                installation,
                *name,
                version,
                failure_of(plaintext),
            ),
            r.outcome == match plaintext {
                Ok(bytes) => Ok(bytes),
                Err(error) => Err(cipher_error(error)),
            },
    {
        match plaintext {
            Ok(bytes) => SecretAnswer {
                event: StatefulAuditEvent::SecretRead { installation, name: name.clone(), version },
                outcome: Ok(bytes),
            },
            Err(error) => Self::failed(installation, Some(name.clone()), map_cipher_error(error)),
        }
    }

    /// Begins a listing, from what the grant store said the installation may read.
    /// Where the grant store failed that is the answer, without an audit event.
    pub fn list_granted_secrets(granted: Result<Vec<SecretName>, GrantError>) -> (r: ListStep)
        ensures
            r == match granted {
                Ok(names) => ListStep::List(names),
                Err(e) => ListStep::Refuse(SecretError::Grant(e)),
            },
    {
        match granted {
            Ok(names) => ListStep::List(names),
            Err(e) => ListStep::Refuse(SecretError::Grant(e)),
        }
    }

    /// Ends a listing, from what the store said. Only names that are granted are
    /// told.
    pub fn listed(
        installation: InstallationId,
        names: &Vec<SecretName>,
        listed: Result<Vec<SecretMetadata>, SecretStoreError>,
    ) -> (r: SecretAnswer<Vec<SecretMetadata>>)
        ensures
            match listed {
                Ok(all) => {
                    let shown = only_granted(all@, names@);
                    &&& r.outcome is Ok
                    &&& r.outcome->Ok_0@ == shown
                    &&& r.event == (StatefulAuditEvent::SecretListed {
                        installation,
                        names: shown.len() as usize,
                    })
                },
                Err(error) => {
                    &&& r.outcome == Err::<Vec<SecretMetadata>, SecretError>(store_error(error))
                    &&& r.event == Self::failed_event(installation, None, store_error(error))
                },
            },
    {
        let all: Vec<SecretMetadata> = match listed {
            Ok(all) => all,
            Err(error) => return Self::failed(installation, None, map_store_error(error)),
        };
        let mut shown: Vec<SecretMetadata> = Vec::new();
        let mut i: usize = 0;
        while i < all.len()
            invariant
                i <= all@.len(),
                shown@ == only_granted(all@.take(i as int), names@),
            decreases all@.len() - i,
        {
            proof {
                assert(all@.take(i + 1).drop_last() =~= all@.take(i as int));
            }
            if grants_name(names, &all[i].name) {
                shown.push(all[i].clone());
            }
            i = i + 1;
        }
        assert(all@.take(i as int) =~= all@);
        SecretAnswer {
            event: StatefulAuditEvent::SecretListed { installation, names: shown.len() },
            outcome: Ok(shown),
        }
    }

    /// Begins a rotation, from what the cipher made of the new secret.
    pub fn rotate(
        installation: InstallationId,
        name: &SecretName,
        encrypted: Result<Vec<u8>, CipherError>,
    ) -> (r: RotateStep)
        ensures
            r == match encrypted {
                Ok(ciphertext) => RotateStep::Store(ciphertext),
                Err(error) => RotateStep::Answer(
                    SecretAnswer {
                        event: Self::failed_event(installation, Some(*name), cipher_error(error)),
                        outcome: Err(cipher_error(error)),
                    },
                ),
            },
    {
        match encrypted {
            Ok(ciphertext) => RotateStep::Store(ciphertext),
            Err(error) => RotateStep::Answer(
                Self::failed(installation, Some(name.clone()), map_cipher_error(error)),
            ),
        }
    }

    /// Ends a rotation, from what the store said.
    pub fn stored(
        installation: InstallationId,
        name: &SecretName,
        stored: Result<SecretVersion, SecretStoreError>,
    ) -> (r: SecretAnswer<SecretVersion>)
        ensures
            r == match stored {
                Ok(version) => SecretAnswer {
                    event: StatefulAuditEvent::SecretRotated { installation, name: *name, version },
                    outcome: Ok(version),
                },
                Err(error) => SecretAnswer {
                    event: Self::failed_event(installation, Some(*name), store_error(error)),
                    outcome: Err(store_error(error)),
                },
            },
    {
        match stored {
            Ok(version) => SecretAnswer {
                event: StatefulAuditEvent::SecretRotated { installation, name: name.clone(), version },
                outcome: Ok(version),
            },
            Err(error) => Self::failed(installation, Some(name.clone()), map_store_error(error)),
        }
    }

    /// Answers a deletion, from what the store said.
    pub fn delete(
        installation: InstallationId,
        name: &SecretName,
        deleted: Result<(), SecretStoreError>,
    ) -> (r: SecretAnswer<()>)
        ensures
            r == match deleted {
                Ok(_) => SecretAnswer {
                    event: StatefulAuditEvent::SecretDeleted { installation, name: *name },
                    outcome: Ok::<(), SecretError>(()),
                },
                Err(error) => SecretAnswer {
                    event: Self::failed_event(installation, Some(*name), store_error(error)),
                    outcome: Err(store_error(error)),
                },
            },
    {
        match deleted {
            Ok(_) => SecretAnswer {
                event: StatefulAuditEvent::SecretDeleted { installation, name: name.clone() },
                outcome: Ok(()),
            },
            Err(error) => Self::failed(installation, Some(name.clone()), map_store_error(error)),
        }
    }
}

/// The audit log never learns a secret: whatever the plain bytes are, a read of
/// one version makes the same event.
pub proof fn law_audit_hides_the_secret(
    installation: InstallationId,
    name: SecretName,
    version: SecretVersion,
    one: SecretBytes,
    other: SecretBytes,
)
    ensures
        SecretService::decrypted_event(
            installation,
            name,
            version,
            failure_of(Ok::<SecretBytes, CipherError>(one)),
        ) == SecretService::decrypted_event(
            installation,
            name,
            version,
            failure_of(Ok::<SecretBytes, CipherError>(other)),
        ),
{
}

/// A denial tells nothing: a secret that was not granted and one that is not
/// there have the same answer, and leave the same event in the audit log.
pub proof fn law_denial_tells_nothing(
    installation: InstallationId,
    name: SecretName,
    granted: Vec<SecretName>,
)
    requires
        !is_granted(granted@, name@),
    ensures
        SecretService::step_after_grant(installation, name, Ok(granted))
            == SecretService::step_after_fetch(installation, name, Ok(None)),
{
}

/// The store is asked for a secret only where the name was granted.
pub proof fn law_store_is_asked_only_for_granted_names(
    installation: InstallationId,
    name: SecretName,
    granted: Result<Vec<SecretName>, GrantError>,
)
    ensures
        SecretService::step_after_grant(installation, name, granted) is Fetch <==> granted is Ok
            && is_granted(granted->Ok_0@, name@),
{
}

/// How the cipher failed, if it did.
pub open spec fn failure_of(plaintext: Result<SecretBytes, CipherError>) -> Option<CipherError> {
    match plaintext {
        Ok(_) => None,
        Err(error) => Some(error),
    }
}

/// A listing tells of nothing that was not granted, and of all that was: each
/// entry of the store is shown where its name is granted, and only there.
pub proof fn law_listing_stays_within_the_grant(
    all: Seq<SecretMetadata>,
    granted: Seq<SecretName>,
    entry: SecretMetadata,
)
    ensures
        only_granted(all, granted).contains(entry) <==> all.contains(entry) && is_granted(
            granted,
            entry.name@,
        ),
    decreases all.len(),
{
    if all.len() > 0 {
        let fewer = all.drop_last();
        let shown = only_granted(fewer, granted);
        law_listing_stays_within_the_grant(fewer, granted, entry);
        if all.contains(entry) {
            let i = choose|i: int| 0 <= i < all.len() && all[i] == entry;
            if i < fewer.len() {
                assert(fewer[i] == entry);
            }
        }
        if fewer.contains(entry) {
            let i = choose|i: int| 0 <= i < fewer.len() && fewer[i] == entry;
            assert(all[i] == entry);
        }
        if is_granted(granted, all.last().name@) {
            let more = shown.push(all.last());
            assert(more[shown.len() as int] == all.last());
            if shown.contains(entry) {
                let i = choose|i: int| 0 <= i < shown.len() && shown[i] == entry;
                assert(more[i] == entry);
            }
            if more.contains(entry) {
                let i = choose|i: int| 0 <= i < more.len() && more[i] == entry;
                if i < shown.len() {
                    assert(shown[i] == entry);
                }
            }
            if entry == all.last() {
                assert(all[all.len() - 1] == entry);
            }
        }
    }
}

/// Law: two failures have the same label exactly where they are of one kind.
pub proof fn law_failure_labels_tell_kinds_apart(a: SecretError, b: SecretError)
    ensures
        a.label()@ == b.label()@ <==> {
            ||| a is Denied && b is Denied
            ||| a is Unavailable && b is Unavailable
            ||| a is Corrupt && b is Corrupt
            ||| a is OverBudget && b is OverBudget
            ||| a is Grant && b is Grant
            ||| a is Store && b is Store
            ||| a is Audit && b is Audit
            ||| a is Internal && b is Internal
        },
        a is Denied ==> a.label()@ == "denied"@,
        a is Unavailable ==> a.label()@ == "unavailable"@,
        a is Corrupt ==> a.label()@ == "corrupt"@,
        a is OverBudget ==> a.label()@ == "over-budget"@,
        a is Grant ==> a.label()@ == "grant-set-failure"@,
        a is Store ==> a.label()@ == "store-failure"@,
        a is Audit ==> a.label()@ == "audit-failure"@,
        a is Internal ==> a.label()@ == "internal"@,
{
    reveal_strlit("denied");
    reveal_strlit("unavailable");
    reveal_strlit("corrupt");
    reveal_strlit("over-budget");
    reveal_strlit("grant-set-failure");
    reveal_strlit("store-failure");
    reveal_strlit("audit-failure");
    reveal_strlit("internal");
    assert("denied"@[0] != "unavailable"@[0]);
    assert("corrupt"@[0] != "over-budget"@[0]);
    assert("internal"@[0] == 'i');
    assert("grant-set-failure"@[0] == 'g');
    assert("store-failure"@[0] == 's');
    assert("audit-failure"@[0] == 'a');
}

/// Law: a caller hears of a record that cannot be read as corrupt, of an argument
/// that the store does not take as over budget, and of everything else as the
/// store's own failure, with what the store said.
pub proof fn law_store_failures_are_told_apart(error: SecretStoreError)
    ensures
        store_error(error) is Corrupt <==> error is Corrupt,
        store_error(error) is OverBudget <==> error is InvalidArgument,
        store_error(error) is Store <==> error is NotFound || error is Storage,
        store_error(error) matches SecretError::Store(e) ==> e == error,
{
}

/// Law: a caller hears of a secret or a key that does not decipher as corrupt, of
/// one that is too long as over budget, of a missing key as unavailable, and of a
/// failure to encipher as the host's own.
pub proof fn law_cipher_failures_are_told_apart(error: CipherError)
    ensures
        cipher_error(error) is Corrupt <==> error is Decryption || error is CorruptKey,
        cipher_error(error) is OverBudget <==> error is OverBudget,
        cipher_error(error) is Unavailable <==> error is KeyUnavailable,
        cipher_error(error) is Internal <==> error is Encryption,
        error is Encryption ==> cipher_error(error) == SecretError::Internal("secret encryption failed"),
{
}

/// Law: a listing keeps the store's order: one more entry is shown as the last
/// where its name is granted, and not at all otherwise.
pub proof fn law_listing_keeps_the_order(all: Seq<SecretMetadata>, granted: Seq<SecretName>, entry: SecretMetadata)
    ensures
        only_granted(Seq::empty(), granted).len() == 0,
        (exists|i: int| 0 <= i < granted.len() && (#[trigger] granted[i])@ == entry.name@) ==> only_granted(
            all.push(entry),
            granted,
        ) == only_granted(all, granted).push(entry),
        !(exists|i: int| 0 <= i < granted.len() && (#[trigger] granted[i])@ == entry.name@) ==> only_granted(
            all.push(entry),
            granted,
        ) == only_granted(all, granted),
{
    assert(all.push(entry).drop_last() =~= all);
}

/// Law: a read goes to the store exactly where the name is among those granted;
/// one that is not is denied, and one whose grants cannot be read is refused with
/// that failure.
pub proof fn law_read_goes_on_where_the_name_is_granted(
    installation: InstallationId,
    name: SecretName,
    granted: Result<Vec<SecretName>, GrantError>,
)
    ensures
        granted matches Err(e) ==> SecretService::step_after_grant(installation, name, granted)
            == ReadStep::Refuse(SecretError::Grant(e)),
        granted matches Ok(names) ==> (exists|i: int| 0 <= i < names@.len() && (#[trigger] names@[i])@ == name@)
            ==> SecretService::step_after_grant(installation, name, granted) is Fetch,
        granted matches Ok(names) ==> !(exists|i: int|
            0 <= i < names@.len() && (#[trigger] names@[i])@ == name@) ==> {
            let step = SecretService::step_after_grant(installation, name, granted);
            &&& step matches ReadStep::Answer(answer)
            &&& answer.event == (StatefulAuditEvent::SecretDenied { installation, name })
            &&& answer.outcome matches Err(e) && e is Denied
        },
{
}

/// Law: what the store has is deciphered as it is; what it has not is denied, and
/// its failure is told, and kept in the log by kind, under the name that was asked
/// for.
pub proof fn law_fetched_record_is_deciphered(
    installation: InstallationId,
    name: SecretName,
    stored: Result<Option<SecretCiphertextRecord>, SecretStoreError>,
)
    ensures
        stored matches Ok(Some(record)) ==> SecretService::step_after_fetch(installation, name, stored)
            == ReadStep::Decrypt(record),
        stored matches Ok(None) ==> {
            let step = SecretService::step_after_fetch(installation, name, stored);
            &&& step matches ReadStep::Answer(answer)
            &&& answer.event == (StatefulAuditEvent::SecretDenied { installation, name })
            &&& answer.outcome matches Err(e) && e is Denied
        },
        stored matches Err(e) ==> {
            let step = SecretService::step_after_fetch(installation, name, stored);
            &&& step matches ReadStep::Answer(answer)
            &&& answer.outcome matches Err(told)
            &&& told == store_error(e)
            &&& answer.event == (StatefulAuditEvent::SecretFailed {
                installation,
                name: Some(name),
                reason: told.label(),
            })
        },
{
}

/// Law: the log hears of a read under the version that was read, and of a cipher
/// that failed by its kind, each under the name that was asked for.
pub proof fn law_decipherment_is_told(
    installation: InstallationId,
    name: SecretName,
    version: SecretVersion,
    failure: Option<CipherError>,
)
    ensures
        failure is None ==> SecretService::decrypted_event(installation, name, version, failure) == (
        StatefulAuditEvent::SecretRead { installation, name, version }),
        failure matches Some(e) ==> SecretService::decrypted_event(installation, name, version, failure) == (
        StatefulAuditEvent::SecretFailed { installation, name: Some(name), reason: cipher_error(e).label() }),
{
}

} // verus!
