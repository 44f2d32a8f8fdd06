//! Secrets.
use operune_application::audit::StatefulAuditEvent;
use operune_application::ports::{AuditError, GrantError, SecretStoreError};
use operune_application::secret::{
    CipherError, ListStep, ReadStep, RotateStep, SecretAnswer, SecretCiphertextRecord, SecretError,
    SecretMetadata, SecretService,
};
use operune_application::secret_bytes::SecretBytes;
use operune_application::values::{ErrorSource, InstallationId, SecretName, SecretVersion};

fn name(value: &str) -> SecretName {
    SecretName { text: value.to_owned() }
}

fn inst() -> InstallationId {
    InstallationId { value: 1 }
}

/// A toy cipher: a tag, then the bytes turned round.
fn encrypt(plain: &SecretBytes) -> Result<Vec<u8>, CipherError> {
    let mut out = vec![0x42];
    out.extend(plain.expose_secret().iter().rev());
    Ok(out)
}

fn decrypt(ciphertext: &[u8]) -> Result<SecretBytes, CipherError> {
    match ciphertext.split_first() {
        Some((0x42, rest)) => Ok(SecretBytes::new(rest.iter().rev().copied().collect())),
        _ => Err(CipherError::Decryption),
    }
}

/// A host with a secret store, a grant set and an audit log in memory.
struct Host {
    granted: Vec<SecretName>,
    stored: Vec<(SecretName, Vec<u8>, SecretVersion)>,
    audit: Vec<StatefulAuditEvent>,
}

impl Host {
    fn new() -> Host {
        Host { granted: Vec::new(), stored: Vec::new(), audit: Vec::new() }
    }

    fn settle<T>(&mut self, answer: SecretAnswer<T>) -> Result<T, SecretError> {
        self.audit.push(answer.event);
        SecretAnswer {
            event: StatefulAuditEvent::SecretListed { installation: inst(), names: 0 },
            outcome: answer.outcome,
        }
        .settle(Ok(()))
    }

    fn put(&mut self, wanted: &SecretName, ciphertext: Vec<u8>) -> SecretVersion {
        match self.stored.iter_mut().find(|(n, _, _)| n == wanted) {
            Some((_, bytes, version)) => {
                *bytes = ciphertext;
                version.value += 1;
                *version
            }
            None => {
                let first = SecretVersion { value: 1 };
                self.stored.push((wanted.clone(), ciphertext, first));
                first
            }
        }
    }

    fn rotate(&mut self, wanted: &SecretName, plain: &[u8]) -> Result<SecretVersion, SecretError> {
        let encrypted = encrypt(&SecretBytes::new(plain.to_vec()));
        match SecretService::rotate(inst(), wanted, encrypted) {
            RotateStep::Answer(answer) => self.settle(answer),
            RotateStep::Store(ciphertext) => {
                let version = self.put(wanted, ciphertext);
                self.settle(SecretService::stored(inst(), wanted, Ok(version)))
            }
        }
    }

    fn read_secret(&mut self, wanted: &SecretName) -> Result<SecretBytes, SecretError> {
        match SecretService::read_secret(inst(), wanted, Ok(self.granted.clone())) {
            ReadStep::Refuse(error) => return Err(error),
            ReadStep::Answer(answer) => return self.settle(answer),
            ReadStep::Decrypt(_) => panic!("nothing was fetched yet"),
            ReadStep::Fetch => {}
        }
        let found = self.stored.iter().find(|(n, _, _)| n == wanted).map(|(_, bytes, version)| {
            SecretCiphertextRecord {
                name: wanted.clone(),
                version: *version,
                ciphertext: bytes.clone(),
            }
        });
        match SecretService::fetched(inst(), wanted, Ok(found)) {
            ReadStep::Decrypt(record) => {
                let plain = decrypt(&record.ciphertext);
                let answer = SecretService::decrypted(inst(), wanted, record.version, plain);
                self.settle(answer)
            }
            ReadStep::Answer(answer) => self.settle(answer),
            ReadStep::Refuse(error) => Err(error),
            ReadStep::Fetch => panic!("it was fetched"),
        }
    }

    fn delete(&mut self, wanted: &SecretName) -> Result<(), SecretError> {
        let before = self.stored.len();
        self.stored.retain(|(n, _, _)| n != wanted);
        let deleted = if self.stored.len() < before {
            Ok(())
        } else {
            Err(SecretStoreError::NotFound("secret".to_owned()))
        };
        self.settle(SecretService::delete(inst(), wanted, deleted))
    }

    fn list(&mut self) -> Result<Vec<SecretMetadata>, SecretError> {
        let all = self
            .stored
            .iter()
            .map(|(n, _, version)| SecretMetadata { name: n.clone(), version: *version })
            .collect();
        match SecretService::list_granted_secrets(Ok(self.granted.clone())) {
            ListStep::Refuse(error) => Err(error),
            ListStep::List(names) => {
                self.settle(SecretService::listed(inst(), &names, Ok(all)))
            }
        }
    }
}

#[test]
fn read_secret_returns_plaintext_for_granted_name() {
    let mut h = Host::new();
    h.granted = vec![name("db-password")];
    assert!(h.rotate(&name("db-password"), b"top-secret").is_ok());
    match h.read_secret(&name("db-password")) {
        Ok(plaintext) => assert_eq!(plaintext.expose_secret().as_slice(), b"top-secret"),
        Err(e) => panic!("read: {e:?}"),
    }
    assert!(h.audit.iter().any(|event| matches!(
        event,
        StatefulAuditEvent::SecretRead { name: n, version, .. }
            if n.as_str() == "db-password" && version.value == 1
    )));
}

#[test]
fn read_secret_denied_without_grant_even_if_stored() {
    let mut h = Host::new();
    assert!(h.rotate(&name("db-password"), b"value").is_ok());
    assert!(matches!(h.read_secret(&name("db-password")), Err(SecretError::Denied)));
    assert!(h.audit.iter().any(|event| matches!(
        event,
        StatefulAuditEvent::SecretDenied { name: n, .. } if n.as_str() == "db-password"
    )));
}

#[test]
fn read_secret_denied_when_name_missing_even_if_granted() {
    let mut h = Host::new();
    h.granted = vec![name("ghost")];
    assert!(matches!(h.read_secret(&name("ghost")), Err(SecretError::Denied)));
    assert!(h.audit.iter().any(|e| matches!(e, StatefulAuditEvent::SecretDenied { .. })));
}

#[test]
fn read_secret_corrupt_ciphertext_is_corrupt() {
    let mut h = Host::new();
    h.granted = vec![name("db-password")];
    h.put(&name("db-password"), vec![0x00, 0x01, 0x02]);
    assert!(matches!(h.read_secret(&name("db-password")), Err(SecretError::Corrupt)));
    assert!(h.audit.iter().any(|event| matches!(
        event,
        StatefulAuditEvent::SecretFailed { reason, .. } if *reason == "corrupt"
    )));
}

#[test]
fn listing_is_refused_where_the_grants_are_not_known() {
    let lost = || GrantError::NotFound(inst());
    assert!(matches!(
        SecretService::list_granted_secrets(Err(lost())),
        ListStep::Refuse(SecretError::Grant(error)) if error == lost()
    ));
}

#[test]
fn list_granted_secrets_filters_by_grant_scope() {
    let mut h = Host::new();
    h.granted = vec![name("a"), name("b")];
    for n in ["a", "b", "c"] {
        assert!(h.rotate(&name(n), b"v").is_ok());
    }
    let listed = match h.list() {
        Ok(listed) => listed,
        Err(e) => panic!("list: {e:?}"),
    };
    let names: Vec<String> =
        listed.iter().map(|metadata| metadata.name.as_str().to_owned()).collect();
    assert_eq!(names, vec!["a".to_owned(), "b".to_owned()]);
    assert!(h
        .audit
        .iter()
        .any(|event| matches!(event, StatefulAuditEvent::SecretListed { names: 2, .. })));
}

#[test]
fn rotate_increments_secret_version_and_read_returns_latest() {
    let mut h = Host::new();
    assert_eq!(h.rotate(&name("api-key"), b"v1"), Ok(SecretVersion { value: 1 }));
    assert_eq!(h.rotate(&name("api-key"), b"v2"), Ok(SecretVersion { value: 2 }));
    h.granted = vec![name("api-key")];
    match h.read_secret(&name("api-key")) {
        Ok(plaintext) => assert_eq!(plaintext.expose_secret().as_slice(), b"v2"),
        Err(e) => panic!("read: {e:?}"),
    }
    assert!(h.audit.iter().any(|event| matches!(
        event,
        StatefulAuditEvent::SecretRotated { version, .. } if version.value == 2
    )));
}

#[test]
fn delete_secret_removes_and_subsequent_read_is_denied() {
    let mut h = Host::new();
    h.granted = vec![name("db-password")];
    assert!(h.rotate(&name("db-password"), b"v").is_ok());
    assert_eq!(h.delete(&name("db-password")), Ok(()));
    assert!(matches!(h.read_secret(&name("db-password")), Err(SecretError::Denied)));
    assert!(h.audit.iter().any(|event| matches!(
        event,
        StatefulAuditEvent::SecretDeleted { name: n, .. } if n.as_str() == "db-password"
    )));
    assert!(matches!(
        h.delete(&name("db-password")),
        Err(SecretError::Store(SecretStoreError::NotFound(_)))
    ));
}

#[test]
fn audit_and_errors_never_contain_secret_value() {
    let mut h = Host::new();
    h.granted = vec![name("db-password")];
    let secret_value = b"super-secret-db-password-value";
    assert!(h.rotate(&name("db-password"), secret_value).is_ok());
    let read = h.read_secret(&name("db-password"));
    let as_numbers = format!("{:?}", secret_value.to_vec());
    let shown = format!("{read:?}");
    assert!(!shown.contains("super-secret-db-password-value") && !shown.contains(&as_numbers));
    let denied_error = match h.read_secret(&name("other")) {
        Ok(_) => panic!("read of a name that was not granted"),
        Err(error) => error,
    };
    for event in &h.audit {
        let debug = format!("{event:?}");
        assert!(
            !debug.contains("super-secret-db-password-value") && !debug.contains(&as_numbers),
            "audit leaked secret value"
        );
    }
    assert!(!format!("{denied_error:?}").contains("super-secret-db-password-value"));
}

#[test]
fn failures_keep_their_kind() {
    let lost = GrantError::NotFound(inst());
    assert!(matches!(
        SecretService::read_secret(inst(), &name("a"), Err(lost)),
        ReadStep::Refuse(SecretError::Grant(_))
    ));
    let corrupt = SecretStoreError::Corrupt("x".to_owned());
    assert!(matches!(
        SecretService::fetched(inst(), &name("a"), Err(corrupt)),
        ReadStep::Answer(SecretAnswer { outcome: Err(SecretError::Corrupt), .. })
    ));
    let too_much = SecretStoreError::InvalidArgument("x".to_owned());
    assert!(matches!(
        SecretService::stored(inst(), &name("a"), Err(too_much)).outcome,
        Err(SecretError::OverBudget)
    ));
    for (cipher, wanted, label) in [
        (CipherError::OverBudget, SecretError::OverBudget, "over-budget"),
        (CipherError::CorruptKey, SecretError::Corrupt, "corrupt"),
        (
            CipherError::Encryption,
            SecretError::Internal("secret encryption failed"),
            "internal",
        ),
        (
            CipherError::KeyUnavailable(ErrorSource { message: "gone".to_owned() }),
            SecretError::Unavailable,
            "unavailable",
        ),
    ] {
        match SecretService::rotate(inst(), &name("a"), Err(cipher)) {
            RotateStep::Answer(answer) => {
                assert_eq!(answer.outcome, Err(wanted));
                assert!(matches!(
                    answer.event,
                    StatefulAuditEvent::SecretFailed { reason, .. } if reason == label
                ));
            }
            RotateStep::Store(_) => panic!("nothing was encrypted"),
        }
    }
}

#[test]
fn unkept_audit_event_withholds_the_secret() {
    let plain = SecretBytes::new(b"v".to_vec());
    let answer =
        SecretService::decrypted(inst(), &name("a"), SecretVersion { value: 1 }, Ok(plain));
    let failed = AuditError::Storage(ErrorSource { message: "disk".to_owned() });
    assert!(matches!(answer.settle(Err(failed)), Err(SecretError::Audit(_))));
}

#[test]
fn secret_bytes_are_lent_and_not_printed() {
    let secret = SecretBytes::new(vec![7, 8, 9]);
    assert_eq!(secret.expose_secret(), &vec![7, 8, 9]);
    assert!(!format!("{secret:?}").contains('7'));
}
