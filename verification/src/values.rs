//! Identities, sizes, versions and lifecycle marks that the rest of the
//! library speaks of.
use vstd::prelude::*;

verus! {

/// One installation of a component on this host.
#[derive(Debug, Clone, Copy, PartialEq, Eq, PartialOrd, Ord, Hash, Structural)]
pub struct InstallationId {
    pub value: u128,
}

/// The digest of a component's bytes, as two halves.
#[derive(Debug, Clone, Copy, PartialEq, Eq, PartialOrd, Ord, Hash, Structural)]
pub struct ContentDigest {
    pub high: u128,
    pub low: u128,
}

/// The version that an author declares.
#[derive(Debug, Clone, Copy, PartialEq, Eq, PartialOrd, Ord, Hash, Structural)]
pub struct ComponentVersion {
    pub major: u64,
    pub minor: u64,
    pub patch: u64,
}

impl ComponentVersion {
    pub fn from_parts(major: u64, minor: u64, patch: u64) -> (r: Self)
        ensures
            r == (ComponentVersion { major, minor, patch }),
    {
        ComponentVersion { major, minor, patch }
    }
}

/// A number of bytes.
#[derive(Debug, Clone, Copy, PartialEq, Eq, PartialOrd, Ord, Hash, Structural)]
pub struct ByteSize {
    pub bytes: u64,
}

impl ByteSize {
    pub fn from_bytes(bytes: u64) -> (r: Self)
        ensures
            r.bytes == bytes,
    {
        ByteSize { bytes }
    }

    pub fn is_zero(&self) -> (r: bool)
        ensures
            r == (self.bytes == 0),
    {
        self.bytes == 0
    }

    /// More bytes than `limit`.
    pub fn exceeds(&self, limit: ByteSize) -> (r: bool)
        ensures
            r == (self.bytes > limit.bytes),
    {
        self.bytes > limit.bytes
    }
}

/// The largest span of time, one nanosecond short of 2^64 seconds.
pub const MAX_SPAN_NANOS: u128 = 18_446_744_073_709_551_615_999_999_999;

/// A span of time in nanoseconds, at most [`MAX_SPAN_NANOS`].
#[derive(Debug, Clone, Copy, PartialEq, Eq, PartialOrd, Ord, Hash, Structural)]
pub struct Duration {
    pub nanos: u128,
}

impl Duration {
    pub open spec fn wf(self) -> bool {
        self.nanos <= MAX_SPAN_NANOS
    }

    pub fn from_secs(secs: u64) -> (r: Self)
        ensures
            r.wf(),
            r.nanos == secs * 1_000_000_000,
    {
        Duration { nanos: secs as u128 * 1_000_000_000 }
    }

    pub fn from_millis(millis: u64) -> (r: Self)
        ensures
            r.wf(),
            r.nanos == millis * 1_000_000,
    {
        Duration { nanos: millis as u128 * 1_000_000 }
    }

    pub fn is_zero(&self) -> (r: bool)
        ensures
            r == (self.nanos == 0),
    {
        self.nanos == 0
    }

    /// Whole seconds.
    pub fn as_secs(&self) -> (r: u64)
        requires
            self.wf(),
        ensures
            r == self.nanos / 1_000_000_000,
    {
        (self.nanos / 1_000_000_000) as u64
    }
}

/// The name of a capability that a component imports.
#[derive(Debug, PartialEq, Eq, PartialOrd, Ord, Hash)]
pub struct CapabilityId {
    pub text: String,
}

/// The identity of a logical product.
#[derive(Debug, PartialEq, Eq, PartialOrd, Ord, Hash)]
pub struct ComponentId {
    pub text: String,
}

/// A value that the domain's grammar refused.
#[derive(Debug, PartialEq, Eq)]
pub struct DomainError {
    pub message: String,
}

/// What a collaborator said of its own failure.
#[derive(Debug, PartialEq, Eq)]
pub struct ErrorSource {
    pub message: String,
}

impl Clone for CapabilityId {
    fn clone(&self) -> (r: Self)
        ensures
            r == *self,
    {
        CapabilityId { text: self.text.clone() }
    }
}

impl Clone for ComponentId {
    fn clone(&self) -> (r: Self)
        ensures
            r == *self,
    {
        ComponentId { text: self.text.clone() }
    }
}

impl Clone for DomainError {
    fn clone(&self) -> (r: Self)
        ensures
            r == *self,
    {
        DomainError { message: self.message.clone() }
    }
}

impl Clone for ErrorSource {
    fn clone(&self) -> (r: Self)
        ensures
            r == *self,
    {
        ErrorSource { message: self.message.clone() }
    }
}

impl CapabilityId {
    pub open spec fn view(&self) -> Seq<char> {
        self.text@
    }

    pub fn as_str(&self) -> (r: &str)
        ensures
            r@ == self@,
    {
        self.text.as_str()
    }

    pub fn same(&self, other: &CapabilityId) -> (r: bool)
        ensures
            r == (self@ == other@),
    {
        self.text == other.text
    }
}

impl ComponentId {
    pub open spec fn view(&self) -> Seq<char> {
        self.text@
    }

    pub fn as_str(&self) -> (r: &str)
        ensures
            r@ == self@,
    {
        self.text.as_str()
    }

    pub fn same(&self, other: &ComponentId) -> (r: bool)
        ensures
            r == (self@ == other@),
    {
        self.text == other.text
    }
}

/// Where a component's bytes stand on their way to service.
#[derive(Debug, Clone, Copy, PartialEq, Eq, Hash, Structural)]
pub enum ComponentLifecycleState {
    Installed,
    Validated,
    Activating,
    Active,
    Draining,
    Disabled,
    Failed,
}

/// What moves a component from one state to the next.
#[derive(Debug, Clone, Copy, PartialEq, Eq, Hash, Structural)]
pub enum ComponentLifecycleEvent {
    ValidationSucceeded,
    ValidationFailed,
    ResolutionFailed,
    ActivationRequested,
    ReadinessSucceeded,
    ReadinessFailed,
    DrainStarted,
    DrainCompleted,
}

impl ComponentLifecycleState {
    pub open spec fn spec_initial() -> Self {
        ComponentLifecycleState::Installed
    }

    /// The state of bytes that have only just been kept.
    pub fn initial() -> (r: Self)
        ensures
            r == Self::spec_initial(),
    {
        ComponentLifecycleState::Installed
    }
}

/// The name of a secret.
#[derive(Debug, PartialEq, Eq, PartialOrd, Ord, Hash)]
pub struct SecretName {
    pub text: String,
}

/// The key of a state entry.
#[derive(Debug, PartialEq, Eq, PartialOrd, Ord, Hash)]
pub struct StateKey {
    pub text: String,
}

/// The topic of an event.
#[derive(Debug, PartialEq, Eq, PartialOrd, Ord, Hash)]
pub struct EventTopic {
    pub text: String,
}

/// The name of a permission that a web application declares.
#[derive(Debug, PartialEq, Eq, PartialOrd, Ord, Hash)]
pub struct PermissionName {
    pub text: String,
}

impl Clone for SecretName {
    fn clone(&self) -> (r: Self)
        ensures
            r == *self,
    {
        SecretName { text: self.text.clone() }
    }
}

impl Clone for EventTopic {
    fn clone(&self) -> (r: Self)
        ensures
            r == *self,
    {
        EventTopic { text: self.text.clone() }
    }
}

impl SecretName {
    pub open spec fn view(&self) -> Seq<char> {
        self.text@
    }

    pub fn as_str(&self) -> (r: &str)
        ensures
            r@ == self@,
    {
        self.text.as_str()
    }

    pub fn same(&self, other: &SecretName) -> (r: bool)
        ensures
            r == (self@ == other@),
    {
        self.text == other.text
    }
}

impl EventTopic {
    pub open spec fn view(&self) -> Seq<char> {
        self.text@
    }

    pub fn as_str(&self) -> (r: &str)
        ensures
            r@ == self@,
    {
        self.text.as_str()
    }

    pub fn same(&self, other: &EventTopic) -> (r: bool)
        ensures
            r == (self@ == other@),
    {
        self.text == other.text
    }
}

impl PermissionName {
    pub open spec fn view(&self) -> Seq<char> {
        self.text@
    }

    pub fn as_str(&self) -> (r: &str)
        ensures
            r@ == self@,
    {
        self.text.as_str()
    }
}

/// How often a secret has been written.
#[derive(Debug, Clone, Copy, PartialEq, Eq, PartialOrd, Ord, Hash, Structural)]
pub struct SecretVersion {
    pub value: u64,
}

/// How often a component's configuration has been written.
#[derive(Debug, Clone, Copy, PartialEq, Eq, PartialOrd, Ord, Hash, Structural)]
pub struct ConfigRevision {
    pub value: u64,
}

/// The version of the schema that a component's state follows.
#[derive(Debug, Clone, Copy, PartialEq, Eq, PartialOrd, Ord, Hash, Structural)]
pub struct StateSchemaVersion {
    pub value: u32,
}

/// The form of a component's configuration.
#[derive(Debug, Clone, Copy, PartialEq, Eq, Hash, Structural)]
pub enum ConfigFormat {
    Json,
    Toml,
    Raw,
}

/// The last moment that can be told: the end of the year 9999.
pub const MAX_INSTANT_NANOS: u128 = 253_402_300_799_999_999_999;

/// A moment in UTC, in nanoseconds since 1970, at most [`MAX_INSTANT_NANOS`].
#[derive(Debug, Clone, Copy, PartialEq, Eq, PartialOrd, Ord, Hash, Structural)]
pub struct UtcInstant {
    pub nanos: u128,
}

impl UtcInstant {
    pub open spec fn wf(self) -> bool {
        self.nanos <= MAX_INSTANT_NANOS
    }

    /// The moment `seconds` and `nanoseconds` after the start of 1970, where it
    /// can be told. A second has fewer than 1 000 000 000 nanoseconds.
    pub fn from_unix_parts(seconds: u64, nanoseconds: u32) -> (r: Option<UtcInstant>)
        ensures
            match r {
                Some(t) => t.wf() && nanoseconds < 1_000_000_000 && t.nanos == seconds * 1_000_000_000
                    + nanoseconds,
                None => nanoseconds >= 1_000_000_000 || seconds * 1_000_000_000 + nanoseconds
                    > MAX_INSTANT_NANOS,
            },
    {
        if nanoseconds >= 1_000_000_000 {
            return None;
        }
        let nanos: u128 = seconds as u128 * 1_000_000_000 + nanoseconds as u128;
        if nanos > MAX_INSTANT_NANOS {
            None
        } else {
            Some(UtcInstant { nanos })
        }
    }

    /// Whole seconds and nanoseconds since the start of 1970.
    pub fn as_unix_parts(&self) -> (r: (u64, u32))
        requires
            self.wf(),
        ensures
            r.1 < 1_000_000_000,
            r.0 * 1_000_000_000 + r.1 == self.nanos,
    {
        ((self.nanos / 1_000_000_000) as u64, (self.nanos % 1_000_000_000) as u32)
    }

    /// The moment `span` later, where it can be told.
    pub fn checked_add(self, span: Duration) -> (r: Option<UtcInstant>)
        requires
            self.wf(),
            span.wf(),
        ensures
            match r {
                Some(t) => t.wf() && t.nanos == self.nanos + span.nanos,
                None => self.nanos + span.nanos > MAX_INSTANT_NANOS,
            },
    {
        let nanos: u128 = self.nanos + span.nanos;
        if nanos > MAX_INSTANT_NANOS {
            None
        } else {
            Some(UtcInstant { nanos })
        }
    }
}

} // verus!
