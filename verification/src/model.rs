//! Records that use cases pass around.
use vstd::prelude::*;

use crate::error::ApplicationError;
use crate::text;
use crate::text::{chars_of, cut_before, has_prefix, joined, same_text};
use crate::values::{
    ByteSize, CapabilityId, ComponentId, ComponentLifecycleState, ComponentVersion, ContentDigest,
    DomainError, Duration, InstallationId,
};

verus! {

/// How far a grant reaches.
#[derive(Debug, PartialEq, Eq)]
pub enum GrantScope {
    /// The capability as a whole.
    Unscoped,
    /// A directory of the host under a name of the guest.
    WasiPreopen { guest_path: String, host_path: String, read: bool, write: bool },
    /// An environment variable. Its value may be sensitive.
    WasiEnv { key: String, value: String },
    /// One backend action.
    Action { name: String },
}

/// A capability granted to one installation.
#[derive(Debug, PartialEq, Eq)]
pub struct InstallationGrant {
    pub capability: CapabilityId,
    pub scope: GrantScope,
}

/// A grant as the audit log shows it.
#[derive(Debug, PartialEq, Eq)]
pub struct GrantAuditShape {
    pub capability: CapabilityId,
    pub scope_kind: String,
    pub env_value_redacted: bool,
}

/// [`GrantAuditShape`] with its texts as sequences.
pub struct AuditShapeModel {
    pub capability: Seq<char>,
    pub scope_kind: Seq<char>,
    pub env_value_redacted: bool,
}

impl GrantAuditShape {
    pub open spec fn view(&self) -> AuditShapeModel {
        AuditShapeModel {
            capability: self.capability@,
            scope_kind: self.scope_kind@,
            env_value_redacted: self.env_value_redacted,
        }
    }
}

impl Clone for GrantScope {
    fn clone(&self) -> (r: Self)
        ensures
            r == *self,
    {
        match self {
            GrantScope::Unscoped => GrantScope::Unscoped,
            GrantScope::WasiPreopen { guest_path, host_path, read, write } => GrantScope::WasiPreopen {
                guest_path: guest_path.clone(),
                host_path: host_path.clone(),
                read: *read,
                write: *write,
            },
            GrantScope::WasiEnv { key, value } => GrantScope::WasiEnv {
                key: key.clone(),
                value: value.clone(),
            },
            GrantScope::Action { name } => GrantScope::Action { name: name.clone() },
        }
    }
}

impl Clone for InstallationGrant {
    fn clone(&self) -> (r: Self)
        ensures
            r == *self,
    {
        InstallationGrant { capability: self.capability.clone(), scope: self.scope.clone() }
    }
}

impl InstallationGrant {
    /// What the audit log shows of the grant: the scope by its kind and name,
    /// never an environment variable's value.
    pub open spec fn shape(&self) -> AuditShapeModel {
        AuditShapeModel {
            capability: self.capability@,
            scope_kind: match self.scope {
                GrantScope::Unscoped => "unscoped"@,
                GrantScope::WasiPreopen { guest_path, host_path, read, write } => "preopen:"@
                    + guest_path@,
                GrantScope::WasiEnv { key, value } => "env:"@ + key@,
                GrantScope::Action { name } => "action:"@ + name@,
            },
            env_value_redacted: self.scope is WasiEnv,
        }
    }

    pub fn audit_shape(&self) -> (r: GrantAuditShape)
        ensures
            r@ == self.shape(),
    {
        let scope_kind: String = match &self.scope {
            GrantScope::Unscoped => "unscoped".to_owned(),
            GrantScope::WasiPreopen { guest_path, .. } => joined("preopen:", guest_path.as_str()),
            GrantScope::WasiEnv { key, .. } => joined("env:", key.as_str()),
            GrantScope::Action { name } => joined("action:", name.as_str()),
        };
        let env_value_redacted: bool = match &self.scope {
            GrantScope::WasiEnv { .. } => true,
            _ => false,
        };
        GrantAuditShape { capability: self.capability.clone(), scope_kind, env_value_redacted }
    }
}

/// Law: grants that differ only in the value of an environment variable look
/// alike in the audit log.
pub proof fn law_audit_shape_hides_env_value(a: InstallationGrant, b: InstallationGrant)
    requires
        a.capability@ == b.capability@,
        a.scope is WasiEnv,
        b.scope is WasiEnv,
        a.scope->WasiEnv_key@ == b.scope->WasiEnv_key@,
    ensures
        a.shape() == b.shape(),
        a.shape().env_value_redacted,
{
}

/// Whether a request brings its own grants.
#[derive(Debug, PartialEq, Eq)]
pub enum GrantApproval {
    /// These grants are approved.
    Explicit(Vec<InstallationGrant>),
    /// The installation's grants go on to apply, where they suffice.
    ReuseExisting,
}

/// A resource of the host that a WASI grant opens.
#[derive(Debug, PartialEq, Eq)]
pub enum WasiGrant {
    Preopen { guest_path: String, host_path: String, read: bool, write: bool },
    Env { key: String, value: String },
}

/// What an instance may use.
#[derive(Debug, Clone, Copy, PartialEq, Eq, Structural)]
pub struct ResourceBudget {
    pub linear_memory: Option<ByteSize>,
    pub max_concurrent: u32,
    pub call_deadline: Option<Duration>,
}

/// What a candidate runs with.
#[derive(Debug, PartialEq, Eq)]
pub struct GrantSnapshot {
    pub installation: InstallationId,
    pub wasi: Vec<WasiGrant>,
    pub budget: ResourceBudget,
}

/// What a component is prepared for.
#[derive(Debug, PartialEq, Eq)]
pub struct RuntimePlan {
    pub installation: InstallationId,
    pub grants: GrantSnapshot,
}

/// A request to install a component. The bytes are untrusted.
#[derive(Debug, PartialEq, Eq)]
pub struct InstallRequest {
    pub bytes: Vec<u8>,
    pub grants: GrantApproval,
}

/// What an installation came to.
#[derive(Debug, Clone, Copy, PartialEq, Eq, Structural)]
pub enum InstallOutcome {
    Activated { installation: InstallationId, version: ComponentVersion, digest: ContentDigest },
}

/// A request to move an installation to new bytes.
#[derive(Debug, PartialEq, Eq)]
pub struct UpgradeRequest {
    pub installation: InstallationId,
    pub bytes: Vec<u8>,
    pub grants: GrantApproval,
}

/// A request to go back to the last version known to be good.
#[derive(Debug, Clone, Copy, PartialEq, Eq, Structural)]
pub struct RollbackRequest {
    pub installation: InstallationId,
}

/// What an upgrade or a rollback came to.
#[derive(Debug, PartialEq, Eq)]
pub enum UpgradeOutcome {
    Swapped { installation: InstallationId, from: ContentDigest, to: ContentDigest },
    RequiresApproval { installation: InstallationId, missing: Vec<CapabilityId> },
    NoOp { installation: InstallationId },
}

/// What a component's binary imports and exports.
#[derive(Debug, PartialEq, Eq)]
pub struct ContractSurface {
    pub imports: Vec<String>,
    pub exports: Vec<String>,
}

impl ContractSurface {
    /// `name` is among the exports.
    pub open spec fn exports_name(&self, name: Seq<char>) -> bool {
        exists|i: int| 0 <= i < self.exports@.len() && (#[trigger] self.exports@[i])@ == name
    }

    fn has_export(&self, name: &str) -> (r: bool)
        ensures
            r == self.exports_name(name@),
    {
        let mut i: usize = 0;
        while i < self.exports.len()
            invariant
                i <= self.exports.len(),
                forall|j: int| 0 <= j < i ==> (#[trigger] self.exports@[j])@ != name@,
            decreases self.exports.len() - i,
        {
            if same_text(self.exports[i].as_str(), name) {
                assert(self.exports@[i as int]@ == name@);
                return true;
            }
            i = i + 1;
        }
        false
    }

    /// The component exports its descriptor, under either of its two names.
    pub fn exports_component_descriptor(&self) -> (r: bool)
        ensures
            r == (self.exports_name("descriptor"@) || self.exports_name(
                "operune:component/descriptor@0.1.0"@,
            )),
    {
        self.has_export("descriptor") || self.has_export("operune:component/descriptor@0.1.0")
    }

    pub fn exports_web_assets(&self) -> (r: bool)
        ensures
            r == self.exports_name("assets"@),
    {
        self.has_export("assets")
    }

    pub fn exports_web_actions(&self) -> (r: bool)
        ensures
            r == self.exports_name("actions"@),
    {
        self.has_export("actions")
    }
}

/// Where an import can be resolved.
#[derive(Debug, Clone, Copy, PartialEq, Eq, Structural)]
pub enum ImportClass {
    Wasi,
    Operune,
    Unsupported,
}

impl ImportClass {
    /// The class of an import, by the namespace before its version.
    pub open spec fn class_of(import: Seq<char>) -> ImportClass {
        let base = text::before_first(import, '@');
        if "wasi:"@.is_prefix_of(base) {
            ImportClass::Wasi
        } else if "operune:"@.is_prefix_of(base) {
            ImportClass::Operune
        } else {
            ImportClass::Unsupported
        }
    }

    pub fn normalize(import: &str) -> (r: ImportClass)
        ensures
            r == ImportClass::class_of(import@),
    {
        let base: Vec<char> = chars_of(cut_before(import, '@').as_str());
        if has_prefix(&base, &chars_of("wasi:")) {
            ImportClass::Wasi
        } else if has_prefix(&base, &chars_of("operune:")) {
            ImportClass::Operune
        } else {
            ImportClass::Unsupported
        }
    }

    /// The capability that an import asks for: its text before the version.
    /// `verdict` is what the domain's grammar says of that text.
    pub fn capability_id(import: &str, verdict: Result<(), DomainError>) -> (r: Result<
        CapabilityId,
        ApplicationError,
    >)
        ensures
            match verdict {
                Ok(_) => r matches Ok(c) && c@ == text::before_first(import@, '@'),
                Err(e) => r == Err::<CapabilityId, ApplicationError>(ApplicationError::Domain(e)),
            },
    {
        match verdict {
            Ok(_) => Ok(CapabilityId { text: cut_before(import, '@') }),
            Err(e) => Err(ApplicationError::Domain(e)),
        }
    }
}

/// Bytes that were kept, and how far they have come.
#[derive(Debug, Clone, Copy, PartialEq, Eq, Structural)]
pub struct CandidateRecord {
    pub digest: ContentDigest,
    pub state: ComponentLifecycleState,
    pub byte_len: ByteSize,
}

/// The one digest that a version stands for.
#[derive(Debug, PartialEq, Eq)]
pub struct DigestVersionBinding {
    pub component_id: ComponentId,
    pub version: ComponentVersion,
    pub digest: ContentDigest,
}

/// An installation as the registry keeps it.
#[derive(Debug, PartialEq, Eq)]
pub struct InstallationRecord {
    pub installation_id: InstallationId,
    pub component_id: ComponentId,
    pub version: ComponentVersion,
    pub active_digest: Option<ContentDigest>,
    pub last_known_good_digest: Option<ContentDigest>,
    pub state: ComponentLifecycleState,
}

impl Clone for InstallationRecord {
    fn clone(&self) -> (r: Self)
        ensures
            r == *self,
    {
        InstallationRecord {
            installation_id: self.installation_id,
            component_id: self.component_id.clone(),
            version: self.version,
            active_digest: self.active_digest,
            last_known_good_digest: self.last_known_good_digest,
            state: self.state,
        }
    }
}

/// The host's limits.
#[derive(Debug, Clone, Copy, PartialEq, Eq, Structural)]
pub struct RuntimeConfig {
    pub max_component_bytes: ByteSize,
    pub descriptor_deadline: Duration,
    pub descriptor_budget: ResourceBudget,
    pub candidate_budget: ResourceBudget,
    pub readiness_deadline: Duration,
    pub drain_deadline: Duration,
    pub max_web_assets: usize,
    pub max_asset_bytes: ByteSize,
    pub max_action_body_bytes: ByteSize,
    pub max_action_response_bytes: ByteSize,
    pub max_actions_per_minute: u32,
}

impl RuntimeConfig {
    /// The message for the first limit that is zero, in the order of the
    /// limits.
    pub open spec fn fault(&self) -> Option<&'static str> {
        if self.max_component_bytes.bytes == 0 {
            Some("max_component_bytes must be non-zero")
        } else if self.descriptor_deadline.nanos == 0 {
            Some("descriptor_deadline must be non-zero")
        } else if self.readiness_deadline.nanos == 0 {
            Some("readiness_deadline must be non-zero")
        } else if self.drain_deadline.nanos == 0 {
            Some("drain_deadline must be non-zero")
        } else if self.max_web_assets == 0 {
            Some("max_web_assets must be non-zero")
        } else if self.max_asset_bytes.bytes == 0 {
            Some("max_asset_bytes must be non-zero")
        } else if self.max_action_body_bytes.bytes == 0 {
            Some("max_action_body_bytes must be non-zero")
        } else if self.max_action_response_bytes.bytes == 0 {
            Some("max_action_response_bytes must be non-zero")
        } else if self.max_actions_per_minute == 0 {
            Some("max_actions_per_minute must be non-zero")
        } else {
            None
        }
    }

    /// Every limit is positive.
    pub fn validate(&self) -> (r: Result<(), ApplicationError>)
        ensures
            match self.fault() {
                None => r is Ok,
                Some(m) => r == Err::<(), ApplicationError>(ApplicationError::Config(m)),
            },
    {
        if self.max_component_bytes.is_zero() {
            return Err(ApplicationError::Config("max_component_bytes must be non-zero"));
        }
        if self.descriptor_deadline.is_zero() {
            return Err(ApplicationError::Config("descriptor_deadline must be non-zero"));
        }
        if self.readiness_deadline.is_zero() {
            return Err(ApplicationError::Config("readiness_deadline must be non-zero"));
        }
        if self.drain_deadline.is_zero() {
            return Err(ApplicationError::Config("drain_deadline must be non-zero"));
        }
        if self.max_web_assets == 0 {
            return Err(ApplicationError::Config("max_web_assets must be non-zero"));
        }
        if self.max_asset_bytes.is_zero() {
            return Err(ApplicationError::Config("max_asset_bytes must be non-zero"));
        }
        if self.max_action_body_bytes.is_zero() {
            return Err(ApplicationError::Config("max_action_body_bytes must be non-zero"));
        }
        if self.max_action_response_bytes.is_zero() {
            return Err(ApplicationError::Config("max_action_response_bytes must be non-zero"));
        }
        if self.max_actions_per_minute == 0 {
            return Err(ApplicationError::Config("max_actions_per_minute must be non-zero"));
        }
        Ok(())
    }

    /// The default limits, for a runtime whose default budget is `budget`. A
    /// descriptor is read with 16 MiB of memory by one instance; a candidate
    /// runs with `budget` itself.
    pub open spec fn spec_with_budget(budget: ResourceBudget) -> RuntimeConfig {
        RuntimeConfig {
            max_component_bytes: ByteSize { bytes: 67_108_864 },
            descriptor_deadline: Duration { nanos: 2_000_000_000 },
            descriptor_budget: ResourceBudget {
                linear_memory: Some(ByteSize { bytes: 16_777_216 }),
                max_concurrent: 1,
                call_deadline: budget.call_deadline,
            },
            candidate_budget: budget,
            readiness_deadline: Duration { nanos: 5_000_000_000 },
            drain_deadline: Duration { nanos: 10_000_000_000 },
            max_web_assets: 128,
            max_asset_bytes: ByteSize { bytes: 8_388_608 },
            max_action_body_bytes: ByteSize { bytes: 65_536 },
            max_action_response_bytes: ByteSize { bytes: 262_144 },
            max_actions_per_minute: 600,
        }
    }

    pub fn with_budget(budget: ResourceBudget) -> (r: RuntimeConfig)
        ensures
            r == Self::spec_with_budget(budget),
    {
        RuntimeConfig {
            max_component_bytes: ByteSize::from_bytes(64 * 1024 * 1024),
            descriptor_deadline: Duration::from_secs(2),
            descriptor_budget: ResourceBudget {
                linear_memory: Some(ByteSize::from_bytes(16 * 1024 * 1024)),
                max_concurrent: 1,
                call_deadline: budget.call_deadline,
            },
            candidate_budget: budget,
            readiness_deadline: Duration::from_secs(5),
            drain_deadline: Duration::from_secs(10),
            max_web_assets: 128,
            max_asset_bytes: ByteSize::from_bytes(8 * 1024 * 1024),
            max_action_body_bytes: ByteSize::from_bytes(64 * 1024),
            max_action_response_bytes: ByteSize::from_bytes(256 * 1024),
            max_actions_per_minute: 600,
        }
    }
}

/// Law: the default limits are valid.
pub proof fn law_default_config_is_valid(budget: ResourceBudget)
    ensures
        RuntimeConfig::spec_with_budget(budget).fault() is None,
{
}

/// Why an action was not let through to the guest.
#[derive(Debug, Clone, Copy, PartialEq, Eq, Structural)]
pub enum ActionDenied {
    NotGranted,
    RateLimited,
    BodyTooLarge,
    Busy,
    Unknown,
}

impl ActionDenied {
    pub fn message(&self) -> (r: &'static str)
        ensures
            r@ == match *self {
                ActionDenied::NotGranted => "action not granted for this installation"@,
                ActionDenied::RateLimited => "action rate limit exceeded"@,
                ActionDenied::BodyTooLarge => "action body exceeds the host-side limit"@,
                ActionDenied::Busy => "action concurrency limit reached"@,
                ActionDenied::Unknown => "action denied"@,
            },
    {
        match self {
            ActionDenied::NotGranted => "action not granted for this installation",
            ActionDenied::RateLimited => "action rate limit exceeded",
            ActionDenied::BodyTooLarge => "action body exceeds the host-side limit",
            ActionDenied::Busy => "action concurrency limit reached",
            ActionDenied::Unknown => "action denied",
        }
    }
}

/// What a run of the pipeline is for.
#[derive(Debug, Clone, Copy, PartialEq, Eq, Structural)]
pub enum PipelineTargetKind {
    Install,
    Upgrade,
    Rollback,
}

/// What a run of the pipeline is for, with the installation that it moves.
#[derive(Debug, PartialEq, Eq)]
pub enum PipelineTarget {
    Install,
    Upgrade { current: InstallationRecord },
    Rollback { current: InstallationRecord },
}

impl PipelineTarget {
    pub open spec fn spec_kind(&self) -> PipelineTargetKind {
        match *self {
            PipelineTarget::Install => PipelineTargetKind::Install,
            PipelineTarget::Upgrade { current } => PipelineTargetKind::Upgrade,
            PipelineTarget::Rollback { current } => PipelineTargetKind::Rollback,
        }
    }

    /// The installation that is moved, where there is one.
    pub open spec fn spec_current(&self) -> Option<InstallationRecord> {
        match *self {
            PipelineTarget::Install => None,
            PipelineTarget::Upgrade { current } => Some(current),
            PipelineTarget::Rollback { current } => Some(current),
        }
    }

    pub fn kind(&self) -> (r: PipelineTargetKind)
        ensures
            r == self.spec_kind(),
    {
        match self {
            PipelineTarget::Install => PipelineTargetKind::Install,
            PipelineTarget::Upgrade { .. } => PipelineTargetKind::Upgrade,
            PipelineTarget::Rollback { .. } => PipelineTargetKind::Rollback,
        }
    }

    pub fn current(&self) -> (r: Option<&InstallationRecord>)
        ensures
            match (r, self.spec_current()) {
                (Some(a), Some(b)) => *a == b,
                (None, None) => true,
                _ => false,
            },
    {
        match self {
            PipelineTarget::Install => None,
            PipelineTarget::Upgrade { current } => Some(current),
            PipelineTarget::Rollback { current } => Some(current),
        }
    }
}

/// Law: the audit log shows a grant's capability and what kind of scope it has,
/// with the guest path, the variable's name or the action's name behind it, and
/// marks exactly the scopes whose value it leaves out.
pub proof fn law_audit_shape_shows_kind_and_name(g: InstallationGrant)
    ensures
        g.shape().capability == g.capability@,
        g.scope is Unscoped ==> g.shape().scope_kind == "unscoped"@,
        g.scope matches GrantScope::WasiPreopen { guest_path, host_path, read, write } ==> g.shape().scope_kind
            == "preopen:"@ + guest_path@,
        g.scope matches GrantScope::WasiEnv { key, value } ==> g.shape().scope_kind == "env:"@ + key@,
        g.scope matches GrantScope::Action { name } ==> g.shape().scope_kind == "action:"@ + name@,
        g.shape().env_value_redacted <==> g.scope is WasiEnv,
{
}

/// Law: an export is found wherever it stands in the list, and only there.
pub proof fn law_exports_are_found_by_name(surface: ContractSurface, name: Seq<char>)
    ensures
        surface.exports_name(name) <==> exists|i: int|
            0 <= i < surface.exports@.len() && #[trigger] surface.exports@[i]@ == name,
{
}

proof fn lemma_prefix_of_cut(prefix: Seq<char>, s: Seq<char>, sep: char)
    requires
        forall|i: int| 0 <= i < prefix.len() ==> prefix[i] != sep,
    ensures
        prefix.is_prefix_of(text::before_first(s, sep)) <==> prefix.is_prefix_of(s),
{
    let cut = text::before_first(s, sep);
    text::law_cut_ends_at_the_first_separator(s, sep);
    if prefix.is_prefix_of(cut) {
        assert(prefix =~= s.subrange(0, prefix.len() as int)) by {
            assert forall|i: int| 0 <= i < prefix.len() implies prefix[i] == s[i] by {
                assert(prefix[i] == cut.subrange(0, prefix.len() as int)[i]);
                assert(cut[i] == s[i]);
            }
        }
    }
    if prefix.is_prefix_of(s) {
        assert forall|i: int| 0 <= i < prefix.len() implies prefix[i] == s[i] by {
            assert(prefix[i] == s.subrange(0, prefix.len() as int)[i]);
        }
        if cut.len() < prefix.len() {
            assert(s[cut.len() as int] == prefix[cut.len() as int]);
        }
        assert(prefix =~= cut.subrange(0, prefix.len() as int)) by {
            assert forall|i: int| 0 <= i < prefix.len() implies prefix[i] == cut[i] by {
                assert(cut[i] == s[i]);
            }
        }
    }
}

/// Law: an import is one of WASI where it begins with that namespace, one of this
/// host where it begins with its own, and unsupported otherwise.
pub proof fn law_import_class_is_its_namespace(import: Seq<char>)
    ensures
        ImportClass::class_of(import) == ImportClass::Wasi <==> "wasi:"@.is_prefix_of(import),
        ImportClass::class_of(import) == ImportClass::Operune <==> "operune:"@.is_prefix_of(import),
        ImportClass::class_of(import) == ImportClass::Unsupported <==> !"wasi:"@.is_prefix_of(import)
            && !"operune:"@.is_prefix_of(import),
{
    reveal_strlit("wasi:");
    reveal_strlit("operune:");
    lemma_prefix_of_cut("wasi:"@, import, '@');
    lemma_prefix_of_cut("operune:"@, import, '@');
    if "wasi:"@.is_prefix_of(import) && "operune:"@.is_prefix_of(import) {
        assert("wasi:"@[0] == import.subrange(0, 5)[0]);
        assert("operune:"@[0] == import.subrange(0, 8)[0]);
    }
}

/// Law: limits are accepted exactly where none of them is zero.
pub proof fn law_limits_are_accepted_where_none_is_zero(c: RuntimeConfig)
    ensures
        c.fault() is None <==> {
            &&& c.max_component_bytes.bytes > 0
            &&& c.descriptor_deadline.nanos > 0
            &&& c.readiness_deadline.nanos > 0
            &&& c.drain_deadline.nanos > 0
            &&& c.max_web_assets > 0
            &&& c.max_asset_bytes.bytes > 0
            &&& c.max_action_body_bytes.bytes > 0
            &&& c.max_action_response_bytes.bytes > 0
            &&& c.max_actions_per_minute > 0
        },
{
}

/// Law: where one limit alone is zero, the message names that limit.
pub proof fn law_zero_limit_is_named(c: RuntimeConfig, fixed: RuntimeConfig)
    requires
        fixed.fault() is None,
    ensures
        c == (RuntimeConfig { max_component_bytes: ByteSize { bytes: 0 }, ..fixed }) ==> c.fault() == Some(
            "max_component_bytes must be non-zero",
        ),
        c == (RuntimeConfig { descriptor_deadline: Duration { nanos: 0 }, ..fixed }) ==> c.fault() == Some(
            "descriptor_deadline must be non-zero",
        ),
        c == (RuntimeConfig { readiness_deadline: Duration { nanos: 0 }, ..fixed }) ==> c.fault() == Some(
            "readiness_deadline must be non-zero",
        ),
        c == (RuntimeConfig { drain_deadline: Duration { nanos: 0 }, ..fixed }) ==> c.fault() == Some(
            "drain_deadline must be non-zero",
        ),
        c == (RuntimeConfig { max_web_assets: 0, ..fixed }) ==> c.fault() == Some(
            "max_web_assets must be non-zero",
        ),
        c == (RuntimeConfig { max_asset_bytes: ByteSize { bytes: 0 }, ..fixed }) ==> c.fault() == Some(
            "max_asset_bytes must be non-zero",
        ),
        c == (RuntimeConfig { max_action_body_bytes: ByteSize { bytes: 0 }, ..fixed }) ==> c.fault() == Some(
            "max_action_body_bytes must be non-zero",
        ),
        c == (RuntimeConfig { max_action_response_bytes: ByteSize { bytes: 0 }, ..fixed }) ==> c.fault()
            == Some("max_action_response_bytes must be non-zero"),
        c == (RuntimeConfig { max_actions_per_minute: 0, ..fixed }) ==> c.fault() == Some(
            "max_actions_per_minute must be non-zero",
        ),
{
}

/// Law: the default limits pass for every budget, a candidate runs with the budget
/// itself, and a descriptor is read by one instance under the budget's deadline
/// with 16 MiB of memory.
pub proof fn law_default_limits(budget: ResourceBudget)
    ensures
        RuntimeConfig::spec_with_budget(budget).fault() is None,
        RuntimeConfig::spec_with_budget(budget).candidate_budget == budget,
        ({
            let c = RuntimeConfig::spec_with_budget(budget);
            let mib: int = 1_048_576;
            let second: int = 1_000_000_000;
            &&& c.descriptor_budget.linear_memory matches Some(m) && m.bytes == 16 * mib
            &&& c.descriptor_budget.max_concurrent == 1
            &&& c.descriptor_budget.call_deadline == budget.call_deadline
            &&& c.max_component_bytes.bytes == 64 * mib
            &&& c.descriptor_deadline.nanos == 2 * second
            &&& c.readiness_deadline.nanos == 5 * second
            &&& c.drain_deadline.nanos == 10 * second
            &&& c.max_web_assets == 128
            &&& c.max_asset_bytes.bytes == 8 * mib
            &&& c.max_action_body_bytes.bytes == 64 * 1024
            &&& c.max_action_response_bytes.bytes == 256 * 1024
            &&& c.max_actions_per_minute == 600
        }),
{
}

/// Law: a target is of the kind it is made as, and an upgrade or a rollback is about
/// the installation it was made with; an install is about none.
pub proof fn law_target_is_what_it_was_made_as(target: PipelineTarget, record: InstallationRecord)
    ensures
        target is Install <==> target.spec_kind() == PipelineTargetKind::Install,
        target is Upgrade <==> target.spec_kind() == PipelineTargetKind::Upgrade,
        target is Rollback <==> target.spec_kind() == PipelineTargetKind::Rollback,
        target is Install ==> target.spec_current() is None,
        target == (PipelineTarget::Upgrade { current: record }) ==> target.spec_current() == Some(record),
        target == (PipelineTarget::Rollback { current: record }) ==> target.spec_current() == Some(record),
{
}

} // verus!
