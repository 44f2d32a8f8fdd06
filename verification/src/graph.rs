//! Who provides which interface to whom: the records that components leave, and
//! the administrator's rules on which provider is chosen.
use vstd::prelude::*;

use crate::text::{chars_of, contains_char, joined};
use crate::values::{ComponentVersion, DomainError, InstallationId};

verus! {

/// An interface without a version, such as `acme:svc/checkout`.
#[derive(Debug, PartialEq, Eq)]
pub struct InterfaceKey {
    pub package: String,
    pub interface: String,
}

/// An interface key as text.
pub struct KeyModel {
    pub package: Seq<char>,
    pub interface: Seq<char>,
}

/// An interface of a version.
#[derive(Debug, PartialEq, Eq)]
pub struct InterfaceId {
    pub package: String,
    pub interface: String,
    pub version: ComponentVersion,
}

pub struct InterfaceModel {
    pub package: Seq<char>,
    pub interface: Seq<char>,
    pub version: ComponentVersion,
}

/// A need for an interface, in versions that `versions` tells, such as `^1.0.0`.
#[derive(Debug, PartialEq, Eq)]
pub struct InterfaceRequirement {
    pub package: String,
    pub interface: String,
    pub versions: String,
}

pub struct RequirementModel {
    pub package: Seq<char>,
    pub interface: Seq<char>,
    pub versions: Seq<char>,
}

impl InterfaceModel {
    pub open spec fn key(self) -> KeyModel {
        KeyModel { package: self.package, interface: self.interface }
    }
}

impl Clone for InterfaceKey {
    fn clone(&self) -> (r: Self)
        ensures
            r == *self,
    {
        InterfaceKey { package: self.package.clone(), interface: self.interface.clone() }
    }
}

impl Clone for InterfaceId {
    fn clone(&self) -> (r: Self)
        ensures
            r == *self,
    {
        InterfaceId {
            package: self.package.clone(),
            interface: self.interface.clone(),
            version: self.version,
        }
    }
}

impl Clone for InterfaceRequirement {
    fn clone(&self) -> (r: Self)
        ensures
            r == *self,
    {
        InterfaceRequirement {
            package: self.package.clone(),
            interface: self.interface.clone(),
            versions: self.versions.clone(),
        }
    }
}

impl InterfaceId {
    pub open spec fn view(&self) -> InterfaceModel {
        InterfaceModel { package: self.package@, interface: self.interface@, version: self.version }
    }

    pub fn same(&self, other: &InterfaceId) -> (r: bool)
        ensures
            r == (self@ == other@),
    {
        self.package == other.package && self.interface == other.interface && self.version.major
            == other.version.major && self.version.minor == other.version.minor && self.version.patch
            == other.version.patch
    }
}

impl InterfaceRequirement {
    pub open spec fn view(&self) -> RequirementModel {
        RequirementModel {
            package: self.package@,
            interface: self.interface@,
            versions: self.versions@,
        }
    }

    pub fn same(&self, other: &InterfaceRequirement) -> (r: bool)
        ensures
            r == (self@ == other@),
    {
        self.package == other.package && self.interface == other.interface && self.versions
            == other.versions
    }
}

/// The part of a text before the first slash, and the part after it.
pub open spec fn split_at_slash(s: Seq<char>) -> Option<(Seq<char>, Seq<char>)>
    decreases s.len(),
{
    if s.len() == 0 {
        None
    } else if s[0] == '/' {
        Some((Seq::empty(), s.drop_first()))
    } else {
        match split_at_slash(s.drop_first()) {
            None => None,
            Some((before, after)) => Some((seq![s[0]] + before, after)),
        }
    }
}

proof fn lemma_split(s: Seq<char>, at: int)
    requires
        0 <= at < s.len(),
        s[at] == '/',
        forall|i: int| 0 <= i < at ==> s[i] != '/',
    ensures
        split_at_slash(s) == Some((s.take(at), s.skip(at + 1))),
    decreases at,
{
    if at == 0 {
        assert(s.take(0) =~= Seq::<char>::empty());
        assert(s.drop_first() =~= s.skip(1));
    } else {
        let rest = s.drop_first();
        assert forall|i: int| 0 <= i < at - 1 implies rest[i] != '/' by {
            assert(rest[i] == s[i + 1]);
        }
        lemma_split(rest, at - 1);
        assert(seq![s[0]] + rest.take(at - 1) =~= s.take(at));
        assert(rest.skip(at) =~= s.skip(at + 1));
    }
}

proof fn lemma_no_split(s: Seq<char>)
    requires
        forall|i: int| 0 <= i < s.len() ==> s[i] != '/',
    ensures
        split_at_slash(s) is None,
    decreases s.len(),
{
    if s.len() > 0 {
        let rest = s.drop_first();
        assert forall|i: int| 0 <= i < rest.len() implies rest[i] != '/' by {
            assert(rest[i] == s[i + 1]);
        }
        lemma_no_split(rest);
    }
}

/// Why a text is no interface key, but for the grammar of its parts.
pub open spec fn key_fault(s: Seq<char>) -> Option<&'static str> {
    if s.contains('@') {
        Some("interface key must be version-free `package/interface`")
    } else if split_at_slash(s) is None {
        Some("interface key must be `package/interface`")
    } else {
        None
    }
}

impl InterfaceKey {
    pub open spec fn view(&self) -> KeyModel {
        KeyModel { package: self.package@, interface: self.interface@ }
    }

    pub fn new(package: String, interface: String) -> (r: InterfaceKey)
        ensures
            r == (InterfaceKey { package, interface }),
    {
        InterfaceKey { package, interface }
    }

    /// The interface of a need.
    pub fn from_requirement(requirement: &InterfaceRequirement) -> (r: InterfaceKey)
        ensures
            r@ == (KeyModel { package: requirement@.package, interface: requirement@.interface }),
    {
        InterfaceKey {
            package: requirement.package.clone(),
            interface: requirement.interface.clone(),
        }
    }

    /// The interface of an export.
    pub fn from_interface(interface: &InterfaceId) -> (r: InterfaceKey)
        ensures
            r@ == interface@.key(),
    {
        InterfaceKey { package: interface.package.clone(), interface: interface.interface.clone() }
    }

    pub fn package(&self) -> (r: &String)
        ensures
            *r == self.package,
    {
        &self.package
    }

    pub fn interface(&self) -> (r: &String)
        ensures
            *r == self.interface,
    {
        &self.interface
    }

    /// The key as it is written.
    pub fn text(&self) -> (r: String)
        ensures
            r@ == self@.text(),
    {
        joined(joined(self.package.as_str(), "/").as_str(), self.interface.as_str())
    }

    /// Reads a key. The grammar of package and interface names is not checked
    /// here: `grammar` says what came of checking the two parts.
    pub fn from_str(s: &str, grammar: Result<(), DomainError>) -> (r: Result<InterfaceKey, DomainError>)
        ensures
            match key_fault(s@) {
                Some(fault) => r is Err && r->Err_0.message@ == fault@,
                None => match grammar {
                    Err(e) => r == Err::<InterfaceKey, DomainError>(e),
                    Ok(_) => r is Ok && split_at_slash(s@) == Some(
                        (r->Ok_0@.package, r->Ok_0@.interface),
                    ),
                },
            },
    {
        let chars: Vec<char> = chars_of(s);
        if contains_char(&chars, '@') {
            return Err(
                DomainError {
                    message: String::from_str("interface key must be version-free `package/interface`"),
                },
            );
        }
        let mut at: usize = 0;
        while at < chars.len() && chars[at] != '/'
            invariant
                at <= chars@.len(),
                forall|i: int| 0 <= i < at ==> chars@[i] != '/',
            decreases chars@.len() - at,
        {
            at = at + 1;
        }
        if at == chars.len() {
            proof {
                lemma_no_split(chars@);
            }
            return Err(
                DomainError {
                    message: String::from_str("interface key must be `package/interface`"),
                },
            );
        }
        proof {
            lemma_split(chars@, at as int);
            assert(chars@.subrange(0, at as int) =~= chars@.take(at as int));
            assert(chars@.subrange(at + 1, chars@.len() as int) =~= chars@.skip(at + 1));
        }
        match grammar {
            Err(e) => Err(e),
            Ok(_) => Ok(
                InterfaceKey {
                    package: s.substring_char(0, at).to_owned(),
                    interface: s.substring_char(at + 1, chars.len()).to_owned(),
                },
            ),
        }
    }

    pub fn same(&self, other: &InterfaceKey) -> (r: bool)
        ensures
            r == (self@ == other@),
    {
        self.package == other.package && self.interface == other.interface
    }
}

impl KeyModel {
    /// The key as it is written.
    pub open spec fn text(self) -> Seq<char> {
        self.package + "/"@ + self.interface
    }
}

/// A key that is written is read back the same, where its package holds no slash
/// and neither part a version mark.
pub proof fn law_interface_key_roundtrip(key: KeyModel)
    requires
        !key.package.contains('/'),
        !key.package.contains('@'),
        !key.interface.contains('@'),
    ensures
        key_fault(key.text()) is None,
        split_at_slash(key.text()) == Some((key.package, key.interface)),
{
    reveal_strlit("/");
    let text = key.text();
    let at = key.package.len() as int;
    assert(text[at] == '/');
    assert forall|i: int| 0 <= i < at implies text[i] != '/' by {
        assert(text[i] == key.package[i]);
        assert(key.package.contains(key.package[i]));
    }
    lemma_split(text, at);
    assert(text.take(at) =~= key.package);
    assert(text.skip(at + 1) =~= key.interface);
    assert forall|i: int| 0 <= i < text.len() implies text[i] != '@' by {
        if i < at {
            assert(text[i] == key.package[i]);
            assert(key.package.contains(key.package[i]));
        } else if i > at {
            assert(text[i] == key.interface[i - at - 1]);
            assert(key.interface.contains(key.interface[i - at - 1]));
        }
    }
}

/// A provider. Every installation that provides anything is one.
#[derive(Debug, Clone, Copy, PartialEq, Eq, PartialOrd, Ord, Hash, Structural)]
pub struct ProviderId {
    pub installation: InstallationId,
}

impl ProviderId {
    pub fn from_installation(installation: InstallationId) -> (r: ProviderId)
        ensures
            r.installation == installation,
    {
        ProviderId { installation }
    }
}

/// What an installation provides. No interface occurs twice.
#[derive(Debug, PartialEq, Eq)]
pub struct ProviderRecord {
    pub installation: InstallationId,
    pub provided: Vec<InterfaceId>,
}

pub struct ProviderModel {
    pub installation: InstallationId,
    pub provided: Seq<InterfaceModel>,
}

/// What an installation needs. No need occurs twice.
#[derive(Debug, PartialEq, Eq)]
pub struct ConsumerRecord {
    pub installation: InstallationId,
    pub required: Vec<InterfaceRequirement>,
}

pub struct ConsumerModel {
    pub installation: InstallationId,
    pub required: Seq<RequirementModel>,
}

pub open spec fn interfaces(s: Seq<InterfaceId>) -> Seq<InterfaceModel> {
    s.map_values(|i: InterfaceId| i@)
}

pub open spec fn requirements(s: Seq<InterfaceRequirement>) -> Seq<RequirementModel> {
    s.map_values(|i: InterfaceRequirement| i@)
}

pub open spec fn provider_models(s: Seq<ProviderRecord>) -> Seq<ProviderModel> {
    s.map_values(|p: ProviderRecord| p@)
}

pub open spec fn consumer_models(s: Seq<ConsumerRecord>) -> Seq<ConsumerModel> {
    s.map_values(|c: ConsumerRecord| c@)
}

impl ProviderRecord {
    pub open spec fn view(&self) -> ProviderModel {
        ProviderModel { installation: self.installation, provided: interfaces(self.provided@) }
    }

    pub fn provider_id(&self) -> (r: ProviderId)
        ensures
            r.installation == self.installation,
    {
        ProviderId { installation: self.installation }
    }

    /// A copy of the record.
    pub fn copy(&self) -> (r: ProviderRecord)
        ensures
            r@ == self@,
    {
        ProviderRecord { installation: self.installation, provided: copy_interfaces(&self.provided) }
    }
}

impl ConsumerRecord {
    pub open spec fn view(&self) -> ConsumerModel {
        ConsumerModel { installation: self.installation, required: requirements(self.required@) }
    }

    /// A copy of the record.
    pub fn copy(&self) -> (r: ConsumerRecord)
        ensures
            r@ == self@,
    {
        let mut required: Vec<InterfaceRequirement> = Vec::new();
        let mut i: usize = 0;
        while i < self.required.len()
            invariant
                i <= self.required@.len(),
                required@ == self.required@.take(i as int),
            decreases self.required@.len() - i,
        {
            required.push(self.required[i].clone());
            i = i + 1;
            assert(required@ =~= self.required@.take(i as int));
        }
        assert(self.required@.take(i as int) =~= self.required@);
        ConsumerRecord { installation: self.installation, required }
    }
}

fn copy_interfaces(s: &Vec<InterfaceId>) -> (r: Vec<InterfaceId>)
    ensures
        r@ == s@,
{
    let mut out: Vec<InterfaceId> = Vec::new();
    let mut i: usize = 0;
    while i < s.len()
        invariant
            i <= s@.len(),
            out@ == s@.take(i as int),
        decreases s@.len() - i,
    {
        out.push(s[i].clone());
        i = i + 1;
        assert(out@ =~= s@.take(i as int));
    }
    assert(s@.take(i as int) =~= s@);
    out
}

/// One text comes before another in the order of their characters.
pub open spec fn text_before(a: Seq<char>, b: Seq<char>) -> bool
    decreases a.len(),
{
    if b.len() == 0 {
        false
    } else if a.len() == 0 {
        true
    } else if a[0] != b[0] {
        (a[0] as int) < (b[0] as int)
    } else {
        text_before(a.drop_first(), b.drop_first())
    }
}

/// One key comes before another: by package, and by interface within a package.
pub open spec fn key_before(a: KeyModel, b: KeyModel) -> bool {
    text_before(a.package, b.package) || (a.package == b.package && text_before(
        a.interface,
        b.interface,
    ))
}

proof fn lemma_text_order(a: Seq<char>, b: Seq<char>)
    ensures
        !(text_before(a, b) && text_before(b, a)),
        a == b ==> !text_before(a, b),
        a != b ==> text_before(a, b) || text_before(b, a),
    decreases a.len(),
{
    if a.len() > 0 && b.len() > 0 && a[0] == b[0] {
        lemma_text_order(a.drop_first(), b.drop_first());
        if a.drop_first() == b.drop_first() {
            assert(a =~= b) by {
                assert forall|i: int| 0 <= i < a.len() implies a[i] == b[i] by {
                    if i > 0 {
                        assert(a.drop_first()[i - 1] == b.drop_first()[i - 1]);
                    }
                }
            }
        }
    } else if a.len() == 0 && b.len() == 0 {
        assert(a =~= b);
    } else if a.len() > 0 && b.len() > 0 {
        assert((a[0] as int) != (b[0] as int));
    }
}

proof fn lemma_text_transitive(a: Seq<char>, b: Seq<char>, c: Seq<char>)
    requires
        text_before(a, b),
        text_before(b, c),
    ensures
        text_before(a, c),
    decreases a.len(),
{
    if a.len() > 0 && a[0] == b[0] && b[0] == c[0] {
        lemma_text_transitive(a.drop_first(), b.drop_first(), c.drop_first());
    }
}

/// The order of keys is a strict total order.
pub proof fn lemma_key_order(a: KeyModel, b: KeyModel)
    ensures
        !(key_before(a, b) && key_before(b, a)),
        a == b ==> !key_before(a, b),
        a != b ==> key_before(a, b) || key_before(b, a),
{
    lemma_text_order(a.package, b.package);
    lemma_text_order(a.interface, b.interface);
}

pub proof fn lemma_key_transitive(a: KeyModel, b: KeyModel, c: KeyModel)
    requires
        key_before(a, b),
        key_before(b, c),
    ensures
        key_before(a, c),
{
    if text_before(a.package, b.package) && text_before(b.package, c.package) {
        lemma_text_transitive(a.package, b.package, c.package);
    }
    lemma_text_order(a.package, a.package);
    if a.package == b.package && b.package == c.package {
        lemma_text_transitive(a.interface, b.interface, c.interface);
    }
}

fn is_text_before(a: &str, b: &str) -> (r: bool)
    ensures
        r == text_before(a@, b@),
{
    let left: Vec<char> = chars_of(a);
    let right: Vec<char> = chars_of(b);
    let mut i: usize = 0;
    proof {
        assert(left@.skip(0) =~= left@);
        assert(right@.skip(0) =~= right@);
    }
    while i < left.len() && i < right.len() && left[i] == right[i]
        invariant
            i <= left@.len(),
            i <= right@.len(),
            left@ == a@,
            right@ == b@,
            text_before(a@, b@) == text_before(left@.skip(i as int), right@.skip(i as int)),
        decreases left@.len() - i,
    {
        proof {
            assert(left@.skip(i as int).drop_first() =~= left@.skip(i + 1));
            assert(right@.skip(i as int).drop_first() =~= right@.skip(i + 1));
        }
        i = i + 1;
    }
    if i == right.len() {
        false
    } else if i == left.len() {
        true
    } else {
        left[i] < right[i]
    }
}

impl InterfaceKey {
    fn is_before(&self, other: &InterfaceKey) -> (r: bool)
        ensures
            r == key_before(self@, other@),
    {
        is_text_before(self.package.as_str(), other.package.as_str()) || (self.package == other.package
            && is_text_before(self.interface.as_str(), other.interface.as_str()))
    }
}

/// Why a rule cannot stand, or cannot be followed.
#[derive(Debug, PartialEq, Eq)]
pub enum GraphPolicyError {
    DuplicateBinding { interface: InterfaceKey, existing: ProviderId, incoming: ProviderId },
    BoundAndExcluded { interface: InterfaceKey, provider: ProviderId },
    BindingUnfulfillable { interface: InterfaceKey, provider: ProviderId },
}

/// The rules on which provider is chosen: an interface may be bound to one
/// provider, and a provider may be excluded. The bindings lie in the order of
/// their keys and the exclusions in the order of their providers, and no excluded
/// provider is bound.
#[derive(Debug, PartialEq, Eq)]
pub struct GraphPolicy {
    bindings: Vec<(InterfaceKey, ProviderId)>,
    exclusions: Vec<ProviderId>,
}

spec fn binding_holds(bindings: Seq<(InterfaceKey, ProviderId)>, key: KeyModel, i: int) -> bool {
    0 <= i < bindings.len() && bindings[i].0@ == key
}

spec fn binding_map(bindings: Seq<(InterfaceKey, ProviderId)>) -> Map<KeyModel, ProviderId> {
    Map::new(
        |key: KeyModel| exists|i: int| binding_holds(bindings, key, i),
        |key: KeyModel| bindings[choose|i: int| binding_holds(bindings, key, i)].1,
    )
}

spec fn keys_ascend(bindings: Seq<(InterfaceKey, ProviderId)>) -> bool {
    forall|i: int, j: int|
        0 <= i < j < bindings.len() ==> key_before((#[trigger] bindings[i]).0@, (#[trigger] bindings[j]).0@)
}

/// The providers ascend strictly, so none occurs twice.
pub open spec fn providers_ascend(providers: Seq<ProviderId>) -> bool {
    forall|i: int, j: int|
        0 <= i < j < providers.len() ==> (#[trigger] providers[i]).installation.value < (
        #[trigger] providers[j]).installation.value
}

proof fn lemma_binding_at(bindings: Seq<(InterfaceKey, ProviderId)>, i: int)
    requires
        keys_ascend(bindings),
        0 <= i < bindings.len(),
    ensures
        binding_map(bindings).dom().contains(bindings[i].0@),
        binding_map(bindings)[bindings[i].0@] == bindings[i].1,
{
    let key = bindings[i].0@;
    assert(binding_holds(bindings, key, i));
    let j = choose|j: int| binding_holds(bindings, key, j);
    lemma_key_order(bindings[i].0@, bindings[j].0@);
    lemma_key_order(bindings[j].0@, bindings[i].0@);
    assert(i == j);
}

proof fn lemma_binding_of(bindings: Seq<(InterfaceKey, ProviderId)>, key: KeyModel) -> (i: int)
    requires
        binding_map(bindings).dom().contains(key),
    ensures
        0 <= i < bindings.len(),
        bindings[i].0@ == key,
        binding_map(bindings)[key] == bindings[i].1,
{
    choose|i: int| binding_holds(bindings, key, i)
}

impl GraphPolicy {
    /// The bindings: which provider alone may provide an interface.
    pub closed spec fn bound(&self) -> Map<KeyModel, ProviderId> {
        binding_map(self.bindings@)
    }

    /// The providers that are excluded.
    pub closed spec fn excluded(&self) -> Set<ProviderId> {
        self.exclusions@.to_set()
    }

    pub closed spec fn binding_count(&self) -> nat {
        self.bindings@.len()
    }

    pub closed spec fn exclusion_count(&self) -> nat {
        self.exclusions@.len()
    }

    pub closed spec fn wf(&self) -> bool {
        &&& keys_ascend(self.bindings@)
        &&& providers_ascend(self.exclusions@)
        &&& forall|i: int|
            0 <= i < self.bindings@.len() ==> !self.exclusions@.contains((#[trigger] self.bindings@[i]).1)
    }

    /// No provider is both bound and excluded.
    pub proof fn lemma_wf(&self)
        requires
            self.wf(),
        ensures
            forall|key: KeyModel| #[trigger]
                self.bound().dom().contains(key) ==> !self.excluded().contains(self.bound()[key]),
            self.excluded().len() == self.exclusion_count(),
    {
        assert forall|key: KeyModel| #[trigger] self.bound().dom().contains(key) implies !self.excluded().contains(
            self.bound()[key],
        ) by {
            let i = lemma_binding_of(self.bindings@, key);
        }
        assert(self.exclusions@.no_duplicates());
        self.exclusions@.unique_seq_to_set();
    }

    /// No rules.
    pub fn new() -> (r: GraphPolicy)
        ensures
            r.wf(),
            r.bound() == Map::<KeyModel, ProviderId>::empty(),
            r.excluded() == Set::<ProviderId>::empty(),
            r.binding_count() == 0,
            r.exclusion_count() == 0,
    {
        let r = GraphPolicy { bindings: Vec::new(), exclusions: Vec::new() };
        proof {
            assert(r.bound() =~= Map::<KeyModel, ProviderId>::empty());
            assert(r.excluded() =~= Set::<ProviderId>::empty());
        }
        r
    }

    fn excludes(&self, provider: ProviderId) -> (r: bool)
        ensures
            r == self.excluded().contains(provider),
    {
        let mut i: usize = 0;
        while i < self.exclusions.len()
            invariant
                i <= self.exclusions@.len(),
                forall|j: int| 0 <= j < i ==> self.exclusions@[j] != provider,
            decreases self.exclusions@.len() - i,
        {
            if self.exclusions[i] == provider {
                assert(self.exclusions@.contains(provider));
                return true;
            }
            i = i + 1;
        }
        false
    }

    /// The first place whose key is not before `key`.
    fn place(&self, key: &InterfaceKey) -> (r: usize)
        requires
            self.wf(),
        ensures
            r <= self.bindings@.len(),
            forall|i: int| 0 <= i < r ==> key_before((#[trigger] self.bindings@[i]).0@, key@),
            forall|i: int| r <= i < self.bindings@.len() ==> !key_before((#[trigger] self.bindings@[i]).0@, key@),
    {
        let mut i: usize = 0;
        while i < self.bindings.len() && self.bindings[i].0.is_before(key)
            invariant
                i <= self.bindings@.len(),
                forall|j: int| 0 <= j < i ==> key_before((#[trigger] self.bindings@[j]).0@, key@),
            decreases self.bindings@.len() - i,
        {
            i = i + 1;
        }
        proof {
            assert forall|j: int| i <= j < self.bindings@.len() implies !key_before(
                (#[trigger] self.bindings@[j]).0@,
                key@,
            ) by {
                if j > i && key_before(self.bindings@[j].0@, key@) {
                    lemma_key_transitive(self.bindings@[i as int].0@, self.bindings@[j].0@, key@);
                }
            }
        }
        i
    }

    /// Binds an interface to a provider. To bind it again to the same provider
    /// changes nothing.
    pub fn bind(&mut self, interface: InterfaceKey, provider: ProviderId) -> (r: Result<(), GraphPolicyError>)
        requires
            old(self).wf(),
        ensures
            final(self).wf(),
            final(self).excluded() == old(self).excluded(),
            final(self).exclusion_count() == old(self).exclusion_count(),
            if old(self).bound().dom().contains(interface@) {
                let existing = old(self).bound()[interface@];
                &&& *final(self) == *old(self)
                &&& r == if existing == provider {
                    Ok::<(), GraphPolicyError>(())
                } else {
                    Err(GraphPolicyError::DuplicateBinding { interface, existing, incoming: provider })
                }
            } else if old(self).excluded().contains(provider) {
                &&& *final(self) == *old(self)
                &&& r == Err::<(), GraphPolicyError>(
                    GraphPolicyError::BoundAndExcluded { interface, provider },
                )
            } else {
                &&& r == Ok::<(), GraphPolicyError>(())
                &&& final(self).bound() == old(self).bound().insert(interface@, provider)
                &&& final(self).binding_count() == old(self).binding_count() + 1
            },
    {
        let place: usize = self.place(&interface);
        if place < self.bindings.len() && self.bindings[place].0.same(&interface) {
            proof {
                lemma_binding_at(self.bindings@, place as int);
            }
            let existing: ProviderId = self.bindings[place].1;
            return if existing == provider {
                Ok(())
            } else {
                Err(GraphPolicyError::DuplicateBinding { interface, existing, incoming: provider })
            };
        }
        proof {
            if self.bound().dom().contains(interface@) {
                let i = lemma_binding_of(self.bindings@, interface@);
                lemma_key_order(interface@, interface@);
                assert(i >= place);
                if i > place {
                    assert(key_before(self.bindings@[place as int].0@, self.bindings@[i].0@));
                }
            }
        }
        if self.excludes(provider) {
            return Err(GraphPolicyError::BoundAndExcluded { interface, provider });
        }
        let ghost before = self.bindings@;
        let ghost key = interface@;
        self.bindings.insert(place, (interface, provider));
        proof {
            let after = self.bindings@;
            assert forall|i: int, j: int| 0 <= i < j < after.len() implies key_before(
                (#[trigger] after[i]).0@,
                (#[trigger] after[j]).0@,
            ) by {
                let bi = if i < place {
                    i
                } else {
                    i - 1
                };
                let bj = if j < place {
                    j
                } else {
                    j - 1
                };
                if i == place {
                    assert(after[j] == before[bj]);
                    lemma_key_order(key, before[bj].0@);
                    if key == before[bj].0@ {
                        lemma_binding_at(before, bj);
                    }
                } else if j == place {
                    assert(after[i] == before[bi]);
                } else {
                    assert(after[i] == before[bi] && after[j] == before[bj]);
                }
            }
            assert forall|i: int| 0 <= i < after.len() implies !self.exclusions@.contains(
                (#[trigger] after[i]).1,
            ) by {
                if i < place {
                    assert(after[i] == before[i]);
                } else if i > place {
                    assert(after[i] == before[i - 1]);
                }
            }
            lemma_binding_at(after, place as int);
            assert forall|k: KeyModel| k != key && binding_map(before).dom().contains(k) implies {
                &&& #[trigger] binding_map(after).dom().contains(k)
                &&& binding_map(after)[k] == binding_map(before)[k]
            } by {
                let i = lemma_binding_of(before, k);
                let j = if i < place {
                    i
                } else {
                    i + 1
                };
                assert(after[j] == before[i]);
                lemma_binding_at(after, j);
            }
            assert forall|k: KeyModel| k != key && binding_map(after).dom().contains(k) implies #[trigger] binding_map(
                before,
            ).dom().contains(k) by {
                let j = lemma_binding_of(after, k);
                let i = if j < place {
                    j
                } else {
                    j - 1
                };
                assert(after[j] == before[i]);
                lemma_binding_at(before, i);
            }
            assert(binding_map(after) =~= binding_map(before).insert(key, provider));
        }
        Ok(())
    }

    /// The first interface, in the order of keys, that is bound to a provider.
    pub open spec fn first_bound_to(&self, provider: ProviderId, interface: KeyModel) -> bool {
        &&& self.bound().dom().contains(interface)
        &&& self.bound()[interface] == provider
        &&& forall|k: KeyModel| #[trigger]
            self.bound().dom().contains(k) && self.bound()[k] == provider ==> !key_before(k, interface)
    }

    /// Excludes a provider.
    pub fn exclude(&mut self, provider: ProviderId) -> (r: Result<(), GraphPolicyError>)
        requires
            old(self).wf(),
        ensures
            final(self).wf(),
            final(self).bound() == old(self).bound(),
            final(self).binding_count() == old(self).binding_count(),
            match r {
                Ok(_) => {
                    &&& forall|k: KeyModel| #[trigger]
                        old(self).bound().dom().contains(k) ==> old(self).bound()[k] != provider
                    &&& final(self).excluded() == old(self).excluded().insert(provider)
                },
                Err(e) => {
                    &&& e matches GraphPolicyError::BoundAndExcluded { interface, provider: p }
                    &&& p == provider
                    &&& old(self).first_bound_to(provider, interface@)
                    &&& *final(self) == *old(self)
                },
            },
    {
        let mut i: usize = 0;
        while i < self.bindings.len()
            invariant
                *self == *old(self),
                self.wf(),
                i <= self.bindings@.len(),
                forall|j: int| 0 <= j < i ==> (#[trigger] self.bindings@[j]).1 != provider,
            decreases self.bindings@.len() - i,
        {
            if self.bindings[i].1 == provider {
                proof {
                    lemma_binding_at(self.bindings@, i as int);
                    assert forall|k: KeyModel| #[trigger]
                        self.bound().dom().contains(k) && self.bound()[k] == provider implies !key_before(
                        k,
                        self.bindings@[i as int].0@,
                    ) by {
                        let j = lemma_binding_of(self.bindings@, k);
                        if j > i {
                            lemma_key_order(self.bindings@[i as int].0@, k);
                        } else {
                            assert(j == i);
                            lemma_key_order(k, k);
                        }
                    }
                }
                return Err(
                    GraphPolicyError::BoundAndExcluded { interface: self.bindings[i].0.clone(), provider },
                );
            }
            i = i + 1;
        }
        proof {
            assert forall|k: KeyModel| #[trigger] self.bound().dom().contains(k) implies self.bound()[k]
                != provider by {
                let j = lemma_binding_of(self.bindings@, k);
            }
        }
        if self.excludes(provider) {
            assert(self.excluded() =~= old(self).excluded().insert(provider));
            return Ok(());
        }
        let ghost before = self.exclusions@;
        let mut at: usize = 0;
        while at < self.exclusions.len() && self.exclusions[at].installation.value
            < provider.installation.value
            invariant
                self.exclusions@ == before,
                self.bindings@ == old(self).bindings@,
                at <= before.len(),
                forall|j: int|
                    0 <= j < at ==> (#[trigger] before[j]).installation.value < provider.installation.value,
            decreases before.len() - at,
        {
            at = at + 1;
        }
        self.exclusions.insert(at, provider);
        proof {
            let after = self.exclusions@;
            assert forall|i: int, j: int| 0 <= i < j < after.len() implies (#[trigger] after[i]).installation.value
                < (#[trigger] after[j]).installation.value by {
                let bi = if i < at {
                    i
                } else {
                    i - 1
                };
                let bj = if j < at {
                    j
                } else {
                    j - 1
                };
                if i == at {
                    assert(after[j] == before[bj]);
                    assert(before.contains(before[bj]));
                    if bj > at {
                        assert(before[at as int].installation.value < before[bj].installation.value);
                    }
                    assert(before.contains(before[at as int]));
                } else if j == at {
                    assert(after[i] == before[bi]);
                } else {
                    assert(after[i] == before[bi] && after[j] == before[bj]);
                }
            }
            assert forall|p: ProviderId| #[trigger] after.contains(p) == (before.contains(p) || p == provider) by {
                if after.contains(p) {
                    let j = choose|j: int| 0 <= j < after.len() && after[j] == p;
                    if j < at {
                        assert(before[j] == p);
                    } else if j > at {
                        assert(before[j - 1] == p);
                    }
                }
                if before.contains(p) {
                    let j = choose|j: int| 0 <= j < before.len() && before[j] == p;
                    if j < at {
                        assert(after[j] == p);
                    } else {
                        assert(after[j + 1] == p);
                    }
                }
                assert(after[at as int] == provider);
            }
            assert(self.excluded() =~= old(self).excluded().insert(provider));
            assert forall|j: int| 0 <= j < self.bindings@.len() implies !after.contains(
                (#[trigger] self.bindings@[j]).1,
            ) by {
                assert(!before.contains(self.bindings@[j].1));
            }
        }
        Ok(())
    }

    /// The bindings, in the order of their keys.
    pub fn bindings(&self) -> (r: &Vec<(InterfaceKey, ProviderId)>)
        requires
            self.wf(),
        ensures
            r@.len() == self.binding_count(),
            forall|i: int, j: int|
                0 <= i < j < r@.len() ==> key_before((#[trigger] r@[i]).0@, (#[trigger] r@[j]).0@),
            forall|i: int|
                0 <= i < r@.len() ==> self.bound().dom().contains((#[trigger] r@[i]).0@)
                    && self.bound()[r@[i].0@] == r@[i].1,
            forall|k: KeyModel| #[trigger]
                self.bound().dom().contains(k) ==> exists|i: int| 0 <= i < r@.len() && (#[trigger] r@[i]).0@
                    == k,
    {
        proof {
            assert forall|i: int| 0 <= i < self.bindings@.len() implies self.bound().dom().contains(
                (#[trigger] self.bindings@[i]).0@,
            ) && self.bound()[self.bindings@[i].0@] == self.bindings@[i].1 by {
                lemma_binding_at(self.bindings@, i);
            }
            assert forall|k: KeyModel| #[trigger] self.bound().dom().contains(k) implies exists|i: int|
                0 <= i < self.bindings@.len() && (#[trigger] self.bindings@[i]).0@ == k by {
                let i = lemma_binding_of(self.bindings@, k);
            }
        }
        &self.bindings
    }

    /// The excluded providers, in their order.
    pub fn exclusions(&self) -> (r: &Vec<ProviderId>)
        requires
            self.wf(),
        ensures
            providers_ascend(r@),
            r@.to_set() == self.excluded(),
            r@.len() == self.exclusion_count(),
    {
        &self.exclusions
    }

    /// A copy of the rules.
    pub fn copy(&self) -> (r: GraphPolicy)
        requires
            self.wf(),
        ensures
            r.wf(),
            r.bound() == self.bound(),
            r.excluded() == self.excluded(),
            r.binding_count() == self.binding_count(),
            r.exclusion_count() == self.exclusion_count(),
    {
        let mut bindings: Vec<(InterfaceKey, ProviderId)> = Vec::new();
        let mut i: usize = 0;
        while i < self.bindings.len()
            invariant
                i <= self.bindings@.len(),
                bindings@ == self.bindings@.take(i as int),
            decreases self.bindings@.len() - i,
        {
            bindings.push((self.bindings[i].0.clone(), self.bindings[i].1));
            i = i + 1;
            assert(bindings@ =~= self.bindings@.take(i as int));
        }
        let mut exclusions: Vec<ProviderId> = Vec::new();
        let mut j: usize = 0;
        while j < self.exclusions.len()
            invariant
                j <= self.exclusions@.len(),
                exclusions@ == self.exclusions@.take(j as int),
            decreases self.exclusions@.len() - j,
        {
            exclusions.push(self.exclusions[j]);
            j = j + 1;
            assert(exclusions@ =~= self.exclusions@.take(j as int));
        }
        proof {
            assert(self.bindings@.take(i as int) =~= self.bindings@);
            assert(self.exclusions@.take(j as int) =~= self.exclusions@);
        }
        GraphPolicy { bindings, exclusions }
    }

    pub fn is_empty(&self) -> (r: bool)
        ensures
            r == (self.binding_count() == 0 && self.exclusion_count() == 0),
    {
        self.bindings.len() == 0 && self.exclusions.len() == 0
    }
}

/// A record offers an interface of a key.
pub open spec fn offers_key(provided: Seq<InterfaceModel>, key: KeyModel) -> bool {
    exists|i: int| 0 <= i < provided.len() && (#[trigger] provided[i]).key() == key
}

/// Some record of a provider offers an interface of a key.
pub open spec fn fulfilled(records: Seq<ProviderModel>, key: KeyModel, provider: ProviderId) -> bool {
    exists|i: int|
        0 <= i < records.len() && (#[trigger] records[i]).installation == provider.installation && offers_key(
            records[i].provided,
            key,
        )
}

/// An installation may offer an interface: it is not bound, or bound to it.
pub open spec fn may_offer(
    bound: Map<KeyModel, ProviderId>,
    installation: InstallationId,
    interface: InterfaceModel,
) -> bool {
    bound.dom().contains(interface.key()) ==> bound[interface.key()].installation == installation
}

/// What of its interfaces an installation may offer.
pub open spec fn kept(
    bound: Map<KeyModel, ProviderId>,
    installation: InstallationId,
    provided: Seq<InterfaceModel>,
) -> Seq<InterfaceModel>
    decreases provided.len(),
{
    if provided.len() == 0 {
        Seq::empty()
    } else {
        let sooner = kept(bound, installation, provided.drop_last());
        if may_offer(bound, installation, provided.last()) {
            sooner.push(provided.last())
        } else {
            sooner
        }
    }
}

/// The records that the rules leave: without the excluded providers, without what
/// they may not offer, and without those that are left with nothing.
pub open spec fn applied(
    bound: Map<KeyModel, ProviderId>,
    excluded: Set<ProviderId>,
    records: Seq<ProviderModel>,
) -> Seq<ProviderModel>
    decreases records.len(),
{
    if records.len() == 0 {
        Seq::empty()
    } else {
        let sooner = applied(bound, excluded, records.drop_last());
        let record = records.last();
        let left = kept(bound, record.installation, record.provided);
        if excluded.contains(ProviderId { installation: record.installation }) || left.len() == 0 {
            sooner
        } else {
            sooner.push(ProviderModel { installation: record.installation, provided: left })
        }
    }
}

fn any_offers(provided: &Vec<InterfaceId>, key: &InterfaceKey) -> (r: bool)
    ensures
        r == offers_key(interfaces(provided@), key@),
{
    let mut i: usize = 0;
    while i < provided.len()
        invariant
            i <= provided@.len(),
            forall|j: int| 0 <= j < i ==> (#[trigger] interfaces(provided@)[j]).key() != key@,
        decreases provided@.len() - i,
    {
        assert(interfaces(provided@)[i as int] == provided@[i as int]@);
        if provided[i].package == key.package && provided[i].interface == key.interface {
            assert(interfaces(provided@)[i as int].key() == key@);
            return true;
        }
        i = i + 1;
    }
    false
}

fn any_fulfils(records: &Vec<ProviderRecord>, key: &InterfaceKey, provider: ProviderId) -> (r: bool)
    ensures
        r == fulfilled(provider_models(records@), key@, provider),
{
    let mut i: usize = 0;
    while i < records.len()
        invariant
            i <= records@.len(),
            forall|j: int|
                0 <= j < i ==> !((#[trigger] provider_models(records@)[j]).installation
                    == provider.installation && offers_key(provider_models(records@)[j].provided, key@)),
        decreases records@.len() - i,
    {
        assert(provider_models(records@)[i as int] == records@[i as int]@);
        if records[i].installation == provider.installation && any_offers(&records[i].provided, key) {
            return true;
        }
        i = i + 1;
    }
    false
}

impl GraphPolicy {
    /// The binding, first in the order of keys, that no record fulfils.
    pub open spec fn first_unfulfilled(&self, records: Seq<ProviderModel>, interface: KeyModel) -> bool {
        &&& self.bound().dom().contains(interface)
        &&& !fulfilled(records, interface, self.bound()[interface])
        &&& forall|k: KeyModel| #[trigger]
            self.bound().dom().contains(k) && key_before(k, interface) ==> fulfilled(
                records,
                k,
                self.bound()[k],
            )
    }

    /// What of its interfaces an installation may offer.
    fn keep(&self, installation: InstallationId, provided: &Vec<InterfaceId>) -> (r: Vec<InterfaceId>)
        requires
            self.wf(),
        ensures
            interfaces(r@) == kept(self.bound(), installation, interfaces(provided@)),
    {
        let mut out: Vec<InterfaceId> = Vec::new();
        let mut i: usize = 0;
        let ghost models = interfaces(provided@);
        assert(interfaces(out@) =~= Seq::<InterfaceModel>::empty());
        while i < provided.len()
            invariant
                self.wf(),
                models == interfaces(provided@),
                i <= provided@.len(),
                interfaces(out@) == kept(self.bound(), installation, models.take(i as int)),
            decreases provided@.len() - i,
        {
            let mut allowed: bool = true;
            let mut j: usize = 0;
            while j < self.bindings.len()
                invariant
                    self.wf(),
                    i < provided@.len(),
                    j <= self.bindings@.len(),
                    allowed == forall|n: int|
                        0 <= n < j && (#[trigger] self.bindings@[n]).0@ == provided@[i as int]@.key()
                            ==> self.bindings@[n].1.installation == installation,
                decreases self.bindings@.len() - j,
            {
                if provided[i].package == self.bindings[j].0.package && provided[i].interface
                    == self.bindings[j].0.interface && self.bindings[j].1.installation != installation {
                    assert(self.bindings@[j as int].0@ == provided@[i as int]@.key());
                    allowed = false;
                }
                j = j + 1;
            }
            proof {
                let model = provided@[i as int]@;
                assert(models[i as int] == model);
                assert(models.take(i + 1).drop_last() =~= models.take(i as int));
                if self.bound().dom().contains(model.key()) {
                    let n = lemma_binding_of(self.bindings@, model.key());
                    assert(self.bindings@[n].0@ == model.key());
                }
                assert forall|n: int|
                    0 <= n < self.bindings@.len() && (#[trigger] self.bindings@[n]).0@ == model.key() implies self.bound().dom().contains(
                    model.key(),
                ) && self.bound()[model.key()] == self.bindings@[n].1 by {
                    lemma_binding_at(self.bindings@, n);
                }
                assert(allowed == may_offer(self.bound(), installation, model));
            }
            let ghost was = out@;
            if allowed {
                out.push(provided[i].clone());
                assert(interfaces(out@) =~= interfaces(was).push(models[i as int]));
            }
            i = i + 1;
        }
        assert(models.take(i as int) =~= models);
        out
    }

    /// Applies the rules to what was observed. Every binding must be fulfilled;
    /// of those that are not, the first in the order of keys is told.
    pub fn apply(&self, records: &Vec<ProviderRecord>) -> (r: Result<Vec<ProviderRecord>, GraphPolicyError>)
        requires
            self.wf(),
        ensures
            match r {
                Ok(left) => {
                    &&& forall|k: KeyModel| #[trigger]
                        self.bound().dom().contains(k) ==> fulfilled(
                            provider_models(records@),
                            k,
                            self.bound()[k],
                        )
                    &&& provider_models(left@) == applied(
                        self.bound(),
                        self.excluded(),
                        provider_models(records@),
                    )
                },
                Err(e) => {
                    &&& e matches GraphPolicyError::BindingUnfulfillable { interface, provider }
                    &&& self.first_unfulfilled(provider_models(records@), interface@)
                    &&& provider == self.bound()[interface@]
                },
            },
    {
        let mut i: usize = 0;
        while i < self.bindings.len()
            invariant
                self.wf(),
                i <= self.bindings@.len(),
                forall|j: int|
                    0 <= j < i ==> fulfilled(
                        provider_models(records@),
                        (#[trigger] self.bindings@[j]).0@,
                        self.bindings@[j].1,
                    ),
            decreases self.bindings@.len() - i,
        {
            if !any_fulfils(records, &self.bindings[i].0, self.bindings[i].1) {
                proof {
                    lemma_binding_at(self.bindings@, i as int);
                    let interface = self.bindings@[i as int].0@;
                    assert forall|k: KeyModel| #[trigger]
                        self.bound().dom().contains(k) && key_before(k, interface) implies fulfilled(
                        provider_models(records@),
                        k,
                        self.bound()[k],
                    ) by {
                        let j = lemma_binding_of(self.bindings@, k);
                        if j >= i {
                            lemma_key_order(k, interface);
                        }
                    }
                }
                return Err(
                    GraphPolicyError::BindingUnfulfillable {
                        interface: self.bindings[i].0.clone(),
                        provider: self.bindings[i].1,
                    },
                );
            }
            i = i + 1;
        }
        proof {
            assert forall|k: KeyModel| #[trigger] self.bound().dom().contains(k) implies fulfilled(
                provider_models(records@),
                k,
                self.bound()[k],
            ) by {
                let j = lemma_binding_of(self.bindings@, k);
            }
        }
        let ghost models = provider_models(records@);
        let mut out: Vec<ProviderRecord> = Vec::new();
        let mut n: usize = 0;
        assert(provider_models(out@) =~= Seq::<ProviderModel>::empty());
        while n < records.len()
            invariant
                self.wf(),
                models == provider_models(records@),
                n <= records@.len(),
                provider_models(out@) == applied(self.bound(), self.excluded(), models.take(n as int)),
            decreases records@.len() - n,
        {
            proof {
                assert(models.take(n + 1).drop_last() =~= models.take(n as int));
                assert(models[n as int] == records@[n as int]@);
            }
            let record: &ProviderRecord = &records[n];
            let ghost was = out@;
            if !self.excludes(record.provider_id()) {
                let provided = self.keep(record.installation, &record.provided);
                assert(interfaces(provided@).len() == provided@.len());
                if provided.len() > 0 {
                    let left = ProviderRecord { installation: record.installation, provided };
                    let ghost model = left@;
                    out.push(left);
                    assert(provider_models(out@) =~= provider_models(was).push(model));
                }
            }
            n = n + 1;
        }
        assert(models.take(n as int) =~= models);
        Ok(out)
    }
}

/// A bound interface is offered by its provider alone.
pub proof fn law_bound_interface_has_one_provider(
    bound: Map<KeyModel, ProviderId>,
    excluded: Set<ProviderId>,
    records: Seq<ProviderModel>,
    i: int,
    j: int,
)
    requires
        0 <= i < applied(bound, excluded, records).len(),
        0 <= j < applied(bound, excluded, records)[i].provided.len(),
        bound.dom().contains(applied(bound, excluded, records)[i].provided[j].key()),
    ensures
        bound[applied(bound, excluded, records)[i].provided[j].key()].installation == applied(
            bound,
            excluded,
            records,
        )[i].installation,
    decreases records.len(),
{
    let all = applied(bound, excluded, records);
    let fewer = applied(bound, excluded, records.drop_last());
    if i < fewer.len() {
        law_bound_interface_has_one_provider(bound, excluded, records.drop_last(), i, j);
    } else {
        lemma_kept_may_be_offered(bound, records.last().installation, records.last().provided, j);
    }
}

proof fn lemma_kept_may_be_offered(
    bound: Map<KeyModel, ProviderId>,
    installation: InstallationId,
    provided: Seq<InterfaceModel>,
    j: int,
)
    requires
        0 <= j < kept(bound, installation, provided).len(),
    ensures
        may_offer(bound, installation, kept(bound, installation, provided)[j]),
    decreases provided.len(),
{
    let sooner = kept(bound, installation, provided.drop_last());
    if j < sooner.len() {
        lemma_kept_may_be_offered(bound, installation, provided.drop_last(), j);
    }
}

/// An excluded provider offers nothing, and what is left was there before.
pub proof fn law_policy_only_takes_away(
    bound: Map<KeyModel, ProviderId>,
    excluded: Set<ProviderId>,
    records: Seq<ProviderModel>,
    i: int,
)
    requires
        0 <= i < applied(bound, excluded, records).len(),
    ensures
        ({
            let left = applied(bound, excluded, records)[i];
            &&& !excluded.contains(ProviderId { installation: left.installation })
            &&& left.provided.len() > 0
            &&& exists|n: int|
                0 <= n < records.len() && (#[trigger] records[n]).installation == left.installation
                    && left.provided == kept(bound, left.installation, records[n].provided)
        }),
    decreases records.len(),
{
    let fewer = applied(bound, excluded, records.drop_last());
    let left = applied(bound, excluded, records)[i];
    if i < fewer.len() {
        law_policy_only_takes_away(bound, excluded, records.drop_last(), i);
        let n = choose|n: int|
            0 <= n < records.drop_last().len() && (#[trigger] records.drop_last()[n]).installation
                == left.installation && left.provided == kept(
                bound,
                left.installation,
                records.drop_last()[n].provided,
            );
        assert(records[n] == records.drop_last()[n]);
    } else {
        assert(records[records.len() - 1] == records.last());
    }
}

/// What the rules leave of a record, where they leave anything.
pub open spec fn leaves(
    bound: Map<KeyModel, ProviderId>,
    excluded: Set<ProviderId>,
    record: ProviderModel,
    left: ProviderModel,
) -> bool {
    &&& !excluded.contains(ProviderId { installation: record.installation })
    &&& left.installation == record.installation
    &&& left.provided == kept(bound, record.installation, record.provided)
    &&& left.provided.len() > 0
}

proof fn lemma_applied_to_each(
    bound: Map<KeyModel, ProviderId>,
    excluded: Set<ProviderId>,
    records: Seq<ProviderModel>,
    left: ProviderModel,
)
    ensures
        applied(bound, excluded, records).contains(left) <==> exists|record: ProviderModel| #[trigger]
            records.contains(record) && leaves(bound, excluded, record, left),
    decreases records.len(),
{
    if records.len() > 0 {
        let fewer = records.drop_last();
        let sooner = applied(bound, excluded, fewer);
        let all = applied(bound, excluded, records);
        lemma_applied_to_each(bound, excluded, fewer, left);
        assert(records[records.len() - 1] == records.last());
        assert(records.contains(records.last()));
        if all.contains(left) {
            let i = choose|i: int| 0 <= i < all.len() && all[i] == left;
            if i < sooner.len() {
                assert(sooner[i] == left);
                let record = choose|record: ProviderModel| #[trigger]
                    fewer.contains(record) && leaves(bound, excluded, record, left);
                let n = choose|n: int| 0 <= n < fewer.len() && fewer[n] == record;
                assert(records[n] == record);
                assert(records.contains(record));
            } else {
                assert(leaves(bound, excluded, records.last(), left));
            }
        }
        if exists|record: ProviderModel| #[trigger]
            records.contains(record) && leaves(bound, excluded, record, left) {
            let record = choose|record: ProviderModel| #[trigger]
                records.contains(record) && leaves(bound, excluded, record, left);
            let n = choose|n: int| 0 <= n < records.len() && records[n] == record;
            if n < fewer.len() {
                assert(fewer[n] == record);
                assert(fewer.contains(record));
                let i = choose|i: int| 0 <= i < sooner.len() && sooner[i] == left;
                assert(all[i] == left);
            } else {
                assert(all.last() == left);
                assert(all[all.len() - 1] == left);
            }
        }
    }
}

/// What the rules leave does not depend on the order in which the records come.
pub proof fn law_order_of_records_does_not_matter(
    bound: Map<KeyModel, ProviderId>,
    excluded: Set<ProviderId>,
    one: Seq<ProviderModel>,
    two: Seq<ProviderModel>,
)
    requires
        forall|record: ProviderModel| #[trigger] one.contains(record) <==> two.contains(record),
    ensures
        forall|left: ProviderModel| #[trigger]
            applied(bound, excluded, one).contains(left) <==> applied(bound, excluded, two).contains(left),
        forall|key: KeyModel, provider: ProviderId| #[trigger]
            fulfilled(one, key, provider) == fulfilled(two, key, provider),
{
    assert forall|left: ProviderModel| #[trigger]
        applied(bound, excluded, one).contains(left) <==> applied(bound, excluded, two).contains(left) by {
        lemma_applied_to_each(bound, excluded, one, left);
        lemma_applied_to_each(bound, excluded, two, left);
        if applied(bound, excluded, one).contains(left) {
            let record = choose|record: ProviderModel| #[trigger]
                one.contains(record) && leaves(bound, excluded, record, left);
            assert(two.contains(record));
        }
        if applied(bound, excluded, two).contains(left) {
            let record = choose|record: ProviderModel| #[trigger]
                two.contains(record) && leaves(bound, excluded, record, left);
            assert(one.contains(record));
        }
    }
    assert forall|key: KeyModel, provider: ProviderId| #[trigger]
        fulfilled(one, key, provider) == fulfilled(two, key, provider) by {
        if fulfilled(one, key, provider) {
            let i = choose|i: int|
                0 <= i < one.len() && (#[trigger] one[i]).installation == provider.installation
                    && offers_key(one[i].provided, key);
            assert(one.contains(one[i]));
            let n = choose|n: int| 0 <= n < two.len() && two[n] == one[i];
            assert(two[n].installation == provider.installation);
        }
        if fulfilled(two, key, provider) {
            let i = choose|i: int|
                0 <= i < two.len() && (#[trigger] two[i]).installation == provider.installation
                    && offers_key(two[i].provided, key);
            assert(two.contains(two[i]));
            assert(one.contains(two[i]));
            let n = choose|n: int| 0 <= n < one.len() && one[n] == two[i];
            assert(one[n].installation == provider.installation);
        }
    }
}

/// To apply the rules again changes nothing more.
pub proof fn law_policy_is_idempotent(
    bound: Map<KeyModel, ProviderId>,
    excluded: Set<ProviderId>,
    records: Seq<ProviderModel>,
)
    ensures
        applied(bound, excluded, applied(bound, excluded, records)) == applied(bound, excluded, records),
    decreases records.len(),
{
    if records.len() > 0 {
        law_policy_is_idempotent(bound, excluded, records.drop_last());
        let record = records.last();
        let left = kept(bound, record.installation, record.provided);
        let sooner = applied(bound, excluded, records.drop_last());
        let all = applied(bound, excluded, records);
        if !(excluded.contains(ProviderId { installation: record.installation }) || left.len() == 0) {
            lemma_kept_is_idempotent(bound, record.installation, record.provided);
            assert(all.drop_last() =~= sooner);
        }
    }
}

proof fn lemma_kept_is_idempotent(
    bound: Map<KeyModel, ProviderId>,
    installation: InstallationId,
    provided: Seq<InterfaceModel>,
)
    ensures
        kept(bound, installation, kept(bound, installation, provided)) == kept(
            bound,
            installation,
            provided,
        ),
    decreases provided.len(),
{
    if provided.len() > 0 {
        lemma_kept_is_idempotent(bound, installation, provided.drop_last());
        let sooner = kept(bound, installation, provided.drop_last());
        if may_offer(bound, installation, provided.last()) {
            assert(sooner.push(provided.last()).drop_last() =~= sooner);
        }
    }
}

/// Without rules every provider that offers anything stays as it is.
pub proof fn law_no_rules_change_nothing(records: Seq<ProviderModel>)
    requires
        forall|i: int| 0 <= i < records.len() ==> (#[trigger] records[i]).provided.len() > 0,
    ensures
        applied(Map::empty(), Set::empty(), records) == records,
    decreases records.len(),
{
    if records.len() > 0 {
        let fewer = records.drop_last();
        assert forall|i: int| 0 <= i < fewer.len() implies (#[trigger] fewer[i]).provided.len() > 0 by {
            assert(fewer[i] == records[i]);
        }
        law_no_rules_change_nothing(fewer);
        lemma_kept_all(records.last().installation, records.last().provided);
        assert(records[records.len() - 1].provided.len() > 0);
        assert(fewer.push(records.last()) =~= records);
    } else {
        assert(records =~= Seq::<ProviderModel>::empty());
    }
}

proof fn lemma_kept_all(installation: InstallationId, provided: Seq<InterfaceModel>)
    ensures
        kept(Map::empty(), installation, provided) == provided,
    decreases provided.len(),
{
    if provided.len() > 0 {
        lemma_kept_all(installation, provided.drop_last());
        assert(provided.drop_last().push(provided.last()) =~= provided);
    } else {
        assert(provided =~= Seq::<InterfaceModel>::empty());
    }
}

/// Which binding is told as unfulfilled depends on the rules and the records
/// alone, not on the order in which the rules were made.
pub proof fn law_unfulfilled_binding_is_unique(
    policy: GraphPolicy,
    other: GraphPolicy,
    records: Seq<ProviderModel>,
    one: KeyModel,
    two: KeyModel,
)
    requires
        policy.bound() == other.bound(),
        policy.first_unfulfilled(records, one),
        other.first_unfulfilled(records, two),
    ensures
        one == two,
{
    lemma_key_order(one, two);
    assert(policy.bound().dom().contains(two));
    assert(other.bound().dom().contains(one));
}

/// Law: a text is cut at its first slash: what stands before holds no slash, and
/// the two parts with the slash between them are the text. A text without a slash
/// is not cut.
pub proof fn law_key_is_cut_at_the_first_slash(s: Seq<char>)
    ensures
        split_at_slash(s) is None <==> !s.contains('/'),
        split_at_slash(s) matches Some((before, after)) ==> {
            &&& s == before.push('/') + after
            &&& !before.contains('/')
        },
{
    if s.contains('/') {
        let i = choose|i: int| 0 <= i < s.len() && s[i] == '/';
        let at = lemma_first_slash(s, i);
        lemma_split(s, at);
        assert(s =~= s.take(at).push('/') + s.skip(at + 1));
        if s.take(at).contains('/') {
            let j = choose|j: int| 0 <= j < at && s.take(at)[j] == '/';
            assert(s[j] == '/');
        }
    } else {
        lemma_no_split(s);
    }
}

proof fn lemma_first_slash(s: Seq<char>, i: int) -> (at: int)
    requires
        0 <= i < s.len(),
        s[i] == '/',
    ensures
        0 <= at <= i,
        s[at] == '/',
        forall|j: int| 0 <= j < at ==> s[j] != '/',
    decreases i,
{
    if exists|j: int| 0 <= j < i && s[j] == '/' {
        let j = choose|j: int| 0 <= j < i && s[j] == '/';
        lemma_first_slash(s, j)
    } else {
        i
    }
}

/// Law: a text is a key, but for the grammar of its parts, exactly where it holds
/// a slash and no version mark; the version mark is told first.
pub proof fn law_key_holds_a_slash_and_no_version(s: Seq<char>)
    ensures
        key_fault(s) is None <==> s.contains('/') && !s.contains('@'),
        s.contains('@') ==> key_fault(s) == Some("interface key must be version-free `package/interface`"),
        !s.contains('@') && !s.contains('/') ==> key_fault(s) == Some(
            "interface key must be `package/interface`",
        ),
{
    law_key_is_cut_at_the_first_slash(s);
}

/// Law: a key is written as its package, a slash and its interface.
pub proof fn law_key_is_written_with_a_slash(key: KeyModel)
    ensures
        key.text() == key.package.push('/') + key.interface,
{
    reveal_strlit("/");
    assert(key.package + "/"@ =~= key.package.push('/'));
}

/// Law: one text comes before another exactly where the two agree up to some place
/// at which the first ends, or has the lesser character.
pub proof fn law_texts_are_ordered_by_their_first_difference(a: Seq<char>, b: Seq<char>)
    ensures
        text_before(a, b) <==> exists|k: int| #[trigger] differs_first_at(a, b, k),
    decreases a.len(),
{
    if b.len() > 0 && a.len() > 0 && a[0] == b[0] {
        let s = a.drop_first();
        let t = b.drop_first();
        law_texts_are_ordered_by_their_first_difference(s, t);
        if text_before(a, b) {
            let k = choose|k: int| #[trigger] differs_first_at(s, t, k);
            assert forall|i: int| 0 <= i < k + 1 implies a[i] == b[i] by {
                if i > 0 {
                    assert(s[i - 1] == t[i - 1]);
                }
            }
            if k < s.len() {
                assert(s[k] == a[k + 1]);
                assert(t[k] == b[k + 1]);
            }
            assert(differs_first_at(a, b, k + 1));
        }
        if exists|k: int| #[trigger] differs_first_at(a, b, k) {
            let k = choose|k: int| #[trigger] differs_first_at(a, b, k);
            assert(k > 0);
            assert forall|i: int| 0 <= i < k - 1 implies s[i] == t[i] by {
                assert(a[i + 1] == b[i + 1]);
            }
            assert(differs_first_at(s, t, k - 1));
        }
    } else if b.len() > 0 && text_before(a, b) {
        assert(differs_first_at(a, b, 0));
    } else if exists|k: int| #[trigger] differs_first_at(a, b, k) {
        let k = choose|k: int| #[trigger] differs_first_at(a, b, k);
        if k > 0 {
            assert(a[0] == b[0]);
        }
    }
}

/// Two texts agree before place `k`; there the first ends, or has the lesser
/// character.
pub open spec fn differs_first_at(a: Seq<char>, b: Seq<char>, k: int) -> bool {
    &&& 0 <= k <= a.len()
    &&& k < b.len()
    &&& forall|i: int| 0 <= i < k ==> a[i] == b[i]
    &&& k < a.len() ==> (a[k] as int) < (b[k] as int)
}

/// Law: keys are ordered by their packages, and by their interfaces where the
/// packages are the same.
pub proof fn law_keys_are_ordered_by_package_first(a: KeyModel, b: KeyModel)
    ensures
        a.package != b.package ==> (key_before(a, b) <==> text_before(a.package, b.package)),
        a.package == b.package ==> (key_before(a, b) <==> text_before(a.interface, b.interface)),
{
    lemma_text_order(a.package, b.package);
}

/// Law: of what an installation offers, each interface stays exactly where it is
/// bound to nobody or to that installation, and what stays keeps its order.
pub proof fn law_offer_stays_unless_bound_elsewhere(
    bound: Map<KeyModel, ProviderId>,
    installation: InstallationId,
    provided: Seq<InterfaceModel>,
    x: InterfaceModel,
)
    ensures
        kept(bound, installation, Seq::empty()).len() == 0,
        ({
            let key = KeyModel { package: x.package, interface: x.interface };
            let before = kept(bound, installation, provided);
            let after = kept(bound, installation, provided.push(x));
            if !bound.dom().contains(key) || bound[key].installation == installation {
                after == before.push(x)
            } else {
                after == before
            }
        }),
{
    assert(provided.push(x).drop_last() =~= provided);
}

/// Law: one more record adds what it may offer, as the last, unless its provider
/// is excluded or nothing of its offer stays; the records before it are judged as
/// without it.
pub proof fn law_each_record_is_judged_by_itself(
    bound: Map<KeyModel, ProviderId>,
    excluded: Set<ProviderId>,
    records: Seq<ProviderModel>,
    r: ProviderModel,
)
    ensures
        applied(bound, excluded, Seq::empty()).len() == 0,
        ({
            let before = applied(bound, excluded, records);
            let after = applied(bound, excluded, records.push(r));
            let left = kept(bound, r.installation, r.provided);
            if excluded.contains(ProviderId { installation: r.installation }) || left.len() == 0 {
                after == before
            } else {
                after == before.push(ProviderModel { installation: r.installation, provided: left })
            }
        }),
{
    assert(records.push(r).drop_last() =~= records);
}

proof fn lemma_kept_whole(
    bound: Map<KeyModel, ProviderId>,
    installation: InstallationId,
    provided: Seq<InterfaceModel>,
)
    requires
        forall|j: int| 0 <= j < provided.len() ==> may_offer(bound, installation, #[trigger] provided[j]),
    ensures
        kept(bound, installation, provided) == provided,
    decreases provided.len(),
{
    if provided.len() > 0 {
        let init = provided.drop_last();
        assert forall|j: int| 0 <= j < init.len() implies may_offer(bound, installation, #[trigger] init[j]) by {
            assert(init[j] == provided[j]);
        }
        lemma_kept_whole(bound, installation, init);
        assert(may_offer(bound, installation, provided[provided.len() - 1]));
        assert(init.push(provided.last()) =~= provided);
    }
}

/// Law: a provider that is not excluded and whose interfaces are bound to nobody
/// else stays with its whole offer.
pub proof fn law_provider_with_nothing_against_it_stays(
    bound: Map<KeyModel, ProviderId>,
    excluded: Set<ProviderId>,
    records: Seq<ProviderModel>,
    i: int,
)
    requires
        0 <= i < records.len(),
        records[i].provided.len() > 0,
        !excluded.contains(ProviderId { installation: records[i].installation }),
        forall|j: int|
            0 <= j < records[i].provided.len() ==> {
                let key = (#[trigger] records[i].provided[j]).key();
                bound.dom().contains(key) ==> bound[key].installation == records[i].installation
            },
    ensures
        applied(bound, excluded, records).contains(records[i]),
{
    let r = records[i];
    lemma_applied_to_each(bound, excluded, records, r);
    assert forall|j: int| 0 <= j < r.provided.len() implies may_offer(
        bound,
        r.installation,
        #[trigger] r.provided[j],
    ) by {
        let key = records[i].provided[j].key();
    }
    lemma_kept_whole(bound, r.installation, r.provided);
    assert(records.contains(r));
    assert(leaves(bound, excluded, r, r));
}

/// Law: an interface has a provider exactly where some record of that installation
/// lists an interface with the same package and name, at whatever version.
pub proof fn law_binding_is_fulfilled_by_a_record(
    records: Seq<ProviderModel>,
    key: KeyModel,
    provider: ProviderId,
)
    ensures
        fulfilled(records, key, provider) <==> exists|i: int, j: int| {
            &&& 0 <= i < records.len()
            &&& 0 <= j < records[i].provided.len()
            &&& records[i].installation == provider.installation
            &&& (#[trigger] records[i].provided[j]).package == key.package
            &&& records[i].provided[j].interface == key.interface
        },
{
    if fulfilled(records, key, provider) {
        let i = choose|i: int|
            0 <= i < records.len() && (#[trigger] records[i]).installation == provider.installation && offers_key(
                records[i].provided,
                key,
            );
        let j = choose|j: int|
            0 <= j < records[i].provided.len() && (#[trigger] records[i].provided[j]).key() == key;
        assert(records[i].provided[j].package == key.package);
    }
    if exists|i: int, j: int| {
        &&& 0 <= i < records.len()
        &&& 0 <= j < records[i].provided.len()
        &&& records[i].installation == provider.installation
        &&& (#[trigger] records[i].provided[j]).package == key.package
        &&& records[i].provided[j].interface == key.interface
    } {
        let (i, j) = choose|i: int, j: int| {
            &&& 0 <= i < records.len()
            &&& 0 <= j < records[i].provided.len()
            &&& records[i].installation == provider.installation
            &&& (#[trigger] records[i].provided[j]).package == key.package
            &&& records[i].provided[j].interface == key.interface
        };
        assert(records[i].provided[j].key() == key);
        assert(offers_key(records[i].provided, key));
    }
}

/// Law: the binding that stands in the way of an exclusion is one of that provider,
/// and no binding of the provider has an earlier key.
pub proof fn law_first_binding_of_a_provider(
    policy: GraphPolicy,
    provider: ProviderId,
    interface: KeyModel,
    other: KeyModel,
)
    requires
        policy.first_bound_to(provider, interface),
        policy.bound().dom().contains(other),
        policy.bound()[other] == provider,
    ensures
        policy.bound().dom().contains(interface),
        policy.bound()[interface] == provider,
        interface == other || key_before(interface, other),
{
    lemma_key_order(interface, other);
}

/// Law: the binding that is told as unfulfilled has no record that fulfils it, and
/// no other such binding has an earlier key.
pub proof fn law_first_unfulfilled_binding(
    policy: GraphPolicy,
    records: Seq<ProviderModel>,
    interface: KeyModel,
    other: KeyModel,
)
    requires
        policy.first_unfulfilled(records, interface),
        policy.bound().dom().contains(other),
        !fulfilled(records, other, policy.bound()[other]),
    ensures
        policy.bound().dom().contains(interface),
        !fulfilled(records, interface, policy.bound()[interface]),
        interface == other || key_before(interface, other),
{
    lemma_key_order(interface, other);
}

/// Law: interfaces, needs, keys and records are seen with their own parts, and the
/// lists of a record item by item and in order.
pub proof fn law_records_are_seen_as_they_are(
    id: InterfaceId,
    need: InterfaceRequirement,
    key: InterfaceKey,
    provider: ProviderRecord,
    consumer: ConsumerRecord,
)
    ensures
        id@.package == id.package@ && id@.interface == id.interface@ && id@.version == id.version,
        id@.key().package == id.package@ && id@.key().interface == id.interface@,
        need@.package == need.package@ && need@.interface == need.interface@,
        key@.package == key.package@ && key@.interface == key.interface@,
        provider@.installation == provider.installation,
        provider@.provided.len() == provider.provided@.len(),
        forall|i: int|
            0 <= i < provider.provided@.len() ==> #[trigger] provider@.provided[i] == provider.provided@[i]@,
        consumer@.installation == consumer.installation,
        consumer@.required.len() == consumer.required@.len(),
        forall|i: int|
            0 <= i < consumer.required@.len() ==> #[trigger] consumer@.required[i] == consumer.required@[i]@,
{
}

} // verus!
