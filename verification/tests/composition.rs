//! Putting components together, over a store and a resolver in memory.
use std::collections::BTreeMap;
use std::sync::Arc;

use operune_application::audit::AuditEvent;
use operune_application::composition::{
    records_from_surface, ActiveGraph, Candidate, CompositionService, ContractRecords, GraphEdge,
    GraphRecords, ImportReading, ProviderGraph, ProviderGraphError, StoreRequest,
    UpgradeCompatibilityReport, UpgradeImpact,
};
use operune_application::error::ApplicationError;
use operune_application::graph::{
    ConsumerRecord, GraphPolicy, GraphPolicyError, InterfaceId, InterfaceKey,
    InterfaceRequirement, ProviderId, ProviderRecord,
};
use operune_application::model::ContractSurface;
use operune_application::ports::{AuditError, GraphStoreError};
use operune_application::surface::contract_surface;
use operune_application::values::{ComponentVersion, DomainError, ErrorSource, InstallationId};

fn installation(seed: u128) -> InstallationId {
    InstallationId { value: seed }
}

fn provider_id(seed: u128) -> ProviderId {
    ProviderId::from_installation(installation(seed))
}

fn iface(interface: &str, major: u64, minor: u64, patch: u64) -> InterfaceId {
    InterfaceId {
        package: "acme:svc".to_owned(),
        interface: interface.to_owned(),
        version: ComponentVersion::from_parts(major, minor, patch),
    }
}

fn requirement(interface: &str, versions: &str) -> InterfaceRequirement {
    InterfaceRequirement {
        package: "acme:svc".to_owned(),
        interface: interface.to_owned(),
        versions: versions.to_owned(),
    }
}

fn key(interface: &str) -> InterfaceKey {
    match InterfaceKey::from_str(&format!("acme:svc/{interface}"), Ok(())) {
        Ok(key) => key,
        Err(e) => panic!("interface key: {e:?}"),
    }
}

fn surface(imports: &[&str], exports: &[&str]) -> ContractSurface {
    ContractSurface {
        imports: imports.iter().map(|s| (*s).to_owned()).collect(),
        exports: exports.iter().map(|s| (*s).to_owned()).collect(),
    }
}

fn copied(list: &[InterfaceId]) -> Vec<InterfaceId> {
    list.iter().map(|i| i.clone()).collect()
}

fn copied_needs(list: &[InterfaceRequirement]) -> Vec<InterfaceRequirement> {
    list.iter().map(|r| r.clone()).collect()
}

fn provider_record(seed: u128, provided: &[InterfaceId]) -> ProviderRecord {
    ProviderRecord { installation: installation(seed), provided: copied(provided) }
}

fn records(
    seed: u128,
    provided: &[InterfaceId],
    required: &[InterfaceRequirement],
) -> ContractRecords {
    ContractRecords {
        provider: if provided.is_empty() { None } else { Some(provider_record(seed, provided)) },
        consumer: if required.is_empty() {
            None
        } else {
            Some(ConsumerRecord {
                installation: installation(seed),
                required: copied_needs(required),
            })
        },
    }
}

fn parse_version(text: &str) -> Option<ComponentVersion> {
    let parts: Vec<u64> = text.split('.').map_while(|part| part.parse().ok()).collect();
    match parts.as_slice() {
        [major, minor, patch] => Some(ComponentVersion::from_parts(*major, *minor, *patch)),
        _ => None,
    }
}

/// Reads `namespace:package/interface@version`.
fn parse_interface(text: &str) -> Option<InterfaceId> {
    let (key, version) = text.split_once('@')?;
    let (package, interface) = key.split_once('/')?;
    if !package.contains(':') {
        return None;
    }
    Some(InterfaceId {
        package: package.to_owned(),
        interface: interface.to_owned(),
        version: parse_version(version)?,
    })
}

/// Reads `namespace:package/interface@versions`, where a plain version stands
/// for those compatible with it.
fn parse_requirement(text: &str) -> Option<InterfaceRequirement> {
    let (key, versions) = text.split_once('@')?;
    let (package, interface) = key.split_once('/')?;
    if !package.contains(':') {
        return None;
    }
    let versions = if versions == "*" {
        "*".to_owned()
    } else {
        parse_version(versions)?;
        format!("^{versions}")
    };
    Some(InterfaceRequirement {
        package: package.to_owned(),
        interface: interface.to_owned(),
        versions,
    })
}

fn derive(seed: u128, surface: &ContractSurface) -> Result<ContractRecords, ApplicationError> {
    let exports = surface.exports.iter().map(|name| parse_interface(name)).collect();
    let imports = surface
        .imports
        .iter()
        .map(|name| ImportReading {
            direct: parse_requirement(name),
            any_version: parse_requirement(&format!("{name}@*")),
        })
        .collect();
    records_from_surface(installation(seed), surface, &exports, &imports)
}

fn derived(seed: u128, surface: &ContractSurface) -> ContractRecords {
    match derive(seed, surface) {
        Ok(records) => records,
        Err(e) => panic!("derive records: {e:?}"),
    }
}

fn fits(requirement: &InterfaceRequirement, version: ComponentVersion) -> bool {
    match requirement.versions.strip_prefix('^').and_then(parse_version) {
        None => requirement.versions == "*",
        Some(least) => {
            least.major == version.major
                && (least.minor, least.patch) <= (version.minor, version.patch)
        }
    }
}

fn offers(requirement: &InterfaceRequirement, interface: &InterfaceId) -> bool {
    requirement.package == interface.package && requirement.interface == interface.interface
}

/// Resolves every need to one provider and puts providers before consumers.
fn try_build(
    providers: &[ProviderRecord],
    consumers: &[ConsumerRecord],
) -> Result<ProviderGraph, ProviderGraphError> {
    let mut members: BTreeMap<InstallationId, Vec<InstallationId>> = BTreeMap::new();
    for provider in providers {
        members.insert(provider.installation, Vec::new());
    }
    for consumer in consumers {
        members.insert(consumer.installation, Vec::new());
    }
    let mut edges = Vec::new();
    let mut ordered: Vec<&ConsumerRecord> = consumers.iter().collect();
    ordered.sort_by_key(|record| record.installation);
    for consumer in ordered {
        let mut needs: Vec<&InterfaceRequirement> = consumer.required.iter().collect();
        needs.sort_by_key(|need| (need.interface.clone(), need.versions.clone()));
        for need in needs {
            let mut found: Vec<(ProviderId, &InterfaceId)> = Vec::new();
            let mut offered = false;
            for provider in providers {
                let best = provider
                    .provided
                    .iter()
                    .filter(|interface| offers(need, interface))
                    .inspect(|_| offered = true)
                    .filter(|interface| fits(need, interface.version))
                    .max_by_key(|i| (i.version.major, i.version.minor, i.version.patch));
                if let Some(interface) = best {
                    found.push((provider.provider_id(), interface));
                }
            }
            found.sort_by_key(|(id, _)| *id);
            match found.as_slice() {
                [] if offered => {
                    return Err(ProviderGraphError::IncompatibleVersion {
                        consumer: consumer.installation,
                        requirement: need.clone(),
                    })
                }
                [] => {
                    return Err(ProviderGraphError::MissingProvider {
                        consumer: consumer.installation,
                        requirement: need.clone(),
                    })
                }
                [(provider, interface)] => {
                    if let Some(before) = members.get_mut(&consumer.installation) {
                        before.push(provider.installation);
                    }
                    edges.push(GraphEdge {
                        consumer: consumer.installation,
                        provider: *provider,
                        interface: (*interface).clone(),
                    });
                }
                several => {
                    return Err(ProviderGraphError::AmbiguousProvider {
                        consumer: consumer.installation,
                        requirement: need.clone(),
                        candidates: several.iter().map(|(id, _)| *id).collect(),
                    })
                }
            }
        }
    }
    let mut order: Vec<InstallationId> = Vec::new();
    while !members.is_empty() {
        let next = members
            .iter()
            .find(|(_, before)| before.iter().all(|id| order.contains(id)))
            .map(|(id, _)| *id);
        match next {
            None => {
                return Err(ProviderGraphError::CycleDetected {
                    path: members.keys().copied().collect(),
                })
            }
            Some(id) => {
                members.remove(&id);
                order.push(id);
            }
        }
    }
    let mut ids: Vec<ProviderId> = providers.iter().map(ProviderRecord::provider_id).collect();
    ids.sort();
    Ok(ProviderGraph { providers: ids, edges, order })
}

fn resolve<'a>(
    graph: &'a ProviderGraph,
    consumer: InstallationId,
    need: &InterfaceRequirement,
) -> &'a GraphEdge {
    match graph.edges.iter().find(|e| e.consumer == consumer && offers(need, &e.interface)) {
        Some(edge) => edge,
        None => panic!("no edge for {need:?}"),
    }
}

fn assert_order_valid(graph: &ProviderGraph) {
    let position = |id: InstallationId| graph.topological_order().iter().position(|o| *o == id);
    for edge in &graph.edges {
        assert!(
            position(edge.provider.installation) < position(edge.consumer),
            "provider must activate before consumer"
        );
    }
}

/// A host with a record store and an audit log in memory.
struct Host {
    service: CompositionService,
    providers: Vec<ProviderRecord>,
    consumers: Vec<ConsumerRecord>,
    audit: Vec<AuditEvent>,
    audit_fails: bool,
    store_fails: bool,
}

fn disk() -> ErrorSource {
    ErrorSource { message: "disk".to_owned() }
}

impl Host {
    fn new() -> Host {
        Host {
            service: CompositionService::new(ActiveGraph::new(), GraphPolicy::new()),
            providers: Vec::new(),
            consumers: Vec::new(),
            audit: Vec::new(),
            audit_fails: false,
            store_fails: false,
        }
    }

    fn load(&self) -> Result<GraphRecords, GraphStoreError> {
        Ok(GraphRecords {
            providers: self.providers.iter().map(ProviderRecord::copy).collect(),
            consumers: self.consumers.iter().map(ConsumerRecord::copy).collect(),
        })
    }

    fn drop_records(&mut self, id: InstallationId) {
        self.providers.retain(|record| record.installation != id);
        self.consumers.retain(|record| record.installation != id);
    }

    fn commit(&mut self, candidate: Candidate) -> Result<Arc<ProviderGraph>, ApplicationError> {
        let built = try_build(candidate.providers(), candidate.consumers());
        let change = candidate.built(built)?;
        let audited = if self.audit_fails {
            Err(AuditError::Storage(disk()))
        } else {
            self.audit.push(change.event());
            Ok(())
        };
        let change = change.audited(audited)?;
        let stored = if self.store_fails { Err(GraphStoreError::Storage(disk())) } else { Ok(()) };
        if stored.is_ok() {
            match change.request() {
                StoreRequest::Replace(id, provider, consumer) => {
                    self.drop_records(id);
                    self.providers.extend(provider.map(|record| record.copy()));
                    self.consumers.extend(consumer.map(|record| record.copy()));
                }
                StoreRequest::Remove(id) => self.drop_records(id),
                StoreRequest::Nothing => {}
            }
        }
        let change = change.stored(stored)?;
        Ok(self.service.finish(change))
    }

    fn activate(
        &mut self,
        seed: u128,
        records: ContractRecords,
    ) -> Result<Arc<ProviderGraph>, ApplicationError> {
        let candidate =
            self.service.commit_activation(installation(seed), records, self.load())?;
        self.commit(candidate)
    }

    fn activated(&mut self, seed: u128, records: ContractRecords) -> Arc<ProviderGraph> {
        match self.activate(seed, records) {
            Ok(graph) => graph,
            Err(e) => panic!("activate {seed}: {e:?}"),
        }
    }

    fn check_activation(
        &self,
        seed: u128,
        records: ContractRecords,
    ) -> Result<(), ApplicationError> {
        let candidate =
            self.service.commit_activation(installation(seed), records, self.load())?;
        let built = try_build(candidate.providers(), candidate.consumers());
        self.service.check_activation(candidate, built)
    }

    fn deactivate(&mut self, seed: u128) -> Result<Arc<ProviderGraph>, ApplicationError> {
        let candidate = self.service.deactivate(installation(seed), self.load())?;
        self.commit(candidate)
    }

    fn update_policy(
        &mut self,
        policy: GraphPolicy,
    ) -> Result<Arc<ProviderGraph>, ApplicationError> {
        let candidate = self.service.update_policy(policy, self.load())?;
        self.commit(candidate)
    }

    /// What the needs of the direct consumers come to under other exports.
    fn analysis(
        &self,
        seed: u128,
        provided: &[InterfaceId],
    ) -> Result<UpgradeCompatibilityReport, ProviderGraphError> {
        let graph = self.service.graph();
        let mut impacts = Vec::new();
        for edge in graph.edges.iter().filter(|e| e.provider == provider_id(seed)) {
            let consumer = self.consumers.iter().find(|c| c.installation == edge.consumer);
            for need in consumer.iter().flat_map(|c| c.required.iter()) {
                let offered: Vec<&InterfaceId> =
                    provided.iter().filter(|i| offers(need, i)).collect();
                if !offered.iter().any(|i| fits(need, i.version)) {
                    impacts.push(UpgradeImpact {
                        consumer: edge.consumer,
                        requirement: need.clone(),
                        removed: offered.is_empty(),
                    });
                }
            }
        }
        Ok(UpgradeCompatibilityReport { provider: provider_id(seed), impacts })
    }

    fn check_upgrade(&self, seed: u128, records: &ContractRecords) -> Result<(), ApplicationError> {
        let analysis = self.analysis(seed, &records.provided());
        self.service.check_upgrade(installation(seed), analysis)
    }
}

fn checkout_pair() -> Host {
    let mut h = Host::new();
    h.activated(1, records(1, &[iface("checkout", 1, 0, 0)], &[]));
    h.activated(2, records(2, &[], &[requirement("checkout", "^1.0.0")]));
    h
}

fn bound_to(interface: &str, seed: u128) -> GraphPolicy {
    let mut policy = GraphPolicy::new();
    assert_eq!(policy.bind(key(interface), provider_id(seed)), Ok(()));
    policy
}

#[test]
fn surface_derives_provider_record_from_non_host_exports() {
    let records = derived(
        1,
        &surface(
            &[],
            &["descriptor", "operune:web/actions@0.1.0", "acme:svc/analytics@0.2.0"],
        ),
    );
    match records.provider() {
        Some(provider) => {
            assert_eq!(provider.installation, installation(1));
            assert_eq!(provider.provided, vec![iface("analytics", 0, 2, 0)]);
        }
        None => panic!("provider record"),
    }
    assert!(records.consumer().is_none());
}

#[test]
fn surface_derives_consumer_record_from_graph_imports() {
    let records = derived(
        1,
        &surface(
            &["wasi:cli/run@0.2.0", "operune:web/actions@0.1.0", "acme:svc/checkout@1.0.0"],
            &["descriptor"],
        ),
    );
    match records.consumer() {
        Some(consumer) => {
            assert_eq!(consumer.required, vec![requirement("checkout", "^1.0.0")]);
        }
        None => panic!("consumer record"),
    }
    assert!(records.provider().is_none());
}

#[test]
fn host_only_surface_derives_no_records() {
    assert!(derived(1, &surface(&["wasi:cli/run@0.2.0"], &["descriptor"])).is_empty());
}

#[test]
fn unversioned_graph_import_maps_to_any_version() {
    let records = derived(1, &surface(&["acme:svc/checkout"], &[]));
    match records.consumer() {
        Some(consumer) => assert_eq!(consumer.required, vec![requirement("checkout", "*")]),
        None => panic!("consumer record"),
    }
}

#[test]
fn unparseable_import_is_rejected_deny_by_default() {
    assert_eq!(
        derive(1, &surface(&["foo"], &[])),
        Err(ApplicationError::UnresolvableImport("foo".to_owned()))
    );
}

#[test]
fn same_installation_can_be_provider_and_consumer() {
    let records =
        derived(1, &surface(&["acme:svc/checkout@1.0.0"], &["acme:svc/analytics@0.2.0"]));
    assert_eq!(records.provider().map(|r| r.installation), Some(installation(1)));
    assert_eq!(records.consumer().map(|r| r.installation), Some(installation(1)));
    assert!(!records.is_empty());
}

#[test]
fn repeated_names_are_recorded_once() {
    let records = derived(
        1,
        &surface(
            &["acme:svc/checkout@1.0.0", "acme:svc/checkout@1.0.0"],
            &["acme:svc/analytics@0.2.0", "acme:svc/analytics@0.2.0"],
        ),
    );
    assert_eq!(records.provided(), vec![iface("analytics", 0, 2, 0)]);
    assert_eq!(records.consumer().map(|r| r.required.len()), Some(1));
}

#[test]
fn policy_binding_resolves_ambiguity() {
    let policy = bound_to("checkout", 2);
    let providers = vec![
        provider_record(1, &[iface("checkout", 1, 0, 0)]),
        provider_record(2, &[iface("checkout", 1, 0, 0)]),
    ];
    match policy.apply(&providers) {
        Ok(filtered) => {
            assert_eq!(filtered.len(), 1);
            assert_eq!(filtered[0].provider_id(), provider_id(2));
        }
        Err(e) => panic!("apply policy: {e:?}"),
    }
}

#[test]
fn exclusions_lie_in_the_order_of_their_providers() {
    let mut one = GraphPolicy::new();
    let mut other = GraphPolicy::new();
    for n in [3, 1, 2, 1] {
        assert_eq!(one.exclude(provider_id(n)), Ok(()));
    }
    for n in [2, 3, 1] {
        assert_eq!(other.exclude(provider_id(n)), Ok(()));
    }
    assert_eq!(one.exclusions(), &vec![provider_id(1), provider_id(2), provider_id(3)]);
    assert_eq!(one, other);
}

#[test]
fn policy_exclusion_resolves_ambiguity() {
    let mut policy = GraphPolicy::new();
    assert_eq!(policy.exclude(provider_id(1)), Ok(()));
    assert_eq!(policy.exclusions(), &vec![provider_id(1)]);
    let providers = vec![
        provider_record(1, &[iface("checkout", 1, 0, 0)]),
        provider_record(2, &[iface("checkout", 1, 0, 0)]),
    ];
    match policy.apply(&providers) {
        Ok(filtered) => {
            assert_eq!(filtered.len(), 1);
            assert_eq!(filtered[0].provider_id(), provider_id(2));
        }
        Err(e) => panic!("apply policy: {e:?}"),
    }
}

#[test]
fn policy_duplicate_binding_is_rejected() {
    let mut policy = bound_to("checkout", 1);
    assert_eq!(
        policy.bind(key("checkout"), provider_id(2)),
        Err(GraphPolicyError::DuplicateBinding {
            interface: key("checkout"),
            existing: provider_id(1),
            incoming: provider_id(2),
        })
    );
    assert_eq!(policy.bind(key("checkout"), provider_id(1)), Ok(()));
    assert_eq!(policy.bindings().len(), 1);
}

#[test]
fn policy_binding_excluded_provider_is_rejected() {
    let mut policy = GraphPolicy::new();
    assert_eq!(policy.exclude(provider_id(1)), Ok(()));
    assert_eq!(
        policy.bind(key("checkout"), provider_id(1)),
        Err(GraphPolicyError::BoundAndExcluded {
            interface: key("checkout"),
            provider: provider_id(1),
        })
    );
    let mut policy = bound_to("checkout", 1);
    assert_eq!(
        policy.exclude(provider_id(1)),
        Err(GraphPolicyError::BoundAndExcluded {
            interface: key("checkout"),
            provider: provider_id(1),
        })
    );
}

#[test]
fn policy_binding_to_non_provider_interface_is_rejected_at_apply() {
    let policy = bound_to("missing", 1);
    let providers = vec![provider_record(1, &[iface("checkout", 1, 0, 0)])];
    assert_eq!(
        policy.apply(&providers),
        Err(GraphPolicyError::BindingUnfulfillable {
            interface: key("missing"),
            provider: provider_id(1),
        })
    );
}

#[test]
fn policy_splits_records_per_interface() {
    let policy = bound_to("checkout", 2);
    let providers = vec![
        provider_record(1, &[iface("checkout", 1, 0, 0), iface("analytics", 1, 0, 0)]),
        provider_record(2, &[iface("checkout", 1, 0, 0)]),
    ];
    match policy.apply(&providers) {
        Ok(filtered) => {
            assert_eq!(filtered.len(), 2);
            match filtered.iter().find(|record| record.provider_id() == provider_id(1)) {
                Some(record) => {
                    assert_eq!(record.provided, vec![iface("analytics", 1, 0, 0)]);
                }
                None => panic!("provider 1 must survive with analytics"),
            }
        }
        Err(e) => panic!("apply policy: {e:?}"),
    }
}

#[test]
fn policy_apply_is_deterministic_regardless_of_input_order() {
    let policy = bound_to("checkout", 2);
    let forward = vec![
        provider_record(1, &[iface("checkout", 1, 0, 0)]),
        provider_record(2, &[iface("checkout", 1, 0, 0)]),
    ];
    let mut reversed: Vec<ProviderRecord> = forward.iter().map(ProviderRecord::copy).collect();
    reversed.reverse();
    assert_eq!(policy.apply(&forward), policy.apply(&reversed));
}

#[test]
fn empty_policy_changes_nothing() {
    let policy = GraphPolicy::new();
    assert!(policy.is_empty());
    let records = vec![provider_record(1, &[iface("checkout", 1, 0, 0)])];
    let same = vec![provider_record(1, &[iface("checkout", 1, 0, 0)])];
    assert_eq!(policy.apply(&records), Ok(same));
}

#[test]
fn bindings_lie_in_the_order_of_their_keys() {
    let mut policy = GraphPolicy::new();
    for name in ["c", "a", "b"] {
        assert_eq!(policy.bind(key(name), provider_id(1)), Ok(()));
    }
    let names: Vec<&str> =
        policy.bindings().iter().map(|(key, _)| key.interface().as_str()).collect();
    assert_eq!(names, vec!["a", "b", "c"]);
}

#[test]
fn interface_key_parse_display_roundtrip() {
    let parsed = key("checkout");
    assert_eq!(parsed.text(), "acme:svc/checkout");
    assert_eq!(parsed.package().as_str(), "acme:svc");
    assert_eq!(parsed.interface().as_str(), "checkout");
    assert!(InterfaceKey::from_str("acme:svc/checkout@1.0.0", Ok(())).is_err());
    assert!(InterfaceKey::from_str("checkout", Ok(())).is_err());
    let refused = DomainError { message: "package name".to_owned() };
    assert_eq!(
        InterfaceKey::from_str("Acme/checkout", Err(refused)),
        Err(DomainError { message: "package name".to_owned() })
    );
}

#[test]
fn commit_activation_persists_records_and_swaps_snapshot() {
    let mut h = Host::new();
    let graph = h.activated(1, records(1, &[iface("checkout", 1, 0, 0)], &[]));
    assert!(graph.has_provider(provider_id(1)));
    assert!(h.service.graph().has_provider(provider_id(1)));
    assert_eq!(h.providers.first().map(ProviderRecord::provider_id), Some(provider_id(1)));
    assert!(h
        .audit
        .contains(&AuditEvent::GraphRecordsCommitted { installation: installation(1) }));
}

#[test]
fn consumer_activation_requires_provider_activated_first() {
    let mut h = Host::new();
    let consumer = || records(2, &[], &[requirement("checkout", "^1.0.0")]);
    assert_eq!(
        h.check_activation(2, consumer()),
        Err(ApplicationError::ProviderGraphResolution {
            source: ProviderGraphError::MissingProvider {
                consumer: installation(2),
                requirement: requirement("checkout", "^1.0.0"),
            }
        })
    );
    assert!(h.consumers.is_empty());
    assert_eq!(h.service.graph().providers.len(), 0);
    assert!(matches!(
        h.activate(2, consumer()),
        Err(ApplicationError::ProviderGraphResolution { .. })
    ));
    assert!(h.consumers.is_empty());
    assert!(h.audit.is_empty());
}

#[test]
fn provider_then_consumer_chain_activates_in_order() {
    let mut h = Host::new();
    h.activated(1, records(1, &[iface("if-a", 1, 0, 0)], &[]));
    h.activated(
        2,
        records(2, &[iface("if-b", 1, 0, 0)], &[requirement("if-a", "^1.0.0")]),
    );
    h.activated(3, records(3, &[], &[requirement("if-b", "^1.0.0")]));
    let graph = h.service.graph();
    assert_eq!(
        graph.topological_order(),
        &vec![installation(1), installation(2), installation(3)]
    );
    assert_order_valid(&graph);
}

#[test]
fn ambiguous_provider_rejected_without_policy_and_resolved_with_policy() {
    let mut h = Host::new();
    h.activated(1, records(1, &[iface("checkout", 1, 0, 0)], &[]));
    h.activated(2, records(2, &[iface("checkout", 1, 0, 0)], &[]));
    let consumer = || records(3, &[], &[requirement("checkout", "^1.0.0")]);
    match h.check_activation(3, consumer()) {
        Err(ApplicationError::ProviderGraphResolution {
            source: ProviderGraphError::AmbiguousProvider { candidates, .. },
        }) => assert_eq!(candidates, vec![provider_id(1), provider_id(2)]),
        other => panic!("unexpected: {other:?}"),
    }
    assert!(h.update_policy(bound_to("checkout", 2)).is_ok());
    assert_eq!(h.check_activation(3, consumer()), Ok(()));
    let graph = h.activated(3, consumer());
    let edge = resolve(&graph, installation(3), &requirement("checkout", "^1.0.0"));
    assert_eq!(edge.provider, provider_id(2));
}

#[test]
fn cycle_between_providers_is_rejected() {
    let mut h = Host::new();
    h.activated(1, records(1, &[iface("if-a", 1, 0, 0)], &[]));
    h.activated(
        2,
        records(2, &[iface("if-b", 1, 0, 0)], &[requirement("if-a", "^1.0.0")]),
    );
    let cyclic = records(1, &[iface("if-a", 1, 0, 0)], &[requirement("if-b", "^1.0.0")]);
    match h.activate(1, cyclic) {
        Err(ApplicationError::ProviderGraphResolution {
            source: ProviderGraphError::CycleDetected { path },
        }) => {
            assert!(path.contains(&installation(1)));
            assert!(path.contains(&installation(2)));
        }
        other => panic!("cycle must be rejected: {other:?}"),
    }
    assert_eq!(h.service.graph().edges.len(), 1);
}

#[test]
fn highest_compatible_version_is_selected_within_provider() {
    let mut h = Host::new();
    h.activated(
        1,
        records(1, &[iface("checkout", 1, 0, 0), iface("checkout", 1, 3, 0)], &[]),
    );
    h.activated(2, records(2, &[], &[requirement("checkout", "^1.0.0")]));
    let graph = h.service.graph();
    let edge = resolve(&graph, installation(2), &requirement("checkout", "^1.0.0"));
    assert_eq!(edge.interface, iface("checkout", 1, 3, 0));
}

#[test]
fn deactivation_of_provider_with_consumers_is_rejected() {
    let mut h = checkout_pair();
    assert!(matches!(
        h.deactivate(1),
        Err(ApplicationError::ProviderGraphResolution {
            source: ProviderGraphError::MissingProvider { .. }
        })
    ));
    assert!(h.service.graph().has_provider(provider_id(1)));
}

#[test]
fn deactivation_removes_records_and_swaps_snapshot() {
    let mut h = Host::new();
    h.activated(1, records(1, &[iface("checkout", 1, 0, 0)], &[]));
    assert!(h.deactivate(1).is_ok());
    assert!(h.providers.is_empty());
    assert_eq!(h.service.graph().providers.len(), 0);
    assert!(h
        .audit
        .contains(&AuditEvent::GraphRecordsRemoved { installation: installation(1) }));
}

#[test]
fn safe_provider_upgrade_is_allowed_and_swaps() {
    let mut h = checkout_pair();
    let upgrade = records(1, &[iface("checkout", 1, 2, 0)], &[]);
    let analysis = h.analysis(1, &upgrade.provided());
    match h.service.analyze_upgrade(installation(1), analysis) {
        Ok(Some(report)) => assert!(report.is_safe()),
        other => panic!("upgrade analysis: {other:?}"),
    }
    assert_eq!(h.check_upgrade(1, &upgrade), Ok(()));
    let graph = h.activated(1, upgrade);
    let edge = resolve(&graph, installation(2), &requirement("checkout", "^1.0.0"));
    assert_eq!(edge.interface, iface("checkout", 1, 2, 0));
}

#[test]
fn breaking_provider_upgrade_is_rejected_with_impact_report() {
    let h = checkout_pair();
    let upgrade = records(1, &[iface("analytics", 1, 0, 0)], &[]);
    match h.check_upgrade(1, &upgrade) {
        Err(ApplicationError::ProviderUpgradeIncompatible { installation: upgraded, report }) => {
            assert_eq!(upgraded, installation(1));
            assert!(!report.is_safe());
            assert_eq!(report.impacts.len(), 1);
            assert_eq!(report.impacts[0].consumer, installation(2));
            assert_eq!(report.impacts[0].requirement, requirement("checkout", "^1.0.0"));
            assert!(report.impacts[0].removed);
        }
        other => panic!("breaking upgrade must be rejected: {other:?}"),
    }
    let graph = h.service.graph();
    let edge = resolve(&graph, installation(2), &requirement("checkout", "^1.0.0"));
    assert_eq!(edge.interface, iface("checkout", 1, 0, 0));
}

#[test]
fn major_version_bump_upgrade_is_rejected_with_reason() {
    let h = checkout_pair();
    let upgrade = records(1, &[iface("checkout", 2, 0, 0)], &[]);
    match h.check_upgrade(1, &upgrade) {
        Err(ApplicationError::ProviderUpgradeIncompatible { report, .. }) => {
            assert!(!report.is_safe());
            assert_eq!(report.impacts[0].consumer, installation(2));
            assert_eq!(report.impacts[0].requirement.versions, "^1.0.0");
            assert!(!report.impacts[0].removed);
        }
        other => panic!("breaking upgrade must be rejected: {other:?}"),
    }
}

#[test]
fn consumer_upgrade_with_unresolvable_imports_is_rejected() {
    let h = checkout_pair();
    let upgrade = records(2, &[], &[requirement("analytics", "^1.0.0")]);
    let analysis = h.analysis(2, &upgrade.provided());
    assert_eq!(h.service.analyze_upgrade(installation(2), analysis), Ok(None));
    assert!(matches!(
        h.check_activation(2, upgrade),
        Err(ApplicationError::ProviderGraphResolution { .. })
    ));
}

#[test]
fn snapshot_switch_is_single_pointer_exchange() {
    let mut h = Host::new();
    let first = h.activated(1, records(1, &[iface("checkout", 1, 0, 0)], &[]));
    let second = h.activated(2, records(2, &[], &[requirement("checkout", "^1.0.0")]));
    assert_eq!(second.edges.len(), 1);
    assert_eq!(first.edges.len(), 0);
    assert_eq!(h.service.graph().edges.len(), 1);
}

#[test]
fn records_roundtrip_and_recovery_rebuilds_identical_graph() {
    let h = checkout_pair();
    let original = h.service.graph();
    match h.load() {
        Ok(stored) => {
            assert_eq!(stored.providers.len(), 1);
            assert_eq!(stored.consumers.len(), 1);
            assert_eq!(try_build(&stored.providers, &stored.consumers).as_ref(), Ok(&*original));
        }
        Err(e) => panic!("load records: {e:?}"),
    }
}

#[test]
fn upgrade_replaces_records_instead_of_merging() {
    let mut h = Host::new();
    h.activated(1, records(1, &[iface("checkout", 1, 0, 0)], &[]));
    h.activated(1, records(1, &[iface("checkout", 1, 1, 0)], &[]));
    assert_eq!(h.providers, vec![provider_record(1, &[iface("checkout", 1, 1, 0)])]);
    assert_eq!(h.service.graph().providers, vec![provider_id(1)]);
}

#[test]
fn update_policy_revalidates_graph_and_is_atomic() {
    let mut h = Host::new();
    h.activated(1, records(1, &[iface("checkout", 1, 0, 0)], &[]));
    h.activated(2, records(2, &[iface("checkout", 1, 0, 0)], &[]));
    assert!(h.update_policy(bound_to("checkout", 1)).is_ok());
    assert!(h
        .audit
        .contains(&AuditEvent::GraphPolicyUpdated { bindings: 1, exclusions: 0 }));
    h.activated(3, records(3, &[], &[requirement("checkout", "^1.0.0")]));
    assert!(matches!(
        h.update_policy(GraphPolicy::new()),
        Err(ApplicationError::ProviderGraphResolution { .. })
    ));
    assert_eq!(h.service.policy().bindings().len(), 1);
    assert_eq!(h.service.graph().providers.len(), 1);
    assert_eq!(
        h.service.graph().edges.len(),
        1,
        "consumer edge resolved under the bound policy stays active"
    );
}

#[test]
fn unfulfillable_policy_is_refused() {
    let mut h = checkout_pair();
    assert_eq!(
        h.update_policy(bound_to("missing", 1)),
        Err(ApplicationError::ProviderGraphPolicy(GraphPolicyError::BindingUnfulfillable {
            interface: key("missing"),
            provider: provider_id(1),
        }))
    );
    assert!(h.service.policy().is_empty());
}

#[test]
fn refused_changes_leave_the_graph_in_service() {
    let mut h = checkout_pair();
    h.audit_fails = true;
    let more = || records(3, &[iface("analytics", 1, 0, 0)], &[]);
    assert!(matches!(h.activate(3, more()), Err(ApplicationError::Audit(_))));
    h.audit_fails = false;
    h.store_fails = true;
    assert!(matches!(h.activate(3, more()), Err(ApplicationError::GraphStore(_))));
    assert!(!h.service.graph().has_provider(provider_id(3)));
    assert!(h.update_policy(bound_to("checkout", 1)).is_ok(), "rules are not stored");
    let lost = Err(GraphStoreError::Storage(disk()));
    assert!(matches!(
        h.service.deactivate(installation(1), lost),
        Err(ApplicationError::GraphStore(_))
    ));
}

#[test]
fn same_inputs_in_different_activation_order_produce_identical_graphs() {
    let mut first = Host::new();
    let mut second = Host::new();
    let needs = [requirement("if-a", "^1.0.0"), requirement("if-b", "^1.0.0")];
    let mut turned = copied_needs(&needs);
    turned.reverse();
    first.activated(1, records(1, &[iface("if-a", 1, 0, 0)], &[]));
    first.activated(2, records(2, &[iface("if-b", 1, 0, 0)], &[]));
    first.activated(3, records(3, &[], &needs));
    second.activated(2, records(2, &[iface("if-b", 1, 0, 0)], &[]));
    second.activated(1, records(1, &[iface("if-a", 1, 0, 0)], &[]));
    second.activated(3, records(3, &[], &turned));
    assert_eq!(first.service.graph(), second.service.graph());
    assert_eq!(
        first.service.graph().topological_order(),
        second.service.graph().topological_order()
    );
}

#[test]
fn derived_records_build_resolvable_graph_end_to_end() {
    let mut h = Host::new();
    let provider = derived(
        1,
        &surface(&["wasi:cli/run@0.2.0"], &["descriptor", "acme:svc/checkout@1.0.0"]),
    );
    assert!(!provider.is_empty());
    h.activated(1, provider);
    let consumer = derived(
        2,
        &surface(&["wasi:cli/run@0.2.0", "acme:svc/checkout@1.0.0"], &["descriptor"]),
    );
    h.activated(2, consumer);
    let graph = h.service.graph();
    let edge = resolve(&graph, installation(2), &requirement("checkout", "^1.0.0"));
    assert_eq!(edge.provider, provider_id(1));
    assert_eq!(edge.interface, iface("checkout", 1, 0, 0));
    assert_order_valid(&graph);
}

fn real_provider() -> Vec<u8> {
    br#"(component
            (core module $m
                (func (export "checkout") (result i64) i64.const 7)
                (func (export "track"))
                (memory (export "memory") 1)
            )
            (core instance $i (instantiate $m))
            (func $checkout (result u64) (canon lift (core func $i "checkout")))
            (func $track (canon lift (core func $i "track")))
            (instance $checkout_instance (export "checkout" (func $checkout)))
            (instance $analytics_instance (export "track" (func $track)))
            (export "acme:svc/checkout@1.0.0" (instance $checkout_instance))
            (export "acme:svc/analytics@0.2.0" (instance $analytics_instance))
        )"#
    .to_vec()
}

fn real_consumer() -> Vec<u8> {
    br#"(component
            (import "acme:svc/checkout@1.0.0" (instance $checkout
                (export "checkout" (func (result u64)))
            ))
            (core module $m (memory (export "memory") 1))
            (core instance $i (instantiate $m))
        )"#
    .to_vec()
}

fn observed(bytes: Vec<u8>) -> ContractSurface {
    match contract_surface(&bytes) {
        Ok(surface) => surface,
        Err(e) => panic!("contract surface: {e:?}"),
    }
}

#[test]
fn real_wasmtime_surface_observation_derives_records() {
    let records = derived(1, &observed(real_provider()));
    let provided = records.provided();
    assert!(provided.contains(&iface("analytics", 0, 2, 0)));
    assert!(provided.contains(&iface("checkout", 1, 0, 0)));
}

#[test]
fn real_wasmtime_consumer_surface_derives_requirement() {
    let records = derived(2, &observed(real_consumer()));
    match records.consumer() {
        Some(consumer) => {
            assert!(consumer.required.contains(&requirement("checkout", "^1.0.0")));
        }
        None => panic!("consumer record"),
    }
}

#[test]
fn real_wasmtime_components_form_resolvable_graph() {
    let mut h = Host::new();
    h.activated(1, derived(1, &observed(real_provider())));
    let graph = h.activated(2, derived(2, &observed(real_consumer())));
    let edge = resolve(&graph, installation(2), &requirement("checkout", "^1.0.0"));
    assert_eq!(edge.provider, provider_id(1));
    assert_eq!(edge.interface, iface("checkout", 1, 0, 0));
    assert_order_valid(&graph);
}
