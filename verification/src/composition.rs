//! How components are put together: what each provides and needs, and the graph
//! in service that says who provides it to whom.
//!
//! A change goes step by step: from what the store keeps and the rules leave, a
//! graph is resolved; what changes is kept in the audit log; it is stored; and
//! only then is the graph in service replaced, in one step. Each step takes the
//! one before it, so none can be left out, and a change that is refused leaves
//! everything as it was.
use std::sync::Arc;

use arc_swap::ArcSwap;
use vstd::prelude::*;

use crate::audit::AuditEvent;
use crate::error::ApplicationError;
use crate::graph;
use crate::graph::{
    ConsumerModel, ConsumerRecord, GraphPolicy, InterfaceId, InterfaceModel, InterfaceRequirement,
    ProviderId, ProviderModel, ProviderRecord, RequirementModel,
};
use crate::model::ContractSurface;
use crate::ports::{AuditError, GraphStoreError};
use crate::text::{chars_of, has_prefix};
use crate::val;
use crate::values::InstallationId;

verus! {

/// The host itself provides and uses the interface.
pub open spec fn is_host(name: Seq<char>) -> bool {
    "wasi:"@.is_prefix_of(name) || "operune:"@.is_prefix_of(name)
}

fn is_host_interface(name: &str) -> (r: bool)
    ensures
        r == is_host(name@),
{
    let chars: Vec<char> = chars_of(name);
    has_prefix(&chars, &chars_of("wasi:")) || has_prefix(&chars, &chars_of("operune:"))
}

/// How an import reads as a need.
#[derive(Debug)]
pub struct ImportReading {
    /// The import as it stands.
    pub direct: Option<InterfaceRequirement>,
    /// The import with any version allowed.
    pub any_version: Option<InterfaceRequirement>,
}

impl ImportReading {
    /// The need that the import stands for.
    pub open spec fn need(&self) -> Option<RequirementModel> {
        match self.direct {
            Some(requirement) => Some(requirement@),
            None => match self.any_version {
                Some(requirement) => Some(requirement@),
                None => None,
            },
        }
    }
}

/// What a component provides to other components: its exports that name an
/// interface, but for the host's, each once.
pub open spec fn provided_by(exports: Seq<Seq<char>>, read: Seq<Option<InterfaceId>>) -> Seq<InterfaceModel>
    decreases exports.len(),
{
    if exports.len() == 0 {
        Seq::empty()
    } else {
        let sooner = provided_by(exports.drop_last(), read.drop_last());
        match read.last() {
            Some(interface) => if is_host(exports.last()) || sooner.contains(interface@) {
                sooner
            } else {
                sooner.push(interface@)
            },
            None => sooner,
        }
    }
}

/// What a component needs of other components: its imports, but for the host's,
/// each once; or the first import that is no need.
pub open spec fn required_by(imports: Seq<Seq<char>>, read: Seq<ImportReading>) -> Result<
    Seq<RequirementModel>,
    Seq<char>,
>
    decreases imports.len(),
{
    if imports.len() == 0 {
        Ok(Seq::empty())
    } else {
        match required_by(imports.drop_last(), read.drop_last()) {
            Err(import) => Err(import),
            Ok(sooner) => if is_host(imports.last()) {
                Ok(sooner)
            } else {
                match read.last().need() {
                    None => Err(imports.last()),
                    Some(need) => if sooner.contains(need) {
                        Ok(sooner)
                    } else {
                        Ok(sooner.push(need))
                    },
                }
            },
        }
    }
}

fn has_interface(list: &Vec<InterfaceId>, interface: &InterfaceId) -> (r: bool)
    ensures
        r == graph::interfaces(list@).contains(interface@),
{
    let ghost models = graph::interfaces(list@);
    let mut i: usize = 0;
    while i < list.len()
        invariant
            models == graph::interfaces(list@),
            i <= list@.len(),
            forall|j: int| 0 <= j < i ==> models[j] != interface@,
        decreases list@.len() - i,
    {
        assert(models[i as int] == list@[i as int]@);
        if list[i].same(interface) {
            assert(models.contains(interface@));
            return true;
        }
        i = i + 1;
    }
    false
}

fn has_requirement(list: &Vec<InterfaceRequirement>, requirement: &InterfaceRequirement) -> (r: bool)
    ensures
        r == graph::requirements(list@).contains(requirement@),
{
    let ghost models = graph::requirements(list@);
    let mut i: usize = 0;
    while i < list.len()
        invariant
            models == graph::requirements(list@),
            i <= list@.len(),
            forall|j: int| 0 <= j < i ==> models[j] != requirement@,
        decreases list@.len() - i,
    {
        assert(models[i as int] == list@[i as int]@);
        if list[i].same(requirement) {
            assert(models.contains(requirement@));
            return true;
        }
        i = i + 1;
    }
    false
}

/// What an installation leaves in the graph: what it provides, where it provides
/// anything, and what it needs, where it needs anything.
#[derive(Debug, PartialEq, Eq)]
pub struct ContractRecords {
    pub provider: Option<ProviderRecord>,
    pub consumer: Option<ConsumerRecord>,
}

/// What an installation leaves in the graph.
pub struct RecordsModel {
    pub provider: Option<ProviderModel>,
    pub consumer: Option<ConsumerModel>,
}

impl ContractRecords {
    pub open spec fn view(&self) -> RecordsModel {
        RecordsModel {
            provider: match self.provider {
                Some(record) => Some(record@),
                None => None,
            },
            consumer: match self.consumer {
                Some(record) => Some(record@),
                None => None,
            },
        }
    }

    pub fn provider(&self) -> (r: Option<&ProviderRecord>)
        ensures
            match r {
                Some(record) => self.provider == Some(*record),
                None => self.provider is None,
            },
    {
        match &self.provider {
            Some(record) => Some(record),
            None => None,
        }
    }

    pub fn consumer(&self) -> (r: Option<&ConsumerRecord>)
        ensures
            match r {
                Some(record) => self.consumer == Some(*record),
                None => self.consumer is None,
            },
    {
        match &self.consumer {
            Some(record) => Some(record),
            None => None,
        }
    }

    /// The installation takes no part in the graph.
    pub fn is_empty(&self) -> (r: bool)
        ensures
            r == (self.provider is None && self.consumer is None),
    {
        self.provider.is_none() && self.consumer.is_none()
    }

    /// What the installation provides; nothing where it is no provider.
    pub fn provided(&self) -> (r: Vec<InterfaceId>)
        ensures
            graph::interfaces(r@) == match self@.provider {
                Some(record) => record.provided,
                None => Seq::empty(),
            },
    {
        match &self.provider {
            Some(record) => record.copy().provided,
            None => {
                let none: Vec<InterfaceId> = Vec::new();
                assert(graph::interfaces(none@) =~= Seq::<InterfaceModel>::empty());
                none
            },
        }
    }
}

/// What a surface of a component leaves in the graph.
pub open spec fn records_of(
    installation: InstallationId,
    provided: Seq<InterfaceModel>,
    required: Seq<RequirementModel>,
) -> RecordsModel {
    RecordsModel {
        provider: if provided.len() == 0 {
            None
        } else {
            Some(ProviderModel { installation, provided })
        },
        consumer: if required.len() == 0 {
            None
        } else {
            Some(ConsumerModel { installation, required })
        },
    }
}

/// Derives what a component leaves in the graph from its surface. `exports` and
/// `imports` say how each export reads as an interface and each import as a need.
///
/// An export that is no interface is passed over. An import that is no need is
/// refused, and the first such import is told.
pub fn records_from_surface(
    installation: InstallationId,
    surface: &ContractSurface,
    exports: &Vec<Option<InterfaceId>>,
    imports: &Vec<ImportReading>,
) -> (r: Result<ContractRecords, ApplicationError>)
    requires
        exports@.len() == surface.exports@.len(),
        imports@.len() == surface.imports@.len(),
    ensures
        match required_by(val::names_model(surface.imports@), imports@) {
            Ok(required) => r is Ok && r->Ok_0@ == records_of(
                installation,
                provided_by(val::names_model(surface.exports@), exports@),
                required,
            ),
            Err(import) => r is Err && r->Err_0 is UnresolvableImport
                && r->Err_0->UnresolvableImport_0@ == import,
        },
{
    let mut provided: Vec<InterfaceId> = Vec::new();
    let ghost names = val::names_model(surface.exports@);
    let mut i: usize = 0;
    assert(graph::interfaces(provided@) =~= Seq::<InterfaceModel>::empty());
    while i < surface.exports.len()
        invariant
            exports@.len() == surface.exports@.len(),
            names == val::names_model(surface.exports@),
            i <= surface.exports@.len(),
            graph::interfaces(provided@) == provided_by(names.take(i as int), exports@.take(i as int)),
        decreases surface.exports@.len() - i,
    {
        proof {
            assert(names.take(i + 1).drop_last() =~= names.take(i as int));
            assert(exports@.take(i + 1).drop_last() =~= exports@.take(i as int));
            assert(names[i as int] == surface.exports@[i as int]@);
        }
        let ghost was = provided@;
        match &exports[i] {
            Some(interface) => {
                if !is_host_interface(surface.exports[i].as_str()) && !has_interface(&provided, interface) {
                    provided.push(interface.clone());
                    assert(graph::interfaces(provided@) =~= graph::interfaces(was).push(interface@));
                }
            },
            None => {},
        }
        i = i + 1;
    }
    proof {
        assert(names.take(i as int) =~= names);
        assert(exports@.take(i as int) =~= exports@);
    }
    let mut required: Vec<InterfaceRequirement> = Vec::new();
    let ghost needs = val::names_model(surface.imports@);
    let mut n: usize = 0;
    assert(graph::requirements(required@) =~= Seq::<RequirementModel>::empty());
    while n < surface.imports.len()
        invariant
            imports@.len() == surface.imports@.len(),
            needs == val::names_model(surface.imports@),
            n <= surface.imports@.len(),
            required_by(needs.take(n as int), imports@.take(n as int)) == Ok::<
                Seq<RequirementModel>,
                Seq<char>,
            >(graph::requirements(required@)),
        decreases surface.imports@.len() - n,
    {
        proof {
            assert(needs.take(n + 1).drop_last() =~= needs.take(n as int));
            assert(imports@.take(n + 1).drop_last() =~= imports@.take(n as int));
            assert(needs[n as int] == surface.imports@[n as int]@);
        }
        let ghost was = required@;
        if !is_host_interface(surface.imports[n].as_str()) {
            let need: Option<&InterfaceRequirement> = match &imports[n].direct {
                Some(requirement) => Some(requirement),
                None => match &imports[n].any_version {
                    Some(requirement) => Some(requirement),
                    None => None,
                },
            };
            match need {
                None => {
                    proof {
                        lemma_refused_import(needs, imports@, n as int);
                    }
                    return Err(ApplicationError::UnresolvableImport(surface.imports[n].clone()));
                },
                Some(requirement) => {
                    if !has_requirement(&required, requirement) {
                        required.push(requirement.clone());
                        assert(graph::requirements(required@) =~= graph::requirements(was).push(
                            requirement@,
                        ));
                    }
                },
            }
        }
        n = n + 1;
    }
    proof {
        assert(needs.take(n as int) =~= needs);
        assert(imports@.take(n as int) =~= imports@);
        assert(graph::interfaces(provided@).len() == provided@.len());
        assert(graph::requirements(required@).len() == required@.len());
    }
    let provider: Option<ProviderRecord> = if provided.len() == 0 {
        None
    } else {
        Some(ProviderRecord { installation, provided })
    };
    let consumer: Option<ConsumerRecord> = if required.len() == 0 {
        None
    } else {
        Some(ConsumerRecord { installation, required })
    };
    Ok(ContractRecords { provider, consumer })
}

proof fn lemma_refused_import(imports: Seq<Seq<char>>, read: Seq<ImportReading>, n: int)
    requires
        read.len() == imports.len(),
        0 <= n < imports.len(),
        required_by(imports.take(n), read.take(n)) is Ok,
        !is_host(imports[n]),
        read[n].need() is None,
    ensures
        required_by(imports, read) == Err::<Seq<RequirementModel>, Seq<char>>(imports[n]),
    decreases imports.len(),
{
    if n == imports.len() - 1 {
        assert(imports.drop_last() =~= imports.take(n));
        assert(read.drop_last() =~= read.take(n));
    } else {
        let fewer = imports.drop_last();
        assert(fewer.take(n) =~= imports.take(n));
        assert(read.drop_last().take(n) =~= read.take(n));
        lemma_refused_import(fewer, read.drop_last(), n);
    }
}

/// Who provides an interface to a consumer.
#[derive(Debug, PartialEq, Eq)]
pub struct GraphEdge {
    pub consumer: InstallationId,
    pub provider: ProviderId,
    pub interface: InterfaceId,
}

/// A resolved graph: its providers, who provides what to whom, and an order in
/// which every provider comes before its consumers.
#[derive(Debug, PartialEq, Eq)]
pub struct ProviderGraph {
    pub providers: Vec<ProviderId>,
    pub edges: Vec<GraphEdge>,
    pub order: Vec<InstallationId>,
}

impl ProviderGraph {
    pub fn empty() -> (r: ProviderGraph)
        ensures
            r.providers@.len() == 0,
            r.edges@.len() == 0,
            r.order@.len() == 0,
    {
        ProviderGraph { providers: Vec::new(), edges: Vec::new(), order: Vec::new() }
    }

    /// The provider is in the graph.
    pub fn has_provider(&self, provider: ProviderId) -> (r: bool)
        ensures
            r == self.providers@.contains(provider),
    {
        let mut i: usize = 0;
        while i < self.providers.len()
            invariant
                i <= self.providers@.len(),
                forall|j: int| 0 <= j < i ==> self.providers@[j] != provider,
            decreases self.providers@.len() - i,
        {
            if self.providers[i] == provider {
                assert(self.providers@.contains(provider));
                return true;
            }
            i = i + 1;
        }
        false
    }

    pub fn topological_order(&self) -> (r: &Vec<InstallationId>)
        ensures
            *r == self.order,
    {
        &self.order
    }
}

/// Why records do not resolve to a graph.
#[derive(Debug, PartialEq, Eq)]
pub enum ProviderGraphError {
    MissingProvider { consumer: InstallationId, requirement: InterfaceRequirement },
    AmbiguousProvider {
        consumer: InstallationId,
        requirement: InterfaceRequirement,
        candidates: Vec<ProviderId>,
    },
    IncompatibleVersion { consumer: InstallationId, requirement: InterfaceRequirement },
    CycleDetected { path: Vec<InstallationId> },
    InvalidRecord { installation: InstallationId },
}

/// A need that an upgrade leaves unmet.
#[derive(Debug, PartialEq, Eq)]
pub struct UpgradeImpact {
    pub consumer: InstallationId,
    pub requirement: InterfaceRequirement,
    /// The interface is gone; otherwise its version no longer fits.
    pub removed: bool,
}

/// What an upgrade of a provider does to its consumers.
#[derive(Debug, PartialEq, Eq)]
pub struct UpgradeCompatibilityReport {
    pub provider: ProviderId,
    pub impacts: Vec<UpgradeImpact>,
}

impl UpgradeCompatibilityReport {
    /// No consumer is left without what it needs.
    pub fn is_safe(&self) -> (r: bool)
        ensures
            r == (self.impacts@.len() == 0),
    {
        self.impacts.len() == 0
    }
}

/// The graph in service, in an `arc_swap::ArcSwap`, which replaces it in one
/// step. Only what it holds has a name here.
#[verifier::external_body]
pub struct GraphCell {
    current: ArcSwap<ProviderGraph>,
}

/// The graph that the cell holds.
pub uninterp spec fn graph_held(cell: GraphCell) -> Arc<ProviderGraph>;

/// `arc_swap::ArcSwapAny::from_pointee`: the cell holds what it was made with.
#[verifier::external_body]
fn cell_new(first: ProviderGraph) -> (r: GraphCell)
    ensures
        *graph_held(r) == first,
{
    GraphCell { current: ArcSwap::from_pointee(first) }
}

/// `arc_swap::ArcSwapAny::load_full`: gives out what the cell holds.
#[verifier::external_body]
fn cell_load(cell: &GraphCell) -> (r: Arc<ProviderGraph>)
    ensures
        r == graph_held(*cell),
{
    cell.current.load_full()
}

/// `arc_swap::ArcSwapAny::store`: the cell then holds what was stored. The
/// outside function asks for shared access only; that others could store at the
/// same time is kept out here by asking for the cell alone.
#[verifier::external_body]
fn cell_store(cell: &mut GraphCell, next: Arc<ProviderGraph>)
    ensures
        graph_held(*final(cell)) == next,
{
    cell.current.store(next)
}

/// The graph in service.
pub struct ActiveGraph {
    cell: GraphCell,
}

impl ActiveGraph {
    pub closed spec fn view(&self) -> ProviderGraph {
        *graph_held(self.cell)
    }

    /// An empty graph.
    pub fn new() -> (r: ActiveGraph)
        ensures
            r@.providers@.len() == 0,
            r@.edges@.len() == 0,
            r@.order@.len() == 0,
    {
        ActiveGraph { cell: cell_new(ProviderGraph::empty()) }
    }

    /// The graph as it is now. It stays so for the reader, whatever is put in
    /// service later.
    pub fn load(&self) -> (r: Arc<ProviderGraph>)
        ensures
            *r == self@,
    {
        cell_load(&self.cell)
    }

    /// Puts another graph in service.
    pub fn swap(&mut self, next: Arc<ProviderGraph>)
        ensures
            final(self)@ == *next,
    {
        cell_store(&mut self.cell, next);
    }
}

/// What the store keeps of all installations.
#[derive(Debug)]
pub struct GraphRecords {
    pub providers: Vec<ProviderRecord>,
    pub consumers: Vec<ConsumerRecord>,
}

/// A change of the graph.
#[derive(Debug)]
pub enum GraphChange {
    /// An installation is activated or upgraded with new records.
    Activate(InstallationId, ContractRecords),
    /// An installation leaves the graph.
    Remove(InstallationId),
    /// Other rules are set.
    Rules(GraphPolicy),
}

/// The records of all installations but one.
pub open spec fn providers_without(records: Seq<ProviderModel>, installation: InstallationId) -> Seq<
    ProviderModel,
>
    decreases records.len(),
{
    if records.len() == 0 {
        Seq::empty()
    } else if records.last().installation == installation {
        providers_without(records.drop_last(), installation)
    } else {
        providers_without(records.drop_last(), installation).push(records.last())
    }
}

/// The records of all installations but one.
pub open spec fn consumers_without(records: Seq<ConsumerModel>, installation: InstallationId) -> Seq<
    ConsumerModel,
>
    decreases records.len(),
{
    if records.len() == 0 {
        Seq::empty()
    } else if records.last().installation == installation {
        consumers_without(records.drop_last(), installation)
    } else {
        consumers_without(records.drop_last(), installation).push(records.last())
    }
}

impl GraphChange {
    /// The providers after the change, before the rules are applied: what an
    /// installation had is replaced, not added to.
    pub open spec fn providers_after(&self, stored: Seq<ProviderModel>) -> Seq<ProviderModel> {
        match *self {
            GraphChange::Activate(installation, records) => match records@.provider {
                Some(record) => providers_without(stored, installation).push(record),
                None => providers_without(stored, installation),
            },
            GraphChange::Remove(installation) => providers_without(stored, installation),
            GraphChange::Rules(_) => stored,
        }
    }

    /// The consumers after the change.
    pub open spec fn consumers_after(&self, stored: Seq<ConsumerModel>) -> Seq<ConsumerModel> {
        match *self {
            GraphChange::Activate(installation, records) => match records@.consumer {
                Some(record) => consumers_without(stored, installation).push(record),
                None => consumers_without(stored, installation),
            },
            GraphChange::Remove(installation) => consumers_without(stored, installation),
            GraphChange::Rules(_) => stored,
        }
    }

    pub open spec fn wf(&self) -> bool {
        self matches GraphChange::Rules(policy) ==> policy.wf()
    }

    /// The audit event that must be kept before the change is stored.
    pub open spec fn event(&self) -> AuditEvent {
        match *self {
            GraphChange::Activate(installation, _) => AuditEvent::GraphRecordsCommitted { installation },
            GraphChange::Remove(installation) => AuditEvent::GraphRecordsRemoved { installation },
            GraphChange::Rules(policy) => AuditEvent::GraphPolicyUpdated {
                bindings: policy.binding_count() as usize,
                exclusions: policy.exclusion_count() as usize,
            },
        }
    }
}

fn drop_providers(records: Vec<ProviderRecord>, installation: InstallationId) -> (r: Vec<ProviderRecord>)
    ensures
        graph::provider_models(r@) == providers_without(graph::provider_models(records@), installation),
{
    let ghost models = graph::provider_models(records@);
    let mut out: Vec<ProviderRecord> = Vec::new();
    let mut i: usize = 0;
    assert(graph::provider_models(out@) =~= Seq::<ProviderModel>::empty());
    while i < records.len()
        invariant
            models == graph::provider_models(records@),
            i <= records@.len(),
            graph::provider_models(out@) == providers_without(models.take(i as int), installation),
        decreases records@.len() - i,
    {
        proof {
            assert(models.take(i + 1).drop_last() =~= models.take(i as int));
            assert(models[i as int] == records@[i as int]@);
        }
        let ghost was = out@;
        if records[i].installation != installation {
            let copy = records[i].copy();
            let ghost model = copy@;
            out.push(copy);
            assert(graph::provider_models(out@) =~= graph::provider_models(was).push(model));
        }
        i = i + 1;
    }
    assert(models.take(i as int) =~= models);
    out
}

fn drop_consumers(records: Vec<ConsumerRecord>, installation: InstallationId) -> (r: Vec<ConsumerRecord>)
    ensures
        graph::consumer_models(r@) == consumers_without(graph::consumer_models(records@), installation),
{
    let ghost models = graph::consumer_models(records@);
    let mut out: Vec<ConsumerRecord> = Vec::new();
    let mut i: usize = 0;
    assert(graph::consumer_models(out@) =~= Seq::<ConsumerModel>::empty());
    while i < records.len()
        invariant
            models == graph::consumer_models(records@),
            i <= records@.len(),
            graph::consumer_models(out@) == consumers_without(models.take(i as int), installation),
        decreases records@.len() - i,
    {
        proof {
            assert(models.take(i + 1).drop_last() =~= models.take(i as int));
            assert(models[i as int] == records@[i as int]@);
        }
        let ghost was = out@;
        if records[i].installation != installation {
            let copy = records[i].copy();
            let ghost model = copy@;
            out.push(copy);
            assert(graph::consumer_models(out@) =~= graph::consumer_models(was).push(model));
        }
        i = i + 1;
    }
    assert(models.take(i as int) =~= models);
    out
}

/// A change with the records that its graph is resolved from.
#[derive(Debug)]
pub struct Candidate {
    change: GraphChange,
    providers: Vec<ProviderRecord>,
    consumers: Vec<ConsumerRecord>,
}

/// A change with its graph.
#[derive(Debug)]
pub struct BuiltChange {
    change: GraphChange,
    graph: Arc<ProviderGraph>,
}

/// A change whose audit event is kept.
#[derive(Debug)]
pub struct AuditedChange {
    change: GraphChange,
    graph: Arc<ProviderGraph>,
}

/// A change that is stored.
#[derive(Debug)]
pub struct StoredChange {
    change: GraphChange,
    graph: Arc<ProviderGraph>,
}

/// What the store is asked to do for a change.
#[derive(Debug)]
pub enum StoreRequest<'a> {
    Replace(InstallationId, Option<&'a ProviderRecord>, Option<&'a ConsumerRecord>),
    Remove(InstallationId),
    Nothing,
}

impl Candidate {
    pub closed spec fn change(&self) -> GraphChange {
        self.change
    }

    pub closed spec fn provider_models(&self) -> Seq<ProviderModel> {
        graph::provider_models(self.providers@)
    }

    pub closed spec fn consumer_models(&self) -> Seq<ConsumerModel> {
        graph::consumer_models(self.consumers@)
    }

    /// What is provided, as far as the rules let it.
    pub fn providers(&self) -> (r: &Vec<ProviderRecord>)
        ensures
            graph::provider_models(r@) == self.provider_models(),
    {
        &self.providers
    }

    /// What is needed.
    pub fn consumers(&self) -> (r: &Vec<ConsumerRecord>)
        ensures
            graph::consumer_models(r@) == self.consumer_models(),
    {
        &self.consumers
    }

    /// Goes on with the graph that the records resolve to, where they do.
    pub fn built(self, built: Result<ProviderGraph, ProviderGraphError>) -> (r: Result<
        BuiltChange,
        ApplicationError,
    >)
        ensures
            match built {
                Ok(graph) => r is Ok && r->Ok_0.change() == self.change() && *r->Ok_0.graph() == graph,
                Err(source) => r == Err::<BuiltChange, ApplicationError>(
                    ApplicationError::ProviderGraphResolution { source },
                ),
            },
    {
        match built {
            Ok(graph) => Ok(BuiltChange { change: self.change, graph: Arc::new(graph) }),
            Err(source) => Err(ApplicationError::ProviderGraphResolution { source }),
        }
    }
}

impl BuiltChange {
    pub closed spec fn change(&self) -> GraphChange {
        self.change
    }

    pub closed spec fn graph(&self) -> Arc<ProviderGraph> {
        self.graph
    }

    /// The audit event that must be kept first.
    pub fn event(&self) -> (r: AuditEvent)
        requires
            self.change().wf(),
        ensures
            r == self.change().event(),
    {
        match &self.change {
            GraphChange::Activate(installation, _) => AuditEvent::GraphRecordsCommitted {
                installation: *installation,
            },
            GraphChange::Remove(installation) => AuditEvent::GraphRecordsRemoved {
                installation: *installation,
            },
            GraphChange::Rules(policy) => {
                let bindings: usize = policy.bindings().len();
                let exclusions: usize = policy.exclusions().len();
                AuditEvent::GraphPolicyUpdated { bindings, exclusions }
            },
        }
    }

    /// Goes on, once the audit log was asked to keep the event.
    pub fn audited(self, audited: Result<(), AuditError>) -> (r: Result<AuditedChange, ApplicationError>)
        ensures
            match audited {
                Ok(_) => r is Ok && r->Ok_0.change() == self.change() && r->Ok_0.graph() == self.graph(),
                Err(e) => r == Err::<AuditedChange, ApplicationError>(ApplicationError::Audit(e)),
            },
    {
        match audited {
            Ok(_) => Ok(AuditedChange { change: self.change, graph: self.graph }),
            Err(e) => Err(ApplicationError::Audit(e)),
        }
    }
}

impl AuditedChange {
    pub closed spec fn change(&self) -> GraphChange {
        self.change
    }

    pub closed spec fn graph(&self) -> Arc<ProviderGraph> {
        self.graph
    }

    /// What the store is asked to do.
    pub fn request(&self) -> (r: StoreRequest<'_>)
        ensures
            match self.change() {
                GraphChange::Activate(installation, records) => {
                    &&& r matches StoreRequest::Replace(i, provider, consumer)
                    &&& i == installation
                    &&& match provider {
                        Some(p) => records.provider == Some(*p),
                        None => records.provider is None,
                    }
                    &&& match consumer {
                        Some(c) => records.consumer == Some(*c),
                        None => records.consumer is None,
                    }
                },
                GraphChange::Remove(installation) => r matches StoreRequest::Remove(i) && i
                    == installation,
                GraphChange::Rules(_) => r is Nothing,
            },
    {
        match &self.change {
            GraphChange::Activate(installation, records) => StoreRequest::Replace(
                *installation,
                records.provider(),
                records.consumer(),
            ),
            GraphChange::Remove(installation) => StoreRequest::Remove(*installation),
            GraphChange::Rules(_) => StoreRequest::Nothing,
        }
    }

    /// Goes on, once the store was asked. Rules are not stored with the records,
    /// so the store has no say in them.
    pub fn stored(self, stored: Result<(), GraphStoreError>) -> (r: Result<StoredChange, ApplicationError>)
        ensures
            if self.change() is Rules || stored is Ok {
                r is Ok && r->Ok_0.change() == self.change() && r->Ok_0.graph() == self.graph()
            } else {
                r == Err::<StoredChange, ApplicationError>(ApplicationError::GraphStore(stored->Err_0))
            },
    {
        match &self.change {
            GraphChange::Rules(_) => {
                return Ok(StoredChange { change: self.change, graph: self.graph });
            },
            _ => {},
        }
        match stored {
            Ok(_) => Ok(StoredChange { change: self.change, graph: self.graph }),
            Err(e) => Err(ApplicationError::GraphStore(e)),
        }
    }
}

impl StoredChange {
    pub closed spec fn change(&self) -> GraphChange {
        self.change
    }

    pub closed spec fn graph(&self) -> Arc<ProviderGraph> {
        self.graph
    }
}

/// Puts components together.
pub struct CompositionService {
    active: ActiveGraph,
    policy: GraphPolicy,
}

impl CompositionService {
    pub closed spec fn wf(&self) -> bool {
        self.policy.wf()
    }

    /// The rules in force.
    pub closed spec fn rules(&self) -> GraphPolicy {
        self.policy
    }

    /// The graph in service.
    pub closed spec fn in_service(&self) -> ProviderGraph {
        self.active@
    }

    pub fn new(active: ActiveGraph, policy: GraphPolicy) -> (r: CompositionService)
        requires
            policy.wf(),
        ensures
            r.wf(),
            r.rules() == policy,
            r.in_service() == active@,
    {
        CompositionService { active, policy }
    }

    /// A copy of the rules in force.
    pub fn policy(&self) -> (r: GraphPolicy)
        requires
            self.wf(),
        ensures
            r.wf(),
            r.bound() == self.rules().bound(),
            r.excluded() == self.rules().excluded(),
            r.binding_count() == self.rules().binding_count(),
            r.exclusion_count() == self.rules().exclusion_count(),
    {
        self.policy.copy()
    }

    /// The graph in service.
    pub fn graph(&self) -> (r: Arc<ProviderGraph>)
        ensures
            *r == self.in_service(),
    {
        self.active.load()
    }

    /// The rules that a change is judged by: the new ones where it sets some.
    pub open spec fn rules_for(&self, change: GraphChange) -> GraphPolicy {
        match change {
            GraphChange::Rules(policy) => policy,
            _ => self.rules(),
        }
    }

    /// What a change comes to, from what the store keeps.
    pub open spec fn comes_to(
        &self,
        change: GraphChange,
        stored: Result<GraphRecords, GraphStoreError>,
        r: Result<Candidate, ApplicationError>,
    ) -> bool {
        match stored {
            Err(e) => r == Err::<Candidate, ApplicationError>(ApplicationError::GraphStore(e)),
            Ok(records) => {
                let rules = self.rules_for(change);
                let providers = change.providers_after(graph::provider_models(records.providers@));
                let consumers = change.consumers_after(graph::consumer_models(records.consumers@));
                match r {
                    Ok(candidate) => {
                        &&& candidate.change() == change
                        &&& candidate.provider_models() == graph::applied(
                            rules.bound(),
                            rules.excluded(),
                            providers,
                        )
                        &&& candidate.consumer_models() == consumers
                        &&& forall|k: graph::KeyModel| #[trigger]
                            rules.bound().dom().contains(k) ==> graph::fulfilled(
                                providers,
                                k,
                                rules.bound()[k],
                            )
                    },
                    Err(e) => {
                        &&& e matches ApplicationError::ProviderGraphPolicy(fault)
                        &&& fault matches graph::GraphPolicyError::BindingUnfulfillable {
                            interface,
                            provider,
                        }
                        &&& rules.first_unfulfilled(providers, interface@)
                        &&& provider == rules.bound()[interface@]
                    },
                }
            },
        }
    }

    fn candidate(&self, change: GraphChange, stored: Result<GraphRecords, GraphStoreError>) -> (r: Result<
        Candidate,
        ApplicationError,
    >)
        requires
            self.wf(),
            change.wf(),
        ensures
            self.comes_to(change, stored, r),
    {
        let records: GraphRecords = match stored {
            Ok(records) => records,
            Err(e) => return Err(ApplicationError::GraphStore(e)),
        };
        let (providers, consumers): (Vec<ProviderRecord>, Vec<ConsumerRecord>) = match &change {
            GraphChange::Activate(installation, new) => {
                let mut providers = drop_providers(records.providers, *installation);
                let mut consumers = drop_consumers(records.consumers, *installation);
                let ghost p = providers@;
                let ghost c = consumers@;
                match &new.provider {
                    Some(record) => {
                        let copy = record.copy();
                        let ghost model = copy@;
                        providers.push(copy);
                        assert(graph::provider_models(providers@) =~= graph::provider_models(p).push(model));
                    },
                    None => {},
                }
                match &new.consumer {
                    Some(record) => {
                        let copy = record.copy();
                        let ghost model = copy@;
                        consumers.push(copy);
                        assert(graph::consumer_models(consumers@) =~= graph::consumer_models(c).push(model));
                    },
                    None => {},
                }
                (providers, consumers)
            },
            GraphChange::Remove(installation) => (
                drop_providers(records.providers, *installation),
                drop_consumers(records.consumers, *installation),
            ),
            GraphChange::Rules(_) => (records.providers, records.consumers),
        };
        let applied = match &change {
            GraphChange::Rules(policy) => policy.apply(&providers),
            _ => self.policy.apply(&providers),
        };
        match applied {
            Ok(providers) => Ok(Candidate { change, providers, consumers }),
            Err(fault) => Err(ApplicationError::ProviderGraphPolicy(fault)),
        }
    }

    /// Begins an activation or an upgrade.
    pub fn commit_activation(
        &self,
        installation: InstallationId,
        records: ContractRecords,
        stored: Result<GraphRecords, GraphStoreError>,
    ) -> (r: Result<Candidate, ApplicationError>)
        requires
            self.wf(),
        ensures
            self.comes_to(GraphChange::Activate(installation, records), stored, r),
    {
        self.candidate(GraphChange::Activate(installation, records), stored)
    }

    /// Says whether an activation is possible: its records resolve to a graph.
    /// The change is given up either way.
    pub fn check_activation(
        &self,
        candidate: Candidate,
        built: Result<ProviderGraph, ProviderGraphError>,
    ) -> (r: Result<(), ApplicationError>)
        ensures
            r == match built {
                Ok(_) => Ok::<(), ApplicationError>(()),
                Err(source) => Err(ApplicationError::ProviderGraphResolution { source }),
            },
    {
        match candidate.built(built) {
            Ok(_) => Ok(()),
            Err(e) => Err(e),
        }
    }

    /// Begins to take an installation out of the graph.
    pub fn deactivate(&self, installation: InstallationId, stored: Result<GraphRecords, GraphStoreError>) -> (r:
        Result<Candidate, ApplicationError>)
        requires
            self.wf(),
        ensures
            self.comes_to(GraphChange::Remove(installation), stored, r),
    {
        self.candidate(GraphChange::Remove(installation), stored)
    }

    /// Begins to set other rules.
    pub fn update_policy(&self, policy: GraphPolicy, stored: Result<GraphRecords, GraphStoreError>) -> (r: Result<
        Candidate,
        ApplicationError,
    >)
        requires
            self.wf(),
            policy.wf(),
        ensures
            self.comes_to(GraphChange::Rules(policy), stored, r),
    {
        self.candidate(GraphChange::Rules(policy), stored)
    }

    /// Puts the graph of a change in service, and its rules in force where it has
    /// any.
    pub fn finish(&mut self, change: StoredChange) -> (r: Arc<ProviderGraph>)
        requires
            old(self).wf(),
            change.change().wf(),
        ensures
            final(self).wf(),
            r == change.graph(),
            final(self).in_service() == *change.graph(),
            final(self).rules() == old(self).rules_for(change.change()),
    {
        match change.change {
            GraphChange::Rules(policy) => {
                self.policy = policy;
            },
            _ => {},
        }
        self.active.swap(Arc::clone(&change.graph));
        change.graph
    }

    /// What an upgrade does to an installation's consumers, where it provides
    /// anything now. `analysis` is what the analysis of the graph in service
    /// said; it need not be made where the installation is no provider.
    pub fn analyze_upgrade(
        &self,
        installation: InstallationId,
        analysis: Result<UpgradeCompatibilityReport, ProviderGraphError>,
    ) -> (r: Result<Option<UpgradeCompatibilityReport>, ApplicationError>)
        ensures
            r == if !self.in_service().providers@.contains(ProviderId { installation }) {
                Ok::<Option<UpgradeCompatibilityReport>, ApplicationError>(None)
            } else {
                match analysis {
                    Ok(report) => Ok(Some(report)),
                    Err(source) => Err(ApplicationError::ProviderGraphResolution { source }),
                }
            },
    {
        if !self.active.load().has_provider(ProviderId::from_installation(installation)) {
            return Ok(None);
        }
        match analysis {
            Ok(report) => Ok(Some(report)),
            Err(source) => Err(ApplicationError::ProviderGraphResolution { source }),
        }
    }

    /// Refuses an upgrade that leaves a consumer without what it needs.
    pub fn check_upgrade(
        &self,
        installation: InstallationId,
        analysis: Result<UpgradeCompatibilityReport, ProviderGraphError>,
    ) -> (r: Result<(), ApplicationError>)
        ensures
            r == if !self.in_service().providers@.contains(ProviderId { installation }) {
                Ok::<(), ApplicationError>(())
            } else {
                match analysis {
                    Ok(report) => if report.impacts@.len() == 0 {
                        Ok(())
                    } else {
                        Err(ApplicationError::ProviderUpgradeIncompatible { installation, report })
                    },
                    Err(source) => Err(ApplicationError::ProviderGraphResolution { source }),
                }
            },
    {
        match self.analyze_upgrade(installation, analysis) {
            Err(e) => Err(e),
            Ok(None) => Ok(()),
            Ok(Some(report)) => if report.is_safe() {
                Ok(())
            } else {
                Err(ApplicationError::ProviderUpgradeIncompatible { installation, report })
            },
        }
    }
}

/// An upgrade replaces what an installation had: after it, nothing of the old
/// records is left, and of each other installation nothing is lost.
pub proof fn law_upgrade_replaces(stored: Seq<ProviderModel>, installation: InstallationId, record: ProviderModel)
    ensures
        providers_without(stored, installation).contains(record) <==> stored.contains(record)
            && record.installation != installation,
    decreases stored.len(),
{
    if stored.len() > 0 {
        let fewer = stored.drop_last();
        let sooner = providers_without(fewer, installation);
        law_upgrade_replaces(fewer, installation, record);
        if stored.contains(record) {
            let i = choose|i: int| 0 <= i < stored.len() && stored[i] == record;
            if i < fewer.len() {
                assert(fewer[i] == record);
            }
        }
        if fewer.contains(record) {
            let i = choose|i: int| 0 <= i < fewer.len() && fewer[i] == record;
            assert(stored[i] == record);
        }
        if stored.last().installation != installation {
            let all = sooner.push(stored.last());
            assert(all[sooner.len() as int] == stored.last());
            assert(stored[stored.len() - 1] == stored.last());
            if sooner.contains(record) {
                let i = choose|i: int| 0 <= i < sooner.len() && sooner[i] == record;
                assert(all[i] == record);
            }
            if all.contains(record) {
                let i = choose|i: int| 0 <= i < all.len() && all[i] == record;
                if i < sooner.len() {
                    assert(sooner[i] == record);
                }
            }
        }
    }
}

/// Taking an installation out of the graph undoes its activation.
pub proof fn law_deactivation_undoes_activation(
    providers: Seq<ProviderModel>,
    consumers: Seq<ConsumerModel>,
    installation: InstallationId,
    records: ContractRecords,
)
    requires
        records.provider matches Some(record) ==> record.installation == installation,
        records.consumer matches Some(record) ==> record.installation == installation,
    ensures
        GraphChange::Remove(installation).providers_after(
            GraphChange::Activate(installation, records).providers_after(providers),
        ) == GraphChange::Remove(installation).providers_after(providers),
        GraphChange::Remove(installation).consumers_after(
            GraphChange::Activate(installation, records).consumers_after(consumers),
        ) == GraphChange::Remove(installation).consumers_after(consumers),
{
    lemma_nothing_left_to_drop(providers, consumers, installation);
    let p = providers_without(providers, installation);
    let c = consumers_without(consumers, installation);
    if records.provider is Some {
        let record = records@.provider->0;
        assert(p.push(record).drop_last() =~= p);
    }
    if records.consumer is Some {
        let record = records@.consumer->0;
        assert(c.push(record).drop_last() =~= c);
    }
}

proof fn lemma_nothing_left_to_drop(
    providers: Seq<ProviderModel>,
    consumers: Seq<ConsumerModel>,
    installation: InstallationId,
)
    ensures
        providers_without(providers_without(providers, installation), installation) == providers_without(
            providers,
            installation,
        ),
        consumers_without(consumers_without(consumers, installation), installation) == consumers_without(
            consumers,
            installation,
        ),
    decreases providers.len() + consumers.len(),
{
    if providers.len() > 0 {
        let fewer = providers.drop_last();
        let sooner = providers_without(fewer, installation);
        lemma_nothing_left_to_drop(fewer, consumers, installation);
        if providers.last().installation != installation {
            assert(sooner.push(providers.last()).drop_last() =~= sooner);
        }
    } else if consumers.len() > 0 {
        let fewer = consumers.drop_last();
        let sooner = consumers_without(fewer, installation);
        lemma_nothing_left_to_drop(providers, fewer, installation);
        if consumers.last().installation != installation {
            assert(sooner.push(consumers.last()).drop_last() =~= sooner);
        }
    }
}

/// A graph can be recovered: what a committed change was resolved from is what the
/// store then keeps, and is resolved from again when the rules in force are set
/// anew.
pub proof fn law_recovery_resolves_the_same_records(
    service: CompositionService,
    change: GraphChange,
    stored: GraphRecords,
    kept: GraphRecords,
    committed: Candidate,
    recovered: Candidate,
)
    requires
        !(change is Rules),
        service.comes_to(change, Ok(stored), Ok(committed)),
        graph::provider_models(kept.providers@) == change.providers_after(
            graph::provider_models(stored.providers@),
        ),
        graph::consumer_models(kept.consumers@) == change.consumers_after(
            graph::consumer_models(stored.consumers@),
        ),
        service.comes_to(GraphChange::Rules(service.rules()), Ok(kept), Ok(recovered)),
    ensures
        recovered.provider_models() == committed.provider_models(),
        recovered.consumer_models() == committed.consumer_models(),
{
}

/// Nothing that a component provides occurs twice.
pub proof fn law_provided_without_repeats(exports: Seq<Seq<char>>, read: Seq<Option<InterfaceId>>)
    requires
        read.len() == exports.len(),
    ensures
        provided_by(exports, read).no_duplicates(),
    decreases exports.len(),
{
    if exports.len() > 0 {
        law_provided_without_repeats(exports.drop_last(), read.drop_last());
    }
}

/// A component whose imports and exports are all the host's takes no part in the
/// graph.
pub proof fn law_host_surface_leaves_no_records(
    exports: Seq<Seq<char>>,
    read_exports: Seq<Option<InterfaceId>>,
    imports: Seq<Seq<char>>,
    read_imports: Seq<ImportReading>,
)
    requires
        read_exports.len() == exports.len(),
        read_imports.len() == imports.len(),
        forall|i: int| 0 <= i < exports.len() ==> is_host(#[trigger] exports[i]),
        forall|i: int| 0 <= i < imports.len() ==> is_host(#[trigger] imports[i]),
    ensures
        provided_by(exports, read_exports).len() == 0,
        required_by(imports, read_imports) == Ok::<Seq<RequirementModel>, Seq<char>>(Seq::empty()),
    decreases exports.len() + imports.len(),
{
    if exports.len() > 0 {
        let fewer = exports.drop_last();
        assert forall|i: int| 0 <= i < fewer.len() implies is_host(#[trigger] fewer[i]) by {
            assert(fewer[i] == exports[i]);
        }
        assert(is_host(exports[exports.len() - 1]));
        law_host_surface_leaves_no_records(fewer, read_exports.drop_last(), imports, read_imports);
    } else if imports.len() > 0 {
        let fewer = imports.drop_last();
        assert forall|i: int| 0 <= i < fewer.len() implies is_host(#[trigger] fewer[i]) by {
            assert(fewer[i] == imports[i]);
        }
        assert(is_host(imports[imports.len() - 1]));
        law_host_surface_leaves_no_records(exports, read_exports, fewer, read_imports.drop_last());
    }
}

/// Law: an import stands for the need that it reads as, and for one of any version
/// only where it does not read as it stands.
pub proof fn law_need_of_an_import(read: ImportReading)
    ensures
        match read.direct {
            Some(need) => read.need() == Some(need@),
            None => match read.any_version {
                Some(need) => read.need() == Some(need@),
                None => read.need() is None,
            },
        },
{
}

/// Law: the needs of a component are exactly those of its imports that the host does
/// not serve: each such need is there, nothing else is, and none stands twice. They
/// are told exactly where every such import is a need; otherwise the first import
/// that is none is told.
pub proof fn law_needs_are_those_of_the_imports(imports: Seq<Seq<char>>, read: Seq<ImportReading>)
    requires
        read.len() == imports.len(),
    ensures
        match required_by(imports, read) {
            Ok(required) => {
                &&& required.no_duplicates()
                &&& forall|i: int|
                    0 <= i < imports.len() && !is_host(#[trigger] imports[i]) ==> read[i].need() is Some
                        && required.contains(read[i].need()->0)
                &&& forall|j: int|
                    0 <= j < required.len() ==> exists|i: int|
                        0 <= i < imports.len() && !is_host(#[trigger] imports[i]) && read[i].need() == Some(
                            #[trigger] required[j],
                        )
            },
            Err(import) => exists|i: int|
                {
                    &&& 0 <= i < imports.len()
                    &&& #[trigger] imports[i] == import
                    &&& !is_host(import)
                    &&& read[i].need() is None
                    &&& forall|j: int|
                        0 <= j < i && !is_host(#[trigger] imports[j]) ==> read[j].need() is Some
                },
        },
    decreases imports.len(),
{
    if imports.len() > 0 {
        let fewer = imports.drop_last();
        let known = read.drop_last();
        let last = imports.len() - 1;
        law_needs_are_those_of_the_imports(fewer, known);
        match required_by(fewer, known) {
            Err(import) => {
                let i = choose|i: int|
                    {
                        &&& 0 <= i < fewer.len()
                        &&& #[trigger] fewer[i] == import
                        &&& !is_host(import)
                        &&& known[i].need() is None
                        &&& forall|j: int|
                            0 <= j < i && !is_host(#[trigger] fewer[j]) ==> known[j].need() is Some
                    };
                assert(imports[i] == import);
                assert forall|j: int| 0 <= j < i && !is_host(#[trigger] imports[j]) implies read[j].need() is Some by {
                    assert(fewer[j] == imports[j] && known[j] == read[j]);
                }
            },
            Ok(sooner) => {
                assert forall|i: int| 0 <= i < last && !is_host(#[trigger] imports[i]) implies read[i].need() is Some
                    && sooner.contains(read[i].need()->0) by {
                    assert(fewer[i] == imports[i] && known[i] == read[i]);
                }
                assert forall|j: int| 0 <= j < sooner.len() implies exists|i: int|
                    0 <= i < imports.len() && !is_host(#[trigger] imports[i]) && read[i].need() == Some(
                        #[trigger] sooner[j],
                    ) by {
                    let i = choose|i: int|
                        0 <= i < fewer.len() && !is_host(#[trigger] fewer[i]) && known[i].need() == Some(
                            sooner[j],
                        );
                    assert(imports[i] == fewer[i] && read[i] == known[i]);
                }
                match required_by(imports, read) {
                    Err(import) => {
                        assert(imports[last] == import);
                    },
                    Ok(required) => {
                        assert forall|i: int| 0 <= i < imports.len() && !is_host(#[trigger] imports[i]) implies read[i].need() is Some
                            && required.contains(read[i].need()->0) by {
                            if i < last {
                                let j = choose|j: int|
                                    0 <= j < sooner.len() && sooner[j] == read[i].need()->0;
                                assert(required[j] == read[i].need()->0);
                            } else if !sooner.contains(read[last].need()->0) {
                                assert(required[required.len() - 1] == read[last].need()->0);
                            }
                        }
                        assert forall|j: int| 0 <= j < required.len() implies exists|i: int|
                            0 <= i < imports.len() && !is_host(#[trigger] imports[i]) && read[i].need()
                                == Some(#[trigger] required[j]) by {
                            if j < sooner.len() {
                                assert(required[j] == sooner[j]);
                            } else {
                                assert(!is_host(imports[last]));
                            }
                        }
                        assert forall|a: int, b: int| 0 <= a < b < required.len() implies required[a] != required[b] by {
                            if b == sooner.len() {
                                assert(sooner.contains(sooner[a]));
                            }
                        }
                    },
                }
            },
        }
    }
}

/// Law: what a component provides is exactly what its exports name, but for the
/// host's: each such interface is there, nothing else is, and none stands twice.
pub proof fn law_provided_are_those_of_the_exports(exports: Seq<Seq<char>>, read: Seq<Option<InterfaceId>>)
    requires
        read.len() == exports.len(),
    ensures
        provided_by(exports, read).no_duplicates(),
        forall|i: int|
            0 <= i < exports.len() && !is_host(#[trigger] exports[i]) && read[i] is Some ==> provided_by(
                exports,
                read,
            ).contains(read[i]->0@),
        forall|j: int|
            0 <= j < provided_by(exports, read).len() ==> exists|i: int|
                0 <= i < exports.len() && !is_host(#[trigger] exports[i]) && read[i] is Some && read[i]->0@
                    == #[trigger] provided_by(exports, read)[j],
    decreases exports.len(),
{
    if exports.len() > 0 {
        let fewer = exports.drop_last();
        let known = read.drop_last();
        let last = exports.len() - 1;
        law_provided_are_those_of_the_exports(fewer, known);
        let sooner = provided_by(fewer, known);
        let provided = provided_by(exports, read);
        assert forall|i: int| 0 <= i < exports.len() && !is_host(#[trigger] exports[i]) && read[i] is Some implies provided.contains(
            read[i]->0@,
        ) by {
            if i < last {
                assert(fewer[i] == exports[i] && known[i] == read[i]);
                let j = choose|j: int| 0 <= j < sooner.len() && sooner[j] == read[i]->0@;
                assert(provided[j] == read[i]->0@);
            } else if !sooner.contains(read[last]->0@) {
                assert(provided[provided.len() - 1] == read[last]->0@);
            }
        }
        assert forall|j: int| 0 <= j < provided.len() implies exists|i: int|
            0 <= i < exports.len() && !is_host(#[trigger] exports[i]) && read[i] is Some && read[i]->0@
                == #[trigger] provided[j] by {
            if j < sooner.len() {
                assert(provided[j] == sooner[j]);
                let i = choose|i: int|
                    0 <= i < fewer.len() && !is_host(#[trigger] fewer[i]) && known[i] is Some && known[i]->0@
                        == sooner[j];
                assert(exports[i] == fewer[i] && read[i] == known[i]);
            } else {
                assert(!is_host(exports[last]));
            }
        }
        assert forall|a: int, b: int| 0 <= a < b < provided.len() implies provided[a] != provided[b] by {
            if b == sooner.len() {
                assert(sooner.contains(sooner[a]));
            }
        }
    }
}

/// Law: a component leaves a provider record exactly where it provides something, and
/// a consumer record exactly where it needs something, each under its installation
/// and with all of it.
pub proof fn law_records_hold_all_of_it(
    installation: InstallationId,
    provided: Seq<InterfaceModel>,
    required: Seq<RequirementModel>,
)
    ensures
        records_of(installation, provided, required).provider is Some <==> provided.len() > 0,
        records_of(installation, provided, required).consumer is Some <==> required.len() > 0,
        records_of(installation, provided, required).provider matches Some(record) ==> record.installation
            == installation && record.provided == provided,
        records_of(installation, provided, required).consumer matches Some(record) ==> record.installation
            == installation && record.required == required,
{
}

/// Law: the host's interfaces are those under `wasi:` and `operune:`, and no others.
pub proof fn law_host_interfaces(name: Seq<char>)
    ensures
        is_host(name) <==> {
            ||| name.len() >= 5 && name.take(5) == seq!['w', 'a', 's', 'i', ':']
            ||| name.len() >= 8 && name.take(8) == seq!['o', 'p', 'e', 'r', 'u', 'n', 'e', ':']
        },
{
    reveal_strlit("wasi:");
    reveal_strlit("operune:");
    assert("wasi:"@ =~= seq!['w', 'a', 's', 'i', ':']);
    assert("operune:"@ =~= seq!['o', 'p', 'e', 'r', 'u', 'n', 'e', ':']);
    if name.len() >= 5 {
        assert(name.subrange(0, 5) =~= name.take(5));
    }
    if name.len() >= 8 {
        assert(name.subrange(0, 8) =~= name.take(8));
    }
}

/// Law: the records of all installations but one are the others', in order: one
/// more record is left out where it is that installation's, and is the last
/// otherwise.
pub proof fn law_other_installations_keep_their_records(
    providers: Seq<ProviderModel>,
    provider: ProviderModel,
    consumers: Seq<ConsumerModel>,
    consumer: ConsumerModel,
    installation: InstallationId,
)
    ensures
        providers_without(Seq::empty(), installation).len() == 0,
        consumers_without(Seq::empty(), installation).len() == 0,
        providers_without(providers.push(provider), installation) == if provider.installation == installation {
            providers_without(providers, installation)
        } else {
            providers_without(providers, installation).push(provider)
        },
        consumers_without(consumers.push(consumer), installation) == if consumer.installation == installation {
            consumers_without(consumers, installation)
        } else {
            consumers_without(consumers, installation).push(consumer)
        },
{
    assert(providers.push(provider).drop_last() =~= providers);
    assert(consumers.push(consumer).drop_last() =~= consumers);
}

proof fn lemma_consumers_without(stored: Seq<ConsumerModel>, installation: InstallationId, record: ConsumerModel)
    ensures
        consumers_without(stored, installation).contains(record) <==> stored.contains(record)
            && record.installation != installation,
    decreases stored.len(),
{
    let left = consumers_without(stored, installation);
    if stored.len() > 0 {
        let init = stored.drop_last();
        lemma_consumers_without(init, installation, record);
        let before = consumers_without(init, installation);
        if stored.contains(record) {
            let i = choose|i: int| 0 <= i < stored.len() && stored[i] == record;
            if i < init.len() {
                assert(init[i] == record);
            }
        }
        if init.contains(record) {
            let i = choose|i: int| 0 <= i < init.len() && init[i] == record;
            assert(stored[i] == record);
        }
        assert(stored[stored.len() - 1] == stored.last());
        if left.contains(record) {
            let i = choose|i: int| 0 <= i < left.len() && left[i] == record;
            if i < before.len() {
                assert(before[i] == record);
            }
        }
        if before.contains(record) {
            let i = choose|i: int| 0 <= i < before.len() && before[i] == record;
            assert(left[i] == record);
        }
        if left == before.push(stored.last()) {
            assert(left[left.len() - 1] == stored.last());
        }
    }
}

/// Law: after an activation the installation has the records that it brought and
/// no others, after a removal it has none, and new rules touch no record; every
/// other installation keeps its own.
pub proof fn law_change_touches_its_installation_alone(
    change: GraphChange,
    providers: Seq<ProviderModel>,
    consumers: Seq<ConsumerModel>,
    provider: ProviderModel,
    consumer: ConsumerModel,
)
    ensures
        change matches GraphChange::Rules(_) ==> {
            &&& change.providers_after(providers) == providers
            &&& change.consumers_after(consumers) == consumers
        },
        change matches GraphChange::Remove(installation) ==> {
            &&& change.providers_after(providers).contains(provider) <==> providers.contains(provider)
                && provider.installation != installation
            &&& change.consumers_after(consumers).contains(consumer) <==> consumers.contains(consumer)
                && consumer.installation != installation
        },
        change matches GraphChange::Activate(installation, records) ==> {
            &&& change.providers_after(providers).contains(provider) <==> ((providers.contains(provider)
                && provider.installation != installation) || (records.provider matches Some(record) && record@
                == provider))
            &&& change.consumers_after(consumers).contains(consumer) <==> ((consumers.contains(consumer)
                && consumer.installation != installation) || (records.consumer matches Some(record) && record@
                == consumer))
        },
{
    match change {
        GraphChange::Activate(installation, records) => {
            law_upgrade_replaces(providers, installation, provider);
            lemma_consumers_without(consumers, installation, consumer);
            let p = providers_without(providers, installation);
            let c = consumers_without(consumers, installation);
            if records.provider is Some {
                lemma_pushed(p, records.provider->0@, provider);
            }
            if records.consumer is Some {
                lemma_pushed(c, records.consumer->0@, consumer);
            }
        },
        GraphChange::Remove(installation) => {
            law_upgrade_replaces(providers, installation, provider);
            lemma_consumers_without(consumers, installation, consumer);
        },
        GraphChange::Rules(_) => {},
    }
}

proof fn lemma_pushed<A>(s: Seq<A>, last: A, x: A)
    ensures
        s.push(last).contains(x) <==> s.contains(x) || x == last,
{
    if s.contains(x) {
        let i = choose|i: int| 0 <= i < s.len() && s[i] == x;
        assert(s.push(last)[i] == x);
    }
    assert(s.push(last)[s.len() as int] == last);
    if s.push(last).contains(x) {
        let i = choose|i: int| 0 <= i < s.push(last).len() && s.push(last)[i] == x;
        if i < s.len() {
            assert(s[i] == x);
        }
    }
}

/// Law: the log hears of an activation and of a removal under the installation,
/// and of new rules by how many bindings and exclusions they have.
pub proof fn law_change_is_told_as_what_it_is(change: GraphChange)
    ensures
        change matches GraphChange::Activate(installation, _) ==> change.event()
            == (AuditEvent::GraphRecordsCommitted { installation }),
        change matches GraphChange::Remove(installation) ==> change.event() == (AuditEvent::GraphRecordsRemoved {
            installation,
        }),
        change matches GraphChange::Rules(policy) ==> (change.event() matches AuditEvent::GraphPolicyUpdated {
            bindings,
            exclusions,
        } && bindings == policy.binding_count() as usize && exclusions == policy.exclusion_count() as usize),
{
}

/// Law: a change is resolved exactly where the store can be read and every binding
/// of the rules it is judged by has its provider among the records after the
/// change. New rules are judged by themselves, any other change by those in force.
pub proof fn law_change_is_resolved_where_every_binding_is_fulfilled(
    service: CompositionService,
    change: GraphChange,
    stored: Result<GraphRecords, GraphStoreError>,
    r: Result<Candidate, ApplicationError>,
    rules: graph::GraphPolicy,
)
    requires
        service.comes_to(change, stored, r),
        change matches GraphChange::Rules(policy) ==> rules == policy,
        !(change is Rules) ==> rules == service.rules(),
    ensures
        r is Ok <==> (stored matches Ok(records) && forall|k: graph::KeyModel| #[trigger]
            rules.bound().dom().contains(k) ==> graph::fulfilled(
                change.providers_after(graph::provider_models(records.providers@)),
                k,
                rules.bound()[k],
            )),
        stored matches Err(e) ==> r == Err::<Candidate, ApplicationError>(ApplicationError::GraphStore(e)),
        stored matches Ok(records) ==> r matches Err(e) ==> {
            &&& e matches ApplicationError::ProviderGraphPolicy(fault)
            &&& fault matches graph::GraphPolicyError::BindingUnfulfillable { interface, provider }
            &&& rules.bound().dom().contains(interface@)
            &&& rules.bound()[interface@] == provider
            &&& !graph::fulfilled(
                change.providers_after(graph::provider_models(records.providers@)),
                interface@,
                provider,
            )
        },
        stored matches Ok(records) ==> r matches Ok(candidate) ==> {
            &&& candidate.change() == change
            &&& candidate.provider_models() == graph::applied(
                rules.bound(),
                rules.excluded(),
                change.providers_after(graph::provider_models(records.providers@)),
            )
            &&& candidate.consumer_models() == change.consumers_after(
                graph::consumer_models(records.consumers@),
            )
        },
{
}

/// Law: exports and imports are taken in order: one more export is provided as the
/// last where it is an interface of the component's own that was not there yet, and
/// one more import is needed as the last likewise.
pub proof fn law_surface_is_read_in_order(
    exports: Seq<Seq<char>>,
    read: Seq<Option<InterfaceId>>,
    export: Seq<char>,
    read_export: Option<InterfaceId>,
    imports: Seq<Seq<char>>,
    readings: Seq<ImportReading>,
    import: Seq<char>,
    reading: ImportReading,
)
    requires
        read.len() == exports.len(),
        readings.len() == imports.len(),
    ensures
        provided_by(Seq::empty(), Seq::empty()).len() == 0,
        ({
            let sooner = provided_by(exports, read);
            provided_by(exports.push(export), read.push(read_export)) == if !is_host(export) && read_export is Some
                && !sooner.contains(read_export->0@) {
                sooner.push(read_export->0@)
            } else {
                sooner
            }
        }),
        required_by(imports, readings) matches Ok(sooner) ==> {
            let all = required_by(imports.push(import), readings.push(reading));
            &&& is_host(import) ==> all == Ok::<Seq<RequirementModel>, Seq<char>>(sooner)
            &&& !is_host(import) && reading.need() is None ==> all == Err::<Seq<RequirementModel>, Seq<char>>(
                import,
            )
            &&& !is_host(import) && reading.need() is Some && !sooner.contains(reading.need()->0) ==> all == Ok::<
                Seq<RequirementModel>,
                Seq<char>,
            >(sooner.push(reading.need()->0))
        },
{
    assert(exports.push(export).drop_last() =~= exports);
    assert(read.push(read_export).drop_last() =~= read);
    assert(imports.push(import).drop_last() =~= imports);
    assert(readings.push(reading).drop_last() =~= readings);
}

} // verus!
