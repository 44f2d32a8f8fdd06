//! What the host makes of a guest's replies, and when it calls a guest at all.
use vstd::prelude::*;

use crate::contract::{ContractFault, ContractValueError};
use crate::error::RuntimeExecutionError;
use crate::guest;
use crate::guest::{parse_component_descriptor_val, GuestComponentDescriptor, GuestDescriptorError};
use crate::model::{GrantSnapshot, ResourceBudget, RuntimeConfig};
use crate::val::{wrapped_val, Val, ValModel};
use crate::val;
use crate::values::Duration;
use crate::web_guest;
use crate::web_guest::{
    build_action_request_val, parse_action_result_val, parse_asset_bytes_val, parse_asset_list_val,
    parse_web_descriptor_val, AssetModel, GuestActionError, GuestActionRequest, GuestAssetMetadata,
    GuestWebDescriptor, WebDescriptorModel,
};
use crate::web_path;
use crate::web_path::{WebAssetEntry, WebAssetPath, WebManifestData, WebManifestFeatures};

verus! {

/// The error says that the guest's value breaks the contract so.
pub open spec fn breaks(error: RuntimeExecutionError, fault: ContractFault) -> bool {
    error matches RuntimeExecutionError::MalformedGuestData(c) && c@ == fault
}

pub open spec fn shape(field: Seq<char>, expected: Seq<char>) -> ContractFault {
    ContractFault::ShapeMismatch { field, expected }
}

fn shape_error(field: &'static str, expected: &'static str) -> (r: RuntimeExecutionError)
    ensures
        breaks(r, shape(field@, expected@)),
{
    RuntimeExecutionError::MalformedGuestData(ContractValueError::ShapeMismatch { field, expected })
}

/// What the error of a descriptor call says.
pub open spec fn descriptor_error_of(m: ValModel) -> Result<Seq<char>, ContractFault> {
    match m {
        ValModel::Failure(Some(inner)) => match *inner {
            ValModel::Enum(name) => Ok(name),
            _ => Err(shape("descriptor-error"@, "enum payload"@)),
        },
        _ => Err(shape("descriptor-error"@, "result Err payload"@)),
    }
}

fn parse_descriptor_error(value: &Val) -> (r: Result<GuestDescriptorError, RuntimeExecutionError>)
    ensures
        match (descriptor_error_of(value@), r) {
            (Ok(name), Ok(error)) => error.spec_name() == name,
            (Ok(name), Err(e)) => breaks(e, ContractFault::InvalidVariant(name)) && forall|c:
                GuestDescriptorError| #[trigger] c.spec_name() != name,
            (Err(fault), Err(e)) => breaks(e, fault),
            (Err(_), Ok(_)) => false,
        },
{
    match value {
        Val::Result(Err(Some(inner))) => {
            assert(value@ == ValModel::Failure(Some(Box::new(inner@))));
            match &**inner {
                Val::Enum(name) => match GuestDescriptorError::named(name.as_str()) {
                    Some(error) => Ok(error),
                    None => Err(
                        RuntimeExecutionError::MalformedGuestData(
                            ContractValueError::InvalidVariant(name.clone()),
                        ),
                    ),
                },
                _ => Err(shape_error("descriptor-error", "enum payload")),
            }
        },
        _ => Err(shape_error("descriptor-error", "result Err payload")),
    }
}

/// What the host learns from `get-descriptor`.
pub open spec fn descriptor_learned(
    m: ValModel,
    r: Result<GuestComponentDescriptor, RuntimeExecutionError>,
) -> bool {
    match m {
        ValModel::Success(_) => match (guest::component_descriptor_of(m), r) {
            (Ok(model), Ok(descriptor)) => descriptor@ == model,
            (Err(fault), Err(e)) => breaks(e, fault),
            _ => false,
        },
        ValModel::Failure(_) => match (descriptor_error_of(m), r) {
            (Ok(name), Err(e)) => {
                ||| e matches RuntimeExecutionError::GuestDescriptorError(c) && c.spec_name() == name
                ||| breaks(e, ContractFault::InvalidVariant(name)) && forall|c: GuestDescriptorError|
                    #[trigger] c.spec_name() != name
            },
            (Err(fault), Err(e)) => breaks(e, fault),
            _ => false,
        },
        _ => r matches Err(e) && breaks(e, shape("get-descriptor"@, "result"@)),
    }
}

/// The call that reads a component's descriptor, in a store of its own: the names
/// that the interface may have, the function, how long it may take, and what the
/// guest may use meanwhile.
#[derive(Debug, PartialEq, Eq)]
pub struct DescriptorCall {
    pub interfaces: Vec<&'static str>,
    pub func: &'static str,
    pub deadline: Duration,
    pub budget: ResourceBudget,
}

/// The call that reads a component's descriptor. It has a deadline and a budget of
/// its own.
pub fn descriptor_call(config: &RuntimeConfig) -> (r: DescriptorCall)
    ensures
        r.interfaces@ == seq!["descriptor", "operune:component/descriptor@0.1.0"],
        r.func == "get-descriptor",
        r.deadline == config.descriptor_deadline,
        r.budget == config.descriptor_budget,
{
    let interfaces: Vec<&'static str> = vec!["descriptor", "operune:component/descriptor@0.1.0"];
    assert(interfaces@ =~= seq!["descriptor", "operune:component/descriptor@0.1.0"]);
    DescriptorCall {
        interfaces,
        func: "get-descriptor",
        deadline: config.descriptor_deadline,
        budget: config.descriptor_budget,
    }
}

/// Reads what `get-descriptor` returned: the descriptor, or the guest's error.
pub fn read_descriptor(reply: &Val) -> (r: Result<GuestComponentDescriptor, RuntimeExecutionError>)
    ensures
        descriptor_learned(reply@, r),
{
    match reply {
        Val::Result(Ok(_)) => match parse_component_descriptor_val(reply) {
            Ok(descriptor) => Ok(descriptor),
            Err(e) => Err(RuntimeExecutionError::MalformedGuestData(e)),
        },
        Val::Result(Err(_)) => match parse_descriptor_error(reply) {
            Ok(error) => Err(RuntimeExecutionError::GuestDescriptorError(error)),
            Err(e) => Err(e),
        },
        _ => Err(shape_error("get-descriptor", "result")),
    }
}

/// A component is prepared only where its grants do not reach into WASI.
pub fn check_wasi(grants: &GrantSnapshot) -> (r: Result<(), RuntimeExecutionError>)
    ensures
        r == if grants.wasi@.len() == 0 {
            Ok::<(), RuntimeExecutionError>(())
        } else {
            Err(RuntimeExecutionError::WasiIntegrationUnavailable)
        },
{
    if grants.wasi.len() == 0 {
        Ok(())
    } else {
        Err(RuntimeExecutionError::WasiIntegrationUnavailable)
    }
}

/// Which of several names of an interface a component exports: the first.
pub fn find_interface(exported: &Vec<bool>, what: &'static str) -> (r: Result<usize, RuntimeExecutionError>)
    ensures
        match r {
            Ok(i) => i < exported@.len() && exported@[i as int] && forall|j: int|
                0 <= j < i ==> !#[trigger] exported@[j],
            Err(e) => e == RuntimeExecutionError::MissingOperuneExport(what) && forall|j: int|
                0 <= j < exported@.len() ==> !#[trigger] exported@[j],
        },
{
    let mut i: usize = 0;
    while i < exported.len()
        invariant
            i <= exported@.len(),
            forall|j: int| 0 <= j < i ==> !#[trigger] exported@[j],
        decreases exported@.len() - i,
    {
        if exported[i] {
            return Ok(i);
        }
        i = i + 1;
    }
    Err(RuntimeExecutionError::MissingOperuneExport(what))
}

/// An asset of a guest is the asset of the manifest.
pub open spec fn entry_matches(entry: WebAssetEntry, asset: AssetModel) -> bool {
    &&& entry.path@ == asset.path
    &&& entry.size == asset.size
    &&& match (entry.content_type, asset.content_type) {
        (Some(a), Some(b)) => a@ == b,
        (None, None) => true,
        _ => false,
    }
}

/// Every path is one.
pub open spec fn paths_are_good(assets: Seq<AssetModel>) -> bool {
    forall|j: int| 0 <= j < assets.len() ==> web_path::path_fault((#[trigger] assets[j]).path) is None
}

/// The manifest is what the guest told of its web front.
pub open spec fn manifest_matches(
    manifest: WebManifestData,
    front: WebDescriptorModel,
    assets: Seq<AssetModel>,
) -> bool {
    &&& manifest.entry@ == front.entry
    &&& manifest.features.static_assets == front.features.static_assets
    &&& manifest.features.backend_actions == front.features.backend_actions
    &&& manifest.assets@.len() == assets.len()
    &&& forall|i: int| 0 <= i < assets.len() ==> entry_matches(#[trigger] manifest.assets@[i], assets[i])
}

/// What a web front comes to.
pub open spec fn manifest_comes_to(
    front: WebDescriptorModel,
    assets: Seq<AssetModel>,
    r: Result<WebManifestData, RuntimeExecutionError>,
) -> bool {
    if web_path::path_fault(front.entry) is Some {
        r matches Err(e) && breaks(e, shape("web-descriptor.entry"@, "valid asset path"@))
    } else if paths_are_good(assets) {
        r matches Ok(manifest) && manifest_matches(manifest, front, assets)
    } else {
        r matches Err(e) && breaks(e, shape("asset-metadata.path"@, "valid asset path"@))
    }
}

/// Makes a manifest of what a guest told of its web front. Every path must be
/// one.
pub fn to_web_manifest(front: GuestWebDescriptor, assets: Vec<GuestAssetMetadata>) -> (r: Result<
    WebManifestData,
    RuntimeExecutionError,
>)
    ensures
        manifest_comes_to(front@, web_guest::asset_models(assets@), r),
{
    let entry: WebAssetPath = match WebAssetPath::new(front.entry.as_str()) {
        Ok(entry) => entry,
        Err(_) => return Err(shape_error("web-descriptor.entry", "valid asset path")),
    };
    let ghost models = web_guest::asset_models(assets@);
    let mut entries: Vec<WebAssetEntry> = Vec::new();
    let mut i: usize = 0;
    while i < assets.len()
        invariant
            models == web_guest::asset_models(assets@),
            web_path::path_fault(front@.entry) is None,
            i <= assets@.len(),
            entries@.len() == i,
            forall|j: int| 0 <= j < i ==> entry_matches(#[trigger] entries@[j], models[j]),
            forall|j: int| 0 <= j < i ==> web_path::path_fault((#[trigger] models[j]).path) is None,
        decreases assets@.len() - i,
    {
        assert(models[i as int] == assets@[i as int]@);
        let path: WebAssetPath = match WebAssetPath::new(assets[i].path.as_str()) {
            Ok(path) => path,
            Err(_) => {
                assert(web_path::path_fault(models[i as int].path) is Some);
                return Err(shape_error("asset-metadata.path", "valid asset path"));
            },
        };
        let content_type: Option<String> = match &assets[i].content_type {
            Some(text) => Some(text.clone()),
            None => None,
        };
        entries.push(WebAssetEntry { path, size: assets[i].size, content_type });
        i = i + 1;
    }
    Ok(
        WebManifestData {
            entry,
            features: WebManifestFeatures {
                static_assets: front.features.static_assets,
                backend_actions: front.features.backend_actions,
            },
            assets: entries,
        },
    )
}

/// What the host learns from the reply to a call that the guest may refuse.
pub open spec fn web_front_learned(m: ValModel) -> Result<WebDescriptorModel, Result<ContractFault, &'static str>> {
    match m {
        ValModel::Success(_) => match web_guest::web_descriptor_of(m) {
            Ok(front) => Ok(front),
            Err(fault) => Err(Ok(fault)),
        },
        ValModel::Failure(_) => Err(Err("get-web-descriptor returned an error")),
        _ => Err(Ok(shape("get-web-descriptor"@, "result"@))),
    }
}

pub open spec fn assets_learned(m: Option<ValModel>) -> Result<Seq<AssetModel>, Result<ContractFault, &'static str>> {
    match m {
        None => Ok(Seq::empty()),
        Some(m) => match m {
            ValModel::Success(_) => match web_guest::asset_list_of(m) {
                Ok(assets) => Ok(assets),
                Err(fault) => Err(Ok(fault)),
            },
            ValModel::Failure(_) => Err(Err("list-assets returned an error")),
            _ => Err(Ok(shape("list-assets"@, "result"@))),
        },
    }
}

/// The error tells why nothing was learned.
pub open spec fn tells(error: RuntimeExecutionError, why: Result<ContractFault, &'static str>) -> bool {
    match why {
        Ok(fault) => breaks(error, fault),
        Err(text) => error == RuntimeExecutionError::GuestWebError(text),
    }
}

fn web_front(reply: &Val) -> (r: Result<GuestWebDescriptor, RuntimeExecutionError>)
    ensures
        match (web_front_learned(reply@), r) {
            (Ok(front), Ok(got)) => got@ == front,
            (Err(why), Err(e)) => tells(e, why),
            _ => false,
        },
{
    match reply {
        Val::Result(Ok(_)) => match parse_web_descriptor_val(reply) {
            Ok(front) => Ok(front),
            Err(e) => Err(RuntimeExecutionError::MalformedGuestData(e)),
        },
        Val::Result(Err(_)) => Err(
            RuntimeExecutionError::GuestWebError("get-web-descriptor returned an error"),
        ),
        _ => Err(shape_error("get-web-descriptor", "result")),
    }
}

fn asset_list(reply: &Val) -> (r: Result<Vec<GuestAssetMetadata>, RuntimeExecutionError>)
    ensures
        match (assets_learned(Some(reply@)), r) {
            (Ok(assets), Ok(got)) => web_guest::asset_models(got@) == assets,
            (Err(why), Err(e)) => tells(e, why),
            _ => false,
        },
{
    match reply {
        Val::Result(Ok(_)) => match parse_asset_list_val(reply) {
            Ok(assets) => Ok(assets),
            Err(e) => Err(RuntimeExecutionError::MalformedGuestData(e)),
        },
        Val::Result(Err(_)) => Err(RuntimeExecutionError::GuestWebError("list-assets returned an error")),
        _ => Err(shape_error("list-assets", "result")),
    }
}

/// The model of a reply, where there is one.
pub open spec fn reply_model(reply: Option<&Val>) -> Option<ValModel> {
    match reply {
        Some(reply) => Some(reply@),
        None => None,
    }
}

/// What the replies to `get-web-descriptor` and `list-assets` come to.
pub open spec fn front_comes_to(
    front: Option<ValModel>,
    list: Option<ValModel>,
    r: Result<Option<WebManifestData>, RuntimeExecutionError>,
) -> bool {
    match front {
        None => r == Ok::<Option<WebManifestData>, RuntimeExecutionError>(None),
        Some(reply) => match web_front_learned(reply) {
            Err(why) => r matches Err(e) && tells(e, why),
            Ok(model) => match assets_learned(list) {
                Err(why) => r matches Err(e) && tells(e, why),
                Ok(assets) => match r {
                    Ok(None) => false,
                    Ok(Some(manifest)) => manifest_comes_to(model, assets, Ok(manifest)),
                    Err(e) => manifest_comes_to(model, assets, Err(e)),
                },
            },
        },
    }
}

/// Reads a component's web front from what `get-web-descriptor` and `list-assets`
/// returned. A component without the first has no front, and one without the
/// second no assets.
pub fn read_web_manifest(front: Option<&Val>, list: Option<&Val>) -> (r: Result<
    Option<WebManifestData>,
    RuntimeExecutionError,
>)
    ensures
        front_comes_to(reply_model(front), reply_model(list), r),
{
    let reply: &Val = match front {
        Some(reply) => reply,
        None => return Ok(None),
    };
    let front: GuestWebDescriptor = match web_front(reply) {
        Ok(front) => front,
        Err(e) => return Err(e),
    };
    let assets: Vec<GuestAssetMetadata> = match list {
        None => {
            let none: Vec<GuestAssetMetadata> = Vec::new();
            assert(web_guest::asset_models(none@) =~= Seq::<AssetModel>::empty());
            none
        },
        Some(reply) => match asset_list(reply) {
            Ok(assets) => assets,
            Err(e) => return Err(e),
        },
    };
    match to_web_manifest(front, assets) {
        Ok(manifest) => Ok(Some(manifest)),
        Err(e) => Err(e),
    }
}

/// A function of a component's web front.
#[derive(Debug, Clone, Copy, PartialEq, Eq, Structural)]
pub enum WebFunc {
    GetWebDescriptor,
    ListAssets,
    ReadAsset,
    HandleAction,
}

impl WebFunc {
    pub open spec fn spec_interface(self) -> &'static str {
        match self {
            WebFunc::GetWebDescriptor => "descriptor",
            WebFunc::ListAssets => "assets",
            WebFunc::ReadAsset => "assets",
            WebFunc::HandleAction => "actions",
        }
    }

    pub open spec fn spec_name(self) -> &'static str {
        match self {
            WebFunc::GetWebDescriptor => "get-web-descriptor",
            WebFunc::ListAssets => "list-assets",
            WebFunc::ReadAsset => "read-asset",
            WebFunc::HandleAction => "handle-action",
        }
    }

    /// The interface that holds the function.
    pub fn interface(self) -> (r: &'static str)
        ensures
            r == self.spec_interface(),
    {
        match self {
            WebFunc::GetWebDescriptor => "descriptor",
            WebFunc::ListAssets => "assets",
            WebFunc::ReadAsset => "assets",
            WebFunc::HandleAction => "actions",
        }
    }

    /// The function's name in its interface.
    pub fn name(self) -> (r: &'static str)
        ensures
            r == self.spec_name(),
    {
        match self {
            WebFunc::GetWebDescriptor => "get-web-descriptor",
            WebFunc::ListAssets => "list-assets",
            WebFunc::ReadAsset => "read-asset",
            WebFunc::HandleAction => "handle-action",
        }
    }
}

/// A call for the host to make: the guest's function, its argument, where it takes
/// one, and how long it may take.
#[derive(Debug, PartialEq, Eq)]
pub struct WebCall {
    pub func: WebFunc,
    pub argument: Option<Val>,
    pub deadline: Duration,
}

/// What the host does next to learn of a component's web front.
#[derive(Debug, PartialEq, Eq)]
pub enum ManifestStep {
    /// Make the call, and go on with what it returned.
    Call(WebCall),
    /// This is what the front comes to.
    Done(Result<Option<WebManifestData>, RuntimeExecutionError>),
}

/// The step is a call of `func`, without an argument, under the deadline for
/// descriptors.
pub open spec fn asks_for(step: ManifestStep, func: WebFunc, config: RuntimeConfig) -> bool {
    step == ManifestStep::Call(
        WebCall { func, argument: None, deadline: config.descriptor_deadline },
    )
}

/// What the host does next to learn of a component's web front, from what the
/// instance takes and what `get-web-descriptor` and `list-assets` have returned so
/// far. Assets are listed only after a descriptor that reads well, and only where
/// the instance takes that call.
pub fn manifest_step(
    config: &RuntimeConfig,
    bindings: &SlotBindings,
    front: Option<&Val>,
    list: Option<&Val>,
) -> (r: ManifestStep)
    ensures
        match front {
            None => if bindings.web_descriptor {
                asks_for(r, WebFunc::GetWebDescriptor, *config)
            } else {
                r == ManifestStep::Done(Ok(None))
            },
            Some(reply) => if web_front_learned(reply@) is Ok && bindings.assets && list is None {
                asks_for(r, WebFunc::ListAssets, *config)
            } else {
                r matches ManifestStep::Done(done) && front_comes_to(
                    Some(reply@),
                    reply_model(list),
                    done,
                )
            },
        },
{
    let reply: &Val = match front {
        Some(reply) => reply,
        None => {
            return if bindings.web_descriptor {
                ManifestStep::Call(
                    WebCall {
                        func: WebFunc::GetWebDescriptor,
                        argument: None,
                        deadline: config.descriptor_deadline,
                    },
                )
            } else {
                ManifestStep::Done(Ok(None))
            };
        },
    };
    if bindings.assets && list.is_none() {
        return match web_front(reply) {
            Ok(_) => ManifestStep::Call(
                WebCall {
                    func: WebFunc::ListAssets,
                    argument: None,
                    deadline: config.descriptor_deadline,
                },
            ),
            Err(e) => ManifestStep::Done(Err(e)),
        };
    }
    ManifestStep::Done(read_web_manifest(front, list))
}

/// Law: where a front does not read well its assets do not matter: the caller hears
/// what is wrong with the front.
pub proof fn law_bad_front_outweighs_its_assets(reply: ValModel, list: Option<ValModel>, r: Result<
    Option<WebManifestData>,
    RuntimeExecutionError,
>)
    requires
        web_front_learned(reply) is Err,
        front_comes_to(Some(reply), list, r),
    ensures
        r is Err,
        front_comes_to(Some(reply), None, r),
{
}

/// The call that reads an asset. An instance without the interface, or without the
/// function, has no such call, and where calls have no deadline none is made.
pub fn asset_call(bindings: &SlotBindings, path: &WebAssetPath, budget: &ResourceBudget) -> (r: Result<
    WebCall,
    RuntimeExecutionError,
>)
    ensures
        if !bindings.assets {
            r == Err::<WebCall, RuntimeExecutionError>(RuntimeExecutionError::MissingOperuneExport("assets"))
        } else if !bindings.read_asset {
            r == Err::<WebCall, RuntimeExecutionError>(
                RuntimeExecutionError::MissingOperuneExport("read-asset"),
            )
        } else {
            match budget.call_deadline {
                Some(deadline) => {
                    &&& r matches Ok(call)
                    &&& call.func == WebFunc::ReadAsset
                    &&& call.argument matches Some(argument)
                    &&& argument@ == val::wrapped_model(path@)
                    &&& call.deadline == deadline
                },
                None => r == Err::<WebCall, RuntimeExecutionError>(
                    RuntimeExecutionError::Internal("call deadline is required for asset reads"),
                ),
            }
        },
{
    if !bindings.assets {
        return Err(RuntimeExecutionError::MissingOperuneExport("assets"));
    }
    if !bindings.read_asset {
        return Err(RuntimeExecutionError::MissingOperuneExport("read-asset"));
    }
    match budget.call_deadline {
        Some(deadline) => Ok(
            WebCall {
                func: WebFunc::ReadAsset,
                argument: Some(wrapped_val(&path.as_str().to_owned())),
                deadline,
            },
        ),
        None => Err(RuntimeExecutionError::Internal("call deadline is required for asset reads")),
    }
}

/// Reads what `read-asset` returned: content within the limit for assets.
pub fn read_asset(reply: &Val, config: &RuntimeConfig) -> (r: Result<Vec<u8>, RuntimeExecutionError>)
    ensures
        match reply@ {
            ValModel::Success(_) => match web_guest::asset_bytes_of(reply@) {
                Err(fault) => r matches Err(e) && breaks(e, fault),
                Ok(bytes) => if bytes.len() > config.max_asset_bytes.bytes {
                    r == Err::<Vec<u8>, RuntimeExecutionError>(RuntimeExecutionError::ResponseTooLarge)
                } else {
                    r matches Ok(got) && got@ == bytes
                },
            },
            ValModel::Failure(_) => r == Err::<Vec<u8>, RuntimeExecutionError>(
                RuntimeExecutionError::GuestWebError("read-asset returned an error"),
            ),
            _ => r matches Err(e) && breaks(e, shape("read-asset"@, "result"@)),
        },
{
    let bytes: Vec<u8> = match reply {
        Val::Result(Ok(_)) => match parse_asset_bytes_val(reply) {
            Ok(bytes) => bytes,
            Err(e) => return Err(RuntimeExecutionError::MalformedGuestData(e)),
        },
        Val::Result(Err(_)) => {
            return Err(RuntimeExecutionError::GuestWebError("read-asset returned an error"));
        },
        _ => return Err(shape_error("read-asset", "result")),
    };
    if bytes.len() as u64 > config.max_asset_bytes.bytes {
        return Err(RuntimeExecutionError::ResponseTooLarge);
    }
    Ok(bytes)
}

/// The call that takes an action. An instance without the interface has no such
/// call, and where calls have no deadline none is made.
pub fn action_call(bindings: &SlotBindings, request: &GuestActionRequest, budget: &ResourceBudget) -> (r:
    Result<WebCall, RuntimeExecutionError>)
    ensures
        if !bindings.actions {
            r == Err::<WebCall, RuntimeExecutionError>(RuntimeExecutionError::MissingOperuneExport("actions"))
        } else {
            match budget.call_deadline {
                Some(deadline) => {
                    &&& r matches Ok(call)
                    &&& call.func == WebFunc::HandleAction
                    &&& call.argument matches Some(argument)
                    &&& argument@ == request.wire()
                    &&& call.deadline == deadline
                },
                None => r == Err::<WebCall, RuntimeExecutionError>(
                    RuntimeExecutionError::Internal("call deadline is required for actions"),
                ),
            }
        },
{
    if !bindings.actions {
        return Err(RuntimeExecutionError::MissingOperuneExport("actions"));
    }
    match budget.call_deadline {
        Some(deadline) => Ok(
            WebCall {
                func: WebFunc::HandleAction,
                argument: Some(build_action_request_val(request)),
                deadline,
            },
        ),
        None => Err(RuntimeExecutionError::Internal("call deadline is required for actions")),
    }
}

pub open spec fn action_failure(error: GuestActionError) -> &'static str {
    match error {
        GuestActionError::NotFound => "action not found",
        GuestActionError::InvalidPayload => "invalid action payload",
        GuestActionError::Internal => "guest action internal error",
    }
}

/// Reads what `handle-action` returned: a response within the limit for responses.
pub fn invoke_action(reply: &Val, config: &RuntimeConfig) -> (r: Result<Vec<u8>, RuntimeExecutionError>)
    ensures
        if reply@ is Success || reply@ is Failure {
            match web_guest::action_result_of(reply@) {
                Err(error) => r == Err::<Vec<u8>, RuntimeExecutionError>(
                    RuntimeExecutionError::GuestWebError(action_failure(error)),
                ),
                Ok(bytes) => if bytes.len() > config.max_action_response_bytes.bytes {
                    r == Err::<Vec<u8>, RuntimeExecutionError>(RuntimeExecutionError::ResponseTooLarge)
                } else {
                    r matches Ok(got) && got@ == bytes
                },
            }
        } else {
            r matches Err(e) && breaks(e, shape("handle-action"@, "result"@))
        },
{
    let bytes: Vec<u8> = match reply {
        Val::Result(_) => match parse_action_result_val(reply) {
            Ok(bytes) => bytes,
            Err(GuestActionError::NotFound) => {
                return Err(RuntimeExecutionError::GuestWebError("action not found"));
            },
            Err(GuestActionError::InvalidPayload) => {
                return Err(RuntimeExecutionError::GuestWebError("invalid action payload"));
            },
            Err(GuestActionError::Internal) => {
                return Err(RuntimeExecutionError::GuestWebError("guest action internal error"));
            },
        },
        _ => return Err(shape_error("handle-action", "result")),
    };
    if bytes.len() as u64 > config.max_action_response_bytes.bytes {
        return Err(RuntimeExecutionError::ResponseTooLarge);
    }
    Ok(bytes)
}

/// Which calls an instance takes: `get-web-descriptor`, `list-assets`,
/// `read-asset` and `handle-action`.
#[derive(Debug, Clone, Copy, PartialEq, Eq, Structural)]
pub struct SlotBindings {
    pub web_descriptor: bool,
    pub assets: bool,
    pub read_asset: bool,
    pub actions: bool,
}

/// Whether a call of an optional interface is there: it need not be where the
/// interface is not, and must be where the interface is.
pub fn optional_interface_func(interface: bool, func: bool, name: &'static str) -> (r: Result<
    bool,
    RuntimeExecutionError,
>)
    ensures
        r == if !interface {
            Ok::<bool, RuntimeExecutionError>(false)
        } else if func {
            Ok(true)
        } else {
            Err(RuntimeExecutionError::MissingOperuneExport(name))
        },
{
    if !interface {
        Ok(false)
    } else if func {
        Ok(true)
    } else {
        Err(RuntimeExecutionError::MissingOperuneExport(name))
    }
}

/// What an instance exports: an interface, and a call of it.
#[derive(Debug, Clone, Copy, PartialEq, Eq, Structural)]
pub struct ExportedCall {
    pub interface: bool,
    pub func: bool,
}

/// The first function that is missing from its interface, of those that an
/// interface must have.
pub open spec fn missing_call(front: ExportedCall, list: ExportedCall, actions: ExportedCall) -> Option<WebFunc> {
    if front.interface && !front.func {
        Some(WebFunc::GetWebDescriptor)
    } else if list.interface && !list.func {
        Some(WebFunc::ListAssets)
    } else if actions.interface && !actions.func {
        Some(WebFunc::HandleAction)
    } else {
        None
    }
}

/// Binds the calls of an instance. Assets are listed by one function of their
/// interface and read by another. An instance that lacks the second is taken all
/// the same; only its assets cannot be read.
pub fn bind_slot(
    front: ExportedCall,
    list: ExportedCall,
    read: ExportedCall,
    actions: ExportedCall,
) -> (r: Result<SlotBindings, RuntimeExecutionError>)
    ensures
        r == match missing_call(front, list, actions) {
            Some(func) => Err::<SlotBindings, RuntimeExecutionError>(
                RuntimeExecutionError::MissingOperuneExport(func.spec_name()),
            ),
            None => Ok(
                SlotBindings {
                    web_descriptor: front.interface,
                    assets: list.interface,
                    read_asset: read.interface && read.func,
                    actions: actions.interface,
                },
            ),
        },
{
    let web_descriptor: bool = match optional_interface_func(
        front.interface,
        front.func,
        WebFunc::GetWebDescriptor.name(),
    ) {
        Ok(bound) => bound,
        Err(e) => return Err(e),
    };
    let assets: bool = match optional_interface_func(
        list.interface,
        list.func,
        WebFunc::ListAssets.name(),
    ) {
        Ok(bound) => bound,
        Err(e) => return Err(e),
    };
    let read_asset: bool = read.interface && read.func;
    let actions: bool = match optional_interface_func(
        actions.interface,
        actions.func,
        WebFunc::HandleAction.name(),
    ) {
        Ok(bound) => bound,
        Err(e) => return Err(e),
    };
    Ok(SlotBindings { web_descriptor, assets, read_asset, actions })
}

/// What an instance of a candidate is made with: how long that may take, and what
/// it may use.
#[derive(Debug, Clone, Copy, PartialEq, Eq)]
pub struct InstanceTerms {
    pub deadline: Duration,
    pub budget: ResourceBudget,
}

/// What an instance of a candidate is made with.
pub fn instance_terms(config: &RuntimeConfig, grants: &GrantSnapshot) -> (r: InstanceTerms)
    ensures
        r.deadline == config.readiness_deadline,
        r.budget == grants.budget,
{
    InstanceTerms { deadline: config.readiness_deadline, budget: grants.budget }
}

/// The instances of a component, all of them or none: the first that could not be
/// made fails the whole.
pub open spec fn all_slots(slots: Seq<Result<SlotBindings, RuntimeExecutionError>>) -> Result<
    Seq<SlotBindings>,
    RuntimeExecutionError,
>
    decreases slots.len(),
{
    if slots.len() == 0 {
        Ok(Seq::empty())
    } else {
        match all_slots(slots.drop_last()) {
            Err(e) => Err(e),
            Ok(sooner) => match slots.last() {
                Ok(slot) => Ok(sooner.push(slot)),
                Err(e) => Err(e),
            },
        }
    }
}

/// Takes the instances of a component into service, in the order of their slots.
/// Where one could not be made, none is.
pub fn instantiate(slots: Vec<Result<SlotBindings, RuntimeExecutionError>>) -> (r: Result<
    Vec<SlotBindings>,
    RuntimeExecutionError,
>)
    ensures
        match r {
            Ok(bound) => all_slots(slots@) == Ok::<Seq<SlotBindings>, RuntimeExecutionError>(bound@),
            Err(e) => all_slots(slots@) == Err::<Seq<SlotBindings>, RuntimeExecutionError>(e),
        },
{
    let ghost all = slots@;
    let mut rest: Vec<Result<SlotBindings, RuntimeExecutionError>> = slots;
    let mut bound: Vec<SlotBindings> = Vec::new();
    let mut done: usize = 0;
    let n: usize = rest.len();
    assert(all.take(0) =~= Seq::<Result<SlotBindings, RuntimeExecutionError>>::empty());
    while done < n
        invariant
            n == all.len(),
            done <= n,
            all == slots@,
            rest@ == all.skip(done as int),
            all_slots(all.take(done as int)) == Ok::<Seq<SlotBindings>, RuntimeExecutionError>(bound@),
        decreases n - done,
    {
        proof {
            assert(all.take(done + 1).drop_last() =~= all.take(done as int));
            assert(all.take(done + 1).last() == all[done as int]);
        }
        let next: Result<SlotBindings, RuntimeExecutionError> = rest.remove(0);
        assert(next == all[done as int]);
        match next {
            Ok(slot) => {
                bound.push(slot);
            },
            Err(e) => {
                proof {
                    lemma_failed_slot(all, done as int);
                }
                return Err(e);
            },
        }
        done = done + 1;
        assert(rest@ =~= all.skip(done as int));
    }
    assert(all.take(n as int) =~= all);
    Ok(bound)
}

proof fn lemma_failed_slot(slots: Seq<Result<SlotBindings, RuntimeExecutionError>>, i: int)
    requires
        0 <= i < slots.len(),
        all_slots(slots.take(i)) is Ok,
        slots[i] is Err,
    ensures
        all_slots(slots) == Err::<Seq<SlotBindings>, RuntimeExecutionError>(slots[i]->Err_0),
    decreases slots.len(),
{
    if i == slots.len() - 1 {
        assert(slots.drop_last() =~= slots.take(i));
    } else {
        let fewer = slots.drop_last();
        assert(fewer.take(i) =~= slots.take(i));
        lemma_failed_slot(fewer, i);
    }
}

/// The calls of the instance in a slot.
pub fn slot_bindings(bound: &Vec<SlotBindings>, slot: usize) -> (r: Result<
    SlotBindings,
    RuntimeExecutionError,
>)
    ensures
        r == if slot < bound@.len() {
            Ok::<SlotBindings, RuntimeExecutionError>(bound@[slot as int])
        } else {
            Err(RuntimeExecutionError::Internal("invalid instance slot"))
        },
{
    if slot < bound.len() {
        Ok(bound[slot])
    } else {
        Err(RuntimeExecutionError::Internal("invalid instance slot"))
    }
}

/// Why no instance could be taken for a call.
#[derive(Debug, Clone, Copy, PartialEq, Eq, Structural)]
pub enum DispatchError {
    Busy,
    QueueFull,
    Closed,
    Corrupted,
}

/// What a caller is told where no instance could be taken.
pub fn map_dispatch_error(error: DispatchError) -> (r: RuntimeExecutionError)
    ensures
        r == match error {
            DispatchError::Busy => RuntimeExecutionError::Busy,
            DispatchError::QueueFull => RuntimeExecutionError::Busy,
            DispatchError::Closed => RuntimeExecutionError::Busy,
            DispatchError::Corrupted => RuntimeExecutionError::Internal("instance set dispatch failure"),
        },
{
    match error {
        DispatchError::Busy => RuntimeExecutionError::Busy,
        DispatchError::QueueFull => RuntimeExecutionError::Busy,
        DispatchError::Closed => RuntimeExecutionError::Busy,
        DispatchError::Corrupted => RuntimeExecutionError::Internal("instance set dispatch failure"),
    }
}

/// How many calls are running: each is counted when it enters and no more once it
/// has left.
#[derive(Debug, PartialEq, Eq)]
pub struct InFlight {
    running: usize,
}

impl InFlight {
    /// The calls that are running.
    pub closed spec fn view(&self) -> int {
        self.running as int
    }

    /// No call is running.
    pub fn new() -> (r: InFlight)
        ensures
            r@ == 0,
    {
        InFlight { running: 0 }
    }

    /// A call begins.
    pub fn enter(&mut self)
        requires
            old(self)@ < usize::MAX,
        ensures
            final(self)@ == after_mark(old(self)@, CallMark::Enter),
    {
        self.running = self.running + 1;
    }

    /// A call has returned, whatever it came to.
    pub fn leave(&mut self)
        requires
            old(self)@ > 0,
        ensures
            final(self)@ == after_mark(old(self)@, CallMark::Leave),
    {
        self.running = self.running - 1;
    }

    pub fn count(&self) -> (r: usize)
        ensures
            r == self@,
    {
        self.running
    }
}

/// What the count of running calls hears of.
#[derive(Debug, Clone, Copy, PartialEq, Eq, Structural)]
pub enum CallMark {
    Enter,
    Leave,
}

/// The count after one mark.
pub open spec fn after_mark(count: int, mark: CallMark) -> int {
    match mark {
        CallMark::Enter => count + 1,
        CallMark::Leave => count - 1,
    }
}

/// The count after a row of marks, where no call was running before.
pub open spec fn count_after(marks: Seq<CallMark>) -> int
    decreases marks.len(),
{
    if marks.len() == 0 {
        0
    } else {
        after_mark(count_after(marks.drop_last()), marks.last())
    }
}

/// How often a mark occurs.
pub open spec fn occurrences(marks: Seq<CallMark>, mark: CallMark) -> nat {
    marks.filter(|m: CallMark| m == mark).len()
}

proof fn lemma_count_after(marks: Seq<CallMark>)
    ensures
        count_after(marks) == occurrences(marks, CallMark::Enter) - occurrences(marks, CallMark::Leave),
    decreases marks.len(),
{
    reveal(Seq::filter);
    if marks.len() > 0 {
        lemma_count_after(marks.drop_last());
    }
}

/// A drain goes on waiting while calls are running and its time is not up.
pub open spec fn waits(in_flight: int, waited: Duration, deadline: Duration) -> bool {
    in_flight > 0 && waited.nanos < deadline.nanos
}

/// A drain goes on waiting while calls are running and its time is not up.
pub fn keeps_waiting(in_flight: &InFlight, waited: Duration, deadline: Duration) -> (r: bool)
    ensures
        r == waits(in_flight@, waited, deadline),
{
    in_flight.count() > 0 && waited.nanos < deadline.nanos
}

/// Law: once every call that entered has left, none is running, and a drain ends
/// at once, whatever its deadline and in whatever order the calls came and went.
pub proof fn law_drain_ends_once_every_call_has_returned(
    marks: Seq<CallMark>,
    waited: Duration,
    deadline: Duration,
)
    requires
        occurrences(marks, CallMark::Enter) == occurrences(marks, CallMark::Leave),
    ensures
        count_after(marks) == 0,
        !waits(count_after(marks), waited, deadline),
{
    lemma_count_after(marks);
}

/// Law: while a call that entered has not left, a drain waits for it as long as its
/// time is not up.
pub proof fn law_drain_waits_for_running_calls(
    marks: Seq<CallMark>,
    waited: Duration,
    deadline: Duration,
)
    requires
        occurrences(marks, CallMark::Enter) > occurrences(marks, CallMark::Leave),
        waited.nanos < deadline.nanos,
    ensures
        waits(count_after(marks), waited, deadline),
{
    lemma_count_after(marks);
}

/// Where every reply is well formed the front that a component shows is the one
/// it built: what the host writes for a guest's front it reads back.
pub proof fn law_front_roundtrip(front: GuestWebDescriptor)
    requires
        front.fits(),
    ensures
        web_front_learned(front.wire()) == Ok::<WebDescriptorModel, Result<ContractFault, &'static str>>(
            front@,
        ),
{
    web_guest::law_web_descriptor_roundtrip(front);
}

/// No manifest lets a path out: every path in it is one that cannot climb.
pub proof fn law_manifest_paths_are_good(
    front: WebDescriptorModel,
    assets: Seq<AssetModel>,
    manifest: WebManifestData,
)
    requires
        manifest_comes_to(front, assets, Ok(manifest)),
    ensures
        web_path::path_fault(manifest.entry@) is None,
        forall|i: int|
            0 <= i < manifest.assets@.len() ==> web_path::path_fault(
                (#[trigger] manifest.assets@[i]).path@,
            ) is None,
{
    assert forall|i: int| 0 <= i < manifest.assets@.len() implies web_path::path_fault(
        (#[trigger] manifest.assets@[i]).path@,
    ) is None by {
        assert(entry_matches(manifest.assets@[i], assets[i]));
    }
}

/// Law: a guest that answers with an account of itself is heard exactly where the
/// account reads well, and then with that account; one that answers with an error
/// is heard as that error, or as breaking the contract where the contract has no
/// such case; and anything else breaks the contract.
pub proof fn law_descriptor_is_learned_as_told(
    m: ValModel,
    r: Result<GuestComponentDescriptor, RuntimeExecutionError>,
)
    requires
        descriptor_learned(m, r),
    ensures
        r is Ok <==> m is Success && guest::component_descriptor_of(m) is Ok,
        r matches Ok(d) ==> guest::component_descriptor_of(m) == Ok::<guest::DescriptorModel, ContractFault>(d@),
        guest::component_descriptor_of(m) matches Err(fault) ==> m is Success ==> (r matches Err(e) && breaks(
            e,
            fault,
        )),
        m matches ValModel::Failure(Some(inner)) ==> *inner matches ValModel::Enum(name) ==> forall|
            c: GuestDescriptorError,
        | #[trigger] c.spec_name() == name ==> (r matches Err(RuntimeExecutionError::GuestDescriptorError(told))
            && told.spec_name() == name),
        !(m is Success) && !(m is Failure) ==> (r matches Err(e) && breaks(
            e,
            ContractFault::ShapeMismatch { field: "get-descriptor"@, expected: "result"@ },
        )),
{
}

/// Law: a front becomes a manifest exactly where its entry and all its assets have
/// good paths, and the manifest then holds all of it: the entry, what it offers,
/// and every asset in its place with its path, size and type.
pub proof fn law_manifest_holds_the_whole_front(
    front: WebDescriptorModel,
    assets: Seq<AssetModel>,
    r: Result<WebManifestData, RuntimeExecutionError>,
)
    requires
        manifest_comes_to(front, assets, r),
    ensures
        r is Ok <==> web_path::path_fault(front.entry) is None && forall|i: int|
            0 <= i < assets.len() ==> web_path::path_fault((#[trigger] assets[i]).path) is None,
        r matches Ok(m) ==> {
            &&& m.entry@ == front.entry
            &&& m.features.static_assets == front.features.static_assets
            &&& m.features.backend_actions == front.features.backend_actions
            &&& m.assets@.len() == assets.len()
            &&& forall|i: int|
                0 <= i < assets.len() ==> {
                    let asset = #[trigger] m.assets@[i];
                    &&& asset.path@ == assets[i].path
                    &&& asset.size == assets[i].size
                    &&& asset.content_type is Some <==> assets[i].content_type is Some
                    &&& asset.content_type matches Some(t) ==> Some(t@) == assets[i].content_type
                }
        },
        r matches Err(e) ==> web_path::path_fault(front.entry) is Some ==> breaks(
            e,
            ContractFault::ShapeMismatch { field: "web-descriptor.entry"@, expected: "valid asset path"@ },
        ),
        r matches Err(e) ==> web_path::path_fault(front.entry) is None ==> breaks(
            e,
            ContractFault::ShapeMismatch { field: "asset-metadata.path"@, expected: "valid asset path"@ },
        ),
{
    if r is Ok {
        let m = r->Ok_0;
        assert forall|i: int| 0 <= i < assets.len() implies ({
            let asset = #[trigger] m.assets@[i];
            &&& asset.path@ == assets[i].path
            &&& asset.size == assets[i].size
            &&& asset.content_type is Some <==> assets[i].content_type is Some
            &&& asset.content_type matches Some(t) ==> Some(t@) == assets[i].content_type
        }) by {
            assert(entry_matches(m.assets@[i], assets[i]));
        }
    }
}

/// Law: a component without a web front has no manifest; one whose calls fail is
/// told as the guest's failure, one whose values read badly as breaking the
/// contract, and one that does not list assets as having none.
pub proof fn law_front_is_learned_as_told(
    front: Option<ValModel>,
    list: Option<ValModel>,
    r: Result<Option<WebManifestData>, RuntimeExecutionError>,
)
    requires
        front_comes_to(front, list, r),
    ensures
        r matches Ok(None) <==> front is None,
        front matches Some(m) ==> m is Failure ==> r == Err::<Option<WebManifestData>, RuntimeExecutionError>(
            RuntimeExecutionError::GuestWebError("get-web-descriptor returned an error"),
        ),
        front matches Some(m) ==> !(m is Failure) && !(m is Success) ==> (r matches Err(e) && breaks(
            e,
            ContractFault::ShapeMismatch { field: "get-web-descriptor"@, expected: "result"@ },
        )),
        front matches Some(m) ==> web_guest::web_descriptor_of(m) matches Err(fault) ==> m is Success ==> (
        r matches Err(e) && breaks(e, fault)),
        front matches Some(m) ==> web_guest::web_descriptor_of(m) matches Ok(model) ==> m is Success ==> {
            &&& list is None ==> (r matches Ok(Some(manifest)) ==> manifest.assets@.len() == 0 && manifest.entry@
                == model.entry)
            &&& list is None && web_path::path_fault(model.entry) is None ==> r is Ok
            &&& list matches Some(l) ==> l is Failure ==> r == Err::<
                Option<WebManifestData>,
                RuntimeExecutionError,
            >(RuntimeExecutionError::GuestWebError("list-assets returned an error"))
            &&& list matches Some(l) ==> !(l is Failure) && !(l is Success) ==> (r matches Err(e) && breaks(
                e,
                ContractFault::ShapeMismatch { field: "list-assets"@, expected: "result"@ },
            ))
            &&& list matches Some(l) ==> web_guest::asset_list_of(l) matches Err(fault) ==> l is Success ==> (
            r matches Err(e) && breaks(e, fault))
            &&& list matches Some(l) ==> web_guest::asset_list_of(l) matches Ok(assets) ==> l is Success ==> {
                &&& r matches Ok(Some(manifest)) ==> manifest_matches(manifest, model, assets)
                &&& web_path::path_fault(model.entry) is None && paths_are_good(assets) ==> r is Ok
            }
        },
{
}

/// Law: every function of the web is called by its own name, in the interface that
/// has it.
pub proof fn law_web_functions_have_their_names(f: WebFunc, g: WebFunc)
    ensures
        f.spec_name()@ == g.spec_name()@ <==> f == g,
        f == WebFunc::GetWebDescriptor ==> f.spec_name()@ == "get-web-descriptor"@ && f.spec_interface()@
            == "descriptor"@,
        f == WebFunc::ListAssets ==> f.spec_name()@ == "list-assets"@ && f.spec_interface()@ == "assets"@,
        f == WebFunc::ReadAsset ==> f.spec_name()@ == "read-asset"@ && f.spec_interface()@ == "assets"@,
        f == WebFunc::HandleAction ==> f.spec_name()@ == "handle-action"@ && f.spec_interface()@ == "actions"@,
{
    reveal_strlit("get-web-descriptor");
    reveal_strlit("list-assets");
    reveal_strlit("read-asset");
    reveal_strlit("handle-action");
    assert("get-web-descriptor"@[0] == 'g');
    assert("list-assets"@[0] == 'l');
    assert("read-asset"@[0] == 'r');
    assert("handle-action"@[0] == 'h');
}

/// Law: a function is told as missing exactly where an interface is there without
/// it; the descriptor's comes first, then the assets', then the actions'.
pub proof fn law_missing_function_is_told(front: ExportedCall, list: ExportedCall, actions: ExportedCall)
    ensures
        missing_call(front, list, actions) is None <==> (front.interface ==> front.func) && (list.interface
            ==> list.func) && (actions.interface ==> actions.func),
        missing_call(front, list, actions) == Some(WebFunc::GetWebDescriptor) <==> front.interface && !front.func,
        missing_call(front, list, actions) == Some(WebFunc::ListAssets) <==> (front.interface ==> front.func)
            && list.interface && !list.func,
        missing_call(front, list, actions) == Some(WebFunc::HandleAction) <==> (front.interface ==> front.func)
            && (list.interface ==> list.func) && actions.interface && !actions.func,
{
}

/// Law: the instances are all there, in order, exactly where each of them could be
/// made; otherwise the first that could not be made tells why.
pub proof fn law_instances_are_all_or_none(slots: Seq<Result<SlotBindings, RuntimeExecutionError>>)
    ensures
        all_slots(slots) is Ok <==> forall|i: int| 0 <= i < slots.len() ==> (#[trigger] slots[i]) is Ok,
        all_slots(slots) matches Ok(made) ==> {
            &&& made.len() == slots.len()
            &&& forall|i: int| 0 <= i < slots.len() ==> #[trigger] slots[i] == Ok::<
                SlotBindings,
                RuntimeExecutionError,
            >(made[i])
        },
        all_slots(slots) matches Err(e) ==> exists|i: int| {
            &&& 0 <= i < slots.len()
            &&& #[trigger] slots[i] == Err::<SlotBindings, RuntimeExecutionError>(e)
            &&& forall|j: int| 0 <= j < i ==> (#[trigger] slots[j]) is Ok
        },
    decreases slots.len(),
{
    if slots.len() > 0 {
        let init = slots.drop_last();
        law_instances_are_all_or_none(init);
        assert forall|i: int| 0 <= i < init.len() implies init[i] == slots[i] by {}
        match all_slots(init) {
            Err(e) => {
                let i = choose|i: int| {
                    &&& 0 <= i < init.len()
                    &&& #[trigger] init[i] == Err::<SlotBindings, RuntimeExecutionError>(e)
                    &&& forall|j: int| 0 <= j < i ==> (#[trigger] init[j]) is Ok
                };
                assert(slots[i] == Err::<SlotBindings, RuntimeExecutionError>(e));
                assert forall|j: int| 0 <= j < i implies (#[trigger] slots[j]) is Ok by {
                    assert(init[j] is Ok);
                }
            },
            Ok(made) => {
                assert forall|i: int| 0 <= i < init.len() implies (#[trigger] slots[i]) == Ok::<
                    SlotBindings,
                    RuntimeExecutionError,
                >(made[i]) by {
                    assert(init[i] is Ok);
                }
                assert(slots[slots.len() - 1] == slots.last());
            },
        }
    }
}

proof fn lemma_one_more_occurs(marks: Seq<CallMark>, mark: CallMark, counted: CallMark)
    ensures
        occurrences(marks.push(mark), counted) == occurrences(marks, counted) + if mark == counted {
            1int
        } else {
            0
        },
{
    reveal(Seq::filter);
    assert(marks.push(mark).drop_last() =~= marks);
}

/// Law: the calls that are running are those that have entered less those that have
/// left.
pub proof fn law_running_calls_are_those_not_left(marks: Seq<CallMark>)
    ensures
        count_after(marks) == occurrences(marks, CallMark::Enter) - occurrences(marks, CallMark::Leave),
    decreases marks.len(),
{
    if marks.len() > 0 {
        let init = marks.drop_last();
        law_running_calls_are_those_not_left(init);
        lemma_one_more_occurs(init, marks.last(), CallMark::Enter);
        lemma_one_more_occurs(init, marks.last(), CallMark::Leave);
        assert(init.push(marks.last()) =~= marks);
    } else {
        reveal(Seq::filter);
    }
}

/// Law: a drain waits exactly as long as a call is running and its time is not up.
pub proof fn law_drain_waits_until_its_time_is_up(in_flight: int, waited: Duration, deadline: Duration)
    ensures
        waits(in_flight, waited, deadline) <==> in_flight >= 1 && waited.nanos < deadline.nanos,
{
}

/// Law: each failure of an action is told in its own words.
pub proof fn law_action_failures_have_their_words(a: GuestActionError)
    ensures
        a == GuestActionError::NotFound ==> action_failure(a) == "action not found",
        a == GuestActionError::InvalidPayload ==> action_failure(a) == "invalid action payload",
        a == GuestActionError::Internal ==> action_failure(a) == "guest action internal error",
{
}

/// Law: an error of a descriptor call that the contract does not have breaks the
/// contract by its name, and a failure that is no enum case by its shape.
pub proof fn law_unknown_descriptor_error_breaks_the_contract(
    m: ValModel,
    r: Result<GuestComponentDescriptor, RuntimeExecutionError>,
)
    requires
        descriptor_learned(m, r),
        m is Failure,
    ensures
        r is Err,
        m == ValModel::Failure(None) ==> breaks(
            r->Err_0,
            ContractFault::ShapeMismatch { field: "descriptor-error"@, expected: "result Err payload"@ },
        ),
        m matches ValModel::Failure(Some(b)) ==> !(*b is Enum) ==> breaks(
            r->Err_0,
            ContractFault::ShapeMismatch { field: "descriptor-error"@, expected: "enum payload"@ },
        ),
        m matches ValModel::Failure(Some(b)) ==> *b matches ValModel::Enum(name) ==> name != "malformed"@ && name
            != "unsupported-contract-version"@ && name != "internal"@ ==> breaks(
            r->Err_0,
            ContractFault::InvalidVariant(name),
        ),
{
}

/// Law: a front is asked for by calls without an argument, under the deadline for
/// descriptors.
pub proof fn law_front_is_asked_for_under_the_descriptor_deadline(
    step: ManifestStep,
    func: WebFunc,
    config: RuntimeConfig,
)
    requires
        asks_for(step, func, config),
    ensures
        step matches ManifestStep::Call(call) && {
            &&& call.func == func
            &&& call.argument is None
            &&& call.deadline == config.descriptor_deadline
        },
{
}

/// Law: an error tells a fault of the guest's value as such, and any other reason in
/// its words.
pub proof fn law_errors_tell_their_reason(error: RuntimeExecutionError, fault: ContractFault, words: &'static str)
    ensures
        tells(error, Ok(fault)) <==> (error matches RuntimeExecutionError::MalformedGuestData(c) && c@ == fault),
        tells(error, Err(words)) <==> error == RuntimeExecutionError::GuestWebError(words),
{
}

} // verus!
