//! What a component with a web front returns and is handed: its web
//! descriptor, its assets and its actions.
use vstd::prelude::*;

use crate::contract;
use crate::contract::{
    as_flags, as_list, as_record, as_result_ok, field, has_flag, option_display, option_string,
    u64_field, wrapped_field, ContractFault, ContractValueError, MAX_ASSET_LIST_LEN,
    MAX_DISPLAY_TEXT_LEN, MAX_WEB_ASSET_PATH_LEN,
};
use crate::guest;
use crate::text::same_text;
use crate::val;
use crate::val::{
    bytes_of, entry, opt_string, success_val, text_val, u8_list_val, wrapped_val, Val, ValModel,
};

verus! {

/// What a web front offers.
#[derive(Debug, Clone, Copy, PartialEq, Eq, Structural)]
pub struct GuestWebFeatures {
    pub static_assets: bool,
    pub backend_actions: bool,
}

/// A component's account of its web front.
#[derive(Debug, PartialEq, Eq)]
pub struct GuestWebDescriptor {
    pub entry: String,
    pub features: GuestWebFeatures,
    pub display_name: Option<String>,
}

pub struct WebDescriptorModel {
    pub entry: Seq<char>,
    pub features: GuestWebFeatures,
    pub display_name: Option<Seq<char>>,
}

/// The name of a flag, where it is set.
pub open spec fn flag_if(set: bool, name: Seq<char>) -> Seq<Seq<char>> {
    if set {
        seq![name]
    } else {
        Seq::empty()
    }
}

/// Appends the name of a flag that is set.
pub fn push_flag(flags: &mut Vec<String>, set: bool, name: &str)
    ensures
        val::names_model(final(flags)@) == val::names_model(old(flags)@) + flag_if(set, name@),
{
    if set {
        flags.push(name.to_owned());
    }
    assert(val::names_model(flags@) =~= val::names_model(old(flags)@) + flag_if(set, name@));
}

/// A name is in two lists put together where it is in either.
pub proof fn lemma_contains_concat(a: Seq<Seq<char>>, b: Seq<Seq<char>>, x: Seq<char>)
    ensures
        (a + b).contains(x) == (a.contains(x) || b.contains(x)),
{
    if a.contains(x) {
        let i = choose|i: int| 0 <= i < a.len() && a[i] == x;
        assert((a + b)[i] == x);
    }
    if b.contains(x) {
        let i = choose|i: int| 0 <= i < b.len() && b[i] == x;
        assert((a + b)[a.len() + i] == x);
    }
}

/// A flag's name is in its own list where it is set, and another's is not.
pub proof fn lemma_flag_if(set: bool, name: Seq<char>, x: Seq<char>)
    ensures
        flag_if(set, name).contains(x) == (set && x == name),
{
    if set {
        assert(flag_if(set, name)[0] == name);
    }
}

impl GuestWebFeatures {
    pub open spec fn wire(self) -> Seq<Seq<char>> {
        flag_if(self.static_assets, "static-assets"@) + flag_if(self.backend_actions, "backend-actions"@)
    }
}

impl GuestWebDescriptor {
    pub open spec fn view(&self) -> WebDescriptorModel {
        WebDescriptorModel {
            entry: self.entry@,
            features: self.features,
            display_name: contract::opt_text(self.display_name),
        }
    }

    pub open spec fn fits(&self) -> bool {
        &&& contract::byte_len(self.entry@) <= MAX_WEB_ASSET_PATH_LEN
        &&& self.display_name matches Some(t) ==> contract::byte_len(t@) <= MAX_DISPLAY_TEXT_LEN
    }

    pub open spec fn wire(&self) -> ValModel {
        ValModel::Success(
            Some(
                Box::new(
                    ValModel::Record(
                        seq![
                            ("entry"@, val::wrapped_model(self.entry@)),
                            ("features"@, ValModel::Flags(self.features.wire())),
                            ("display-name"@, val::opt_text_model(self.display_name)),
                        ],
                    ),
                ),
            ),
        )
    }
}

pub open spec fn web_features_of(names: Seq<Seq<char>>) -> GuestWebFeatures {
    GuestWebFeatures {
        static_assets: names.contains("static-assets"@),
        backend_actions: names.contains("backend-actions"@),
    }
}

/// What a returned value says of a web front. A flag that is absent is off.
pub open spec fn web_descriptor_of(m: ValModel) -> Result<WebDescriptorModel, ContractFault> {
    match contract::success_of(m, "get-web-descriptor"@) {
        Err(e) => Err(e),
        Ok(inner) => match contract::record_of(inner, "web-descriptor"@) {
            Err(e) => Err(e),
            Ok(f) => {
                let entry = contract::wrapped_field_of(f, 0, "entry"@, "asset-path"@, MAX_WEB_ASSET_PATH_LEN);
                let features = match contract::field_of(f, 1, "features"@) {
                    Err(e) => Err(e),
                    Ok(v) => contract::flags_of(v, "web-features"@),
                };
                let name = contract::option_display_of(f, 2, "display-name"@, "web-descriptor.display-name"@);
                if entry is Err {
                    Err(entry->Err_0)
                } else if features is Err {
                    Err(features->Err_0)
                } else if name is Err {
                    Err(name->Err_0)
                } else {
                    Ok(
                        WebDescriptorModel {
                            entry: entry->Ok_0,
                            features: web_features_of(features->Ok_0),
                            display_name: name->Ok_0,
                        },
                    )
                }
            },
        },
    }
}

/// Reads what `get-web-descriptor` returned.
pub fn parse_web_descriptor_val(val: &Val) -> (r: Result<GuestWebDescriptor, ContractValueError>)
    ensures
        match r {
            Ok(d) => web_descriptor_of(val@) == Ok::<WebDescriptorModel, ContractFault>(d@),
            Err(e) => web_descriptor_of(val@) == Err::<WebDescriptorModel, ContractFault>(e@),
        },
{
    let inner = match as_result_ok(val, "get-web-descriptor") {
        Ok(v) => v,
        Err(e) => return Err(e),
    };
    let fields = match as_record(inner, "web-descriptor") {
        Ok(f) => f,
        Err(e) => return Err(e),
    };
    let entry = match wrapped_field(fields, 0, "entry", "asset-path", MAX_WEB_ASSET_PATH_LEN) {
        Ok(t) => t,
        Err(e) => return Err(e),
    };
    let features_val = match field(fields, 1, "features") {
        Ok(v) => v,
        Err(e) => return Err(e),
    };
    let names = match as_flags(features_val, "web-features") {
        Ok(n) => n,
        Err(e) => return Err(e),
    };
    let features = GuestWebFeatures {
        static_assets: has_flag(names, "static-assets"),
        backend_actions: has_flag(names, "backend-actions"),
    };
    match option_display(fields, 2, "display-name", "web-descriptor.display-name") {
        Ok(display_name) => Ok(GuestWebDescriptor { entry, features, display_name }),
        Err(e) => Err(e),
    }
}

/// The value that a guest returns for `descriptor`.
pub fn build_web_descriptor_val(descriptor: &GuestWebDescriptor) -> (r: Val)
    ensures
        r@ == descriptor.wire(),
{
    let mut flags: Vec<String> = Vec::new();
    assert(val::names_model(flags@) =~= Seq::empty());
    push_flag(&mut flags, descriptor.features.static_assets, "static-assets");
    push_flag(&mut flags, descriptor.features.backend_actions, "backend-actions");
    assert(val::names_model(flags@) =~= descriptor.features.wire());
    let fields: Vec<(String, Val)> = vec![
        entry("entry", wrapped_val(&descriptor.entry)),
        entry("features", Val::Flags(flags)),
        entry("display-name", opt_string(&descriptor.display_name)),
    ];
    assert((*descriptor.wire()->Success_0->0)->Record_0 =~= val::record_model(fields@));
    success_val(Val::Record(fields))
}

/// Law: a web descriptor within the host's limits comes back unchanged from its
/// wire form.
pub proof fn law_web_descriptor_roundtrip(d: GuestWebDescriptor)
    requires
        d.fits(),
    ensures
        web_descriptor_of(d.wire()) == Ok::<WebDescriptorModel, ContractFault>(d@),
{
    let a = flag_if(d.features.static_assets, "static-assets"@);
    let b = flag_if(d.features.backend_actions, "backend-actions"@);
    reveal_strlit("static-assets");
    reveal_strlit("backend-actions");
    assert("static-assets"@.len() == 13);
    assert("backend-actions"@.len() == 15);
    lemma_contains_concat(a, b, "static-assets"@);
    lemma_contains_concat(a, b, "backend-actions"@);
    lemma_flag_if(d.features.static_assets, "static-assets"@, "static-assets"@);
    lemma_flag_if(d.features.static_assets, "static-assets"@, "backend-actions"@);
    lemma_flag_if(d.features.backend_actions, "backend-actions"@, "static-assets"@);
    lemma_flag_if(d.features.backend_actions, "backend-actions"@, "backend-actions"@);
    assert(web_features_of(d.features.wire()) == d.features);
}

/// One asset that a component offers.
#[derive(Debug, PartialEq, Eq)]
pub struct GuestAssetMetadata {
    pub path: String,
    pub size: u64,
    pub content_type: Option<String>,
}

pub struct AssetModel {
    pub path: Seq<char>,
    pub size: u64,
    pub content_type: Option<Seq<char>>,
}

impl GuestAssetMetadata {
    pub open spec fn view(&self) -> AssetModel {
        AssetModel {
            path: self.path@,
            size: self.size,
            content_type: contract::opt_text(self.content_type),
        }
    }

    pub open spec fn wire(&self) -> ValModel {
        ValModel::Record(
            seq![
                ("path"@, val::wrapped_model(self.path@)),
                ("size"@, ValModel::U64(self.size)),
                ("content-type"@, val::opt_text_model(self.content_type)),
            ],
        )
    }
}

pub open spec fn asset_models(s: Seq<GuestAssetMetadata>) -> Seq<AssetModel> {
    s.map_values(|a: GuestAssetMetadata| a@)
}

/// The value that a guest returns for an asset list.
pub open spec fn asset_list_wire(s: Seq<GuestAssetMetadata>) -> ValModel {
    ValModel::Success(Some(Box::new(ValModel::List(s.map_values(|a: GuestAssetMetadata| a.wire())))))
}

pub open spec fn asset_of(m: ValModel) -> Result<AssetModel, ContractFault> {
    match contract::record_of(m, "asset-metadata"@) {
        Err(e) => Err(e),
        Ok(f) => {
            let path = contract::wrapped_field_of(f, 0, "path"@, "asset-path"@, MAX_WEB_ASSET_PATH_LEN);
            let size = contract::u64_field_of(f, 1, "size"@);
            let kind = contract::option_text_of(f, 2, "content-type"@, "asset-metadata.content-type"@);
            if path is Err {
                Err(path->Err_0)
            } else if size is Err {
                Err(size->Err_0)
            } else if kind is Err {
                Err(kind->Err_0)
            } else {
                Ok(AssetModel { path: path->Ok_0, size: size->Ok_0, content_type: kind->Ok_0 })
            }
        },
    }
}

/// What a returned value says of a component's assets.
pub open spec fn asset_list_of(m: ValModel) -> Result<Seq<AssetModel>, ContractFault> {
    match contract::success_of(m, "list-assets"@) {
        Err(e) => Err(e),
        Ok(inner) => match contract::list_of(inner, "asset-metadata list"@) {
            Err(e) => Err(e),
            Ok(items) => if items.len() > MAX_ASSET_LIST_LEN {
                Err(ContractFault::ValueTooLarge { field: "assets"@, limit: MAX_ASSET_LIST_LEN })
            } else {
                contract::each(items, |v: ValModel| asset_of(v))
            },
        },
    }
}

fn parse_asset(val: &Val) -> (r: Result<GuestAssetMetadata, ContractValueError>)
    ensures
        match r {
            Ok(a) => asset_of(val@) == Ok::<AssetModel, ContractFault>(a@),
            Err(e) => asset_of(val@) == Err::<AssetModel, ContractFault>(e@),
        },
{
    let fields = match as_record(val, "asset-metadata") {
        Ok(f) => f,
        Err(e) => return Err(e),
    };
    let path = match wrapped_field(fields, 0, "path", "asset-path", MAX_WEB_ASSET_PATH_LEN) {
        Ok(t) => t,
        Err(e) => return Err(e),
    };
    let size: u64 = match u64_field(fields, 1, "size") {
        Ok(n) => n,
        Err(e) => return Err(e),
    };
    match option_string(fields, 2, "content-type", "asset-metadata.content-type") {
        Ok(content_type) => Ok(GuestAssetMetadata { path, size, content_type }),
        Err(e) => Err(e),
    }
}

/// Reads what `list-assets` returned.
pub fn parse_asset_list_val(val: &Val) -> (r: Result<Vec<GuestAssetMetadata>, ContractValueError>)
    ensures
        match r {
            Ok(l) => asset_list_of(val@) == Ok::<Seq<AssetModel>, ContractFault>(asset_models(l@)),
            Err(e) => asset_list_of(val@) == Err::<Seq<AssetModel>, ContractFault>(e@),
        },
{
    let inner = match as_result_ok(val, "list-assets") {
        Ok(v) => v,
        Err(e) => return Err(e),
    };
    let list = match as_list(inner, "asset-metadata list") {
        Ok(l) => l,
        Err(e) => return Err(e),
    };
    if list.len() > MAX_ASSET_LIST_LEN {
        return Err(ContractValueError::ValueTooLarge { field: "assets", limit: MAX_ASSET_LIST_LEN });
    }
    let ghost items = val::list_model(list@);
    let ghost read = |v: ValModel| asset_of(v);
    let mut assets: Vec<GuestAssetMetadata> = Vec::new();
    let mut i: usize = 0;
    assert(items.take(0) =~= Seq::empty());
    assert(asset_models(assets@) =~= Seq::empty());
    while i < list.len()
        invariant
            i <= list.len(),
            items == val::list_model(list@),
            read == (|v: ValModel| asset_of(v)),
            contract::each(items.take(i as int), read) == Ok::<Seq<AssetModel>, ContractFault>(
                asset_models(assets@),
            ),
            asset_list_of(val@) == contract::each(items, read),
        decreases list.len() - i,
    {
        proof {
            assert(items.take(i + 1).drop_last() =~= items.take(i as int));
            assert(items.take(i + 1).last() == list@[i as int]@);
        }
        match parse_asset(&list[i]) {
            Ok(a) => {
                proof {
                    assert(asset_models(assets@.push(a)) =~= asset_models(assets@).push(a@));
                }
                assets.push(a);
            },
            Err(e) => {
                proof {
                    contract::lemma_each_prefix_error(items, read, i + 1);
                }
                return Err(e);
            },
        }
        i = i + 1;
    }
    assert(items.take(i as int) =~= items);
    Ok(assets)
}

fn build_asset_val(asset: &GuestAssetMetadata) -> (r: Val)
    ensures
        r@ == asset.wire(),
{
    let fields: Vec<(String, Val)> = vec![
        entry("path", wrapped_val(&asset.path)),
        entry("size", Val::U64(asset.size)),
        entry("content-type", opt_string(&asset.content_type)),
    ];
    assert(asset.wire()->Record_0 =~= val::record_model(fields@));
    Val::Record(fields)
}

/// The value that a guest returns for `assets`.
pub fn build_asset_list_val(assets: &Vec<GuestAssetMetadata>) -> (r: Val)
    ensures
        r@ == asset_list_wire(assets@),
{
    let mut items: Vec<Val> = Vec::new();
    let mut i: usize = 0;
    while i < assets.len()
        invariant
            i <= assets.len(),
            items.len() == i,
            forall|j: int| 0 <= j < i ==> (#[trigger] items@[j])@ == assets@[j].wire(),
        decreases assets.len() - i,
    {
        items.push(build_asset_val(&assets[i]));
        i = i + 1;
    }
    assert(val::list_model(items@) =~= assets@.map_values(|a: GuestAssetMetadata| a.wire()));
    success_val(Val::List(items))
}

/// Law: an asset list within the host's limits comes back unchanged from its
/// wire form.
pub proof fn law_asset_list_roundtrip(s: Seq<GuestAssetMetadata>)
    requires
        s.len() <= MAX_ASSET_LIST_LEN,
        forall|i: int|
            0 <= i < s.len() ==> contract::byte_len((#[trigger] s[i]).path@) <= MAX_WEB_ASSET_PATH_LEN,
    ensures
        asset_list_of(asset_list_wire(s)) == Ok::<Seq<AssetModel>, ContractFault>(asset_models(s)),
{
    let items = s.map_values(|a: GuestAssetMetadata| a.wire());
    let read = |v: ValModel| asset_of(v);
    assert forall|i: int| 0 <= i < items.len() implies read(#[trigger] items[i]) == Ok::<
        AssetModel,
        ContractFault,
    >(asset_models(s)[i]) by {
        assert(items[i] == s[i].wire());
        assert(contract::byte_len(s[i].path@) <= MAX_WEB_ASSET_PATH_LEN);
    }
    contract::lemma_each_reads(items, read, asset_models(s));
}

/// What an action is handed.
#[derive(Debug, PartialEq, Eq)]
pub enum GuestActionPayload {
    Json(String),
    Raw(Vec<u8>),
}

/// A call of an action. It has no place for credentials.
#[derive(Debug, PartialEq, Eq)]
pub struct GuestActionRequest {
    pub action: String,
    pub payload: GuestActionPayload,
}

/// Why an action failed.
#[derive(Debug, Clone, Copy, PartialEq, Eq, Structural)]
pub enum GuestActionError {
    NotFound,
    InvalidPayload,
    Internal,
}

impl GuestActionPayload {
    pub open spec fn wire(&self) -> ValModel {
        match *self {
            GuestActionPayload::Json(t) => ValModel::Variant("json"@, Some(Box::new(ValModel::Text(t@)))),
            GuestActionPayload::Raw(b) => ValModel::Variant("raw"@, Some(Box::new(val::bytes_model(b@)))),
        }
    }
}

/// The value that stands for `payload`.
pub fn build_action_payload_val(payload: &GuestActionPayload) -> (r: Val)
    ensures
        r@ == payload.wire(),
{
    match payload {
        GuestActionPayload::Json(t) => Val::Variant("json".to_owned(), Some(Box::new(text_val(t)))),
        GuestActionPayload::Raw(b) => Val::Variant("raw".to_owned(), Some(Box::new(u8_list_val(b)))),
    }
}

impl GuestActionRequest {
    pub open spec fn wire(&self) -> ValModel {
        ValModel::Record(
            seq![("action"@, val::wrapped_model(self.action@)), ("payload"@, self.payload.wire())],
        )
    }
}

/// The value that a guest is handed for `request`.
pub fn build_action_request_val(request: &GuestActionRequest) -> (r: Val)
    ensures
        r@ == request.wire(),
{
    let fields: Vec<(String, Val)> = vec![
        entry("action", wrapped_val(&request.action)),
        entry("payload", build_action_payload_val(&request.payload)),
    ];
    assert(request.wire()->Record_0 =~= val::record_model(fields@));
    Val::Record(fields)
}

/// What a returned value says of an action: its bytes, or why it failed. A
/// value of another shape is an invalid payload, an unknown failure internal.
pub open spec fn action_result_of(m: ValModel) -> Result<Seq<u8>, GuestActionError> {
    match m {
        ValModel::Success(Some(inner)) => match *inner {
            ValModel::List(items) => match val::byte_items(items) {
                Some(bytes) => Ok(bytes),
                None => Err(GuestActionError::InvalidPayload),
            },
            _ => Err(GuestActionError::InvalidPayload),
        },
        ValModel::Failure(Some(inner)) => match *inner {
            ValModel::Enum(name) => if name == "not-found"@ {
                Err(GuestActionError::NotFound)
            } else if name == "invalid-payload"@ {
                Err(GuestActionError::InvalidPayload)
            } else {
                Err(GuestActionError::Internal)
            },
            _ => Err(GuestActionError::InvalidPayload),
        },
        _ => Err(GuestActionError::InvalidPayload),
    }
}

/// Reads what `handle-action` returned.
pub fn parse_action_result_val(val: &Val) -> (r: Result<Vec<u8>, GuestActionError>)
    ensures
        match r {
            Ok(b) => action_result_of(val@) == Ok::<Seq<u8>, GuestActionError>(b@),
            Err(e) => action_result_of(val@) == Err::<Seq<u8>, GuestActionError>(e),
        },
{
    match val {
        Val::Result(Ok(Some(inner))) => match &**inner {
            Val::List(items) => {
                assert(inner@ == ValModel::List(val::list_model(items@)));
                match bytes_of(items) {
                    Some(bytes) => Ok(bytes),
                    None => Err(GuestActionError::InvalidPayload),
                }
            },
            _ => Err(GuestActionError::InvalidPayload),
        },
        Val::Result(Err(Some(inner))) => match &**inner {
            Val::Enum(name) => {
                assert(inner@ == ValModel::Enum(name@));
                if same_text(name.as_str(), "not-found") {
                    Err(GuestActionError::NotFound)
                } else if same_text(name.as_str(), "invalid-payload") {
                    Err(GuestActionError::InvalidPayload)
                } else {
                    Err(GuestActionError::Internal)
                }
            },
            _ => Err(GuestActionError::InvalidPayload),
        },
        _ => Err(GuestActionError::InvalidPayload),
    }
}

/// What a returned value says of an asset's content.
pub open spec fn asset_bytes_of(m: ValModel) -> Result<Seq<u8>, ContractFault> {
    match m {
        ValModel::Success(Some(inner)) => match *inner {
            ValModel::List(items) => match val::byte_items(items) {
                Some(bytes) => Ok(bytes),
                None => contract::mismatch("read-asset"@, "list<u8>"@),
            },
            _ => contract::mismatch("read-asset"@, "list<u8>"@),
        },
        _ => contract::mismatch("read-asset"@, "result with list<u8>"@),
    }
}

/// Reads what `read-asset` returned.
pub fn parse_asset_bytes_val(val: &Val) -> (r: Result<Vec<u8>, ContractValueError>)
    ensures
        match r {
            Ok(b) => asset_bytes_of(val@) == Ok::<Seq<u8>, ContractFault>(b@),
            Err(e) => asset_bytes_of(val@) == Err::<Seq<u8>, ContractFault>(e@),
        },
{
    match val {
        Val::Result(Ok(Some(inner))) => match &**inner {
            Val::List(items) => {
                assert(inner@ == ValModel::List(val::list_model(items@)));
                match bytes_of(items) {
                    Some(bytes) => Ok(bytes),
                    None => Err(
                        ContractValueError::ShapeMismatch { field: "read-asset", expected: "list<u8>" },
                    ),
                }
            },
            _ => Err(ContractValueError::ShapeMismatch { field: "read-asset", expected: "list<u8>" }),
        },
        _ => Err(
            ContractValueError::ShapeMismatch { field: "read-asset", expected: "result with list<u8>" },
        ),
    }
}

/// Law: bytes sent as a `list<u8>` read back as the same bytes.
pub proof fn law_asset_bytes_roundtrip(bytes: Seq<u8>)
    ensures
        asset_bytes_of(ValModel::Success(Some(Box::new(val::bytes_model(bytes))))) == Ok::<
            Seq<u8>,
            ContractFault,
        >(bytes),
        action_result_of(ValModel::Success(Some(Box::new(val::bytes_model(bytes))))) == Ok::<
            Seq<u8>,
            GuestActionError,
        >(bytes),
{
    let items = bytes.map_values(|b: u8| ValModel::U8(b));
    assert(forall|i: int| 0 <= i < items.len() ==> (#[trigger] items[i]) is U8);
    assert(Seq::new(items.len(), |i: int| items[i]->U8_0) =~= bytes);
}

/// The field at place `i` is a text wrapped in a record, of at most `limit` bytes.
pub open spec fn is_wrapped(f: Seq<(Seq<char>, ValModel)>, i: int, name: Seq<char>, t: Seq<char>, limit: int) -> bool {
    &&& 0 <= i < f.len()
    &&& f[i].0 == name
    &&& f[i].1 matches ValModel::Record(inner)
    &&& inner.len() > 0
    &&& inner[0] == ("value"@, ValModel::Text(t))
    &&& vstd::utf8::encode_utf8(t).len() <= limit
}

pub(crate) proof fn lemma_wrapped(
    f: Seq<(Seq<char>, ValModel)>,
    i: int,
    name: Seq<char>,
    what: Seq<char>,
    t: Seq<char>,
    limit: usize,
)
    ensures
        contract::wrapped_field_of(f, i, name, what, limit) == Ok::<Seq<char>, ContractFault>(t) <==> is_wrapped(
            f,
            i,
            name,
            t,
            limit as int,
        ),
{
    contract::law_wrapped_text_is_read_from_its_record(f[i].1, what, limit, t);
}

/// A returned value in the form of a web descriptor.
pub open spec fn is_web_descriptor(m: ValModel, d: WebDescriptorModel) -> bool {
    &&& m matches ValModel::Success(Some(b))
    &&& *b matches ValModel::Record(f)
    &&& f.len() >= 3
    &&& is_wrapped(f, 0, "entry"@, d.entry, 4096)
    &&& f[1].0 == "features"@
    &&& f[1].1 matches ValModel::Flags(names)
    &&& d.features.static_assets <==> names.contains("static-assets"@)
    &&& d.features.backend_actions <==> names.contains("backend-actions"@)
    &&& guest::is_opt_text(f, 2, "display-name"@, d.display_name)
}

/// Law: a returned value reads as a web descriptor exactly where it has that form:
/// the entry in its record, the flags by their names, and the optional display
/// name, each text within its limit.
pub proof fn law_web_descriptor_reads_as_its_form(m: ValModel, d: WebDescriptorModel)
    ensures
        web_descriptor_of(m) == Ok::<WebDescriptorModel, ContractFault>(d) <==> is_web_descriptor(m, d),
{
    if m matches ValModel::Success(Some(b)) && *b is Record {
        let f = (*(m->Success_0->0))->Record_0;
        lemma_wrapped(f, 0, "entry"@, "asset-path"@, d.entry, MAX_WEB_ASSET_PATH_LEN);
        let t = if d.display_name is Some {
            d.display_name->0
        } else {
            Seq::empty()
        };
        contract::law_optional_texts_are_read_within_their_limits(
            f,
            2,
            "display-name"@,
            "web-descriptor.display-name"@,
            t,
        );
    }
}

/// A value in the form of an asset.
pub open spec fn is_asset(m: ValModel, a: AssetModel) -> bool {
    &&& m matches ValModel::Record(f)
    &&& f.len() >= 3
    &&& is_wrapped(f, 0, "path"@, a.path, 4096)
    &&& f[1] == ("size"@, ValModel::U64(a.size))
    &&& f[2].0 == "content-type"@
    &&& match a.content_type {
        None => f[2].1 == ValModel::Option(None),
        Some(t) => f[2].1 matches ValModel::Option(Some(b)) && *b == ValModel::Text(t),
    }
}

proof fn lemma_asset(m: ValModel, a: AssetModel)
    ensures
        asset_of(m) == Ok::<AssetModel, ContractFault>(a) <==> is_asset(m, a),
{
    if m is Record {
        let f = m->Record_0;
        lemma_wrapped(f, 0, "path"@, "asset-path"@, a.path, MAX_WEB_ASSET_PATH_LEN);
        contract::law_number_is_read_in_its_width(f, 1, "size"@, 0, a.size);
        let t = if a.content_type is Some {
            a.content_type->0
        } else {
            Seq::empty()
        };
        contract::law_optional_texts_are_read_within_their_limits(
            f,
            2,
            "content-type"@,
            "asset-metadata.content-type"@,
            t,
        );
    }
}

/// Law: a returned list reads as a component's assets exactly where it is not too
/// long and every item has the form of an asset; they are then all there, in order.
pub proof fn law_asset_list_reads_item_by_item(m: ValModel, assets: Seq<AssetModel>)
    ensures
        asset_list_of(m) == Ok::<Seq<AssetModel>, ContractFault>(assets) <==> (m matches ValModel::Success(Some(b))
            && (*b matches ValModel::List(items) && {
            &&& items.len() <= 1024
            &&& items.len() == assets.len()
            &&& forall|i: int| 0 <= i < items.len() ==> is_asset(#[trigger] items[i], assets[i])
        })),
        m matches ValModel::Success(Some(b)) ==> *b matches ValModel::List(items) ==> items.len() > 1024
            ==> asset_list_of(m) == Err::<Seq<AssetModel>, ContractFault>(
            ContractFault::ValueTooLarge { field: "assets"@, limit: 1024 },
        ),
{
    if m matches ValModel::Success(Some(b)) && *b is List {
        let items = (*(m->Success_0->0))->List_0;
        let read = |v: ValModel| asset_of(v);
        contract::law_items_are_read_all_or_none(items, read);
        if asset_list_of(m) == Ok::<Seq<AssetModel>, ContractFault>(assets) {
            assert forall|i: int| 0 <= i < items.len() implies is_asset(#[trigger] items[i], assets[i]) by {
                assert(read(items[i]) == Ok::<AssetModel, ContractFault>(assets[i]));
                lemma_asset(items[i], assets[i]);
            }
        }
        if items.len() == assets.len() && forall|i: int|
            0 <= i < items.len() ==> is_asset(#[trigger] items[i], assets[i]) {
            assert forall|i: int| 0 <= i < items.len() implies read(#[trigger] items[i]) == Ok::<
                AssetModel,
                ContractFault,
            >(assets[i]) by {
                lemma_asset(items[i], assets[i]);
            }
            contract::lemma_each_reads(items, read, assets);
        }
    }
}

/// Law: an action gives its bytes exactly where it succeeded with a list of bytes.
/// A failure is told as not found or as an invalid payload where the guest says so
/// and as internal for every other case; any other value is an invalid payload.
pub proof fn law_action_result_reads_as_returned(m: ValModel, bytes: Seq<u8>)
    ensures
        action_result_of(m) == Ok::<Seq<u8>, GuestActionError>(bytes) <==> (m matches ValModel::Success(Some(b))
            && (*b matches ValModel::List(items) && val::byte_items(items) == Some(bytes))),
        action_result_of(m) == Err::<Seq<u8>, GuestActionError>(GuestActionError::NotFound) <==> (
        m matches ValModel::Failure(Some(b)) && *b == ValModel::Enum("not-found"@)),
        action_result_of(m) == Err::<Seq<u8>, GuestActionError>(GuestActionError::Internal) <==> (
        m matches ValModel::Failure(Some(b)) && (*b matches ValModel::Enum(name) && name != "not-found"@ && name
            != "invalid-payload"@)),
{
    reveal_strlit("not-found");
    reveal_strlit("invalid-payload");
    assert("not-found"@.len() != "invalid-payload"@.len());
}

/// Law: an asset gives its bytes exactly where the read succeeded with a list of
/// bytes; anything else breaks the contract.
pub proof fn law_asset_content_reads_as_returned(m: ValModel, bytes: Seq<u8>)
    ensures
        asset_bytes_of(m) == Ok::<Seq<u8>, ContractFault>(bytes) <==> (m matches ValModel::Success(Some(b)) && (
        *b matches ValModel::List(items) && val::byte_items(items) == Some(bytes))),
        asset_bytes_of(m) matches Err(e) ==> (e matches ContractFault::ShapeMismatch { field, expected } && field
            == "read-asset"@),
{
}

/// Law: a call of an action is written as the action's name and its payload, each
/// under its own name; the payload as a text where it is one, and else as its bytes.
pub proof fn law_action_request_is_written_by_name(r: GuestActionRequest)
    ensures
        r.wire() matches ValModel::Record(f) && {
            &&& f.len() == 2
            &&& f[0].0 == "action"@
            &&& f[0].1 matches ValModel::Record(name)
            &&& name.len() == 1
            &&& name[0] == ("value"@, ValModel::Text(r.action@))
            &&& f[1].0 == "payload"@
            &&& match r.payload {
                GuestActionPayload::Json(t) => f[1].1 matches ValModel::Variant(n, Some(b)) && n == "json"@ && *b
                    == ValModel::Text(t@),
                GuestActionPayload::Raw(bytes) => f[1].1 matches ValModel::Variant(n, Some(b)) && n == "raw"@
                    && *b == val::bytes_model(bytes@),
            }
        },
{
}

/// Law: a flag is written exactly where it is set, and read as set exactly where it
/// is written.
pub proof fn law_web_flags_are_written_where_set(features: GuestWebFeatures, names: Seq<Seq<char>>)
    ensures
        features.wire().contains("static-assets"@) <==> features.static_assets,
        features.wire().contains("backend-actions"@) <==> features.backend_actions,
        web_features_of(names).static_assets <==> names.contains("static-assets"@),
        web_features_of(names).backend_actions <==> names.contains("backend-actions"@),
{
    reveal_strlit("static-assets");
    reveal_strlit("backend-actions");
    assert("static-assets"@.len() != "backend-actions"@.len());
    let one = flag_if(features.static_assets, "static-assets"@);
    let two = flag_if(features.backend_actions, "backend-actions"@);
    let w = one + two;
    if features.static_assets {
        assert(w[0] == "static-assets"@);
    }
    if features.backend_actions {
        assert(w[one.len() as int] == "backend-actions"@);
    }
    if w.contains("static-assets"@) {
        let i = choose|i: int| 0 <= i < w.len() && w[i] == "static-assets"@;
        if i >= one.len() {
            assert(w[i] == two[i - one.len()]);
        }
    }
    if w.contains("backend-actions"@) {
        let i = choose|i: int| 0 <= i < w.len() && w[i] == "backend-actions"@;
        if i < one.len() {
            assert(w[i] == one[i]);
        }
    }
}

/// Law: of a front that breaks off, the first field that it lacks is told: fields
/// are looked for in the order in which they are written.
pub proof fn law_front_lacks_the_next_field(f: Seq<(Seq<char>, ValModel)>, d: WebDescriptorModel)
    requires
        is_web_descriptor(ValModel::Success(Some(Box::new(ValModel::Record(f)))), d),
    ensures
        web_descriptor_of(ValModel::Success(Some(Box::new(ValModel::Record(f.take(0)))))) == Err::<
            WebDescriptorModel,
            ContractFault,
        >(ContractFault::MissingField("entry"@)),
        web_descriptor_of(ValModel::Success(Some(Box::new(ValModel::Record(f.take(1)))))) == Err::<
            WebDescriptorModel,
            ContractFault,
        >(ContractFault::MissingField("features"@)),
        web_descriptor_of(ValModel::Success(Some(Box::new(ValModel::Record(f.take(2)))))) == Err::<
            WebDescriptorModel,
            ContractFault,
        >(ContractFault::MissingField("display-name"@)),
{
    law_web_descriptor_reads_as_its_form(ValModel::Success(Some(Box::new(ValModel::Record(f)))), d);
}

/// Law: of an asset that breaks off, the first field that it lacks is told.
pub proof fn law_asset_lacks_the_next_field(f: Seq<(Seq<char>, ValModel)>, a: AssetModel)
    requires
        is_asset(ValModel::Record(f), a),
    ensures
        asset_of(ValModel::Record(f)) == Ok::<AssetModel, ContractFault>(a),
        asset_of(ValModel::Record(f.take(0))) == Err::<AssetModel, ContractFault>(
            ContractFault::MissingField("path"@),
        ),
        asset_of(ValModel::Record(f.take(1))) == Err::<AssetModel, ContractFault>(
            ContractFault::MissingField("size"@),
        ),
        asset_of(ValModel::Record(f.take(2))) == Err::<AssetModel, ContractFault>(
            ContractFault::MissingField("content-type"@),
        ),
{
    lemma_asset(ValModel::Record(f), a);
}

} // verus!
