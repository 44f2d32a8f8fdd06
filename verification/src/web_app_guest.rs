//! What a web application declares: its permissions, pages and routes; and the
//! typed requests that its routes are handed.
use vstd::prelude::*;

use crate::contract;
use crate::contract::{
    as_flags, as_list, as_record, as_result_ok, enum_field, field, has_flag, option_display,
    option_name, string_field, wrapped_field, ContractFault, ContractValueError,
    MAX_COMPONENT_ID_LEN, MAX_DISPLAY_TEXT_LEN, MAX_WEB_ASSET_PATH_LEN,
};
use crate::guest;
use crate::guest::failure_case;
use crate::text::same_text;
use crate::val;
use crate::val::{
    bytes_of, entry, failure_val, opt_permission_name, opt_string, success_val, text_val, wrapped_val,
    Val, ValModel,
};
use crate::web_guest;
use crate::web_guest::{build_action_payload_val, push_flag, GuestActionPayload};

verus! {

/// Most permissions in one declaration.
pub const MAX_APP_PERMISSIONS_LEN: usize = 256;

/// Most pages in one declaration.
pub const MAX_APP_PAGES_LEN: usize = 512;

/// Most routes in one declaration.
pub const MAX_APP_ROUTES_LEN: usize = 1024;

/// Most parameters in the declaration of one route.
pub const MAX_APP_ROUTE_PARAMS_LEN: usize = 64;

/// Most parameters in one request.
pub const MAX_APP_REQUEST_PARAMS_LEN: usize = 64;

/// What a web application offers.
#[derive(Debug, Clone, Copy, PartialEq, Eq, Structural)]
pub struct GuestAppFeatures {
    pub static_assets: bool,
    pub backend_actions: bool,
    pub navigation: bool,
    pub typed_routes: bool,
    pub permissions: bool,
}

/// A permission that pages and routes may require.
#[derive(Debug, PartialEq, Eq)]
pub struct GuestPermissionDeclaration {
    pub name: String,
    pub description: Option<String>,
}

/// A page at a fixed path.
#[derive(Debug, PartialEq, Eq)]
pub struct GuestPageDeclaration {
    pub page_id: String,
    pub path: String,
    pub display_name: Option<String>,
    pub required_permission: Option<String>,
}

/// A parameter of a route: its name and the name of its type.
#[derive(Debug, PartialEq, Eq)]
pub struct GuestRouteParamDecl {
    pub name: String,
    pub value_type: String,
}

/// A route at a path template.
#[derive(Debug, PartialEq, Eq)]
pub struct GuestRouteDeclaration {
    pub route_id: String,
    pub method: String,
    pub path: String,
    pub params: Vec<GuestRouteParamDecl>,
    pub required_permission: Option<String>,
}

/// A web application's account of itself.
#[derive(Debug, PartialEq, Eq)]
pub struct GuestAppDescriptor {
    pub entry: String,
    pub features: GuestAppFeatures,
    pub display_name: Option<String>,
    pub permissions: Vec<GuestPermissionDeclaration>,
    pub pages: Vec<GuestPageDeclaration>,
    pub routes: Vec<GuestRouteDeclaration>,
    pub default_page: Option<String>,
}

pub struct PermissionModel {
    pub name: Seq<char>,
    pub description: Option<Seq<char>>,
}

pub struct PageModel {
    pub page_id: Seq<char>,
    pub path: Seq<char>,
    pub display_name: Option<Seq<char>>,
    pub required_permission: Option<Seq<char>>,
}

pub struct RouteParamModel {
    pub name: Seq<char>,
    pub value_type: Seq<char>,
}

pub struct RouteModel {
    pub route_id: Seq<char>,
    pub method: Seq<char>,
    pub path: Seq<char>,
    pub params: Seq<RouteParamModel>,
    pub required_permission: Option<Seq<char>>,
}

pub struct AppModel {
    pub entry: Seq<char>,
    pub features: GuestAppFeatures,
    pub display_name: Option<Seq<char>>,
    pub permissions: Seq<PermissionModel>,
    pub pages: Seq<PageModel>,
    pub routes: Seq<RouteModel>,
    pub default_page: Option<Seq<char>>,
}

/// An optional text is absent or at most `limit` bytes long.
pub open spec fn opt_fits(o: Option<String>, limit: usize) -> bool {
    o matches Some(t) ==> contract::byte_len(t@) <= limit
}

impl GuestPermissionDeclaration {
    pub open spec fn view(&self) -> PermissionModel {
        PermissionModel { name: self.name@, description: contract::opt_text(self.description) }
    }

    pub open spec fn fits(&self) -> bool {
        &&& contract::byte_len(self.name@) <= MAX_COMPONENT_ID_LEN
        &&& opt_fits(self.description, MAX_DISPLAY_TEXT_LEN)
    }

    pub open spec fn wire(&self) -> ValModel {
        ValModel::Record(
            seq![
                ("name"@, val::wrapped_model(self.name@)),
                ("description"@, val::opt_text_model(self.description)),
            ],
        )
    }
}

impl GuestPageDeclaration {
    pub open spec fn view(&self) -> PageModel {
        PageModel {
            page_id: self.page_id@,
            path: self.path@,
            display_name: contract::opt_text(self.display_name),
            required_permission: contract::opt_text(self.required_permission),
        }
    }

    pub open spec fn fits(&self) -> bool {
        &&& contract::byte_len(self.page_id@) <= MAX_COMPONENT_ID_LEN
        &&& contract::byte_len(self.path@) <= MAX_WEB_ASSET_PATH_LEN
        &&& opt_fits(self.display_name, MAX_DISPLAY_TEXT_LEN)
        &&& opt_fits(self.required_permission, MAX_COMPONENT_ID_LEN)
    }

    pub open spec fn wire(&self) -> ValModel {
        ValModel::Record(
            seq![
                ("page-id"@, val::wrapped_model(self.page_id@)),
                ("path"@, val::wrapped_model(self.path@)),
                ("display-name"@, val::opt_text_model(self.display_name)),
                ("required-permission"@, val::opt_wrapped_model(self.required_permission)),
            ],
        )
    }
}

impl GuestRouteParamDecl {
    pub open spec fn view(&self) -> RouteParamModel {
        RouteParamModel { name: self.name@, value_type: self.value_type@ }
    }

    pub open spec fn fits(&self) -> bool {
        contract::byte_len(self.name@) <= MAX_COMPONENT_ID_LEN
    }

    pub open spec fn wire(&self) -> ValModel {
        ValModel::Record(
            seq![
                ("name"@, ValModel::Text(self.name@)),
                ("value-type"@, ValModel::Enum(self.value_type@)),
            ],
        )
    }
}

pub open spec fn param_models(s: Seq<GuestRouteParamDecl>) -> Seq<RouteParamModel> {
    s.map_values(|p: GuestRouteParamDecl| p@)
}

pub open spec fn param_wires(s: Seq<GuestRouteParamDecl>) -> Seq<ValModel> {
    s.map_values(|p: GuestRouteParamDecl| p.wire())
}

impl GuestRouteDeclaration {
    pub open spec fn view(&self) -> RouteModel {
        RouteModel {
            route_id: self.route_id@,
            method: self.method@,
            path: self.path@,
            params: param_models(self.params@),
            required_permission: contract::opt_text(self.required_permission),
        }
    }

    pub open spec fn fits(&self) -> bool {
        &&& contract::byte_len(self.route_id@) <= MAX_COMPONENT_ID_LEN
        &&& contract::byte_len(self.path@) <= MAX_WEB_ASSET_PATH_LEN
        &&& self.params@.len() <= MAX_APP_ROUTE_PARAMS_LEN
        &&& forall|i: int| 0 <= i < self.params@.len() ==> (#[trigger] self.params@[i]).fits()
        &&& opt_fits(self.required_permission, MAX_COMPONENT_ID_LEN)
    }

    pub open spec fn wire(&self) -> ValModel {
        ValModel::Record(
            seq![
                ("route-id"@, val::wrapped_model(self.route_id@)),
                ("method"@, ValModel::Enum(self.method@)),
                ("path"@, val::wrapped_model(self.path@)),
                ("params"@, ValModel::List(param_wires(self.params@))),
                ("required-permission"@, val::opt_wrapped_model(self.required_permission)),
            ],
        )
    }
}

pub open spec fn permission_models(s: Seq<GuestPermissionDeclaration>) -> Seq<PermissionModel> {
    s.map_values(|p: GuestPermissionDeclaration| p@)
}

pub open spec fn permission_wires(s: Seq<GuestPermissionDeclaration>) -> Seq<ValModel> {
    s.map_values(|p: GuestPermissionDeclaration| p.wire())
}

pub open spec fn page_models(s: Seq<GuestPageDeclaration>) -> Seq<PageModel> {
    s.map_values(|p: GuestPageDeclaration| p@)
}

pub open spec fn page_wires(s: Seq<GuestPageDeclaration>) -> Seq<ValModel> {
    s.map_values(|p: GuestPageDeclaration| p.wire())
}

pub open spec fn route_models(s: Seq<GuestRouteDeclaration>) -> Seq<RouteModel> {
    s.map_values(|p: GuestRouteDeclaration| p@)
}

pub open spec fn route_wires(s: Seq<GuestRouteDeclaration>) -> Seq<ValModel> {
    s.map_values(|p: GuestRouteDeclaration| p.wire())
}

impl GuestAppFeatures {
    pub open spec fn wire(self) -> Seq<Seq<char>> {
        web_guest::flag_if(self.static_assets, "static-assets"@)
            + web_guest::flag_if(self.backend_actions, "backend-actions"@)
            + web_guest::flag_if(self.navigation, "navigation"@)
            + web_guest::flag_if(self.typed_routes, "typed-routes"@)
            + web_guest::flag_if(self.permissions, "permissions"@)
    }
}

impl GuestAppDescriptor {
    pub open spec fn view(&self) -> AppModel {
        AppModel {
            entry: self.entry@,
            features: self.features,
            display_name: contract::opt_text(self.display_name),
            permissions: permission_models(self.permissions@),
            pages: page_models(self.pages@),
            routes: route_models(self.routes@),
            default_page: contract::opt_text(self.default_page),
        }
    }

    pub open spec fn fits(&self) -> bool {
        &&& contract::byte_len(self.entry@) <= MAX_WEB_ASSET_PATH_LEN
        &&& opt_fits(self.display_name, MAX_DISPLAY_TEXT_LEN)
        &&& self.permissions@.len() <= MAX_APP_PERMISSIONS_LEN
        &&& forall|i: int| 0 <= i < self.permissions@.len() ==> (#[trigger] self.permissions@[i]).fits()
        &&& self.pages@.len() <= MAX_APP_PAGES_LEN
        &&& forall|i: int| 0 <= i < self.pages@.len() ==> (#[trigger] self.pages@[i]).fits()
        &&& self.routes@.len() <= MAX_APP_ROUTES_LEN
        &&& forall|i: int| 0 <= i < self.routes@.len() ==> (#[trigger] self.routes@[i]).fits()
        &&& opt_fits(self.default_page, MAX_COMPONENT_ID_LEN)
    }

    pub open spec fn fields_wire(&self) -> Seq<(Seq<char>, ValModel)> {
        seq![
            ("entry"@, val::wrapped_model(self.entry@)),
            ("features"@, ValModel::Flags(self.features.wire())),
            ("display-name"@, val::opt_text_model(self.display_name)),
            ("permissions"@, ValModel::List(permission_wires(self.permissions@))),
            ("pages"@, ValModel::List(page_wires(self.pages@))),
            ("routes"@, ValModel::List(route_wires(self.routes@))),
            ("default-page"@, val::opt_wrapped_model(self.default_page)),
        ]
    }

    pub open spec fn wire(&self) -> ValModel {
        ValModel::Success(Some(Box::new(ValModel::Record(self.fields_wire()))))
    }
}

pub open spec fn app_features_of(names: Seq<Seq<char>>) -> GuestAppFeatures {
    GuestAppFeatures {
        static_assets: names.contains("static-assets"@),
        backend_actions: names.contains("backend-actions"@),
        navigation: names.contains("navigation"@),
        typed_routes: names.contains("typed-routes"@),
        permissions: names.contains("permissions"@),
    }
}

/// At most `limit` items, each read by `read`.
pub open spec fn bounded_each<M>(
    list: Result<Seq<ValModel>, ContractFault>,
    field: Seq<char>,
    limit: usize,
    read: spec_fn(ValModel) -> Result<M, ContractFault>,
) -> Result<Seq<M>, ContractFault> {
    match list {
        Err(e) => Err(e),
        Ok(items) => if items.len() > limit {
            Err(ContractFault::ValueTooLarge { field, limit })
        } else {
            contract::each(items, read)
        },
    }
}

pub open spec fn permission_of(m: ValModel) -> Result<PermissionModel, ContractFault> {
    match contract::record_of(m, "permission-declaration"@) {
        Err(e) => Err(e),
        Ok(f) => {
            let name = contract::wrapped_field_of(f, 0, "name"@, "permission-name"@, MAX_COMPONENT_ID_LEN);
            let description = contract::option_display_of(
                f,
                1,
                "description"@,
                "permission-declaration.description"@,
            );
            if name is Err {
                Err(name->Err_0)
            } else if description is Err {
                Err(description->Err_0)
            } else {
                Ok(PermissionModel { name: name->Ok_0, description: description->Ok_0 })
            }
        },
    }
}

pub open spec fn permission_list_of(m: ValModel) -> Result<Seq<PermissionModel>, ContractFault> {
    bounded_each(
        contract::list_of(m, "permission-declaration list"@),
        "permissions"@,
        MAX_APP_PERMISSIONS_LEN,
        |v: ValModel| permission_of(v),
    )
}

pub open spec fn page_of(m: ValModel) -> Result<PageModel, ContractFault> {
    match contract::record_of(m, "page-declaration"@) {
        Err(e) => Err(e),
        Ok(f) => {
            let id = contract::wrapped_field_of(f, 0, "page-id"@, "page-id"@, MAX_COMPONENT_ID_LEN);
            let path = contract::wrapped_field_of(f, 1, "path"@, "page-path"@, MAX_WEB_ASSET_PATH_LEN);
            let name = contract::option_display_of(f, 2, "display-name"@, "page-declaration.display-name"@);
            let permission = contract::option_name_of(f, 3, "required-permission"@, "permission-name"@);
            if id is Err {
                Err(id->Err_0)
            } else if path is Err {
                Err(path->Err_0)
            } else if name is Err {
                Err(name->Err_0)
            } else if permission is Err {
                Err(permission->Err_0)
            } else {
                Ok(
                    PageModel {
                        page_id: id->Ok_0,
                        path: path->Ok_0,
                        display_name: name->Ok_0,
                        required_permission: permission->Ok_0,
                    },
                )
            }
        },
    }
}

pub open spec fn page_list_of(m: ValModel) -> Result<Seq<PageModel>, ContractFault> {
    bounded_each(
        contract::list_of(m, "page-declaration list"@),
        "pages"@,
        MAX_APP_PAGES_LEN,
        |v: ValModel| page_of(v),
    )
}

pub open spec fn route_param_of(m: ValModel) -> Result<RouteParamModel, ContractFault> {
    match contract::record_of(m, "route-param"@) {
        Err(e) => Err(e),
        Ok(f) => {
            let name = contract::text_field_of(f, 0, "name"@, MAX_COMPONENT_ID_LEN);
            let kind = contract::enum_field_of(f, 1, "value-type"@);
            if name is Err {
                Err(name->Err_0)
            } else if kind is Err {
                Err(kind->Err_0)
            } else {
                Ok(RouteParamModel { name: name->Ok_0, value_type: kind->Ok_0 })
            }
        },
    }
}

pub open spec fn route_params_of(m: ValModel) -> Result<Seq<RouteParamModel>, ContractFault> {
    bounded_each(
        contract::list_of(m, "params"@),
        "params"@,
        MAX_APP_ROUTE_PARAMS_LEN,
        |v: ValModel| route_param_of(v),
    )
}

pub open spec fn route_of(m: ValModel) -> Result<RouteModel, ContractFault> {
    match contract::record_of(m, "route-declaration"@) {
        Err(e) => Err(e),
        Ok(f) => {
            let id = contract::wrapped_field_of(f, 0, "route-id"@, "route-id"@, MAX_COMPONENT_ID_LEN);
            let method = contract::enum_field_of(f, 1, "method"@);
            let path = contract::wrapped_field_of(f, 2, "path"@, "path-template"@, MAX_WEB_ASSET_PATH_LEN);
            let params = match contract::field_of(f, 3, "params"@) {
                Err(e) => Err(e),
                Ok(v) => route_params_of(v),
            };
            let permission = contract::option_name_of(f, 4, "required-permission"@, "permission-name"@);
            if id is Err {
                Err(id->Err_0)
            } else if method is Err {
                Err(method->Err_0)
            } else if path is Err {
                Err(path->Err_0)
            } else if params is Err {
                Err(params->Err_0)
            } else if permission is Err {
                Err(permission->Err_0)
            } else {
                Ok(
                    RouteModel {
                        route_id: id->Ok_0,
                        method: method->Ok_0,
                        path: path->Ok_0,
                        params: params->Ok_0,
                        required_permission: permission->Ok_0,
                    },
                )
            }
        },
    }
}

pub open spec fn route_list_of(m: ValModel) -> Result<Seq<RouteModel>, ContractFault> {
    bounded_each(
        contract::list_of(m, "route-declaration list"@),
        "routes"@,
        MAX_APP_ROUTES_LEN,
        |v: ValModel| route_of(v),
    )
}

/// What a record says of a web application.
pub open spec fn app_fields_of(f: Seq<(Seq<char>, ValModel)>) -> Result<AppModel, ContractFault> {
    let entry = contract::wrapped_field_of(f, 0, "entry"@, "asset-path"@, MAX_WEB_ASSET_PATH_LEN);
    let features = match contract::field_of(f, 1, "features"@) {
        Err(e) => Err(e),
        Ok(v) => contract::flags_of(v, "app-features"@),
    };
    let name = contract::option_display_of(f, 2, "display-name"@, "app-descriptor.display-name"@);
    let permissions = match contract::field_of(f, 3, "permissions"@) {
        Err(e) => Err(e),
        Ok(v) => permission_list_of(v),
    };
    let pages = match contract::field_of(f, 4, "pages"@) {
        Err(e) => Err(e),
        Ok(v) => page_list_of(v),
    };
    let routes = match contract::field_of(f, 5, "routes"@) {
        Err(e) => Err(e),
        Ok(v) => route_list_of(v),
    };
    let page = contract::option_name_of(f, 6, "default-page"@, "page-id"@);
    if entry is Err {
        Err(entry->Err_0)
    } else if features is Err {
        Err(features->Err_0)
    } else if name is Err {
        Err(name->Err_0)
    } else if permissions is Err {
        Err(permissions->Err_0)
    } else if pages is Err {
        Err(pages->Err_0)
    } else if routes is Err {
        Err(routes->Err_0)
    } else if page is Err {
        Err(page->Err_0)
    } else {
        Ok(
            AppModel {
                entry: entry->Ok_0,
                features: app_features_of(features->Ok_0),
                display_name: name->Ok_0,
                permissions: permissions->Ok_0,
                pages: pages->Ok_0,
                routes: routes->Ok_0,
                default_page: page->Ok_0,
            },
        )
    }
}

/// What a returned value says of a web application. A flag that is absent is
/// off.
pub open spec fn app_descriptor_of(m: ValModel) -> Result<AppModel, ContractFault> {
    match contract::success_of(m, "get-app-descriptor"@) {
        Err(e) => Err(e),
        Ok(inner) => match contract::record_of(inner, "app-descriptor"@) {
            Err(e) => Err(e),
            Ok(f) => app_fields_of(f),
        },
    }
}

fn parse_permission(val: &Val) -> (r: Result<GuestPermissionDeclaration, ContractValueError>)
    ensures
        match r {
            Ok(p) => permission_of(val@) == Ok::<PermissionModel, ContractFault>(p@),
            Err(e) => permission_of(val@) == Err::<PermissionModel, ContractFault>(e@),
        },
{
    let fields = match as_record(val, "permission-declaration") {
        Ok(f) => f,
        Err(e) => return Err(e),
    };
    let name = match wrapped_field(fields, 0, "name", "permission-name", MAX_COMPONENT_ID_LEN) {
        Ok(t) => t,
        Err(e) => return Err(e),
    };
    match option_display(fields, 1, "description", "permission-declaration.description") {
        Ok(description) => Ok(GuestPermissionDeclaration { name, description }),
        Err(e) => Err(e),
    }
}

/// Reads the permissions of a web application.
pub fn parse_permission_list(val: &Val) -> (r: Result<Vec<GuestPermissionDeclaration>, ContractValueError>)
    ensures
        match r {
            Ok(l) => permission_list_of(val@) == Ok::<Seq<PermissionModel>, ContractFault>(
                permission_models(l@),
            ),
            Err(e) => permission_list_of(val@) == Err::<Seq<PermissionModel>, ContractFault>(e@),
        },
{
    let list = match as_list(val, "permission-declaration list") {
        Ok(l) => l,
        Err(e) => return Err(e),
    };
    if list.len() > MAX_APP_PERMISSIONS_LEN {
        return Err(
            ContractValueError::ValueTooLarge { field: "permissions", limit: MAX_APP_PERMISSIONS_LEN },
        );
    }
    let ghost items = val::list_model(list@);
    let ghost read = |v: ValModel| permission_of(v);
    let mut out: Vec<GuestPermissionDeclaration> = Vec::new();
    let mut i: usize = 0;
    assert(items.take(0) =~= Seq::empty());
    assert(permission_models(out@) =~= Seq::empty());
    while i < list.len()
        invariant
            i <= list.len(),
            items == val::list_model(list@),
            read == (|v: ValModel| permission_of(v)),
            contract::each(items.take(i as int), read) == Ok::<Seq<PermissionModel>, ContractFault>(
                permission_models(out@),
            ),
            permission_list_of(val@) == contract::each(items, read),
        decreases list.len() - i,
    {
        proof {
            assert(items.take(i + 1).drop_last() =~= items.take(i as int));
            assert(items.take(i + 1).last() == list@[i as int]@);
        }
        match parse_permission(&list[i]) {
            Ok(p) => {
                proof {
                    assert(permission_models(out@.push(p)) =~= permission_models(out@).push(p@));
                }
                out.push(p);
            },
            Err(e) => {
                proof {
                    contract::lemma_each_prefix_error(items, read, i + 1);
                }
                return Err(e);
            },
        }
        i = i + 1;
    }
    assert(items.take(i as int) =~= items);
    Ok(out)
}

fn parse_page(val: &Val) -> (r: Result<GuestPageDeclaration, ContractValueError>)
    ensures
        match r {
            Ok(p) => page_of(val@) == Ok::<PageModel, ContractFault>(p@),
            Err(e) => page_of(val@) == Err::<PageModel, ContractFault>(e@),
        },
{
    let fields = match as_record(val, "page-declaration") {
        Ok(f) => f,
        Err(e) => return Err(e),
    };
    let page_id = match wrapped_field(fields, 0, "page-id", "page-id", MAX_COMPONENT_ID_LEN) {
        Ok(t) => t,
        Err(e) => return Err(e),
    };
    let path = match wrapped_field(fields, 1, "path", "page-path", MAX_WEB_ASSET_PATH_LEN) {
        Ok(t) => t,
        Err(e) => return Err(e),
    };
    let display_name = match option_display(fields, 2, "display-name", "page-declaration.display-name") {
        Ok(t) => t,
        Err(e) => return Err(e),
    };
    match option_name(fields, 3, "required-permission", "permission-name") {
        Ok(required_permission) => Ok(
            GuestPageDeclaration { page_id, path, display_name, required_permission },
        ),
        Err(e) => Err(e),
    }
}

/// Reads the pages of a web application.
pub fn parse_page_list(val: &Val) -> (r: Result<Vec<GuestPageDeclaration>, ContractValueError>)
    ensures
        match r {
            Ok(l) => page_list_of(val@) == Ok::<Seq<PageModel>, ContractFault>(page_models(l@)),
            Err(e) => page_list_of(val@) == Err::<Seq<PageModel>, ContractFault>(e@),
        },
{
    let list = match as_list(val, "page-declaration list") {
        Ok(l) => l,
        Err(e) => return Err(e),
    };
    if list.len() > MAX_APP_PAGES_LEN {
        return Err(ContractValueError::ValueTooLarge { field: "pages", limit: MAX_APP_PAGES_LEN });
    }
    let ghost items = val::list_model(list@);
    let ghost read = |v: ValModel| page_of(v);
    let mut out: Vec<GuestPageDeclaration> = Vec::new();
    let mut i: usize = 0;
    assert(items.take(0) =~= Seq::empty());
    assert(page_models(out@) =~= Seq::empty());
    while i < list.len()
        invariant
            i <= list.len(),
            items == val::list_model(list@),
            read == (|v: ValModel| page_of(v)),
            contract::each(items.take(i as int), read) == Ok::<Seq<PageModel>, ContractFault>(
                page_models(out@),
            ),
            page_list_of(val@) == contract::each(items, read),
        decreases list.len() - i,
    {
        proof {
            assert(items.take(i + 1).drop_last() =~= items.take(i as int));
            assert(items.take(i + 1).last() == list@[i as int]@);
        }
        match parse_page(&list[i]) {
            Ok(p) => {
                proof {
                    assert(page_models(out@.push(p)) =~= page_models(out@).push(p@));
                }
                out.push(p);
            },
            Err(e) => {
                proof {
                    contract::lemma_each_prefix_error(items, read, i + 1);
                }
                return Err(e);
            },
        }
        i = i + 1;
    }
    assert(items.take(i as int) =~= items);
    Ok(out)
}

fn parse_route_param(val: &Val) -> (r: Result<GuestRouteParamDecl, ContractValueError>)
    ensures
        match r {
            Ok(p) => route_param_of(val@) == Ok::<RouteParamModel, ContractFault>(p@),
            Err(e) => route_param_of(val@) == Err::<RouteParamModel, ContractFault>(e@),
        },
{
    let fields = match as_record(val, "route-param") {
        Ok(f) => f,
        Err(e) => return Err(e),
    };
    let name = match string_field(fields, 0, "name", MAX_COMPONENT_ID_LEN) {
        Ok(t) => t,
        Err(e) => return Err(e),
    };
    match enum_field(fields, 1, "value-type") {
        Ok(value_type) => Ok(GuestRouteParamDecl { name, value_type }),
        Err(e) => Err(e),
    }
}

fn parse_route_params(val: &Val) -> (r: Result<Vec<GuestRouteParamDecl>, ContractValueError>)
    ensures
        match r {
            Ok(l) => route_params_of(val@) == Ok::<Seq<RouteParamModel>, ContractFault>(param_models(l@)),
            Err(e) => route_params_of(val@) == Err::<Seq<RouteParamModel>, ContractFault>(e@),
        },
{
    let list = match as_list(val, "params") {
        Ok(l) => l,
        Err(e) => return Err(e),
    };
    if list.len() > MAX_APP_ROUTE_PARAMS_LEN {
        return Err(
            ContractValueError::ValueTooLarge { field: "params", limit: MAX_APP_ROUTE_PARAMS_LEN },
        );
    }
    let ghost items = val::list_model(list@);
    let ghost read = |v: ValModel| route_param_of(v);
    let mut out: Vec<GuestRouteParamDecl> = Vec::new();
    let mut i: usize = 0;
    assert(items.take(0) =~= Seq::empty());
    assert(param_models(out@) =~= Seq::empty());
    while i < list.len()
        invariant
            i <= list.len(),
            items == val::list_model(list@),
            read == (|v: ValModel| route_param_of(v)),
            contract::each(items.take(i as int), read) == Ok::<Seq<RouteParamModel>, ContractFault>(
                param_models(out@),
            ),
            route_params_of(val@) == contract::each(items, read),
        decreases list.len() - i,
    {
        proof {
            assert(items.take(i + 1).drop_last() =~= items.take(i as int));
            assert(items.take(i + 1).last() == list@[i as int]@);
        }
        match parse_route_param(&list[i]) {
            Ok(p) => {
                proof {
                    assert(param_models(out@.push(p)) =~= param_models(out@).push(p@));
                }
                out.push(p);
            },
            Err(e) => {
                proof {
                    contract::lemma_each_prefix_error(items, read, i + 1);
                }
                return Err(e);
            },
        }
        i = i + 1;
    }
    assert(items.take(i as int) =~= items);
    Ok(out)
}

fn parse_route(val: &Val) -> (r: Result<GuestRouteDeclaration, ContractValueError>)
    ensures
        match r {
            Ok(p) => route_of(val@) == Ok::<RouteModel, ContractFault>(p@),
            Err(e) => route_of(val@) == Err::<RouteModel, ContractFault>(e@),
        },
{
    let fields = match as_record(val, "route-declaration") {
        Ok(f) => f,
        Err(e) => return Err(e),
    };
    let route_id = match wrapped_field(fields, 0, "route-id", "route-id", MAX_COMPONENT_ID_LEN) {
        Ok(t) => t,
        Err(e) => return Err(e),
    };
    let method = match enum_field(fields, 1, "method") {
        Ok(t) => t,
        Err(e) => return Err(e),
    };
    let path = match wrapped_field(fields, 2, "path", "path-template", MAX_WEB_ASSET_PATH_LEN) {
        Ok(t) => t,
        Err(e) => return Err(e),
    };
    let params_val = match field(fields, 3, "params") {
        Ok(v) => v,
        Err(e) => return Err(e),
    };
    let params = match parse_route_params(params_val) {
        Ok(p) => p,
        Err(e) => return Err(e),
    };
    match option_name(fields, 4, "required-permission", "permission-name") {
        Ok(required_permission) => Ok(
            GuestRouteDeclaration { route_id, method, path, params, required_permission },
        ),
        Err(e) => Err(e),
    }
}

/// Reads the routes of a web application.
pub fn parse_route_list(val: &Val) -> (r: Result<Vec<GuestRouteDeclaration>, ContractValueError>)
    ensures
        match r {
            Ok(l) => route_list_of(val@) == Ok::<Seq<RouteModel>, ContractFault>(route_models(l@)),
            Err(e) => route_list_of(val@) == Err::<Seq<RouteModel>, ContractFault>(e@),
        },
{
    let list = match as_list(val, "route-declaration list") {
        Ok(l) => l,
        Err(e) => return Err(e),
    };
    if list.len() > MAX_APP_ROUTES_LEN {
        return Err(ContractValueError::ValueTooLarge { field: "routes", limit: MAX_APP_ROUTES_LEN });
    }
    let ghost items = val::list_model(list@);
    let ghost read = |v: ValModel| route_of(v);
    let mut out: Vec<GuestRouteDeclaration> = Vec::new();
    let mut i: usize = 0;
    assert(items.take(0) =~= Seq::empty());
    assert(route_models(out@) =~= Seq::empty());
    while i < list.len()
        invariant
            i <= list.len(),
            items == val::list_model(list@),
            read == (|v: ValModel| route_of(v)),
            contract::each(items.take(i as int), read) == Ok::<Seq<RouteModel>, ContractFault>(
                route_models(out@),
            ),
            route_list_of(val@) == contract::each(items, read),
        decreases list.len() - i,
    {
        proof {
            assert(items.take(i + 1).drop_last() =~= items.take(i as int));
            assert(items.take(i + 1).last() == list@[i as int]@);
        }
        match parse_route(&list[i]) {
            Ok(p) => {
                proof {
                    assert(route_models(out@.push(p)) =~= route_models(out@).push(p@));
                }
                out.push(p);
            },
            Err(e) => {
                proof {
                    contract::lemma_each_prefix_error(items, read, i + 1);
                }
                return Err(e);
            },
        }
        i = i + 1;
    }
    assert(items.take(i as int) =~= items);
    Ok(out)
}

/// Reads what `get-app-descriptor` returned.
pub fn parse_app_descriptor_val(val: &Val) -> (r: Result<GuestAppDescriptor, ContractValueError>)
    ensures
        match r {
            Ok(d) => app_descriptor_of(val@) == Ok::<AppModel, ContractFault>(d@),
            Err(e) => app_descriptor_of(val@) == Err::<AppModel, ContractFault>(e@),
        },
{
    let inner = match as_result_ok(val, "get-app-descriptor") {
        Ok(v) => v,
        Err(e) => return Err(e),
    };
    let fields = match as_record(inner, "app-descriptor") {
        Ok(f) => f,
        Err(e) => return Err(e),
    };
    let entry = match wrapped_field(fields, 0, "entry", "asset-path", MAX_WEB_ASSET_PATH_LEN) {
        Ok(t) => t,
        Err(e) => return Err(e),
    };
    let features_val = match field(fields, 1, "features") {
        Ok(v) => v,
        Err(e) => return Err(e),
    };
    let names = match as_flags(features_val, "app-features") {
        Ok(n) => n,
        Err(e) => return Err(e),
    };
    let features = GuestAppFeatures {
        static_assets: has_flag(names, "static-assets"),
        backend_actions: has_flag(names, "backend-actions"),
        navigation: has_flag(names, "navigation"),
        typed_routes: has_flag(names, "typed-routes"),
        permissions: has_flag(names, "permissions"),
    };
    let display_name = match option_display(fields, 2, "display-name", "app-descriptor.display-name") {
        Ok(t) => t,
        Err(e) => return Err(e),
    };
    let permissions_val = match field(fields, 3, "permissions") {
        Ok(v) => v,
        Err(e) => return Err(e),
    };
    let permissions = match parse_permission_list(permissions_val) {
        Ok(l) => l,
        Err(e) => return Err(e),
    };
    let pages_val = match field(fields, 4, "pages") {
        Ok(v) => v,
        Err(e) => return Err(e),
    };
    let pages = match parse_page_list(pages_val) {
        Ok(l) => l,
        Err(e) => return Err(e),
    };
    let routes_val = match field(fields, 5, "routes") {
        Ok(v) => v,
        Err(e) => return Err(e),
    };
    let routes = match parse_route_list(routes_val) {
        Ok(l) => l,
        Err(e) => return Err(e),
    };
    match option_name(fields, 6, "default-page", "page-id") {
        Ok(default_page) => Ok(
            GuestAppDescriptor { entry, features, display_name, permissions, pages, routes, default_page },
        ),
        Err(e) => Err(e),
    }
}

fn build_permission_val(p: &GuestPermissionDeclaration) -> (r: Val)
    ensures
        r@ == p.wire(),
{
    let fields: Vec<(String, Val)> = vec![
        entry("name", wrapped_val(&p.name)),
        entry("description", opt_string(&p.description)),
    ];
    assert(p.wire()->Record_0 =~= val::record_model(fields@));
    Val::Record(fields)
}

fn build_page_val(p: &GuestPageDeclaration) -> (r: Val)
    ensures
        r@ == p.wire(),
{
    let fields: Vec<(String, Val)> = vec![
        entry("page-id", wrapped_val(&p.page_id)),
        entry("path", wrapped_val(&p.path)),
        entry("display-name", opt_string(&p.display_name)),
        entry("required-permission", opt_permission_name(&p.required_permission)),
    ];
    assert(p.wire()->Record_0 =~= val::record_model(fields@));
    Val::Record(fields)
}

fn build_route_param_val(p: &GuestRouteParamDecl) -> (r: Val)
    ensures
        r@ == p.wire(),
{
    let fields: Vec<(String, Val)> = vec![
        entry("name", text_val(&p.name)),
        entry("value-type", Val::Enum(p.value_type.clone())),
    ];
    assert(p.wire()->Record_0 =~= val::record_model(fields@));
    Val::Record(fields)
}

fn build_route_val(route: &GuestRouteDeclaration) -> (r: Val)
    ensures
        r@ == route.wire(),
{
    let mut params: Vec<Val> = Vec::new();
    let mut i: usize = 0;
    while i < route.params.len()
        invariant
            i <= route.params.len(),
            params.len() == i,
            forall|j: int| 0 <= j < i ==> (#[trigger] params@[j])@ == route.params@[j].wire(),
        decreases route.params.len() - i,
    {
        params.push(build_route_param_val(&route.params[i]));
        i = i + 1;
    }
    assert(val::list_model(params@) =~= param_wires(route.params@));
    let params_val = Val::List(params);
    assert(params_val@ == ValModel::List(param_wires(route.params@)));
    let fields: Vec<(String, Val)> = vec![
        entry("route-id", wrapped_val(&route.route_id)),
        entry("method", Val::Enum(route.method.clone())),
        entry("path", wrapped_val(&route.path)),
        entry("params", params_val),
        entry("required-permission", opt_permission_name(&route.required_permission)),
    ];
    assert(route.wire()->Record_0 =~= val::record_model(fields@));
    Val::Record(fields)
}

fn build_permissions_val(list: &Vec<GuestPermissionDeclaration>) -> (r: Val)
    ensures
        r@ == ValModel::List(permission_wires(list@)),
{
    let mut items: Vec<Val> = Vec::new();
    let mut i: usize = 0;
    while i < list.len()
        invariant
            i <= list.len(),
            items.len() == i,
            forall|j: int| 0 <= j < i ==> (#[trigger] items@[j])@ == list@[j].wire(),
        decreases list.len() - i,
    {
        items.push(build_permission_val(&list[i]));
        i = i + 1;
    }
    assert(val::list_model(items@) =~= permission_wires(list@));
    Val::List(items)
}

fn build_pages_val(list: &Vec<GuestPageDeclaration>) -> (r: Val)
    ensures
        r@ == ValModel::List(page_wires(list@)),
{
    let mut items: Vec<Val> = Vec::new();
    let mut i: usize = 0;
    while i < list.len()
        invariant
            i <= list.len(),
            items.len() == i,
            forall|j: int| 0 <= j < i ==> (#[trigger] items@[j])@ == list@[j].wire(),
        decreases list.len() - i,
    {
        items.push(build_page_val(&list[i]));
        i = i + 1;
    }
    assert(val::list_model(items@) =~= page_wires(list@));
    Val::List(items)
}

fn build_routes_val(list: &Vec<GuestRouteDeclaration>) -> (r: Val)
    ensures
        r@ == ValModel::List(route_wires(list@)),
{
    let mut items: Vec<Val> = Vec::new();
    let mut i: usize = 0;
    while i < list.len()
        invariant
            i <= list.len(),
            items.len() == i,
            forall|j: int| 0 <= j < i ==> (#[trigger] items@[j])@ == list@[j].wire(),
        decreases list.len() - i,
    {
        items.push(build_route_val(&list[i]));
        i = i + 1;
    }
    assert(val::list_model(items@) =~= route_wires(list@));
    Val::List(items)
}

/// The value that a guest returns for `descriptor`.
pub fn build_app_descriptor_val(descriptor: &GuestAppDescriptor) -> (r: Val)
    ensures
        r@ == descriptor.wire(),
{
    let mut flags: Vec<String> = Vec::new();
    assert(val::names_model(flags@) =~= Seq::empty());
    push_flag(&mut flags, descriptor.features.static_assets, "static-assets");
    push_flag(&mut flags, descriptor.features.backend_actions, "backend-actions");
    push_flag(&mut flags, descriptor.features.navigation, "navigation");
    push_flag(&mut flags, descriptor.features.typed_routes, "typed-routes");
    push_flag(&mut flags, descriptor.features.permissions, "permissions");
    assert(val::names_model(flags@) =~= descriptor.features.wire());
    let fields: Vec<(String, Val)> = vec![
        entry("entry", wrapped_val(&descriptor.entry)),
        entry("features", Val::Flags(flags)),
        entry("display-name", opt_string(&descriptor.display_name)),
        entry("permissions", build_permissions_val(&descriptor.permissions)),
        entry("pages", build_pages_val(&descriptor.pages)),
        entry("routes", build_routes_val(&descriptor.routes)),
        entry("default-page", opt_permission_name(&descriptor.default_page)),
    ];
    assert(descriptor.fields_wire() =~= val::record_model(fields@));
    success_val(Val::Record(fields))
}

proof fn lemma_features_roundtrip(f: GuestAppFeatures)
    ensures
        app_features_of(f.wire()) == f,
{
    reveal_strlit("static-assets");
    reveal_strlit("backend-actions");
    reveal_strlit("navigation");
    reveal_strlit("typed-routes");
    reveal_strlit("permissions");
    assert("static-assets"@.len() == 13);
    assert("backend-actions"@.len() == 15);
    assert("navigation"@.len() == 10);
    assert("typed-routes"@.len() == 12);
    assert("permissions"@.len() == 11);
    let a = web_guest::flag_if(f.static_assets, "static-assets"@);
    let b = web_guest::flag_if(f.backend_actions, "backend-actions"@);
    let c = web_guest::flag_if(f.navigation, "navigation"@);
    let d = web_guest::flag_if(f.typed_routes, "typed-routes"@);
    let e = web_guest::flag_if(f.permissions, "permissions"@);
    assert forall|x: Seq<char>|
        f.wire().contains(x) == ((f.static_assets && x == "static-assets"@) || (f.backend_actions && x
            == "backend-actions"@) || (f.navigation && x == "navigation"@) || (f.typed_routes && x
            == "typed-routes"@) || (f.permissions && x == "permissions"@)) by {
        web_guest::lemma_contains_concat(a, b, x);
        web_guest::lemma_contains_concat(a + b, c, x);
        web_guest::lemma_contains_concat(a + b + c, d, x);
        web_guest::lemma_contains_concat(a + b + c + d, e, x);
        web_guest::lemma_flag_if(f.static_assets, "static-assets"@, x);
        web_guest::lemma_flag_if(f.backend_actions, "backend-actions"@, x);
        web_guest::lemma_flag_if(f.navigation, "navigation"@, x);
        web_guest::lemma_flag_if(f.typed_routes, "typed-routes"@, x);
        web_guest::lemma_flag_if(f.permissions, "permissions"@, x);
    }
}

proof fn lemma_route_roundtrip(d: GuestRouteDeclaration)
    requires
        d.fits(),
    ensures
        route_of(d.wire()) == Ok::<RouteModel, ContractFault>(d@),
{
    let items = param_wires(d.params@);
    let read = |v: ValModel| route_param_of(v);
    assert forall|i: int| 0 <= i < items.len() implies read(#[trigger] items[i]) == Ok::<
        RouteParamModel,
        ContractFault,
    >(param_models(d.params@)[i]) by {
        assert(d.params@[i].fits());
        assert(items[i] == d.params@[i].wire());
    }
    contract::lemma_each_reads(items, read, param_models(d.params@));
    assert(route_params_of(ValModel::List(items)) == Ok::<Seq<RouteParamModel>, ContractFault>(
        param_models(d.params@),
    ));
}

/// Law: an application's descriptor within the host's limits comes back
/// unchanged from its wire form.
pub proof fn law_app_descriptor_roundtrip(d: GuestAppDescriptor)
    requires
        d.fits(),
    ensures
        app_descriptor_of(d.wire()) == Ok::<AppModel, ContractFault>(d@),
{
    lemma_features_roundtrip(d.features);
    let permissions = permission_wires(d.permissions@);
    let read_permission = |v: ValModel| permission_of(v);
    assert forall|i: int| 0 <= i < permissions.len() implies read_permission(#[trigger] permissions[i])
        == Ok::<PermissionModel, ContractFault>(permission_models(d.permissions@)[i]) by {
        assert(d.permissions@[i].fits());
        assert(permissions[i] == d.permissions@[i].wire());
    }
    contract::lemma_each_reads(permissions, read_permission, permission_models(d.permissions@));
    let pages = page_wires(d.pages@);
    let read_page = |v: ValModel| page_of(v);
    assert forall|i: int| 0 <= i < pages.len() implies read_page(#[trigger] pages[i]) == Ok::<
        PageModel,
        ContractFault,
    >(page_models(d.pages@)[i]) by {
        assert(d.pages@[i].fits());
        assert(pages[i] == d.pages@[i].wire());
    }
    contract::lemma_each_reads(pages, read_page, page_models(d.pages@));
    let routes = route_wires(d.routes@);
    let read_route = |v: ValModel| route_of(v);
    assert forall|i: int| 0 <= i < routes.len() implies read_route(#[trigger] routes[i]) == Ok::<
        RouteModel,
        ContractFault,
    >(route_models(d.routes@)[i]) by {
        assert(d.routes@[i].fits());
        assert(routes[i] == d.routes@[i].wire());
        lemma_route_roundtrip(d.routes@[i]);
    }
    contract::lemma_each_reads(routes, read_route, route_models(d.routes@));
    assert(permission_list_of(ValModel::List(permissions)) == Ok::<Seq<PermissionModel>, ContractFault>(
        permission_models(d.permissions@),
    ));
    assert(page_list_of(ValModel::List(pages)) == Ok::<Seq<PageModel>, ContractFault>(
        page_models(d.pages@),
    ));
    assert(route_list_of(ValModel::List(routes)) == Ok::<Seq<RouteModel>, ContractFault>(
        route_models(d.routes@),
    ));
    assert(app_fields_of(d.fields_wire()) == Ok::<AppModel, ContractFault>(d@));
}

/// Why a guest could not describe its web application.
#[derive(Debug, Clone, Copy, PartialEq, Eq, Structural)]
pub enum GuestAppDescriptorError {
    Malformed,
    UnsupportedContractVersion,
    RouteIdConflict,
    PageIdConflict,
    PathConflict,
    InvalidPathTemplate,
    ParamMismatch,
    InvalidPermission,
    Internal,
}

impl GuestAppDescriptorError {
    pub open spec fn spec_name(self) -> Seq<char> {
        match self {
            GuestAppDescriptorError::Malformed => "malformed"@,
            GuestAppDescriptorError::UnsupportedContractVersion => "unsupported-contract-version"@,
            GuestAppDescriptorError::RouteIdConflict => "route-id-conflict"@,
            GuestAppDescriptorError::PageIdConflict => "page-id-conflict"@,
            GuestAppDescriptorError::PathConflict => "path-conflict"@,
            GuestAppDescriptorError::InvalidPathTemplate => "invalid-path-template"@,
            GuestAppDescriptorError::ParamMismatch => "param-mismatch"@,
            GuestAppDescriptorError::InvalidPermission => "invalid-permission"@,
            GuestAppDescriptorError::Internal => "internal"@,
        }
    }

    /// The case's name on the wire.
    pub fn name(self) -> (r: &'static str)
        ensures
            r@ == self.spec_name(),
    {
        match self {
            GuestAppDescriptorError::Malformed => "malformed",
            GuestAppDescriptorError::UnsupportedContractVersion => "unsupported-contract-version",
            GuestAppDescriptorError::RouteIdConflict => "route-id-conflict",
            GuestAppDescriptorError::PageIdConflict => "page-id-conflict",
            GuestAppDescriptorError::PathConflict => "path-conflict",
            GuestAppDescriptorError::InvalidPathTemplate => "invalid-path-template",
            GuestAppDescriptorError::ParamMismatch => "param-mismatch",
            GuestAppDescriptorError::InvalidPermission => "invalid-permission",
            GuestAppDescriptorError::Internal => "internal",
        }
    }
}

/// Law: no two application descriptor errors share a name.
pub proof fn law_app_descriptor_error_names_differ(
    a: GuestAppDescriptorError,
    b: GuestAppDescriptorError,
)
    requires
        a.spec_name() == b.spec_name(),
    ensures
        a == b,
{
    reveal_strlit("malformed");
    reveal_strlit("unsupported-contract-version");
    reveal_strlit("route-id-conflict");
    reveal_strlit("page-id-conflict");
    reveal_strlit("path-conflict");
    reveal_strlit("invalid-path-template");
    reveal_strlit("param-mismatch");
    reveal_strlit("invalid-permission");
    reveal_strlit("internal");
    assert("malformed"@.len() == 9);
    assert("unsupported-contract-version"@.len() == 28);
    assert("route-id-conflict"@.len() == 17);
    assert("page-id-conflict"@.len() == 16);
    assert("path-conflict"@.len() == 13);
    assert("invalid-path-template"@.len() == 21);
    assert("param-mismatch"@.len() == 14);
    assert("invalid-permission"@.len() == 18);
    assert("internal"@.len() == 8);
}

/// The value that a guest returns for `error`.
pub fn build_app_descriptor_error_val(error: GuestAppDescriptorError) -> (r: Val)
    ensures
        r@ == ValModel::Failure(Some(Box::new(ValModel::Enum(error.spec_name())))),
{
    failure_val(error.name())
}

/// Reads the error that `get-app-descriptor` returned.
pub fn parse_app_descriptor_error_val(val: &Val) -> (r: Result<GuestAppDescriptorError, ContractValueError>)
    ensures
        match (guest::failure_case_of(val@, "get-app-descriptor"@, "app-descriptor-error"@), r) {
            (Err(fault), Err(e)) => e@ == fault,
            (Ok(n), Ok(e)) => e.spec_name() == n,
            (Ok(n), Err(e)) => e@ == ContractFault::InvalidVariant(n)
                && forall|c: GuestAppDescriptorError| #[trigger] c.spec_name() != n,
            (Err(_), Ok(_)) => false,
        },
{
    match failure_case(val, "get-app-descriptor", "app-descriptor-error") {
        Err(e) => Err(e),
        Ok(name) => {
            let n: &str = name.as_str();
            if same_text(n, "malformed") {
                Ok(GuestAppDescriptorError::Malformed)
            } else if same_text(n, "unsupported-contract-version") {
                Ok(GuestAppDescriptorError::UnsupportedContractVersion)
            } else if same_text(n, "route-id-conflict") {
                Ok(GuestAppDescriptorError::RouteIdConflict)
            } else if same_text(n, "page-id-conflict") {
                Ok(GuestAppDescriptorError::PageIdConflict)
            } else if same_text(n, "path-conflict") {
                Ok(GuestAppDescriptorError::PathConflict)
            } else if same_text(n, "invalid-path-template") {
                Ok(GuestAppDescriptorError::InvalidPathTemplate)
            } else if same_text(n, "param-mismatch") {
                Ok(GuestAppDescriptorError::ParamMismatch)
            } else if same_text(n, "invalid-permission") {
                Ok(GuestAppDescriptorError::InvalidPermission)
            } else if same_text(n, "internal") {
                Ok(GuestAppDescriptorError::Internal)
            } else {
                Err(ContractValueError::InvalidVariant(name.clone()))
            }
        },
    }
}

/// The type of a route's parameter.
#[derive(Debug, Clone, Copy, PartialEq, Eq, Structural)]
pub enum ParamType {
    Text,
    Integer,
    Unsigned,
    Boolean,
    Decimal,
}

/// The value of a route's parameter. A decimal is held by the bits of its
/// double.
#[derive(Debug, PartialEq, Eq)]
pub enum GuestParamValue {
    Text(String),
    Integer(i64),
    Unsigned(u64),
    Boolean(bool),
    Decimal(u64),
}

impl GuestParamValue {
    /// The type of the value.
    pub fn param_type(&self) -> (r: ParamType)
        ensures
            r is Text <==> self is Text,
            r is Integer <==> self is Integer,
            r is Unsigned <==> self is Unsigned,
            r is Boolean <==> self is Boolean,
            r is Decimal <==> self is Decimal,
    {
        match self {
            GuestParamValue::Text(_) => ParamType::Text,
            GuestParamValue::Integer(_) => ParamType::Integer,
            GuestParamValue::Unsigned(_) => ParamType::Unsigned,
            GuestParamValue::Boolean(_) => ParamType::Boolean,
            GuestParamValue::Decimal(_) => ParamType::Decimal,
        }
    }

    pub open spec fn wire(&self) -> ValModel {
        match *self {
            GuestParamValue::Text(t) => ValModel::Variant("text"@, Some(Box::new(ValModel::Text(t@)))),
            GuestParamValue::Integer(n) => ValModel::Variant("integer"@, Some(Box::new(ValModel::S64(n)))),
            GuestParamValue::Unsigned(n) => ValModel::Variant("unsigned"@, Some(Box::new(ValModel::U64(n)))),
            GuestParamValue::Boolean(b) => ValModel::Variant("boolean"@, Some(Box::new(ValModel::Bool(b)))),
            GuestParamValue::Decimal(d) => ValModel::Variant("decimal"@, Some(Box::new(ValModel::Float64(d)))),
        }
    }
}

/// A named parameter of a request.
#[derive(Debug, PartialEq, Eq)]
pub struct GuestTypedParam {
    pub name: String,
    pub value: GuestParamValue,
}

impl GuestTypedParam {
    pub open spec fn wire(&self) -> ValModel {
        ValModel::Record(seq![("name"@, ValModel::Text(self.name@)), ("value"@, self.value.wire())])
    }
}

/// A request to a route. It has no place for credentials.
#[derive(Debug, PartialEq, Eq)]
pub struct GuestRouteRequest {
    pub route_id: String,
    pub params: Vec<GuestTypedParam>,
    pub payload: Option<GuestActionPayload>,
}

pub open spec fn payload_wire(p: Option<GuestActionPayload>) -> ValModel {
    match p {
        Some(p) => ValModel::Option(Some(Box::new(p.wire()))),
        None => ValModel::Option(None),
    }
}

impl GuestRouteRequest {
    pub open spec fn wire(&self) -> ValModel {
        ValModel::Record(
            seq![
                ("route-id"@, val::wrapped_model(self.route_id@)),
                ("params"@, ValModel::List(self.params@.map_values(|p: GuestTypedParam| p.wire()))),
                ("payload"@, payload_wire(self.payload)),
            ],
        )
    }
}

/// Why a route failed.
#[derive(Debug, Clone, Copy, PartialEq, Eq, Structural)]
pub enum GuestRouteError {
    NotFound,
    InvalidParams,
    InvalidPayload,
    Internal,
}

/// The value that stands for a parameter's value.
pub fn build_param_value_val(value: &GuestParamValue) -> (r: Val)
    ensures
        r@ == value.wire(),
{
    match value {
        GuestParamValue::Text(t) => Val::Variant("text".to_owned(), Some(Box::new(text_val(t)))),
        GuestParamValue::Integer(n) => {
            let inner = Val::S64(*n);
            assert(inner@ == ValModel::S64(*n));
            Val::Variant("integer".to_owned(), Some(Box::new(inner)))
        },
        GuestParamValue::Unsigned(n) => {
            let inner = Val::U64(*n);
            assert(inner@ == ValModel::U64(*n));
            Val::Variant("unsigned".to_owned(), Some(Box::new(inner)))
        },
        GuestParamValue::Boolean(b) => {
            let inner = Val::Bool(*b);
            assert(inner@ == ValModel::Bool(*b));
            Val::Variant("boolean".to_owned(), Some(Box::new(inner)))
        },
        GuestParamValue::Decimal(d) => {
            let inner = Val::Float64(*d);
            assert(inner@ == ValModel::Float64(*d));
            Val::Variant("decimal".to_owned(), Some(Box::new(inner)))
        },
    }
}

fn build_typed_param_val(p: &GuestTypedParam) -> (r: Val)
    ensures
        r@ == p.wire(),
{
    let fields: Vec<(String, Val)> = vec![
        entry("name", text_val(&p.name)),
        entry("value", build_param_value_val(&p.value)),
    ];
    assert(p.wire()->Record_0 =~= val::record_model(fields@));
    Val::Record(fields)
}

/// The value that a guest is handed for `request`.
pub fn build_route_request_val(request: &GuestRouteRequest) -> (r: Val)
    ensures
        r@ == request.wire(),
{
    let mut params: Vec<Val> = Vec::new();
    let mut i: usize = 0;
    while i < request.params.len()
        invariant
            i <= request.params.len(),
            params.len() == i,
            forall|j: int| 0 <= j < i ==> (#[trigger] params@[j])@ == request.params@[j].wire(),
        decreases request.params.len() - i,
    {
        params.push(build_typed_param_val(&request.params[i]));
        i = i + 1;
    }
    assert(val::list_model(params@) =~= request.params@.map_values(|p: GuestTypedParam| p.wire()));
    let params_val = Val::List(params);
    assert(params_val@ == ValModel::List(request.params@.map_values(|p: GuestTypedParam| p.wire())));
    let payload = match &request.payload {
        Some(p) => Val::Option(Some(Box::new(build_action_payload_val(p)))),
        None => Val::Option(None),
    };
    assert(payload@ == payload_wire(request.payload));
    let fields: Vec<(String, Val)> = vec![
        entry("route-id", wrapped_val(&request.route_id)),
        entry("params", params_val),
        entry("payload", payload),
    ];
    assert(request.wire()->Record_0 =~= val::record_model(fields@));
    Val::Record(fields)
}

/// What a returned value says of a route: its bytes, or why it failed. A value
/// of another shape is an invalid payload, an unknown failure internal.
pub open spec fn route_result_of(m: ValModel) -> Result<Seq<u8>, GuestRouteError> {
    match m {
        ValModel::Success(Some(inner)) => match *inner {
            ValModel::List(items) => match val::byte_items(items) {
                Some(bytes) => Ok(bytes),
                None => Err(GuestRouteError::InvalidPayload),
            },
            _ => Err(GuestRouteError::InvalidPayload),
        },
        ValModel::Failure(Some(inner)) => match *inner {
            ValModel::Enum(name) => if name == "not-found"@ {
                Err(GuestRouteError::NotFound)
            } else if name == "invalid-params"@ {
                Err(GuestRouteError::InvalidParams)
            } else if name == "invalid-payload"@ {
                Err(GuestRouteError::InvalidPayload)
            } else {
                Err(GuestRouteError::Internal)
            },
            _ => Err(GuestRouteError::InvalidPayload),
        },
        _ => Err(GuestRouteError::InvalidPayload),
    }
}

/// Reads what `handle-route` returned.
pub fn parse_route_result_val(val: &Val) -> (r: Result<Vec<u8>, GuestRouteError>)
    ensures
        match r {
            Ok(b) => route_result_of(val@) == Ok::<Seq<u8>, GuestRouteError>(b@),
            Err(e) => route_result_of(val@) == Err::<Seq<u8>, GuestRouteError>(e),
        },
{
    match val {
        Val::Result(Ok(Some(inner))) => match &**inner {
            Val::List(items) => {
                assert(inner@ == ValModel::List(val::list_model(items@)));
                match bytes_of(items) {
                    Some(bytes) => Ok(bytes),
                    None => Err(GuestRouteError::InvalidPayload),
                }
            },
            _ => Err(GuestRouteError::InvalidPayload),
        },
        Val::Result(Err(Some(inner))) => match &**inner {
            Val::Enum(name) => {
                assert(inner@ == ValModel::Enum(name@));
                if same_text(name.as_str(), "not-found") {
                    Err(GuestRouteError::NotFound)
                } else if same_text(name.as_str(), "invalid-params") {
                    Err(GuestRouteError::InvalidParams)
                } else if same_text(name.as_str(), "invalid-payload") {
                    Err(GuestRouteError::InvalidPayload)
                } else {
                    Err(GuestRouteError::Internal)
                }
            },
            _ => Err(GuestRouteError::InvalidPayload),
        },
        _ => Err(GuestRouteError::InvalidPayload),
    }
}

/// The field at place `i` is an optional short name.
pub open spec fn is_opt_name(f: Seq<(Seq<char>, ValModel)>, i: int, name: Seq<char>, o: Option<Seq<char>>) -> bool {
    &&& 0 <= i < f.len()
    &&& f[i].0 == name
    &&& match o {
        None => f[i].1 == ValModel::Option(None),
        Some(t) => f[i].1 matches ValModel::Option(Some(b)) && (*b matches ValModel::Record(inner) && inner.len()
            > 0 && inner[0] == ("value"@, ValModel::Text(t))) && vstd::utf8::encode_utf8(t).len() <= 255,
    }
}

proof fn lemma_opt_name(f: Seq<(Seq<char>, ValModel)>, i: int, name: Seq<char>, what: Seq<char>, o: Option<Seq<char>>)
    ensures
        contract::option_name_of(f, i, name, what) == Ok::<Option<Seq<char>>, ContractFault>(o) <==> is_opt_name(
            f,
            i,
            name,
            o,
        ),
{
    let t = if o is Some {
        o->0
    } else {
        Seq::empty()
    };
    contract::law_optional_texts_are_read_within_their_limits(f, i, name, what, t);
}

proof fn lemma_opt_display(
    f: Seq<(Seq<char>, ValModel)>,
    i: int,
    name: Seq<char>,
    what: Seq<char>,
    o: Option<Seq<char>>,
)
    ensures
        contract::option_display_of(f, i, name, what) == Ok::<Option<Seq<char>>, ContractFault>(o)
            <==> guest::is_opt_text(f, i, name, o),
{
    let t = if o is Some {
        o->0
    } else {
        Seq::empty()
    };
    contract::law_optional_texts_are_read_within_their_limits(f, i, name, what, t);
}

/// A value in the form of a permission.
pub open spec fn is_permission(m: ValModel, p: PermissionModel) -> bool {
    &&& m matches ValModel::Record(f)
    &&& web_guest::is_wrapped(f, 0, "name"@, p.name, 255)
    &&& guest::is_opt_text(f, 1, "description"@, p.description)
}

/// A value in the form of a page.
pub open spec fn is_page(m: ValModel, p: PageModel) -> bool {
    &&& m matches ValModel::Record(f)
    &&& web_guest::is_wrapped(f, 0, "page-id"@, p.page_id, 255)
    &&& web_guest::is_wrapped(f, 1, "path"@, p.path, 4096)
    &&& guest::is_opt_text(f, 2, "display-name"@, p.display_name)
    &&& is_opt_name(f, 3, "required-permission"@, p.required_permission)
}

/// A value in the form of a route's parameter.
pub open spec fn is_route_param(m: ValModel, p: RouteParamModel) -> bool {
    &&& m matches ValModel::Record(f)
    &&& f.len() >= 2
    &&& f[0] == ("name"@, ValModel::Text(p.name))
    &&& vstd::utf8::encode_utf8(p.name).len() <= 255
    &&& f[1] == ("value-type"@, ValModel::Enum(p.value_type))
}

/// A value in the form of a route.
pub open spec fn is_route(m: ValModel, r: RouteModel) -> bool {
    &&& m matches ValModel::Record(f)
    &&& f.len() >= 5
    &&& web_guest::is_wrapped(f, 0, "route-id"@, r.route_id, 255)
    &&& f[1] == ("method"@, ValModel::Enum(r.method))
    &&& web_guest::is_wrapped(f, 2, "path"@, r.path, 4096)
    &&& f[3].0 == "params"@
    &&& f[3].1 matches ValModel::List(items)
    &&& items.len() <= 64
    &&& items.len() == r.params.len()
    &&& forall|i: int| 0 <= i < items.len() ==> is_route_param(#[trigger] items[i], r.params[i])
    &&& is_opt_name(f, 4, "required-permission"@, r.required_permission)
}

proof fn lemma_permission(m: ValModel, p: PermissionModel)
    ensures
        permission_of(m) == Ok::<PermissionModel, ContractFault>(p) <==> is_permission(m, p),
{
    if m is Record {
        let f = m->Record_0;
        web_guest::lemma_wrapped(f, 0, "name"@, "permission-name"@, p.name, MAX_COMPONENT_ID_LEN);
        lemma_opt_display(f, 1, "description"@, "permission-declaration.description"@, p.description);
    }
}

proof fn lemma_page(m: ValModel, p: PageModel)
    ensures
        page_of(m) == Ok::<PageModel, ContractFault>(p) <==> is_page(m, p),
{
    if m is Record {
        let f = m->Record_0;
        web_guest::lemma_wrapped(f, 0, "page-id"@, "page-id"@, p.page_id, MAX_COMPONENT_ID_LEN);
        web_guest::lemma_wrapped(f, 1, "path"@, "page-path"@, p.path, MAX_WEB_ASSET_PATH_LEN);
        lemma_opt_display(f, 2, "display-name"@, "page-declaration.display-name"@, p.display_name);
        lemma_opt_name(f, 3, "required-permission"@, "permission-name"@, p.required_permission);
    }
}

proof fn lemma_route_param(m: ValModel, p: RouteParamModel)
    ensures
        route_param_of(m) == Ok::<RouteParamModel, ContractFault>(p) <==> is_route_param(m, p),
{
    if m is Record {
        let f = m->Record_0;
        contract::law_text_is_read_within_its_limit(f, 0, "name"@, MAX_COMPONENT_ID_LEN, p.name);
    }
}

proof fn lemma_bounded<M>(
    list: Result<Seq<ValModel>, ContractFault>,
    field: Seq<char>,
    limit: usize,
    read: spec_fn(ValModel) -> Result<M, ContractFault>,
    models: Seq<M>,
)
    ensures
        bounded_each(list, field, limit, read) == Ok::<Seq<M>, ContractFault>(models) <==> (list matches Ok(items)
            && {
            &&& items.len() <= limit
            &&& items.len() == models.len()
            &&& forall|i: int|
                0 <= i < items.len() ==> read(#[trigger] items[i]) == Ok::<M, ContractFault>(models[i])
        }),
{
    if list is Ok {
        let items = list->Ok_0;
        contract::law_items_are_read_all_or_none(items, read);
        if items.len() == models.len() && forall|i: int|
            0 <= i < items.len() ==> read(#[trigger] items[i]) == Ok::<M, ContractFault>(models[i]) {
            contract::lemma_each_reads(items, read, models);
        }
    }
}

proof fn lemma_params(m: ValModel, params: Seq<RouteParamModel>)
    ensures
        route_params_of(m) == Ok::<Seq<RouteParamModel>, ContractFault>(params) <==> (m matches ValModel::List(
            items,
        ) && items.len() <= 64 && items.len() == params.len() && forall|i: int|
            0 <= i < items.len() ==> is_route_param(#[trigger] items[i], params[i])),
{
    let list = contract::list_of(m, "params"@);
    let read = |v: ValModel| route_param_of(v);
    lemma_bounded(list, "params"@, MAX_APP_ROUTE_PARAMS_LEN, read, params);
    if m is List {
        let items = m->List_0;
        assert forall|i: int| 0 <= i < items.len() implies (read(#[trigger] items[i]) == Ok::<
            RouteParamModel,
            ContractFault,
        >(params[i])) == is_route_param(items[i], params[i]) by {
            lemma_route_param(items[i], params[i]);
        }
    }
}

proof fn lemma_route(m: ValModel, r: RouteModel)
    ensures
        route_of(m) == Ok::<RouteModel, ContractFault>(r) <==> is_route(m, r),
{
    if m is Record {
        let f = m->Record_0;
        web_guest::lemma_wrapped(f, 0, "route-id"@, "route-id"@, r.route_id, MAX_COMPONENT_ID_LEN);
        web_guest::lemma_wrapped(f, 2, "path"@, "path-template"@, r.path, MAX_WEB_ASSET_PATH_LEN);
        lemma_params(f[3].1, r.params);
        lemma_opt_name(f, 4, "required-permission"@, "permission-name"@, r.required_permission);
    }
}

/// Law: permissions, pages, parameters and routes each read exactly where the value
/// has their form, with every text within its limit.
pub proof fn law_declarations_read_as_their_forms(
    m: ValModel,
    permission: PermissionModel,
    page: PageModel,
    param: RouteParamModel,
    route: RouteModel,
)
    ensures
        permission_of(m) == Ok::<PermissionModel, ContractFault>(permission) <==> is_permission(m, permission),
        page_of(m) == Ok::<PageModel, ContractFault>(page) <==> is_page(m, page),
        route_param_of(m) == Ok::<RouteParamModel, ContractFault>(param) <==> is_route_param(m, param),
        route_of(m) == Ok::<RouteModel, ContractFault>(route) <==> is_route(m, route),
{
    lemma_permission(m, permission);
    lemma_page(m, page);
    lemma_route_param(m, param);
    lemma_route(m, route);
}

/// A value that lists permissions.
pub open spec fn lists_permissions(m: ValModel, all: Seq<PermissionModel>) -> bool {
    &&& m matches ValModel::List(items)
    &&& items.len() <= 256
    &&& items.len() == all.len()
    &&& forall|i: int| 0 <= i < items.len() ==> is_permission(#[trigger] items[i], all[i])
}

/// A value that lists pages.
pub open spec fn lists_pages(m: ValModel, all: Seq<PageModel>) -> bool {
    &&& m matches ValModel::List(items)
    &&& items.len() <= 512
    &&& items.len() == all.len()
    &&& forall|i: int| 0 <= i < items.len() ==> is_page(#[trigger] items[i], all[i])
}

/// A value that lists routes.
pub open spec fn lists_routes(m: ValModel, all: Seq<RouteModel>) -> bool {
    &&& m matches ValModel::List(items)
    &&& items.len() <= 1024
    &&& items.len() == all.len()
    &&& forall|i: int| 0 <= i < items.len() ==> is_route(#[trigger] items[i], all[i])
}

proof fn lemma_permissions(m: ValModel, all: Seq<PermissionModel>)
    ensures
        permission_list_of(m) == Ok::<Seq<PermissionModel>, ContractFault>(all) <==> lists_permissions(m, all),
{
    let read = |v: ValModel| permission_of(v);
    lemma_bounded(
        contract::list_of(m, "permission-declaration list"@),
        "permissions"@,
        MAX_APP_PERMISSIONS_LEN,
        read,
        all,
    );
    if m is List {
        let items = m->List_0;
        assert forall|i: int| 0 <= i < items.len() implies (read(#[trigger] items[i]) == Ok::<
            PermissionModel,
            ContractFault,
        >(all[i])) == is_permission(items[i], all[i]) by {
            lemma_permission(items[i], all[i]);
        }
    }
}

proof fn lemma_pages(m: ValModel, all: Seq<PageModel>)
    ensures
        page_list_of(m) == Ok::<Seq<PageModel>, ContractFault>(all) <==> lists_pages(m, all),
{
    let read = |v: ValModel| page_of(v);
    lemma_bounded(contract::list_of(m, "page-declaration list"@), "pages"@, MAX_APP_PAGES_LEN, read, all);
    if m is List {
        let items = m->List_0;
        assert forall|i: int| 0 <= i < items.len() implies (read(#[trigger] items[i]) == Ok::<
            PageModel,
            ContractFault,
        >(all[i])) == is_page(items[i], all[i]) by {
            lemma_page(items[i], all[i]);
        }
    }
}

proof fn lemma_routes(m: ValModel, all: Seq<RouteModel>)
    ensures
        route_list_of(m) == Ok::<Seq<RouteModel>, ContractFault>(all) <==> lists_routes(m, all),
{
    let read = |v: ValModel| route_of(v);
    lemma_bounded(contract::list_of(m, "route-declaration list"@), "routes"@, MAX_APP_ROUTES_LEN, read, all);
    if m is List {
        let items = m->List_0;
        assert forall|i: int| 0 <= i < items.len() implies (read(#[trigger] items[i]) == Ok::<
            RouteModel,
            ContractFault,
        >(all[i])) == is_route(items[i], all[i]) by {
            lemma_route(items[i], all[i]);
        }
    }
}

/// A returned value in the form of a web application's descriptor.
pub open spec fn is_app_descriptor(m: ValModel, d: AppModel) -> bool {
    &&& m matches ValModel::Success(Some(b))
    &&& *b matches ValModel::Record(f)
    &&& f.len() >= 7
    &&& web_guest::is_wrapped(f, 0, "entry"@, d.entry, 4096)
    &&& f[1].0 == "features"@
    &&& f[1].1 matches ValModel::Flags(names)
    &&& d.features.static_assets <==> names.contains("static-assets"@)
    &&& d.features.backend_actions <==> names.contains("backend-actions"@)
    &&& d.features.navigation <==> names.contains("navigation"@)
    &&& d.features.typed_routes <==> names.contains("typed-routes"@)
    &&& d.features.permissions <==> names.contains("permissions"@)
    &&& guest::is_opt_text(f, 2, "display-name"@, d.display_name)
    &&& f[3].0 == "permissions"@
    &&& lists_permissions(f[3].1, d.permissions)
    &&& f[4].0 == "pages"@
    &&& lists_pages(f[4].1, d.pages)
    &&& f[5].0 == "routes"@
    &&& lists_routes(f[5].1, d.routes)
    &&& is_opt_name(f, 6, "default-page"@, d.default_page)
}

/// Law: a returned value reads as a web application's account exactly where it has
/// that form: the entry, the flags by their names, the display name, the three
/// lists item by item and in order, each no longer than its limit, and the default
/// page.
pub proof fn law_app_descriptor_reads_as_its_form(m: ValModel, d: AppModel)
    ensures
        app_descriptor_of(m) == Ok::<AppModel, ContractFault>(d) <==> is_app_descriptor(m, d),
{
    if m matches ValModel::Success(Some(b)) && *b is Record {
        let f = (*(m->Success_0->0))->Record_0;
        web_guest::lemma_wrapped(f, 0, "entry"@, "asset-path"@, d.entry, MAX_WEB_ASSET_PATH_LEN);
        lemma_opt_display(f, 2, "display-name"@, "app-descriptor.display-name"@, d.display_name);
        lemma_permissions(f[3].1, d.permissions);
        lemma_pages(f[4].1, d.pages);
        lemma_routes(f[5].1, d.routes);
        lemma_opt_name(f, 6, "default-page"@, "page-id"@, d.default_page);
    }
}

/// Law: a route gives its bytes exactly where it succeeded with a list of bytes. A
/// failure is told as the guest names it, as internal for every case that the
/// contract does not have, and any other value is an invalid payload.
pub proof fn law_route_result_reads_as_returned(m: ValModel, bytes: Seq<u8>)
    ensures
        route_result_of(m) == Ok::<Seq<u8>, GuestRouteError>(bytes) <==> (m matches ValModel::Success(Some(b)) && (
        *b matches ValModel::List(items) && val::byte_items(items) == Some(bytes))),
        route_result_of(m) == Err::<Seq<u8>, GuestRouteError>(GuestRouteError::NotFound) <==> (
        m matches ValModel::Failure(Some(b)) && *b == ValModel::Enum("not-found"@)),
        route_result_of(m) == Err::<Seq<u8>, GuestRouteError>(GuestRouteError::InvalidParams) <==> (
        m matches ValModel::Failure(Some(b)) && *b == ValModel::Enum("invalid-params"@)),
        route_result_of(m) == Err::<Seq<u8>, GuestRouteError>(GuestRouteError::Internal) <==> (
        m matches ValModel::Failure(Some(b)) && (*b matches ValModel::Enum(name) && name != "not-found"@ && name
            != "invalid-params"@ && name != "invalid-payload"@)),
{
    reveal_strlit("not-found");
    reveal_strlit("invalid-params");
    reveal_strlit("invalid-payload");
    assert("not-found"@.len() == 9);
    assert("invalid-params"@.len() == 14);
    assert("invalid-payload"@.len() == 15);
}

/// Law: a request to a route is written with its route, its parameters in order and
/// its payload, each under its name; a parameter with its name and its value under
/// the name of its type.
pub proof fn law_route_request_is_written_by_name(r: GuestRouteRequest)
    ensures
        r.wire() matches ValModel::Record(f) && {
            &&& f.len() == 3
            &&& f[0].0 == "route-id"@
            &&& f[0].1 matches ValModel::Record(id)
            &&& id.len() == 1
            &&& id[0] == ("value"@, ValModel::Text(r.route_id@))
            &&& f[1].0 == "params"@
            &&& f[1].1 matches ValModel::List(params)
            &&& params.len() == r.params@.len()
            &&& forall|i: int|
                0 <= i < params.len() ==> (#[trigger] params[i] matches ValModel::Record(p) && {
                    &&& p.len() == 2
                    &&& p[0] == ("name"@, ValModel::Text(r.params@[i].name@))
                    &&& p[1].0 == "value"@
                    &&& match r.params@[i].value {
                        GuestParamValue::Text(t) => p[1].1 matches ValModel::Variant(n, Some(b)) && n == "text"@
                            && *b == ValModel::Text(t@),
                        GuestParamValue::Integer(x) => p[1].1 matches ValModel::Variant(n, Some(b)) && n
                            == "integer"@ && *b == ValModel::S64(x),
                        GuestParamValue::Unsigned(x) => p[1].1 matches ValModel::Variant(n, Some(b)) && n
                            == "unsigned"@ && *b == ValModel::U64(x),
                        GuestParamValue::Boolean(x) => p[1].1 matches ValModel::Variant(n, Some(b)) && n
                            == "boolean"@ && *b == ValModel::Bool(x),
                        GuestParamValue::Decimal(x) => p[1].1 matches ValModel::Variant(n, Some(b)) && n
                            == "decimal"@ && *b == ValModel::Float64(x),
                    }
                })
            &&& f[2].0 == "payload"@
            &&& r.payload is None ==> f[2].1 == ValModel::Option(None)
            &&& r.payload matches Some(p) ==> (f[2].1 matches ValModel::Option(Some(b)) && *b == p.wire())
        },
{
}

/// Law: each error of an application's descriptor has the name that the contract
/// gives it.
pub proof fn law_app_errors_have_their_names(a: GuestAppDescriptorError)
    ensures
        a == GuestAppDescriptorError::Malformed ==> a.spec_name() == "malformed"@,
        a == GuestAppDescriptorError::UnsupportedContractVersion ==> a.spec_name()
            == "unsupported-contract-version"@,
        a == GuestAppDescriptorError::RouteIdConflict ==> a.spec_name() == "route-id-conflict"@,
        a == GuestAppDescriptorError::PageIdConflict ==> a.spec_name() == "page-id-conflict"@,
        a == GuestAppDescriptorError::PathConflict ==> a.spec_name() == "path-conflict"@,
        a == GuestAppDescriptorError::InvalidPathTemplate ==> a.spec_name() == "invalid-path-template"@,
        a == GuestAppDescriptorError::ParamMismatch ==> a.spec_name() == "param-mismatch"@,
        a == GuestAppDescriptorError::InvalidPermission ==> a.spec_name() == "invalid-permission"@,
        a == GuestAppDescriptorError::Internal ==> a.spec_name() == "internal"@,
{
}

/// Law: of a permission, a page, a parameter or a route that breaks off, the first
/// field that it lacks is told: fields are looked for in the order in which they are
/// written.
pub proof fn law_declarations_lack_the_next_field(
    f: Seq<(Seq<char>, ValModel)>,
    permission: PermissionModel,
    page: PageModel,
    param: RouteParamModel,
    route: RouteModel,
)
    ensures
        is_permission(ValModel::Record(f), permission) ==> {
            &&& permission_of(ValModel::Record(f.take(0))) == Err::<PermissionModel, ContractFault>(
                ContractFault::MissingField("name"@),
            )
            &&& permission_of(ValModel::Record(f.take(1))) == Err::<PermissionModel, ContractFault>(
                ContractFault::MissingField("description"@),
            )
        },
        is_page(ValModel::Record(f), page) ==> {
            &&& page_of(ValModel::Record(f.take(0))) == Err::<PageModel, ContractFault>(
                ContractFault::MissingField("page-id"@),
            )
            &&& page_of(ValModel::Record(f.take(1))) == Err::<PageModel, ContractFault>(
                ContractFault::MissingField("path"@),
            )
            &&& page_of(ValModel::Record(f.take(2))) == Err::<PageModel, ContractFault>(
                ContractFault::MissingField("display-name"@),
            )
            &&& page_of(ValModel::Record(f.take(3))) == Err::<PageModel, ContractFault>(
                ContractFault::MissingField("required-permission"@),
            )
        },
        is_route_param(ValModel::Record(f), param) ==> {
            &&& route_param_of(ValModel::Record(f.take(0))) == Err::<RouteParamModel, ContractFault>(
                ContractFault::MissingField("name"@),
            )
            &&& route_param_of(ValModel::Record(f.take(1))) == Err::<RouteParamModel, ContractFault>(
                ContractFault::MissingField("value-type"@),
            )
        },
        is_route(ValModel::Record(f), route) ==> {
            &&& route_of(ValModel::Record(f.take(0))) == Err::<RouteModel, ContractFault>(
                ContractFault::MissingField("route-id"@),
            )
            &&& route_of(ValModel::Record(f.take(1))) == Err::<RouteModel, ContractFault>(
                ContractFault::MissingField("method"@),
            )
            &&& route_of(ValModel::Record(f.take(2))) == Err::<RouteModel, ContractFault>(
                ContractFault::MissingField("path"@),
            )
            &&& route_of(ValModel::Record(f.take(3))) == Err::<RouteModel, ContractFault>(
                ContractFault::MissingField("params"@),
            )
            &&& route_of(ValModel::Record(f.take(4))) == Err::<RouteModel, ContractFault>(
                ContractFault::MissingField("required-permission"@),
            )
        },
{
    lemma_permission(ValModel::Record(f), permission);
    lemma_page(ValModel::Record(f), page);
    lemma_route_param(ValModel::Record(f), param);
    lemma_route(ValModel::Record(f), route);
}

/// The fields of a web application's descriptor, in the order in which they are
/// read.
pub open spec fn app_field(k: int) -> Seq<char> {
    if k == 0 {
        "entry"@
    } else if k == 1 {
        "features"@
    } else if k == 2 {
        "display-name"@
    } else if k == 3 {
        "permissions"@
    } else if k == 4 {
        "pages"@
    } else if k == 5 {
        "routes"@
    } else {
        "default-page"@
    }
}

/// Law: of a web application's account that breaks off, the first field that it
/// lacks is told.
pub proof fn law_app_descriptor_lacks_the_next_field(f: Seq<(Seq<char>, ValModel)>, d: AppModel, k: int)
    requires
        is_app_descriptor(ValModel::Success(Some(Box::new(ValModel::Record(f)))), d),
        0 <= k < 7,
    ensures
        app_descriptor_of(ValModel::Success(Some(Box::new(ValModel::Record(f.take(k)))))) == Err::<
            AppModel,
            ContractFault,
        >(ContractFault::MissingField(app_field(k))),
{
    let g = f.take(k);
    law_app_descriptor_reads_as_its_form(ValModel::Success(Some(Box::new(ValModel::Record(f)))), d);
    assert forall|i: int| 0 <= i < k implies g[i] == f[i] by {}
}

/// Law: a list that is longer than its limit is told so, before any of its items is
/// read.
pub proof fn law_overlong_lists_are_told(items: Seq<ValModel>)
    ensures
        items.len() > 256 ==> permission_list_of(ValModel::List(items)) == Err::<
            Seq<PermissionModel>,
            ContractFault,
        >(ContractFault::ValueTooLarge { field: "permissions"@, limit: 256 }),
        items.len() > 512 ==> page_list_of(ValModel::List(items)) == Err::<Seq<PageModel>, ContractFault>(
            ContractFault::ValueTooLarge { field: "pages"@, limit: 512 },
        ),
        items.len() > 1024 ==> route_list_of(ValModel::List(items)) == Err::<Seq<RouteModel>, ContractFault>(
            ContractFault::ValueTooLarge { field: "routes"@, limit: 1024 },
        ),
        items.len() > 64 ==> route_params_of(ValModel::List(items)) == Err::<Seq<RouteParamModel>, ContractFault>(
            ContractFault::ValueTooLarge { field: "params"@, limit: 64 },
        ),
{
}

} // verus!
