//! The values that guests exchange with the host.
use operune_application::contract::{
    ContractValueError, MAX_ASSET_LIST_LEN, MAX_COMPONENT_ID_LEN, MAX_DISPLAY_TEXT_LEN,
};
use operune_application::guest::{
    build_component_descriptor_val, build_descriptor_error_val, build_state_declaration_error_val,
    build_state_declaration_val, parse_component_descriptor_val, parse_descriptor_error_val,
    parse_state_declaration_error_val, parse_state_declaration_val, GuestAuthorInfo,
    GuestComponentDescriptor, GuestDescriptorError, GuestStateDeclaration,
    GuestStateDeclarationError,
};
use operune_application::val::Val;
use operune_application::web_app_guest::{
    build_app_descriptor_error_val, build_app_descriptor_val, build_route_request_val,
    parse_app_descriptor_error_val, parse_app_descriptor_val, parse_route_result_val,
    GuestAppDescriptor, GuestAppDescriptorError, GuestAppFeatures, GuestPageDeclaration,
    GuestParamValue, GuestPermissionDeclaration, GuestRouteDeclaration, GuestRouteError,
    GuestRouteParamDecl, GuestRouteRequest, GuestTypedParam, ParamType, MAX_APP_ROUTES_LEN,
};
use operune_application::web_guest::{
    build_action_request_val, build_asset_list_val, build_web_descriptor_val,
    parse_action_result_val, parse_asset_list_val, parse_web_descriptor_val, GuestActionError,
    GuestActionPayload, GuestActionRequest, GuestAssetMetadata, GuestWebDescriptor,
    GuestWebFeatures,
};

fn descriptor(component_id: &str) -> GuestComponentDescriptor {
    GuestComponentDescriptor {
        component_id: component_id.to_owned(),
        major: 1,
        minor: 2,
        patch: 3,
        display_name: "Example".to_owned(),
        author: Some(GuestAuthorInfo {
            display_name: "Author".to_owned(),
            homepage: Some("https://example.invalid".to_owned()),
            description: None,
        }),
    }
}

fn text(value: &str) -> Val {
    Val::String(value.to_owned())
}

fn wrapped(value: &str) -> Val {
    Val::Record(vec![("value".to_owned(), text(value))])
}

fn success(inner: Val) -> Val {
    Val::Result(Ok(Some(Box::new(inner))))
}

fn failure(name: &str) -> Val {
    Val::Result(Err(Some(Box::new(Val::Enum(name.to_owned())))))
}

#[test]
fn component_descriptor_val_roundtrip() {
    let original = descriptor("my-component");
    let val = build_component_descriptor_val(&original);
    let parsed = match parse_component_descriptor_val(&val) {
        Ok(parsed) => parsed,
        Err(e) => panic!("parse failed: {}", e.message()),
    };
    assert_eq!(parsed, original);
}

#[test]
fn component_descriptor_rejects_missing_field() {
    let val = success(Val::Record(vec![("component-id".to_owned(), wrapped("x"))]));
    assert!(parse_component_descriptor_val(&val).is_err());
}

#[test]
fn component_descriptor_rejects_oversized_id() {
    let val = build_component_descriptor_val(&descriptor(&"x".repeat(MAX_COMPONENT_ID_LEN + 1)));
    let result = parse_component_descriptor_val(&val);
    assert!(
        matches!(result, Err(ContractValueError::ValueTooLarge { field: "value", .. })),
        "oversized component-id must be rejected"
    );
}

#[test]
fn component_descriptor_takes_the_longest_id() {
    let val = build_component_descriptor_val(&descriptor(&"x".repeat(MAX_COMPONENT_ID_LEN)));
    assert!(parse_component_descriptor_val(&val).is_ok());
    let wide = "\u{e9}".repeat(MAX_COMPONENT_ID_LEN / 2 + 1);
    let val = build_component_descriptor_val(&descriptor(&wide));
    assert!(parse_component_descriptor_val(&val).is_err());
}

#[test]
fn display_texts_are_bounded() {
    let with = |homepage: usize, description: usize| {
        let mut told = descriptor("c");
        told.author = Some(GuestAuthorInfo {
            display_name: "A".to_owned(),
            homepage: Some("x".repeat(homepage)),
            description: Some("x".repeat(description)),
        });
        parse_component_descriptor_val(&build_component_descriptor_val(&told))
    };
    assert!(with(MAX_DISPLAY_TEXT_LEN, MAX_DISPLAY_TEXT_LEN).is_ok());
    assert_eq!(
        with(1, MAX_DISPLAY_TEXT_LEN + 1),
        Err(ContractValueError::ValueTooLarge { field: "description", limit: 2048 })
    );
    assert_eq!(
        with(MAX_DISPLAY_TEXT_LEN + 1, 1),
        Err(ContractValueError::ValueTooLarge { field: "homepage", limit: 2048 })
    );
    let front = |name: usize| {
        parse_web_descriptor_val(&build_web_descriptor_val(&GuestWebDescriptor {
            entry: "/index.html".to_owned(),
            features: GuestWebFeatures { static_assets: true, backend_actions: false },
            display_name: Some("x".repeat(name)),
        }))
    };
    assert!(front(MAX_DISPLAY_TEXT_LEN).is_ok());
    assert_eq!(
        front(MAX_DISPLAY_TEXT_LEN + 1),
        Err(ContractValueError::ValueTooLarge { field: "display-name", limit: 2048 })
    );
}

#[test]
fn descriptor_error_val_parses() {
    let val = build_descriptor_error_val(GuestDescriptorError::Malformed);
    match parse_descriptor_error_val(&val) {
        Ok(GuestDescriptorError::Malformed) => {}
        Ok(other) => panic!("unexpected error: {other:?}"),
        Err(e) => panic!("parse failed: {}", e.message()),
    }
}

#[test]
fn state_declaration_val_roundtrip() {
    let original =
        GuestStateDeclaration { name: Some("Demo State".to_owned()), schema_version: 2 };
    let val = build_state_declaration_val(&original);
    let parsed = match parse_state_declaration_val(&val) {
        Ok(parsed) => parsed,
        Err(e) => panic!("parse failed: {}", e.message()),
    };
    assert_eq!(parsed, original);
}

#[test]
fn state_declaration_unnamed_roundtrip() {
    let original = GuestStateDeclaration { name: None, schema_version: 0 };
    let val = build_state_declaration_val(&original);
    let parsed = match parse_state_declaration_val(&val) {
        Ok(parsed) => parsed,
        Err(e) => panic!("parse failed: {}", e.message()),
    };
    assert_eq!(parsed, original);
}

#[test]
fn state_declaration_rejects_missing_schema_version() {
    let val = success(Val::Record(vec![("name".to_owned(), Val::Option(None))]));
    assert!(parse_state_declaration_val(&val).is_err());
}

#[test]
fn state_declaration_rejects_oversized_name() {
    let val = build_state_declaration_val(&GuestStateDeclaration {
        name: Some("x".repeat(MAX_DISPLAY_TEXT_LEN + 1)),
        schema_version: 1,
    });
    let result = parse_state_declaration_val(&val);
    assert!(
        matches!(result, Err(ContractValueError::ValueTooLarge { field: "name", .. })),
        "oversized declaration name must be rejected"
    );
}

#[test]
fn state_declaration_error_val_parses() {
    let val =
        build_state_declaration_error_val(GuestStateDeclarationError::UnsupportedContractVersion);
    match parse_state_declaration_error_val(&val) {
        Ok(GuestStateDeclarationError::UnsupportedContractVersion) => {}
        Ok(other) => panic!("unexpected error: {other:?}"),
        Err(e) => panic!("parse failed: {}", e.message()),
    }
}

#[test]
fn web_descriptor_val_roundtrip() {
    let original = GuestWebDescriptor {
        entry: "/index.html".to_owned(),
        features: GuestWebFeatures { static_assets: true, backend_actions: true },
        display_name: Some("Example UI".to_owned()),
    };
    let val = build_web_descriptor_val(&original);
    let parsed = match parse_web_descriptor_val(&val) {
        Ok(parsed) => parsed,
        Err(e) => panic!("parse failed: {}", e.message()),
    };
    assert_eq!(parsed, original);
}

#[test]
fn web_descriptor_flags_missing_means_false() {
    let val = success(Val::Record(vec![
        ("entry".to_owned(), wrapped("/a")),
        ("features".to_owned(), Val::Flags(vec![])),
        ("display-name".to_owned(), Val::Option(None)),
    ]));
    let parsed = match parse_web_descriptor_val(&val) {
        Ok(parsed) => parsed,
        Err(e) => panic!("parse failed: {}", e.message()),
    };
    assert!(!parsed.features.static_assets);
    assert!(!parsed.features.backend_actions);
}

#[test]
fn asset_list_val_roundtrip() {
    let original = vec![
        GuestAssetMetadata {
            path: "/index.html".to_owned(),
            size: 42,
            content_type: Some("text/html".to_owned()),
        },
        GuestAssetMetadata { path: "/app.js".to_owned(), size: 0, content_type: None },
    ];
    let val = build_asset_list_val(&original);
    let parsed = match parse_asset_list_val(&val) {
        Ok(parsed) => parsed,
        Err(e) => panic!("parse failed: {}", e.message()),
    };
    assert_eq!(parsed, original);
}

#[test]
fn asset_list_rejects_oversized_manifest() {
    let assets: Vec<GuestAssetMetadata> = (0..MAX_ASSET_LIST_LEN + 1)
        .map(|i| GuestAssetMetadata { path: format!("/a{i}"), size: 1, content_type: None })
        .collect();
    let val = build_asset_list_val(&assets);
    assert!(parse_asset_list_val(&val).is_err());
}

#[test]
fn action_request_val_roundtrip() {
    let original = GuestActionRequest {
        action: "run-check".to_owned(),
        payload: GuestActionPayload::Json("{\"a\":1}".to_owned()),
    };
    let val = build_action_request_val(&original);
    match &val {
        Val::Record(fields) => {
            assert_eq!(fields.len(), 2);
            assert_eq!(fields[0].0, "action");
            assert_eq!(fields[1].0, "payload");
        }
        other => panic!("unexpected val shape: {other:?}"),
    }
}

#[test]
fn action_result_val_parses() {
    let ok_val = success(Val::List(vec![1u8, 2, 3].into_iter().map(Val::U8).collect()));
    assert_eq!(
        match parse_action_result_val(&ok_val) {
            Ok(bytes) => bytes,
            Err(e) => panic!("parse failed: {e:?}"),
        },
        vec![1u8, 2, 3]
    );
    assert_eq!(parse_action_result_val(&failure("not-found")), Err(GuestActionError::NotFound));
}

#[test]
fn action_result_rejects_non_byte_list() {
    let val = success(Val::List(vec![Val::U32(1)]));
    assert_eq!(parse_action_result_val(&val), Err(GuestActionError::InvalidPayload));
}

#[test]
fn action_failures_keep_to_their_cases() {
    assert_eq!(
        parse_action_result_val(&failure("invalid-payload")),
        Err(GuestActionError::InvalidPayload)
    );
    assert_eq!(parse_action_result_val(&failure("bogus")), Err(GuestActionError::Internal));
    assert_eq!(
        parse_action_result_val(&Val::Result(Ok(None))),
        Err(GuestActionError::InvalidPayload)
    );
}

fn sample_app_descriptor() -> GuestAppDescriptor {
    GuestAppDescriptor {
        entry: "/index.html".to_owned(),
        features: GuestAppFeatures {
            static_assets: true,
            backend_actions: true,
            navigation: true,
            typed_routes: true,
            permissions: true,
        },
        display_name: Some("Example UI".to_owned()),
        permissions: vec![
            GuestPermissionDeclaration {
                name: "view".to_owned(),
                description: Some("可以查看".to_owned()),
            },
            GuestPermissionDeclaration { name: "admin".to_owned(), description: None },
        ],
        pages: vec![
            GuestPageDeclaration {
                page_id: "home".to_owned(),
                path: "/home".to_owned(),
                display_name: Some("Home".to_owned()),
                required_permission: None,
            },
            GuestPageDeclaration {
                page_id: "admin".to_owned(),
                path: "/admin".to_owned(),
                display_name: None,
                required_permission: Some("admin".to_owned()),
            },
        ],
        routes: vec![
            GuestRouteDeclaration {
                route_id: "get-item".to_owned(),
                method: "get".to_owned(),
                path: "/api/{id}".to_owned(),
                params: vec![GuestRouteParamDecl {
                    name: "id".to_owned(),
                    value_type: "integer".to_owned(),
                }],
                required_permission: None,
            },
            GuestRouteDeclaration {
                route_id: "create-item".to_owned(),
                method: "post".to_owned(),
                path: "/api/items".to_owned(),
                params: vec![GuestRouteParamDecl {
                    name: "label".to_owned(),
                    value_type: "text".to_owned(),
                }],
                required_permission: Some("admin".to_owned()),
            },
        ],
        default_page: Some("home".to_owned()),
    }
}

#[test]
fn app_descriptor_val_roundtrip() {
    let original = sample_app_descriptor();
    let val = build_app_descriptor_val(&original);
    let parsed = match parse_app_descriptor_val(&val) {
        Ok(parsed) => parsed,
        Err(e) => panic!("parse failed: {}", e.message()),
    };
    assert_eq!(parsed, original);
}

#[test]
fn app_descriptor_flags_missing_means_false() {
    let original = GuestAppDescriptor {
        features: GuestAppFeatures {
            static_assets: true,
            backend_actions: true,
            navigation: false,
            typed_routes: false,
            permissions: false,
        },
        ..sample_app_descriptor()
    };
    let val = build_app_descriptor_val(&original);
    let parsed = match parse_app_descriptor_val(&val) {
        Ok(parsed) => parsed,
        Err(e) => panic!("parse failed: {}", e.message()),
    };
    assert!(!parsed.features.navigation);
    assert!(!parsed.features.typed_routes);
    assert!(!parsed.features.permissions);
}

#[test]
fn app_descriptor_rejects_oversized_declaration_lists() {
    let mut oversized = sample_app_descriptor();
    oversized.routes = (0..(MAX_APP_ROUTES_LEN + 1))
        .map(|index| GuestRouteDeclaration {
            route_id: format!("r{index}"),
            method: "get".to_owned(),
            path: format!("/r/{index}"),
            params: Vec::new(),
            required_permission: None,
        })
        .collect();
    let val = build_app_descriptor_val(&oversized);
    let result = parse_app_descriptor_val(&val);
    assert!(
        matches!(result, Err(ContractValueError::ValueTooLarge { field: "routes", .. })),
        "oversized routes list must be rejected: {result:?}"
    );
}

#[test]
fn app_descriptor_rejects_oversized_identifier() {
    let mut oversized = sample_app_descriptor();
    oversized.pages[0].page_id = "x".repeat(MAX_COMPONENT_ID_LEN + 1);
    let val = build_app_descriptor_val(&oversized);
    let result = parse_app_descriptor_val(&val);
    assert!(
        matches!(result, Err(ContractValueError::ValueTooLarge { field: "value", .. })),
        "oversized page-id must be rejected: {result:?}"
    );
}

#[test]
fn app_descriptor_error_val_parses() {
    for (error, name) in [
        (GuestAppDescriptorError::Malformed, "malformed"),
        (GuestAppDescriptorError::UnsupportedContractVersion, "unsupported-contract-version"),
        (GuestAppDescriptorError::RouteIdConflict, "route-id-conflict"),
        (GuestAppDescriptorError::PageIdConflict, "page-id-conflict"),
        (GuestAppDescriptorError::PathConflict, "path-conflict"),
        (GuestAppDescriptorError::InvalidPathTemplate, "invalid-path-template"),
        (GuestAppDescriptorError::ParamMismatch, "param-mismatch"),
        (GuestAppDescriptorError::InvalidPermission, "invalid-permission"),
        (GuestAppDescriptorError::Internal, "internal"),
    ] {
        let val = build_app_descriptor_error_val(error);
        assert_eq!(val, failure(name));
        match parse_app_descriptor_error_val(&val) {
            Ok(parsed) if parsed == error => {}
            Ok(parsed) => panic!("expected {name}, got {parsed:?}"),
            Err(e) => panic!("parse {name} failed: {}", e.message()),
        }
    }
    assert!(parse_app_descriptor_error_val(&failure("bogus")).is_err());
}

#[test]
fn route_request_val_roundtrip() {
    let original = GuestRouteRequest {
        route_id: "get-item".to_owned(),
        params: vec![
            GuestTypedParam { name: "id".to_owned(), value: GuestParamValue::Integer(42) },
            GuestTypedParam { name: "active".to_owned(), value: GuestParamValue::Boolean(true) },
            GuestTypedParam {
                name: "ratio".to_owned(),
                value: GuestParamValue::Decimal(1.5f64.to_bits()),
            },
        ],
        payload: Some(GuestActionPayload::Json("{}".to_owned())),
    };
    let val = build_route_request_val(&original);
    match &val {
        Val::Record(fields) => {
            assert_eq!(fields.len(), 3);
            assert_eq!(fields[0].0, "route-id");
            assert_eq!(fields[1].0, "params");
            assert_eq!(fields[2].0, "payload");
        }
        other => panic!("unexpected val shape: {other:?}"),
    }
}

#[test]
fn route_result_val_parses() {
    let ok_val = success(Val::List(vec![9u8, 8, 7].into_iter().map(Val::U8).collect()));
    assert_eq!(
        match parse_route_result_val(&ok_val) {
            Ok(bytes) => bytes,
            Err(e) => panic!("parse failed: {e:?}"),
        },
        vec![9u8, 8, 7]
    );
    for (name, error) in [
        ("not-found", GuestRouteError::NotFound),
        ("invalid-params", GuestRouteError::InvalidParams),
        ("invalid-payload", GuestRouteError::InvalidPayload),
        ("internal", GuestRouteError::Internal),
    ] {
        assert_eq!(parse_route_result_val(&failure(name)), Err(error), "{name}");
    }
    assert_eq!(parse_route_result_val(&failure("bogus")), Err(GuestRouteError::Internal));
    let bad_list = success(Val::List(vec![Val::U32(1)]));
    assert_eq!(parse_route_result_val(&bad_list), Err(GuestRouteError::InvalidPayload));
}

#[test]
fn guest_param_value_maps_to_param_type() {
    assert_eq!(GuestParamValue::Text("x".to_owned()).param_type(), ParamType::Text);
    assert_eq!(GuestParamValue::Integer(-1).param_type(), ParamType::Integer);
    assert_eq!(GuestParamValue::Unsigned(1).param_type(), ParamType::Unsigned);
    assert_eq!(GuestParamValue::Boolean(true).param_type(), ParamType::Boolean);
    assert_eq!(GuestParamValue::Decimal(1.0f64.to_bits()).param_type(), ParamType::Decimal);
}

#[test]
fn contract_faults_in_words() {
    assert_eq!(
        ContractValueError::MissingField("version").message(),
        parse_component_descriptor_val(&success(Val::Record(vec![(
            "component-id".to_owned(),
            wrapped("x")
        )])))
        .err()
        .map(|e| e.message())
        .unwrap_or_default()
    );
    assert!(parse_web_descriptor_val(&text("x")).is_err());
}
