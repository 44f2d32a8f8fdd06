//! What crosses the boundary to a guest, both ways.
use operune_application::config::{ConfigError, ConfigSnapshot};
use operune_application::contract::ContractValueError;
use operune_application::error::RuntimeExecutionError;
use operune_application::guest::{
    build_component_descriptor_val, GuestComponentDescriptor, GuestDescriptorError,
};
use operune_application::model::{
    ContractSurface, GrantSnapshot, ResourceBudget, RuntimeConfig, WasiGrant,
};
use operune_application::ports::{AuditError, ConfigStoreError, GrantError, SecretStoreError};
use operune_application::ports::StateStoreError;
use operune_application::runtime::{
    action_call, asset_call, bind_slot, check_wasi, descriptor_call, find_interface,
    instance_terms, instantiate, invoke_action, keeps_waiting, manifest_step, map_dispatch_error,
    read_asset, read_descriptor, read_web_manifest, slot_bindings, DispatchError, ExportedCall,
    InFlight, ManifestStep, SlotBindings, WebCall, WebFunc,
};
use operune_application::secret::{SecretError, SecretMetadata};
use operune_application::secret_bytes::SecretBytes;
use operune_application::stateful_imports::{
    config_error_name, config_get_config, config_get_config_version, secret_error_name,
    secret_list_granted_secrets, secret_read_secret, secret_read_step, state_cas, state_cas_step,
    state_error_name, state_get, state_get_step, CasOutcome, CasValues, SecretStep, StateError,
    StateStep,
};
use operune_application::surface::{contract_surface, surface_of};
use operune_application::val::Val;
use operune_application::values::{
    ByteSize, ConfigRevision, DomainError, Duration, ErrorSource, InstallationId, SecretName,
    SecretVersion, StateKey, StateSchemaVersion,
};
use operune_application::web_guest::{
    build_action_request_val, GuestActionPayload, GuestActionRequest,
};
use operune_application::web_path::WebAssetPath;

fn asset_path(text: &str) -> WebAssetPath {
    match WebAssetPath::new(text) {
        Ok(path) => path,
        Err(e) => panic!("{text}: {e:?}"),
    }
}

fn budget(call_deadline: Option<Duration>) -> ResourceBudget {
    ResourceBudget {
        linear_memory: Some(ByteSize::from_bytes(67_108_864)),
        max_concurrent: 4,
        call_deadline,
    }
}

fn config() -> RuntimeConfig {
    RuntimeConfig::with_budget(budget(None))
}

fn no_name() -> DomainError {
    DomainError { message: "name".to_owned() }
}

fn ping() -> GuestActionRequest {
    GuestActionRequest {
        action: "ping".to_owned(),
        payload: GuestActionPayload::Json("{}".to_owned()),
    }
}

fn minimal_component() -> Vec<u8> {
    br#"(component
            (core module $m
                (memory (export "memory") 1)
            )
            (core instance $i (instantiate $m))
        )"#
    .to_vec()
}

#[test]
fn real_compile_rejects_garbage_bytes() {
    let result = contract_surface(&b"this is not a wasm component".to_vec());
    assert!(
        matches!(result, Err(RuntimeExecutionError::Runtime(_))),
        "garbage bytes must fail validation"
    );
}

#[test]
fn real_compile_accepts_valid_component() {
    assert!(contract_surface(&minimal_component()).is_ok());
}

#[test]
fn real_contract_surface_reflects_binary_facts() {
    match contract_surface(&minimal_component()) {
        Ok(surface) => {
            assert!(surface.imports.is_empty());
            assert!(surface.exports.is_empty());
            assert!(!surface.exports_component_descriptor());
        }
        Err(e) => panic!("contract surface: {e:?}"),
    }
}

#[test]
fn surface_names_come_in_the_order_of_the_binary() {
    let bytes = br#"(component
            (import "wasi:cli/run@0.2.0" (instance (export "run" (func (result string)))))
            (import "acme:svc/checkout@1.0.0" (instance $checkout))
            (export "descriptor" (instance $checkout))
            (export "assets" (instance $checkout))
        )"#;
    match contract_surface(&bytes.to_vec()) {
        Ok(surface) => {
            assert_eq!(
                surface.imports,
                vec!["wasi:cli/run@0.2.0".to_owned(), "acme:svc/checkout@1.0.0".to_owned()]
            );
            assert_eq!(surface.exports, vec!["descriptor".to_owned(), "assets".to_owned()]);
            assert!(surface.exports_component_descriptor());
            assert!(surface.exports_web_assets());
            assert!(!surface.exports_web_actions());
        }
        Err(e) => panic!("contract surface: {e:?}"),
    }
}

#[test]
fn surface_fails_where_either_half_does() {
    let failed = |message: &str| {
        Err(RuntimeExecutionError::Runtime(ErrorSource { message: message.to_owned() }))
    };
    assert_eq!(surface_of(Err("a".to_owned()), Err("b".to_owned())), failed("a"));
    assert_eq!(surface_of(Ok(Vec::new()), Err("b".to_owned())), failed("b"));
    assert_eq!(
        surface_of(Ok(vec!["i".to_owned()]), Ok(vec!["e".to_owned()])),
        Ok(ContractSurface { imports: vec!["i".to_owned()], exports: vec!["e".to_owned()] })
    );
}

#[test]
fn real_prepare_rejects_nonempty_wasi_grants() {
    let snapshot = |wasi: Vec<WasiGrant>| GrantSnapshot {
        installation: InstallationId { value: 1 },
        wasi,
        budget: ResourceBudget { linear_memory: None, max_concurrent: 1, call_deadline: None },
    };
    let env = WasiGrant::Env { key: "K".to_owned(), value: "V".to_owned() };
    assert_eq!(
        check_wasi(&snapshot(vec![env])),
        Err(RuntimeExecutionError::WasiIntegrationUnavailable),
        "non-empty WASI grants must fail explicitly"
    );
    assert_eq!(check_wasi(&snapshot(Vec::new())), Ok(()));
}

fn some(inner: Val) -> Option<Box<Val>> {
    Some(Box::new(inner))
}

fn success(inner: Val) -> Val {
    Val::Result(Ok(some(inner)))
}

fn failure(name: &str) -> Val {
    Val::Result(Err(some(Val::Enum(name.to_owned()))))
}

fn record(fields: Vec<(&str, Val)>) -> Val {
    Val::Record(fields.into_iter().map(|(name, value)| (name.to_owned(), value)).collect())
}

fn wrapped(text: &str) -> Val {
    record(vec![("value", Val::String(text.to_owned()))])
}

fn data(bytes: &[u8]) -> Val {
    record(vec![("data", Val::List(bytes.iter().map(|b| Val::U8(*b)).collect()))])
}

fn bytes(list: &[u8]) -> Val {
    Val::List(list.iter().map(|b| Val::U8(*b)).collect())
}

fn shape(field: &'static str, expected: &'static str) -> RuntimeExecutionError {
    RuntimeExecutionError::MalformedGuestData(ContractValueError::ShapeMismatch { field, expected })
}

#[test]
fn descriptor_reply_is_a_descriptor_or_the_guest_error() {
    let descriptor = || GuestComponentDescriptor {
        component_id: "demo".to_owned(),
        major: 1,
        minor: 2,
        patch: 3,
        display_name: "Demo".to_owned(),
        author: None,
    };
    let reply = build_component_descriptor_val(&descriptor());
    assert_eq!(read_descriptor(&reply), Ok(descriptor()));
    assert_eq!(
        read_descriptor(&failure("internal")),
        Err(RuntimeExecutionError::GuestDescriptorError(GuestDescriptorError::Internal))
    );
    assert_eq!(
        read_descriptor(&failure("odd")),
        Err(RuntimeExecutionError::MalformedGuestData(ContractValueError::InvalidVariant(
            "odd".to_owned()
        )))
    );
    assert_eq!(
        read_descriptor(&Val::Result(Err(None))),
        Err(shape("descriptor-error", "result Err payload"))
    );
    assert_eq!(read_descriptor(&Val::U8(1)), Err(shape("get-descriptor", "result")));
}

#[test]
fn interface_is_found_under_its_first_name() {
    assert_eq!(find_interface(&vec![false, true, true], "descriptor"), Ok(1));
    assert_eq!(
        find_interface(&vec![false, false], "descriptor"),
        Err(RuntimeExecutionError::MissingOperuneExport("descriptor"))
    );
}

fn front(entry: &str) -> Val {
    success(record(vec![
        ("entry", wrapped(entry)),
        ("features", Val::Flags(vec!["static-assets".to_owned()])),
        ("display-name", Val::Option(None)),
    ]))
}

fn assets(paths: &[&str]) -> Val {
    success(Val::List(
        paths
            .iter()
            .map(|path| {
                record(vec![
                    ("path", wrapped(path)),
                    ("size", Val::U64(5)),
                    ("content-type", Val::Option(some(Val::String("text/html".to_owned())))),
                ])
            })
            .collect(),
    ))
}

#[test]
fn web_manifest_is_read_where_there_is_one() {
    assert_eq!(read_web_manifest(None, Some(&assets(&["/a"]))), Ok(None));
    match read_web_manifest(Some(&front("/index.html")), Some(&assets(&["/index.html"]))) {
        Ok(Some(manifest)) => {
            assert_eq!(manifest.entry.as_str(), "/index.html");
            assert!(manifest.features.static_assets);
            assert!(!manifest.features.backend_actions);
            assert_eq!(manifest.assets.len(), 1);
            assert_eq!(manifest.assets[0].size, 5);
            assert_eq!(manifest.assets[0].content_type.as_deref(), Some("text/html"));
        }
        other => panic!("manifest: {other:?}"),
    }
    assert_eq!(
        read_web_manifest(Some(&front("index.html")), None),
        Err(shape("web-descriptor.entry", "valid asset path"))
    );
    assert_eq!(
        read_web_manifest(Some(&front("/index.html")), Some(&assets(&["/../x"]))),
        Err(shape("asset-metadata.path", "valid asset path"))
    );
    assert!(matches!(
        read_web_manifest(Some(&Val::Result(Err(None))), None),
        Err(RuntimeExecutionError::GuestWebError(_))
    ));
}

#[test]
fn web_front_is_learned_step_by_step() {
    let config = config();
    let all =
        SlotBindings { web_descriptor: true, assets: true, read_asset: true, actions: false };
    let plain = SlotBindings { assets: false, ..all };
    let none = SlotBindings { web_descriptor: false, ..all };
    let call = |func: WebFunc| {
        ManifestStep::Call(WebCall { func, argument: None, deadline: config.descriptor_deadline })
    };
    assert_eq!(manifest_step(&config, &none, None, None), ManifestStep::Done(Ok(None)));
    assert_eq!(manifest_step(&config, &all, None, None), call(WebFunc::GetWebDescriptor));
    let told = front("/index.html");
    assert_eq!(manifest_step(&config, &all, Some(&told), None), call(WebFunc::ListAssets));
    assert_eq!(
        manifest_step(&config, &plain, Some(&told), None),
        ManifestStep::Done(read_web_manifest(Some(&told), None))
    );
    let listed = assets(&["/index.html"]);
    assert_eq!(
        manifest_step(&config, &all, Some(&told), Some(&listed)),
        ManifestStep::Done(read_web_manifest(Some(&told), Some(&listed)))
    );
    for (bad, error) in [
        (success(Val::U8(1)), shape("web-descriptor", "record")),
        (
            Val::Result(Err(None)),
            RuntimeExecutionError::GuestWebError("get-web-descriptor returned an error"),
        ),
        (Val::U8(1), shape("get-web-descriptor", "result")),
    ] {
        assert_eq!(
            manifest_step(&config, &all, Some(&bad), None),
            ManifestStep::Done(Err(error))
        );
    }
}

#[test]
fn descriptors_and_instances_have_terms_of_their_own() {
    let config = RuntimeConfig {
        descriptor_deadline: Duration::from_secs(2),
        descriptor_budget: budget(Some(Duration::from_secs(3))),
        readiness_deadline: Duration::from_secs(4),
        ..config()
    };
    let call = descriptor_call(&config);
    assert_eq!(call.interfaces, vec!["descriptor", "operune:component/descriptor@0.1.0"]);
    assert_eq!(call.func, "get-descriptor");
    assert_eq!(call.deadline, Duration::from_secs(2));
    assert_eq!(call.budget, budget(Some(Duration::from_secs(3))));
    let grants = GrantSnapshot {
        installation: InstallationId { value: 1 },
        wasi: Vec::new(),
        budget: budget(Some(Duration::from_secs(5))),
    };
    let terms = instance_terms(&config, &grants);
    assert_eq!(terms.deadline, Duration::from_secs(4));
    assert_eq!(terms.budget, budget(Some(Duration::from_secs(5))));
}

#[test]
fn assets_are_read_within_the_limit() {
    let reply = success(bytes(b"hello"));
    let within = |limit: u64| RuntimeConfig {
        max_asset_bytes: ByteSize::from_bytes(limit),
        max_action_response_bytes: ByteSize::from_bytes(0),
        ..config()
    };
    assert_eq!(read_asset(&reply, &within(5)), Ok(b"hello".to_vec()));
    assert_eq!(read_asset(&reply, &within(4)), Err(RuntimeExecutionError::ResponseTooLarge));
    assert_eq!(
        read_asset(&Val::Result(Err(None)), &within(4)),
        Err(RuntimeExecutionError::GuestWebError("read-asset returned an error"))
    );
    assert_eq!(
        read_asset(&Val::Bool(true), &within(4)),
        Err(shape("read-asset", "result"))
    );
}

#[test]
fn calls_need_an_export_and_a_deadline() {
    let second = Duration::from_secs(1);
    let none = SlotBindings {
        web_descriptor: false,
        assets: false,
        read_asset: false,
        actions: false,
    };
    let all =
        SlotBindings { web_descriptor: true, assets: true, read_asset: true, actions: true };
    let path = asset_path("/a.js");
    assert_eq!(
        asset_call(&all, &path, &budget(Some(second))),
        Ok(WebCall {
            func: WebFunc::ReadAsset,
            argument: Some(wrapped("/a.js")),
            deadline: second,
        })
    );
    assert_eq!(
        asset_call(&none, &path, &budget(Some(second))),
        Err(RuntimeExecutionError::MissingOperuneExport("assets"))
    );
    let unreadable = SlotBindings { read_asset: false, ..all };
    assert_eq!(
        asset_call(&unreadable, &path, &budget(Some(second))),
        Err(RuntimeExecutionError::MissingOperuneExport("read-asset"))
    );
    assert!(matches!(
        asset_call(&all, &path, &budget(None)),
        Err(RuntimeExecutionError::Internal(_))
    ));
    let request = ping();
    assert_eq!(
        action_call(&all, &request, &budget(Some(second))),
        Ok(WebCall {
            func: WebFunc::HandleAction,
            argument: Some(build_action_request_val(&request)),
            deadline: second,
        })
    );
    assert_eq!(
        action_call(&none, &request, &budget(None)),
        Err(RuntimeExecutionError::MissingOperuneExport("actions"))
    );
    assert!(matches!(
        action_call(&all, &request, &budget(None)),
        Err(RuntimeExecutionError::Internal(_))
    ));
}

#[test]
fn web_functions_have_names() {
    for (func, interface, name) in [
        (WebFunc::GetWebDescriptor, "descriptor", "get-web-descriptor"),
        (WebFunc::ListAssets, "assets", "list-assets"),
        (WebFunc::ReadAsset, "assets", "read-asset"),
        (WebFunc::HandleAction, "actions", "handle-action"),
    ] {
        assert_eq!(func.interface(), interface);
        assert_eq!(func.name(), name);
    }
}

#[test]
fn action_failures_are_told() {
    let config = RuntimeConfig {
        max_asset_bytes: ByteSize::from_bytes(0),
        max_action_response_bytes: ByteSize::from_bytes(2),
        ..config()
    };
    assert_eq!(invoke_action(&success(bytes(b"ok")), &config), Ok(b"ok".to_vec()));
    assert_eq!(
        invoke_action(&success(bytes(b"long")), &config),
        Err(RuntimeExecutionError::ResponseTooLarge)
    );
    for (case, message) in [
        ("not-found", "action not found"),
        ("invalid-payload", "invalid action payload"),
        ("internal", "guest action internal error"),
    ] {
        assert_eq!(
            invoke_action(&failure(case), &config),
            Err(RuntimeExecutionError::GuestWebError(message))
        );
    }
    assert_eq!(invoke_action(&Val::U8(1), &config), Err(shape("handle-action", "result")));
}

#[test]
fn slots_bind_all_or_none() {
    let call = |interface: bool, func: bool| ExportedCall { interface, func };
    let absent = call(false, false);
    let there = call(true, true);
    let bound = SlotBindings {
        web_descriptor: true,
        assets: false,
        read_asset: false,
        actions: true,
    };
    assert_eq!(bind_slot(there, absent, absent, there), Ok(bound));
    assert_eq!(
        bind_slot(absent, there, there, absent),
        Ok(SlotBindings {
            web_descriptor: false,
            assets: true,
            read_asset: true,
            actions: false,
        })
    );
    assert_eq!(
        bind_slot(absent, there, call(true, false), absent),
        Ok(SlotBindings {
            web_descriptor: false,
            assets: true,
            read_asset: false,
            actions: false,
        })
    );
    for (front, list, read, actions, name) in [
        (call(true, false), absent, absent, absent, "get-web-descriptor"),
        (absent, call(true, false), there, absent, "list-assets"),
        (absent, absent, absent, call(true, false), "handle-action"),
    ] {
        assert_eq!(
            bind_slot(front, list, read, actions),
            Err(RuntimeExecutionError::MissingOperuneExport(name))
        );
    }
    assert_eq!(instantiate(vec![Ok(bound), Ok(bound)]), Ok(vec![bound, bound]));
    assert_eq!(
        instantiate(vec![Ok(bound), Err(RuntimeExecutionError::Busy), Ok(bound)]),
        Err(RuntimeExecutionError::Busy)
    );
    assert_eq!(slot_bindings(&vec![bound], 0), Ok(bound));
    assert_eq!(
        slot_bindings(&vec![bound], 1),
        Err(RuntimeExecutionError::Internal("invalid instance slot"))
    );
}

#[test]
fn dispatch_errors_and_waiting() {
    for error in [DispatchError::Busy, DispatchError::QueueFull, DispatchError::Closed] {
        assert_eq!(map_dispatch_error(error), RuntimeExecutionError::Busy);
    }
    assert_eq!(
        map_dispatch_error(DispatchError::Corrupted),
        RuntimeExecutionError::Internal("instance set dispatch failure")
    );
    let deadline = Duration::from_millis(10);
    let mut running = InFlight::new();
    running.enter();
    assert!(keeps_waiting(&running, Duration::from_millis(9), deadline));
    assert!(!keeps_waiting(&running, Duration::from_millis(10), deadline));
    running.enter();
    running.leave();
    assert_eq!(running.count(), 1);
    running.leave();
    assert_eq!(running.count(), 0);
    assert!(!keeps_waiting(&running, Duration::from_millis(0), deadline));
}

fn disk() -> ErrorSource {
    ErrorSource { message: "disk".to_owned() }
}

#[test]
fn config_answers_reach_the_guest() {
    let revision = ConfigRevision { value: 3 };
    let version = record(vec![("revision", Val::U64(3))]);
    assert_eq!(config_get_config_version(&Ok(revision)), success(version));
    let answer = config_get_config(&Ok(ConfigSnapshot { revision, value: b"{}".to_vec() }));
    let version = record(vec![("revision", Val::U64(3))]);
    assert_eq!(answer, success(record(vec![("version", version), ("value", data(b"{}"))])));
    for (error, name) in [
        (ConfigError::NotReady, "not-ready"),
        (ConfigError::Corrupt, "corrupt"),
        (ConfigError::Store(ConfigStoreError::Storage(disk())), "internal"),
        (ConfigError::Audit(AuditError::Storage(disk())), "internal"),
    ] {
        assert_eq!(config_error_name(&error), name);
        assert_eq!(config_get_config(&Err(error)), failure(name));
    }
    assert_eq!(config_get_config_version(&Err(ConfigError::NotReady)), failure("not-ready"));
}

#[test]
fn secret_answers_reach_the_guest() {
    let named = vec![wrapped("db")];
    assert_eq!(secret_read_step(&named, &None), SecretStep::Judge("db".to_owned()));
    assert_eq!(
        secret_read_step(&named, &Some(Ok(()))),
        SecretStep::Read(SecretName { text: "db".to_owned() })
    );
    assert_eq!(
        secret_read_step(&named, &Some(Err(no_name()))),
        SecretStep::Answer(failure("invalid-name"))
    );
    for judged in [None, Some(Ok(())), Some(Err(no_name()))] {
        assert_eq!(
            secret_read_step(&Vec::new(), &judged),
            SecretStep::Answer(failure("internal"))
        );
    }
    assert_eq!(secret_read_secret(&Ok(SecretBytes::new(b"v".to_vec()))), success(data(b"v")));
    let listed = secret_list_granted_secrets(&Ok(vec![SecretMetadata {
        name: SecretName { text: "db".to_owned() },
        version: SecretVersion { value: 2 },
    }]));
    assert_eq!(
        listed,
        success(Val::List(vec![record(vec![
            ("name", wrapped("db")),
            ("version", record(vec![("value", Val::U64(2))])),
        ])]))
    );
    for (error, name) in [
        (SecretError::Denied, "denied"),
        (SecretError::Unavailable, "unavailable"),
        (SecretError::Corrupt, "corrupt"),
        (SecretError::OverBudget, "over-budget"),
        (SecretError::Grant(GrantError::Storage(disk())), "internal"),
        (SecretError::Store(SecretStoreError::Storage(disk())), "internal"),
        (SecretError::Audit(AuditError::Storage(disk())), "internal"),
        (SecretError::Internal("x"), "internal"),
    ] {
        assert_eq!(secret_error_name(&error), name);
        assert_eq!(secret_read_secret(&Err(error)), failure(name));
    }
    assert_eq!(secret_list_granted_secrets(&Err(SecretError::Denied)), failure("denied"));
}

#[test]
fn state_answers_reach_the_guest() {
    let keyed = vec![wrapped("k")];
    let lost = || Some(Err(StateError::NotReady));
    assert_eq!(
        state_get_step(&vec![Val::U8(1)], &Some(Err(no_name())), &lost()),
        StateStep::Answer(failure("internal"))
    );
    assert_eq!(state_get_step(&keyed, &None, &lost()), StateStep::Judge("k".to_owned()));
    assert_eq!(
        state_get_step(&keyed, &Some(Err(no_name())), &lost()),
        StateStep::Answer(failure("invalid-key"))
    );
    assert_eq!(state_get_step(&keyed, &Some(Ok(())), &None), StateStep::Bind);
    assert_eq!(
        state_get_step(&keyed, &Some(Ok(())), &lost()),
        StateStep::Answer(failure("internal"))
    );
    assert_eq!(
        state_get_step(&keyed, &Some(Ok(())), &Some(Ok(StateSchemaVersion { value: 3 }))),
        StateStep::Get {
            declared: StateSchemaVersion { value: 3 },
            key: StateKey { text: "k".to_owned() },
        }
    );
    assert_eq!(state_get(&Ok(None)), success(Val::Option(None)));
    assert_eq!(state_get(&Ok(Some(b"v".to_vec()))), success(Val::Option(some(data(b"v")))));
    assert_eq!(
        state_cas(&Ok(CasOutcome::Applied)),
        success(Val::Enum("applied".to_owned()))
    );
    assert_eq!(
        state_cas(&Ok(CasOutcome::Rejected)),
        success(Val::Enum("rejected".to_owned()))
    );
    for (error, name) in [
        (StateError::NotReady, "not-ready"),
        (StateError::NotFound, "not-found"),
        (StateError::Conflict, "conflict"),
        (StateError::Corrupt, "corrupt"),
        (StateError::OverBudget, "over-budget"),
        (StateError::UnsupportedSchemaVersion, "unsupported-schema-version"),
        (StateError::Store(StateStoreError::Storage(disk())), "internal"),
        (StateError::Audit(AuditError::Storage(disk())), "internal"),
        (StateError::Internal("x"), "internal"),
    ] {
        assert_eq!(state_error_name(&error), name);
        assert_eq!(state_cas(&Err(error)), failure(name));
    }
}

#[test]
fn swapped_values_are_read_within_the_limit() {
    let params = |expected: Val, new_value: Val| vec![wrapped("k"), expected, new_value];
    let present = |b: &[u8]| Val::Option(some(data(b)));
    let judged = Some(Ok(()));
    let version = StateSchemaVersion { value: 3 };
    assert_eq!(
        state_cas_step(
            &params(Val::Option(None), present(b"new")),
            &judged,
            3,
            &Some(Ok(version))
        ),
        StateStep::Cas {
            declared: version,
            key: StateKey { text: "k".to_owned() },
            values: CasValues { expected: None, new_value: Some(b"new".to_vec()) },
        }
    );
    for (expected, new_value, case) in [
        (present(b"four"), Val::Option(None), "over-budget"),
        (Val::Option(None), Val::U8(1), "internal"),
        (Val::Option(some(Val::U8(1))), Val::Option(None), "internal"),
        (present(b"four"), Val::U8(1), "over-budget"),
    ] {
        assert_eq!(
            state_cas_step(&params(expected, new_value), &judged, 3, &None),
            StateStep::Answer(failure(case))
        );
    }
}

#[test]
fn swaps_are_refused_in_order() {
    let oversized =
        vec![wrapped("k"), Val::Option(some(data(b"four"))), Val::Option(some(data(b"four")))];
    let lost = || Some(Err(StateError::NotReady));
    assert_eq!(
        state_cas_step(&Vec::new(), &Some(Err(no_name())), 3, &lost()),
        StateStep::Answer(failure("internal"))
    );
    assert_eq!(
        state_cas_step(&oversized, &None, 3, &lost()),
        StateStep::Judge("k".to_owned())
    );
    assert_eq!(
        state_cas_step(&oversized, &Some(Err(no_name())), 3, &lost()),
        StateStep::Answer(failure("invalid-key"))
    );
    assert_eq!(
        state_cas_step(&oversized, &Some(Ok(())), 3, &lost()),
        StateStep::Answer(failure("over-budget"))
    );
    assert_eq!(
        state_cas_step(&oversized, &Some(Ok(())), 4, &lost()),
        StateStep::Answer(failure("internal"))
    );
    assert_eq!(state_cas_step(&oversized, &Some(Ok(())), 4, &None), StateStep::Bind);
}

#[test]
fn real_descriptor_phase_rejects_component_without_operune_exports() {
    let surface = match contract_surface(&minimal_component()) {
        Ok(surface) => surface,
        Err(e) => panic!("contract surface: {e:?}"),
    };
    let exported = ["descriptor", "operune:component/descriptor@0.1.0"]
        .iter()
        .map(|name| surface.exports.iter().any(|export| export == name))
        .collect();
    assert_eq!(
        find_interface(&exported, "get-descriptor"),
        Err(RuntimeExecutionError::MissingOperuneExport("get-descriptor")),
        "missing descriptor export must fail deterministically"
    );
}

#[test]
fn real_instantiate_creates_bounded_instance_set() {
    let absent = ExportedCall { interface: false, func: false };
    let slots = (0..4).map(|_| bind_slot(absent, absent, absent, absent)).collect();
    let bound = match instantiate(slots) {
        Ok(bound) => bound,
        Err(e) => panic!("instantiate: {e:?}"),
    };
    assert_eq!(bound.len(), 4);
    let bindings = match slot_bindings(&bound, 0) {
        Ok(bindings) => bindings,
        Err(e) => panic!("slot: {e:?}"),
    };
    assert!(!bindings.web_descriptor);
    assert_eq!(read_web_manifest(None, None), Ok(None));
    let within = budget(Some(Duration::from_secs(1)));
    assert_eq!(
        asset_call(&bindings, &asset_path("/index.html"), &within),
        Err(RuntimeExecutionError::MissingOperuneExport("assets")),
        "asset read on a non-web component must fail"
    );
    assert_eq!(
        action_call(&bindings, &ping(), &within),
        Err(RuntimeExecutionError::MissingOperuneExport("actions")),
        "action invoke on a non-web component must fail"
    );
    let idle = InFlight::new();
    assert!(!keeps_waiting(&idle, Duration::from_millis(0), Duration::from_secs(1)));
}
