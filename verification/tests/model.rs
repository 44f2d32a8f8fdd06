//! Values, configuration and the surface of a component.
use operune_application::error::ApplicationError;
use operune_application::model::{
    ActionDenied, ContractSurface, GrantAuditShape, GrantScope, ImportClass, InstallationGrant,
    ResourceBudget, RuntimeConfig,
};
use operune_application::values::{ByteSize, CapabilityId, DomainError, Duration};
use operune_application::web_path::{ActionName, WebAssetPath};

fn config() -> RuntimeConfig {
    RuntimeConfig::with_budget(ResourceBudget {
        linear_memory: Some(ByteSize::from_bytes(1 << 26)),
        max_concurrent: 4,
        call_deadline: Some(Duration::from_secs(5)),
    })
}

#[test]
fn web_asset_path_validation() {
    for valid in ["/index.html", "/a/b.js", "/数据/表.json"] {
        assert!(WebAssetPath::new(valid).is_ok(), "{valid:?} must be accepted");
    }
    for bad in [
        "index.html",
        "/../x",
        "/a/../../b",
        "/a/./b",
        "/a//b",
        "/a\\b",
        "/a\nb",
        "",
    ] {
        assert!(
            matches!(WebAssetPath::new(bad), Err(ApplicationError::InvalidWebAssetPath(_))),
            "{bad:?} must be rejected"
        );
    }
}

#[test]
fn web_asset_path_keeps_its_text() {
    match WebAssetPath::new("/a/b.js") {
        Ok(path) => assert_eq!(path.as_str(), "/a/b.js"),
        Err(e) => panic!("path: {e:?}"),
    }
    assert!(WebAssetPath::new("/a/..b").is_ok());
    assert!(WebAssetPath::new("/a/...").is_ok());
    assert!(WebAssetPath::new("/a/..").is_err());
    assert!(WebAssetPath::new("/a/").is_err());
}

#[test]
fn runtime_config_validation() {
    assert!(config().validate().is_ok());
    let zero_size = RuntimeConfig { max_component_bytes: ByteSize::from_bytes(0), ..config() };
    assert!(zero_size.validate().is_err());
    let zero_drain = RuntimeConfig { drain_deadline: Duration::from_secs(0), ..config() };
    assert!(zero_drain.validate().is_err());
    let zero_assets = RuntimeConfig { max_web_assets: 0, ..config() };
    assert!(zero_assets.validate().is_err());
}

#[test]
fn runtime_config_faults_are_exact() {
    assert_eq!(
        RuntimeConfig { max_component_bytes: ByteSize::from_bytes(0), ..config() }.validate(),
        Err(ApplicationError::Config("max_component_bytes must be non-zero"))
    );
    assert_eq!(
        RuntimeConfig { descriptor_deadline: Duration::from_secs(0), ..config() }.validate(),
        Err(ApplicationError::Config("descriptor_deadline must be non-zero"))
    );
}

#[test]
fn action_name_validation() {
    assert!(ActionName::new("run-check").is_ok());
    for bad in ["", "bad\nname"] {
        assert!(
            matches!(ActionName::new(bad), Err(ApplicationError::InvalidActionName(_))),
            "{bad:?} must be rejected"
        );
    }
    assert!(ActionName::new(&"x".repeat(256)).is_err());
    match ActionName::new("run-check") {
        Ok(name) => assert_eq!(name.as_str(), "run-check"),
        Err(e) => panic!("name: {e:?}"),
    }
}

#[test]
fn contract_surface_descriptor_export_forms() {
    let simple = ContractSurface { imports: Vec::new(), exports: vec!["descriptor".to_owned()] };
    assert!(simple.exports_component_descriptor());
    let qualified = ContractSurface {
        imports: Vec::new(),
        exports: vec!["operune:component/descriptor@0.1.0".to_owned()],
    };
    assert!(qualified.exports_component_descriptor());
    let none = ContractSurface { imports: Vec::new(), exports: Vec::new() };
    assert!(!none.exports_component_descriptor());
}

#[test]
fn contract_surface_web_exports() {
    let web = ContractSurface {
        imports: Vec::new(),
        exports: vec!["assets".to_owned(), "actions".to_owned()],
    };
    assert!(web.exports_web_assets());
    assert!(web.exports_web_actions());
    let none = ContractSurface { imports: vec!["assets".to_owned()], exports: Vec::new() };
    assert!(!none.exports_web_assets());
    assert!(!none.exports_web_actions());
}

#[test]
fn import_classification() {
    assert_eq!(ImportClass::normalize("wasi:cli/run@0.2.0"), ImportClass::Wasi);
    assert_eq!(
        ImportClass::normalize("operune:component/descriptor@0.1.0"),
        ImportClass::Operune
    );
    assert_eq!(ImportClass::normalize("acme:thing/x@1.0.0"), ImportClass::Unsupported);
    let capability = match ImportClass::capability_id("wasi:cli/run@0.2.0", Ok(())) {
        Ok(capability) => capability,
        Err(e) => panic!("capability id: {e:?}"),
    };
    assert_eq!(capability.as_str(), "wasi:cli/run");
}

#[test]
fn capability_grammar_decides() {
    let fault = DomainError { message: "no capability".to_owned() };
    let refused = ImportClass::capability_id("wasi:cli/run@0.2.0", Err(fault.clone()));
    assert!(matches!(refused, Err(ApplicationError::Domain(e)) if e == fault));
}

#[test]
fn audit_shape_leaves_out_environment_values() {
    let grant = InstallationGrant {
        capability: CapabilityId { text: "wasi:cli/environment".to_owned() },
        scope: GrantScope::WasiEnv { key: "TOKEN".to_owned(), value: "hush".to_owned() },
    };
    let shape: GrantAuditShape = grant.audit_shape();
    let shown = format!("{shape:?}");
    assert!(shown.contains("TOKEN"));
    assert!(!shown.contains("hush"));
}

#[test]
fn action_denials_in_words() {
    assert_eq!(ActionDenied::NotGranted.message(), "action not granted for this installation");
    assert_eq!(ActionDenied::RateLimited.message(), "action rate limit exceeded");
    assert_eq!(ActionDenied::BodyTooLarge.message(), "action body exceeds the host-side limit");
    assert_eq!(ActionDenied::Busy.message(), "action concurrency limit reached");
    assert_eq!(ActionDenied::Unknown.message(), "action denied");
}
