//! Who may do what.
use operune_application::model::{
    ActionDenied, GrantScope, InstallationGrant, ResourceBudget, RuntimeConfig,
};
use operune_application::policies::{
    ActionContext, InProcessActionPolicy, InProcessCheckpoint, InProcessEventPolicy,
    InProcessWebPermissionPolicy, PermissionDenied, WebPermissionContext, WEB_ACTIONS_CAPABILITY,
    WEB_PERMISSIONS_CAPABILITY,
};
use operune_application::ports::{ConfigError, GrantError};
use operune_application::values::{
    ByteSize, CapabilityId, ComponentVersion, Duration, ErrorSource, EventTopic, InstallationId,
    PermissionName,
};
use operune_application::web_path::ActionName;

fn installation(seed: u128) -> InstallationId {
    InstallationId { value: seed }
}

fn topic(name: &str) -> EventTopic {
    EventTopic { text: name.to_owned() }
}

fn version() -> ComponentVersion {
    ComponentVersion { major: 1, minor: 0, patch: 0 }
}

fn scoped(capability: &str, scope: GrantScope) -> InstallationGrant {
    InstallationGrant { capability: CapabilityId { text: capability.to_owned() }, scope }
}

fn named(capability: &str, name: &str) -> InstallationGrant {
    scoped(capability, GrantScope::Action { name: name.to_owned() })
}

fn permission(name: &str) -> WebPermissionContext {
    WebPermissionContext {
        installation_id: installation(1),
        version: version(),
        permission: PermissionName { text: name.to_owned() },
    }
}

fn action(name: &str, bytes: u64) -> ActionContext {
    ActionContext {
        installation_id: installation(1),
        version: version(),
        action: match ActionName::new(name) {
            Ok(name) => name,
            Err(e) => panic!("action: {e:?}"),
        },
        body_size: ByteSize::from_bytes(bytes),
    }
}

fn config(per_minute: u32, body: u64) -> Result<RuntimeConfig, ConfigError> {
    let base = RuntimeConfig::with_budget(ResourceBudget {
        linear_memory: None,
        max_concurrent: 1,
        call_deadline: None,
    });
    Ok(RuntimeConfig {
        max_actions_per_minute: per_minute,
        max_action_body_bytes: ByteSize::from_bytes(body),
        ..base
    })
}

#[test]
fn unscoped_grant_allows_any_permission() {
    let policy = InProcessWebPermissionPolicy::new();
    let grants = Ok(vec![scoped(WEB_PERMISSIONS_CAPABILITY, GrantScope::Unscoped)]);
    assert!(policy.check_permission(&permission("view"), &grants).is_ok());
    assert!(policy.check_permission(&permission("admin"), &grants).is_ok());
}

#[test]
fn named_scope_matches_permission_name() {
    let policy = InProcessWebPermissionPolicy::new();
    let grants = Ok(vec![named(WEB_PERMISSIONS_CAPABILITY, "view")]);
    assert!(policy.check_permission(&permission("view"), &grants).is_ok());
    assert_eq!(
        policy.check_permission(&permission("admin"), &grants),
        Err(PermissionDenied::NotGranted)
    );
}

#[test]
fn no_grant_is_denied_by_default() {
    let policy = InProcessWebPermissionPolicy::new();
    assert_eq!(
        policy.check_permission(&permission("view"), &Ok(Vec::new())),
        Err(PermissionDenied::NotGranted)
    );
}

#[test]
fn wasi_scopes_are_not_permission_grants() {
    let policy = InProcessWebPermissionPolicy::new();
    let grants = Ok(vec![scoped(
        WEB_PERMISSIONS_CAPABILITY,
        GrantScope::WasiEnv { key: "OPERUNE_X".to_owned(), value: "1".to_owned() },
    )]);
    assert_eq!(
        policy.check_permission(&permission("view"), &grants),
        Err(PermissionDenied::NotGranted),
        "wasi env scope must not authorize a web permission"
    );
}

#[test]
fn different_capability_does_not_authorize() {
    let policy = InProcessWebPermissionPolicy::new();
    let grants = Ok(vec![scoped("operune:web/actions", GrantScope::Unscoped)]);
    assert_eq!(
        policy.check_permission(&permission("view"), &grants),
        Err(PermissionDenied::NotGranted)
    );
}

#[test]
fn failed_grant_store_is_unknown() {
    let policy = InProcessWebPermissionPolicy::new();
    let failed = Err(GrantError::NotFound(installation(1)));
    assert_eq!(
        policy.check_permission(&permission("view"), &failed),
        Err(PermissionDenied::Unknown)
    );
    assert_eq!(
        PermissionDenied::NotGranted.message(),
        "permission not granted for this installation"
    );
    assert_eq!(PermissionDenied::Unknown.message(), "permission check failed");
}

#[test]
fn actions_are_checked_in_order() {
    let mut policy = InProcessActionPolicy::new();
    let none = Ok(Vec::new());
    let granted = Ok(vec![named(WEB_ACTIONS_CAPABILITY, "run")]);
    let now = Duration::from_secs(0);
    let no_config = Err(ConfigError::Storage(ErrorSource { message: "disk".to_owned() }));
    assert_eq!(
        policy.check(&action("run", 1), &no_config, &granted, now),
        Err(ActionDenied::Unknown)
    );
    assert_eq!(
        policy.check(&action("run", 9), &config(1, 8), &none, now),
        Err(ActionDenied::NotGranted)
    );
    assert_eq!(
        policy.check(&action("stop", 1), &config(1, 8), &granted, now),
        Err(ActionDenied::NotGranted)
    );
    assert_eq!(
        policy.check(&action("run", 9), &config(1, 8), &granted, now),
        Err(ActionDenied::BodyTooLarge)
    );
    assert_eq!(policy.check(&action("run", 8), &config(1, 8), &granted, now), Ok(()));
    assert_eq!(
        policy.check(&action("run", 8), &config(1, 8), &granted, Duration::from_secs(59)),
        Err(ActionDenied::RateLimited)
    );
    assert_eq!(
        policy.check(&action("run", 8), &config(1, 8), &granted, Duration::from_secs(60)),
        Ok(())
    );
}

#[test]
fn publish_granted_deny_by_default_and_matches_exact_topic() {
    let mut policy = InProcessEventPolicy::new();
    let publisher = installation(1);
    assert!(!policy.publish_granted(publisher, &topic("order.created")));
    policy.grant_publish(publisher, topic("order.created"));
    assert!(policy.publish_granted(publisher, &topic("order.created")));
    assert!(!policy.publish_granted(publisher, &topic("order.creat")));
    assert!(!policy.publish_granted(installation(2), &topic("order.created")));
}

#[test]
fn reserved_topic_prefix_denies_guest_publish() {
    let mut policy = InProcessEventPolicy::new();
    let publisher = installation(1);
    policy.grant_publish(publisher, topic("core.system.heartbeat"));
    assert!(!policy.publish_granted(publisher, &topic("core.system.heartbeat")));
    policy.grant_publish(publisher, topic("core"));
    assert!(policy.publish_granted(publisher, &topic("core")));
}

#[test]
fn subscribers_are_deterministically_ordered() {
    let mut policy = InProcessEventPolicy::new();
    let created_topic = topic("order.created");
    let subscriber_c = installation(30);
    let subscriber_a = installation(10);
    let subscriber_b = installation(20);
    policy.grant_subscribe(subscriber_c, created_topic.clone());
    policy.grant_subscribe(subscriber_a, created_topic.clone());
    policy.grant_subscribe(subscriber_b, created_topic.clone());
    assert_eq!(
        policy.subscribers(&created_topic),
        vec![subscriber_a, subscriber_b, subscriber_c]
    );
    assert!(policy.subscribers(&topic("order.shipped")).is_empty());
}

#[test]
fn revoke_subscribe_stops_fan_out() {
    let mut policy = InProcessEventPolicy::new();
    let created_topic = topic("order.created");
    let subscriber = installation(1);
    policy.grant_subscribe(subscriber, created_topic.clone());
    assert_eq!(policy.subscribers(&created_topic), vec![subscriber]);
    policy.revoke_subscribe(subscriber, &created_topic);
    assert!(policy.subscribers(&created_topic).is_empty());
}

#[test]
fn topic_grants_are_counted_once() {
    let mut policy = InProcessEventPolicy::new();
    policy.grant_publish(installation(1), topic("a"));
    policy.grant_publish(installation(1), topic("a"));
    policy.grant_publish(installation(1), topic("b"));
    policy.grant_subscribe(installation(2), topic("a"));
    assert_eq!(policy.publish_count(), 2);
    assert_eq!(policy.subscribe_count(), 1);
}

#[test]
fn in_process_checkpoint_is_noop_and_counts() {
    let mut checkpoint = InProcessCheckpoint::new();
    assert_eq!(checkpoint.checkpoint_calls(), 0);
    assert!(checkpoint.checkpoint(installation(1)).is_ok());
    assert!(checkpoint.checkpoint(installation(2)).is_ok());
    assert_eq!(checkpoint.checkpoint_calls(), 2);
}
