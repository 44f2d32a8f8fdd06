//! Web quotas.
use operune_application::values::{ComponentVersion, Duration, InstallationId};
use operune_application::web_quota::{
    InProcessWebQuota, WebQuotaContext, WebQuotaDenied, WebQuotaGuard, WebQuotaLimits,
};

fn context(seed: u128) -> WebQuotaContext {
    WebQuotaContext {
        installation_id: InstallationId { value: seed },
        version: ComponentVersion { major: 1, minor: 0, patch: 0 },
    }
}

fn quota(rate: u32, concurrent: u32, queued: u32) -> InProcessWebQuota {
    match InProcessWebQuota::new(WebQuotaLimits {
        max_requests_per_minute: rate,
        max_concurrent: concurrent,
        max_queued: queued,
    }) {
        Ok(quota) => quota,
        Err(reason) => panic!("quota: {reason}"),
    }
}

fn at(secs: u64) -> Duration {
    Duration::from_secs(secs)
}

fn enter(quota: &mut InProcessWebQuota, seed: u128) -> WebQuotaGuard {
    match quota.try_enter(&context(seed), at(0)) {
        Ok(guard) => guard,
        Err(denied) => panic!("denied: {denied:?}"),
    }
}

fn denied(quota: &mut InProcessWebQuota, seed: u128, secs: u64) -> Option<WebQuotaDenied> {
    quota.try_enter(&context(seed), at(secs)).err()
}

#[test]
fn limits_must_be_positive() {
    assert!(WebQuotaLimits::default().validate().is_ok());
    let zero_rate = WebQuotaLimits { max_requests_per_minute: 0, ..WebQuotaLimits::default() };
    assert!(zero_rate.validate().is_err());
    let zero_concurrent = WebQuotaLimits { max_concurrent: 0, ..WebQuotaLimits::default() };
    assert!(zero_concurrent.validate().is_err());
    let zero_queue = WebQuotaLimits { max_queued: 0, ..WebQuotaLimits::default() };
    assert!(zero_queue.validate().is_err());
}

#[test]
fn limit_faults_are_told_in_order() {
    let none = WebQuotaLimits { max_requests_per_minute: 0, max_concurrent: 0, max_queued: 0 };
    assert_eq!(none.validate(), Err("max_requests_per_minute must be non-zero"));
    let slow = WebQuotaLimits { max_requests_per_minute: 1, ..none };
    assert_eq!(slow.validate(), Err("max_concurrent must be non-zero"));
    let alone = WebQuotaLimits { max_concurrent: 1, ..slow };
    assert_eq!(alone.validate(), Err("max_queued must be non-zero"));
    assert_eq!(InProcessWebQuota::new(alone).err(), Some("max_queued must be non-zero"));
}

#[test]
fn default_limits_are_exact() {
    let limits = WebQuotaLimits::default();
    assert_eq!(limits.max_requests_per_minute, 600);
    assert_eq!(limits.max_concurrent, 8);
    assert_eq!(limits.max_queued, 64);
}

#[test]
fn rate_limit_denies_beyond_window() {
    let mut quota = quota(2, 8, 64);
    for _ in 0..2 {
        let guard = quota.try_enter(&context(1), at(0));
        assert!(guard.is_ok(), "admission within the rate limit");
        if let Ok(guard) = guard {
            quota.release(guard);
        }
    }
    assert!(
        matches!(quota.try_enter(&context(1), at(0)), Err(WebQuotaDenied::RateLimited)),
        "third admission must be rate limited"
    );
    assert!(quota.try_enter(&context(2), at(0)).is_ok());
}

#[test]
fn rate_window_starts_over_after_a_minute() {
    let mut quota = quota(1, 8, 64);
    let guard = enter(&mut quota, 1);
    quota.release(guard);
    assert_eq!(denied(&mut quota, 1, 59), Some(WebQuotaDenied::RateLimited));
    assert_eq!(denied(&mut quota, 1, 60), None);
    assert_eq!(denied(&mut quota, 1, 119), Some(WebQuotaDenied::RateLimited));
}

#[test]
fn concurrency_limit_denies_when_all_slots_occupied() {
    let mut quota = quota(100, 2, 64);
    let mut first = enter(&mut quota, 1);
    first.begin(&mut quota);
    let second = enter(&mut quota, 1);
    assert!(
        matches!(quota.try_enter(&context(1), at(0)), Err(WebQuotaDenied::OverConcurrency)),
        "in-flight + queued at max_concurrent must deny admission"
    );
    quota.release(second);
    quota.release(first);
    assert!(quota.try_enter(&context(1), at(0)).is_ok());
}

#[test]
fn queue_limit_denies_when_queue_is_full() {
    let mut quota = quota(100, 8, 1);
    let first = enter(&mut quota, 1);
    assert!(
        matches!(quota.try_enter(&context(1), at(0)), Err(WebQuotaDenied::OverQueue)),
        "queue full must deny admission"
    );
    quota.release(first);
    assert!(quota.try_enter(&context(1), at(0)).is_ok());
}

#[test]
fn begin_moves_queued_slot_to_in_flight() {
    let mut quota = quota(100, 2, 2);
    let mut first = enter(&mut quota, 1);
    first.begin(&mut quota);
    let second = quota.try_enter(&context(1), at(0));
    assert!(second.is_ok(), "in-flight slot is not a queued slot");
    assert!(
        matches!(quota.try_enter(&context(1), at(0)), Err(WebQuotaDenied::OverConcurrency)),
        "with both slots occupied the next admission is denied by concurrency"
    );
}

#[test]
fn begin_is_idempotent() {
    let mut quota = match InProcessWebQuota::new(WebQuotaLimits::default()) {
        Ok(quota) => quota,
        Err(reason) => panic!("quota: {reason}"),
    };
    let mut guard = enter(&mut quota, 1);
    guard.begin(&mut quota);
    guard.begin(&mut quota);
    quota.release(guard);
}

#[test]
fn begin_twice_takes_one_place() {
    let mut quota = quota(100, 2, 2);
    let mut guard = enter(&mut quota, 1);
    guard.begin(&mut quota);
    guard.begin(&mut quota);
    let other = enter(&mut quota, 1);
    assert_eq!(denied(&mut quota, 1, 0), Some(WebQuotaDenied::OverConcurrency));
    quota.release(guard);
    quota.release(other);
    assert_eq!(denied(&mut quota, 1, 0), None);
}

#[test]
fn denials_in_words() {
    assert_eq!(WebQuotaDenied::RateLimited.message(), "web request rate limit exceeded");
    assert_eq!(WebQuotaDenied::OverConcurrency.message(), "web request concurrency limit reached");
    assert_eq!(WebQuotaDenied::OverQueue.message(), "web request queue is full");
    assert_eq!(WebQuotaDenied::Unknown.message(), "web quota check failed");
}
