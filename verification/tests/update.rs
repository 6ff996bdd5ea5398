use std::time::{SystemTime, UNIX_EPOCH};
use lazytail::update::{
    cache_if_fresh, cached_update_info, cache_record, version_is_newer, UpdateCheckCache, UpdateInfo,
    CACHE_TTL_SECS,
};

#[test]
fn test_update_available() {
    let info = UpdateInfo {
        current_version: "0.6.0".to_string(),
        latest_version: "0.7.0".to_string(),
        release_url: "https://example.com".to_string(),
    };
    assert!(info.is_update_available());
}

#[test]
fn test_no_update_when_same_version() {
    let info = UpdateInfo {
        current_version: "0.6.0".to_string(),
        latest_version: "0.6.0".to_string(),
        release_url: "https://example.com".to_string(),
    };
    assert!(!info.is_update_available());
}

#[test]
fn test_no_update_when_current_is_newer() {
    let info = UpdateInfo {
        current_version: "0.8.0".to_string(),
        latest_version: "0.7.0".to_string(),
        release_url: "https://example.com".to_string(),
    };
    assert!(!info.is_update_available());
}

#[test]
fn test_version_is_newer() {
    assert!(version_is_newer("0.7.0", "0.6.0"));
    assert!(version_is_newer("1.0.0", "0.9.9"));
    assert!(version_is_newer("0.6.1", "0.6.0"));
    assert!(!version_is_newer("0.6.0", "0.6.0"));
    assert!(!version_is_newer("0.5.0", "0.6.0"));
}

#[test]
fn test_version_is_newer_with_v_prefix() {
    assert!(version_is_newer("v0.7.0", "v0.6.0"));
    assert!(version_is_newer("v0.7.0", "0.6.0"));
}

#[test]
fn test_cache_expiry() {
    let now = SystemTime::now()
        .duration_since(UNIX_EPOCH)
        .unwrap()
        .as_secs();

    // Fresh cache (1 hour old)
    let fresh = UpdateCheckCache {
        checked_at: now - 3600,
        latest_version: "0.7.0".to_string(),
        release_url: "https://example.com".to_string(),
    };
    assert!(now.saturating_sub(fresh.checked_at) < CACHE_TTL_SECS);

    // Stale cache (25 hours old)
    let stale = UpdateCheckCache {
        checked_at: now - 90000,
        latest_version: "0.7.0".to_string(),
        release_url: "https://example.com".to_string(),
    };
    assert!(now.saturating_sub(stale.checked_at) >= CACHE_TTL_SECS);
}

#[test]
fn version_components_ignore_non_numeric_fields() {
    assert!(version_is_newer("1.2", "1.1.9"));
    assert!(version_is_newer("1.2.0", "1.2"));
    assert!(!version_is_newer("1.2.x", "1.2"));
    assert!(version_is_newer("vv2", "1.99"));
    assert!(!version_is_newer("", "0"));
    assert!(version_is_newer("0", ""));
}

#[test]
fn cache_freshness_decisions() {
    let now = 1_000_000u64;
    let fresh = UpdateCheckCache {
        checked_at: now - (CACHE_TTL_SECS - 1),
        latest_version: "0.9.0".to_string(),
        release_url: "u".to_string(),
    };
    assert!(cache_if_fresh(fresh, now).is_some());
    let stale = UpdateCheckCache {
        checked_at: now - CACHE_TTL_SECS,
        latest_version: "0.9.0".to_string(),
        release_url: "u".to_string(),
    };
    assert!(cache_if_fresh(stale, now).is_none());
    let future = UpdateCheckCache { checked_at: now + 5, latest_version: "1".to_string(), release_url: "r".to_string() };
    let info = cached_update_info(Some(future), now, "0.1.0".to_string()).unwrap();
    assert_eq!(info.current_version, "0.1.0");
    assert_eq!(info.latest_version, "1");
    assert_eq!(info.release_url, "r");
    assert!(cached_update_info(None, now, "0.1.0".to_string()).is_none());
    let record = cache_record(&info, now);
    assert_eq!(record.checked_at, now);
    assert_eq!(record.latest_version, "1");
}
