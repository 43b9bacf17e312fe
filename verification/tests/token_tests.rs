use panoptocord::cache::{Cache, INITIAL_TOKEN_EXPIRY};
use panoptocord::config::Config;
use panoptocord::token::{alert_message, server_error_text, RefreshError, REFRESH_MARGIN_SECS};

fn config() -> Config {
    Config {
        authorization_url: "https://host/Panopto/oauth2/connect/authorize".to_string(),
        access_token_url: "https://host/Panopto/oauth2/connect/token".to_string(),
        client_id: "client".to_string(),
        client_secret: "SECRET-REDACTED".to_string(),
        refresh_token: "refresh-0".to_string(),
        access_token: "access-0".to_string(),
        folders: vec!["F1".to_string()],
        webhook_url: "https://chat/webhook".to_string(),
        webhook_error_url: "https://chat/errors".to_string(),
        panopto_base: "https://host/".to_string(),
        filter_since_date: None,
    }
}

#[test]
fn fresh_cache_copies_credentials_and_forces_refresh() {
    let config = config();
    let cache = Cache::fresh_from_config(&config);
    assert!(cache.cached_recordings.is_empty());
    assert_eq!(cache.refresh_token, "refresh-0");
    assert_eq!(cache.access_token, "access-0");
    assert_eq!(cache.last_changed_refresh_token, "refresh-0");
    assert_eq!(cache.last_changed_access_token, "access-0");
    assert_eq!(cache.access_token_expires, INITIAL_TOKEN_EXPIRY);
    // The sentinel lies in the past, so any present-day clock forces a
    // refresh on the first cycle.
    assert!(cache.token_expired(1717200000));
}

#[test]
fn token_expiry_boundary() {
    let config = config();
    let mut cache = Cache::fresh_from_config(&config);
    cache.access_token_expires = 1000;
    assert!(!cache.token_expired(999));
    assert!(cache.token_expired(1000));
    assert!(cache.token_expired(1001));
}

#[test]
fn rotation_trigger_rewrites_credentials() {
    // The operator edited the config's refresh token since the cache last
    // recorded it.
    let mut config = config();
    let mut cache = Cache::fresh_from_config(&config);
    config.refresh_token = "refresh-1".to_string();

    let changed = cache.reconcile_with_config(&config);
    assert!(changed);
    assert_eq!(cache.refresh_token, "refresh-1");
    assert_eq!(cache.access_token, "access-0");
    assert_eq!(cache.last_changed_refresh_token, "refresh-1");
    assert_eq!(cache.last_changed_access_token, "access-0");

    // Reconciling again with the same config does not trigger.
    assert!(!cache.reconcile_with_config(&config));
}

#[test]
fn no_rotation_leaves_cache_untouched() {
    let config = config();
    let mut cache = Cache::fresh_from_config(&config);
    cache.access_token = "minted-later".to_string();
    let changed = cache.reconcile_with_config(&config);
    assert!(!changed);
    // The last-changed fields, not the current values, decide the trigger.
    assert_eq!(cache.access_token, "minted-later");
}

#[test]
fn refresh_success_sets_margined_expiry() {
    let config = config();
    let mut cache = Cache::fresh_from_config(&config);
    let now = 1717200000;
    cache.apply_refresh_success(
        now,
        "access-1".to_string(),
        Some("refresh-1".to_string()),
        Some(3600),
    );
    assert_eq!(cache.access_token, "access-1");
    assert_eq!(cache.refresh_token, "refresh-1");
    assert_eq!(cache.access_token_expires, now + 3600 - REFRESH_MARGIN_SECS);
    assert_eq!(cache.access_token_expires, 1717203300);
}

#[test]
fn refresh_without_rotation_keeps_refresh_token() {
    let config = config();
    let mut cache = Cache::fresh_from_config(&config);
    cache.apply_refresh_success(1717200000, "access-1".to_string(), None, Some(60));
    assert_eq!(cache.refresh_token, "refresh-0");
    assert_eq!(cache.access_token, "access-1");
}

#[test]
fn refresh_without_lifetime_keeps_expiry() {
    let config = config();
    let mut cache = Cache::fresh_from_config(&config);
    cache.access_token_expires = 4242;
    cache.apply_refresh_success(1717200000, "access-1".to_string(), None, None);
    assert_eq!(cache.access_token_expires, 4242);
}

#[test]
fn server_error_prefers_description() {
    let text = server_error_text(Some("invalid_grant".to_string()), "invalid_request".to_string());
    assert_eq!(text, "invalid_grant");
    let fallback = server_error_text(None, "invalid_request".to_string());
    assert_eq!(fallback, "invalid_request");
}

#[test]
fn alert_text_carries_the_server_description() {
    let err = RefreshError::ServerResponse("invalid_grant".to_string());
    assert_eq!(
        alert_message(&err),
        "Failed to refresh access token: Returned error by server: invalid_grant"
    );
}

#[test]
fn alert_text_names_each_failure_kind() {
    assert_eq!(
        alert_message(&RefreshError::Transport("connection reset".to_string())),
        "Failed to refresh access token: Failed to send/recv request: connection reset"
    );
    assert_eq!(
        alert_message(&RefreshError::Parse("unexpected body".to_string())),
        "Failed to refresh access token: Failed to parse JSON response: unexpected body"
    );
    assert_eq!(
        alert_message(&RefreshError::Other("http 500".to_string())),
        "Failed to refresh access token: Unexpected response: http 500"
    );
}

#[test]
fn record_announced_appends_in_order() {
    let config = config();
    let mut cache = Cache::fresh_from_config(&config);
    cache.record_announced("R1".to_string());
    cache.record_announced("R2".to_string());
    assert_eq!(cache.cached_recordings, vec!["R1".to_string(), "R2".to_string()]);
    assert!(cache.contains_recording(&"R1".to_string()));
    assert!(cache.contains_recording(&"R2".to_string()));
    assert!(!cache.contains_recording(&"R3".to_string()));
}
