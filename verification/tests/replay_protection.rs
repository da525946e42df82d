//! Replay protection on concrete nonces.

use axum::http::HeaderMap;
use stellar_router::clock::seconds_or_zero;
use stellar_router::replay_protection::{
    extract_nonce, NonceCache, ReplayError, ReplayProtectionConfig,
};

#[test]
fn test_nonce_cache_accepts_new_nonce() {
    let config = ReplayProtectionConfig { enabled: true, cache_size: 100, nonce_ttl_secs: 3600 };
    let mut cache = NonceCache::new(config);

    assert!(cache.check_and_add("nonce-1"));
}

#[test]
fn test_nonce_cache_rejects_duplicate() {
    let config = ReplayProtectionConfig { enabled: true, cache_size: 100, nonce_ttl_secs: 3600 };
    let mut cache = NonceCache::new(config);

    assert!(cache.check_and_add("nonce-1"));
    assert!(!cache.check_and_add("nonce-1"));
}

#[test]
fn test_nonce_cache_respects_size_limit() {
    let config = ReplayProtectionConfig { enabled: true, cache_size: 2, nonce_ttl_secs: 3600 };
    let mut cache = NonceCache::new(config);

    assert!(cache.check_and_add("nonce-1"));
    assert!(cache.check_and_add("nonce-2"));
    assert!(!cache.check_and_add("nonce-3"));
}

#[test]
fn test_extract_nonce() {
    let mut headers = HeaderMap::new();
    headers.insert("x-nonce", "test-nonce-123".parse().unwrap());

    let nonce = extract_nonce(&headers);
    assert_eq!(nonce, Some("test-nonce-123".to_string()));
}

fn cache(enabled: bool, cache_size: usize, nonce_ttl_secs: u64) -> NonceCache {
    NonceCache::new(ReplayProtectionConfig { enabled, cache_size, nonce_ttl_secs })
}

#[test]
fn nonces_are_forgotten_after_their_time() {
    let mut c = cache(true, 10, 60);
    assert!(c.check_and_add_at("n", 1_000));
    assert!(!c.check_and_add_at("n", 1_059));
    assert!(c.check_and_add_at("n", 1_060));
    // A clock that goes back forgets nothing.
    assert!(!c.check_and_add_at("n", 5));
}

#[test]
fn refused_nonces_do_not_renew_their_time() {
    let mut c = cache(true, 10, 60);
    assert!(c.check_and_add_at("n", 0));
    assert!(!c.check_and_add_at("n", 59));
    assert!(c.check_and_add_at("n", 60));
}

#[test]
fn room_is_made_by_old_nonces() {
    let mut c = cache(true, 2, 10);
    assert!(c.check_and_add_at("a", 0));
    assert!(c.check_and_add_at("b", 5));
    assert!(!c.check_and_add_at("c", 9));
    assert!(c.check_and_add_at("c", 10));
    assert!(!c.check_and_add_at("b", 10));
    let mut none = cache(true, 0, 10);
    assert!(!none.check_and_add_at("a", 0));
    let mut short = cache(true, 1, 0);
    assert!(short.check_and_add_at("a", 3));
    assert!(short.check_and_add_at("a", 3));
}

fn with_nonce(nonce: &str) -> HeaderMap {
    let mut headers = HeaderMap::new();
    headers.insert("x-nonce", nonce.parse().unwrap());
    headers
}

#[test]
fn requests_are_screened() {
    let mut c = cache(true, 10, 60);
    assert_eq!(c.screen_at(&HeaderMap::new(), 0), Err(ReplayError::MissingNonce));
    assert_eq!(c.screen_at(&with_nonce("n"), 0), Ok(()));
    assert_eq!(c.screen_at(&with_nonce("n"), 1), Err(ReplayError::DuplicateNonce));
    assert_eq!(c.screen(&HeaderMap::new()), Err(ReplayError::MissingNonce));
    assert_eq!(c.screen(&with_nonce("now")), Ok(()));
    assert_eq!(c.screen(&with_nonce("now")), Err(ReplayError::DuplicateNonce));
    let mut headers = HeaderMap::new();
    headers.insert("x-nonce", axum::http::HeaderValue::from_bytes(&[200]).unwrap());
    assert_eq!(c.screen_at(&headers, 0), Err(ReplayError::MissingNonce));
}

#[test]
fn without_protection_everything_passes() {
    let mut c = cache(false, 1, 60);
    assert_eq!(c.screen_at(&HeaderMap::new(), 0), Ok(()));
    assert_eq!(c.screen_at(&with_nonce("n"), 0), Ok(()));
    assert_eq!(c.screen_at(&with_nonce("n"), 0), Ok(()));
}

#[test]
fn responses() {
    assert_eq!(ReplayError::MissingNonce.response(), (400, "Missing X-Nonce header"));
    assert_eq!(
        ReplayError::DuplicateNonce.response(),
        (409, "Duplicate nonce detected (replay attack)")
    );
}

fn some(text: &str) -> Option<String> {
    Some(text.to_string())
}

#[test]
fn protection_from_the_environment() {
    let c = ReplayProtectionConfig::from_env(&None, &None, &None);
    assert_eq!((c.enabled, c.cache_size, c.nonce_ttl_secs), (false, 10000, 3600));
    let c = ReplayProtectionConfig::from_env(&some("TrUe"), &some("5"), &some("7"));
    assert_eq!((c.enabled, c.cache_size, c.nonce_ttl_secs), (true, 5, 7));
    let c = ReplayProtectionConfig::from_env(&some("yes"), &some("x"), &some("-7"));
    assert_eq!((c.enabled, c.cache_size, c.nonce_ttl_secs), (false, 10000, 3600));
    assert!(!ReplayProtectionConfig::from_env(&some("tru\u{e9}"), &None, &None).enabled);
    assert!(!ReplayProtectionConfig::from_env(&some("truee"), &None, &None).enabled);
}

#[test]
fn clocks_before_the_epoch() {
    assert_eq!(seconds_or_zero(None), 0);
    assert_eq!(seconds_or_zero(Some(9)), 9);
}
