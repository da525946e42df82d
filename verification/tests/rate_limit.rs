//! Rate limiting on concrete requests.

use axum::http::HeaderMap;
use stellar_router::clock::Duration;
use stellar_router::rate_limit::{
    choose_key, limit_key, EnvVar, RateConfigError, RateLimitConfig, RateLimiter, RateVariable,
    Rejection,
};

const SEC: u128 = 1_000_000_000;

fn limiter(max_requests: u32, window_secs: u64) -> RateLimiter {
    RateLimiter::new(RateLimitConfig {
        max_requests,
        window: Duration::from_secs(window_secs),
    })
}

#[test]
fn allows_requests_within_limit() {
    let mut limiter = limiter(2, 60);

    assert!(limiter.check("ip:127.0.0.1"));
    assert!(limiter.check("ip:127.0.0.1"));
}

#[test]
fn rejects_requests_after_limit() {
    let mut limiter = limiter(1, 60);

    assert!(limiter.check("ip:127.0.0.1"));
    assert!(!limiter.check("ip:127.0.0.1"));
}

#[test]
fn tracks_keys_independently() {
    let mut limiter = limiter(1, 60);

    assert!(limiter.check("ip:127.0.0.1"));
    assert!(limiter.check("ip:127.0.0.2"));
    assert!(!limiter.check("ip:127.0.0.1"));
}

#[test]
fn windows_begin_with_their_first_request() {
    let mut l = limiter(2, 60);
    assert!(l.check_at("k", 5 * SEC));
    assert!(l.check_at("k", 64 * SEC));
    assert!(!l.check_at("k", 65 * SEC - 1));
    // The window is over after exactly its length.
    assert!(l.check_at("k", 65 * SEC));
    assert!(l.check_at("k", 66 * SEC));
    assert!(!l.check_at("k", 67 * SEC));
    // Times before the window count as its beginning.
    assert!(!l.check_at("k", 0));
}

#[test]
fn retry_times() {
    let mut l = limiter(1, 60);
    assert_eq!(l.retry_after_secs_at("k", 0), 1);
    l.check_at("k", 0);
    assert_eq!(l.retry_after_secs_at("k", 0), 60);
    assert_eq!(l.retry_after_secs_at("k", SEC / 2), 59);
    assert_eq!(l.retry_after_secs_at("k", 58 * SEC), 2);
    assert_eq!(l.retry_after_secs_at("k", 59 * SEC + 1), 1);
    assert_eq!(l.retry_after_secs_at("k", 60 * SEC), 1);
    assert_eq!(l.retry_after_secs_at("k", 600 * SEC), 1);
    assert_eq!(l.retry_after_secs("unknown"), 1);
    let mut short = RateLimiter::new(RateLimitConfig {
        max_requests: 1,
        window: Duration::from_millis(1_500),
    });
    assert!(short.check_at("k", 0));
    assert!(!short.check_at("k", 1_499_999_999));
    assert!(short.check_at("k", 1_500_000_000));
    assert_eq!(Duration::from_millis(1_500).as_nanos(), 1_500_000_000);
}

#[test]
fn a_window_without_length_lets_everything_through() {
    let mut l = limiter(1, 0);
    assert!(l.check_at("k", 7));
    assert!(l.check_at("k", 7));
}

#[test]
fn keys_come_from_the_api_key_or_the_address() {
    let mut headers = HeaderMap::new();
    assert_eq!(limit_key(&headers, "10.0.0.1"), "ip:10.0.0.1");
    headers.insert("x-api-key", "secret-key".parse().unwrap());
    assert_eq!(limit_key(&headers, "10.0.0.1"), "api-key:secret-key");
    headers.insert("x-api-key", "".parse().unwrap());
    assert_eq!(limit_key(&headers, "10.0.0.1"), "ip:10.0.0.1");
    let opaque = axum::http::HeaderValue::from_bytes(&[0xff, 0xfe]).unwrap();
    headers.insert("x-api-key", opaque);
    assert_eq!(limit_key(&headers, "10.0.0.1"), "ip:10.0.0.1");
    headers.insert("X-API-Key", "a\tb".parse().unwrap());
    assert_eq!(limit_key(&headers, "::1"), "api-key:a\tb");
    headers.append("x-api-key", "second".parse().unwrap());
    assert_eq!(limit_key(&headers, "::1"), "api-key:a\tb");
    assert_eq!(choose_key(&None, "x"), "ip:x");
    assert_eq!(choose_key(&Some("v".to_string()), "x"), "api-key:v");
}

#[test]
fn requests_over_the_limit_are_turned_away_by_address() {
    let mut l = limiter(2, 60);
    let headers = HeaderMap::new();
    assert!(l.screen_at(&headers, "127.0.0.1", 0, 0).is_none());
    assert!(l.screen_at(&headers, "127.0.0.1", 1, 1).is_none());
    let r = l.screen_at(&headers, "127.0.0.1", 2, 10 * SEC).unwrap();
    assert_eq!(r.status, 429);
    assert_eq!(r.retry_after, "50");
    assert_eq!(r.retry_after_secs, 50);
    assert_eq!(r.error, "rate_limit_exceeded");
    assert_eq!(r.message, "Too many requests. Retry after 50 second(s).");
}

#[test]
fn api_keys_count_before_the_address() {
    let mut l = limiter(1, 60);
    let with = |key: &str| {
        let mut headers = HeaderMap::new();
        headers.insert("x-api-key", key.parse().unwrap());
        headers
    };
    assert!(l.screen(&with("key-a"), "127.0.0.1").is_none());
    assert!(l.screen(&with("key-b"), "127.0.0.1").is_none());
    assert!(l.screen(&with("key-a"), "127.0.0.1").is_some());
    assert!(l.screen(&HeaderMap::new(), "127.0.0.1").is_none());
}

fn text(value: &str) -> EnvVar {
    EnvVar::Text(value.to_string())
}

#[test]
fn configuration_from_the_environment() {
    let c = RateLimitConfig::from_env(&EnvVar::Unset, &EnvVar::Unset).unwrap();
    assert_eq!((c.max_requests, c.window.as_nanos()), (60, 60 * SEC));
    let c = RateLimitConfig::from_env(&text("5"), &text("+90")).unwrap();
    assert_eq!((c.max_requests, c.window), (5, Duration::from_secs(90)));
    let d = RateLimitConfig::default();
    assert_eq!((d.max_requests, d.window), (60, Duration::from_secs(60)));
}

fn config_error(max: EnvVar, window: EnvVar) -> RateConfigError {
    RateLimitConfig::from_env(&max, &window).unwrap_err()
}

#[test]
fn configuration_errors() {
    let max = RateVariable::MaxRequests;
    let window = RateVariable::WindowSecs;
    assert_eq!(config_error(text("0"), text("x")), RateConfigError::Zero(max));
    assert_eq!(config_error(text("4294967296"), text("1")), RateConfigError::NotAnInteger(max));
    assert_eq!(config_error(text(""), text("1")), RateConfigError::NotAnInteger(max));
    assert_eq!(config_error(EnvVar::NotText, text("1")), RateConfigError::Unreadable(max));
    assert_eq!(config_error(text("1"), text("0")), RateConfigError::Zero(window));
    assert_eq!(config_error(text("1"), text("-1")), RateConfigError::NotAnInteger(window));
    assert_eq!(config_error(text("1"), EnvVar::NotText), RateConfigError::Unreadable(window));
    assert_eq!(
        RateConfigError::Zero(max).message(),
        "ROUTER_API_MAX_REQUESTS must be greater than 0"
    );
    assert_eq!(
        RateConfigError::NotAnInteger(window).message(),
        "ROUTER_API_RATE_WINDOW_SECS must be a positive integer"
    );
    assert_eq!(
        RateConfigError::Unreadable(max).message(),
        "failed to read ROUTER_API_MAX_REQUESTS"
    );
}

#[test]
fn rejection_words() {
    let r = Rejection::new(1);
    assert_eq!(r.message, "Too many requests. Retry after 1 second(s).");
    assert_eq!(r.retry_after, "1");
}
