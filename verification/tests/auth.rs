use control_plane::auth::{authorize, bearer_token_of};

#[test]
fn no_key_allows_health() {
    assert!(authorize(None, "/health", None));
}

#[test]
fn no_key_allows_protected() {
    assert!(authorize(None, "/api/test", None));
}

#[test]
fn health_skips_auth() {
    assert!(authorize(Some("secret"), "/health", None));
}

#[test]
fn missing_key_returns_401() {
    assert!(!authorize(Some("secret"), "/api/test", None));
}

#[test]
fn wrong_key_returns_401() {
    assert!(!authorize(Some("secret"), "/api/test", Some("Bearer wrong")));
}

#[test]
fn correct_key_passes() {
    assert!(authorize(Some("secret"), "/api/test", Some("Bearer secret")));
}

#[test]
fn wrong_format_key_returns_401() {
    assert!(!authorize(Some("secret"), "/api/test", Some("Basic secret")));
}

#[test]
fn empty_api_key_still_401() {
    assert!(!authorize(Some("secret"), "/api/test", Some("Bearer ")));
}

#[test]
fn guarded_route_needs_the_key() {
    // A guarded route without the bearer token is refused; with it, it passes.
    assert!(!authorize(Some("secret"), "/api/test", None));
    assert!(authorize(Some("secret"), "/api/test", Some("Bearer secret")));
}

#[test]
fn bearer_prefix_is_exact() {
    assert!(!authorize(Some("secret"), "/api/containers", Some("bearer secret")));
    assert!(!authorize(Some("secret"), "/api/containers", Some("Bearer secret ")));
    assert!(!authorize(Some("secret"), "/health/", None));
    assert_eq!(bearer_token_of("Bearer abc"), Some(vec!['a', 'b', 'c']));
    assert_eq!(bearer_token_of("Bearer"), None);
}
