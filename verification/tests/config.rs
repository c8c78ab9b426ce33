use control_plane::config::{cors_policy, is_header_value, parse_origins, AllowedHeaders, AllowedOrigins, Config};

#[test]
fn defaults_where_nothing_is_set() {
    let c = Config::from_vars(None, None, None, None, None, None);
    assert_eq!(c.database_url, "sqlite:agent_sandbox.db?mode=rwc");
    assert_eq!(c.server_addr, "0.0.0.0:8080");
    assert_eq!(c.agent_image, "agent-sandbox:latest");
    assert_eq!(c.api_key, None);
    assert_eq!(c.anthropic_api_key, None);
    assert_eq!(
        c.allowed_origins,
        vec![
            "http://localhost:3000".to_string(),
            "http://localhost:8080".to_string(),
            "http://127.0.0.1:3000".to_string(),
            "http://127.0.0.1:8080".to_string(),
        ]
    );
}

#[test]
fn set_values_are_taken() {
    let c = Config::from_vars(
        Some("sqlite::memory:".to_string()),
        Some("127.0.0.1:9".to_string()),
        Some("img".to_string()),
        Some("".to_string()),
        Some("sk".to_string()),
        Some(" https://a.example , ,https://b.example,".to_string()),
    );
    assert_eq!(c.database_url, "sqlite::memory:");
    assert_eq!(c.server_addr, "127.0.0.1:9");
    assert_eq!(c.agent_image, "img");
    assert_eq!(c.api_key, None);
    assert_eq!(c.anthropic_api_key, Some("sk".to_string()));
    assert_eq!(c.allowed_origins, vec!["https://a.example".to_string(), "https://b.example".to_string()]);
}

#[test]
fn origins_split_on_commas() {
    assert_eq!(parse_origins(""), Vec::<String>::new());
    assert_eq!(parse_origins("*"), vec!["*".to_string()]);
    assert_eq!(parse_origins("a,b"), vec!["a".to_string(), "b".to_string()]);
    assert_eq!(parse_origins(" \u{3000}x y\t"), vec!["x y".to_string()]);
}

#[test]
fn stored_keys_override_environment() {
    let c = Config::from_vars(None, None, None, Some("env".to_string()), Some("a".to_string()), None);
    let c = c.with_stored_keys(Some("db".to_string()), None);
    assert_eq!(c.api_key, Some("db".to_string()));
    assert_eq!(c.anthropic_api_key, Some("a".to_string()));
}

#[test]
fn wildcard_origin_allows_any() {
    let v = vec!["http://a".to_string(), "*".to_string()];
    let p = cors_policy(&v);
    assert!(matches!(p.origins, AllowedOrigins::Any));
    assert_eq!(p.headers, AllowedHeaders::Any);
    assert!(!p.allow_credentials);
    assert_eq!(p.methods, vec!["GET", "POST", "PUT", "PATCH", "DELETE", "OPTIONS"]);
}

#[test]
fn invalid_origins_are_dropped() {
    let v = vec!["http://a".to_string(), "bad\norigin".to_string(), "http://é".to_string()];
    let p = cors_policy(&v);
    match &p.origins {
        AllowedOrigins::List(o) => assert_eq!(*o, vec!["http://a".to_string(), "http://é".to_string()]),
        AllowedOrigins::Any => panic!("no wildcard was configured"),
    }
    assert_eq!(p.headers, AllowedHeaders::AuthorizationAndContentType);
    assert!(p.allow_credentials);
    assert_eq!(p.methods, vec!["GET", "POST", "PUT", "PATCH", "DELETE", "OPTIONS"]);
    assert!(is_header_value("tab\there"));
    assert!(!is_header_value("del\u{7f}"));
}
