use control_plane::auth::authorize;
use control_plane::config::Config;
use control_plane::setup::{apply_config_update, SetupStatus, UpdateConfigRequest};

#[test]
fn ready_only_when_everything_is() {
    let s = SetupStatus::from_probe(Some((true, true)), "img".to_string(), &Some("k".to_string()), "/srv".to_string());
    assert!(s.all_ready);
    assert_eq!(s.agent_image_name, "img");
    let s = SetupStatus::from_probe(Some((true, false)), "img".to_string(), &Some("k".to_string()), "/srv".to_string());
    assert!(!s.all_ready);
    assert!(s.docker_connected);
    let s = SetupStatus::from_probe(None, "img".to_string(), &Some("k".to_string()), String::new());
    assert!(!s.docker_connected && !s.agent_image_ready && !s.all_ready);
    assert_eq!(s.agent_image_name, "");
    let s = SetupStatus::from_probe(Some((true, true)), "img".to_string(), &None, String::new());
    assert!(!s.api_key_configured && !s.all_ready);
}

#[test]
fn new_key_takes_effect() {
    let mut c = Config::from_vars(None, None, None, None, None, None);
    let r = apply_config_update(&mut c, &UpdateConfigRequest { api_key: Some("fresh".to_string()) });
    assert!(r.api_key_updated);
    assert_eq!(r.new_api_key, Some("fresh".to_string()));
    assert_eq!(c.api_key, Some("fresh".to_string()));
    assert!(authorize(c.api_key.as_deref(), "/api/stats", Some("Bearer fresh")));
    assert!(!authorize(c.api_key.as_deref(), "/api/stats", None));
}

#[test]
fn empty_or_missing_key_changes_nothing() {
    let mut c = Config::from_vars(None, None, None, Some("old".to_string()), None, None);
    let r = apply_config_update(&mut c, &UpdateConfigRequest { api_key: Some(String::new()) });
    assert!(!r.api_key_updated);
    assert_eq!(r.new_api_key, None);
    let r = apply_config_update(&mut c, &UpdateConfigRequest { api_key: None });
    assert!(!r.api_key_updated);
    assert_eq!(c.api_key, Some("old".to_string()));
}
