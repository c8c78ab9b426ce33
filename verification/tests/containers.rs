use control_plane::containers::{container_env_vars, container_response, plan_container, plan_new_container};
use control_plane::models::{ContainerStatus, CreateContainerRequest};

fn request() -> CreateContainerRequest {
    CreateContainerRequest {
        task: "Review code PR #42".to_string(),
        skill_repos: Some(vec!["https://github.com/company/skills.git".to_string(), "https://x/y.git".to_string()]),
        skill_branch: None,
        cpu_limit: None,
        memory_limit: Some("8Gi".to_string()),
        idle_timeout: None,
        max_lifetime: Some(60),
        env: Some(vec![("FOO".to_string(), "bar".to_string())]),
    }
}

#[test]
fn plan_fills_defaults_and_environment() {
    let plan = plan_container("abc".to_string(), request(), Some("sk-1"));
    assert_eq!(plan.id, "abc");
    assert_eq!(plan.docker_name, "agent-abc");
    assert_eq!(plan.cpu_limit, "2");
    assert_eq!(plan.memory_limit, "8Gi");
    assert_eq!(plan.idle_timeout, 300);
    assert_eq!(plan.max_lifetime, 60);
    assert_eq!(
        plan.skill_repos_json,
        "[\"https://github.com/company/skills.git\",\"https://x/y.git\"]"
    );
    assert_eq!(
        plan.env_vars,
        vec![
            "TASK=Review code PR #42".to_string(),
            "CONTAINER_ID=abc".to_string(),
            "CONTROL_PLANE_URL=http://host.docker.internal:8080".to_string(),
            "SKILL_REPOS=https://github.com/company/skills.git,https://x/y.git".to_string(),
            "ANTHROPIC_API_KEY=sk-1".to_string(),
            "FOO=bar".to_string(),
        ]
    );
}

#[test]
fn request_key_wins_over_configured_key() {
    let extra = vec![("ANTHROPIC_API_KEY".to_string(), "mine".to_string())];
    let env = container_env_vars("t", "id", &vec![], Some("configured"), &extra);
    assert_eq!(
        env,
        vec![
            "TASK=t".to_string(),
            "CONTAINER_ID=id".to_string(),
            "CONTROL_PLANE_URL=http://host.docker.internal:8080".to_string(),
            "SKILL_REPOS=".to_string(),
            "ANTHROPIC_API_KEY=mine".to_string(),
        ]
    );
}

#[test]
fn request_cannot_override_base_variables() {
    let extra = vec![
        ("TASK".to_string(), "other".to_string()),
        ("A=B".to_string(), "1".to_string()),
        ("A".to_string(), "2".to_string()),
    ];
    let env = container_env_vars("t", "id", &vec!["r".to_string()], None, &extra);
    assert_eq!(
        env,
        vec![
            "TASK=t".to_string(),
            "CONTAINER_ID=id".to_string(),
            "CONTROL_PLANE_URL=http://host.docker.internal:8080".to_string(),
            "SKILL_REPOS=r".to_string(),
            "A=B=1".to_string(),
        ]
    );
}

#[test]
fn empty_request_gets_empty_repo_list() {
    let req = CreateContainerRequest {
        task: "t".to_string(),
        skill_repos: None,
        skill_branch: None,
        cpu_limit: Some("4".to_string()),
        memory_limit: None,
        idle_timeout: Some(5),
        max_lifetime: None,
        env: None,
    };
    let plan = plan_container("i".to_string(), req, None);
    assert_eq!(plan.skill_repos_json, "[]");
    assert_eq!(plan.cpu_limit, "4");
    assert_eq!(plan.memory_limit, "4Gi");
    assert_eq!(plan.idle_timeout, 5);
    assert_eq!(plan.max_lifetime, 3600);
    assert_eq!(plan.env_vars.len(), 4);
    assert_eq!(plan.env_vars[3], "SKILL_REPOS=");
}

#[test]
fn new_plans_get_fresh_uuids() {
    let a = plan_new_container(request(), None);
    let b = plan_new_container(request(), None);
    assert_eq!(a.id.len(), 36);
    assert_ne!(a.id, b.id);
    assert_eq!(a.docker_name, format!("agent-{}", a.id));
    assert_eq!(a.env_vars[1], format!("CONTAINER_ID={}", a.id));
}

#[test]
fn record_and_response_of_a_new_container() {
    let plan = plan_container("abc".to_string(), request(), None);
    let rec = plan.clone().into_record_at("agent-abc".to_string(), "2026-01-01T00:00:00+00:00".to_string());
    assert_eq!(rec.status, "Running");
    assert_eq!(rec.docker_id, Some("agent-abc".to_string()));
    assert_eq!(rec.created_at, rec.last_activity);
    assert_eq!(rec.skill_repos, plan.skill_repos_json);
    let resp = container_response(&rec);
    assert_eq!(resp.status, ContainerStatus::Running);
    assert_eq!(resp.id, "abc");
    let now = plan.into_record("agent-abc".to_string());
    assert!(now.created_at.ends_with("+00:00"));
    assert_eq!(now.created_at, now.last_activity);
}

#[test]
fn repo_list_json_escapes() {
    let mut req = request();
    req.skill_repos = Some(vec!["a\"b\\c\n\u{1}\u{7f}é".to_string(), String::new()]);
    let plan = plan_container("i".to_string(), req, None);
    assert_eq!(plan.skill_repos_json, "[\"a\\\"b\\\\c\\n\\u0001\u{7f}é\",\"\"]");
    let expected = serde_json::to_string(&vec!["a\"b\\c\n\u{1}\u{7f}é".to_string(), String::new()]).unwrap();
    assert_eq!(plan.skill_repos_json, expected);
}

#[test]
fn uuid_version_and_variant() {
    let p = plan_new_container(request(), None);
    let b = p.id.as_bytes();
    assert_eq!(b[14], b'4');
    assert!(matches!(b[19], b'8' | b'9' | b'a' | b'b'));
}
