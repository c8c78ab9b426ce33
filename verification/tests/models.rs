use control_plane::models::{status_after_report, Container, ContainerStatus, StatsResponse, StatusCount};

fn sample() -> Container {
    Container {
        id: "test-1".to_string(),
        task: "test task".to_string(),
        status: "Running".to_string(),
        docker_id: Some("test-docker-id".to_string()),
        skill_repos: "[]".to_string(),
        cpu_limit: "1".to_string(),
        memory_limit: "1Gi".to_string(),
        idle_timeout: 300,
        max_lifetime: 3600,
        created_at: "2026-05-28T10:23:51+00:00".to_string(),
        last_activity: "2026-05-28T10:23:51+00:00".to_string(),
    }
}

#[test]
fn status_names_round_trip() {
    let all = [
        ContainerStatus::Creating,
        ContainerStatus::Running,
        ContainerStatus::Idle,
        ContainerStatus::Stopping,
        ContainerStatus::Stopped,
        ContainerStatus::Failed,
    ];
    for s in all {
        assert_eq!(ContainerStatus::from_str(&s.to_string()), s);
    }
    assert_eq!(ContainerStatus::Stopping.to_string(), "Stopping");
}

#[test]
fn unknown_status_reads_as_failed() {
    assert_eq!(ContainerStatus::from_str("running"), ContainerStatus::Failed);
    assert_eq!(ContainerStatus::from_str(""), ContainerStatus::Failed);
    assert_eq!(ContainerStatus::from_str("Idle"), ContainerStatus::Idle);
}

#[test]
fn set_status_changes_only_the_status() {
    let mut c = sample();
    assert_eq!(c.get_status(), ContainerStatus::Running);
    c.set_status(ContainerStatus::Stopped);
    assert_eq!(c.status, "Stopped");
    assert_eq!(c.get_status(), ContainerStatus::Stopped);
    assert_eq!(c.id, "test-1");
    assert_eq!(c.memory_limit, "1Gi");
}

#[test]
fn sidecar_reports_map_to_statuses() {
    assert_eq!(status_after_report("completed"), Some(ContainerStatus::Stopped));
    assert_eq!(status_after_report("failed"), Some(ContainerStatus::Failed));
    assert_eq!(status_after_report("running"), None);
    assert_eq!(status_after_report("Completed"), None);
}

#[test]
fn stats_count_each_status() {
    let rows = vec![
        StatusCount { status: "Running".to_string(), count: 1 },
        StatusCount { status: "Stopped".to_string(), count: 1 },
    ];
    let stats = StatsResponse::from_rows(rows, 2);
    assert_eq!(stats.total, 2);
    assert_eq!(stats.count_for("Running"), Some(1));
    assert_eq!(stats.count_for("Stopped"), Some(1));
    assert_eq!(stats.count_for("Idle"), None);
}

#[test]
fn stats_keep_last_row_of_a_status() {
    let rows = vec![
        StatusCount { status: "Running".to_string(), count: 3 },
        StatusCount { status: "Idle".to_string(), count: 2 },
        StatusCount { status: "Running".to_string(), count: 5 },
    ];
    let stats = StatsResponse::from_rows(rows, 10);
    assert_eq!(stats.by_status.len(), 2);
    assert_eq!(stats.count_for("Running"), Some(5));
    assert_eq!(stats.count_for("Idle"), Some(2));
}
