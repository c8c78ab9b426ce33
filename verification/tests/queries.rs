use control_plane::db::{plan_list_containers, sort_column, sort_direction};
use control_plane::models::ListContainersQuery;

const SELECT: &str = "SELECT id, task, status, docker_id, skill_repos, cpu_limit, memory_limit, idle_timeout, max_lifetime, created_at, last_activity FROM containers ";

#[test]
fn listing_without_filters() {
    let p = plan_list_containers(None, None, "created_at", "desc", 1, 20);
    assert_eq!(p.data_query, format!("{} ORDER BY created_at DESC LIMIT ? OFFSET ?", SELECT));
    assert_eq!(p.count_query, "SELECT COUNT(*) FROM containers ");
    assert!(p.binds.is_empty());
    assert_eq!(p.limit, 20);
    assert_eq!(p.offset, 0);
}

#[test]
fn listing_by_status() {
    let p = plan_list_containers(Some("Running"), None, "created_at", "desc", 1, 20);
    assert_eq!(
        p.data_query,
        format!("{}WHERE status = ? ORDER BY created_at DESC LIMIT ? OFFSET ?", SELECT)
    );
    assert_eq!(p.count_query, "SELECT COUNT(*) FROM containers WHERE status = ?");
    assert_eq!(p.binds, vec!["Running".to_string()]);
}

#[test]
fn listing_by_search_and_status() {
    let p = plan_list_containers(Some("Idle"), Some("PR #42"), "task", "asc", 3, 10);
    assert_eq!(
        p.data_query,
        format!(
            "{}WHERE status = ? AND (task LIKE ? OR id LIKE ?) ORDER BY task ASC LIMIT ? OFFSET ?",
            SELECT
        )
    );
    assert_eq!(
        p.count_query,
        "SELECT COUNT(*) FROM containers WHERE status = ? AND (task LIKE ? OR id LIKE ?)"
    );
    assert_eq!(p.binds, vec!["Idle".to_string(), "%PR #42%".to_string(), "%PR #42%".to_string()]);
    assert_eq!(p.limit, 10);
    assert_eq!(p.offset, 20);
}

#[test]
fn empty_filters_are_ignored() {
    let p = plan_list_containers(Some(""), Some(""), "created_at", "desc", 1, 20);
    assert!(p.binds.is_empty());
    assert_eq!(p.count_query, "SELECT COUNT(*) FROM containers ");
}

#[test]
fn paging_is_clamped() {
    let p = plan_list_containers(None, None, "created_at", "desc", 0, 0);
    assert_eq!((p.limit, p.offset), (1, 0));
    let p = plan_list_containers(None, None, "created_at", "desc", -5, 1000);
    assert_eq!((p.limit, p.offset), (100, 0));
    let p = plan_list_containers(None, None, "created_at", "desc", 4, 2);
    assert_eq!((p.limit, p.offset), (2, 6));
}

#[test]
fn only_known_columns_order_the_listing() {
    assert_eq!(sort_column("last_activity"), "last_activity");
    assert_eq!(sort_column("status"), "status");
    assert_eq!(sort_column("id; DROP TABLE containers"), "created_at");
    assert_eq!(sort_direction("asc"), "ASC");
    assert_eq!(sort_direction("ASC"), "DESC");
    let p = plan_list_containers(None, None, "evil", "sideways", 1, 20);
    assert!(p.data_query.ends_with("ORDER BY created_at DESC LIMIT ? OFFSET ?"));
}

#[test]
fn listing_defaults() {
    let q = ListContainersQuery { status: None, search: None, sort_by: None, sort_order: None, page: None, per_page: None };
    let p = q.listing();
    assert_eq!((p.sort_by.as_str(), p.sort_order.as_str(), p.page, p.per_page), ("created_at", "desc", 1, 20));
    let q = ListContainersQuery {
        status: Some("Idle".to_string()),
        search: Some("x".to_string()),
        sort_by: Some("task".to_string()),
        sort_order: Some("asc".to_string()),
        page: Some(3),
        per_page: Some(7),
    };
    let p = q.listing();
    assert_eq!(p.status.as_deref(), Some("Idle"));
    assert_eq!(p.search.as_deref(), Some("x"));
    assert_eq!((p.sort_by.as_str(), p.sort_order.as_str(), p.page, p.per_page), ("task", "asc", 3, 7));
}
