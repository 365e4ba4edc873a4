use axum_api::json::Json;
use axum_api::offload::{api_failure, normalize_base_url, poll_endpoint, status_is_terminal, submission, ClientError,
    TaskId, TaskStatus};

#[test]
fn base_url_trimmed() {
    assert_eq!(normalize_base_url("http://q:3000//"), "http://q:3000");
    assert_eq!(normalize_base_url("http://q"), "http://q");
    assert_eq!(poll_endpoint("http://q", "cap", "7"), "http://q/api/task/poll/cap/7");
}

#[test]
fn task_id_text() {
    let id = TaskId { cap: "ocr".to_string(), id: "42".to_string() };
    assert_eq!(id.to_text(), "ocr[42]");
}

#[test]
fn terminal_statuses() {
    assert!(status_is_terminal(&TaskStatus::Completed));
    assert!(status_is_terminal(&TaskStatus::Failed));
    assert!(status_is_terminal(&TaskStatus::Canceled));
    assert!(!status_is_terminal(&TaskStatus::Running));
    assert!(!status_is_terminal(&TaskStatus::Pinned("x".to_string())));
}

#[test]
fn urgent_tasks_not_restartable() {
    let r = submission("cap", Json::Null, true, true, vec![], vec![], "key");
    assert!(r.urgent && !r.restartable);
    let r2 = submission("cap", Json::Null, false, true, vec![], vec![], "key");
    assert!(!r2.urgent && r2.restartable);
    assert_eq!(r2.api_key, "key");
}

#[test]
fn client_error_messages() {
    assert!(matches!(api_failure("submit task", "nope"), ClientError::Api(m) if m == "Failed to submit task: nope"));
    assert_eq!(ClientError::Network("down".to_string()).message(), "Network error: down");
}
