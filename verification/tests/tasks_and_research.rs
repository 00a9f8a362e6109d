use rainy_mate::research::{
    check_research_url, http_status_error, FetchStep, WebContent, WebResearchError,
    WebResearchService,
};
use rainy_mate::tasks::{Task, TaskManager, TaskQueue, TaskStatus, WorkspaceContext};

fn task(id: &str, deps: &[&str]) -> Task {
    Task {
        id: id.to_string(),
        description: format!("do {}", id),
        provider: "rainy_api".to_string(),
        model: "gemini".to_string(),
        status: TaskStatus::Pending,
        dependencies: deps.iter().map(|d| d.to_string()).collect(),
        error: None,
        completed_at: None,
        workspace_id: None,
        workspace_path: None,
    }
}

fn workspace() -> WorkspaceContext {
    WorkspaceContext {
        id: "ws-1".to_string(),
        can_execute: true,
        allowed_paths: vec!["/home/me/project".to_string()],
    }
}

#[test]
fn dequeue_waits_for_dependencies() {
    let mut q = TaskQueue::new();
    q.enqueue(task("a", &[]), 10);
    q.enqueue(task("b", &["a"]), 20);
    let first = q.dequeue().expect("a is ready");
    assert_eq!(first.id, "a");
    assert!(q.dequeue().is_none(), "b waits for a");
    q.complete_task("a");
    let second = q.dequeue().expect("b is ready once a completed");
    assert_eq!(second.id, "b");
    assert_eq!(q.running_count(), 1);
    assert_eq!(q.pending_count(), 0);
}

#[test]
fn a_failed_dependency_also_releases_its_dependents() {
    let mut q = TaskQueue::new();
    q.enqueue(task("a", &[]), 10);
    q.enqueue(task("b", &["a"]), 20);
    q.dequeue();
    q.fail_task("a", "provider down".to_string(), 30);
    let failed = q.get_task("a").unwrap();
    assert_eq!(failed.status, TaskStatus::Failed);
    assert_eq!(failed.error.as_deref(), Some("provider down"));
    assert_eq!(failed.completed_at, Some(30));
    assert_eq!(q.dequeue().unwrap().id, "b");
}

#[test]
fn the_latest_ready_task_is_started_first() {
    let mut q = TaskQueue::new();
    q.enqueue(task("early", &[]), 10);
    q.enqueue(task("late", &[]), 20);
    q.enqueue(task("blocked", &["missing"]), 30);
    assert_eq!(q.dequeue().unwrap().id, "late");
    assert_eq!(q.dequeue().unwrap().id, "early");
    assert!(q.dequeue().is_none());
    assert_eq!(q.pending_count(), 1);
}

#[test]
fn all_tasks_are_listed_by_state() {
    let mut q = TaskQueue::new();
    q.enqueue(task("a", &[]), 1);
    q.enqueue(task("b", &[]), 2);
    q.enqueue(task("c", &["zzz"]), 3);
    q.dequeue();
    q.dequeue();
    q.complete_task("a");
    let ids: Vec<String> = q.get_all_tasks().into_iter().map(|t| t.id).collect();
    assert_eq!(ids, vec!["c", "b", "a"]);
    assert!(q.get_task("nope").is_none());
    assert_eq!(q.get_task("c").unwrap().id, "c");
}

#[test]
fn completing_an_unknown_task_changes_nothing() {
    let mut q = TaskQueue::new();
    q.enqueue(task("a", &[]), 1);
    q.complete_task("a");
    assert_eq!(q.pending_count(), 1);
    assert_eq!(q.running_count(), 0);
}

#[test]
fn tasks_are_validated_against_the_workspace() {
    let mut m = TaskManager::new();
    assert_eq!(m.add_task_with_validation(task("a", &[]), 1), Err("No workspace context set".to_string()));
    m.set_workspace(workspace());
    assert_eq!(m.add_task_with_validation(task("a", &[]), 1), Ok(()));
    assert_eq!(m.get_task("a").unwrap().workspace_id.as_deref(), Some("ws-1"));

    let mut other = task("b", &[]);
    other.workspace_id = Some("ws-2".to_string());
    assert_eq!(
        m.add_task_with_validation(other, 2),
        Err("Task belongs to different workspace: ws-2".to_string())
    );

    let mut outside = task("c", &[]);
    outside.workspace_path = Some("/etc".to_string());
    assert_eq!(
        m.add_task_with_validation(outside, 3),
        Err("Task workspace path /etc is not within allowed paths".to_string())
    );

    let mut inside = task("d", &[]);
    inside.workspace_path = Some("/home/me/project/src".to_string());
    assert_eq!(m.add_task_validated(inside, 4), Ok(()));
    assert_eq!(m.pending_task_count(), 2);
    assert_eq!(m.max_concurrent_tasks(), 3);
}

#[test]
fn a_workspace_without_execution_refuses_tasks() {
    let mut ws = workspace();
    ws.can_execute = false;
    let mut m = TaskManager::with_workspace(ws);
    assert_eq!(
        m.add_task_validated(task("a", &[]), 1),
        Err("Task execution not permitted in this workspace".to_string())
    );
    assert_eq!(m.list_tasks().len(), 0);
}

#[test]
fn tasks_start_finish_and_fail() {
    let mut m = TaskManager::with_workspace(workspace());
    assert_eq!(m.begin_next_task().unwrap_err(), "No tasks available to execute");
    m.add_task(task("a", &[]), 1);
    m.add_task(task("b", &[]), 2);
    let b = m.begin_next_task().unwrap();
    assert_eq!(b.id, "b");
    assert_eq!(m.running_task_count(), 1);
    assert_eq!(m.finish_task("b", Err("timeout".to_string()), 5), Err("timeout".to_string()));
    assert_eq!(m.get_task("b").unwrap().status, TaskStatus::Failed);
    let a = m.begin_next_task().unwrap();
    assert_eq!(m.finish_task(&a.id, Ok(()), 6), Ok(()));
    assert_eq!(m.running_task_count(), 0);
}

#[test]
fn running_tasks_pause_and_resume() {
    let mut m = TaskManager::with_workspace(workspace());
    m.add_task(task("a", &[]), 1);
    assert_eq!(m.pause_task("a"), Err("Task not found or not running: a".to_string()));
    m.begin_next_task().unwrap();
    assert_eq!(m.resume_task("a"), Err("Task is not paused".to_string()));
    assert_eq!(m.pause_task("a"), Ok(()));
    assert_eq!(m.get_task("a").unwrap().status, TaskStatus::Paused);
    assert_eq!(m.resume_task("a"), Ok(()));
    assert_eq!(m.get_task("a").unwrap().status, TaskStatus::Running);
}

#[test]
fn cancelled_tasks_move_to_the_completed_ones() {
    let mut m = TaskManager::with_workspace(workspace());
    m.add_task(task("a", &[]), 1);
    m.add_task(task("b", &["a"]), 2);
    m.begin_next_task().unwrap();
    assert_eq!(m.cancel_task("a", 9), Ok(()));
    let a = m.get_task("a").unwrap();
    assert_eq!(a.status, TaskStatus::Cancelled);
    assert_eq!(a.completed_at, Some(9));
    assert_eq!(m.cancel_task("b", 10), Ok(()));
    assert_eq!(m.pending_task_count(), 0);
    assert_eq!(m.get_task("b").unwrap().status, TaskStatus::Cancelled);
    assert_eq!(m.cancel_task("zzz", 11), Err("Task not found: zzz".to_string()));
}

#[test]
fn test_invalid_url() {
    let mut service = WebResearchService::new();
    let result = service.begin_fetch("not-a-valid-url", 0);
    assert!(matches!(result, FetchStep::Refused(WebResearchError::InvalidUrl(_))));
}

#[test]
fn test_non_http_url() {
    let mut service = WebResearchService::new();
    let result = service.begin_fetch("ftp://example.com", 0);
    assert!(matches!(result, FetchStep::Refused(WebResearchError::InvalidUrl(_))));
}

#[test]
fn research_urls_must_be_http() {
    assert!(check_research_url("https://example.com/a").is_ok());
    match check_research_url("ftp://example.com") {
        Err(WebResearchError::InvalidUrl(m)) => assert_eq!(m, "Only HTTP/HTTPS URLs are supported"),
        other => panic!("unexpected {:?}", other),
    }
    match check_research_url("not-a-valid-url") {
        Err(e) => assert_eq!(e.message(), "Invalid URL: relative URL without a base"),
        Ok(()) => panic!("accepted a relative URL"),
    }
}

#[test]
fn research_errors_read_as_text() {
    assert_eq!(http_status_error(404, Some("Not Found")).message(), "Failed to fetch URL: HTTP 404 - Not Found");
    assert_eq!(http_status_error(599, None).message(), "Failed to fetch URL: HTTP 599 - Unknown");
    assert_eq!(WebResearchError::RateLimited(30).message(), "Rate limited: try again in 30 seconds");
    assert_eq!(
        WebResearchError::ExtractionError("bad html".to_string()).message(),
        "Content extraction failed: bad html"
    );
}

fn page(url: &str) -> WebContent {
    WebContent {
        url: url.to_string(),
        title: "Title".to_string(),
        content_markdown: "# Title".to_string(),
        description: None,
        extracted_at: 100,
        size_bytes: 7,
    }
}

#[test]
fn cached_pages_expire_after_five_minutes() {
    let mut service = WebResearchService::new();
    let url = "https://example.com/";
    service.cache_content(url, &page(url), 100);
    match service.begin_fetch(url, 399) {
        FetchStep::Cached(c) => assert_eq!(c.title, "Title"),
        other => panic!("expected a cached page, got {:?}", other),
    }
    assert_eq!(service.cache_stats(399), (1, 1));
    assert_eq!(service.cache_stats(400), (1, 0));
    assert!(matches!(service.begin_fetch(url, 400), FetchStep::Fetch));
    assert_eq!(service.cache_stats(400), (0, 0));
    service.cache_content(url, &page(url), 500);
    service.clear_cache();
    assert!(service.get_cached(url, 500).is_none());
}
