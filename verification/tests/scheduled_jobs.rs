use rainy_mate::scheduler::{failed_outcome, no_app_outcome, JobTable};
use rainy_mate::tasks::{QueueState, Task, TaskQueue, TaskStatus};

#[test]
fn jobs_are_listed_newest_first_and_removed_by_id() {
    let mut t = JobTable::new();
    assert_eq!(t.add_job("a".into(), "0 * * * * *".into(), "agent".into(), "{}".into(), Ok(100), 10), Ok(()));
    assert_eq!(t.add_job("b".into(), "0 * * * * *".into(), "agent".into(), "{}".into(), Ok(200), 20), Ok(()));
    assert_eq!(
        t.add_job("a".into(), "0 * * * * *".into(), "agent".into(), "{}".into(), Ok(300), 30),
        Err("error returned from database: (code: 1555) UNIQUE constraint failed: scheduled_jobs.id".to_string())
    );
    let ids: Vec<String> = t.list_jobs().into_iter().map(|j| j.id).collect();
    assert_eq!(ids, vec!["b".to_string(), "a".to_string()]);
    t.remove_job("b");
    let ids: Vec<String> = t.list_jobs().into_iter().map(|j| j.id).collect();
    assert_eq!(ids, vec!["a".to_string()]);
}

#[test]
fn job_with_bad_schedule_is_refused() {
    let mut t = JobTable::new();
    let r = t.add_job("a".into(), "bad".into(), "agent".into(), "{}".into(), Err("Invalid cron schedule: x".into()), 10);
    assert_eq!(r, Err("Invalid cron schedule: x".to_string()));
    assert!(t.list_jobs().is_empty());
    let r = t.add_job_now("a".into(), "not a cron".into(), "agent".into(), "{}".into());
    assert!(r.unwrap_err().starts_with("Invalid cron schedule: "));
    assert!(t.list_jobs().is_empty());
}

#[test]
fn due_jobs_are_rescheduled() {
    let mut t = JobTable::new();
    t.add_job("a".into(), "s".into(), "agent".into(), "{}".into(), Ok(100), 1).unwrap();
    t.add_job("b".into(), "s".into(), "agent".into(), "{}".into(), Ok(500), 2).unwrap();
    let due: Vec<String> = t.due_jobs(100).into_iter().map(|j| j.id).collect();
    assert_eq!(due, vec!["a".to_string()]);
    t.reschedule("a", Some(900));
    assert!(t.due_jobs(100).is_empty());
    t.reschedule("b", None);
    assert_eq!(t.due_jobs(500).len(), 1);
}

#[test]
fn failed_runs_say_when_approval_blocked_them() {
    let o = failed_outcome("tool call blocked by Airlock");
    assert_eq!(o.status, "failed");
    assert!(o.blocked_by_approval);
    assert_eq!(o.error.as_deref(), Some("tool call blocked by Airlock"));
    let o = failed_outcome("network down");
    assert!(!o.blocked_by_approval);
    assert_eq!(o.artifact_count, 0);
    let o = failed_outcome("waiting on user decision");
    assert!(o.blocked_by_approval);
    let o = no_app_outcome();
    assert_eq!(o.error.as_deref(), Some("Scheduler app handle not initialized"));
    assert!(!o.blocked_by_approval);
}

fn task(id: &str) -> Task {
    Task {
        id: id.to_string(),
        description: format!("task {}", id),
        provider: "p".to_string(),
        model: "m".to_string(),
        status: TaskStatus::Pending,
        dependencies: vec![],
        error: None,
        completed_at: None,
        workspace_id: None,
        workspace_path: None,
    }
}

#[test]
fn restored_snapshot_gives_back_the_queue() {
    let mut q = TaskQueue::new();
    q.enqueue(task("a"), 5);
    q.enqueue(task("b"), 6);
    let started = q.dequeue().unwrap();
    q.complete_task(&started.id);
    let snap = QueueState::from_queue(&q);
    assert_eq!(snap.pending.len(), 1);
    assert_eq!(snap.completed.len(), 1);
    let mut r = TaskQueue::new();
    snap.restore_to_queue(&mut r, 99);
    let before: Vec<String> = q.get_all_tasks().into_iter().map(|t| t.id).collect();
    let after: Vec<String> = r.get_all_tasks().into_iter().map(|t| t.id).collect();
    assert_eq!(before, after);
    assert_eq!(r.pending_count(), 1);
}
