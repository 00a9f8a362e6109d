use rainy_mate::schedule::{WorkspaceScheduledRun, WorkspaceScheduledRunUpdate};
use rainy_mate::scheduler::{run_notification, RunOutcome, WorkspaceRunTable};

/// The first-party scenarios these tests know, with their titles.
fn catalog(id: &str) -> (bool, Option<String>) {
    match id {
        "release_readiness" => (true, Some("Release Readiness".to_string())),
        "codebase_audit" => (true, Some("Codebase Audit".to_string())),
        _ => (false, None),
    }
}

fn add_scenario(table: &mut WorkspaceRunTable, scenario: &str, schedule: &str, packs: Vec<String>) -> Result<WorkspaceScheduledRun, String> {
    let (known, title) = catalog(scenario);
    table.add_workspace_run_now(
        "ws-1".to_string(),
        "/tmp/ws-1".to_string(),
        scenario.to_string(),
        schedule.to_string(),
        "balanced".to_string(),
        packs,
        known,
        title,
    )
}

fn update(table: &mut WorkspaceRunTable, id: &str, u: WorkspaceScheduledRunUpdate) -> Result<WorkspaceScheduledRun, String> {
    let (known, title) = match table.scenario_for_update(id, &u) {
        Some(s) => catalog(&s),
        None => (false, None),
    };
    table.update_workspace_run_now(id, u, known, title)
}

#[test]
fn workspace_runs_can_be_added_listed_and_removed() {
    let mut scheduler = WorkspaceRunTable::new();
    let created = add_scenario(
        &mut scheduler,
        "release_readiness",
        "0 * * * * *",
        vec!["repo_guardian".to_string(), "knowledge_weaver".to_string()],
    )
    .expect("create");

    assert_eq!(created.workspace_id, "ws-1");
    assert_eq!(created.scenario_id, "release_readiness");
    assert_eq!(created.trust_preset, "balanced");

    let listed = scheduler.list_workspace_runs("ws-1");
    assert_eq!(listed.len(), 1);
    assert_eq!(listed[0].id, created.id);

    scheduler.remove_workspace_run(&created.id);
    assert!(scheduler.list_workspace_runs("ws-1").is_empty());
}

#[test]
fn invalid_scenario_is_rejected() {
    let mut scheduler = WorkspaceRunTable::new();
    let error = add_scenario(&mut scheduler, "unknown", "0 * * * * *", vec![]).expect_err("invalid scenario");
    assert!(error.contains("Unknown first-party scenario"));
}

#[test]
fn prompt_runs_can_be_updated() {
    let mut scheduler = WorkspaceRunTable::new();
    let created = scheduler
        .add_workspace_prompt_run_now(
            "ws-1".to_string(),
            "/tmp/ws-1".to_string(),
            "Daily check".to_string(),
            "run release-readiness check".to_string(),
            "0 0 9 * * * *".to_string(),
        )
        .expect("create prompt run");

    let updated = update(
        &mut scheduler,
        &created.id,
        WorkspaceScheduledRunUpdate {
            title: Some("Weekly release check".to_string()),
            prompt_text: Some("run weekly release review".to_string()),
            scenario_id: None,
            schedule: "0 30 10 * * 1 *".to_string(),
            trust_preset: None,
            enabled_pack_ids: None,
        },
    )
    .expect("update prompt run");

    assert_eq!(updated.title, "Weekly release check");
    assert_eq!(updated.prompt_text.as_deref(), Some("run weekly release review"));
    assert_eq!(updated.schedule, "0 30 10 * * 1 *");
}

#[test]
fn scenario_runs_can_be_updated() {
    let mut scheduler = WorkspaceRunTable::new();
    let created = add_scenario(&mut scheduler, "release_readiness", "0 0 9 * * * *", vec!["repo_guardian".to_string()])
        .expect("create scenario run");

    let updated = update(
        &mut scheduler,
        &created.id,
        WorkspaceScheduledRunUpdate {
            title: None,
            prompt_text: None,
            scenario_id: Some("codebase_audit".to_string()),
            schedule: "0 15 8 * * 1-5 *".to_string(),
            trust_preset: Some("elevated".to_string()),
            enabled_pack_ids: Some(vec!["repo_guardian".to_string(), "knowledge_weaver".to_string()]),
        },
    )
    .expect("update scenario run");

    assert_eq!(updated.scenario_id, "codebase_audit");
    assert_eq!(updated.title, "Codebase Audit");
    assert_eq!(updated.schedule, "0 15 8 * * 1-5 *");
    assert_eq!(updated.trust_preset, "elevated");
    assert_eq!(updated.enabled_pack_ids.len(), 2);
}

#[test]
fn runs_are_listed_newest_first_by_workspace_id_or_path() {
    let mut t = WorkspaceRunTable::new();
    t.add_workspace_prompt_run("ws-1".into(), "/p1".into(), "a".into(), "do a".into(), "s".into(), Ok(100), "r1".into(), 10).unwrap();
    t.add_workspace_prompt_run("ws-2".into(), "/p2".into(), "b".into(), "do b".into(), "s".into(), Ok(100), "r2".into(), 30).unwrap();
    t.add_workspace_prompt_run("ws-1".into(), "/p1".into(), "c".into(), "do c".into(), "s".into(), Ok(100), "r3".into(), 20).unwrap();
    let ids: Vec<String> = t.list_workspace_runs("ws-1").into_iter().map(|r| r.id).collect();
    assert_eq!(ids, vec!["r3", "r1"]);
    let by_path: Vec<String> = t.list_workspace_runs("/p2").into_iter().map(|r| r.id).collect();
    assert_eq!(by_path, vec!["r2"]);
    assert_eq!(
        t.add_workspace_prompt_run("ws-1".into(), "/p1".into(), "d".into(), "do d".into(), "s".into(), Ok(1), "r1".into(), 40)
            .unwrap_err(),
        "error returned from database: (code: 1555) UNIQUE constraint failed: workspace_scheduled_runs.id"
    );
}

#[test]
fn bad_schedules_and_blank_titles_are_refused() {
    let mut t = WorkspaceRunTable::new();
    assert_eq!(
        t.add_workspace_prompt_run_now("w".into(), "/p".into(), "t".into(), "p".into(), "every day".into()).unwrap_err(),
        "Invalid cron schedule: Invalid expression: Invalid cron expression."
    );
    assert_eq!(
        t.add_workspace_prompt_run("w".into(), "/p".into(), "  ".into(), "p".into(), "s".into(), Ok(1), "x".into(), 1).unwrap_err(),
        "Scheduled run title cannot be empty"
    );
    assert_eq!(
        t.add_workspace_prompt_run("w".into(), "/p".into(), "t".into(), " ".into(), "s".into(), Ok(1), "x".into(), 1).unwrap_err(),
        "Scheduled prompt cannot be empty"
    );
    let u = WorkspaceScheduledRunUpdate {
        title: None,
        prompt_text: None,
        scenario_id: None,
        schedule: "0 0 9 * * * *".to_string(),
        trust_preset: None,
        enabled_pack_ids: None,
    };
    assert_eq!(t.update_workspace_run("nope", u, Ok(5), true, None).unwrap_err(), "Scheduled run 'nope' was not found");
}

#[test]
fn due_runs_are_claimed_and_finalized() {
    let mut t = WorkspaceRunTable::new();
    t.add_workspace_prompt_run("w".into(), "/p".into(), "Early".into(), "go".into(), "s".into(), Ok(100), "r1".into(), 1).unwrap();
    t.add_workspace_prompt_run("w".into(), "/p".into(), "Late".into(), "go".into(), "s".into(), Ok(500), "r2".into(), 2).unwrap();
    let due = t.due_runs(200);
    assert_eq!(due.len(), 1);
    assert_eq!(due[0].id, "r1");
    t.mark_claimed("r1", 300);
    let r1 = t.get_workspace_run("r1").unwrap();
    assert_eq!(r1.next_run_at, 300);
    assert_eq!(r1.last_status.as_deref(), Some("running"));
    t.finalize_workspace_run(
        "r1",
        RunOutcome {
            status: "completed".to_string(),
            chat_id: Some("chat-9".to_string()),
            request_id: None,
            artifact_count: 2,
            requires_explicit_approval: false,
            blocked_by_approval: false,
            error: None,
        },
        250,
    );
    let r1 = t.get_workspace_run("r1").unwrap();
    assert_eq!(r1.last_run_at, Some(250));
    assert_eq!(r1.last_status.as_deref(), Some("completed"));
    assert_eq!(r1.last_chat_id.as_deref(), Some("chat-9"));
    assert_eq!(r1.last_artifact_count, 2);

    let (title, body) = run_notification(&r1, "completed", 2, None, false);
    assert_eq!(title, "Scheduled run completed: Early");
    assert_eq!(body, "Workspace task finished in /p and produced 2 artifacts.");
    let (_, body) = run_notification(&r1, "completed", 1, None, false);
    assert_eq!(body, "Workspace task finished in /p and produced 1 artifact.");
    let (_, body) = run_notification(&r1, "completed", 0, None, false);
    assert_eq!(body, "Workspace task finished in /p.");
    let (title, _) = run_notification(&r1, "failed", 0, Some("boom"), true);
    assert_eq!(title, "Scheduled run waiting for approval: Early");
    let (title, body) = run_notification(&r1, "failed", 0, Some("boom"), false);
    assert_eq!(title, "Scheduled run failed: Early");
    assert_eq!(body, "boom");
}
