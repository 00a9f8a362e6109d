use rainy_mate::distiller::{is_readonly_tool, is_trivial_conversation_turn, prepare_distillation};
use rainy_mate::documents::{decode_xml_entities, ensure_docx_extension};
use rainy_mate::prompt_skills::{collect_workspace_candidates, keep_entry, project_dirs};
use rainy_mate::recorder::{truncate_to_char_boundary, truncate_with_limit};
use rainy_mate::reflection::{pattern_or_unknown, reflection_for, ErrorPattern, ReflectionLog};
use rainy_mate::schedule::{
    deleted_message, plan_run_update, resolve_workspace_target, scheduled_run_id_of,
    updated_message, UpdateRecurringTaskArgs, WorkspaceScheduledRun, WorkspaceTarget,
};
use rainy_mate::sessions::{
    build_summary, finish_notification, truncate_message, QuickDelegateAction, QuickDelegateState,
};
use rainy_mate::settings::{
    capability_flag_enabled, dynamic_model_option, dynamic_model_option_from_catalog,
    get_available_models, CapabilityFlag, CatalogModel, ModelCatalogItem, ModelListing,
};
use rainy_mate::vault::RawMemoryTurn;

#[test]
fn messages_are_trimmed_and_shortened() {
    assert_eq!(truncate_message("  short  ", 10), "short");
    assert_eq!(truncate_message("abcdefghij", 5), "abcd...");
    assert_eq!(truncate_message("abc", 0), "...");
    assert_eq!(build_summary("  The   run\n finished   fine "), "The run finished fine");
    let long = "word ".repeat(40);
    let s = build_summary(&long);
    assert_eq!(s.chars().count(), 92);
    assert!(s.ends_with("..."));
}

#[test]
fn delegation_notices_name_the_outcome() {
    let (body, kind) = finish_notification(&Ok("All   done".to_string()));
    assert_eq!(body, "Quick delegation finished: All done");
    assert_eq!(kind, "agent_finish");
    let (body, kind) = finish_notification(&Err(" boom ".to_string()));
    assert_eq!(body, "Quick delegation failed: boom");
    assert_eq!(kind, "agent_failure");
}

#[test]
fn bridge_actions_drive_one_delegation_at_a_time() {
    let mut q = QuickDelegateState::new();
    assert_eq!(format!("{:?}", q.handle_bridge_action("hotkey", None)), "ShowIdle");
    assert_eq!(format!("{:?}", q.handle_bridge_action("open_main", None)), "FocusMainWindow");
    assert_eq!(format!("{:?}", q.handle_bridge_action("cancel", None)), "Hide");
    assert_eq!(format!("{:?}", q.handle_bridge_action("other", None)), "Nothing");
    match q.handle_bridge_action("submit", Some("   ".to_string())) {
        QuickDelegateAction::ShowError(m) => assert_eq!(m, "Type a delegation request first."),
        other => panic!("unexpected {:?}", other),
    }
    assert!(!q.is_busy());
    match q.handle_bridge_action("submit", Some("Draft the notes".to_string())) {
        QuickDelegateAction::StartRun(p) => assert_eq!(p, "Draft the notes"),
        other => panic!("unexpected {:?}", other),
    }
    assert!(q.is_busy());
    match q.handle_bridge_action("submit", Some("Again".to_string())) {
        QuickDelegateAction::ShowError(m) => assert_eq!(m, "A quick delegation is already running."),
        other => panic!("unexpected {:?}", other),
    }
    q.finish_run();
    assert!(!q.is_busy());
}

#[test]
fn recorder_truncation_keeps_whole_characters() {
    assert_eq!(truncate_with_limit("héllo".to_string(), 2), "hé");
    assert_eq!(truncate_with_limit("ab".to_string(), 10), "ab");
    assert_eq!(truncate_to_char_boundary("ñandú"), "ñandú");
}

#[test]
fn docx_paths_and_entities() {
    assert!(ensure_docx_extension("/tmp/report.DOCX").is_ok());
    assert_eq!(ensure_docx_extension("/tmp/report.pdf"), Err("Path must end with .docx".to_string()));
    assert_eq!(ensure_docx_extension("/tmp/report"), Err("Path must end with .docx".to_string()));
    assert_eq!(decode_xml_entities("a &lt;b&gt; &amp; &quot;c&quot; &apos;d&apos;"), "a <b> & \"c\" 'd'");
    assert_eq!(decode_xml_entities("&amp;lt;"), "<");
}

fn catalog(slug: &str, name: &str) -> CatalogModel {
    CatalogModel {
        slug: slug.to_string(),
        name: name.to_string(),
        description: "Known model".to_string(),
        thinking_level: Some("high".to_string()),
    }
}

#[test]
fn model_options_come_from_the_catalog_or_the_slug() {
    let known = dynamic_model_option("gemini-pro", Some(&catalog("gemini-pro", "Gemini Pro")));
    assert_eq!(known.name, "Gemini Pro");
    assert_eq!(known.thinking_level, "high");
    assert_eq!(known.provider, "Rainy API");
    let unknown = dynamic_model_option("mystery-1", None);
    assert_eq!(unknown.id, "mystery-1");
    assert_eq!(unknown.name, "mystery-1");
    assert_eq!(unknown.description, "Discovered dynamically from Rainy API v3.");
    assert_eq!(unknown.thinking_level, "n/a");
    assert!(unknown.is_premium && unknown.is_available);

    let item = ModelCatalogItem { id: "m-2".to_string(), name: None, reasoning: Some(CapabilityFlag::Bool(true)) };
    let opt = dynamic_model_option_from_catalog(&item, None);
    assert_eq!(opt.name, "m-2");
    assert_eq!(opt.thinking_level, "dynamic");
    assert!(!capability_flag_enabled(Some(&CapabilityFlag::Detailed)));
    assert!(!capability_flag_enabled(None));
}

#[test]
fn available_models_are_sorted_by_name_and_deduplicated() {
    let listing = ModelListing::Slugs(vec![
        ("zeta".to_string(), None),
        ("alpha".to_string(), None),
        ("alpha".to_string(), None),
        ("beta".to_string(), None),
    ]);
    let names: Vec<String> = get_available_models(&listing).into_iter().map(|m| m.name).collect();
    assert_eq!(names, vec!["alpha", "beta", "zeta"]);
    assert!(get_available_models(&ModelListing::Unavailable).is_empty());
}

fn target(id: &str, paths: &[&str]) -> WorkspaceTarget {
    WorkspaceTarget {
        id: id.to_string(),
        name: "Project".to_string(),
        allowed_paths: paths.iter().map(|p| p.to_string()).collect(),
        trust_preset: "balanced".to_string(),
        enabled_pack_ids: vec!["core".to_string()],
    }
}

#[test]
fn workspace_targets_prefer_the_path_registration() {
    let by_path = resolve_workspace_target("/p", Some(target("w1", &[])), Err("unused".to_string())).unwrap();
    assert_eq!(by_path.workspace.id, "w1");
    assert_eq!(by_path.workspace_path, "/p");
    let by_id = resolve_workspace_target("w2", None, Ok(target("w2", &["/root/w2"]))).unwrap();
    assert_eq!(by_id.workspace_path, "/root/w2");
    let bare = resolve_workspace_target("w3", None, Ok(target("w3", &[]))).unwrap();
    assert_eq!(bare.workspace_path, "w3");
    assert!(matches!(resolve_workspace_target("w4", None, Err("no such workspace".to_string())), Err(e) if e == "no such workspace"));
}

fn run(id: &str, kind: &str) -> WorkspaceScheduledRun {
    WorkspaceScheduledRun {
        id: id.to_string(),
        workspace_id: "w1".to_string(),
        workspace_path: "/p".to_string(),
        job_kind: kind.to_string(),
        title: "t".to_string(),
        scenario_id: "s".to_string(),
        prompt_text: None,
        schedule: "0 0 9 * * * *".to_string(),
        trust_preset: "balanced".to_string(),
        enabled_pack_ids: vec![],
        created_at: 0,
        next_run_at: 0,
        last_run_at: None,
        last_status: None,
        last_chat_id: None,
        last_error: None,
        last_request_id: None,
        last_artifact_count: 0,
        last_requires_explicit_approval: false,
        last_blocked_by_approval: false,
    }
}

fn update_args(id: &str) -> UpdateRecurringTaskArgs {
    UpdateRecurringTaskArgs {
        scheduled_run_id: id.to_string(),
        title: Some("New".to_string()),
        task_prompt: None,
        scenario_id: None,
        schedule_kind: Some("weekdays".to_string()),
        hour: Some(8),
        minute: Some(15),
        day_of_week: None,
        day_of_month: None,
        cron_expression: None,
    }
}

#[test]
fn run_updates_keep_scenario_settings_for_scenarios_only() {
    assert_eq!(
        scheduled_run_id_of("  ", "update_recurring_task"),
        Err("update_recurring_task requires a non-empty scheduled_run_id".to_string())
    );
    assert_eq!(scheduled_run_id_of(" r1 ", "delete_recurring_task"), Ok("r1".to_string()));
    let ws = target("w1", &["/p"]);
    let runs = vec![run("r1", "scenario"), run("r2", "prompt")];
    let u = plan_run_update("r1", &update_args("r1"), &ws, &runs).unwrap();
    assert_eq!(u.schedule, "0 15 8 * * 1-5 *");
    assert_eq!(u.trust_preset.as_deref(), Some("balanced"));
    assert_eq!(u.enabled_pack_ids, Some(vec!["core".to_string()]));
    assert_eq!(u.title.as_deref(), Some("New"));
    let p = plan_run_update("r2", &update_args("r2"), &ws, &runs).unwrap();
    assert!(p.trust_preset.is_none() && p.enabled_pack_ids.is_none());
    assert_eq!(
        plan_run_update("r9", &update_args("r9"), &ws, &runs).unwrap_err(),
        "Scheduled run not found in the current workspace"
    );
    assert_eq!(deleted_message("r1", "Project"), "Deleted recurring task 'r1' from workspace 'Project'");
    assert_eq!(
        updated_message("Nightly", "Project"),
        "Updated native recurring task 'Nightly' for workspace 'Project'. Use list_recurring_tasks to inspect the latest stored schedule."
    );
}

#[test]
fn the_skill_walk_skips_build_directories() {
    assert!(keep_entry(false, "node_modules"));
    assert!(!keep_entry(true, "node_modules"));
    assert!(!keep_entry(true, ".git"));
    assert!(keep_entry(true, "skills"));
    assert_eq!(project_dirs().len(), 15);
    assert_eq!(project_dirs()[4], ".agents/skills");
    assert_eq!(
        collect_workspace_candidates("/w", true, vec!["/w/skills/a".to_string()]),
        Some(vec!["/w".to_string(), "/w/skills/a".to_string()])
    );
    assert_eq!(collect_workspace_candidates("/w", false, vec![]), None);
}

fn turn(role: &str, source: &str, content: &str) -> RawMemoryTurn {
    RawMemoryTurn {
        content: content.to_string(),
        role: role.to_string(),
        source: source.to_string(),
        workspace_id: "w".to_string(),
        timestamp: 0,
    }
}

#[test]
fn trivial_turns_and_readonly_results_are_not_distilled() {
    assert!(is_trivial_conversation_turn("   "));
    assert!(is_trivial_conversation_turn("Thanks!"));
    assert!(is_trivial_conversation_turn("Hello there, could you set up my repository please"));
    assert!(!is_trivial_conversation_turn("I prefer tabs over spaces in this project"));
    assert!(!is_trivial_conversation_turn("ñandú ñandú"));
    assert!(is_readonly_tool("git_diff"));
    assert!(!is_readonly_tool("write_file"));

    assert_eq!(prepare_distillation(&vec![]), None);
    assert_eq!(prepare_distillation(&vec![turn("user", "chat", "ok")]), None);
    assert_eq!(
        prepare_distillation(&vec![turn("tool_result", "tool:read_file", "fn main() { println!(); }")]),
        None
    );
    assert_eq!(
        prepare_distillation(&vec![
            turn("user", "chat", "hi"),
            turn("user", "chat", "Always deploy with scripts/deploy.sh"),
            turn("tool_result", "tool:read_file", "contents of the deploy script"),
        ]),
        Some(
            "[user] (chat): Always deploy with scripts/deploy.sh\n\n[tool_result] (tool:read_file): contents of the deploy script\n\n"
                .to_string()
        )
    );
}

#[test]
fn reflection_keeps_learnt_patterns() {
    let r = reflection_for("task-1".to_string(), true);
    assert_eq!(r.task_id, "task-1");
    assert!(r.success && r.insights.is_empty() && r.improvements.is_empty());
    let mut log = ReflectionLog::new();
    log.record_error_pattern(pattern_or_unknown(None, "p-1".to_string()));
    log.record_error_pattern(pattern_or_unknown(
        Some(ErrorPattern {
            id: "test-1".to_string(),
            error_type: "SyntaxError".to_string(),
            root_cause: "Missing semicolon".to_string(),
            prevention_strategy: "Use linter".to_string(),
            count: 5,
        }),
        "p-2".to_string(),
    ));
    log.record_strategy();
    let patterns = log.get_error_patterns();
    assert_eq!(patterns[0].error_type, "unknown");
    assert_eq!(patterns[0].count, 1);
    assert_eq!(patterns[1].error_type, "SyntaxError");
    let report = log.optimize();
    assert_eq!(report.error_patterns_count, 2);
    assert_eq!(report.strategies_count, 1);
    assert_eq!(report.recommendations[0], "Review error patterns for common issues");
    log.clear_error_patterns();
    log.clear_strategies();
    assert_eq!(log.optimize().error_patterns_count, 0);
    assert_eq!(log.optimize().strategies_count, 0);
}
