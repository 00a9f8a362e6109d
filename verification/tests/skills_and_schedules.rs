use rainy_mate::documents::{normalize_archive_entries, ArchiveSource};
use rainy_mate::sandbox::{
    check_network_plan, map_fs_mode, validate_wasm_bytes, FsAccess, WasmExecutionResult,
};
use rainy_mate::schedule::{
    build_schedule_expression, derive_prompt_title, normalize_scheduled_prompt,
    normalize_scheduled_run_title, plan_scheduled_task, ScheduleRecurringTaskArgs, SchedulePlan,
};
use rainy_mate::third_party::{
    InstalledThirdPartyMethod, InstalledThirdPartySkill, SkillPermissions,
    ThirdPartySkillRegistry,
};
use rainy_mate::tool_policy::AirlockLevel;

fn method(name: &str, level: AirlockLevel) -> InstalledThirdPartyMethod {
    InstalledThirdPartyMethod {
        name: name.to_string(),
        description: "test".to_string(),
        airlock_level: level,
        parameters: vec![],
    }
}

fn skill(id: &str, version: &str, methods: Vec<InstalledThirdPartyMethod>) -> InstalledThirdPartySkill {
    InstalledThirdPartySkill {
        id: id.to_string(),
        name: id.to_string(),
        version: version.to_string(),
        author: "test".to_string(),
        description: String::new(),
        runtime: "wasi-core-v1".to_string(),
        binary_path: "/tmp/test.wasm".to_string(),
        binary_sha256: "deadbeef".to_string(),
        enabled: true,
        trust_state: "verified".to_string(),
        install_source: "atm".to_string(),
        installed_at: 0,
        permissions: SkillPermissions { filesystem: vec![], network_domains: vec![] },
        methods,
    }
}

#[test]
fn registry_resolves_method_airlock_level() {
    let mut registry = ThirdPartySkillRegistry::new_with_root("/tmp/registry".to_string());
    registry
        .upsert_skill(skill("alpha", "1.0.0", vec![method("alpha_run", AirlockLevel::Sensitive)]))
        .expect("insert");

    let level = registry.find_method_airlock_level("alpha_run");
    assert_eq!(level, Some(AirlockLevel::Sensitive));
}

#[test]
fn registry_rejects_method_name_collisions_across_skills() {
    let mut registry = ThirdPartySkillRegistry::new_with_root("/tmp/registry".to_string());
    registry
        .upsert_skill(skill("alpha", "1.0.0", vec![method("shared_method", AirlockLevel::Safe)]))
        .expect("insert alpha");

    let err = registry
        .upsert_skill(skill("beta", "1.0.0", vec![method("shared_method", AirlockLevel::Dangerous)]))
        .expect_err("collision should be rejected");
    assert!(err.contains("Method name collision"));
}

#[test]
fn registry_lists_sorted_and_removes() {
    let mut registry = ThirdPartySkillRegistry::new_with_root("/tmp/registry".to_string());
    registry.upsert_skill(skill("zeta", "1.0.0", vec![method("z_run", AirlockLevel::Safe)])).unwrap();
    registry.upsert_skill(skill("alpha", "2.0.0", vec![method("a2", AirlockLevel::Safe)])).unwrap();
    registry.upsert_skill(skill("alpha", "1.0.0", vec![method("a1", AirlockLevel::Safe)])).unwrap();
    let listed: Vec<(String, String)> = registry
        .list_skills()
        .into_iter()
        .map(|s| (s.id, s.version))
        .collect();
    assert_eq!(
        listed,
        vec![
            ("alpha".to_string(), "1.0.0".to_string()),
            ("alpha".to_string(), "2.0.0".to_string()),
            ("zeta".to_string(), "1.0.0".to_string()),
        ]
    );
    assert_eq!(registry.index_path(), "/tmp/registry/registry.json");
    registry.remove("zeta", "1.0.0").unwrap();
    assert!(registry.remove("zeta", "1.0.0").is_err());
    assert_eq!(registry.find_method_airlock_level("z_run"), None);
}

#[test]
fn rejects_duplicate_archive_entry_names() {
    let sources = vec![
        ArchiveSource { path: "/tmp/x/report.txt".to_string(), is_file: true },
        ArchiveSource { path: "/tmp/x/nested/report.txt".to_string(), is_file: true },
    ];
    let result = normalize_archive_entries(&sources);
    assert!(result.is_err());
}

#[test]
fn rejects_directories_from_archive_entries() {
    let sources = vec![ArchiveSource { path: "/tmp/x".to_string(), is_file: false }];
    let result = normalize_archive_entries(&sources);
    assert!(result.is_err());
}

#[test]
fn archive_entries_are_named_by_file_name() {
    let sources = vec![
        ArchiveSource { path: "/tmp/a.txt".to_string(), is_file: true },
        ArchiveSource { path: "/tmp/sub/b.txt".to_string(), is_file: true },
    ];
    let entries = normalize_archive_entries(&sources).unwrap();
    assert_eq!(
        entries,
        vec![
            ("/tmp/a.txt".to_string(), "a.txt".to_string()),
            ("/tmp/sub/b.txt".to_string(), "b.txt".to_string()),
        ]
    );
}

#[test]
fn map_fs_mode_accepts_supported_modes() {
    assert!(map_fs_mode("read").is_ok());
    assert!(map_fs_mode("read_write").is_ok());
    assert_eq!(map_fs_mode(" read ").unwrap(), FsAccess::Read);
    assert_eq!(map_fs_mode("read_write").unwrap(), FsAccess::ReadWrite);
}

#[test]
fn map_fs_mode_rejects_invalid_mode() {
    let err = map_fs_mode("write_only").expect_err("invalid mode should fail");
    assert!(err.contains("Unsupported filesystem permission mode"));
    assert_eq!(
        err,
        "Unsupported filesystem permission mode 'write_only' (expected 'read' or 'read_write')"
    );
}

#[test]
fn wasm_binaries_need_the_magic_header() {
    assert!(validate_wasm_bytes(&[0, 0x61, 0x73, 0x6d, 1, 0, 0, 0]).is_ok());
    assert_eq!(
        validate_wasm_bytes(&[1, 2, 3]).unwrap_err(),
        "Invalid wasm binary header"
    );
    let big = vec![0u8; 8 * 1024 * 1024 + 1];
    assert_eq!(
        validate_wasm_bytes(&big).unwrap_err(),
        "Wasm binary too large (8388609 bytes > 8388608 bytes)"
    );
}

#[test]
fn network_requests_need_declared_domains() {
    assert!(check_network_plan(0, 0).is_ok());
    assert!(check_network_plan(1, 0).is_err());
    assert!(check_network_plan(4, 1).is_ok());
    assert!(check_network_plan(5, 1).is_err());
}

#[test]
fn wasm_results_become_command_results() {
    let ok = WasmExecutionResult {
        stdout: "out".to_string(),
        stderr: "  ".to_string(),
        success: true,
    }
    .into_command_result();
    assert!(ok.success);
    assert_eq!(ok.output.as_deref(), Some("out"));
    assert!(ok.error.is_none());
    assert_eq!(ok.exit_code, Some(0));

    let failed = WasmExecutionResult {
        stdout: String::new(),
        stderr: String::new(),
        success: false,
    }
    .into_command_result();
    assert!(!failed.success);
    assert!(failed.output.is_none());
    assert_eq!(failed.error.as_deref(), Some("WASM sandbox execution failed"));
    assert_eq!(failed.exit_code, Some(1));
}

fn schedule_args(kind: Option<&str>, hour: Option<u8>, minute: Option<u8>, cron: Option<&str>) -> ScheduleRecurringTaskArgs {
    ScheduleRecurringTaskArgs {
        title: None,
        task_prompt: Some("Review release readiness".to_string()),
        scenario_id: None,
        schedule_kind: kind.map(|s| s.to_string()),
        hour,
        minute,
        day_of_week: None,
        day_of_month: None,
        cron_expression: cron.map(|s| s.to_string()),
    }
}

#[test]
fn builds_weekday_schedule_without_raw_cron() {
    let schedule = build_schedule_expression(&schedule_args(Some("weekdays"), Some(9), Some(30), None))
        .expect("weekday schedule");
    assert_eq!(schedule, "0 30 9 * * 1-5 *");
}

#[test]
fn rejects_custom_schedule_without_cron_expression() {
    let error = build_schedule_expression(&schedule_args(Some("custom"), None, None, None))
        .expect_err("missing cron");
    assert!(error.contains("cron_expression"));
}

#[test]
fn schedules_clamp_times_and_default_to_daily() {
    assert_eq!(
        build_schedule_expression(&schedule_args(None, Some(30), Some(75), None)).unwrap(),
        "0 59 23 * * * *"
    );
    let mut monthly = schedule_args(Some(" Monthly "), None, None, None);
    monthly.day_of_month = Some(31);
    assert_eq!(build_schedule_expression(&monthly).unwrap(), "0 0 9 28 * * *");
    let mut weekly = schedule_args(Some("weekly"), Some(7), Some(5), None);
    weekly.day_of_week = Some(9);
    assert_eq!(build_schedule_expression(&weekly).unwrap(), "0 5 7 * * 6 *");
}

#[test]
fn schedules_check_custom_expressions() {
    assert_eq!(
        build_schedule_expression(&schedule_args(None, None, None, Some(" 0 15 8 * * 1-5 * "))).unwrap(),
        "0 15 8 * * 1-5 *"
    );
    assert_eq!(
        build_schedule_expression(&schedule_args(Some("custom"), None, None, Some("not a cron"))).unwrap_err(),
        "Invalid schedule: Invalid expression: Invalid cron expression."
    );
    assert_eq!(
        build_schedule_expression(&schedule_args(Some("hourly"), None, None, None)).unwrap_err(),
        "Unsupported schedule_kind 'hourly'. Use daily, weekdays, weekly, monthly, or custom"
    );
}

#[test]
fn prompt_tasks_are_titled_after_their_prompt() {
    assert_eq!(derive_prompt_title("  run   the\nchecks "), "run the checks");
    assert_eq!(derive_prompt_title("   "), "Recurring chat task");
    assert_eq!(derive_prompt_title(&"x".repeat(100)).chars().count(), 72);
    match plan_scheduled_task(&schedule_args(Some("daily"), None, None, None)).unwrap() {
        SchedulePlan::Prompt { title, prompt, schedule } => {
            assert_eq!(title, "Review release readiness");
            assert_eq!(prompt, "Review release readiness");
            assert_eq!(schedule, "0 0 9 * * * *");
        }
        SchedulePlan::Scenario { .. } => panic!("expected a prompt plan"),
    }
    let mut none = schedule_args(Some("daily"), None, None, None);
    none.task_prompt = Some("  ".to_string());
    assert_eq!(
        plan_scheduled_task(&none).unwrap_err(),
        "schedule_recurring_task requires either scenario_id or a non-empty task_prompt"
    );
}

#[test]
fn scheduled_titles_and_prompts_are_normalized() {
    assert_eq!(normalize_scheduled_run_title("  Daily check ").unwrap(), "Daily check");
    assert!(normalize_scheduled_run_title("   ").is_err());
    assert_eq!(normalize_scheduled_run_title(&"t".repeat(200)).unwrap().len(), 120);
    assert_eq!(normalize_scheduled_prompt("  go ").unwrap(), "go");
    assert_eq!(normalize_scheduled_prompt("").unwrap_err(), "Scheduled prompt cannot be empty");
}
