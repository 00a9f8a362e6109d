use rainy_mate::executor::ToolAccessPolicy;
use rainy_mate::prompt_skills::{
    binding_scope, build_skill_id, global_scope, short_hash, split_frontmatter, workspace_scope,
    DiscoveredPromptSkill, ParsedPromptSkill, PromptSkillDiscoveryService, PromptSkillRegistry,
    PromptSkillRegistryEntry, PromptSkillScope, PromptSkillSourceKind,
};
use rainy_mate::settings::{
    migrate_embedder_model, PersistedMcpServerConfig, SettingsManager, UserProfile, UserSettings,
    WorkspaceToolPolicyState,
};
use rainy_mate::vault::{
    vault_column_map, vault_select_columns, ColumnMap, ListFilteredOpts, MemoryCategory,
    MemorySensitivity, OrderBy, QueryValue, VaultQuery,
};

fn manager() -> SettingsManager {
    SettingsManager::new("/tmp/settings.json".to_string(), None)
}

#[test]
fn default_settings_are_in_force_without_a_file() {
    let m = manager();
    assert_eq!(m.get_selected_model(), "gemini-3-flash-preview");
    assert_eq!(m.get_embedder_provider(), "gemini");
    assert_eq!(m.get_embedder_model(), "gemini-embedding-2-preview");
    assert_eq!(m.get_profile().display_name, "Rainy User");
    assert_eq!(m.get_profile().role, "Builder");
    assert_eq!(m.get_settings().theme, "system");
    assert!(m.get_settings().notifications_enabled);
    assert_eq!(m.get_mcp_permission_mode(), "ask");
    assert_eq!(m.settings_path(), "/tmp/settings.json");
}

#[test]
fn stored_settings_have_retired_embedders_migrated() {
    let mut stored = UserSettings::default();
    stored.embedder_model = "text-embedding-004".to_string();
    stored.theme = "dark".to_string();
    let m = SettingsManager::new("/tmp/s.json".to_string(), Some(stored));
    assert_eq!(m.get_embedder_model(), "gemini-embedding-001");
    assert_eq!(m.get_settings().theme, "dark");
    assert_eq!(migrate_embedder_model("gemini", "something-else"), "gemini-embedding-2-preview");
    assert_eq!(migrate_embedder_model("gemini", "gemini-embedding-001"), "gemini-embedding-001");
    assert_eq!(migrate_embedder_model("openai", "text-embedding-004"), "text-embedding-004");
}

#[test]
fn setters_change_only_their_setting() {
    let mut m = manager();
    m.set_theme("dark".to_string());
    m.set_notifications(false);
    assert_eq!(m.set_selected_model("model-x".to_string(), Ok(())), Ok(()));
    assert_eq!(
        m.set_selected_model("nope".to_string(), Err("Unsupported model: nope".to_string())),
        Err("Unsupported model: nope".to_string())
    );
    m.set_embedder_provider("local".to_string());
    m.set_embedder_model("mini".to_string());
    m.set_mcp_permission_mode("always".to_string());
    m.set_profile(UserProfile {
        display_name: "Ana".to_string(),
        email: "ana@example.com".to_string(),
        organization: "Org".to_string(),
        role: "Dev".to_string(),
    });
    assert_eq!(m.get_settings().theme, "dark");
    assert!(!m.get_settings().notifications_enabled);
    assert_eq!(m.get_selected_model(), "model-x");
    assert_eq!(m.get_embedder_provider(), "local");
    assert_eq!(m.get_embedder_model(), "mini");
    assert_eq!(m.get_mcp_permission_mode(), "always");
    assert_eq!(m.get_profile().display_name, "Ana");
}

#[test]
fn tool_policy_floors_are_per_workspace() {
    let mut m = manager();
    assert_eq!(m.get_tool_policy_floor("ws-1"), 0);
    m.set_tool_policy_floor("ws-1", 3);
    m.set_tool_policy_floor("ws-2", 7);
    m.set_tool_policy_floor("ws-1", 5);
    assert_eq!(m.get_tool_policy_floor("ws-1"), 5);
    assert_eq!(m.get_tool_policy_floor("ws-2"), 7);
    assert_eq!(m.get_settings().tool_policy_version_floor.len(), 2);
}

#[test]
fn workspace_tool_policies_round_trip() {
    let mut m = manager();
    assert!(m.get_workspace_tool_policy("ws").is_none());
    m.set_workspace_tool_policy_state(
        "ws",
        WorkspaceToolPolicyState {
            tool_access_policy: ToolAccessPolicy {
                enabled: true,
                mode: "allowlist".to_string(),
                allow: vec!["read_file".to_string()],
                deny: vec![],
            },
            tool_access_policy_version: 2,
            tool_access_policy_hash: "abc".to_string(),
        },
    );
    let state = m.get_workspace_tool_policy_state("ws").unwrap();
    assert_eq!(state.tool_access_policy_version, 2);
    assert_eq!(state.tool_access_policy_hash, "abc");
    assert_eq!(m.get_workspace_tool_policy("ws").unwrap().allow, vec!["read_file".to_string()]);
}

#[test]
fn mcp_servers_are_keyed_by_name_without_case() {
    let mut m = manager();
    m.upsert_mcp_server(PersistedMcpServerConfig { name: "Files".to_string(), config_json: "{}".to_string() });
    m.upsert_mcp_server(PersistedMcpServerConfig { name: "files".to_string(), config_json: "{\"a\":1}".to_string() });
    m.upsert_mcp_server(PersistedMcpServerConfig { name: "web".to_string(), config_json: "{}".to_string() });
    let servers = m.get_mcp_servers();
    assert_eq!(servers.len(), 2);
    assert_eq!(servers[0].name, "files");
    assert_eq!(servers[0].config_json, "{\"a\":1}");
    assert!(m.remove_mcp_server("FILES").is_ok());
    assert_eq!(m.get_mcp_servers().len(), 1);
    assert_eq!(m.remove_mcp_server("files").unwrap_err(), "MCP server 'files' not found");
}

#[test]
fn vault_labels_round_trip() {
    for s in [MemorySensitivity::Public, MemorySensitivity::Internal, MemorySensitivity::Confidential] {
        assert_eq!(MemorySensitivity::from_db(s.as_str()), s);
    }
    assert_eq!(MemorySensitivity::from_db("secret"), MemorySensitivity::Internal);
    for c in [
        MemoryCategory::Preference,
        MemoryCategory::Correction,
        MemoryCategory::Fact,
        MemoryCategory::Procedure,
        MemoryCategory::Observation,
    ] {
        assert_eq!(MemoryCategory::from_str_loose(c.as_str()), c);
    }
    assert_eq!(MemoryCategory::from_str_loose("whatever"), MemoryCategory::Observation);
    assert_eq!(OrderBy::from_str_loose("access_count").as_sql(), "access_count DESC");
    assert_eq!(OrderBy::from_str_loose("?").as_sql(), "created_at DESC");
}

#[test]
fn vault_columns_are_listed_in_order() {
    let cols = vault_select_columns();
    assert!(cols.starts_with("id, workspace_id, source, sensitivity"));
    assert!(cols.ends_with("embedding_model, embedding_provider, embedding_dim"));
    let map = vault_column_map();
    assert_eq!(map.index_of("created_at"), Ok(4));
    assert_eq!(map.index_of("nope"), Err("ColumnMap: unknown field 'nope'".to_string()));
    let custom = ColumnMap::from_columns(&["a", "b", "a"]);
    assert_eq!(custom.index_of("a"), Ok(0));
}

#[test]
fn vault_queries_bind_their_filters_in_order() {
    let q = VaultQuery::from_opts(ListFilteredOpts {
        workspace_id: Some("ws".to_string()),
        sensitivity: None,
        source_prefix: Some("chat".to_string()),
        created_after: Some(10),
        created_before: None,
        order_by: Some("last_accessed".to_string()),
        limit: Some(500),
        offset: None,
    });
    assert_eq!(q.limit, 100);
    assert_eq!(q.offset, 0);
    let (sql, values) = q.select_statement();
    assert!(sql.contains("WHERE workspace_id = ?1 AND source LIKE ?2 AND created_at >= ?3"));
    assert!(sql.ends_with("ORDER BY last_accessed DESC LIMIT ?4 OFFSET ?5"));
    assert_eq!(values.len(), 5);
    match &values[1] {
        QueryValue::Text(t) => assert_eq!(t, "chat%"),
        QueryValue::Integer(_) => panic!("expected text"),
    }
    let (count_sql, count_values) = VaultQuery::default().count_statement();
    assert_eq!(count_sql, "SELECT COUNT(*) FROM memory_vault_entries ");
    assert!(count_values.is_empty());
}

#[test]
fn parses_frontmatter_and_body() {
    let (front, body) =
        split_frontmatter("---\nname: Auditor\ndescription: Audits code\n---\nUse ripgrep first.").unwrap();
    assert_eq!(front, "name: Auditor\ndescription: Audits code\n");
    assert_eq!(body.trim(), "Use ripgrep first.");
    assert_eq!(split_frontmatter("no frontmatter").unwrap_err(), "Missing YAML frontmatter");
    assert_eq!(split_frontmatter("---\nname: x\n").unwrap_err(), "Unterminated YAML frontmatter");
}

#[test]
fn skill_ids_are_slugs_with_a_path_hash() {
    let id = build_skill_id("Code  Auditor!", "/skills/auditor");
    assert!(id.starts_with("code-auditor-"));
    assert_eq!(id.len(), "code-auditor-".len() + 8);
    assert_eq!(&id["code-auditor-".len()..], short_hash("/skills/auditor"));
    assert!(build_skill_id("???", "/x").starts_with("skill-"));
}

#[test]
fn scopes_follow_the_skill_location() {
    assert_eq!(workspace_scope("/ws/.rainy-mate/skills/a", "/ws"), PromptSkillScope::MateManaged);
    assert_eq!(workspace_scope("/ws/.agents/skills/a", "/ws"), PromptSkillScope::Project);
    assert_eq!(global_scope("/data/prompt_skills/managed/a", "/data"), PromptSkillScope::MateManaged);
    assert_eq!(global_scope("/home/u/.agents/skills/a", "/data"), PromptSkillScope::Global);
    assert_eq!(binding_scope(Some("/ws"), "/ws/skills/a", "/data"), PromptSkillScope::Project);
    assert_eq!(binding_scope(Some("/ws"), "/elsewhere/a", "/data"), PromptSkillScope::Global);
}

fn found(name: &str, path: &str) -> DiscoveredPromptSkill {
    DiscoveredPromptSkill::from_parsed(
        ParsedPromptSkill {
            id: format!("{}-id", name),
            name: name.to_string(),
            description: String::new(),
            body_markdown: "body".to_string(),
            scripts: vec![],
            references: vec![],
            source_hash: "h".to_string(),
            source_path: path.to_string(),
        },
        PromptSkillScope::Project,
        PromptSkillSourceKind::Direct,
        false,
        0,
    )
}

#[test]
fn discovers_project_skill() {
    let service = PromptSkillDiscoveryService::new("/app".to_string());
    let skills = service.discover(&vec![
        found("Auditor", "/ws/.agents/skills/auditor"),
        found("Alpha", "/ws/skills/alpha"),
        found("Auditor copy", "/ws/.agents/skills/auditor"),
    ]);
    assert!(skills.iter().any(|skill| skill.name == "Auditor"));
    let names: Vec<&str> = skills.iter().map(|s| s.name.as_str()).collect();
    assert_eq!(names, vec!["Alpha", "Auditor"]);
}

#[test]
fn invalid_skills_are_reported_with_their_error() {
    let d = DiscoveredPromptSkill::invalid(
        "/ws/skills/bad",
        Some("bad"),
        PromptSkillScope::Project,
        PromptSkillSourceKind::Direct,
        "Missing YAML frontmatter".to_string(),
        5,
    );
    assert!(!d.valid);
    assert_eq!(d.id, format!("invalid-{}", short_hash("/ws/skills/bad")));
    assert_eq!(d.parse_error.as_deref(), Some("Missing YAML frontmatter"));
    let b = found("Auditor", "/p").to_binding();
    assert!(b.enabled);
    assert_eq!(b.content, "body");
}

#[test]
fn registry_switches_are_sorted_by_path() {
    let mut r = PromptSkillRegistry::global("/data", vec![]);
    assert_eq!(r.path(), "/data/prompt_skills/registry.json");
    r.set_all_agents_enabled("/b", true);
    r.set_all_agents_enabled("/a", false);
    r.set_all_agents_enabled("/b", false);
    let entries: Vec<(String, bool)> = r
        .get_entries()
        .into_iter()
        .map(|e| (e.source_path, e.all_agents_enabled))
        .collect();
    assert_eq!(entries, vec![("/a".to_string(), false), ("/b".to_string(), false)]);
    let p = PromptSkillRegistry::project(
        "/ws",
        vec![PromptSkillRegistryEntry { source_path: "/x".to_string(), all_agents_enabled: true }],
    );
    assert!(p.all_agents_enabled("/x"));
    assert!(!p.all_agents_enabled("/y"));
}
