use rainy_mate::executor::{
    hash_tool_policy, is_allowed_shell_command, is_tool_allowed, truncate_output, ToolAccessPolicy,
    MAX_TOOL_OUTPUT_BYTES,
};
use rainy_mate::net::{
    domain_rule_matches_str, enforce_allowed_domains, enforce_domain_scope, validate_http_url,
};
use rainy_mate::paths::{is_path_blocked, normalize_absolute_path, resolve_path};

#[test]
fn tool_policy_is_deny_first() {
    let policy = ToolAccessPolicy {
        enabled: true,
        mode: "allowlist".to_string(),
        allow: vec!["read_file".to_string(), "write_file".to_string()],
        deny: vec!["write_file".to_string()],
    };

    assert!(is_tool_allowed("read_file", Some(&policy)));
    assert!(!is_tool_allowed("write_file", Some(&policy)));
}

#[test]
fn tool_policy_disabled_blocks_all() {
    let policy = ToolAccessPolicy {
        enabled: false,
        mode: "all".to_string(),
        allow: vec![],
        deny: vec![],
    };

    assert!(!is_tool_allowed("read_file", Some(&policy)));
    assert!(!is_tool_allowed("execute_command", Some(&policy)));
}

#[test]
fn tool_policy_hash_is_stable_for_same_semantics() {
    let policy_a = ToolAccessPolicy {
        enabled: true,
        mode: "allowlist".to_string(),
        allow: vec!["write_file".to_string(), "read_file".to_string()],
        deny: vec!["execute_command".to_string()],
    };
    let policy_b = ToolAccessPolicy {
        enabled: true,
        mode: "allowlist".to_string(),
        allow: vec!["read_file".to_string(), "write_file".to_string()],
        deny: vec!["execute_command".to_string()],
    };

    assert_eq!(hash_tool_policy(&policy_a), hash_tool_policy(&policy_b));
}

#[test]
fn tool_policy_hash_differs_when_semantics_differ() {
    let a = ToolAccessPolicy {
        enabled: true,
        mode: "allowlist".to_string(),
        allow: vec!["read_file".to_string()],
        deny: vec![],
    };
    let b = ToolAccessPolicy {
        enabled: false,
        mode: "allowlist".to_string(),
        allow: vec!["read_file".to_string()],
        deny: vec![],
    };
    let ha = hash_tool_policy(&a);
    assert_eq!(ha.len(), 64);
    assert_ne!(ha, hash_tool_policy(&b));
}

#[test]
fn missing_policy_allows_everything() {
    assert!(is_tool_allowed("anything", None));
}

#[test]
fn shell_allowlist_matches_agents_policy() {
    for cmd in ["npm", "pnpm", "bun", "cargo", "git", "ls", "grep", "echo", "cat"] {
        assert!(is_allowed_shell_command(cmd));
    }
}

#[test]
fn shell_allowlist_blocks_dangerous_commands() {
    for cmd in ["rm", "curl", "wget", "kill", "mv", "cp", "node"] {
        assert!(!is_allowed_shell_command(cmd));
    }
}

#[test]
fn output_within_the_cap_is_kept() {
    assert_eq!(truncate_output("short output"), "short output");
}

#[test]
fn output_beyond_the_cap_is_cut() {
    let long = "é".repeat(MAX_TOOL_OUTPUT_BYTES);
    let cut = truncate_output(&long);
    assert!(cut.len() < long.len());
    assert!(cut.starts_with("é"));
}

#[test]
fn normalize_absolute_path_collapses_dot_segments() {
    let temp_root = std::path::Path::new("/tmp").join("rainy-mate-normalize");
    let input = temp_root.join("../rainy-mate-normalize/./src-tauri");
    let normalized = normalize_absolute_path(&input.to_string_lossy())
        .expect("expected valid absolute path");

    assert_eq!(normalized, temp_root.join("src-tauri").to_string_lossy());
}

#[test]
fn normalize_absolute_path_rejects_relative_paths() {
    let err = normalize_absolute_path("relative/path/to/file").unwrap_err();
    assert!(err.contains("must be absolute"));
}

#[test]
fn normalize_absolute_path_rejects_climbing_above_root() {
    assert!(normalize_absolute_path("/../etc").is_err());
    assert_eq!(normalize_absolute_path("/a//b/./c/..").unwrap(), "/a/b");
}

#[test]
fn domain_scope_matches_exact_and_wildcard_rules() {
    assert!(domain_rule_matches_str("api.example.com", "example.com"));
    assert!(domain_rule_matches_str("api.example.com", "*.example.com"));
    assert!(!domain_rule_matches_str("evil.com", "example.com"));
}

#[test]
fn domain_scope_enforces_blocked_before_allowed() {
    let err = enforce_domain_scope(
        "https://api.example.com/v1",
        &vec!["example.com".to_string()],
        &vec!["api.example.com".to_string()],
    )
    .unwrap_err();

    assert!(err.contains("blocked"));
}

#[test]
fn domain_scope_requires_an_allowed_rule() {
    let err = enforce_domain_scope(
        "https://other.org/",
        &vec!["example.com".to_string()],
        &vec![],
    )
    .unwrap_err();
    assert_eq!(err, "Domain 'other.org' is not in Airlock allowed_domains");
    assert!(enforce_domain_scope("https://other.org/", &vec![], &vec![]).is_ok());
}

#[test]
fn blocked_paths_reject_relative_and_absolute_matches() {
    let project_root = std::path::Path::new("/tmp").join("rainy-mate-skill-executor");
    let target = project_root.join("src-tauri/src/services/skill_executor.rs");
    let allowed = vec![project_root.to_string_lossy().to_string()];
    let blocked_relative = vec!["src-tauri/src/services".to_string()];
    let blocked_absolute = vec![project_root.join("src-tauri").to_string_lossy().to_string()];

    assert!(is_path_blocked(&target.to_string_lossy(), &blocked_relative, &allowed));
    assert!(is_path_blocked(&target.to_string_lossy(), &blocked_absolute, &allowed));
}

#[test]
fn resolve_path_keeps_requests_inside_allowed_roots() {
    let allowed = vec!["/work/project".to_string()];
    let blocked = vec!["secrets".to_string()];
    assert_eq!(
        resolve_path("src/main.rs", None, &allowed, &blocked).unwrap(),
        "/work/project/src/main.rs"
    );
    assert!(resolve_path("/etc/passwd", None, &allowed, &blocked).is_err());
    assert!(resolve_path("secrets/key", None, &allowed, &blocked).is_err());
}

#[test]
fn domain_rule_matches_handles_wildcards() {
    assert!(domain_rule_matches_str("api.example.com", "*.example.com"));
    assert!(domain_rule_matches_str("example.com", "*.example.com"));
    assert!(!domain_rule_matches_str("example.org", "*.example.com"));
}

#[test]
fn validate_http_url_blocks_private_and_localhost() {
    assert!(validate_http_url("https://example.com").is_ok());
    assert!(validate_http_url("http://localhost:3000").is_err());
    assert!(validate_http_url("http://127.0.0.1").is_err());
}

#[test]
fn validate_http_url_rejects_other_schemes() {
    assert_eq!(
        validate_http_url("ftp://example.com").unwrap_err(),
        "Only http:// and https:// URLs are allowed"
    );
    assert!(validate_http_url("http://10.1.2.3/").is_err());
    assert_eq!(validate_http_url("https://Example.COM/x").unwrap(), "example.com");
}

#[test]
fn skill_domains_must_be_declared() {
    assert!(enforce_allowed_domains("https://api.example.com/", &vec!["*.example.com".to_string()]).is_ok());
    assert!(enforce_allowed_domains("https://example.org/", &vec!["*.example.com".to_string()]).is_err());
}
