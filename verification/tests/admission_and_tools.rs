use rainy_mate::executor::{hash_tool_policy, ToolAccessPolicy};
use rainy_mate::admission::{
    admit_command, admit_third_party_call, needs_fallback_policy, route_for, CommandPayload,
    EffectiveSecurityPolicy, SkillRoute,
};
use rainy_mate::manifest::ParameterSchema;
use rainy_mate::memory::{merge_recall, save_memory_content, MemoryEntry};
use rainy_mate::third_party::{
    InstalledThirdPartyMethod, InstalledThirdPartySkill, SkillPermissionFs, SkillPermissions,
};
use rainy_mate::tool_policy::{get_tool_policy, AirlockLevel};
use rainy_mate::tools::{build_skill_manifest_from_runtime, registered_tools, ToolDefinition};

fn payload(method: &str) -> CommandPayload {
    CommandPayload {
        skill: Some("filesystem".to_string()),
        method: Some(method.to_string()),
        tool_access_policy: None,
        tool_access_policy_hash: None,
        tool_access_policy_version: None,
        allowed_paths: vec![],
        blocked_paths: vec![],
        allowed_domains: vec![],
        blocked_domains: vec![],
    }
}

fn allow_only(tools: &[&str]) -> ToolAccessPolicy {
    ToolAccessPolicy {
        enabled: true,
        mode: "allowlist".to_string(),
        allow: tools.iter().map(|t| t.to_string()).collect(),
        deny: vec![],
    }
}

#[test]
fn commands_need_a_workspace() {
    let err = admit_command(&None, &payload("read_file"), &None, 0).unwrap_err();
    assert_eq!(err, "Missing workspace ID in command");
}

#[test]
fn workspace_policy_fills_what_the_command_lacks() {
    let p = payload("read_file");
    assert!(needs_fallback_policy(&p));
    let fallback = EffectiveSecurityPolicy {
        tool_access_policy: allow_only(&["read_file"]),
        allowed_paths: vec!["/ws".to_string()],
        blocked_paths: vec!["secrets".to_string()],
        allowed_domains: vec![],
        blocked_domains: vec!["evil.com".to_string()],
    };
    let a = admit_command(&Some("ws-1".to_string()), &p, &Some(fallback), 3).unwrap();
    assert_eq!(a.route, SkillRoute::Filesystem);
    assert_eq!(a.allowed_paths, vec!["/ws".to_string()]);
    assert_eq!(a.blocked_domains, vec!["evil.com".to_string()]);
    assert_eq!(a.raise_floor_to, None);

    let denied = admit_command(
        &Some("ws-1".to_string()),
        &payload("write_file"),
        &Some(EffectiveSecurityPolicy {
            tool_access_policy: allow_only(&["read_file"]),
            allowed_paths: vec![],
            blocked_paths: vec![],
            allowed_domains: vec![],
            blocked_domains: vec![],
        }),
        0,
    )
    .unwrap_err();
    assert_eq!(denied, "Tool 'write_file' is blocked by workspace tool policy");
}

#[test]
fn policy_hash_and_version_are_checked() {
    let policy = allow_only(&["read_file"]);
    let mut p = payload("read_file");
    p.tool_access_policy = Some(policy.clone());
    p.allowed_paths = vec!["/ws".to_string()];
    p.tool_access_policy_hash = Some("not-the-hash".to_string());
    assert_eq!(
        admit_command(&Some("w".to_string()), &p, &None, 0).unwrap_err(),
        "Tool policy hash mismatch; rejecting command"
    );
    p.tool_access_policy_hash = Some(hash_tool_policy(&policy));
    p.tool_access_policy_version = Some(2);
    assert_eq!(
        admit_command(&Some("w".to_string()), &p, &None, 5).unwrap_err(),
        "Stale tool policy version 2 (latest seen 5)"
    );
    p.tool_access_policy_version = Some(9);
    let a = admit_command(&Some("w".to_string()), &p, &None, 5).unwrap();
    assert_eq!(a.raise_floor_to, Some(9));
    assert_eq!(a.method, "read_file");
}

#[test]
fn skills_route_by_name() {
    assert_eq!(route_for("browser"), SkillRoute::Browser);
    assert_eq!(route_for("evm"), SkillRoute::Evm);
    assert_eq!(route_for("acme_skill"), SkillRoute::ThirdParty);
}

fn third_party(fs: Vec<&str>, domains: Vec<&str>) -> InstalledThirdPartySkill {
    InstalledThirdPartySkill {
        id: "acme".to_string(),
        name: "acme".to_string(),
        version: "1.0.0".to_string(),
        author: "a".to_string(),
        description: String::new(),
        runtime: "wasi-core-v1".to_string(),
        binary_path: "/tmp/a.wasm".to_string(),
        binary_sha256: "00".to_string(),
        enabled: true,
        trust_state: "verified".to_string(),
        install_source: "atm".to_string(),
        installed_at: 0,
        permissions: SkillPermissions {
            filesystem: fs
                .into_iter()
                .map(|h| SkillPermissionFs { guest_path: "/data".to_string(), host_path: h.to_string(), mode: "read".to_string() })
                .collect(),
            network_domains: domains.into_iter().map(|d| d.to_string()).collect(),
        },
        methods: vec![],
    }
}

fn m(level: AirlockLevel) -> InstalledThirdPartyMethod {
    InstalledThirdPartyMethod { name: "run".to_string(), description: String::new(), airlock_level: level, parameters: vec![] }
}

#[test]
fn third_party_calls_need_level_and_scopes() {
    let s = third_party(vec!["/ws/data"], vec!["api.example.com"]);
    let allowed = vec!["/ws".to_string()];
    let none: Vec<String> = vec![];
    assert_eq!(
        admit_third_party_call(AirlockLevel::Safe, &s, &m(AirlockLevel::Dangerous), &allowed, &none, &none, &none).unwrap_err(),
        "Command Airlock level Safe is lower than third-party method 'run' required level Dangerous"
    );
    assert!(admit_third_party_call(AirlockLevel::Dangerous, &s, &m(AirlockLevel::Sensitive), &allowed, &none, &none, &none).is_ok());
    let outside = vec!["/other".to_string()];
    assert_eq!(
        admit_third_party_call(AirlockLevel::Dangerous, &s, &m(AirlockLevel::Safe), &outside, &none, &none, &none).unwrap_err(),
        "Third-party skill 'acme' filesystem permission '/ws/data' is outside command allowed paths"
    );
    let blocked = vec!["*.example.com".to_string()];
    assert_eq!(
        admit_third_party_call(AirlockLevel::Dangerous, &s, &m(AirlockLevel::Safe), &allowed, &none, &none, &blocked).unwrap_err(),
        "Third-party skill 'acme' network domain 'api.example.com' is blocked by Airlock scopes"
    );
    let relative = third_party(vec!["data"], vec![]);
    assert_eq!(
        admit_third_party_call(AirlockLevel::Dangerous, &relative, &m(AirlockLevel::Safe), &allowed, &none, &none, &none).unwrap_err(),
        "Invalid third-party skill filesystem permission: Path 'data' must be absolute"
    );
}

#[test]
fn every_registered_tool_has_explicit_policy_entry() {
    let tools = registered_tools();
    let missing: Vec<String> = tools
        .iter()
        .map(|tool| tool.name.clone())
        .filter(|name| get_tool_policy(name).is_none())
        .collect();
    assert!(missing.is_empty(), "Missing explicit tool policy entries for: {:?}", missing);
    assert_eq!(tools.len(), 45);
}

fn def(name: &str) -> ToolDefinition {
    ToolDefinition {
        name: name.to_string(),
        description: format!("{} tool", name),
        parameters: vec![(
            "path".to_string(),
            ParameterSchema { param_type: "string".to_string(), required: Some(true), description: None },
        )],
    }
}

#[test]
fn manifest_covers_every_registered_tool() {
    let defs: Vec<ToolDefinition> = registered_tools().into_iter().map(|t| def(&t.name)).collect();
    let manifests = build_skill_manifest_from_runtime(&defs).expect("manifest generation should work");
    let mut from_manifest: Vec<String> = manifests
        .iter()
        .flat_map(|skill| skill.methods.iter().map(|method| method.name.clone()))
        .collect();
    from_manifest.sort();
    let mut from_registry: Vec<String> = registered_tools().into_iter().map(|t| t.name).collect();
    from_registry.sort();
    assert_eq!(from_manifest, from_registry);
    let names: Vec<&str> = manifests.iter().map(|m| m.name.as_str()).collect();
    assert_eq!(names, vec!["browser", "documents", "filesystem", "memory", "shell", "web"]);
    assert!(manifests.iter().all(|m| m.version == "1.0.0"));
}

#[test]
fn manifests_refuse_unknown_tools() {
    let err = build_skill_manifest_from_runtime(&vec![def("read_file"), def("future_tool")]).unwrap_err();
    assert_eq!(err, "Tool 'future_tool' has no explicit policy; refusing to build manifest");
    let ok = build_skill_manifest_from_runtime(&vec![def("write_file"), def("read_file")]).unwrap();
    assert_eq!(ok.len(), 1);
    let methods: Vec<&str> = ok[0].methods.iter().map(|m| m.name.as_str()).collect();
    assert_eq!(methods, vec!["read_file", "write_file"]);
    assert_eq!(ok[0].methods[1].airlock_level, AirlockLevel::Sensitive);
}

fn entry(id: &str, ts: i64) -> MemoryEntry {
    MemoryEntry { id: id.to_string(), content: id.to_string(), timestamp: ts, tags: vec![] }
}

#[test]
fn recall_merges_namespaces_newest_first() {
    let global = vec![entry("a", 5), entry("b", 9)];
    let ws = vec![entry("a", 100), entry("c", 7), entry("d", 9)];
    let merged = merge_recall(&global, &ws, 3);
    let ids: Vec<&str> = merged.iter().map(|e| e.id.as_str()).collect();
    assert_eq!(ids, vec!["b", "d", "c"]);
    assert!(merge_recall(&global, &ws, 0).is_empty());
}

#[test]
fn saved_memories_need_content() {
    assert_eq!(save_memory_content(Some("likes tea")).unwrap(), "likes tea");
    assert_eq!(
        save_memory_content(Some("  ")).unwrap_err(),
        "save_memory requires a non-empty 'content' field"
    );
    assert!(save_memory_content(None).is_err());
}
