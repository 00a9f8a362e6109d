use rainy_mate::args::{
    ExtractLinksArgs, GitDiffArgs, GitLogArgs, GitStatusArgs, HttpGetJsonArgs, ReadFileChunkArgs,
    SearchFilesArgs,
};
use rainy_mate::recorder::{is_allowed_kind, WorkflowRecorderService};
use rainy_mate::sessions::{
    build_fallback_title, build_recent_chat, is_placeholder_title, recent_chats,
    ChatSessionSummary, QuickDelegateState, RemoteWorkspaceGrantStore, SessionTable,
};

#[test]
fn placeholder_titles_are_recognised() {
    assert!(is_placeholder_title("  "));
    assert!(is_placeholder_title("New Chat"));
    assert!(is_placeholder_title("Workspace Session: 12"));
    assert!(!is_placeholder_title("Release plan"));
}

#[test]
fn fallback_titles_are_compact_and_short() {
    assert_eq!(build_fallback_title("  \"Fix   the build.\" "), "Fix the build");
    assert_eq!(build_fallback_title("---"), "Remote session");
    assert_eq!(build_fallback_title(&"w ".repeat(100)).chars().count(), 72);
}

#[test]
fn session_table_tracks_active_runs() {
    let mut t = SessionTable::new();
    t.register_local("c1".to_string(), "r1".to_string(), "ws".to_string(), 100);
    assert!(t.register_remote("c2".to_string(), "r2".to_string(), "ws".to_string(), "tg".to_string(), "peer".to_string(), 110));
    assert!(!t.register_remote("c2".to_string(), "r3".to_string(), "ws".to_string(), "tg".to_string(), "peer".to_string(), 120));
    let listed = t.list_active(130);
    assert_eq!(listed.len(), 2);
    assert_eq!(listed[0].source, "local");
    assert_eq!(listed[0].elapsed_secs, 30);
    assert_eq!(listed[1].source, "remote");
    assert_eq!(listed[1].connector_id.as_deref(), Some("tg"));
    assert_eq!(listed[1].run_id, "r2");
    assert_eq!(t.remove("c2"), ("r2".to_string(), "ws".to_string()));
    assert_eq!(t.remove("c2"), (String::new(), String::new()));
    assert!(t.contains("c1"));
    t.unregister("c1");
    assert!(!t.contains("c1"));
}

#[test]
fn recent_chats_show_five_with_titles() {
    let chats: Vec<ChatSessionSummary> = (0..7)
        .map(|i| ChatSessionSummary {
            id: format!("c{}", i),
            workspace_id: "ws".to_string(),
            title: if i == 0 { Some("  ".to_string()) } else { Some(format!("Chat {}", i)) },
            updated_at: "2024-01-01".to_string(),
            last_message_at: if i == 1 { Some("2024-02-02".to_string()) } else { None },
            message_count: i,
        })
        .collect();
    let active = vec!["c1".to_string()];
    let recent = recent_chats(&chats, &active);
    assert_eq!(recent.len(), 5);
    assert_eq!(recent[0].title, "Untitled chat");
    assert_eq!(recent[1].updated_at, "2024-02-02");
    assert!(recent[1].is_active);
    assert!(!recent[2].is_active);
    let one = build_recent_chat(&chats[3], &active);
    assert_eq!(one.title, "Chat 3");
}

#[test]
fn quick_delegate_runs_one_at_a_time() {
    let mut q = QuickDelegateState::new();
    assert!(q.begin_run().is_ok());
    assert!(q.is_busy());
    assert_eq!(q.begin_run().unwrap_err(), "A quick delegation is already running.");
    q.finish_run();
    assert!(!q.is_busy());
}

#[test]
fn remote_grants_expire_and_renew() {
    let mut store = RemoteWorkspaceGrantStore::new();
    let g = store.insert_at("ws", "tg", "peer", "/home/u/project", 1_000);
    assert_eq!(g.display_name, "project");
    assert_eq!(g.expires_at_ms, 1_000 + 28_800_000);
    assert!(store.get_active_at("ws", "tg", "peer", 2_000).is_some());
    let renewed = store.touch_at("ws", "tg", "peer", 5_000).unwrap();
    assert_eq!(renewed.last_used_at_ms, 5_000);
    assert_eq!(renewed.expires_at_ms, 5_000 + 28_800_000);
    assert!(store.get_active_at("ws", "tg", "peer", 5_000 + 28_800_000).is_none());
    assert!(store.get_active_at("ws", "tg", "peer", 0).is_none());
    let root = store.insert_at("ws", "tg", "peer2", "/", 0);
    assert_eq!(root.display_name, "/");
}

#[test]
fn recording_takes_steps_in_order() {
    let mut r = WorkflowRecorderService::new();
    let started = r.start_recording_at(Some("  Smoke ".to_string()), "rec_1".to_string(), 10).expect("start recording should work");
    assert_eq!(started.title, "Smoke");
    assert!(r.start_recording_at(None, "rec_2".to_string(), 11).is_err());
    let step = r
        .record_step_at("tool_call".to_string(), "read_file".to_string(), Some("{\"path\":\"README.md\"}".to_string()), "step_1".to_string(), 12)
        .expect("record step should work");
    assert_eq!(step.kind, "tool_call");
    let stopped = r.stop_recording_at(20).expect("stop recording should work");
    assert_eq!(stopped.step_count, 1);
    assert_eq!(stopped.stopped_at_ms, Some(20));
    assert!(r.get_recording("rec_1").is_some(), "recording should be persisted");
    assert!(r.active_recording().is_none());
}

#[test]
fn start_record_stop_roundtrip() {
    let mut r = WorkflowRecorderService::new();
    let started = r.start_recording(Some("Smoke".to_string())).expect("start recording should work");
    r.record_step("tool_call".to_string(), "read_file".to_string(), Some("{\"path\":\"README.md\"}".to_string()))
        .expect("record step should work");
    let stopped = r.stop_recording().expect("stop recording should work");
    assert_eq!(stopped.step_count, 1);
    assert_eq!(stopped.id, started.id);
    assert!(r.get_recording(&started.id).is_some(), "recording should be persisted");
}

#[test]
fn rejects_invalid_step_kind() {
    let mut r = WorkflowRecorderService::new();
    r.start_recording(Some("Smoke".to_string())).expect("start recording should work");
    let err = r
        .record_step("unknown".to_string(), "bad".to_string(), None)
        .expect_err("invalid kind should fail");
    assert!(err.contains("Unsupported recording step kind"));
    assert!(is_allowed_kind("agent_run"));
}

#[test]
fn recording_history_keeps_fifty() {
    let mut r = WorkflowRecorderService::new();
    for i in 0..51 {
        r.start_recording_at(None, format!("rec_{}", i), i as i64).unwrap();
        r.stop_recording_at(i as i64 + 1).unwrap();
    }
    assert!(r.get_recording("rec_0").is_none());
    assert!(r.get_recording("rec_50").is_some());
    assert!(r.stop_recording_at(99).is_err());
}

#[test]
fn effective_arguments_are_clamped() {
    let chunk = ReadFileChunkArgs { path: "a".to_string(), offset: None, length: None };
    assert_eq!(chunk.effective_length(), 8192);
    let chunk = ReadFileChunkArgs { path: "a".to_string(), offset: None, length: Some(1_000_000) };
    assert_eq!(chunk.effective_length(), 65536);
    let search = SearchFilesArgs { query: "x".to_string(), path: None, search_content: None, case_sensitive: None, max_files: Some(5) };
    assert_eq!(search.effective_max_files(), 100);
    assert!(search.effective_search_content());
    assert!(!search.effective_case_sensitive());
    let links = ExtractLinksArgs { limit: Some(0) };
    assert_eq!(links.effective_limit(), 1);
    let http = HttpGetJsonArgs { url: "u".to_string(), timeout_ms: None, max_bytes: None };
    assert_eq!(http.effective_timeout_ms(), 15_000);
    assert_eq!(http.effective_max_bytes(), 512 * 1024);
}

#[test]
fn git_arguments_follow_the_options() {
    assert_eq!(GitStatusArgs { path: None, short: None }.git_args(), vec!["status", "--short"]);
    assert_eq!(GitStatusArgs { path: None, short: Some(false) }.git_args(), vec!["status"]);
    assert_eq!(GitDiffArgs { path: None, staged: Some(true) }.git_args(), vec!["diff", "--staged"]);
    assert_eq!(GitLogArgs { path: None, max_count: Some(500) }.git_args(), vec!["--no-pager", "log", "--oneline", "-100"]);
    assert_eq!(GitLogArgs { path: None, max_count: None }.git_args(), vec!["--no-pager", "log", "--oneline", "-20"]);
}
