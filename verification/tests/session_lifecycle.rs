use rainy_mate::sessions::{finished_session_title, SessionTable};

#[test]
fn remote_start_uses_command_id_and_ignores_repeats() {
    let mut t = SessionTable::new();
    let (chat, run) = t.start_remote_session(Some("c1".to_string()), "ws", "telegram", "peer", Some("cmd-7"), 10);
    assert_eq!(chat, "c1");
    assert_eq!(run, "remote-cmd-7");
    let (_, run2) = t.start_remote_session(Some("c1".to_string()), "ws", "telegram", "peer", Some("cmd-8"), 11);
    assert_eq!(run2, "remote-cmd-8");
    let active = t.list_active(15);
    assert_eq!(active.len(), 1);
    assert_eq!(active[0].run_id, "remote-cmd-7");
    assert_eq!(active[0].source, "remote");
    assert_eq!(active[0].connector_id.as_deref(), Some("telegram"));
    assert_eq!(active[0].elapsed_secs, 5);
}

#[test]
fn fresh_ids_are_made_when_none_are_given() {
    let mut t = SessionTable::new();
    let (chat, run) = t.start_remote_session(None, "ws", "telegram", "peer", None, 0);
    assert!(!chat.is_empty());
    assert!(!run.is_empty());
    assert!(t.contains(&chat));
}

#[test]
fn native_modal_sessions_are_listed_and_aborted() {
    let mut t = SessionTable::new();
    let (chat, run) = t.start_native_modal_session(Some("m1".to_string()), Some("r1".to_string()), "ws-2", 3);
    assert_eq!((chat.as_str(), run.as_str()), ("m1", "r1"));
    assert!(!t.register_native_modal("m1".to_string(), "r2".to_string(), "ws-2".to_string(), 4));
    assert_eq!(t.list_active(3)[0].source, "native_modal");
    assert_eq!(t.abort_session("m1"), ("r1".to_string(), "ws-2".to_string()));
    assert!(t.list_active(3).is_empty());
    assert_eq!(t.abort_session("m1"), (String::new(), String::new()));
}

#[test]
fn finished_sessions_get_a_title_only_when_they_lack_one() {
    assert_eq!(finished_session_title(None, "fix the build"), Some("fix the build".to_string()));
    assert_eq!(finished_session_title(Some("New chat"), "fix the build"), Some("fix the build".to_string()));
    assert_eq!(finished_session_title(Some("Release notes"), "fix the build"), None);
}

use rainy_mate::sessions::{
    native_shell_action, shell_snapshot, ChatSessionSummary, NativeShellAction, QuickDelegateState,
};

#[test]
fn palette_actions_are_decided() {
    let mut q = QuickDelegateState::new();
    assert!(matches!(native_shell_action(&mut q, "hotkey", None), NativeShellAction::ShowPalette));
    assert!(matches!(native_shell_action(&mut q, "show_palette", None), NativeShellAction::ShowPalette));
    assert!(matches!(native_shell_action(&mut q, "review_approvals", None), NativeShellAction::ReviewApprovals));
    assert!(matches!(native_shell_action(&mut q, "resume_chat", None), NativeShellAction::Nothing));
    assert!(matches!(
        native_shell_action(&mut q, "resume_chat", Some("{}".to_string())),
        NativeShellAction::ResumeChat(p) if p == "{}"
    ));
    assert!(matches!(native_shell_action(&mut q, "submit_prompt", Some("  ".to_string())), NativeShellAction::Nothing));
    assert!(!q.is_busy());
    assert!(matches!(
        native_shell_action(&mut q, "submit_prompt", Some("summarise".to_string())),
        NativeShellAction::SubmitPrompt(p) if p == "summarise"
    ));
    assert!(q.is_busy());
    assert!(matches!(native_shell_action(&mut q, "submit_prompt", Some("again".to_string())), NativeShellAction::Nothing));
    assert!(matches!(native_shell_action(&mut q, "unknown", None), NativeShellAction::Nothing));
}

fn chat(id: &str, title: Option<&str>) -> ChatSessionSummary {
    ChatSessionSummary {
        id: id.to_string(),
        workspace_id: "ws".to_string(),
        title: title.map(|t| t.to_string()),
        updated_at: "2024-01-01".to_string(),
        last_message_at: None,
        message_count: 2,
    }
}

#[test]
fn snapshot_marks_active_chats() {
    let mut t = SessionTable::new();
    t.register_local("c2".to_string(), "r".to_string(), "ws".to_string(), 0);
    let q = QuickDelegateState::new();
    let chats: Vec<ChatSessionSummary> = (1..=7).map(|i| chat(&format!("c{}", i), None)).collect();
    let snap = shell_snapshot(true, Some("Team".to_string()), Some("/w".to_string()), 3, &t, &q, &chats, 0);
    assert_eq!(snap.active_session_count, 1);
    assert_eq!(snap.recent_chats.len(), 5);
    assert!(snap.recent_chats[1].is_active);
    assert!(!snap.recent_chats[0].is_active);
    assert_eq!(snap.recent_chats[0].title, "Untitled chat");
    assert_eq!(snap.pending_approval_count, 3);
    let snap = shell_snapshot(false, None, None, 0, &t, &q, &chats, 0);
    assert!(snap.recent_chats.is_empty());
}
