use rainy_mate::neural::{
    progress_backoff_ms, progress_retries, summarize_http_error_body, workspace_after_sync,
    ManifestState, NodeMetadata, RegisterStart,
};

fn node() -> NodeMetadata {
    NodeMetadata::new("ws-1".to_string(), "host".to_string(), "linux".to_string())
}

#[test]
fn new_node_is_unregistered_without_keys() {
    let n = node();
    assert!(!n.is_registered());
    assert!(!n.has_credentials());
    assert!(!n.can_attempt_registration());
    assert_eq!(n.get_node_id(), Err("Node not registered".to_string()));
    assert_eq!(n.get_auth_context(), Err("Node not registered".to_string()));
}

#[test]
fn credentials_allow_registration_on_a_paired_workspace() {
    let mut n = node();
    n.set_credentials("pk".to_string(), "uk".to_string());
    assert!(n.has_credentials());
    assert!(n.can_attempt_registration());
    assert_eq!(n.get_credentials(), Some(("pk".to_string(), "uk".to_string())));
    n.record_registration("node-9".to_string());
    assert!(n.is_registered());
    assert_eq!(
        n.get_auth_context(),
        Ok(("node-9".to_string(), "pk".to_string()))
    );
}

#[test]
fn pending_pairing_workspace_blocks_registration() {
    let mut n = NodeMetadata::new("pending-pairing".to_string(), "h".to_string(), "p".to_string());
    n.set_credentials("pk".to_string(), "uk".to_string());
    assert!(!n.can_attempt_registration());
    assert_eq!(n.get_workspace_id(), None);
    n.set_workspace_id("   ".to_string());
    assert!(!n.can_attempt_registration());
    assert_eq!(n.get_workspace_id(), None);
    n.set_workspace_id("  team  ".to_string());
    assert_eq!(n.get_workspace_id(), Some("team".to_string()));
}

#[test]
fn changing_workspace_or_keys_clears_registration() {
    let mut n = node();
    n.record_registration("node-1".to_string());
    n.set_workspace_id("ws-2".to_string());
    assert!(!n.is_registered());
    n.record_registration("node-2".to_string());
    n.set_credentials("a".to_string(), "b".to_string());
    assert!(!n.is_registered());
    n.record_registration("node-3".to_string());
    n.clear_credentials();
    assert!(!n.is_registered());
    assert!(!n.has_credentials());
}

#[test]
fn auth_context_without_key_is_not_authenticated() {
    let mut n = node();
    n.record_registration("node-1".to_string());
    assert_eq!(n.get_auth_context(), Err("Not authenticated".to_string()));
}

#[test]
fn forgetting_statuses_reset_the_node() {
    for status in [401u16, 404, 409] {
        let mut n = node();
        n.record_registration("x".to_string());
        n.reset_node_on_status(status);
        assert!(!n.is_registered());
    }
    for status in [200u16, 400, 500] {
        let mut n = node();
        n.record_registration("x".to_string());
        n.reset_node_on_status(status);
        assert!(n.is_registered());
    }
}

#[test]
fn saved_bundle_keeps_workspace_when_blank() {
    let mut n = node();
    n.apply_saved_bundle("pk".to_string(), "uk".to_string(), "  ".to_string());
    assert_eq!(n.get_workspace_id(), Some("ws-1".to_string()));
    n.apply_saved_bundle("pk".to_string(), "uk".to_string(), "ws-7".to_string());
    assert_eq!(n.get_workspace_id(), Some("ws-7".to_string()));
    assert!(n.has_credentials());
}

#[test]
fn legacy_keys_need_both_parts() {
    let mut n = node();
    assert!(!n.apply_legacy_keys(Some("pk".to_string()), None, Some("w".to_string())));
    assert!(!n.has_credentials());
    assert_eq!(n.get_workspace_id(), Some("ws-1".to_string()));
    assert!(n.apply_legacy_keys(Some("pk".to_string()), Some("uk".to_string()), Some("w".to_string())));
    assert!(n.has_credentials());
    assert_eq!(n.get_workspace_id(), Some("w".to_string()));
}

#[test]
fn auth_context_sync_moves_only_on_difference() {
    assert_eq!(workspace_after_sync("a", "a"), None);
    assert_eq!(workspace_after_sync("a", "b"), Some("b".to_string()));
}

#[test]
fn manifest_is_sent_when_changed_or_dirty() {
    let mut m = ManifestState::new();
    assert!(m.include_manifest("h1"));
    m.record_sent("h1".to_string());
    assert!(!m.include_manifest("h1"));
    assert!(m.include_manifest("h2"));
    m.dirty = true;
    assert!(m.include_manifest("h1"));
}

#[test]
fn error_bodies_are_summarised() {
    assert_eq!(summarize_http_error_body("   \n\t "), "empty error body");
    assert_eq!(
        summarize_http_error_body("<html><body>502</body></html>"),
        "temporary upstream HTML error response"
    );
    assert_eq!(
        summarize_http_error_body("bad   request\n  body"),
        "bad request body"
    );
    let long = "x".repeat(300);
    let summary = summarize_http_error_body(&long);
    assert_eq!(summary, format!("{}...", "x".repeat(220)));
    let exact = "y".repeat(220);
    assert_eq!(summarize_http_error_body(&exact), exact);
}

#[test]
fn progress_reports_retry_twice_on_server_errors() {
    assert!(progress_retries(None, 1));
    assert!(progress_retries(Some(503), 2));
    assert!(!progress_retries(Some(503), 3));
    assert!(!progress_retries(Some(404), 1));
    assert_eq!(progress_backoff_ms(1), 100);
    assert_eq!(progress_backoff_ms(2), 200);
}

#[test]
fn registration_needs_a_key_and_reuses_an_id() {
    let mut n = node();
    assert_eq!(
        n.register_start().unwrap_err(),
        "Not authenticated: Platform Key required"
    );
    n.set_credentials("pk".to_string(), "uk".to_string());
    match n.register_start().unwrap() {
        RegisterStart::Proceed { platform_key, workspace_id, .. } => {
            assert_eq!(platform_key, "pk");
            assert_eq!(workspace_id, "ws-1");
        }
        other => panic!("unexpected {:?}", other),
    }
    let mut m = ManifestState::new();
    assert_eq!(
        n.finish_registration(&mut m, false, "".to_string(), "quota".to_string(), "sig".to_string()),
        Err("quota".to_string())
    );
    assert!(!n.is_registered());
    assert!(m.include_manifest("sig"));
    assert_eq!(
        n.finish_registration(&mut m, true, "node-5".to_string(), "ok".to_string(), "sig".to_string()),
        Ok("node-5".to_string())
    );
    assert!(!m.include_manifest("sig"));
    assert!(matches!(n.register_start().unwrap(), RegisterStart::AlreadyRegistered(id) if id == "node-5"));
}

#[test]
fn auth_context_moves_the_node_to_the_server_workspace() {
    let mut n = node();
    assert_eq!(n.sync_key().unwrap_err(), "Not authenticated: Platform Key required");
    n.set_credentials("pk".to_string(), "uk".to_string());
    assert_eq!(n.sync_key(), Ok("pk".to_string()));
    n.record_registration("node".to_string());
    assert_eq!(
        n.apply_auth_context(false, "ws-9".to_string()),
        Err("Auth context sync failed: success=false".to_string())
    );
    assert_eq!(n.apply_auth_context(true, "ws-1".to_string()), Ok(None));
    assert!(n.is_registered());
    assert_eq!(n.apply_auth_context(true, "ws-9".to_string()), Ok(Some("ws-9".to_string())));
    assert!(!n.is_registered());
    assert_eq!(n.get_workspace_id(), Some("ws-9".to_string()));
}

#[test]
fn disconnect_clears_the_id_unless_it_failed() {
    let mut n = node();
    n.record_registration("x".to_string());
    assert!(!n.finish_disconnect(500));
    assert!(n.is_registered());
    assert!(n.finish_disconnect(404));
    assert!(!n.is_registered());
    n.record_registration("y".to_string());
    assert!(n.finish_disconnect(200));
    assert!(!n.is_registered());
}
