use rainy_mate::memory::{
    derive_source, derive_workspace_id, document_chunks, exceeds_chunk_limit, ingestion_tags,
    normalize_query_tokens, truncation_warning, LongTermMemory, MemoryEntry, MemoryError,
    MemoryManager, SemanticRetrievalMode,
};

fn entry(id: &str, content: &str, tags: &[&str]) -> MemoryEntry {
    MemoryEntry {
        id: id.to_string(),
        content: content.to_string(),
        timestamp: 1_700_000_000,
        tags: tags.iter().map(|t| t.to_string()).collect(),
    }
}

fn make_manager() -> MemoryManager {
    MemoryManager::new(100, "/tmp/rainy-mate-test-vault".to_string())
}

#[test]
fn test_simple_buffer_returns_ring_buffer_only() {
    let mut manager = make_manager();
    let ws = "test-ws-simple";
    manager.remember(entry(
        "1",
        "ring buffer content",
        &["test", &format!("workspace:{}", ws)],
    ));

    let result = manager.search_simple_buffer(ws, 10);
    assert_eq!(result.mode, SemanticRetrievalMode::SimpleBuffer);
    assert_eq!(result.mode.as_str(), "simple_buffer");
    assert!(
        result.entries.iter().any(|e| e.content.contains("ring buffer")),
        "simple_buffer should return ring buffer entries"
    );
}

#[test]
fn test_simple_buffer_no_cross_workspace_leak() {
    let mut manager = make_manager();
    manager.remember(entry(
        "a",
        "workspace A secret",
        &["test", "workspace:workspace-a"],
    ));

    let result = manager.search_simple_buffer("workspace-b", 10);
    assert!(
        !result.entries.iter().any(|e| e.content.contains("secret")),
        "workspace-b must not see workspace-a entries"
    );
}

#[test]
fn simple_buffer_is_newest_first_and_limited() {
    let mut manager = make_manager();
    for i in 0..5 {
        manager.remember(entry(&i.to_string(), &format!("note {}", i), &["workspace:w"]));
    }
    manager.remember(entry("other", "elsewhere", &["workspace:x"]));
    let result = manager.search_simple_buffer("w", 3);
    let ids: Vec<&str> = result.entries.iter().map(|e| e.id.as_str()).collect();
    assert_eq!(ids, vec!["4", "3", "2"]);
    assert!(result.reason.is_none());
    assert!(result.confidential_entry_ids.is_empty());
}

#[test]
fn manager_buffer_keeps_its_capacity() {
    let mut manager = MemoryManager::new(2, "/tmp/v".to_string());
    manager.remember(entry("1", "a", &[]));
    manager.remember(entry("2", "b", &[]));
    manager.remember(entry("3", "c", &[]));
    assert_eq!(manager.short_term_size(), 2);
    let all: Vec<String> = manager.get_all_short_term().into_iter().map(|e| e.id).collect();
    assert_eq!(all, vec!["2".to_string(), "3".to_string()]);
    let recent: Vec<String> = manager.get_recent(1).into_iter().map(|e| e.id).collect();
    assert_eq!(recent, vec!["3".to_string()]);
    manager.clear_short_term();
    assert!(manager.is_short_term_empty());
}

#[test]
fn manager_with_zero_size_keeps_one_entry() {
    let manager = MemoryManager::new(0, "/tmp/v".to_string());
    assert_eq!(manager.short_term_capacity(), 1);
    assert_eq!(manager.vault_dir(), "/tmp/v");
}

#[test]
fn test_store_entry() {
    let memory = LongTermMemory::new("./test_db".to_string());
    let result = memory.store(entry("1", "Test entry", &[]));
    assert!(result.is_ok());
}

#[test]
fn test_search_empty() {
    let memory = LongTermMemory::new("./test_db".to_string());
    let results = memory.search("test", 10);
    assert!(results.is_ok());
    assert!(results.unwrap().is_empty());
}

#[test]
fn test_get_nonexistent() {
    let memory = LongTermMemory::new("./test_db".to_string());
    let result = memory.get("nonexistent");
    assert!(result.is_ok());
    assert!(result.unwrap().is_none());
}

#[test]
fn test_delete_nonexistent() {
    let memory = LongTermMemory::new("./test_db".to_string());
    let result = memory.delete("nonexistent");
    assert!(result.is_ok());
}

#[test]
fn test_get_stats() {
    let memory = LongTermMemory::new("./test_db".to_string());
    let stats = memory.get_stats();
    assert!(stats.is_ok());
    let stats = stats.unwrap();
    assert_eq!(stats.total_entries, 0);
    assert_eq!(stats.total_size, 0);
}

#[test]
fn other_memory_errors_show_their_message() {
    let err = MemoryError::Other("vault locked".to_string());
    assert_eq!(err.to_string(), "vault locked");
}

#[test]
fn workspace_and_source_come_from_tags() {
    let tags = vec![
        "source:notes.md".to_string(),
        "agent:helper".to_string(),
        "workspace:ws-1".to_string(),
    ];
    assert_eq!(derive_workspace_id(&tags), "helper");
    assert_eq!(derive_source(&tags), "notes.md");
    assert_eq!(derive_workspace_id(&vec![]), "global");
    assert_eq!(derive_source(&vec!["x".to_string()]), "memory_manager");
}

#[test]
fn query_tokens_are_lowercased_and_trimmed() {
    let tokens = normalize_query_tokens("  Hello, WORLD!  --- rust-lang ");
    assert_eq!(tokens, vec!["hello", "world", "rust-lang"]);
    assert!(normalize_query_tokens("   ").is_empty());
}

#[test]
fn documents_are_cut_into_visible_chunks() {
    let text = format!("{}{}{}", "a".repeat(1500), " ".repeat(1500), "b".repeat(10));
    let chunks = document_chunks(&text);
    assert_eq!(chunks.len(), 2);
    assert_eq!(chunks[0].len(), 1500);
    assert_eq!(chunks[1], "b".repeat(10));
    assert!(!exceeds_chunk_limit(&text));
    assert!(truncation_warning(&text).is_none());
}

#[test]
fn long_documents_are_truncated_with_a_warning() {
    let text = "x".repeat(1500 * 2048 + 1);
    assert!(exceeds_chunk_limit(&text));
    assert_eq!(document_chunks(&text).len(), 2048);
    assert_eq!(
        truncation_warning(&text).unwrap(),
        "Document exceeded max chunk limit (2048); ingestion truncated"
    );
}

#[test]
fn ingested_chunks_carry_scoping_tags() {
    let tags = ingestion_tags("ws", "/docs/a.md", "doc-1", Some(vec!["extra".to_string()]));
    assert_eq!(
        tags,
        vec![
            "workspace:ws".to_string(),
            "source:/docs/a.md".to_string(),
            "type:document".to_string(),
            "doc:doc-1".to_string(),
            "extra".to_string(),
        ]
    );
}
