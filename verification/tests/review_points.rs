use sha2::Digest;
use rainy_mate::executor::{hash_tool_policy, ToolAccessPolicy};
use rainy_mate::memory::MemoryManager;
use rainy_mate::prompt_skills::{
    DiscoveredPromptSkill, ParsedPromptSkill, PromptSkillDiscoveryService, PromptSkillRegistry,
    PromptSkillScope, PromptSkillSourceKind,
};
use rainy_mate::scheduler::JobTable;
use rainy_mate::sessions::RemoteWorkspaceGrantStore;

#[test]
fn policy_fingerprint_is_sixty_four_lowercase_hex_digits() {
    let p = ToolAccessPolicy {
        enabled: true,
        mode: "allowlist".to_string(),
        allow: vec!["write_file".to_string(), "read_file".to_string()],
        deny: vec!["execute_command".to_string()],
    };
    let h = hash_tool_policy(&p);
    assert_eq!(h.len(), 64);
    assert!(h.chars().all(|c| c.is_ascii_digit() || ('a'..='f').contains(&c)));
}

#[test]
fn zero_retention_prunes_nothing() {
    let m = MemoryManager::new(10, "/v".to_string());
    assert_eq!(m.prune_expired(0, 1_000_000), None);
    assert_eq!(m.prune_expired(2, 1_000_000), Some(1_000_000 - 2 * 86_400));
}

fn parsed(name: &str, path: &str) -> ParsedPromptSkill {
    ParsedPromptSkill {
        id: format!("{}-id", name),
        name: name.to_string(),
        description: "d".to_string(),
        body_markdown: "body".to_string(),
        scripts: vec![],
        references: vec![],
        source_hash: "h".to_string(),
        source_path: path.to_string(),
    }
}

#[test]
fn binding_carries_the_skill_kind() {
    let mut d = DiscoveredPromptSkill::from_parsed(
        parsed("A", "/a"),
        PromptSkillScope::Project,
        PromptSkillSourceKind::Direct,
        false,
        1,
    );
    assert_eq!(d.kind, None);
    assert_eq!(d.to_binding().kind, None);
    d.kind = Some("instruction".to_string());
    assert_eq!(d.to_binding().kind.as_deref(), Some("instruction"));
}

#[test]
fn discovered_skills_are_valid_exactly_without_a_parse_error() {
    let service = PromptSkillDiscoveryService::new("/app".to_string());
    let ok = DiscoveredPromptSkill::from_parsed(parsed("Ok", "/ok"), PromptSkillScope::Global, PromptSkillSourceKind::Direct, false, 0);
    let bad = DiscoveredPromptSkill::invalid("/bad", Some("bad"), PromptSkillScope::Global, PromptSkillSourceKind::Direct, "Missing YAML frontmatter".to_string(), 0);
    let out = service.discover(&vec![ok, bad]);
    assert_eq!(out.len(), 2);
    assert!(out.iter().all(|d| d.valid == d.parse_error.is_none()));
}

#[test]
fn a_switch_write_reads_back() {
    let mut r = PromptSkillRegistry::global("/data", vec![]);
    r.set_all_agents_enabled("/b", true);
    r.set_all_agents_enabled("/a", false);
    r.set_all_agents_enabled("/a", true);
    assert!(r.all_agents_enabled("/a"));
    assert!(r.all_agents_enabled("/b"));
    r.set_all_agents_enabled("/b", false);
    assert!(!r.all_agents_enabled("/b"));
    assert!(r.all_agents_enabled("/a"));
    assert_eq!(r.get_entries().len(), 2);
}

#[test]
fn active_grants_belong_to_the_triple_asked_for() {
    let mut store = RemoteWorkspaceGrantStore::new();
    store.insert_at("ws", "tg", "peer-a", "/p", 0);
    store.insert_at("ws", "tg", "peer-b", "/q", 0);
    let g = store.get_active_at("ws", "tg", "peer-b", 10).unwrap();
    assert_eq!((g.workspace_id.as_str(), g.connector_id.as_str(), g.session_peer.as_str()), ("ws", "tg", "peer-b"));
    assert!(store.get_active_at("ws", "other", "peer-b", 10).is_none());
}

#[test]
fn schedules_that_cron_refuses_are_reported() {
    let mut t = JobTable::new();
    let e = t.add_job_now("j".to_string(), "never valid".to_string(), "a".to_string(), "{}".to_string()).unwrap_err();
    assert_eq!(e, "Invalid cron schedule: Invalid expression: Invalid cron expression.");
    assert!(t.add_job_now("k".to_string(), "0 0 * * * * *".to_string(), "a".to_string(), "{}".to_string()).is_ok());
}

use rainy_mate::memory::{
    after_query_embedding, asks_fallback, ingest_embedding_plan, retrieval_start, BatchEmbedding,
    EmbedderStatus, QueryEmbeddingOutcome, RetrievalStep,
};

#[test]
fn semantic_search_falls_back_to_lexical_with_a_reason() {
    assert!(matches!(retrieval_start("simple_buffer", EmbedderStatus::Missing), RetrievalStep::SimpleBuffer));
    assert!(matches!(retrieval_start("hybrid", EmbedderStatus::Available), RetrievalStep::EmbedQuery));
    assert!(matches!(
        retrieval_start("hybrid", EmbedderStatus::Missing),
        RetrievalStep::Lexical(r) if r == "Missing Gemini embedding API key"
    ));
    assert!(matches!(
        retrieval_start("vector", EmbedderStatus::Failed("no keychain".to_string())),
        RetrievalStep::Lexical(r) if r == "no keychain"
    ));
    assert!(matches!(after_query_embedding(QueryEmbeddingOutcome::Embedded), RetrievalStep::VectorSearch));
    assert!(matches!(
        after_query_embedding(QueryEmbeddingOutcome::Failed("429".to_string())),
        RetrievalStep::Lexical(r) if r == "Gemini embedding request failed: 429"
    ));
    assert!(matches!(
        after_query_embedding(QueryEmbeddingOutcome::TimedOut),
        RetrievalStep::Lexical(r) if r == "Semantic search timed out; using lexical fallback"
    ));
}

#[test]
fn ingestion_embeds_with_the_active_model_or_falls_back() {
    let full = BatchEmbedding::Vectors(3);
    assert!(asks_fallback(3, &full));
    let p = ingest_embedding_plan(3, BatchEmbedding::Vectors(3), Some(BatchEmbedding::Vectors(3)));
    assert_eq!(p.embedding_model.as_deref(), Some("gemini-embedding-2-preview"));
    assert!(p.with_fallback_vectors);
    assert_eq!(p.warning, None);

    assert!(!asks_fallback(3, &BatchEmbedding::Vectors(2)));
    let p = ingest_embedding_plan(3, BatchEmbedding::Vectors(2), None);
    assert_eq!(p.embedding_model, None);
    assert_eq!(
        p.warning.as_deref(),
        Some("Primary batch embeddings size mismatch during ingestion; using fallback path")
    );

    let p = ingest_embedding_plan(3, BatchEmbedding::Failed("500".to_string()), Some(BatchEmbedding::Vectors(3)));
    assert_eq!(p.embedding_model.as_deref(), Some("gemini-embedding-001"));
    assert_eq!(
        p.warning.as_deref(),
        Some("Primary batch embedding failed; used fallback model 'gemini-embedding-001': 500")
    );

    let p = ingest_embedding_plan(
        3,
        BatchEmbedding::Failed("500".to_string()),
        Some(BatchEmbedding::Failed("503".to_string())),
    );
    assert_eq!(p.embedding_model, None);
    assert_eq!(
        p.warning.as_deref(),
        Some("Batch embeddings unavailable; storing without embeddings: 500 | 503")
    );
}

use rainy_mate::documents::wrap_pdf_body;

#[test]
fn pdf_bodies_wrap_at_eighty_five_bytes() {
    assert!(wrap_pdf_body("   ").is_empty());
    assert_eq!(wrap_pdf_body("one  two\nthree"), vec!["one two three".to_string()]);
    let word = "x".repeat(40);
    let body = format!("{w} {w} {w}", w = word);
    let lines = wrap_pdf_body(&body);
    assert_eq!(lines, vec![format!("{w} {w}", w = word), word.clone()]);
    let long = "y".repeat(100);
    assert_eq!(wrap_pdf_body(&format!("a {}", long)), vec!["a".to_string(), long]);
}

#[test]
fn policy_fingerprint_is_the_sha256_of_serde_json_text() {
    let p = ToolAccessPolicy {
        enabled: true,
        mode: "allowlist".to_string(),
        allow: vec!["write_file".to_string(), "read_file".to_string()],
        deny: vec!["execute_command".to_string()],
    };
    let text = r#"{"allow":["read_file","write_file"],"deny":["execute_command"],"enabled":true,"mode":"allowlist"}"#;
    let expected = hex::encode(sha2::Sha256::digest(text.as_bytes()));
    assert_eq!(hash_tool_policy(&p), expected);
}

use rainy_mate::memory::{embedder_provider, ingestion_result, ranked_top};
use rainy_mate::vault::{use_batch_vectors, MemorySensitivity};

#[test]
fn ingestion_reports_embedded_chunks_mode_and_warnings() {
    let text = "a".repeat(3100);
    let r = ingestion_result(&text, false, None);
    assert_eq!(r.chunks_ingested, 3);
    assert_eq!(r.chunks_embedded, 0);
    assert_eq!(r.embedding_mode, "none");
    assert_eq!(
        r.warnings,
        vec!["Gemini embedding API key unavailable; storing chunks without embeddings".to_string()]
    );

    let plan = ingest_embedding_plan(3, BatchEmbedding::Vectors(3), Some(BatchEmbedding::Failed("x".to_string())));
    let r = ingestion_result(&text, true, Some(plan));
    assert_eq!(r.chunks_embedded, 3);
    assert_eq!(r.embedding_mode, "gemini:gemini-embedding-2-preview");
    assert_eq!(r.warnings, vec!["Fallback batch embeddings failed during ingestion: x".to_string()]);

    let plan = ingest_embedding_plan(3, BatchEmbedding::Vectors(1), None);
    let r = ingestion_result(&text, true, Some(plan));
    assert_eq!(r.chunks_embedded, 0);
    assert_eq!(r.embedding_mode, "none");

    let huge = "b".repeat(1500 * 2049);
    let r = ingestion_result(&huge, false, None);
    assert_eq!(r.chunks_ingested, 2048);
    assert_eq!(
        r.warnings,
        vec![
            "Gemini embedding API key unavailable; storing chunks without embeddings".to_string(),
            "Document exceeded max chunk limit (2048); ingestion truncated".to_string(),
        ]
    );
}

#[test]
fn gemini_is_selected_by_its_short_names() {
    assert_eq!(embedder_provider(" Google "), Some("gemini".to_string()));
    assert_eq!(embedder_provider("g"), Some("gemini".to_string()));
    assert_eq!(embedder_provider("GEMINI"), Some("gemini".to_string()));
    assert_eq!(embedder_provider("openai"), None);
}

#[test]
fn the_ranked_top_keeps_at_least_one_and_lists_confidential_ids() {
    let ranked = vec![
        ("a".to_string(), MemorySensitivity::Confidential),
        ("b".to_string(), MemorySensitivity::Internal),
        ("c".to_string(), MemorySensitivity::Confidential),
    ];
    assert_eq!(ranked_top(&ranked, 0), (1, vec!["a".to_string()]));
    assert_eq!(ranked_top(&ranked, 2), (2, vec!["a".to_string()]));
    assert_eq!(ranked_top(&ranked, 10), (3, vec!["a".to_string(), "c".to_string()]));
    assert_eq!(ranked_top(&vec![], 5), (0, vec![]));
}

#[test]
fn batch_vectors_are_used_only_when_complete() {
    assert!(use_batch_vectors(Some(16), 16));
    assert!(!use_batch_vectors(Some(15), 16));
    assert!(!use_batch_vectors(None, 16));
}
