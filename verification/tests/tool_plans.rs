use rainy_mate::args::{ExtractLinksArgs, SearchFilesArgs, SubmitFormArgs};
use rainy_mate::browser::{
    browser_method, browser_step_error, clicked_message, extract_links_script, go_back_script,
    navigation_error_closes_browser, page_snapshot_script, selector_found_message,
    submit_form_script, typed_message, unknown_browser_method, BrowserMethod, BrowserStep,
};
use rainy_mate::evm::{evm_method, evm_root_refusal, evm_workspace_path, unknown_network_message, EvmMethod};
use rainy_mate::executor::{command_not_allowed, command_outcome};
use rainy_mate::files::{
    binary_mime_type, check_chunk_request, chunk_progress, clipped_length, deleted_message,
    filesystem_method, files_to_read, lists_entry, made_dir_message, moved_message, FsMethod,
};
use rainy_mate::prompt_skills::{assemble_instruction_skill, DiscoveredPromptSkill, PromptSkillScope, PromptSkillSourceKind};
use rainy_mate::search::{is_content_searchable, search_descends, SearchVisit, SearchWalk};

#[test]
fn browser_methods_and_their_aliases() {
    assert_eq!(browser_method("browse_url"), Some(BrowserMethod::Navigate));
    assert_eq!(browser_method("open_new_tab"), Some(BrowserMethod::Navigate));
    assert_eq!(browser_method("click_element"), Some(BrowserMethod::Click));
    assert_eq!(browser_method("get_page_content"), Some(BrowserMethod::GetContent));
    assert_eq!(browser_method("fly"), None);
    assert_eq!(unknown_browser_method("fly"), "Unknown browser method: fly");
}

#[test]
fn timeouts_close_the_browser() {
    assert!(navigation_error_closes_browser("Navigation Timed Out after 30s"));
    assert!(navigation_error_closes_browser("TIMEOUT"));
    assert!(!navigation_error_closes_browser("net::ERR_NAME_NOT_RESOLVED"));
}

#[test]
fn form_scripts_embed_the_selectors_as_json() {
    let script = submit_form_script(&SubmitFormArgs {
        form_selector: Some("#login \"x\"".to_string()),
        submit_selector: None,
        wait_ms: None,
    })
    .unwrap();
    assert!(script.starts_with("(function() {"));
    assert!(script.contains("const formSel = \"#login \\\"x\\\"\";"));
    assert!(script.contains("const submitSel = null;"));
    assert!(script.ends_with("})()"));
}

#[test]
fn link_scripts_carry_the_clamped_limit() {
    let s = extract_links_script(&ExtractLinksArgs { limit: Some(9999) });
    assert!(s.contains("out.length < 500;"));
    let s = extract_links_script(&ExtractLinksArgs { limit: None });
    assert!(s.contains("out.length < 100;"));
    assert!(go_back_script().contains("history.back()"));
    assert!(page_snapshot_script().contains("substring(0, 2000)"));
}

#[test]
fn browser_messages() {
    assert_eq!(clicked_message("#go"), "Clicked element: #go");
    assert_eq!(selector_found_message(".row", 500), "Selector '.row' found within 500ms");
    assert_eq!(typed_message("input"), "Typed text into 'input'");
    assert_eq!(browser_step_error(BrowserStep::GoBackSnapshot, "x"), "Back navigation completed but snapshot failed: x");
    assert_eq!(browser_step_error(BrowserStep::SubmitForm, "y"), "Failed to submit form: y");
}

#[test]
fn evm_methods_need_a_workspace_root_to_sign() {
    assert_eq!(evm_method("beam_send_transaction"), Some(EvmMethod::SendTransaction));
    assert_eq!(evm_method("beam_mint"), None);
    assert_eq!(evm_workspace_path(Some(&vec!["/a".to_string(), "/b".to_string()])), "/a");
    assert_eq!(evm_workspace_path(None), "");
    assert_eq!(
        evm_root_refusal(EvmMethod::Connect, ""),
        Some("Cannot connect: workspace has no allowed paths configured".to_string())
    );
    assert_eq!(
        evm_root_refusal(EvmMethod::SignTransaction, ""),
        Some("Workspace path required — run beam_rpc_connect first".to_string())
    );
    assert_eq!(evm_root_refusal(EvmMethod::ListWallets, ""), None);
    assert_eq!(evm_root_refusal(EvmMethod::SendTransaction, "/a"), None);
    assert_eq!(unknown_network_message("moon"), "Unknown network 'moon'. Use 'mainnet' or 'testnet'");
}

#[test]
fn command_results_join_and_cap_the_output() {
    let ok = command_outcome(true, Some(0), "out\n", "");
    assert!(ok.success);
    assert_eq!(ok.output.as_deref(), Some("out"));
    assert!(ok.error.is_none());
    let failed = command_outcome(false, None, "", "boom");
    assert_eq!(failed.output.as_deref(), Some("boom"));
    assert_eq!(failed.error.as_deref(), Some("boom"));
    assert_eq!(failed.exit_code, Some(1));
    let refused = command_not_allowed("rm");
    assert_eq!(refused.error.as_deref(), Some("Command 'rm' is not allowed"));
}

fn search_args(max: Option<usize>, content: Option<bool>) -> SearchFilesArgs {
    SearchFilesArgs { query: "x".to_string(), path: None, search_content: content, case_sensitive: None, max_files: max }
}

#[test]
fn the_search_walk_skips_hidden_and_build_directories() {
    assert!(search_descends("src"));
    assert!(!search_descends(".git"));
    assert!(!search_descends("node_modules"));
    assert!(!search_descends("target"));
    assert!(is_content_searchable("main.rs"));
    assert!(is_content_searchable("Dockerfile"));
    assert!(is_content_searchable(".env"));
    assert!(!is_content_searchable(".env.local"));
    assert!(!is_content_searchable("photo.png"));
}

#[test]
fn the_search_walk_reads_the_last_directory_first_and_stops_at_its_limit() {
    let mut w = SearchWalk::new("/root".to_string(), &search_args(Some(100), None));
    assert_eq!(w.next_dir().as_deref(), Some("/root"));
    assert_eq!(w.visit("/root/a".to_string(), "a", true), SearchVisit::Descend);
    assert_eq!(w.visit("/root/b".to_string(), "b", true), SearchVisit::Descend);
    assert_eq!(w.visit("/root/.hg".to_string(), ".hg", true), SearchVisit::Skip);
    assert_eq!(w.visit("/root/x.md".to_string(), "x.md", false), SearchVisit::Check { read_content: true });
    w.record_match("/root/x.md".to_string());
    assert_eq!(w.next_dir().as_deref(), Some("/root/b"));
    for i in 0..96 {
        assert_ne!(w.visit(format!("/root/b/{}", i), "f.bin", false), SearchVisit::Stop);
    }
    assert!(!w.exhausted());
    assert_eq!(w.visit("/root/b/z".to_string(), "z", false), SearchVisit::Stop);
    assert!(w.exhausted());
    assert_eq!(w.results_json(), "[\"/root/x.md\"]");

    let mut names_only = SearchWalk::new("/r".to_string(), &search_args(None, Some(false)));
    assert_eq!(names_only.visit("/r/x.md".to_string(), "x.md", false), SearchVisit::Check { read_content: false });
}

#[test]
fn filesystem_tool_decisions() {
    assert_eq!(filesystem_method("mkdir"), Some(FsMethod::MakeDir));
    assert_eq!(filesystem_method("chmod"), None);
    assert_eq!(binary_mime_type("/a/Photo.JPG"), Some("image/jpeg"));
    assert_eq!(binary_mime_type("/a/doc.pdf"), Some("application/pdf"));
    assert_eq!(binary_mime_type("/a/notes.txt"), None);
    assert_eq!(binary_mime_type("/a/README"), None);
    assert_eq!(files_to_read(&vec![]), Err("paths cannot be empty".to_string()));
    let many: Vec<String> = (0..25).map(|i| format!("f{}", i)).collect();
    let taken = files_to_read(&many).unwrap();
    assert_eq!(taken.len(), 20);
    assert_eq!(taken[19], "f19");
    assert_eq!(clipped_length(10), (10, false));
    assert_eq!(clipped_length(200_000), (131072, true));
    assert!(lists_entry("src", false));
    assert!(!lists_entry(".git", false));
    assert!(lists_entry(".git", true));
    assert_eq!(check_chunk_request(true, 0, 10), Err("Path is a directory; expected a text file".to_string()));
    assert_eq!(check_chunk_request(false, 11, 10), Err("Offset is beyond end of file".to_string()));
    assert_eq!(check_chunk_request(false, 10, 10), Ok(()));
    assert_eq!(chunk_progress(4, 6, 10), (10, true));
    assert_eq!(chunk_progress(0, 4, 10), (4, false));
    assert_eq!(chunk_progress(u64::MAX - 1, 5, 10), (u64::MAX, true));
    assert_eq!(made_dir_message("docs"), "Successfully created directory docs");
    assert_eq!(deleted_message("docs", true), "Successfully deleted directory docs");
    assert_eq!(deleted_message("a.txt", false), "Successfully deleted file a.txt");
    assert_eq!(moved_message("a", "b"), "Successfully moved a to b");
}

#[test]
fn instruction_files_become_skills_with_their_text_as_body() {
    let parsed = assemble_instruction_skill("  Always run the linter.\n", "Lint", "Lint rules", "/w/AGENTS.md".to_string());
    assert_eq!(parsed.name, "Lint");
    assert_eq!(parsed.body_markdown, "Always run the linter.");
    assert!(parsed.id.starts_with("lint-"));
    assert_eq!(parsed.id.len(), "lint-".len() + 8);
    assert!(parsed.scripts.is_empty());
    let d = DiscoveredPromptSkill::from_parsed(parsed, PromptSkillScope::Project, PromptSkillSourceKind::InstructionFile, false, 5);
    let b = d.to_binding_at(42);
    assert_eq!(b.last_synced_at, 42);
    assert!(b.enabled);
    assert_eq!(b.content, "Always run the linter.");
}
