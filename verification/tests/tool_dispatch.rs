use rainy_mate::dispatch::{
    documents_method, external_agent_method, memory_method, missing_parameters, shell_method,
    unknown_method, web_method, workspace_method, DocumentsMethod, ExternalAgentMethod,
    MemoryMethod, ShellMethod, WebMethod, WorkspaceMethod,
};

#[test]
fn methods_are_routed_by_name() {
    assert_eq!(shell_method("git_log"), Some(ShellMethod::GitLog));
    assert_eq!(shell_method("rm"), None);
    assert_eq!(web_method("http_get_text"), Some(WebMethod::HttpGetText));
    assert_eq!(documents_method("archive_create"), Some(DocumentsMethod::ArchiveCreate));
    assert_eq!(workspace_method("update_recurring_task"), Some(WorkspaceMethod::UpdateRecurringTask));
    assert_eq!(
        external_agent_method("cancel_external_agent_session"),
        Some(ExternalAgentMethod::CancelSession)
    );
    assert_eq!(memory_method("save_memory"), Some(MemoryMethod::SaveMemory));
    assert_eq!(memory_method("forget"), None);
}

#[test]
fn unknown_methods_and_missing_parameters_are_reported() {
    assert_eq!(unknown_method("web", "ftp_get"), "Unknown web method: ftp_get");
    assert_eq!(
        unknown_method("external agent", "x"),
        "Unknown external agent method: x"
    );
    assert_eq!(missing_parameters(), "Missing parameters");
}
