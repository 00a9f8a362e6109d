//! Which handler a tool call reaches: the methods of the shell, web,
//! documents, workspace, external agents and memory skills, and the answers
//! to a call that names no method of its skill or brings no parameters.
use vstd::prelude::*;
use crate::text::{concat2, concat3, owned, str_eq};

verus! {

/// The answer to a call of an unknown method: `Unknown`, the skill's label
/// (`shell`, `web`, `documents`, `workspace`, `external agent`, `memory`),
/// `method:` and the method named.
pub fn unknown_method(label: &str, method: &str) -> (r: String)
    ensures
        r@ == "Unknown "@ + label@ + " method: "@ + method@,
{
    let a = concat3("Unknown ", label, " method: ");
    concat2(a.as_str(), method)
}

/// The answer to a call that brings no parameters where its skill needs them.
pub fn missing_parameters() -> (r: String)
    ensures
        r@ == "Missing parameters"@,
{
    owned("Missing parameters")
}

/// The methods of the `shell` skill.
#[derive(Debug, Clone, Copy, PartialEq, Eq, Structural)]
pub enum ShellMethod {
    ExecuteCommand,
    GitStatus,
    GitDiff,
    GitLog,
}

pub open spec fn shell_method_of(name: Seq<char>) -> Option<ShellMethod> {
    if name == "execute_command"@ {
        Some(ShellMethod::ExecuteCommand)
    } else if name == "git_status"@ {
        Some(ShellMethod::GitStatus)
    } else if name == "git_diff"@ {
        Some(ShellMethod::GitDiff)
    } else if name == "git_log"@ {
        Some(ShellMethod::GitLog)
    } else {
        None
    }
}

pub fn shell_method(name: &str) -> (r: Option<ShellMethod>)
    ensures
        r == shell_method_of(name@),
{
    if str_eq(name, "execute_command") {
        Some(ShellMethod::ExecuteCommand)
    } else if str_eq(name, "git_status") {
        Some(ShellMethod::GitStatus)
    } else if str_eq(name, "git_diff") {
        Some(ShellMethod::GitDiff)
    } else if str_eq(name, "git_log") {
        Some(ShellMethod::GitLog)
    } else {
        None
    }
}

/// The methods of the `web` skill.
#[derive(Debug, Clone, Copy, PartialEq, Eq, Structural)]
pub enum WebMethod {
    WebSearch,
    ReadWebPage,
    HttpGetJson,
    HttpGetText,
    HttpPostJson,
}

pub open spec fn web_method_of(name: Seq<char>) -> Option<WebMethod> {
    if name == "web_search"@ {
        Some(WebMethod::WebSearch)
    } else if name == "read_web_page"@ {
        Some(WebMethod::ReadWebPage)
    } else if name == "http_get_json"@ {
        Some(WebMethod::HttpGetJson)
    } else if name == "http_get_text"@ {
        Some(WebMethod::HttpGetText)
    } else if name == "http_post_json"@ {
        Some(WebMethod::HttpPostJson)
    } else {
        None
    }
}

pub fn web_method(name: &str) -> (r: Option<WebMethod>)
    ensures
        r == web_method_of(name@),
{
    if str_eq(name, "web_search") {
        Some(WebMethod::WebSearch)
    } else if str_eq(name, "read_web_page") {
        Some(WebMethod::ReadWebPage)
    } else if str_eq(name, "http_get_json") {
        Some(WebMethod::HttpGetJson)
    } else if str_eq(name, "http_get_text") {
        Some(WebMethod::HttpGetText)
    } else if str_eq(name, "http_post_json") {
        Some(WebMethod::HttpPostJson)
    } else {
        None
    }
}

/// The methods of the `documents` skill.
#[derive(Debug, Clone, Copy, PartialEq, Eq, Structural)]
pub enum DocumentsMethod {
    PdfCreate,
    PdfRead,
    ExcelWrite,
    ExcelRead,
    DocxCreate,
    DocxRead,
    ArchiveCreate,
}

pub open spec fn documents_method_of(name: Seq<char>) -> Option<DocumentsMethod> {
    if name == "pdf_create"@ {
        Some(DocumentsMethod::PdfCreate)
    } else if name == "pdf_read"@ {
        Some(DocumentsMethod::PdfRead)
    } else if name == "excel_write"@ {
        Some(DocumentsMethod::ExcelWrite)
    } else if name == "excel_read"@ {
        Some(DocumentsMethod::ExcelRead)
    } else if name == "docx_create"@ {
        Some(DocumentsMethod::DocxCreate)
    } else if name == "docx_read"@ {
        Some(DocumentsMethod::DocxRead)
    } else if name == "archive_create"@ {
        Some(DocumentsMethod::ArchiveCreate)
    } else {
        None
    }
}

pub fn documents_method(name: &str) -> (r: Option<DocumentsMethod>)
    ensures
        r == documents_method_of(name@),
{
    if str_eq(name, "pdf_create") {
        Some(DocumentsMethod::PdfCreate)
    } else if str_eq(name, "pdf_read") {
        Some(DocumentsMethod::PdfRead)
    } else if str_eq(name, "excel_write") {
        Some(DocumentsMethod::ExcelWrite)
    } else if str_eq(name, "excel_read") {
        Some(DocumentsMethod::ExcelRead)
    } else if str_eq(name, "docx_create") {
        Some(DocumentsMethod::DocxCreate)
    } else if str_eq(name, "docx_read") {
        Some(DocumentsMethod::DocxRead)
    } else if str_eq(name, "archive_create") {
        Some(DocumentsMethod::ArchiveCreate)
    } else {
        None
    }
}

/// The methods of the `workspace` skill (recurring tasks).
#[derive(Debug, Clone, Copy, PartialEq, Eq, Structural)]
pub enum WorkspaceMethod {
    ScheduleRecurringTask,
    ListRecurringTasks,
    DeleteRecurringTask,
    UpdateRecurringTask,
}

pub open spec fn workspace_method_of(name: Seq<char>) -> Option<WorkspaceMethod> {
    if name == "schedule_recurring_task"@ {
        Some(WorkspaceMethod::ScheduleRecurringTask)
    } else if name == "list_recurring_tasks"@ {
        Some(WorkspaceMethod::ListRecurringTasks)
    } else if name == "delete_recurring_task"@ {
        Some(WorkspaceMethod::DeleteRecurringTask)
    } else if name == "update_recurring_task"@ {
        Some(WorkspaceMethod::UpdateRecurringTask)
    } else {
        None
    }
}

pub fn workspace_method(name: &str) -> (r: Option<WorkspaceMethod>)
    ensures
        r == workspace_method_of(name@),
{
    if str_eq(name, "schedule_recurring_task") {
        Some(WorkspaceMethod::ScheduleRecurringTask)
    } else if str_eq(name, "list_recurring_tasks") {
        Some(WorkspaceMethod::ListRecurringTasks)
    } else if str_eq(name, "delete_recurring_task") {
        Some(WorkspaceMethod::DeleteRecurringTask)
    } else if str_eq(name, "update_recurring_task") {
        Some(WorkspaceMethod::UpdateRecurringTask)
    } else {
        None
    }
}

/// The methods of the external agents skill.
#[derive(Debug, Clone, Copy, PartialEq, Eq, Structural)]
pub enum ExternalAgentMethod {
    SpawnSession,
    SendMessage,
    WaitSession,
    ListSessions,
    CancelSession,
}

pub open spec fn external_agent_method_of(name: Seq<char>) -> Option<ExternalAgentMethod> {
    if name == "spawn_external_agent_session"@ {
        Some(ExternalAgentMethod::SpawnSession)
    } else if name == "send_external_agent_message"@ {
        Some(ExternalAgentMethod::SendMessage)
    } else if name == "wait_external_agent_session"@ {
        Some(ExternalAgentMethod::WaitSession)
    } else if name == "list_external_agent_sessions"@ {
        Some(ExternalAgentMethod::ListSessions)
    } else if name == "cancel_external_agent_session"@ {
        Some(ExternalAgentMethod::CancelSession)
    } else {
        None
    }
}

pub fn external_agent_method(name: &str) -> (r: Option<ExternalAgentMethod>)
    ensures
        r == external_agent_method_of(name@),
{
    if str_eq(name, "spawn_external_agent_session") {
        Some(ExternalAgentMethod::SpawnSession)
    } else if str_eq(name, "send_external_agent_message") {
        Some(ExternalAgentMethod::SendMessage)
    } else if str_eq(name, "wait_external_agent_session") {
        Some(ExternalAgentMethod::WaitSession)
    } else if str_eq(name, "list_external_agent_sessions") {
        Some(ExternalAgentMethod::ListSessions)
    } else if str_eq(name, "cancel_external_agent_session") {
        Some(ExternalAgentMethod::CancelSession)
    } else {
        None
    }
}

/// The methods of the `memory` skill.
#[derive(Debug, Clone, Copy, PartialEq, Eq, Structural)]
pub enum MemoryMethod {
    RecallMemory,
    SearchMemory,
    SaveMemory,
}

pub open spec fn memory_method_of(name: Seq<char>) -> Option<MemoryMethod> {
    if name == "recall_memory"@ {
        Some(MemoryMethod::RecallMemory)
    } else if name == "search_memory"@ {
        Some(MemoryMethod::SearchMemory)
    } else if name == "save_memory"@ {
        Some(MemoryMethod::SaveMemory)
    } else {
        None
    }
}

pub fn memory_method(name: &str) -> (r: Option<MemoryMethod>)
    ensures
        r == memory_method_of(name@),
{
    if str_eq(name, "recall_memory") {
        Some(MemoryMethod::RecallMemory)
    } else if str_eq(name, "search_memory") {
        Some(MemoryMethod::SearchMemory)
    } else if str_eq(name, "save_memory") {
        Some(MemoryMethod::SaveMemory)
    } else {
        None
    }
}

} // verus!
