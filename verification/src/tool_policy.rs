//! Canonical tool policy of the desktop runtime (which skill owns a tool and
//! which Airlock level it needs), the per-workspace tool access policy, and
//! the shell command allowlist.
use vstd::prelude::*;
use crate::text::{chars_of, chars_of_all, push_all, str_eq, str_views, string_of, vec_eq, views};
use crate::order::{sort_vecs, sorted_texts};

verus! {

/// Airlock level of a tool: what approval it needs before it runs.
#[derive(Clone, Copy, Debug, PartialEq, Eq, Structural)]
pub enum AirlockLevel {
    /// Level 0: read-only.
    Safe,
    /// Level 1: changes state without destroying it.
    Sensitive,
    /// Level 2: destructive, or runs external commands.
    Dangerous,
}

impl AirlockLevel {
    /// Position of the level in the order Safe < Sensitive < Dangerous.
    pub open spec fn rank_spec(self) -> nat {
        match self {
            AirlockLevel::Safe => 0,
            AirlockLevel::Sensitive => 1,
            AirlockLevel::Dangerous => 2,
        }
    }

    /// The level's name as `Debug` writes it.
    pub open spec fn debug_name(self) -> Seq<char> {
        match self {
            AirlockLevel::Safe => "Safe"@,
            AirlockLevel::Sensitive => "Sensitive"@,
            AirlockLevel::Dangerous => "Dangerous"@,
        }
    }

    pub fn debug_str(&self) -> (r: &'static str)
        ensures
            r@ == self.debug_name(),
    {
        match self {
            AirlockLevel::Safe => "Safe",
            AirlockLevel::Sensitive => "Sensitive",
            AirlockLevel::Dangerous => "Dangerous",
        }
    }

    pub fn rank(&self) -> (r: u8)
        ensures
            r == self.rank_spec(),
    {
        match self {
            AirlockLevel::Safe => 0,
            AirlockLevel::Sensitive => 1,
            AirlockLevel::Dangerous => 2,
        }
    }

    /// Is `self` below `other`?
    pub fn is_below(&self, other: &AirlockLevel) -> (r: bool)
        ensures
            r == (self.rank_spec() < other.rank_spec()),
    {
        self.rank() < other.rank()
    }
}

/// Skill (tool family) that owns a tool.
#[derive(Clone, Copy, Debug, PartialEq, Eq, Structural)]
pub enum ToolSkill {
    Filesystem,
    Browser,
    Shell,
    Web,
    Memory,
    RemoteSession,
    /// Document generation and reading.
    Documents,
    Workspace,
    /// Beam RPC and the local signing bridge.
    Evm,
}

impl ToolSkill {
    pub open spec fn name_spec(self) -> Seq<char> {
        match self {
            ToolSkill::Filesystem => "filesystem"@,
            ToolSkill::Browser => "browser"@,
            ToolSkill::Shell => "shell"@,
            ToolSkill::Web => "web"@,
            ToolSkill::Memory => "memory"@,
            ToolSkill::RemoteSession => "remote_session"@,
            ToolSkill::Documents => "documents"@,
            ToolSkill::Workspace => "workspace"@,
            ToolSkill::Evm => "evm"@,
        }
    }

    /// Wire name of the skill.
    pub fn as_str(self) -> (r: &'static str)
        ensures
            r@ == self.name_spec(),
    {
        match self {
            ToolSkill::Filesystem => "filesystem",
            ToolSkill::Browser => "browser",
            ToolSkill::Shell => "shell",
            ToolSkill::Web => "web",
            ToolSkill::Memory => "memory",
            ToolSkill::RemoteSession => "remote_session",
            ToolSkill::Documents => "documents",
            ToolSkill::Workspace => "workspace",
            ToolSkill::Evm => "evm",
        }
    }
}

/// Owner and Airlock level of a tool.
#[derive(Clone, Copy, Debug, PartialEq, Eq)]
pub struct ToolPolicy {
    pub skill: ToolSkill,
    pub airlock_level: AirlockLevel,
}

pub open spec fn pol(skill: ToolSkill, level: AirlockLevel) -> Option<ToolPolicy> {
    Some(ToolPolicy { skill, airlock_level: level })
}

/// The canonical policy table.  Unknown tools have no entry and must be denied.
pub open spec fn tool_policy_of(n: Seq<char>) -> Option<ToolPolicy> {
    // Level 0: read-only
    if n == "read_file"@ || n == "ingest_document"@ || n == "read_many_files"@ || n == "list_files"@
        || n == "list_files_detailed"@ || n == "search_files"@ || n == "file_exists"@ || n
        == "get_file_info"@ || n == "read_file_chunk"@ {
        pol(ToolSkill::Filesystem, AirlockLevel::Safe)
    } else if n == "git_status"@ || n == "git_diff"@ || n == "git_log"@ || n == "git_show"@ || n
        == "git_branch_list"@ {
        pol(ToolSkill::Shell, AirlockLevel::Safe)
    } else if n == "web_search"@ || n == "read_web_page"@ || n == "http_get_json"@ || n
        == "http_get_text"@ {
        pol(ToolSkill::Web, AirlockLevel::Safe)
    } else if n == "screenshot"@ || n == "get_page_content"@ || n == "get_page_snapshot"@ || n
        == "wait_for_selector"@ || n == "extract_links"@ {
        pol(ToolSkill::Browser, AirlockLevel::Safe)
    }
    // Level 1: state-changing but non-destructive
     else if n == "write_file"@ || n == "append_file"@ || n == "mkdir"@ || n == "create_file"@ {
        pol(ToolSkill::Filesystem, AirlockLevel::Sensitive)
    } else if n == "browse_url"@ || n == "click_element"@ || n == "navigate"@ || n
        == "open_new_tab"@ || n == "type_text"@ || n == "go_back"@ {
        pol(ToolSkill::Browser, AirlockLevel::Sensitive)
    }
    // Level 2: destructive or external command execution
     else if n == "remote_workspace_access"@ {
        pol(ToolSkill::RemoteSession, AirlockLevel::Dangerous)
    } else if n == "execute_command"@ {
        pol(ToolSkill::Shell, AirlockLevel::Dangerous)
    } else if n == "http_post_json"@ {
        pol(ToolSkill::Web, AirlockLevel::Dangerous)
    } else if n == "submit_form"@ {
        pol(ToolSkill::Browser, AirlockLevel::Dangerous)
    } else if n == "delete_file"@ || n == "move_file"@ {
        pol(ToolSkill::Filesystem, AirlockLevel::Dangerous)
    }
    // Memory tools
     else if n == "recall_memory"@ {
        pol(ToolSkill::Memory, AirlockLevel::Safe)
    } else if n == "save_memory"@ {
        pol(ToolSkill::Memory, AirlockLevel::Sensitive)
    }
    // Document tools
     else if n == "pdf_read"@ || n == "excel_read"@ || n == "docx_read"@ {
        pol(ToolSkill::Documents, AirlockLevel::Safe)
    } else if n == "pdf_create"@ || n == "excel_write"@ || n == "docx_create"@ || n
        == "archive_create"@ {
        pol(ToolSkill::Documents, AirlockLevel::Sensitive)
    } else if n == "list_recurring_tasks"@ {
        pol(ToolSkill::Workspace, AirlockLevel::Safe)
    } else if n == "schedule_recurring_task"@ || n == "delete_recurring_task"@ || n
        == "update_recurring_task"@ {
        pol(ToolSkill::Workspace, AirlockLevel::Sensitive)
    }
    // Beam RPC and signing bridge
     else if n == "beam_get_wallet"@ || n == "beam_list_wallets"@ || n == "beam_estimate_gas"@ {
        pol(ToolSkill::Evm, AirlockLevel::Safe)
    } else if n == "beam_rpc_connect"@ {
        pol(ToolSkill::Evm, AirlockLevel::Sensitive)
    } else if n == "beam_create_wallet"@ || n == "beam_import_wallet"@ || n
        == "beam_sign_transaction"@ || n == "beam_send_transaction"@ {
        pol(ToolSkill::Evm, AirlockLevel::Dangerous)
    } else {
        None
    }
}

fn one_of(n: &str, names: &[&str]) -> (r: bool)
    ensures
        r == exists|i: int| 0 <= i < names@.len() && n@ == (#[trigger] names@[i])@,
{
    let mut i: usize = 0;
    while i < names.len()
        invariant
            i <= names@.len(),
            forall|j: int| 0 <= j < i ==> n@ != (#[trigger] names@[j])@,
        decreases names@.len() - i,
    {
        if str_eq(n, names[i]) {
            return true;
        }
        i = i + 1;
    }
    false
}

/// Canonical policy of a tool; `None` for tools the runtime does not know.
pub fn get_tool_policy(function_name: &str) -> (r: Option<ToolPolicy>)
    ensures
        r == tool_policy_of(function_name@),
{
    let n = function_name;
    let fs_read = [
        "read_file",
        "ingest_document",
        "read_many_files",
        "list_files",
        "list_files_detailed",
        "search_files",
        "file_exists",
        "get_file_info",
        "read_file_chunk",
    ];
    if one_of(n, &fs_read) {
        proof {
            assert(fs_read@[0]@ == "read_file"@ && fs_read@[1]@ == "ingest_document"@ && fs_read@[2]@
                == "read_many_files"@ && fs_read@[3]@ == "list_files"@ && fs_read@[4]@
                == "list_files_detailed"@ && fs_read@[5]@ == "search_files"@ && fs_read@[6]@
                == "file_exists"@ && fs_read@[7]@ == "get_file_info"@ && fs_read@[8]@
                == "read_file_chunk"@);
        }
        return Some(ToolPolicy { skill: ToolSkill::Filesystem, airlock_level: AirlockLevel::Safe });
    }
    if str_eq(n, "git_status") || str_eq(n, "git_diff") || str_eq(n, "git_log") || str_eq(
        n,
        "git_show",
    ) || str_eq(n, "git_branch_list") {
        return Some(ToolPolicy { skill: ToolSkill::Shell, airlock_level: AirlockLevel::Safe });
    }
    if str_eq(n, "web_search") || str_eq(n, "read_web_page") || str_eq(n, "http_get_json")
        || str_eq(n, "http_get_text") {
        return Some(ToolPolicy { skill: ToolSkill::Web, airlock_level: AirlockLevel::Safe });
    }
    if str_eq(n, "screenshot") || str_eq(n, "get_page_content") || str_eq(n, "get_page_snapshot")
        || str_eq(n, "wait_for_selector") || str_eq(n, "extract_links") {
        return Some(ToolPolicy { skill: ToolSkill::Browser, airlock_level: AirlockLevel::Safe });
    }
    if str_eq(n, "write_file") || str_eq(n, "append_file") || str_eq(n, "mkdir") || str_eq(
        n,
        "create_file",
    ) {
        return Some(
            ToolPolicy { skill: ToolSkill::Filesystem, airlock_level: AirlockLevel::Sensitive },
        );
    }
    if str_eq(n, "browse_url") || str_eq(n, "click_element") || str_eq(n, "navigate") || str_eq(
        n,
        "open_new_tab",
    ) || str_eq(n, "type_text") || str_eq(n, "go_back") {
        return Some(
            ToolPolicy { skill: ToolSkill::Browser, airlock_level: AirlockLevel::Sensitive },
        );
    }
    if str_eq(n, "remote_workspace_access") {
        return Some(
            ToolPolicy { skill: ToolSkill::RemoteSession, airlock_level: AirlockLevel::Dangerous },
        );
    }
    if str_eq(n, "execute_command") {
        return Some(ToolPolicy { skill: ToolSkill::Shell, airlock_level: AirlockLevel::Dangerous });
    }
    if str_eq(n, "http_post_json") {
        return Some(ToolPolicy { skill: ToolSkill::Web, airlock_level: AirlockLevel::Dangerous });
    }
    if str_eq(n, "submit_form") {
        return Some(
            ToolPolicy { skill: ToolSkill::Browser, airlock_level: AirlockLevel::Dangerous },
        );
    }
    if str_eq(n, "delete_file") || str_eq(n, "move_file") {
        return Some(
            ToolPolicy { skill: ToolSkill::Filesystem, airlock_level: AirlockLevel::Dangerous },
        );
    }
    if str_eq(n, "recall_memory") {
        return Some(ToolPolicy { skill: ToolSkill::Memory, airlock_level: AirlockLevel::Safe });
    }
    if str_eq(n, "save_memory") {
        return Some(ToolPolicy { skill: ToolSkill::Memory, airlock_level: AirlockLevel::Sensitive });
    }
    if str_eq(n, "pdf_read") || str_eq(n, "excel_read") || str_eq(n, "docx_read") {
        return Some(ToolPolicy { skill: ToolSkill::Documents, airlock_level: AirlockLevel::Safe });
    }
    if str_eq(n, "pdf_create") || str_eq(n, "excel_write") || str_eq(n, "docx_create") || str_eq(
        n,
        "archive_create",
    ) {
        return Some(
            ToolPolicy { skill: ToolSkill::Documents, airlock_level: AirlockLevel::Sensitive },
        );
    }
    if str_eq(n, "list_recurring_tasks") {
        return Some(ToolPolicy { skill: ToolSkill::Workspace, airlock_level: AirlockLevel::Safe });
    }
    if str_eq(n, "schedule_recurring_task") || str_eq(n, "delete_recurring_task") || str_eq(
        n,
        "update_recurring_task",
    ) {
        return Some(
            ToolPolicy { skill: ToolSkill::Workspace, airlock_level: AirlockLevel::Sensitive },
        );
    }
    if str_eq(n, "beam_get_wallet") || str_eq(n, "beam_list_wallets") || str_eq(
        n,
        "beam_estimate_gas",
    ) {
        return Some(ToolPolicy { skill: ToolSkill::Evm, airlock_level: AirlockLevel::Safe });
    }
    if str_eq(n, "beam_rpc_connect") {
        return Some(ToolPolicy { skill: ToolSkill::Evm, airlock_level: AirlockLevel::Sensitive });
    }
    if str_eq(n, "beam_create_wallet") || str_eq(n, "beam_import_wallet") || str_eq(
        n,
        "beam_sign_transaction",
    ) || str_eq(n, "beam_send_transaction") {
        return Some(ToolPolicy { skill: ToolSkill::Evm, airlock_level: AirlockLevel::Dangerous });
    }
    None
}

/// Lengths (and, where a length is shared with a document reader, a telling character) of the
/// tool names that the table tests before the document tools.
proof fn lemma_names_before_documents()
    ensures
        "read_file"@.len() == 9 && "read_file"@[0] == 'r',
        "ingest_document"@.len() == 15,
        "read_many_files"@.len() == 15,
        "list_files"@.len() == 10 && "list_files"@[0] == 'l',
        "list_files_detailed"@.len() == 19,
        "search_files"@.len() == 12,
        "file_exists"@.len() == 11,
        "get_file_info"@.len() == 13,
        "read_file_chunk"@.len() == 15,
        "git_status"@.len() == 10 && "git_status"@[0] == 'g',
        "git_diff"@.len() == 8 && "git_diff"@[0] == 'g',
        "git_log"@.len() == 7,
        "git_show"@.len() == 8 && "git_show"@[0] == 'g',
        "git_branch_list"@.len() == 15,
        "web_search"@.len() == 10 && "web_search"@[0] == 'w',
        "read_web_page"@.len() == 13,
        "http_get_json"@.len() == 13,
        "http_get_text"@.len() == 13,
        "screenshot"@.len() == 10 && "screenshot"@[0] == 's',
        "get_page_content"@.len() == 16,
        "get_page_snapshot"@.len() == 17,
        "wait_for_selector"@.len() == 17,
        "extract_links"@.len() == 13,
        "write_file"@.len() == 10 && "write_file"@[0] == 'w',
        "append_file"@.len() == 11,
        "mkdir"@.len() == 5,
        "create_file"@.len() == 11,
        "browse_url"@.len() == 10 && "browse_url"@[0] == 'b',
        "click_element"@.len() == 13,
        "navigate"@.len() == 8 && "navigate"@[0] == 'n',
        "open_new_tab"@.len() == 12,
        "type_text"@.len() == 9 && "type_text"@[0] == 't',
        "go_back"@.len() == 7,
        "remote_workspace_access"@.len() == 23,
        "execute_command"@.len() == 15,
        "http_post_json"@.len() == 14,
        "submit_form"@.len() == 11,
        "delete_file"@.len() == 11,
        "move_file"@.len() == 9 && "move_file"@[0] == 'm',
        "recall_memory"@.len() == 13,
        "save_memory"@.len() == 11,
{
    reveal_strlit("read_file");
    reveal_strlit("ingest_document");
    reveal_strlit("read_many_files");
    reveal_strlit("list_files");
    reveal_strlit("list_files_detailed");
    reveal_strlit("search_files");
    reveal_strlit("file_exists");
    reveal_strlit("get_file_info");
    reveal_strlit("read_file_chunk");
    reveal_strlit("git_status");
    reveal_strlit("git_diff");
    reveal_strlit("git_log");
    reveal_strlit("git_show");
    reveal_strlit("git_branch_list");
    reveal_strlit("web_search");
    reveal_strlit("read_web_page");
    reveal_strlit("http_get_json");
    reveal_strlit("http_get_text");
    reveal_strlit("screenshot");
    reveal_strlit("get_page_content");
    reveal_strlit("get_page_snapshot");
    reveal_strlit("wait_for_selector");
    reveal_strlit("extract_links");
    reveal_strlit("write_file");
    reveal_strlit("append_file");
    reveal_strlit("mkdir");
    reveal_strlit("create_file");
    reveal_strlit("browse_url");
    reveal_strlit("click_element");
    reveal_strlit("navigate");
    reveal_strlit("open_new_tab");
    reveal_strlit("type_text");
    reveal_strlit("go_back");
    reveal_strlit("remote_workspace_access");
    reveal_strlit("execute_command");
    reveal_strlit("http_post_json");
    reveal_strlit("submit_form");
    reveal_strlit("delete_file");
    reveal_strlit("move_file");
    reveal_strlit("recall_memory");
    reveal_strlit("save_memory");
}

/// The read-only document tools (`pdf_read`, `excel_read`, `docx_read`) belong to the
/// Documents skill and run at Airlock level Safe.
pub proof fn law_document_readers_are_safe(n: Seq<char>)
    requires
        n == "pdf_read"@ || n == "excel_read"@ || n == "docx_read"@,
    ensures
        tool_policy_of(n) == Some(ToolPolicy { skill: ToolSkill::Documents, airlock_level: AirlockLevel::Safe }),
{
    lemma_names_before_documents();
    if n == "pdf_read"@ {
        reveal_strlit("pdf_read");
        assert(n.len() == 8 && n[0] == 'p');
    }
    if n == "excel_read"@ {
        reveal_strlit("excel_read");
        assert(n.len() == 10 && n[0] == 'e');
    }
    if n == "docx_read"@ {
        reveal_strlit("docx_read");
        assert(n.len() == 9 && n[0] == 'd');
    }
}

} // verus!
