//! The built-in tools that the runtime registers, and the skill manifests
//! that are built from a list of tool definitions and the canonical policy
//! table.
use vstd::prelude::*;
use crate::manifest::{
    copy_params, manifests_view, methods_view, params_view, ParameterSchema, ParameterSchemaView,
    SkillManifest, SkillManifestView, SkillMethod, SkillMethodView,
};
use crate::order::{lex_le, lex_le_vec};
use crate::text::{chars_of, concat3, owned};
use crate::tool_policy::{get_tool_policy, tool_policy_of, AirlockLevel, ToolSkill};

verus! {

/// A built-in tool: its name and the description the model sees.
#[derive(Debug)]
pub struct ToolEntry {
    pub name: String,
    pub description: String,
}

/// The built-in tools, in the order they are offered.
pub open spec fn registered_tools_spec() -> Seq<(Seq<char>, Seq<char>)> {
    seq![
        ("read_file"@, "Read the contents of a file"@),
        ("ingest_document"@, "Ingest a document (PDF, Text, Markdown) into the semantic workspace memory"@),
        ("read_many_files"@, "Read multiple UTF-8 text files in one call"@),
        ("write_file"@, "Write content to a file"@),
        ("append_file"@, "Append content to a file"@),
        ("list_files"@, "List files in a directory"@),
        ("list_files_detailed"@, "List files with metadata (size, modified time, type)"@),
        ("file_exists"@, "Check whether a file or directory exists"@),
        ("get_file_info"@, "Get metadata (size, timestamps, type) for a file or directory"@),
        ("search_files"@, "Search files by regex in names and (by default) text content"@),
        ("read_file_chunk"@, "Read a chunk of a text file by byte offset for large-file processing"@),
        ("execute_command"@, "Execute a shell command (npm, cargo, git, ls, grep)"@),
        ("git_status"@, "Get git status with stable wrapper options"@),
        ("git_diff"@, "Get git diff with stable wrapper options"@),
        ("git_log"@, "Get recent commit history with stable wrapper options"@),
        ("git_show"@, "Show details for a commit/tag/file with optional line limits"@),
        ("git_branch_list"@, "List local/remote git branches with commit summary"@),
        ("web_search"@, "Search the web for information"@),
        ("http_get_json"@, "Fetch JSON from an HTTP(S) endpoint with timeout and size limits"@),
        ("http_get_text"@, "Fetch text/HTML from an HTTP(S) endpoint with timeout and size limits"@),
        ("http_post_json"@, "POST JSON to an HTTP(S) endpoint with timeout and size limits"@),
        ("read_web_page"@, "Read the content of a web page using a headless scraper (good for static text)"@),
        ("browse_url"@, "Open a URL in the visible browser (for dynamic sites). Returns title and content preview."@),
        ("open_new_tab"@, "Open a URL in a new browser tab"@),
        ("click_element"@, "Click an element in the browser by CSS selector"@),
        ("wait_for_selector"@, "Wait until a CSS selector appears in the active page"@),
        ("type_text"@, "Type text into an input/textarea using selector, optionally clearing first"@),
        ("submit_form"@, "Submit a form in the active page"@),
        ("go_back"@, "Navigate one step back in browser history"@),
        ("screenshot"@, "Take a screenshot of the current browser page"@),
        ("get_page_content"@, "Get the HTML content of the current browser page"@),
        ("get_page_snapshot"@, "Get URL/title/text preview from the current browser page"@),
        ("extract_links"@, "Extract clickable links from the current browser page (href + text)"@),
        ("mkdir"@, "Create a new directory"@),
        ("delete_file"@, "Delete a file or directory"@),
        ("move_file"@, "Move or rename a file or directory"@),
        ("save_memory"@, "Persist a fact, preference, or user detail to long-term memory so it can be recalled in future sessions"@),
        ("recall_memory"@, "Search long-term memory with a natural language query and return the most relevant stored facts"@),
        ("pdf_create"@, "Create a PDF document natively with titled sections. Bounded to 100 sections and workspace-scoped output."@),
        ("pdf_read"@, "Extract text content from a PDF file, page by page. Returns structured page data with a 200-page hard cap."@),
        ("excel_write"@, "Create an Excel (.xlsx) spreadsheet with typed cells. Bounded to 20 sheets, 10k rows per sheet, and workspace-scoped output."@),
        ("excel_read"@, "Read an Excel (.xlsx / .xls / .ods) file and return structured rows with a 10k-row hard cap per sheet."@),
        ("docx_create"@, "Create or overwrite a Word (.docx) document with paragraphs, headings, bold, and italic formatting. Bounded to 200 paragraphs."@),
        ("docx_read"@, "Read a Word (.docx) document and extract paragraph text for revision workflows."@),
        ("archive_create"@, "Bundle workspace-scoped files into a .zip archive. Rejects directories and duplicate archive entry names."@)
    ]
}

pub open spec fn entries_view(v: Seq<ToolEntry>) -> Seq<(Seq<char>, Seq<char>)> {
    v.map_values(|e: ToolEntry| (e.name@, e.description@))
}

/// The built-in tools. Their parameter schemas come from the argument types.
pub fn registered_tools() -> (r: Vec<ToolEntry>)
    ensures
        entries_view(r@) == registered_tools_spec(),
{
    let mut v: Vec<ToolEntry> = Vec::new();
    v.push(ToolEntry { name: owned("read_file"), description: owned("Read the contents of a file") });
    v.push(ToolEntry { name: owned("ingest_document"), description: owned("Ingest a document (PDF, Text, Markdown) into the semantic workspace memory") });
    v.push(ToolEntry { name: owned("read_many_files"), description: owned("Read multiple UTF-8 text files in one call") });
    v.push(ToolEntry { name: owned("write_file"), description: owned("Write content to a file") });
    v.push(ToolEntry { name: owned("append_file"), description: owned("Append content to a file") });
    v.push(ToolEntry { name: owned("list_files"), description: owned("List files in a directory") });
    v.push(ToolEntry { name: owned("list_files_detailed"), description: owned("List files with metadata (size, modified time, type)") });
    v.push(ToolEntry { name: owned("file_exists"), description: owned("Check whether a file or directory exists") });
    v.push(ToolEntry { name: owned("get_file_info"), description: owned("Get metadata (size, timestamps, type) for a file or directory") });
    v.push(ToolEntry { name: owned("search_files"), description: owned("Search files by regex in names and (by default) text content") });
    v.push(ToolEntry { name: owned("read_file_chunk"), description: owned("Read a chunk of a text file by byte offset for large-file processing") });
    v.push(ToolEntry { name: owned("execute_command"), description: owned("Execute a shell command (npm, cargo, git, ls, grep)") });
    v.push(ToolEntry { name: owned("git_status"), description: owned("Get git status with stable wrapper options") });
    v.push(ToolEntry { name: owned("git_diff"), description: owned("Get git diff with stable wrapper options") });
    v.push(ToolEntry { name: owned("git_log"), description: owned("Get recent commit history with stable wrapper options") });
    v.push(ToolEntry { name: owned("git_show"), description: owned("Show details for a commit/tag/file with optional line limits") });
    v.push(ToolEntry { name: owned("git_branch_list"), description: owned("List local/remote git branches with commit summary") });
    v.push(ToolEntry { name: owned("web_search"), description: owned("Search the web for information") });
    v.push(ToolEntry { name: owned("http_get_json"), description: owned("Fetch JSON from an HTTP(S) endpoint with timeout and size limits") });
    v.push(ToolEntry { name: owned("http_get_text"), description: owned("Fetch text/HTML from an HTTP(S) endpoint with timeout and size limits") });
    v.push(ToolEntry { name: owned("http_post_json"), description: owned("POST JSON to an HTTP(S) endpoint with timeout and size limits") });
    v.push(ToolEntry { name: owned("read_web_page"), description: owned("Read the content of a web page using a headless scraper (good for static text)") });
    v.push(ToolEntry { name: owned("browse_url"), description: owned("Open a URL in the visible browser (for dynamic sites). Returns title and content preview.") });
    v.push(ToolEntry { name: owned("open_new_tab"), description: owned("Open a URL in a new browser tab") });
    v.push(ToolEntry { name: owned("click_element"), description: owned("Click an element in the browser by CSS selector") });
    v.push(ToolEntry { name: owned("wait_for_selector"), description: owned("Wait until a CSS selector appears in the active page") });
    v.push(ToolEntry { name: owned("type_text"), description: owned("Type text into an input/textarea using selector, optionally clearing first") });
    v.push(ToolEntry { name: owned("submit_form"), description: owned("Submit a form in the active page") });
    v.push(ToolEntry { name: owned("go_back"), description: owned("Navigate one step back in browser history") });
    v.push(ToolEntry { name: owned("screenshot"), description: owned("Take a screenshot of the current browser page") });
    v.push(ToolEntry { name: owned("get_page_content"), description: owned("Get the HTML content of the current browser page") });
    v.push(ToolEntry { name: owned("get_page_snapshot"), description: owned("Get URL/title/text preview from the current browser page") });
    v.push(ToolEntry { name: owned("extract_links"), description: owned("Extract clickable links from the current browser page (href + text)") });
    v.push(ToolEntry { name: owned("mkdir"), description: owned("Create a new directory") });
    v.push(ToolEntry { name: owned("delete_file"), description: owned("Delete a file or directory") });
    v.push(ToolEntry { name: owned("move_file"), description: owned("Move or rename a file or directory") });
    v.push(ToolEntry { name: owned("save_memory"), description: owned("Persist a fact, preference, or user detail to long-term memory so it can be recalled in future sessions") });
    v.push(ToolEntry { name: owned("recall_memory"), description: owned("Search long-term memory with a natural language query and return the most relevant stored facts") });
    v.push(ToolEntry { name: owned("pdf_create"), description: owned("Create a PDF document natively with titled sections. Bounded to 100 sections and workspace-scoped output.") });
    v.push(ToolEntry { name: owned("pdf_read"), description: owned("Extract text content from a PDF file, page by page. Returns structured page data with a 200-page hard cap.") });
    v.push(ToolEntry { name: owned("excel_write"), description: owned("Create an Excel (.xlsx) spreadsheet with typed cells. Bounded to 20 sheets, 10k rows per sheet, and workspace-scoped output.") });
    v.push(ToolEntry { name: owned("excel_read"), description: owned("Read an Excel (.xlsx / .xls / .ods) file and return structured rows with a 10k-row hard cap per sheet.") });
    v.push(ToolEntry { name: owned("docx_create"), description: owned("Create or overwrite a Word (.docx) document with paragraphs, headings, bold, and italic formatting. Bounded to 200 paragraphs.") });
    v.push(ToolEntry { name: owned("docx_read"), description: owned("Read a Word (.docx) document and extract paragraph text for revision workflows.") });
    v.push(ToolEntry { name: owned("archive_create"), description: owned("Bundle workspace-scoped files into a .zip archive. Rejects directories and duplicate archive entry names.") });
    assert(entries_view(v@) =~= registered_tools_spec());
    v
}

/// Every registered tool has an explicit entry in the policy table, so none
/// is denied for want of one.
#[verifier::rlimit(50)]
pub proof fn law_every_registered_tool_has_policy()
    ensures
        forall|i: int|
            0 <= i < registered_tools_spec().len() ==> (#[trigger] tool_policy_of(registered_tools_spec()[i].0)) is Some,
{
        assert(tool_policy_of("read_file"@) is Some);
        assert(tool_policy_of("ingest_document"@) is Some);
        assert(tool_policy_of("read_many_files"@) is Some);
        assert(tool_policy_of("write_file"@) is Some);
        assert(tool_policy_of("append_file"@) is Some);
        assert(tool_policy_of("list_files"@) is Some);
        assert(tool_policy_of("list_files_detailed"@) is Some);
        assert(tool_policy_of("file_exists"@) is Some);
        assert(tool_policy_of("get_file_info"@) is Some);
        assert(tool_policy_of("search_files"@) is Some);
        assert(tool_policy_of("read_file_chunk"@) is Some);
        assert(tool_policy_of("execute_command"@) is Some);
        assert(tool_policy_of("git_status"@) is Some);
        assert(tool_policy_of("git_diff"@) is Some);
        assert(tool_policy_of("git_log"@) is Some);
        assert(tool_policy_of("git_show"@) is Some);
        assert(tool_policy_of("git_branch_list"@) is Some);
        assert(tool_policy_of("web_search"@) is Some);
        assert(tool_policy_of("http_get_json"@) is Some);
        assert(tool_policy_of("http_get_text"@) is Some);
        assert(tool_policy_of("http_post_json"@) is Some);
        assert(tool_policy_of("read_web_page"@) is Some);
        assert(tool_policy_of("browse_url"@) is Some);
        assert(tool_policy_of("open_new_tab"@) is Some);
        assert(tool_policy_of("click_element"@) is Some);
        assert(tool_policy_of("wait_for_selector"@) is Some);
        assert(tool_policy_of("type_text"@) is Some);
        assert(tool_policy_of("submit_form"@) is Some);
        assert(tool_policy_of("go_back"@) is Some);
        assert(tool_policy_of("screenshot"@) is Some);
        assert(tool_policy_of("get_page_content"@) is Some);
        assert(tool_policy_of("get_page_snapshot"@) is Some);
        assert(tool_policy_of("extract_links"@) is Some);
        assert(tool_policy_of("mkdir"@) is Some);
        assert(tool_policy_of("delete_file"@) is Some);
        assert(tool_policy_of("move_file"@) is Some);
        assert(tool_policy_of("save_memory"@) is Some);
        assert(tool_policy_of("recall_memory"@) is Some);
        assert(tool_policy_of("pdf_create"@) is Some);
        assert(tool_policy_of("pdf_read"@) is Some);
        assert(tool_policy_of("excel_write"@) is Some);
        assert(tool_policy_of("excel_read"@) is Some);
        assert(tool_policy_of("docx_create"@) is Some);
        assert(tool_policy_of("docx_read"@) is Some);
        assert(tool_policy_of("archive_create"@) is Some);
    assert forall|i: int| 0 <= i < registered_tools_spec().len() implies (#[trigger] tool_policy_of(registered_tools_spec()[i].0)) is Some by {
        if i == 0 {
        } else if i == 1 {
        } else if i == 2 {
        } else if i == 3 {
        } else if i == 4 {
        } else if i == 5 {
        } else if i == 6 {
        } else if i == 7 {
        } else if i == 8 {
        } else if i == 9 {
        } else if i == 10 {
        } else if i == 11 {
        } else if i == 12 {
        } else if i == 13 {
        } else if i == 14 {
        } else if i == 15 {
        } else if i == 16 {
        } else if i == 17 {
        } else if i == 18 {
        } else if i == 19 {
        } else if i == 20 {
        } else if i == 21 {
        } else if i == 22 {
        } else if i == 23 {
        } else if i == 24 {
        } else if i == 25 {
        } else if i == 26 {
        } else if i == 27 {
        } else if i == 28 {
        } else if i == 29 {
        } else if i == 30 {
        } else if i == 31 {
        } else if i == 32 {
        } else if i == 33 {
        } else if i == 34 {
        } else if i == 35 {
        } else if i == 36 {
        } else if i == 37 {
        } else if i == 38 {
        } else if i == 39 {
        } else if i == 40 {
        } else if i == 41 {
        } else if i == 42 {
        } else if i == 43 {
        } else if i == 44 {
        }
    }
}


// ───────────────────────────── manifests ─────────────────────────────

/// A tool as the manifest builder takes it: name, description and the
/// parameters its schema declares.
#[derive(Debug)]
pub struct ToolDefinition {
    pub name: String,
    pub description: String,
    pub parameters: Vec<(String, ParameterSchema)>,
}

pub struct ToolDefView {
    pub name: Seq<char>,
    pub description: Seq<char>,
    pub parameters: Seq<(Seq<char>, ParameterSchemaView)>,
}

impl View for ToolDefinition {
    type V = ToolDefView;

    open spec fn view(&self) -> ToolDefView {
        ToolDefView {
            name: self.name@,
            description: self.description@,
            parameters: params_view(self.parameters@),
        }
    }
}

pub open spec fn defs_view(v: Seq<ToolDefinition>) -> Seq<ToolDefView> {
    v.map_values(|t: ToolDefinition| t@)
}

/// The skills in the order of their names.
pub open spec fn skill_order() -> Seq<ToolSkill> {
    seq![
        ToolSkill::Browser,
        ToolSkill::Documents,
        ToolSkill::Evm,
        ToolSkill::Filesystem,
        ToolSkill::Memory,
        ToolSkill::RemoteSession,
        ToolSkill::Shell,
        ToolSkill::Web,
        ToolSkill::Workspace,
    ]
}

/// Does the policy table give the tool `name` to skill `k`?
pub open spec fn owned_by(name: Seq<char>, k: ToolSkill) -> bool {
    match tool_policy_of(name) {
        Some(p) => p.skill == k,
        None => false,
    }
}

pub open spec fn method_of_tool(t: ToolDefView) -> SkillMethodView {
    SkillMethodView {
        name: t.name,
        description: t.description,
        airlock_level: tool_policy_of(t.name)->0.airlock_level,
        parameters: t.parameters,
    }
}

/// The methods of skill `k`, in the order of the tools.
pub open spec fn tools_in(ts: Seq<ToolDefView>, k: ToolSkill) -> Seq<SkillMethodView>
    decreases ts.len(),
{
    if ts.len() == 0 {
        seq![]
    } else if owned_by(ts.last().name, k) {
        tools_in(ts.drop_last(), k).push(method_of_tool(ts.last()))
    } else {
        tools_in(ts.drop_last(), k)
    }
}

pub open spec fn name_insert_pos(t: Seq<SkillMethodView>, x: SkillMethodView) -> int
    decreases t.len(),
{
    if t.len() == 0 {
        0
    } else if !lex_le(t[0].name, x.name) {
        0
    } else {
        1 + name_insert_pos(t.drop_first(), x)
    }
}

/// The methods sorted by name, stably.
pub open spec fn by_name(s: Seq<SkillMethodView>) -> Seq<SkillMethodView>
    decreases s.len(),
{
    if s.len() == 0 {
        s
    } else {
        let t = by_name(s.drop_last());
        t.insert(name_insert_pos(t, s.last()), s.last())
    }
}

/// The manifests of the skills `ks` that own some tool: version `1.0.0`,
/// methods sorted by name.
pub open spec fn manifests_from(ts: Seq<ToolDefView>, ks: Seq<ToolSkill>) -> Seq<SkillManifestView>
    decreases ks.len(),
{
    if ks.len() == 0 {
        seq![]
    } else {
        let ms = tools_in(ts, ks[0]);
        let rest = manifests_from(ts, ks.drop_first());
        if ms.len() > 0 {
            seq![SkillManifestView { name: ks[0].name_spec(), version: "1.0.0"@, methods: by_name(ms) }] + rest
        } else {
            rest
        }
    }
}

/// The first tool without a policy entry.
pub open spec fn missing_policy(ts: Seq<ToolDefView>) -> Option<Seq<char>>
    decreases ts.len(),
{
    if ts.len() == 0 {
        None
    } else if tool_policy_of(ts[0].name) is None {
        Some(ts[0].name)
    } else {
        missing_policy(ts.drop_first())
    }
}

proof fn lemma_by_name_len(s: Seq<SkillMethodView>)
    ensures
        by_name(s).len() == s.len(),
    decreases s.len(),
{
    if s.len() > 0 {
        lemma_by_name_len(s.drop_last());
        lemma_name_insert_pos_bounds(by_name(s.drop_last()), s.last());
    }
}

proof fn lemma_name_insert_pos_bounds(t: Seq<SkillMethodView>, x: SkillMethodView)
    ensures
        0 <= name_insert_pos(t, x) <= t.len(),
    decreases t.len(),
{
    if t.len() > 0 {
        lemma_name_insert_pos_bounds(t.drop_first(), x);
    }
}

proof fn lemma_name_insert_pos_skip(t: Seq<SkillMethodView>, x: SkillMethodView, i: int)
    requires
        0 <= i <= t.len(),
        forall|j: int| 0 <= j < i ==> lex_le(#[trigger] t[j].name, x.name),
    ensures
        name_insert_pos(t, x) == i + name_insert_pos(t.skip(i), x),
    decreases i,
{
    if i == 0 {
        assert(t.skip(0) =~= t);
    } else {
        lemma_name_insert_pos_skip(t.drop_first(), x, i - 1);
        assert(t.drop_first().skip(i - 1) =~= t.skip(i));
    }
}

fn skill_methods(tools: &Vec<ToolDefinition>, k: ToolSkill) -> (r: Vec<SkillMethod>)
    requires
        missing_policy(defs_view(tools@)) is None,
    ensures
        methods_view(r@) == by_name(tools_in(defs_view(tools@), k)),
{
    let ghost tv = defs_view(tools@);
    let mut col: Vec<SkillMethod> = Vec::new();
    let mut i: usize = 0;
    while i < tools.len()
        invariant
            i <= tools@.len(),
            tv == defs_view(tools@),
            methods_view(col@) == tools_in(tv.take(i as int), k),
        decreases tools@.len() - i,
    {
        let ghost pre = tv.take(i + 1);
        assert(pre.drop_last() =~= tv.take(i as int));
        assert(pre.last() == tools@[i as int]@);
        match get_tool_policy(tools[i].name.as_str()) {
            Some(p) => {
                if p.skill == k {
                    let m = SkillMethod {
                        name: tools[i].name.clone(),
                        description: tools[i].description.clone(),
                        airlock_level: p.airlock_level,
                        parameters: copy_params(&tools[i].parameters),
                    };
                    proof {
                        assert(methods_view(col@.push(m)) =~= methods_view(col@).push(m@));
                    }
                    col.push(m);
                }
            },
            None => {},
        }
        i = i + 1;
    }
    assert(tv.take(i as int) =~= tv);
    let ghost u = methods_view(col@);
    let mut out: Vec<SkillMethod> = Vec::new();
    let mut b: usize = 0;
    while b < col.len()
        invariant
            b <= col@.len(),
            u == methods_view(col@),
            methods_view(out@) == by_name(u.take(b as int)),
        decreases col@.len() - b,
    {
        let x = SkillMethod {
            name: col[b].name.clone(),
            description: col[b].description.clone(),
            airlock_level: col[b].airlock_level,
            parameters: copy_params(&col[b].parameters),
        };
        let xn = chars_of(x.name.as_str());
        let mut p: usize = 0;
        while p < out.len() && lex_le_vec(&chars_of(out[p].name.as_str()), &xn)
            invariant
                p <= out@.len(),
                xn@ == x.name@,
                forall|j: int| 0 <= j < p ==> lex_le(#[trigger] methods_view(out@)[j].name, x@.name),
            decreases out@.len() - p,
        {
            p = p + 1;
        }
        proof {
            let t = methods_view(out@);
            lemma_name_insert_pos_skip(t, x@, p as int);
            if p < out@.len() {
                assert(t.skip(p as int)[0] == t[p as int]);
            }
            assert(name_insert_pos(t, x@) == p);
            assert(u.take(b + 1).drop_last() =~= u.take(b as int));
            assert(u.take(b + 1).last() == x@);
            assert(methods_view(out@.insert(p as int, x)) =~= t.insert(p as int, x@));
        }
        out.insert(p, x);
        b = b + 1;
    }
    assert(u.take(b as int) =~= u);
    out
}

fn find_missing_policy(tools: &Vec<ToolDefinition>) -> (r: Option<String>)
    ensures
        match missing_policy(defs_view(tools@)) {
            Some(n) => r matches Some(s) && s@ == n,
            None => r is None,
        },
{
    let ghost tv = defs_view(tools@);
    let mut i: usize = 0;
    assert(tv.skip(0) =~= tv);
    while i < tools.len()
        invariant
            i <= tools@.len(),
            tv == defs_view(tools@),
            missing_policy(tv) == missing_policy(tv.skip(i as int)),
        decreases tools@.len() - i,
    {
        let ghost rest = tv.skip(i as int);
        assert(rest[0] == tools@[i as int]@);
        assert(rest.drop_first() =~= tv.skip(i + 1));
        if get_tool_policy(tools[i].name.as_str()).is_none() {
            return Some(tools[i].name.clone());
        }
        i = i + 1;
    }
    assert(tv.skip(i as int).len() == 0);
    None
}

/// The skill manifests of a list of tools: one per skill that owns some
/// tool, in the order of the skills' names, methods sorted by name. A tool
/// that the policy table does not know refuses the whole list.
pub fn build_skill_manifest_from_runtime(tools: &Vec<ToolDefinition>) -> (r: Result<Vec<SkillManifest>, String>)
    ensures
        match missing_policy(defs_view(tools@)) {
            Some(n) => r matches Err(e) && e@ == "Tool '"@ + n + "' has no explicit policy; refusing to build manifest"@,
            None => r matches Ok(v) && manifests_view(v@) == manifests_from(defs_view(tools@), skill_order()),
        },
{
    match find_missing_policy(tools) {
        Some(n) => {
            return Err(concat3("Tool '", n.as_str(), "' has no explicit policy; refusing to build manifest"));
        },
        None => {},
    }
    let order: Vec<ToolSkill> = vec![
        ToolSkill::Browser,
        ToolSkill::Documents,
        ToolSkill::Evm,
        ToolSkill::Filesystem,
        ToolSkill::Memory,
        ToolSkill::RemoteSession,
        ToolSkill::Shell,
        ToolSkill::Web,
        ToolSkill::Workspace,
    ];
    assert(order@ =~= skill_order());
    let ghost tv = defs_view(tools@);
    let mut out: Vec<SkillManifest> = Vec::new();
    let mut i: usize = 9;
    assert(order@.skip(9).len() == 0);
    // Built from the last skill back to the first, each manifest put in front.
    while i > 0
        invariant
            i <= 9,
            order@ == skill_order(),
            order@.len() == 9,
            tv == defs_view(tools@),
            missing_policy(tv) is None,
            manifests_view(out@) == manifests_from(tv, order@.skip(i as int)),
        decreases i,
    {
        let k = order[i - 1];
        let ms = skill_methods(tools, k);
        proof {
            lemma_by_name_len(tools_in(tv, k));
        }
        let ghost suffix = order@.skip(i - 1);
        assert(suffix[0] == k);
        assert(suffix.drop_first() =~= order@.skip(i as int));
        if ms.len() > 0 {
            let m = SkillManifest { name: owned(k.as_str()), version: owned("1.0.0"), methods: ms };
            proof {
                assert(manifests_view(out@.insert(0, m)) =~= seq![m@] + manifests_view(out@));
            }
            out.insert(0, m);
        }
        i = i - 1;
    }
    assert(order@.skip(0) =~= order@);
    Ok(out)
}

/// Every tool that a manifest lists is one the policy table gives to that
/// manifest's skill.
pub proof fn law_manifest_methods_belong_to_their_skill(ts: Seq<ToolDefView>, k: ToolSkill)
    ensures
        forall|i: int| 0 <= i < tools_in(ts, k).len() ==> owned_by(#[trigger] tools_in(ts, k)[i].name, k),
    decreases ts.len(),
{
    if ts.len() > 0 {
        law_manifest_methods_belong_to_their_skill(ts.drop_last(), k);
    }
}

} // verus!
