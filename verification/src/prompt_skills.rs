//! Prompt skills: `SKILL.md` files whose YAML frontmatter names a skill and
//! whose body is the prompt. This module holds what the discovery decides:
//! the frontmatter split, skill ids, scopes, the de-duplication and order of
//! discovered skills, and the registry of per-skill switches. Walking the
//! directories, reading the files and parsing the YAML are the caller's part.
use vstd::prelude::*;
use crate::digest::{hash_text, sha256_hex};
use crate::order::{lex_le, lex_le_vec};
use crate::paths::{comps, comps_vec, is_abs, parts_prefix};
use crate::text::{
    char_lower, chars_of, concat2, copy_strings, is_ascii_alnum, join, join_vecs, lower, owned,
    push_all, slice_vec, split_char, split_vec, str_eq, str_views, string_of, trim, trim_end,
    trim_str, vec_eq, views,
};
use crate::order::{sort_strings, sorted_texts};
use crate::third_party::unix_seconds;

verus! {

// ───────────────────────────── kinds and scopes ─────────────────────────────

/// Where a skill lives: globally for the user, in a project, or in the
/// directories that the app itself manages.
#[derive(Debug, Clone, Copy, PartialEq, Eq, Structural)]
pub enum PromptSkillScope {
    Global,
    Project,
    MateManaged,
}

/// How a skill was found.
#[derive(Debug, Clone, Copy, PartialEq, Eq, Structural)]
pub enum PromptSkillSourceKind {
    Direct,
    PluginManifest,
    InstructionFile,
}

impl PromptSkillSourceKind {
    pub open spec fn name_spec(&self) -> Seq<char> {
        match self {
            PromptSkillSourceKind::Direct => "direct"@,
            PromptSkillSourceKind::PluginManifest => "plugin_manifest"@,
            PromptSkillSourceKind::InstructionFile => "instruction_file"@,
        }
    }

    pub fn as_str(&self) -> (r: &'static str)
        ensures
            r@ == self.name_spec(),
    {
        match self {
            PromptSkillSourceKind::Direct => "direct",
            PromptSkillSourceKind::PluginManifest => "plugin_manifest",
            PromptSkillSourceKind::InstructionFile => "instruction_file",
        }
    }
}

/// Does the path `p` lie at or below `base`, component by component?
pub open spec fn path_starts_with(p: Seq<char>, base: Seq<Seq<char>>, base_abs: bool) -> bool {
    is_abs(p) == base_abs && base.is_prefix_of(comps(p))
}

/// The scope of a skill found in a workspace: managed when it lies below the
/// workspace's `.rainy-mate` directory.
pub open spec fn workspace_scope_spec(path: Seq<char>, workspace_path: Seq<char>) -> PromptSkillScope {
    if path_starts_with(path, comps(workspace_path).push(".rainy-mate"@), is_abs(workspace_path)) {
        PromptSkillScope::MateManaged
    } else {
        PromptSkillScope::Project
    }
}

/// The scope of a skill found outside a workspace: managed when it lies below
/// `prompt_skills/managed` in the app's data directory.
pub open spec fn global_scope_spec(path: Seq<char>, app_data_dir: Seq<char>) -> PromptSkillScope {
    if path_starts_with(
        path,
        comps(app_data_dir).push("prompt_skills"@).push("managed"@),
        is_abs(app_data_dir),
    ) {
        PromptSkillScope::MateManaged
    } else {
        PromptSkillScope::Global
    }
}

fn below(path: &str, base: &Vec<Vec<char>>, base_abs: bool) -> (r: bool)
    ensures
        r == path_starts_with(path@, views(base@), base_abs),
{
    let p = chars_of(path);
    let abs = p.len() > 0 && p[0] == '/';
    if abs != base_abs {
        return false;
    }
    let pc = comps_vec(&p);
    parts_prefix(base, &pc)
}

fn abs_of(p: &str) -> (r: bool)
    ensures
        r == is_abs(p@),
{
    let v = chars_of(p);
    v.len() > 0 && v[0] == '/'
}

pub fn workspace_scope(path: &str, workspace_path: &str) -> (r: PromptSkillScope)
    ensures
        r == workspace_scope_spec(path@, workspace_path@),
{
    let mut base = comps_vec(&chars_of(workspace_path));
    let ghost b0 = views(base@);
    base.push(chars_of(".rainy-mate"));
    assert(views(base@) =~= b0.push(".rainy-mate"@));
    if below(path, &base, abs_of(workspace_path)) {
        PromptSkillScope::MateManaged
    } else {
        PromptSkillScope::Project
    }
}

pub fn global_scope(path: &str, app_data_dir: &str) -> (r: PromptSkillScope)
    ensures
        r == global_scope_spec(path@, app_data_dir@),
{
    let mut base = comps_vec(&chars_of(app_data_dir));
    let ghost b0 = views(base@);
    base.push(chars_of("prompt_skills"));
    base.push(chars_of("managed"));
    assert(views(base@) =~= b0.push("prompt_skills"@).push("managed"@));
    if below(path, &base, abs_of(app_data_dir)) {
        PromptSkillScope::MateManaged
    } else {
        PromptSkillScope::Global
    }
}

/// The scope of a skill whose binding is refreshed: managed below the
/// workspace's `.rainy-mate`, project elsewhere in the workspace, else as
/// outside any workspace.
pub open spec fn binding_scope_spec(
    workspace_path: Option<Seq<char>>,
    source_path: Seq<char>,
    app_data_dir: Seq<char>,
) -> PromptSkillScope {
    match workspace_path {
        Some(w) => if path_starts_with(source_path, comps(w).push(".rainy-mate"@), is_abs(w)) {
            PromptSkillScope::MateManaged
        } else if path_starts_with(source_path, comps(w), is_abs(w)) {
            PromptSkillScope::Project
        } else {
            global_scope_spec(source_path, app_data_dir)
        },
        None => global_scope_spec(source_path, app_data_dir),
    }
}

pub fn binding_scope(workspace_path: Option<&str>, source_path: &str, app_data_dir: &str) -> (r:
    PromptSkillScope)
    ensures
        r == binding_scope_spec(
            match workspace_path {
                Some(w) => Some(w@),
                None => None,
            },
            source_path@,
            app_data_dir@,
        ),
{
    match workspace_path {
        Some(w) => {
            let ws = comps_vec(&chars_of(w));
            let abs = abs_of(w);
            if workspace_scope(source_path, w) == PromptSkillScope::MateManaged {
                PromptSkillScope::MateManaged
            } else if below(source_path, &ws, abs) {
                PromptSkillScope::Project
            } else {
                global_scope(source_path, app_data_dir)
            }
        },
        None => global_scope(source_path, app_data_dir),
    }
}

// ───────────────────────────── frontmatter ─────────────────────────────

/// The end of the line that begins at `i`: just after its `\n`, or the end
/// of `s`.
pub open spec fn line_end(s: Seq<char>, i: int) -> int
    decreases s.len() - i,
{
    if i >= s.len() {
        s.len() as int
    } else if s[i] == '\n' {
        i + 1
    } else {
        line_end(s, i + 1)
    }
}

/// The first line at or after `i` that reads `---` once trailing white
/// space is trimmed, by its start and end.
pub open spec fn closing_line(s: Seq<char>, i: int) -> Option<(int, int)>
    decreases s.len() - i,
{
    if i < 0 || i >= s.len() {
        None
    } else {
        let e = line_end(s, i);
        if trim_end(s.subrange(i, e)) == "---"@ {
            Some((i, e))
        } else if e <= i || e > s.len() {
            None
        } else {
            closing_line(s, e)
        }
    }
}

/// The frontmatter and the body of a `SKILL.md` text, or why there are none.
pub open spec fn split_frontmatter_spec(raw: Seq<char>) -> Result<(Seq<char>, Seq<char>), Seq<char>> {
    if !("---\n"@).is_prefix_of(raw) {
        Err("Missing YAML frontmatter"@)
    } else {
        match closing_line(raw, 4) {
            Some((i, e)) => Ok((raw.subrange(4, i), raw.subrange(e, raw.len() as int))),
            None => Err("Unterminated YAML frontmatter"@),
        }
    }
}

proof fn lemma_line_end_bounds(s: Seq<char>, i: int)
    requires
        0 <= i <= s.len(),
    ensures
        i <= line_end(s, i) <= s.len(),
        i < s.len() ==> i < line_end(s, i),
    decreases s.len() - i,
{
    if i < s.len() && s[i] != '\n' {
        lemma_line_end_bounds(s, i + 1);
    }
}

fn line_end_exec(s: &Vec<char>, i: usize) -> (r: usize)
    requires
        i <= s.len(),
    ensures
        r == line_end(s@, i as int),
{
    let mut j = i;
    while j < s.len() && s[j] != '\n'
        invariant
            i <= j <= s.len(),
            line_end(s@, i as int) == line_end(s@, j as int),
        decreases s.len() - j,
    {
        j = j + 1;
    }
    if j < s.len() {
        j + 1
    } else {
        j
    }
}

/// Splits a `SKILL.md` text into its YAML frontmatter and its body.
pub fn split_frontmatter(raw: &str) -> (r: Result<(String, String), String>)
    ensures
        match split_frontmatter_spec(raw@) {
            Ok((f, b)) => r matches Ok((f2, b2)) && f2@ == f && b2@ == b,
            Err(e) => r matches Err(e2) && e2@ == e,
        },
{
    let s = chars_of(raw);
    let open = chars_of("---\n");
    proof {
        reveal_strlit("---\n");
    }
    if !crate::text::starts_with(&s, &open) {
        return Err(owned("Missing YAML frontmatter"));
    }
    let close = chars_of("---");
    let mut i: usize = 4;
    while i < s.len()
        invariant
            4 <= i <= s.len(),
            closing_line(s@, 4) == closing_line(s@, i as int),
            close@ == "---"@,
            s@ == raw@,
            ("---\n"@).is_prefix_of(s@),
        decreases s.len() - i,
    {
        let e = line_end_exec(&s, i);
        proof {
            lemma_line_end_bounds(s@, i as int);
        }
        let line = slice_vec(&s, i, e);
        let t = crate::text::trim_end_vec(&line);
        if vec_eq(&t, &close) {
            assert(closing_line(s@, i as int) == Some((i as int, e as int)));
            let front = slice_vec(&s, 4, i);
            let body = slice_vec(&s, e, s.len());
            return Ok((string_of(front.as_slice()), string_of(body.as_slice())));
        }
        assert(closing_line(s@, i as int) == closing_line(s@, e as int));
        i = e;
    }
    assert(closing_line(s@, i as int) is None);
    Err(owned("Unterminated YAML frontmatter"))
}

// ───────────────────────────── ids and hashes ─────────────────────────────

/// A character of a slug: ASCII letters and digits lowercased, anything
/// else a hyphen.
pub open spec fn slug_char(c: char) -> char {
    if is_ascii_alnum(c) {
        lower(c)
    } else {
        '-'
    }
}

pub open spec fn nonempty_parts(ps: Seq<Seq<char>>) -> Seq<Seq<char>>
    decreases ps.len(),
{
    if ps.len() == 0 {
        seq![]
    } else if ps.last().len() == 0 {
        nonempty_parts(ps.drop_last())
    } else {
        nonempty_parts(ps.drop_last()).push(ps.last())
    }
}

/// The slug of a skill name: its slug characters, runs of hyphens collapsed,
/// none at either end.
pub open spec fn slug(name: Seq<char>) -> Seq<char> {
    join(nonempty_parts(split_char(name.map_values(|c: char| slug_char(c)), '-')), "-"@)
}

/// The id of a skill: the slug of its name (`skill` where that is empty),
/// a hyphen, and the first eight hex digits of the SHA-256 of its path.
pub open spec fn skill_id(name: Seq<char>, source_path: Seq<char>) -> Seq<char> {
    (if slug(name).len() == 0 {
        "skill"@
    } else {
        slug(name)
    }) + "-"@ + sha256_hex(source_path).take(8)
}

fn slug_exec(name: &str) -> (r: Vec<char>)
    ensures
        r@ == slug(name@),
{
    let v = chars_of(name);
    let mut m: Vec<char> = Vec::new();
    let mut i: usize = 0;
    while i < v.len()
        invariant
            i <= v.len(),
            m@ == v@.take(i as int).map_values(|c: char| slug_char(c)),
        decreases v.len() - i,
    {
        let c = v[i];
        let d = if ('a' <= c && c <= 'z') || ('A' <= c && c <= 'Z') || ('0' <= c && c <= '9') {
            char_lower(c)
        } else {
            '-'
        };
        m.push(d);
        proof {
            assert(v@.take(i + 1).map_values(|c: char| slug_char(c)) =~= v@.take(i as int).map_values(
                |c: char| slug_char(c),
            ).push(slug_char(v@[i as int])));
        }
        i = i + 1;
    }
    assert(v@.take(i as int) =~= v@);
    let parts = split_vec(&m, '-');
    let mut kept: Vec<Vec<char>> = Vec::new();
    let mut k: usize = 0;
    let ghost ps = views(parts@);
    while k < parts.len()
        invariant
            k <= parts.len(),
            ps == views(parts@),
            views(kept@) == nonempty_parts(ps.take(k as int)),
        decreases parts.len() - k,
    {
        let ghost pre = ps.take(k + 1);
        assert(pre.drop_last() =~= ps.take(k as int));
        assert(pre.last() == parts@[k as int]@);
        if parts[k].len() > 0 {
            let x = slice_vec(&parts[k], 0, parts[k].len());
            assert(x@ =~= parts@[k as int]@);
            proof {
                assert(views(kept@.push(x)) =~= views(kept@).push(x@));
            }
            kept.push(x);
        }
        k = k + 1;
    }
    assert(ps.take(k as int) =~= ps);
    let sep = chars_of("-");
    join_vecs(&kept, &sep)
}

/// The id that `build_skill_id` gives a skill named `name` at `source_path`.
pub fn build_skill_id(name: &str, source_path: &str) -> (r: String)
    ensures
        r@ == skill_id(name@, source_path@),
{
    let s = slug_exec(name);
    let h = chars_of(hash_text(source_path).as_str());
    let mut out: Vec<char> = if s.len() == 0 {
        chars_of("skill")
    } else {
        s
    };
    out.push('-');
    let eight = slice_vec(&h, 0, 8);
    push_all(&mut out, &eight);
    proof {
        reveal_strlit("-");
    }
    assert(out@ =~= skill_id(name@, source_path@));
    string_of(out.as_slice())
}

/// The first eight hex digits of the SHA-256 of `value`.
pub fn short_hash(value: &str) -> (r: String)
    ensures
        r@ == sha256_hex(value@).take(8),
{
    let h = chars_of(hash_text(value).as_str());
    let eight = slice_vec(&h, 0, 8);
    string_of(eight.as_slice())
}

/// The SHA-256 of a skill file's text, in hex.
pub fn hash_content(value: &str) -> (r: String)
    ensures
        r@ == sha256_hex(value@),
{
    hash_text(value)
}

// ───────────────────────────── parsed and discovered skills ─────────────────────────────

/// A skill read from its `SKILL.md`.
#[derive(Debug)]
pub struct ParsedPromptSkill {
    pub id: String,
    pub name: String,
    pub description: String,
    pub body_markdown: String,
    pub scripts: Vec<String>,
    pub references: Vec<String>,
    pub source_hash: String,
    pub source_path: String,
}

/// The skill that a `SKILL.md` text describes, once its frontmatter gave
/// `name` and `description`: names and body trimmed, the asset lists sorted.
/// `source_path` is the skill's directory, canonical where it could be made so.
pub fn assemble_parsed_skill(
    raw: &str,
    body: &str,
    name: &str,
    description: &str,
    source_path: String,
    scripts: &Vec<String>,
    references: &Vec<String>,
) -> (r: ParsedPromptSkill)
    ensures
        r.id@ == skill_id(name@, source_path@),
        r.name@ == trim(name@),
        r.description@ == trim(description@),
        r.body_markdown@ == trim(body@),
        str_views(r.scripts@) == sorted_texts(str_views(scripts@)),
        str_views(r.references@) == sorted_texts(str_views(references@)),
        r.source_hash@ == sha256_hex(raw@),
        r.source_path@ == source_path@,
{
    ParsedPromptSkill {
        id: build_skill_id(name, source_path.as_str()),
        name: trim_str(name),
        description: trim_str(description),
        body_markdown: trim_str(body),
        scripts: sort_strings(scripts),
        references: sort_strings(references),
        source_hash: hash_content(raw),
        source_path,
    }
}

/// The skill that an instruction file stands for: named and described by
/// its caller, its whole text (trimmed) as the body, without assets.
/// `source_path` is the file's path, canonical where it could be made so.
pub fn assemble_instruction_skill(raw: &str, name: &str, description: &str, source_path: String) -> (r: ParsedPromptSkill)
    ensures
        r.id@ == skill_id(name@, source_path@),
        r.name@ == name@,
        r.description@ == description@,
        r.body_markdown@ == trim(raw@),
        r.scripts@.len() == 0,
        r.references@.len() == 0,
        r.source_hash@ == sha256_hex(raw@),
        r.source_path@ == source_path@,
{
    ParsedPromptSkill {
        id: build_skill_id(name, source_path.as_str()),
        name: owned(name),
        description: owned(description),
        body_markdown: trim_str(raw),
        scripts: Vec::new(),
        references: Vec::new(),
        source_hash: hash_content(raw),
        source_path,
    }
}

/// The binding of a prompt skill that an agent carries.
#[derive(Debug)]
pub struct PromptSkillBinding {
    pub id: String,
    pub name: String,
    pub description: String,
    pub content: String,
    pub source_path: String,
    pub scope: PromptSkillScope,
    /// The skill's kind, as the agent specs name it, where it is known.
    pub kind: Option<String>,
    pub source_hash: String,
    pub enabled: bool,
    pub last_synced_at: i64,
}

/// A skill as discovery reports it, valid or not.
#[derive(Debug)]
pub struct DiscoveredPromptSkill {
    pub id: String,
    pub name: String,
    pub description: String,
    pub body_markdown: String,
    pub source_path: String,
    pub scope: PromptSkillScope,
    /// The skill's kind, as the agent specs name it, where it is known;
    /// discovery itself does not learn it.
    pub kind: Option<String>,
    pub source_kind: PromptSkillSourceKind,
    pub source_hash: String,
    pub discovered_at: i64,
    pub valid: bool,
    pub parse_error: Option<String>,
    pub scripts: Vec<String>,
    pub references: Vec<String>,
    pub all_agents_enabled: bool,
}

pub struct DiscoveredView {
    pub id: Seq<char>,
    pub name: Seq<char>,
    pub description: Seq<char>,
    pub body_markdown: Seq<char>,
    pub source_path: Seq<char>,
    pub scope: PromptSkillScope,
    pub kind: Option<Seq<char>>,
    pub source_kind: PromptSkillSourceKind,
    pub source_hash: Seq<char>,
    pub discovered_at: i64,
    pub valid: bool,
    pub parse_error: Option<Seq<char>>,
    pub scripts: Seq<Seq<char>>,
    pub references: Seq<Seq<char>>,
    pub all_agents_enabled: bool,
}

impl View for DiscoveredPromptSkill {
    type V = DiscoveredView;

    open spec fn view(&self) -> DiscoveredView {
        DiscoveredView {
            id: self.id@,
            name: self.name@,
            description: self.description@,
            body_markdown: self.body_markdown@,
            source_path: self.source_path@,
            scope: self.scope,
            kind: crate::manifest::opt_view(self.kind),
            source_kind: self.source_kind,
            source_hash: self.source_hash@,
            discovered_at: self.discovered_at,
            valid: self.valid,
            parse_error: crate::manifest::opt_view(self.parse_error),
            scripts: str_views(self.scripts@),
            references: str_views(self.references@),
            all_agents_enabled: self.all_agents_enabled,
        }
    }
}

pub open spec fn discovered_views(s: Seq<DiscoveredPromptSkill>) -> Seq<DiscoveredView> {
    s.map_values(|d: DiscoveredPromptSkill| d@)
}

impl DiscoveredPromptSkill {
    pub fn copy(&self) -> (r: Self)
        ensures
            r@ == self@,
    {
        DiscoveredPromptSkill {
            id: self.id.clone(),
            name: self.name.clone(),
            description: self.description.clone(),
            body_markdown: self.body_markdown.clone(),
            source_path: self.source_path.clone(),
            scope: self.scope,
            kind: crate::manifest::copy_opt_string(&self.kind),
            source_kind: self.source_kind,
            source_hash: self.source_hash.clone(),
            discovered_at: self.discovered_at,
            valid: self.valid,
            parse_error: crate::manifest::copy_opt_string(&self.parse_error),
            scripts: copy_strings(&self.scripts),
            references: copy_strings(&self.references),
            all_agents_enabled: self.all_agents_enabled,
        }
    }

    /// The binding of this skill: enabled, synced at `now`.
    pub fn to_binding_at(&self, now: i64) -> (r: PromptSkillBinding)
        ensures
            r.id@ == self.id@,
            r.name@ == self.name@,
            r.description@ == self.description@,
            r.content@ == self.body_markdown@,
            r.source_path@ == self.source_path@,
            r.scope == self.scope,
            crate::manifest::opt_view(r.kind) == crate::manifest::opt_view(self.kind),
            r.source_hash@ == self.source_hash@,
            r.enabled,
            r.last_synced_at == now,
    {
        PromptSkillBinding {
            id: self.id.clone(),
            name: self.name.clone(),
            description: self.description.clone(),
            content: self.body_markdown.clone(),
            source_path: self.source_path.clone(),
            scope: self.scope,
            kind: crate::manifest::copy_opt_string(&self.kind),
            source_hash: self.source_hash.clone(),
            enabled: true,
            last_synced_at: now,
        }
    }

    /// The binding of this skill: enabled, synced now (the clock is read here).
    pub fn to_binding(&self) -> (r: PromptSkillBinding)
        ensures
            r.id@ == self.id@,
            r.name@ == self.name@,
            r.description@ == self.description@,
            r.content@ == self.body_markdown@,
            r.source_path@ == self.source_path@,
            r.scope == self.scope,
            crate::manifest::opt_view(r.kind) == crate::manifest::opt_view(self.kind),
            r.source_hash@ == self.source_hash@,
            r.enabled,
    {
        self.to_binding_at(unix_seconds())
    }

    pub fn from_parsed(
        parsed: ParsedPromptSkill,
        scope: PromptSkillScope,
        source_kind: PromptSkillSourceKind,
        all_agents_enabled: bool,
        discovered_at: i64,
    ) -> (r: Self)
        ensures
            r.id@ == parsed.id@,
            r.name@ == parsed.name@,
            r.description@ == parsed.description@,
            r.body_markdown@ == parsed.body_markdown@,
            r.source_path@ == parsed.source_path@,
            r.scope == scope,
            r.kind is None,
            r.source_kind == source_kind,
            r.source_hash@ == parsed.source_hash@,
            r.discovered_at == discovered_at,
            r.valid,
            r.parse_error is None,
            str_views(r.scripts@) == str_views(parsed.scripts@),
            str_views(r.references@) == str_views(parsed.references@),
            r.all_agents_enabled == all_agents_enabled,
    {
        DiscoveredPromptSkill {
            id: parsed.id,
            name: parsed.name,
            description: parsed.description,
            body_markdown: parsed.body_markdown,
            source_path: parsed.source_path,
            scope,
            kind: None,
            source_kind,
            source_hash: parsed.source_hash,
            discovered_at,
            valid: true,
            parse_error: None,
            scripts: parsed.scripts,
            references: parsed.references,
            all_agents_enabled,
        }
    }

    /// The report of a skill that failed to parse: its id and hash come from
    /// its path, its name from the directory's name (`Invalid Skill` where it
    /// has none), and it is never enabled for all agents.
    pub fn invalid(
        key: &str,
        dir_name: Option<&str>,
        scope: PromptSkillScope,
        source_kind: PromptSkillSourceKind,
        error: String,
        discovered_at: i64,
    ) -> (r: Self)
        ensures
            r.id@ == "invalid-"@ + sha256_hex(key@).take(8),
            r.name@ == match dir_name {
                Some(n) => n@,
                None => "Invalid Skill"@,
            },
            r.description@.len() == 0,
            r.body_markdown@.len() == 0,
            r.source_path@ == key@,
            r.scope == scope,
            r.kind is None,
            r.source_kind == source_kind,
            r.source_hash@ == sha256_hex(key@).take(8),
            r.discovered_at == discovered_at,
            !r.valid,
            r.parse_error matches Some(e) && e@ == error@,
            r.scripts@.len() == 0,
            r.references@.len() == 0,
            !r.all_agents_enabled,
    {
        let h = short_hash(key);
        DiscoveredPromptSkill {
            id: concat2("invalid-", h.as_str()),
            name: match dir_name {
                Some(n) => owned(n),
                None => owned("Invalid Skill"),
            },
            description: String::new(),
            body_markdown: String::new(),
            source_path: owned(key),
            scope,
            kind: None,
            source_kind,
            source_hash: h,
            discovered_at,
            valid: false,
            parse_error: Some(error),
            scripts: Vec::new(),
            references: Vec::new(),
            all_agents_enabled: false,
        }
    }
}

// ───────────────────────────── order and de-duplication ─────────────────────────────

/// Order of discovered skills: by name, then by path.
pub open spec fn skill_le(a: DiscoveredView, b: DiscoveredView) -> bool {
    (lex_le(a.name, b.name) && a.name != b.name) || (a.name == b.name && lex_le(
        a.source_path,
        b.source_path,
    ))
}

pub open spec fn skill_insert_pos(t: Seq<DiscoveredView>, x: DiscoveredView) -> int
    decreases t.len(),
{
    if t.len() == 0 {
        0
    } else if !skill_le(t[0], x) {
        0
    } else {
        1 + skill_insert_pos(t.drop_first(), x)
    }
}

/// The skills in report order: a stable sort by name, then path.
pub open spec fn skill_order(s: Seq<DiscoveredView>) -> Seq<DiscoveredView>
    decreases s.len(),
{
    if s.len() == 0 {
        s
    } else {
        let t = skill_order(s.drop_last());
        t.insert(skill_insert_pos(t, s.last()), s.last())
    }
}

proof fn lemma_skill_insert_pos_skip(t: Seq<DiscoveredView>, x: DiscoveredView, i: int)
    requires
        0 <= i <= t.len(),
        forall|j: int| 0 <= j < i ==> skill_le(#[trigger] t[j], x),
    ensures
        skill_insert_pos(t, x) == i + skill_insert_pos(t.skip(i), x),
    decreases i,
{
    if i == 0 {
        assert(t.skip(0) =~= t);
    } else {
        lemma_skill_insert_pos_skip(t.drop_first(), x, i - 1);
        assert(t.drop_first().skip(i - 1) =~= t.skip(i));
    }
}

fn skill_le_exec(a: &DiscoveredPromptSkill, b: &DiscoveredPromptSkill) -> (r: bool)
    ensures
        r == skill_le(a@, b@),
{
    let an = chars_of(a.name.as_str());
    let bn = chars_of(b.name.as_str());
    if vec_eq(&an, &bn) {
        lex_le_vec(&chars_of(a.source_path.as_str()), &chars_of(b.source_path.as_str()))
    } else {
        lex_le_vec(&an, &bn)
    }
}

/// The skills whose path was not met earlier in the list: the first of each
/// path stays.
pub open spec fn first_of_each_path(s: Seq<DiscoveredView>) -> Seq<DiscoveredView>
    decreases s.len(),
{
    if s.len() == 0 {
        s
    } else {
        let t = first_of_each_path(s.drop_last());
        if exists|j: int| 0 <= j < s.len() - 1 && #[trigger] s[j].source_path == s.last().source_path {
            t
        } else {
            t.push(s.last())
        }
    }
}

fn seen_before(v: &Vec<DiscoveredPromptSkill>, i: usize) -> (r: bool)
    requires
        i < v.len(),
    ensures
        r == exists|j: int| 0 <= j < i && #[trigger] v@[j]@.source_path == v@[i as int]@.source_path,
{
    let mut j: usize = 0;
    while j < i
        invariant
            i < v.len(),
            j <= i,
            forall|k: int| 0 <= k < j ==> (#[trigger] v@[k]@).source_path != v@[i as int]@.source_path,
        decreases i - j,
    {
        if str_eq(v[j].source_path.as_str(), v[i].source_path.as_str()) {
            assert(v@[j as int]@.source_path == v@[i as int]@.source_path);
            return true;
        }
        j = j + 1;
    }
    false
}

/// A report that is valid exactly where it has no parse error.
pub open spec fn consistent_report(d: DiscoveredView) -> bool {
    d.valid == (d.parse_error is None)
}

/// The discovered skills as they are reported: the first candidate of each
/// path kept, then sorted by name and path.
pub fn order_discovered(found: &Vec<DiscoveredPromptSkill>) -> (r: Vec<DiscoveredPromptSkill>)
    ensures
        discovered_views(r@) == skill_order(first_of_each_path(discovered_views(found@))),
        (forall|i: int| 0 <= i < found@.len() ==> consistent_report(#[trigger] found@[i]@))
            ==> forall|i: int| 0 <= i < r@.len() ==> consistent_report(#[trigger] r@[i]@),
{
    let ghost all_ok = forall|i: int| 0 <= i < found@.len() ==> consistent_report(#[trigger] found@[i]@);
    let ghost fv = discovered_views(found@);
    let mut uniq: Vec<DiscoveredPromptSkill> = Vec::new();
    let mut i: usize = 0;
    while i < found.len()
        invariant
            i <= found.len(),
            fv == discovered_views(found@),
            discovered_views(uniq@) == first_of_each_path(fv.take(i as int)),
            all_ok == forall|i: int| 0 <= i < found@.len() ==> consistent_report(#[trigger] found@[i]@),
            all_ok ==> forall|k: int| 0 <= k < uniq@.len() ==> consistent_report(#[trigger] uniq@[k]@),
        decreases found.len() - i,
    {
        let ghost pre = fv.take(i + 1);
        assert(pre.drop_last() =~= fv.take(i as int));
        assert(pre.last() == found@[i as int]@);
        let dup = seen_before(found, i);
        proof {
            if dup {
                let j = choose|j: int| 0 <= j < i && #[trigger] found@[j]@.source_path == found@[i as int]@.source_path;
                assert(pre[j] == found@[j]@);
            } else {
                assert forall|j: int| 0 <= j < pre.len() - 1 implies #[trigger] pre[j].source_path != pre.last().source_path by {
                    assert(pre[j] == found@[j]@);
                }
            }
        }
        if !dup {
            let c = found[i].copy();
            proof {
                assert(discovered_views(uniq@.push(c)) =~= discovered_views(uniq@).push(c@));
            }
            uniq.push(c);
        }
        i = i + 1;
    }
    assert(fv.take(i as int) =~= fv);
    let ghost u = discovered_views(uniq@);
    let mut out: Vec<DiscoveredPromptSkill> = Vec::new();
    let mut k: usize = 0;
    while k < uniq.len()
        invariant
            k <= uniq.len(),
            u == discovered_views(uniq@),
            discovered_views(out@) == skill_order(u.take(k as int)),
            all_ok ==> forall|q: int| 0 <= q < uniq@.len() ==> consistent_report(#[trigger] uniq@[q]@),
            all_ok ==> forall|q: int| 0 <= q < out@.len() ==> consistent_report(#[trigger] out@[q]@),
        decreases uniq.len() - k,
    {
        let x = uniq[k].copy();
        let mut p: usize = 0;
        while p < out.len() && skill_le_exec(&out[p], &x)
            invariant
                p <= out.len(),
                forall|j: int| 0 <= j < p ==> skill_le(#[trigger] discovered_views(out@)[j], x@),
            decreases out.len() - p,
        {
            p = p + 1;
        }
        proof {
            let t = discovered_views(out@);
            lemma_skill_insert_pos_skip(t, x@, p as int);
            if p < out.len() {
                assert(t.skip(p as int)[0] == t[p as int]);
            }
            assert(skill_insert_pos(t, x@) == p);
            assert(u.take(k + 1).drop_last() =~= u.take(k as int));
            assert(u.take(k + 1).last() == x@);
            assert(discovered_views(out@.insert(p as int, x)) =~= t.insert(p as int, x@));
        }
        let ghost before = out@;
        out.insert(p, x);
        proof {
            if all_ok {
                assert forall|q: int| 0 <= q < out@.len() implies consistent_report(#[trigger] out@[q]@) by {
                    if q < p {
                        assert(out@[q] == before[q]);
                    } else if q > p {
                        assert(out@[q] == before[q - 1]);
                    }
                }
            }
        }
        k = k + 1;
    }
    assert(u.take(k as int) =~= u);
    out
}

// ───────────────────────────── the registry of switches ─────────────────────────────

/// Whether a skill, by its path, is enabled for all agents.
#[derive(Debug)]
pub struct PromptSkillRegistryEntry {
    pub source_path: String,
    pub all_agents_enabled: bool,
}

pub open spec fn entry_views(s: Seq<PromptSkillRegistryEntry>) -> Seq<(Seq<char>, bool)> {
    s.map_values(|e: PromptSkillRegistryEntry| (e.source_path@, e.all_agents_enabled))
}

/// The switch recorded for `path`: that of the last entry with that path
/// (a later entry overrides an earlier one), or off.
pub open spec fn switch_of(s: Seq<(Seq<char>, bool)>, path: Seq<char>) -> bool
    decreases s.len(),
{
    if s.len() == 0 {
        false
    } else if s.last().0 == path {
        s.last().1
    } else {
        switch_of(s.drop_last(), path)
    }
}

/// The first entry with path `p`.
pub open spec fn entry_pos(s: Seq<(Seq<char>, bool)>, p: Seq<char>) -> Option<int>
    decreases s.len(),
{
    if s.len() == 0 {
        None
    } else if s[0].0 == p {
        Some(0)
    } else {
        match entry_pos(s.drop_first(), p) {
            Some(i) => Some(i + 1),
            None => None,
        }
    }
}

pub open spec fn entry_le(a: (Seq<char>, bool), b: (Seq<char>, bool)) -> bool {
    lex_le(a.0, b.0)
}

pub open spec fn entry_insert_pos(t: Seq<(Seq<char>, bool)>, x: (Seq<char>, bool)) -> int
    decreases t.len(),
{
    if t.len() == 0 {
        0
    } else if !entry_le(t[0], x) {
        0
    } else {
        1 + entry_insert_pos(t.drop_first(), x)
    }
}

/// The entries sorted by path, stably.
pub open spec fn entries_by_path(s: Seq<(Seq<char>, bool)>) -> Seq<(Seq<char>, bool)>
    decreases s.len(),
{
    if s.len() == 0 {
        s
    } else {
        let t = entries_by_path(s.drop_last());
        t.insert(entry_insert_pos(t, s.last()), s.last())
    }
}

/// The entries after the switch of `path` is set: the first entry of that
/// path changed, or a new one added; then sorted by path.
pub open spec fn with_switch(s: Seq<(Seq<char>, bool)>, path: Seq<char>, enabled: bool) -> Seq<
    (Seq<char>, bool),
> {
    entries_by_path(
        match entry_pos(s, path) {
            Some(i) => s.update(i, (path, enabled)),
            None => s.push((path, enabled)),
        },
    )
}

/// No two entries share a path.
pub open spec fn distinct_paths(s: Seq<(Seq<char>, bool)>) -> bool {
    forall|i: int, j: int| 0 <= i < j < s.len() ==> #[trigger] s[i].0 != #[trigger] s[j].0
}

/// Some entry has path `q`.
pub open spec fn has_path(s: Seq<(Seq<char>, bool)>, q: Seq<char>) -> bool {
    exists|i: int| 0 <= i < s.len() && #[trigger] s[i].0 == q
}

proof fn lemma_entry_insert_pos_bounds(t: Seq<(Seq<char>, bool)>, x: (Seq<char>, bool))
    ensures
        0 <= entry_insert_pos(t, x) <= t.len(),
    decreases t.len(),
{
    if t.len() > 0 && entry_le(t[0], x) {
        lemma_entry_insert_pos_bounds(t.drop_first(), x);
    }
}

/// The switch read from a list whose paths are distinct: that of the one
/// entry with the path, or off where there is none.
proof fn lemma_switch_of_distinct(s: Seq<(Seq<char>, bool)>, q: Seq<char>)
    requires
        distinct_paths(s),
    ensures
        forall|i: int| 0 <= i < s.len() && s[i].0 == q ==> switch_of(s, q) == #[trigger] s[i].1,
        !has_path(s, q) ==> !switch_of(s, q),
    decreases s.len(),
{
    if s.len() > 0 {
        let d = s.drop_last();
        assert(distinct_paths(d)) by {
            assert forall|i: int, j: int| 0 <= i < j < d.len() implies #[trigger] d[i].0 != #[trigger] d[j].0 by {
                assert(d[i] == s[i] && d[j] == s[j]);
            }
        }
        lemma_switch_of_distinct(d, q);
        assert forall|i: int| 0 <= i < s.len() && s[i].0 == q implies switch_of(s, q) == #[trigger] s[i].1 by {
            if i < s.len() - 1 {
                assert(s[i].0 != s[s.len() - 1].0);
                assert(d[i] == s[i]);
            }
        }
        if !has_path(s, q) {
            assert(s[s.len() - 1].0 != q);
            assert(!has_path(d, q)) by {
                if has_path(d, q) {
                    let i = choose|i: int| 0 <= i < d.len() && #[trigger] d[i].0 == q;
                    assert(s[i] == d[i]);
                }
            }
        }
    }
}

/// Inserting an entry anywhere into a list: other paths read as before, and
/// the entry's path reads its switch where the list had no such path.
proof fn lemma_switch_of_insert(t: Seq<(Seq<char>, bool)>, k: int, x: (Seq<char>, bool), q: Seq<char>)
    requires
        0 <= k <= t.len(),
        q != x.0 || !has_path(t, q),
    ensures
        switch_of(t.insert(k, x), q) == if q == x.0 { x.1 } else { switch_of(t, q) },
    decreases t.len(),
{
    let u = t.insert(k, x);
    if k == t.len() {
        assert(u.drop_last() =~= t);
        if q == x.0 && has_path(t, q) {
            assert(false);
        }
        if q == x.0 {
            lemma_switch_none(t, q);
        }
    } else {
        assert(u.last() == t.last());
        assert(u.drop_last() =~= t.drop_last().insert(k, x));
        if t.last().0 == q {
            assert(q != x.0 || has_path(t, q)) by {
                assert(t[t.len() - 1].0 == q);
            }
        } else {
            assert(q != x.0 || !has_path(t.drop_last(), q)) by {
                if q == x.0 && has_path(t.drop_last(), q) {
                    let i = choose|i: int| 0 <= i < t.drop_last().len() && #[trigger] t.drop_last()[i].0 == q;
                    assert(t[i] == t.drop_last()[i]);
                }
            }
            lemma_switch_of_insert(t.drop_last(), k, x, q);
        }
    }
}

/// A list without path `q` reads it as off.
proof fn lemma_switch_none(t: Seq<(Seq<char>, bool)>, q: Seq<char>)
    requires
        !has_path(t, q),
    ensures
        !switch_of(t, q),
    decreases t.len(),
{
    if t.len() > 0 {
        assert(t[t.len() - 1].0 != q);
        assert(!has_path(t.drop_last(), q)) by {
            if has_path(t.drop_last(), q) {
                let i = choose|i: int| 0 <= i < t.drop_last().len() && #[trigger] t.drop_last()[i].0 == q;
                assert(t[i] == t.drop_last()[i]);
            }
        }
        lemma_switch_none(t.drop_last(), q);
    }
}

/// Sorting a list of distinct paths by path keeps what every path reads, and
/// which paths are there.
proof fn lemma_sorted_switches(s: Seq<(Seq<char>, bool)>, q: Seq<char>)
    requires
        distinct_paths(s),
    ensures
        switch_of(entries_by_path(s), q) == switch_of(s, q),
        has_path(entries_by_path(s), q) == has_path(s, q),
    decreases s.len(),
{
    if s.len() > 0 {
        let d = s.drop_last();
        let x = s.last();
        let t = entries_by_path(d);
        let k = entry_insert_pos(t, x);
        lemma_entry_insert_pos_bounds(t, x);
        assert(distinct_paths(d)) by {
            assert forall|i: int, j: int| 0 <= i < j < d.len() implies #[trigger] d[i].0 != #[trigger] d[j].0 by {
                assert(d[i] == s[i] && d[j] == s[j]);
            }
        }
        lemma_sorted_switches(d, q);
        lemma_sorted_switches(d, x.0);
        assert(!has_path(d, x.0)) by {
            if has_path(d, x.0) {
                let i = choose|i: int| 0 <= i < d.len() && #[trigger] d[i].0 == x.0;
                assert(s[i] == d[i]);
                assert(s[i].0 != s[s.len() - 1].0);
            }
        }
        lemma_switch_of_insert(t, k, x, q);
        let u = t.insert(k, x);
        assert(has_path(u, q) == (has_path(t, q) || q == x.0)) by {
            if has_path(u, q) {
                let i = choose|i: int| 0 <= i < u.len() && #[trigger] u[i].0 == q;
                if i < k {
                    assert(u[i] == t[i]);
                } else if i > k {
                    assert(u[i] == t[i - 1]);
                }
            }
            if has_path(t, q) {
                let i = choose|i: int| 0 <= i < t.len() && #[trigger] t[i].0 == q;
                if i < k {
                    assert(u[i] == t[i]);
                } else {
                    assert(u[i + 1] == t[i]);
                }
            }
            if q == x.0 {
                assert(u[k] == x);
            }
        }
        assert(has_path(s, q) == (has_path(d, q) || q == x.0)) by {
            if has_path(s, q) {
                let i = choose|i: int| 0 <= i < s.len() && #[trigger] s[i].0 == q;
                if i < s.len() - 1 {
                    assert(d[i] == s[i]);
                }
            }
            if has_path(d, q) {
                let i = choose|i: int| 0 <= i < d.len() && #[trigger] d[i].0 == q;
                assert(s[i] == d[i]);
            }
            if q == x.0 {
                assert(s[s.len() - 1] == x);
            }
        }
    }
}

/// What a switch write sets, a read gives back: after the switch of `path`
/// is set to `enabled`, that path has an entry and reads `enabled`, and
/// every other path reads what it read before and has an entry exactly
/// where it had one.
pub proof fn law_switch_reads_back(s: Seq<(Seq<char>, bool)>, path: Seq<char>, enabled: bool, other: Seq<char>)
    requires
        distinct_paths(s),
    ensures
        switch_of(with_switch(s, path, enabled), path) == enabled,
        has_path(with_switch(s, path, enabled), path),
        other != path ==> switch_of(with_switch(s, path, enabled), other) == switch_of(s, other),
        other != path ==> has_path(with_switch(s, path, enabled), other) == has_path(s, other),
{
    let u = match entry_pos(s, path) {
        Some(i) => s.update(i, (path, enabled)),
        None => s.push((path, enabled)),
    };
    lemma_entry_pos_found(s, path);
    assert(distinct_paths(u)) by {
        assert forall|i: int, j: int| 0 <= i < j < u.len() implies #[trigger] u[i].0 != #[trigger] u[j].0 by {
            match entry_pos(s, path) {
                Some(k) => {
                    if i != k && j != k {
                        assert(s[i].0 != s[j].0);
                    } else if i == k {
                        assert(s[k].0 != s[j].0);
                    } else {
                        assert(s[i].0 != s[k].0);
                    }
                },
                None => {
                    if j < s.len() {
                        assert(s[i].0 != s[j].0);
                    } else {
                        assert(u[j].0 == path);
                        assert(s[i].0 != path);
                    }
                },
            }
        }
    }
    lemma_sorted_switches(u, path);
    lemma_sorted_switches(u, other);
    lemma_switch_of_distinct(u, path);
    lemma_switch_of_distinct(u, other);
    lemma_switch_of_distinct(s, other);
    assert(with_switch(s, path, enabled) == entries_by_path(u));
    match entry_pos(s, path) {
        Some(k) => {
            assert(u[k] == (path, enabled));
            assert(switch_of(u, path) == u[k].1);
            assert(u[k].0 == path);
        },
        None => {
            assert(u[s.len() as int] == (path, enabled));
            assert(switch_of(u, path) == u[s.len() as int].1);
            assert(u[s.len() as int].0 == path);
        },
    }
    if other != path {
        if has_path(s, other) {
            let i = choose|i: int| 0 <= i < s.len() && #[trigger] s[i].0 == other;
            assert(u[i] == s[i]);
            assert(switch_of(u, other) == u[i].1);
            assert(switch_of(s, other) == s[i].1);
        } else {
            assert(!has_path(u, other)) by {
                if has_path(u, other) {
                    let i = choose|i: int| 0 <= i < u.len() && #[trigger] u[i].0 == other;
                    if i < s.len() {
                        assert(u[i] == s[i]);
                    }
                }
            }
        }
    }
}

/// Where `entry_pos` finds an entry, and that none has the path where it finds none.
proof fn lemma_entry_pos_found(s: Seq<(Seq<char>, bool)>, p: Seq<char>)
    ensures
        match entry_pos(s, p) {
            Some(k) => 0 <= k < s.len() && s[k].0 == p,
            None => forall|j: int| 0 <= j < s.len() ==> (#[trigger] s[j]).0 != p,
        },
    decreases s.len(),
{
    if s.len() > 0 && s[0].0 != p {
        lemma_entry_pos_found(s.drop_first(), p);
        match entry_pos(s.drop_first(), p) {
            Some(k) => {
                assert(s[k + 1] == s.drop_first()[k]);
            },
            None => {
                assert forall|j: int| 0 <= j < s.len() implies (#[trigger] s[j]).0 != p by {
                    if j > 0 {
                        assert(s[j] == s.drop_first()[j - 1]);
                    }
                }
            },
        }
    }
}

proof fn lemma_entry_insert_pos_skip(t: Seq<(Seq<char>, bool)>, x: (Seq<char>, bool), i: int)
    requires
        0 <= i <= t.len(),
        forall|j: int| 0 <= j < i ==> entry_le(#[trigger] t[j], x),
    ensures
        entry_insert_pos(t, x) == i + entry_insert_pos(t.skip(i), x),
    decreases i,
{
    if i == 0 {
        assert(t.skip(0) =~= t);
    } else {
        lemma_entry_insert_pos_skip(t.drop_first(), x, i - 1);
        assert(t.drop_first().skip(i - 1) =~= t.skip(i));
    }
}

proof fn lemma_entry_pos_skip(s: Seq<(Seq<char>, bool)>, p: Seq<char>, i: int)
    requires
        0 <= i <= s.len(),
        forall|j: int| 0 <= j < i ==> (#[trigger] s[j]).0 != p,
    ensures
        entry_pos(s, p) == match entry_pos(s.skip(i), p) {
            Some(k) => Some(k + i),
            None => None::<int>,
        },
    decreases i,
{
    if i == 0 {
        assert(s.skip(0) =~= s);
        match entry_pos(s, p) {
            Some(k) => {},
            None => {},
        }
    } else {
        lemma_entry_pos_skip(s.drop_first(), p, i - 1);
        assert(s.drop_first().skip(i - 1) =~= s.skip(i));
    }
}

fn entry_index(entries: &Vec<PromptSkillRegistryEntry>, p: &str) -> (r: Option<usize>)
    ensures
        match entry_pos(entry_views(entries@), p@) {
            Some(k) => r matches Some(x) && x as int == k && 0 <= k < entries@.len(),
            None => r is None,
        },
{
    let ghost ev = entry_views(entries@);
    let mut i: usize = 0;
    while i < entries.len()
        invariant
            i <= entries@.len(),
            ev == entry_views(entries@),
            forall|j: int| 0 <= j < i ==> (#[trigger] ev[j]).0 != p@,
        decreases entries@.len() - i,
    {
        if str_eq(entries[i].source_path.as_str(), p) {
            proof {
                lemma_entry_pos_skip(ev, p@, i as int);
                assert(ev.skip(i as int)[0] == ev[i as int]);
            }
            return Some(i);
        }
        i = i + 1;
    }
    proof {
        lemma_entry_pos_skip(ev, p@, i as int);
        assert(ev.skip(i as int).len() == 0);
    }
    None
}

/// The registry of prompt-skill switches kept in the file at `path`, with
/// the entries that the file holds.
#[derive(Debug)]
pub struct PromptSkillRegistry {
    path: String,
    entries: Vec<PromptSkillRegistryEntry>,
}

impl PromptSkillRegistry {
    pub closed spec fn path_spec(&self) -> Seq<char> {
        self.path@
    }

    pub closed spec fn entries_spec(&self) -> Seq<(Seq<char>, bool)> {
        entry_views(self.entries@)
    }

    /// The user's registry: `prompt_skills/registry.json` in the app's data
    /// directory, holding `entries`.
    pub fn global(app_data_dir: &str, entries: Vec<PromptSkillRegistryEntry>) -> (r: Self)
        ensures
            r.path_spec() == app_data_dir@ + "/prompt_skills/registry.json"@,
            r.entries_spec() == entry_views(entries@),
    {
        PromptSkillRegistry { path: concat2(app_data_dir, "/prompt_skills/registry.json"), entries }
    }

    /// A project's registry: `.rainy-mate/registry/prompt-skills.json` in the
    /// workspace, holding `entries`.
    pub fn project(workspace_path: &str, entries: Vec<PromptSkillRegistryEntry>) -> (r: Self)
        ensures
            r.path_spec() == workspace_path@ + "/.rainy-mate/registry/prompt-skills.json"@,
            r.entries_spec() == entry_views(entries@),
    {
        PromptSkillRegistry {
            path: concat2(workspace_path, "/.rainy-mate/registry/prompt-skills.json"),
            entries,
        }
    }

    pub fn path(&self) -> (r: &str)
        ensures
            r@ == self.path_spec(),
    {
        self.path.as_str()
    }

    /// The entries, in the order the file holds them.
    pub fn get_entries(&self) -> (r: Vec<PromptSkillRegistryEntry>)
        ensures
            entry_views(r@) == self.entries_spec(),
    {
        let mut r: Vec<PromptSkillRegistryEntry> = Vec::new();
        let mut i: usize = 0;
        while i < self.entries.len()
            invariant
                i <= self.entries@.len(),
                entry_views(r@) == entry_views(self.entries@).take(i as int),
            decreases self.entries@.len() - i,
        {
            let e = PromptSkillRegistryEntry {
                source_path: self.entries[i].source_path.clone(),
                all_agents_enabled: self.entries[i].all_agents_enabled,
            };
            proof {
                assert(entry_views(r@.push(e)) =~= entry_views(r@).push(
                    (e.source_path@, e.all_agents_enabled),
                ));
                assert(entry_views(self.entries@).take(i + 1) =~= entry_views(self.entries@).take(
                    i as int,
                ).push(entry_views(self.entries@)[i as int]));
            }
            r.push(e);
            i = i + 1;
        }
        assert(entry_views(self.entries@).take(i as int) =~= entry_views(self.entries@));
        r
    }

    /// Whether the skill at `source_path` is enabled for all agents.
    pub fn all_agents_enabled(&self, source_path: &str) -> (r: bool)
        ensures
            r == switch_of(self.entries_spec(), source_path@),
    {
        let ghost ev = self.entries_spec();
        let mut i: usize = self.entries.len();
        assert(ev.take(i as int) =~= ev);
        while i > 0
            invariant
                i <= self.entries@.len(),
                ev == entry_views(self.entries@),
                switch_of(ev, source_path@) == switch_of(ev.take(i as int), source_path@),
            decreases i,
        {
            let ghost pre = ev.take(i as int);
            assert(pre.drop_last() =~= ev.take(i - 1));
            assert(pre.last() == ev[i - 1]);
            if str_eq(self.entries[i - 1].source_path.as_str(), source_path) {
                return self.entries[i - 1].all_agents_enabled;
            }
            i = i - 1;
        }
        false
    }

    /// Sets the switch of the skill at `source_path`; the entries are then
    /// kept sorted by path.
    pub fn set_all_agents_enabled(&mut self, source_path: &str, enabled: bool)
        ensures
            final(self).entries_spec() == with_switch(old(self).entries_spec(), source_path@, enabled),
            final(self).path_spec() == old(self).path_spec(),
    {
        let ghost ev = self.entries_spec();
        let at = entry_index(&self.entries, source_path);
        let ghost updated = match entry_pos(ev, source_path@) {
            Some(k) => ev.update(k, (source_path@, enabled)),
            None => ev.push((source_path@, enabled)),
        };
        let mut list: Vec<PromptSkillRegistryEntry> = Vec::new();
        std::mem::swap(&mut list, &mut self.entries);
        match at {
            Some(i) => {
                list.set(i, PromptSkillRegistryEntry { source_path: owned(source_path), all_agents_enabled: enabled });
                assert(entry_views(list@) =~= updated);
            },
            None => {
                list.push(PromptSkillRegistryEntry { source_path: owned(source_path), all_agents_enabled: enabled });
                assert(entry_views(list@) =~= updated);
            },
        }
        let mut out: Vec<PromptSkillRegistryEntry> = Vec::new();
        let mut k: usize = 0;
        while k < list.len()
            invariant
                k <= list.len(),
                updated == entry_views(list@),
                entry_views(out@) == entries_by_path(updated.take(k as int)),
            decreases list.len() - k,
        {
            let x = PromptSkillRegistryEntry {
                source_path: list[k].source_path.clone(),
                all_agents_enabled: list[k].all_agents_enabled,
            };
            let ghost xv = (x.source_path@, x.all_agents_enabled);
            let xc = chars_of(x.source_path.as_str());
            let mut p: usize = 0;
            while p < out.len() && lex_le_vec(&chars_of(out[p].source_path.as_str()), &xc)
                invariant
                    p <= out.len(),
                    xc@ == xv.0,
                    forall|j: int| 0 <= j < p ==> entry_le(#[trigger] entry_views(out@)[j], xv),
                decreases out.len() - p,
            {
                p = p + 1;
            }
            proof {
                let t = entry_views(out@);
                lemma_entry_insert_pos_skip(t, xv, p as int);
                if p < out.len() {
                    assert(t.skip(p as int)[0] == t[p as int]);
                }
                assert(entry_insert_pos(t, xv) == p);
                assert(updated.take(k + 1).drop_last() =~= updated.take(k as int));
                assert(updated.take(k + 1).last() == xv);
                assert(entry_views(out@.insert(p as int, x)) =~= t.insert(p as int, xv));
            }
            out.insert(p, x);
            k = k + 1;
        }
        assert(updated.take(k as int) =~= updated);
        self.entries = out;
    }
}

// ───────────────────────────── where the walk looks ─────────────────────────────

/// The directories of a workspace (and of the user's home) that hold skills.
pub open spec fn project_dirs_spec() -> Seq<Seq<char>> {
    seq![
        "skills"@,
        "skills/.curated"@,
        "skills/.experimental"@,
        "skills/.system"@,
        ".agents/skills"@,
        ".codex/skills"@,
        ".cursor/skills"@,
        ".continue/skills"@,
        ".augment/skills"@,
        ".kilocode/skills"@,
        ".kiro/skills"@,
        ".qwen/skills"@,
        ".roo/skills"@,
        ".goose/skills"@,
        ".rainy-mate/skills"@,
    ]
}

pub fn project_dirs() -> (r: Vec<String>)
    ensures
        str_views(r@) == project_dirs_spec(),
{
    let r = vec![
        owned("skills"), owned("skills/.curated"), owned("skills/.experimental"),
        owned("skills/.system"), owned(".agents/skills"),
        owned(".codex/skills"), owned(".cursor/skills"), owned(".continue/skills"),
        owned(".augment/skills"), owned(".kilocode/skills"), owned(".kiro/skills"),
        owned(".qwen/skills"), owned(".roo/skills"), owned(".goose/skills"),
        owned(".rainy-mate/skills"),
    ];
    assert(str_views(r@) =~= project_dirs_spec());
    r
}

/// Directories that the walk never enters.
pub open spec fn ignored_dir_name(name: Seq<char>) -> bool {
    name == ".git"@ || name == "node_modules"@ || name == "target"@ || name == "dist"@
        || name == "build"@ || name == ".next"@
}

/// Whether the walk keeps an entry: every file, and every directory whose
/// name is not ignored.
pub fn keep_entry(is_dir: bool, name: &str) -> (r: bool)
    ensures
        r == (!is_dir || !ignored_dir_name(name@)),
{
    if !is_dir {
        return true;
    }
    !(str_eq(name, ".git") || str_eq(name, "node_modules") || str_eq(name, "target")
        || str_eq(name, "dist") || str_eq(name, "build") || str_eq(name, ".next"))
}

/// The candidate skill directories of a workspace: the workspace itself
/// where a `SKILL.md` stands at its root, then what the walk of the project
/// directories found. `None` where that is nothing: the whole workspace is
/// then walked instead.
pub open spec fn workspace_candidates(workspace_path: Seq<char>, root_skill: bool, found: Seq<Seq<char>>) -> Option<Seq<Seq<char>>> {
    let c = if root_skill { seq![workspace_path] + found } else { found };
    if c.len() == 0 { None } else { Some(c) }
}

pub fn collect_workspace_candidates(workspace_path: &str, root_skill_present: bool, found_in_project_dirs: Vec<String>) -> (r: Option<Vec<String>>)
    ensures
        match r {
            Some(v) => workspace_candidates(workspace_path@, root_skill_present, str_views(found_in_project_dirs@)) == Some(str_views(v@)),
            None => workspace_candidates(workspace_path@, root_skill_present, str_views(found_in_project_dirs@)) is None,
        },
{
    let mut c: Vec<String> = Vec::new();
    if root_skill_present {
        c.push(owned(workspace_path));
    }
    let ghost c0 = str_views(c@);
    let mut i: usize = 0;
    while i < found_in_project_dirs.len()
        invariant
            i <= found_in_project_dirs.len(),
            str_views(c@) == c0 + str_views(found_in_project_dirs@).take(i as int),
        decreases found_in_project_dirs.len() - i,
    {
        let x = found_in_project_dirs[i].clone();
        let ghost before = c@;
        c.push(x);
        assert(c@ == before.push(x));
        assert(x@ == str_views(found_in_project_dirs@)[i as int]);
        assert(str_views(c@) =~= str_views(before).push(x@));
        assert(str_views(found_in_project_dirs@).take(i + 1) =~= str_views(found_in_project_dirs@).take(i as int).push(x@));
        assert(str_views(c@) =~= c0 + str_views(found_in_project_dirs@).take(i + 1));
        i = i + 1;
    }
    assert(str_views(found_in_project_dirs@).take(i as int) =~= str_views(found_in_project_dirs@));
    if root_skill_present {
        assert(c0 =~= seq![workspace_path@]);
    } else {
        assert(c0 =~= Seq::<Seq<char>>::empty());
    }
    if c.len() == 0 {
        None
    } else {
        Some(c)
    }
}

// ───────────────────────────── the discovery service ─────────────────────────────

/// Finds the prompt skills of a workspace and of the user.
#[derive(Debug)]
pub struct PromptSkillDiscoveryService {
    app_data_dir: String,
}

impl PromptSkillDiscoveryService {
    pub closed spec fn app_data_dir_spec(&self) -> Seq<char> {
        self.app_data_dir@
    }

    pub fn new(app_data_dir: String) -> (r: Self)
        ensures
            r.app_data_dir_spec() == app_data_dir@,
    {
        PromptSkillDiscoveryService { app_data_dir }
    }

    pub fn app_data_dir(&self) -> (r: &str)
        ensures
            r@ == self.app_data_dir_spec(),
    {
        self.app_data_dir.as_str()
    }

    /// The skills reported for the candidates that the walk found, in the
    /// order it found them: the first candidate of each path kept, then
    /// sorted by name and path.
    pub fn discover(&self, found: &Vec<DiscoveredPromptSkill>) -> (r: Vec<DiscoveredPromptSkill>)
        requires
            forall|i: int| 0 <= i < found@.len() ==> consistent_report(#[trigger] found@[i]@),
        ensures
            discovered_views(r@) == skill_order(first_of_each_path(discovered_views(found@))),
            forall|i: int| 0 <= i < r@.len() ==> consistent_report(#[trigger] r@[i]@),
    {
        order_discovered(found)
    }

    /// The binding of the skill at `source_path`, freshly parsed as `parsed`,
    /// with the scope that its place gives it.
    pub fn refresh_binding(
        &self,
        workspace_path: Option<&str>,
        source_path: &str,
        parsed: ParsedPromptSkill,
    ) -> (r: PromptSkillBinding)
        ensures
            r.id@ == parsed.id@,
            r.name@ == parsed.name@,
            r.description@ == parsed.description@,
            r.content@ == parsed.body_markdown@,
            r.source_path@ == parsed.source_path@,
            r.source_hash@ == parsed.source_hash@,
            r.scope == binding_scope_spec(
                match workspace_path {
                    Some(w) => Some(w@),
                    None => None,
                },
                source_path@,
                self.app_data_dir_spec(),
            ),
            r.enabled,
    {
        let scope = binding_scope(workspace_path, source_path, self.app_data_dir.as_str());
        let d = DiscoveredPromptSkill::from_parsed(
            parsed,
            scope,
            PromptSkillSourceKind::Direct,
            false,
            unix_seconds(),
        );
        d.to_binding()
    }
}

/// A binding refreshed inside a workspace gets the scope that workspace discovery gives the
/// same path: managed below the workspace's `.rainy-mate` directory, project elsewhere in
/// the workspace; the app's data directory plays no part there.
pub proof fn law_binding_scope_agrees_with_workspace_discovery(
    w: Seq<char>,
    p: Seq<char>,
    app_data_dir: Seq<char>,
)
    requires
        path_starts_with(p, comps(w), is_abs(w)),
    ensures
        binding_scope_spec(Some(w), p, app_data_dir) == workspace_scope_spec(p, w),
        path_starts_with(p, comps(w).push(".rainy-mate"@), is_abs(w)) ==> binding_scope_spec(
            Some(w),
            p,
            app_data_dir,
        ) == PromptSkillScope::MateManaged,
        !path_starts_with(p, comps(w).push(".rainy-mate"@), is_abs(w)) ==> binding_scope_spec(
            Some(w),
            p,
            app_data_dir,
        ) == PromptSkillScope::Project,
{
}

/// Outside any workspace, or outside the workspace it is refreshed in, a binding gets the
/// scope that global discovery gives the same path.
pub proof fn law_binding_scope_outside_workspace_is_global(
    w: Option<Seq<char>>,
    p: Seq<char>,
    app_data_dir: Seq<char>,
)
    requires
        w matches Some(ws) ==> !path_starts_with(p, comps(ws), is_abs(ws)),
    ensures
        binding_scope_spec(w, p, app_data_dir) == global_scope_spec(p, app_data_dir),
{
    if let Some(ws) = w {
        if path_starts_with(p, comps(ws).push(".rainy-mate"@), is_abs(ws)) {
            assert(comps(ws).is_prefix_of(comps(ws).push(".rainy-mate"@)));
            assert(comps(ws).is_prefix_of(comps(p)));
        }
    }
}

} // verus!
