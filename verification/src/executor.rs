//! Decisions of the skill executor that run before any tool does its work:
//! the workspace tool access policy and its fingerprint, the shell allowlist,
//! the output cap, the policy-version floor and the routing of a command to a
//! skill.
use vstd::prelude::*;
use crate::text::{
    chars_of, chars_of_all, concat3, owned, push_all, str_eq, str_views, string_of, vec_eq, views,
};
use crate::order::{sort_strings, sorted_texts};
use crate::digest::{hash_text, sha256_hex};

verus! {

/// Outcome of a tool call as the runtime reports it.
#[derive(Clone, Debug)]
pub struct CommandResult {
    pub success: bool,
    pub output: Option<String>,
    pub error: Option<String>,
    pub exit_code: Option<i32>,
}

/// A failed call with the message `msg` and exit code 1.
pub fn error_result(msg: &str) -> (r: CommandResult)
    ensures
        !r.success,
        r.output is None,
        r.error matches Some(e) && e@ == msg@,
        r.exit_code == Some(1i32),
{
    CommandResult { success: false, output: None, error: Some(owned(msg)), exit_code: Some(1) }
}

// ───────────────────────────── tool access policy ─────────────────────────────

/// Per-workspace tool access policy.
#[derive(Clone, Debug)]
pub struct ToolAccessPolicy {
    pub enabled: bool,
    /// `allowlist` admits only the tools in `allow`; any other mode admits
    /// every tool that `deny` does not name.
    pub mode: String,
    pub allow: Vec<String>,
    pub deny: Vec<String>,
}

pub struct ToolPolicyView {
    pub enabled: bool,
    pub mode: Seq<char>,
    pub allow: Seq<Seq<char>>,
    pub deny: Seq<Seq<char>>,
}

impl View for ToolAccessPolicy {
    type V = ToolPolicyView;

    open spec fn view(&self) -> ToolPolicyView {
        ToolPolicyView {
            enabled: self.enabled,
            mode: self.mode@,
            allow: str_views(self.allow@),
            deny: str_views(self.deny@),
        }
    }
}

impl ToolAccessPolicy {
    pub fn copy(&self) -> (r: Self)
        ensures
            r@ == self@,
    {
        ToolAccessPolicy {
            enabled: self.enabled,
            mode: self.mode.clone(),
            allow: crate::text::copy_strings(&self.allow),
            deny: crate::text::copy_strings(&self.deny),
        }
    }
}

pub open spec fn names(v: Seq<Seq<char>>, m: Seq<char>) -> bool {
    exists|k: int| 0 <= k < v.len() && #[trigger] v[k] == m
}

/// Deny-first admission of `method` under `policy`; no policy admits everything.
pub open spec fn tool_allowed(method: Seq<char>, policy: Option<ToolAccessPolicy>) -> bool {
    match policy {
        None => true,
        Some(p) => {
            if !p.enabled {
                false
            } else if names(str_views(p.deny@), method) {
                false
            } else if p.mode@ == "allowlist"@ {
                names(str_views(p.allow@), method)
            } else {
                true
            }
        },
    }
}

fn names_exec(v: &Vec<String>, m: &str) -> (r: bool)
    ensures
        r == names(str_views(v@), m@),
{
    let mut i: usize = 0;
    while i < v.len()
        invariant
            i <= v.len(),
            forall|k: int| 0 <= k < i ==> #[trigger] str_views(v@)[k] != m@,
        decreases v.len() - i,
    {
        if str_eq(v[i].as_str(), m) {
            assert(str_views(v@)[i as int] == m@);
            return true;
        }
        i = i + 1;
    }
    false
}

/// Is `method` admitted by the workspace tool access policy?
pub fn is_tool_allowed(method: &str, policy: Option<&ToolAccessPolicy>) -> (r: bool)
    ensures
        r == tool_allowed(
            method@,
            match policy {
                Some(p) => Some(*p),
                None => None,
            },
        ),
{
    let p = match policy {
        None => return true,
        Some(p) => p,
    };
    if !p.enabled {
        return false;
    }
    if names_exec(&p.deny, method) {
        return false;
    }
    if str_eq(p.mode.as_str(), "allowlist") {
        return names_exec(&p.allow, method);
    }
    true
}

/// The text that `serde_json` writes for the object with the keys
/// `enabled`, `mode`, `allow` and `deny` bound to these values (its map keeps
/// keys in sorted order; the text is compact).
pub uninterp spec fn policy_json(enabled: bool, mode: Seq<char>, allow: Seq<Seq<char>>, deny: Seq<Seq<char>>) -> Seq<char>;

/// Builds the policy object as a `serde_json::Value` (a `Map` with the four
/// keys) and writes it with `Value::to_string`. Its text is named by
/// `policy_json`: it depends on the four values alone.
#[verifier::external_body]
fn policy_json_text(enabled: bool, mode: &str, allow: &Vec<String>, deny: &Vec<String>) -> (r: String)
    ensures
        r@ == policy_json(enabled, mode@, str_views(allow@), str_views(deny@)),
{
    let mut m = serde_json::Map::new();
    m.insert("enabled".to_string(), serde_json::Value::Bool(enabled));
    m.insert("mode".to_string(), serde_json::Value::String(mode.to_string()));
    m.insert("allow".to_string(), serde_json::Value::from(allow.clone()));
    m.insert("deny".to_string(), serde_json::Value::from(deny.clone()));
    serde_json::Value::Object(m).to_string()
}

/// Canonical JSON text of a policy: allow and deny sorted.
pub open spec fn canonical_policy(p: ToolAccessPolicy) -> Seq<char> {
    policy_json(p.enabled, p.mode@, sorted_texts(str_views(p.allow@)), sorted_texts(str_views(p.deny@)))
}

/// Fingerprint of a policy: lowercase hex SHA-256 of its canonical JSON text.
pub open spec fn policy_fingerprint(p: ToolAccessPolicy) -> Seq<char> {
    sha256_hex(canonical_policy(p))
}

fn canonical_policy_text(p: &ToolAccessPolicy) -> (r: String)
    ensures
        r@ == canonical_policy(*p),
{
    let allow = sort_strings(&p.allow);
    let deny = sort_strings(&p.deny);
    policy_json_text(p.enabled, p.mode.as_str(), &allow, &deny)
}

/// Fingerprint of a tool access policy, independent of the order of `allow` and `deny`.
pub fn hash_tool_policy(policy: &ToolAccessPolicy) -> (r: String)
    ensures
        r@ == policy_fingerprint(*policy),
        r@.len() == 64,
        crate::digest::lower_hex_text(r@),
{
    let text = canonical_policy_text(policy);
    hash_text(text.as_str())
}

/// The fingerprint depends on what the policy admits, not on how its lists are ordered.
pub proof fn law_fingerprint_ignores_list_order(a: ToolAccessPolicy, b: ToolAccessPolicy)
    requires
        a.enabled == b.enabled,
        a.mode@ == b.mode@,
        str_views(a.allow@).to_multiset() == str_views(b.allow@).to_multiset(),
        str_views(a.deny@).to_multiset() == str_views(b.deny@).to_multiset(),
    ensures
        policy_fingerprint(a) == policy_fingerprint(b),
{
    crate::order::lemma_sorted_texts_permutation(str_views(a.allow@), str_views(b.allow@));
    crate::order::lemma_sorted_texts_permutation(str_views(a.deny@), str_views(b.deny@));
}

/// Deny wins over allow: a tool that the deny list names is refused whatever
/// the mode and the allow list say, and a disabled policy refuses every tool.
pub proof fn law_deny_first(method: Seq<char>, p: ToolAccessPolicy)
    ensures
        names(str_views(p.deny@), method) ==> !tool_allowed(method, Some(p)),
        !p.enabled ==> !tool_allowed(method, Some(p)),
{
}

// ───────────────────────────── shell allowlist ─────────────────────────────

/// Commands that `execute_command` may start.
pub open spec fn shell_command_allowed(c: Seq<char>) -> bool {
    c == "npm"@ || c == "pnpm"@ || c == "bun"@ || c == "cargo"@ || c == "git"@ || c == "ls"@ || c
        == "grep"@ || c == "echo"@ || c == "cat"@
}

/// Is `command` on the shell allowlist?
pub fn is_allowed_shell_command(command: &str) -> (r: bool)
    ensures
        r == shell_command_allowed(command@),
{
    str_eq(command, "npm") || str_eq(command, "pnpm") || str_eq(command, "bun") || str_eq(
        command,
        "cargo",
    ) || str_eq(command, "git") || str_eq(command, "ls") || str_eq(command, "grep") || str_eq(
        command,
        "echo",
    ) || str_eq(command, "cat")
}

// ───────────────────────────── output cap ─────────────────────────────

/// Cap on the bytes of tool output returned to the model.
pub const MAX_TOOL_OUTPUT_BYTES: usize = 49152;

/// Bytes of the UTF-8 encoding of `c`.
pub open spec fn utf8_width(c: char) -> nat {
    let u = c as u32;
    if u < 0x80 {
        1
    } else if u < 0x800 {
        2
    } else if u < 0x10000 {
        3
    } else {
        4
    }
}

/// Bytes of the UTF-8 encoding of `s`.
pub open spec fn utf8_len(s: Seq<char>) -> nat
    decreases s.len(),
{
    if s.len() == 0 {
        0
    } else {
        utf8_len(s.drop_last()) + utf8_width(s.last())
    }
}

pub proof fn lemma_utf8_len_monotone(s: Seq<char>, i: int, j: int)
    requires
        0 <= i <= j <= s.len(),
    ensures
        utf8_len(s.take(i)) <= utf8_len(s.take(j)),
    decreases j - i,
{
    if i < j {
        lemma_utf8_len_monotone(s, i, j - 1);
        assert(s.take(j).drop_last() =~= s.take(j - 1));
    }
}

pub fn char_width(c: char) -> (r: usize)
    ensures
        r == utf8_width(c),
        1 <= r <= 4,
{
    let u = c as u32;
    if u < 0x80 {
        1
    } else if u < 0x800 {
        2
    } else if u < 0x10000 {
        3
    } else {
        4
    }
}

pub open spec fn truncation_note() -> Seq<char> {
    "\n\n[TRUNCATED: output exceeded tool limit]"@
}

/// Output within the cap is returned whole.  Longer output keeps the longest
/// proper prefix of whole characters that fits in the cap, then a note.
pub open spec fn truncated_output(s: Seq<char>, r: Seq<char>) -> bool {
    if utf8_len(s) <= MAX_TOOL_OUTPUT_BYTES {
        r == s
    } else {
        exists|k: int|
            0 <= k < s.len() && utf8_len(s.take(k)) <= MAX_TOOL_OUTPUT_BYTES && (k + 1 < s.len()
                ==> utf8_len(s.take(k + 1)) > MAX_TOOL_OUTPUT_BYTES) && r == s.take(k)
                + truncation_note()
    }
}

/// Caps tool output at `MAX_TOOL_OUTPUT_BYTES` bytes.
pub fn truncate_output(input: &str) -> (r: String)
    ensures
        truncated_output(input@, r@),
{
    let v = chars_of(input);
    let n = v.len();
    // bytes before character i
    let mut offset: usize = 0;
    let mut i: usize = 0;
    // largest i seen so far with offset(i) <= cap
    let mut cut_chars: usize = 0;
    assert(v@.take(0) =~= seq![]);
    while i < n && offset <= MAX_TOOL_OUTPUT_BYTES
        invariant
            i <= n == v@.len(),
            offset == utf8_len(v@.take(i as int)),
            offset <= MAX_TOOL_OUTPUT_BYTES + 4,
            cut_chars <= i,
            i > 0 ==> cut_chars == i - 1,
            i > 0 ==> utf8_len(v@.take(cut_chars as int)) <= MAX_TOOL_OUTPUT_BYTES,
        decreases n - i,
    {
        cut_chars = i;
        let w = char_width(v[i]);
        proof {
            assert(v@.take(i + 1).drop_last() =~= v@.take(i as int));
        }
        offset = offset + w;
        i = i + 1;
    }
    if i == n && offset <= MAX_TOOL_OUTPUT_BYTES {
        assert(v@.take(n as int) =~= v@);
        return string_of(v.as_slice());
    }
    proof {
        assert(v@.take(n as int) =~= v@);
        if i == n {
            // whole text exceeds the cap
        } else {
            lemma_utf8_len_monotone(v@, i as int, n as int);
        }
        // offset(i) > cap, and i >= 1 since offset(0) == 0
        assert(i >= 1);
        assert(cut_chars + 1 == i);
        assert(utf8_len(v@.take(cut_chars + 1)) > MAX_TOOL_OUTPUT_BYTES);
    }
    let mut out = crate::text::slice_vec(&v, 0, cut_chars);
    let note = chars_of("\n\n[TRUNCATED: output exceeded tool limit]");
    push_all(&mut out, &note);
    proof {
        assert(v@.subrange(0, cut_chars as int) =~= v@.take(cut_chars as int));
        assert(out@ == v@.take(cut_chars as int) + truncation_note());
    }
    string_of(out.as_slice())
}


// ───────────────────────────── running commands ─────────────────────────────

/// The refusal of a command that the shell allowlist does not hold.
pub fn command_not_allowed(command: &str) -> (r: CommandResult)
    ensures
        !r.success,
        r.output is None,
        r.error matches Some(e) && e@ == "Command '"@ + command@ + "' is not allowed"@,
        r.exit_code == Some(1i32),
{
    let m = crate::text::concat3("Command '", command, "' is not allowed");
    error_result(m.as_str())
}

/// The result of a command that ran: its standard output and error joined
/// by a newline and trimmed, capped; on failure the capped error text as
/// well; its exit code, 1 where it has none (killed by a signal).
pub fn command_outcome(success: bool, code: Option<i32>, stdout: &str, stderr: &str) -> (r: CommandResult)
    ensures
        r.success == success,
        r.output matches Some(o) && truncated_output(crate::text::trim(stdout@ + "\n"@ + stderr@), o@),
        success ==> r.error is None,
        !success ==> (r.error matches Some(e) && truncated_output(stderr@, e@)),
        r.exit_code == Some(match code {
            Some(c) => c,
            None => 1i32,
        }),
{
    let combined = crate::text::trim_str(crate::text::concat3(stdout, "\n", stderr).as_str());
    CommandResult {
        success,
        output: Some(truncate_output(combined.as_str())),
        error: if !success { Some(truncate_output(stderr)) } else { None },
        exit_code: Some(match code {
            Some(c) => c,
            None => 1i32,
        }),
    }
}
} // verus!
