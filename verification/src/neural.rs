//! The desktop node's standing with the cloud: its id, workspace and
//! credentials, when it may register, what clears its registration, when
//! its skill manifest is sent again, how failed requests are summarised and
//! retried. The HTTP requests and the keychain are the caller's part.
use vstd::prelude::*;
use crate::executor::{char_width, utf8_len, utf8_width};
use crate::text::{chars_of, compact, compact_vec, contains_seq, contains_sub, owned, push_all, str_eq, string_of, trim, trim_str};

verus! {

/// The node's standing: the id the cloud gave it (once registered), the
/// workspace it serves, where it runs, and the owner's keys.
#[derive(Debug)]
pub struct NodeMetadata {
    pub node_id: Option<String>,
    pub workspace_id: String,
    pub hostname: String,
    pub platform: String,
    pub platform_key: Option<String>,
    pub user_api_key: Option<String>,
}

pub struct NodeView {
    pub node_id: Option<Seq<char>>,
    pub workspace_id: Seq<char>,
    pub hostname: Seq<char>,
    pub platform: Seq<char>,
    pub platform_key: Option<Seq<char>>,
    pub user_api_key: Option<Seq<char>>,
}

pub open spec fn ov(o: Option<String>) -> Option<Seq<char>> {
    match o {
        Some(s) => Some(s@),
        None => None,
    }
}

impl View for NodeMetadata {
    type V = NodeView;

    open spec fn view(&self) -> NodeView {
        NodeView {
            node_id: ov(self.node_id),
            workspace_id: self.workspace_id@,
            hostname: self.hostname@,
            platform: self.platform@,
            platform_key: ov(self.platform_key),
            user_api_key: ov(self.user_api_key),
        }
    }
}

/// The workspace id of a node that has not been paired yet.
pub open spec fn pending_pairing() -> Seq<char> {
    "pending-pairing"@
}

/// A workspace id that names a real workspace: not blank, not pending.
pub open spec fn paired_workspace(id: Seq<char>) -> bool {
    trim(id).len() > 0 && id != pending_pairing()
}

fn clone_opt(o: &Option<String>) -> (r: Option<String>)
    ensures
        ov(r) == ov(*o),
{
    match o {
        Some(s) => Some(s.clone()),
        None => None,
    }
}

impl NodeMetadata {
    /// A node that is not registered and holds no keys.
    pub fn new(workspace_id: String, hostname: String, platform: String) -> (r: Self)
        ensures
            r@ == (NodeView {
                node_id: None,
                workspace_id: workspace_id@,
                hostname: hostname@,
                platform: platform@,
                platform_key: None,
                user_api_key: None,
            }),
    {
        NodeMetadata { node_id: None, workspace_id, hostname, platform, platform_key: None, user_api_key: None }
    }

    /// Serves another workspace: the node must register again.
    pub fn set_workspace_id(&mut self, workspace_id: String)
        ensures
            final(self)@ == (NodeView { workspace_id: workspace_id@, node_id: None, ..old(self)@ }),
    {
        self.workspace_id = workspace_id;
        self.node_id = None;
    }

    /// Takes the owner's keys: the node must register again.
    pub fn set_credentials(&mut self, platform_key: String, user_api_key: String)
        ensures
            final(self)@ == (NodeView {
                platform_key: Some(platform_key@),
                user_api_key: Some(user_api_key@),
                node_id: None,
                ..old(self)@
            }),
    {
        self.platform_key = Some(platform_key);
        self.user_api_key = Some(user_api_key);
        self.node_id = None;
    }

    /// Forgets the keys and the registration.
    pub fn clear_credentials(&mut self)
        ensures
            final(self)@ == (NodeView { platform_key: None, user_api_key: None, node_id: None, ..old(self)@ }),
    {
        self.platform_key = None;
        self.user_api_key = None;
        self.node_id = None;
    }

    /// Takes the keys of a saved owner bundle, and its workspace where that
    /// is not blank.
    pub fn apply_saved_bundle(&mut self, platform_key: String, user_api_key: String, workspace_id: String)
        ensures
            final(self)@ == (NodeView {
                platform_key: Some(platform_key@),
                user_api_key: Some(user_api_key@),
                workspace_id: if trim(workspace_id@).len() > 0 { workspace_id@ } else { old(self)@.workspace_id },
                ..old(self)@
            }),
    {
        self.platform_key = Some(platform_key);
        self.user_api_key = Some(user_api_key);
        if chars_of(trim_str(workspace_id.as_str()).as_str()).len() > 0 {
            self.workspace_id = workspace_id;
        }
    }

    /// Takes keys kept one by one (the older way): only where both are
    /// there, with the workspace where one is kept. Says whether it took them.
    pub fn apply_legacy_keys(&mut self, platform_key: Option<String>, user_api_key: Option<String>, workspace_id: Option<String>) -> (r: bool)
        ensures
            r == (platform_key is Some && user_api_key is Some),
            r ==> final(self)@ == (NodeView {
                platform_key: ov(platform_key),
                user_api_key: ov(user_api_key),
                workspace_id: match workspace_id {
                    Some(w) => w@,
                    None => old(self)@.workspace_id,
                },
                ..old(self)@
            }),
            !r ==> final(self)@ == old(self)@,
    {
        match (platform_key, user_api_key) {
            (Some(pk), Some(uk)) => {
                self.platform_key = Some(pk);
                self.user_api_key = Some(uk);
                match workspace_id {
                    Some(w) => {
                        self.workspace_id = w;
                    },
                    None => {},
                }
                true
            },
            _ => false,
        }
    }

    pub fn has_credentials(&self) -> (r: bool)
        ensures
            r == (self@.platform_key is Some && self@.user_api_key is Some),
    {
        self.platform_key.is_some() && self.user_api_key.is_some()
    }

    pub fn is_registered(&self) -> (r: bool)
        ensures
            r == self@.node_id is Some,
    {
        self.node_id.is_some()
    }

    /// The workspace, trimmed, where it is a real one.
    pub fn get_workspace_id(&self) -> (r: Option<String>)
        ensures
            match r {
                Some(w) => w@ == trim(self@.workspace_id) && trim(self@.workspace_id).len() > 0 && trim(self@.workspace_id) != pending_pairing(),
                None => trim(self@.workspace_id).len() == 0 || trim(self@.workspace_id) == pending_pairing(),
            },
    {
        let id = trim_str(self.workspace_id.as_str());
        if chars_of(id.as_str()).len() == 0 || str_eq(id.as_str(), "pending-pairing") {
            None
        } else {
            Some(id)
        }
    }

    pub fn get_credentials(&self) -> (r: Option<(String, String)>)
        ensures
            match r {
                Some((pk, uk)) => self@.platform_key == Some(pk@) && self@.user_api_key == Some(uk@),
                None => self@.platform_key is None || self@.user_api_key is None,
            },
    {
        match (&self.platform_key, &self.user_api_key) {
            (Some(pk), Some(uk)) => Some((pk.clone(), uk.clone())),
            _ => None,
        }
    }

    /// A node may register once it holds both keys and serves a paired workspace.
    pub fn can_attempt_registration(&self) -> (r: bool)
        ensures
            r == (self@.platform_key is Some && self@.user_api_key is Some && paired_workspace(self@.workspace_id)),
    {
        self.platform_key.is_some() && self.user_api_key.is_some()
            && chars_of(trim_str(self.workspace_id.as_str()).as_str()).len() > 0
            && !str_eq(self.workspace_id.as_str(), "pending-pairing")
    }

    /// The node id and platform key that authenticated requests carry.
    pub fn get_auth_context(&self) -> (r: Result<(String, String), String>)
        ensures
            match (self@.node_id, self@.platform_key) {
                (None, _) => r matches Err(e) && e@ == "Node not registered"@,
                (Some(_), None) => r matches Err(e) && e@ == "Not authenticated"@,
                (Some(n), Some(k)) => r matches Ok((a, b)) && a@ == n && b@ == k,
            },
    {
        let node_id = match &self.node_id {
            None => return Err(owned("Node not registered")),
            Some(n) => n.clone(),
        };
        match &self.platform_key {
            None => Err(owned("Not authenticated")),
            Some(k) => Ok((node_id, k.clone())),
        }
    }

    pub fn get_node_id(&self) -> (r: Result<String, String>)
        ensures
            match self@.node_id {
                None => r matches Err(e) && e@ == "Node not registered"@,
                Some(n) => r matches Ok(x) && x@ == n,
            },
    {
        match &self.node_id {
            None => Err(owned("Node not registered")),
            Some(n) => Ok(n.clone()),
        }
    }

    pub fn clear_node_id(&mut self)
        ensures
            final(self)@ == (NodeView { node_id: None, ..old(self)@ }),
    {
        self.node_id = None;
    }

    /// The cloud answered `status`: a 401, 404 or 409 means it no longer
    /// knows this node, which must register again.
    pub fn reset_node_on_status(&mut self, status: u16)
        ensures
            final(self)@ == if forgets_node(status) { NodeView { node_id: None, ..old(self)@ } } else { old(self)@ },
    {
        if status == 401 || status == 404 || status == 409 {
            self.node_id = None;
        }
    }

    /// Records the id the cloud gave the node.
    pub fn record_registration(&mut self, node_id: String)
        ensures
            final(self)@ == (NodeView { node_id: Some(node_id@), ..old(self)@ }),
    {
        self.node_id = Some(node_id);
    }
}

/// How a registration starts.
#[derive(Debug)]
pub enum RegisterStart {
    /// The node is registered already: its id.
    AlreadyRegistered(String),
    /// Ask the cloud, with this platform key, for the node's workspace.
    Proceed { platform_key: String, workspace_id: String, hostname: String, platform: String },
}

impl NodeMetadata {
    /// What a registration starts from: without a platform key it is
    /// refused; a node that has an id keeps it; else the cloud is asked.
    pub fn register_start(&self) -> (r: Result<RegisterStart, String>)
        ensures
            self@.platform_key is None ==> (r matches Err(e) && e@ == "Not authenticated: Platform Key required"@),
            self@.platform_key matches Some(k) ==> match self@.node_id {
                Some(id) => r matches Ok(RegisterStart::AlreadyRegistered(x)) && x@ == id,
                None => r matches Ok(RegisterStart::Proceed { platform_key, workspace_id, hostname, platform })
                    && platform_key@ == k && workspace_id@ == self@.workspace_id
                    && hostname@ == self@.hostname && platform@ == self@.platform,
            },
    {
        let platform_key = match &self.platform_key {
            None => return Err(owned("Not authenticated: Platform Key required")),
            Some(k) => k.clone(),
        };
        match &self.node_id {
            Some(id) => Ok(RegisterStart::AlreadyRegistered(id.clone())),
            None => Ok(RegisterStart::Proceed {
                platform_key,
                workspace_id: self.workspace_id.clone(),
                hostname: self.hostname.clone(),
                platform: self.platform.clone(),
            }),
        }
    }

    /// The cloud answered a registration: on success the node takes its id
    /// and the manifest with `signature` counts as sent; else its message is
    /// the error and nothing changes.
    pub fn finish_registration(
        &mut self,
        manifest: &mut ManifestState,
        success: bool,
        node_id: String,
        message: String,
        signature: String,
    ) -> (r: Result<String, String>)
        ensures
            success ==> (r matches Ok(id) && id@ == node_id@
                && final(self)@ == (NodeView { node_id: Some(node_id@), ..old(self)@ })
                && ov(final(manifest).last_hash) == Some(signature@) && !final(manifest).dirty),
            !success ==> (r matches Err(e) && e@ == message@ && final(self)@ == old(self)@
                && ov(final(manifest).last_hash) == ov(old(manifest).last_hash) && final(manifest).dirty == old(manifest).dirty),
    {
        if success {
            let out = node_id.clone();
            self.node_id = Some(node_id);
            manifest.record_sent(signature);
            Ok(out)
        } else {
            Err(message)
        }
    }

    /// The platform key that the auth-context request carries.
    pub fn sync_key(&self) -> (r: Result<String, String>)
        ensures
            match self@.platform_key {
                None => r matches Err(e) && e@ == "Not authenticated: Platform Key required"@,
                Some(k) => r matches Ok(x) && x@ == k,
            },
    {
        match &self.platform_key {
            None => Err(owned("Not authenticated: Platform Key required")),
            Some(k) => Ok(k.clone()),
        }
    }

    /// The cloud's auth context: a refusal is an error; a workspace other
    /// than the node's moves the node there (it must register again) and is
    /// handed back; the same workspace changes nothing.
    pub fn apply_auth_context(&mut self, success: bool, server_workspace_id: String) -> (r: Result<Option<String>, String>)
        ensures
            !success ==> (r matches Err(e) && e@ == "Auth context sync failed: success=false"@ && final(self)@ == old(self)@),
            success && server_workspace_id@ != old(self)@.workspace_id ==> (r matches Ok(Some(w)) && w@ == server_workspace_id@
                && final(self)@ == (NodeView { workspace_id: server_workspace_id@, node_id: None, ..old(self)@ })),
            success && server_workspace_id@ == old(self)@.workspace_id ==> (r matches Ok(None) && final(self)@ == old(self)@),
    {
        if !success {
            return Err(owned("Auth context sync failed: success=false"));
        }
        match workspace_after_sync(self.workspace_id.as_str(), server_workspace_id.as_str()) {
            Some(w) => {
                self.set_workspace_id(server_workspace_id);
                Ok(Some(w))
            },
            None => Ok(None),
        }
    }

    /// The cloud answered a disconnect with `status`: a success, or a status
    /// by which it no longer knows the node, clears the node's id and the
    /// disconnect succeeds; any other status fails and changes nothing.
    pub fn finish_disconnect(&mut self, status: u16) -> (ok: bool)
        ensures
            ok == ((200 <= status <= 299) || forgets_node(status)),
            ok ==> final(self)@ == (NodeView { node_id: None, ..old(self)@ }),
            !ok ==> final(self)@ == old(self)@,
    {
        if (200 <= status && status <= 299) || status == 401 || status == 404 || status == 409 {
            self.node_id = None;
            true
        } else {
            false
        }
    }
}

/// Statuses by which the cloud says it no longer knows the node.
pub open spec fn forgets_node(status: u16) -> bool {
    status == 401 || status == 404 || status == 409
}

/// The workspace that an auth-context answer moves the node to, where it
/// differs from the local one.
pub fn workspace_after_sync(local: &str, server: &str) -> (r: Option<String>)
    ensures
        if local@ == server@ { r is None } else { r matches Some(w) && w@ == server@ },
{
    if str_eq(local, server) {
        None
    } else {
        Some(owned(server))
    }
}

// ───────────────────────────── the skill manifest ─────────────────────────────

/// What the node last sent of its skill manifest.
#[derive(Debug)]
pub struct ManifestState {
    pub last_hash: Option<String>,
    pub dirty: bool,
}

impl ManifestState {
    pub fn new() -> (r: Self)
        ensures
            r.last_hash is None,
            !r.dirty,
    {
        ManifestState { last_hash: None, dirty: false }
    }

    /// A heartbeat carries the manifest where it changed (its signature
    /// differs from the last one sent) or was marked dirty.
    pub fn include_manifest(&self, hash: &str) -> (r: bool)
        ensures
            r == (self.dirty || ov(self.last_hash) != Some(hash@)),
    {
        match &self.last_hash {
            Some(h) => self.dirty || !str_eq(h.as_str(), hash),
            None => true,
        }
    }

    /// Records that the manifest with signature `hash` was sent.
    pub fn record_sent(&mut self, hash: String)
        ensures
            ov(final(self).last_hash) == Some(hash@),
            !final(self).dirty,
    {
        self.last_hash = Some(hash);
        self.dirty = false;
    }
}

// ───────────────────────────── failed requests ─────────────────────────────

pub open spec fn html_error(c: Seq<char>) -> bool {
    contains_seq(c, "<html"@) || contains_seq(c, "<!doctype"@)
}

/// Where a text is cut to its first 220 bytes: the number of characters
/// that make up exactly 220 bytes.
pub open spec fn byte_cut(c: Seq<char>) -> int {
    choose|k: int| 0 <= k <= c.len() && #[trigger] utf8_len(c.take(k)) == 220
}

/// An error body as the node reports it: its words joined by single spaces,
/// `empty error body` where it has none, a fixed note for an HTML page, and
/// its first 220 bytes and `...` where it is longer.
pub open spec fn error_summary(raw: Seq<char>) -> Seq<char> {
    let c = compact(raw);
    if c.len() == 0 {
        "empty error body"@
    } else if html_error(c) {
        "temporary upstream HTML error response"@
    } else if utf8_len(c) > 220 {
        c.take(byte_cut(c)) + "..."@
    } else {
        c
    }
}

/// The body can be cut at 220 bytes: the 220th byte ends a character
/// (the summary slices the text there).
pub open spec fn cuttable(raw: Seq<char>) -> bool {
    let c = compact(raw);
    (c.len() > 0 && !html_error(c) && utf8_len(c) > 220) ==> exists|k: int| 0 <= k <= c.len() && #[trigger] utf8_len(c.take(k)) == 220
}

proof fn lemma_utf8_take_step(s: Seq<char>, k: int)
    requires
        0 <= k < s.len(),
    ensures
        utf8_len(s.take(k + 1)) == utf8_len(s.take(k)) + utf8_width(s[k]),
{
    assert(s.take(k + 1).drop_last() =~= s.take(k));
}

/// Longer prefixes are strictly longer in bytes.
proof fn lemma_utf8_take_strict(s: Seq<char>, i: int, j: int)
    requires
        0 <= i < j <= s.len(),
    ensures
        utf8_len(s.take(i)) < utf8_len(s.take(j)),
{
    crate::executor::lemma_utf8_len_monotone(s, i, j - 1);
    lemma_utf8_take_step(s, j - 1);
}

pub fn summarize_http_error_body(raw: &str) -> (r: String)
    requires
        cuttable(raw@),
    ensures
        r@ == error_summary(raw@),
{
    let c = compact_vec(&chars_of(raw));
    if c.len() == 0 {
        let r = owned("empty error body");
        return r;
    }
    if contains_sub(&c, &chars_of("<html")) || contains_sub(&c, &chars_of("<!doctype")) {
        let r = owned("temporary upstream HTML error response");
        return r;
    }
    let mut bytes: usize = 0;
    let mut k: usize = 0;
    while k < c.len() && bytes < 221
        invariant
            k <= c@.len(),
            bytes == utf8_len(c@.take(k as int)),
            bytes <= 224,
        decreases c@.len() - k,
    {
        proof {
            lemma_utf8_take_step(c@, k as int);
        }
        bytes = bytes + char_width(c[k]);
        k = k + 1;
    }
    proof {
        assert(c@.take(c@.len() as int) =~= c@);
        if bytes <= 220 {
            crate::executor::lemma_utf8_len_monotone(c@, k as int, c@.len() as int);
        }
    }
    if bytes <= 220 {
        let r = string_of(c.as_slice());
        return r;
    }
    proof {
        crate::executor::lemma_utf8_len_monotone(c@, k as int, c@.len() as int);
    }
    // More than 220 bytes: the cut at 220 bytes falls on a character boundary.
    let ghost cut = byte_cut(c@);
    let mut m: usize = 0;
    let mut b: usize = 0;
    while b < 220
        invariant
            m <= c@.len(),
            b == utf8_len(c@.take(m as int)),
            b <= 220,
            0 <= cut <= c@.len(),
            utf8_len(c@.take(cut)) == 220,
            m <= cut,
        decreases 220 - b,
    {
        proof {
            if m == cut {
                assert(false);
            }
            lemma_utf8_take_step(c@, m as int);
            crate::executor::lemma_utf8_len_monotone(c@, m + 1, cut);
        }
        b = b + char_width(c[m]);
        m = m + 1;
    }
    proof {
        if m < cut {
            lemma_utf8_take_strict(c@, m as int, cut);
        }
    }
    let mut out = crate::text::slice_vec(&c, 0, m);
    assert(out@ =~= c@.take(cut));
    push_all(&mut out, &chars_of("..."));
    string_of(out.as_slice())
}

/// Statuses that a progress report retries: server errors.
pub open spec fn server_error(status: u16) -> bool {
    500 <= status <= 599
}

/// Whether a progress report tries again after attempt `attempt` failed:
/// a network failure or a server error, before the third attempt.
pub fn progress_retries(status: Option<u16>, attempt: usize) -> (r: bool)
    ensures
        r == (attempt < 3 && match status {
            None => true,
            Some(s) => server_error(s),
        }),
{
    if attempt >= 3 {
        return false;
    }
    match status {
        None => true,
        Some(s) => 500 <= s && s <= 599,
    }
}

/// The pause before the next attempt: 100 ms, then 200 ms.
pub fn progress_backoff_ms(attempt: usize) -> (r: u64)
    requires
        1 <= attempt <= 2,
    ensures
        r == if attempt == 1 { 100u64 } else { 200u64 },
{
    if attempt == 1 { 100 } else { 200 }
}

} // verus!
