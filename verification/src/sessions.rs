//! Agent sessions as the desktop shell shows them: the table of active
//! sessions, the titles given to sessions that have none, the recent chats
//! of the native shell, the quick-delegate busy flag, and the grants that let
//! a remote connector work in a workspace for a while.
use vstd::prelude::*;
use crate::memory::{to_lowercase, unicode_lowercase};
use crate::paths::comps;
use crate::text::{
    chars_of, compact, compact_vec, owned, slice_vec, str_eq, string_of, take_chars, take_vec,
    trim, trim_str, trim_vec, views,
};

verus! {

// ───────────────────────────── active sessions ─────────────────────────────

/// Where a session was started.
#[derive(Debug)]
pub enum SessionSource {
    Local,
    NativeModal,
    Remote { connector_id: String, session_peer: String },
}

impl SessionSource {
    pub open spec fn label_spec(&self) -> Seq<char> {
        match self {
            SessionSource::Local => "local"@,
            SessionSource::NativeModal => "native_modal"@,
            SessionSource::Remote { .. } => "remote"@,
        }
    }
}

/// A session as the frontend lists it.
#[derive(Debug)]
pub struct ActiveSessionInfo {
    pub chat_id: String,
    pub run_id: String,
    pub source: String,
    pub connector_id: Option<String>,
    pub elapsed_secs: u64,
}

/// A running session: where it came from, when it started (seconds on the
/// caller's monotonic clock), its run and its workspace.
#[derive(Debug)]
pub struct ActiveSession {
    pub source: SessionSource,
    pub started_at_secs: u64,
    pub run_id: String,
    pub workspace_id: String,
}

impl SessionSource {
    pub fn copy(&self) -> (r: Self)
        ensures
            r.label_spec() == self.label_spec(),
            conn_of(r) == conn_of(*self),
    {
        match self {
            SessionSource::Local => SessionSource::Local,
            SessionSource::NativeModal => SessionSource::NativeModal,
            SessionSource::Remote { connector_id, session_peer } => SessionSource::Remote {
                connector_id: connector_id.clone(),
                session_peer: session_peer.clone(),
            },
        }
    }
}

impl ActiveSession {
    pub fn copy(&self) -> (r: Self)
        ensures
            r.source.label_spec() == self.source.label_spec(),
            conn_of(r.source) == conn_of(self.source),
            r.started_at_secs == self.started_at_secs,
            r.run_id@ == self.run_id@,
            r.workspace_id@ == self.workspace_id@,
    {
        ActiveSession {
            source: self.source.copy(),
            started_at_secs: self.started_at_secs,
            run_id: self.run_id.clone(),
            workspace_id: self.workspace_id.clone(),
        }
    }
}

pub struct SessionRowView {
    pub chat_id: Seq<char>,
    pub label: Seq<char>,
    pub connector_id: Option<Seq<char>>,
    pub started_at_secs: u64,
    pub run_id: Seq<char>,
    pub workspace_id: Seq<char>,
}

pub open spec fn row_view(chat_id: String, s: ActiveSession) -> SessionRowView {
    SessionRowView {
        chat_id: chat_id@,
        label: s.source.label_spec(),
        connector_id: conn_of(s.source),
        started_at_secs: s.started_at_secs,
        run_id: s.run_id@,
        workspace_id: s.workspace_id@,
    }
}

pub open spec fn conn_of(s: SessionSource) -> Option<Seq<char>> {
    match s {
        SessionSource::Remote { connector_id, .. } => Some(connector_id@),
        _ => None,
    }
}

pub open spec fn rows_view(s: Seq<(String, ActiveSession)>) -> Seq<SessionRowView> {
    s.map_values(|e: (String, ActiveSession)| row_view(e.0, e.1))
}

pub open spec fn has_chat(rows: Seq<SessionRowView>, chat_id: Seq<char>) -> bool {
    exists|i: int| 0 <= i < rows.len() && (#[trigger] rows[i]).chat_id == chat_id
}

/// The rows without those of `chat_id`.
pub open spec fn without_chat(rows: Seq<SessionRowView>, chat_id: Seq<char>) -> Seq<SessionRowView>
    decreases rows.len(),
{
    if rows.len() == 0 {
        seq![]
    } else if rows.last().chat_id == chat_id {
        without_chat(rows.drop_last(), chat_id)
    } else {
        without_chat(rows.drop_last(), chat_id).push(rows.last())
    }
}

/// The run and workspace of the first row of `chat_id`, empty where there is none.
pub open spec fn run_of(rows: Seq<SessionRowView>, chat_id: Seq<char>) -> (Seq<char>, Seq<char>)
    decreases rows.len(),
{
    if rows.len() == 0 {
        (seq![], seq![])
    } else if rows[0].chat_id == chat_id {
        (rows[0].run_id, rows[0].workspace_id)
    } else {
        run_of(rows.drop_first(), chat_id)
    }
}

/// The sessions running now, keyed by chat id.
#[derive(Debug)]
pub struct SessionTable {
    rows: Vec<(String, ActiveSession)>,
}

fn chat_index(rows: &Vec<(String, ActiveSession)>, chat_id: &str) -> (r: Option<usize>)
    ensures
        match r {
            Some(i) => i < rows@.len() && rows@[i as int].0@ == chat_id@ && forall|j: int|
                0 <= j < i ==> (#[trigger] rows@[j]).0@ != chat_id@,
            None => forall|j: int| 0 <= j < rows@.len() ==> (#[trigger] rows@[j]).0@ != chat_id@,
        },
{
    let mut i: usize = 0;
    while i < rows.len()
        invariant
            i <= rows@.len(),
            forall|j: int| 0 <= j < i ==> (#[trigger] rows@[j]).0@ != chat_id@,
        decreases rows@.len() - i,
    {
        if str_eq(rows[i].0.as_str(), chat_id) {
            return Some(i);
        }
        i = i + 1;
    }
    None
}

impl SessionTable {
    pub closed spec fn rows_spec(&self) -> Seq<SessionRowView> {
        rows_view(self.rows@)
    }

    pub fn new() -> (r: Self)
        ensures
            r.rows_spec().len() == 0,
    {
        SessionTable { rows: Vec::new() }
    }

    pub fn contains(&self, chat_id: &str) -> (r: bool)
        ensures
            r == has_chat(self.rows_spec(), chat_id@),
    {
        let r = chat_index(&self.rows, chat_id);
        proof {
            match r {
                Some(i) => {
                    assert(self.rows_spec()[i as int].chat_id == chat_id@);
                },
                None => {
                    assert forall|i: int| 0 <= i < self.rows_spec().len() implies (#[trigger] self.rows_spec()[i]).chat_id != chat_id@ by {
                        assert(self.rows_spec()[i].chat_id == self.rows@[i].0@);
                    }
                },
            }
        }
        r.is_some()
    }

    /// Registers a session started here, in place of any other of that chat.
    pub fn register_local(&mut self, chat_id: String, run_id: String, workspace_id: String, now_secs: u64)
        ensures
            final(self).rows_spec() == without_chat(old(self).rows_spec(), chat_id@).push(
                SessionRowView {
                    chat_id: chat_id@,
                    label: "local"@,
                    connector_id: None,
                    started_at_secs: now_secs,
                    run_id: run_id@,
                    workspace_id: workspace_id@,
                },
            ),
    {
        let ghost c = chat_id@;
        self.unregister(chat_id.as_str());
        let s = ActiveSession { source: SessionSource::Local, started_at_secs: now_secs, run_id, workspace_id };
        let ghost rv = row_view(chat_id, s);
        self.rows.push((chat_id, s));
        assert(self.rows_spec() =~= without_chat(old(self).rows_spec(), c).push(rv));
    }

    /// Registers a session that a remote connector started, unless its chat
    /// is already active: a repeated start is ignored.
    pub fn register_remote(
        &mut self,
        chat_id: String,
        run_id: String,
        workspace_id: String,
        connector_id: String,
        session_peer: String,
        now_secs: u64,
    ) -> (started: bool)
        ensures
            started == !has_chat(old(self).rows_spec(), chat_id@),
            started ==> final(self).rows_spec() == old(self).rows_spec().push(
                SessionRowView {
                    chat_id: chat_id@,
                    label: "remote"@,
                    connector_id: Some(connector_id@),
                    started_at_secs: now_secs,
                    run_id: run_id@,
                    workspace_id: workspace_id@,
                },
            ),
            !started ==> final(self).rows_spec() == old(self).rows_spec(),
    {
        if self.contains(chat_id.as_str()) {
            return false;
        }
        let s = ActiveSession {
            source: SessionSource::Remote { connector_id, session_peer },
            started_at_secs: now_secs,
            run_id,
            workspace_id,
        };
        let ghost rv = row_view(chat_id, s);
        self.rows.push((chat_id, s));
        assert(self.rows_spec() =~= old(self).rows_spec().push(rv));
        true
    }

    /// Removes the session of `chat_id` and hands back its run and
    /// workspace, both empty where it was not active.
    pub fn remove(&mut self, chat_id: &str) -> (r: (String, String))
        ensures
            (r.0@, r.1@) == run_of(old(self).rows_spec(), chat_id@),
            final(self).rows_spec() == without_chat(old(self).rows_spec(), chat_id@),
    {
        let ghost rows = self.rows_spec();
        let found = chat_index(&self.rows, chat_id);
        let out = match found {
            Some(i) => (self.rows[i].1.run_id.clone(), self.rows[i].1.workspace_id.clone()),
            None => (String::new(), String::new()),
        };
        proof {
            lemma_run_of(rows, chat_id@, match found {
                Some(i) => i as int,
                None => rows.len() as int,
            });
            match found {
                Some(i) => {
                    assert forall|j: int| 0 <= j < i implies (#[trigger] rows[j]).chat_id != chat_id@ by {
                        assert(rows[j].chat_id == self.rows@[j].0@);
                    }
                    assert(rows[i as int].chat_id == chat_id@);
                },
                None => {
                    assert forall|j: int| 0 <= j < rows.len() implies (#[trigger] rows[j]).chat_id != chat_id@ by {
                        assert(rows[j].chat_id == self.rows@[j].0@);
                    }
                },
            }
        }
        self.unregister(chat_id);
        out
    }

    /// Ends the session of `chat_id` early (its run failed or was stopped):
    /// it leaves the table, and its run and workspace, empty where it was
    /// not active, are handed back for the finished notice.
    pub fn abort_session(&mut self, chat_id: &str) -> (r: (String, String))
        ensures
            (r.0@, r.1@) == run_of(old(self).rows_spec(), chat_id@),
            final(self).rows_spec() == without_chat(old(self).rows_spec(), chat_id@),
    {
        self.remove(chat_id)
    }

    /// Removes every session of `chat_id`.
    pub fn unregister(&mut self, chat_id: &str)
        ensures
            final(self).rows_spec() == without_chat(old(self).rows_spec(), chat_id@),
    {
        let ghost rows = self.rows_spec();
        let mut kept: Vec<(String, ActiveSession)> = Vec::new();
        let mut i: usize = 0;
        while i < self.rows.len()
            invariant
                i <= self.rows@.len(),
                rows == rows_view(self.rows@),
                rows_view(kept@) == without_chat(rows.take(i as int), chat_id@),
            decreases self.rows@.len() - i,
        {
            let ghost pre = rows.take(i + 1);
            assert(pre.drop_last() =~= rows.take(i as int));
            assert(pre.last() == rows[i as int]);
            if !str_eq(self.rows[i].0.as_str(), chat_id) {
                let e = (self.rows[i].0.clone(), self.rows[i].1.copy());
                proof {
                    assert(rows_view(kept@.push(e)) =~= rows_view(kept@).push(row_view(e.0, e.1)));
                }
                kept.push(e);
            }
            i = i + 1;
        }
        assert(rows.take(i as int) =~= rows);
        self.rows = kept;
    }

    /// Registers a quick-delegate session, unless its chat is already
    /// active: a repeated start is ignored.
    pub fn register_native_modal(&mut self, chat_id: String, run_id: String, workspace_id: String, now_secs: u64) -> (started: bool)
        ensures
            started == !has_chat(old(self).rows_spec(), chat_id@),
            started ==> final(self).rows_spec() == old(self).rows_spec().push(
                SessionRowView {
                    chat_id: chat_id@,
                    label: "native_modal"@,
                    connector_id: None,
                    started_at_secs: now_secs,
                    run_id: run_id@,
                    workspace_id: workspace_id@,
                },
            ),
            !started ==> final(self).rows_spec() == old(self).rows_spec(),
    {
        if self.contains(chat_id.as_str()) {
            return false;
        }
        let s = ActiveSession { source: SessionSource::NativeModal, started_at_secs: now_secs, run_id, workspace_id };
        let ghost rv = row_view(chat_id, s);
        self.rows.push((chat_id, s));
        assert(self.rows_spec() =~= old(self).rows_spec().push(rv));
        true
    }

    /// Starts (or joins) the session of a remote connector: the chat given,
    /// else a fresh one; the run `remote-` and the command's id, else a fresh
    /// one. Hands back the chat and the run.
    pub fn start_remote_session(
        &mut self,
        chat_id: Option<String>,
        workspace_id: &str,
        connector_id: &str,
        session_peer: &str,
        command_id: Option<&str>,
        now_secs: u64,
    ) -> (r: (String, String))
        ensures
            chat_id matches Some(c) ==> r.0@ == c@,
            command_id matches Some(id) ==> r.1@ == "remote-"@ + id@,
            has_chat(old(self).rows_spec(), r.0@) ==> final(self).rows_spec() == old(self).rows_spec(),
            !has_chat(old(self).rows_spec(), r.0@) ==> final(self).rows_spec() == old(self).rows_spec().push(
                SessionRowView {
                    chat_id: r.0@,
                    label: "remote"@,
                    connector_id: Some(connector_id@),
                    started_at_secs: now_secs,
                    run_id: r.1@,
                    workspace_id: workspace_id@,
                },
            ),
    {
        let chat = match chat_id {
            Some(c) => c,
            None => crate::recorder::new_uuid(),
        };
        let run = match command_id {
            Some(id) => crate::text::concat2("remote-", id),
            None => crate::recorder::new_uuid(),
        };
        self.register_remote(chat.clone(), run.clone(), owned(workspace_id), owned(connector_id), owned(session_peer), now_secs);
        (chat, run)
    }

    /// Starts (or joins) a quick-delegate session: the chat and run given,
    /// else fresh ones. Hands back the chat and the run.
    pub fn start_native_modal_session(
        &mut self,
        chat_id: Option<String>,
        run_id: Option<String>,
        workspace_id: &str,
        now_secs: u64,
    ) -> (r: (String, String))
        ensures
            chat_id matches Some(c) ==> r.0@ == c@,
            run_id matches Some(x) ==> r.1@ == x@,
            has_chat(old(self).rows_spec(), r.0@) ==> final(self).rows_spec() == old(self).rows_spec(),
            !has_chat(old(self).rows_spec(), r.0@) ==> final(self).rows_spec() == old(self).rows_spec().push(
                SessionRowView {
                    chat_id: r.0@,
                    label: "native_modal"@,
                    connector_id: None,
                    started_at_secs: now_secs,
                    run_id: r.1@,
                    workspace_id: workspace_id@,
                },
            ),
    {
        let chat = match chat_id {
            Some(c) => c,
            None => crate::recorder::new_uuid(),
        };
        let run = match run_id {
            Some(x) => x,
            None => crate::recorder::new_uuid(),
        };
        self.register_native_modal(chat.clone(), run.clone(), owned(workspace_id), now_secs);
        (chat, run)
    }

    /// The active sessions, with the seconds each has run at `now_secs`.
    pub fn list_active(&self, now_secs: u64) -> (r: Vec<ActiveSessionInfo>)
        ensures
            r@.len() == self.rows_spec().len(),
            forall|i: int|
                0 <= i < r@.len() ==> {
                    &&& (#[trigger] r@[i]).chat_id@ == self.rows_spec()[i].chat_id
                    &&& r@[i].run_id@ == self.rows_spec()[i].run_id
                    &&& r@[i].source@ == self.rows_spec()[i].label
                    &&& crate::manifest::opt_view(r@[i].connector_id) == self.rows_spec()[i].connector_id
                    &&& r@[i].elapsed_secs == if now_secs >= self.rows_spec()[i].started_at_secs {
                        (now_secs - self.rows_spec()[i].started_at_secs) as u64
                    } else {
                        0
                    }
                },
    {
        let mut r: Vec<ActiveSessionInfo> = Vec::new();
        let mut i: usize = 0;
        while i < self.rows.len()
            invariant
                i <= self.rows@.len(),
                r@.len() == i,
                forall|k: int|
                    0 <= k < i ==> {
                        &&& (#[trigger] r@[k]).chat_id@ == self.rows_spec()[k].chat_id
                        &&& r@[k].run_id@ == self.rows_spec()[k].run_id
                        &&& r@[k].source@ == self.rows_spec()[k].label
                        &&& crate::manifest::opt_view(r@[k].connector_id) == self.rows_spec()[k].connector_id
                        &&& r@[k].elapsed_secs == if now_secs >= self.rows_spec()[k].started_at_secs {
                            (now_secs - self.rows_spec()[k].started_at_secs) as u64
                        } else {
                            0
                        }
                    },
            decreases self.rows@.len() - i,
        {
            let row = &self.rows[i];
            let (source, connector_id) = match &row.1.source {
                SessionSource::Local => (owned("local"), None),
                SessionSource::NativeModal => (owned("native_modal"), None),
                SessionSource::Remote { connector_id, .. } => (owned("remote"), Some(connector_id.clone())),
            };
            let started = row.1.started_at_secs;
            let elapsed = if now_secs >= started {
                now_secs - started
            } else {
                0
            };
            let info = ActiveSessionInfo {
                chat_id: row.0.clone(),
                run_id: row.1.run_id.clone(),
                source,
                connector_id,
                elapsed_secs: elapsed,
            };
            assert(self.rows_spec()[i as int] == row_view(self.rows@[i as int].0, self.rows@[i as int].1));
            r.push(info);
            i = i + 1;
        }
        r
    }
}

/// Without the rows of a chat, no row of that chat is left.
proof fn lemma_without_chat_has_none(rows: Seq<SessionRowView>, chat_id: Seq<char>)
    ensures
        forall|j: int| 0 <= j < without_chat(rows, chat_id).len() ==> (#[trigger] without_chat(rows, chat_id)[j]).chat_id != chat_id,
    decreases rows.len(),
{
    if rows.len() > 0 {
        lemma_without_chat_has_none(rows.drop_last(), chat_id);
    }
}

/// Removing rows of a chat twice removes nothing more.
proof fn lemma_without_chat_twice(rows: Seq<SessionRowView>, chat_id: Seq<char>)
    ensures
        without_chat(without_chat(rows, chat_id), chat_id) == without_chat(rows, chat_id),
    decreases rows.len(),
{
    if rows.len() > 0 {
        lemma_without_chat_twice(rows.drop_last(), chat_id);
        let w = without_chat(rows.drop_last(), chat_id);
        if rows.last().chat_id != chat_id {
            assert(w.push(rows.last()).drop_last() =~= w);
        }
    }
}

/// What a start registers, an end hands back: after a session of `chat_id`
/// is registered with `run_id` and `workspace_id`, removing that chat
/// answers that run and workspace and leaves the table as it was without
/// that chat.
pub proof fn law_registered_session_is_handed_back(rows: Seq<SessionRowView>, row: SessionRowView)
    ensures
        run_of(without_chat(rows, row.chat_id).push(row), row.chat_id) == (row.run_id, row.workspace_id),
        without_chat(without_chat(rows, row.chat_id).push(row), row.chat_id) == without_chat(rows, row.chat_id),
{
    let w = without_chat(rows, row.chat_id);
    let t = w.push(row);
    lemma_without_chat_has_none(rows, row.chat_id);
    assert forall|j: int| 0 <= j < w.len() implies (#[trigger] t[j]).chat_id != row.chat_id by {
        assert(t[j] == w[j]);
    }
    lemma_run_of(t, row.chat_id, w.len() as int);
    assert(t.drop_last() =~= w);
    lemma_without_chat_twice(rows, row.chat_id);
}

proof fn lemma_run_of(rows: Seq<SessionRowView>, chat_id: Seq<char>, i: int)
    requires
        0 <= i <= rows.len(),
        forall|j: int| 0 <= j < i ==> (#[trigger] rows[j]).chat_id != chat_id,
        i < rows.len() ==> rows[i].chat_id == chat_id,
    ensures
        run_of(rows, chat_id) == if i < rows.len() {
            (rows[i].run_id, rows[i].workspace_id)
        } else {
            (Seq::<char>::empty(), Seq::<char>::empty())
        },
    decreases i,
{
    if i > 0 {
        lemma_run_of(rows.drop_first(), chat_id, i - 1);
    }
}


// ───────────────────────────── titles ─────────────────────────────

/// Whether a session's title is one that a real title should replace: empty,
/// `new thread`, `new chat`, or a `workspace session:` label, whatever the case.
pub open spec fn is_placeholder_title_spec(value: Seq<char>) -> bool {
    let n = unicode_lowercase(trim(value));
    n.len() == 0 || n == "new thread"@ || n == "new chat"@ || ("workspace session:"@).is_prefix_of(n)
}

pub fn is_placeholder_title(value: &str) -> (r: bool)
    ensures
        r == is_placeholder_title_spec(value@),
{
    let t = trim_str(value);
    let n = to_lowercase(t.as_str());
    let v = chars_of(n.as_str());
    v.len() == 0 || str_eq(n.as_str(), "new thread") || str_eq(n.as_str(), "new chat")
        || crate::text::starts_with(&v, &chars_of("workspace session:"))
}

/// The punctuation that a fallback title loses at its ends.
pub open spec fn title_punct(c: char) -> bool {
    c == '"' || c == '\'' || c == '`' || c == '.' || c == ':' || c == ';' || c == ',' || c == '-'
}

pub open spec fn strip_punct_front(s: Seq<char>) -> Seq<char>
    decreases s.len(),
{
    if s.len() > 0 && title_punct(s[0]) {
        strip_punct_front(s.drop_first())
    } else {
        s
    }
}

pub open spec fn strip_punct_back(s: Seq<char>) -> Seq<char>
    decreases s.len(),
{
    if s.len() > 0 && title_punct(s.last()) {
        strip_punct_back(s.drop_last())
    } else {
        s
    }
}

/// The title given to a session without one: its prompt with white space
/// collapsed, quotes and punctuation trimmed from the ends, at most 72
/// characters; `Remote session` where nothing is left.
pub open spec fn fallback_title(seed: Seq<char>) -> Seq<char> {
    let t = trim(strip_punct_back(strip_punct_front(compact(seed))));
    if t.len() == 0 {
        "Remote session"@
    } else {
        take_chars(t, 72)
    }
}

proof fn lemma_strip_punct_front_skip(s: Seq<char>, i: int)
    requires
        0 <= i <= s.len(),
        forall|j: int| 0 <= j < i ==> title_punct(#[trigger] s[j]),
    ensures
        strip_punct_front(s) == strip_punct_front(s.skip(i)),
    decreases i,
{
    if i > 0 {
        lemma_strip_punct_front_skip(s.drop_first(), i - 1);
        assert(s.drop_first().skip(i - 1) == s.skip(i));
    } else {
        assert(s.skip(0) == s);
    }
}

proof fn lemma_strip_punct_back_take(s: Seq<char>, i: int)
    requires
        0 <= i <= s.len(),
        forall|j: int| i <= j < s.len() ==> title_punct(#[trigger] s[j]),
    ensures
        strip_punct_back(s) == strip_punct_back(s.take(i)),
    decreases s.len() - i,
{
    if i < s.len() {
        lemma_strip_punct_back_take(s.drop_last(), i);
        assert(s.drop_last().take(i) == s.take(i));
    } else {
        assert(s.take(i) == s);
    }
}

fn is_title_punct(c: char) -> (r: bool)
    ensures
        r == title_punct(c),
{
    c == '"' || c == '\'' || c == '`' || c == '.' || c == ':' || c == ';' || c == ',' || c == '-'
}

fn strip_punct(v: &Vec<char>) -> (r: Vec<char>)
    ensures
        r@ == strip_punct_back(strip_punct_front(v@)),
{
    let n = v.len();
    let mut lo: usize = 0;
    while lo < n && is_title_punct(v[lo])
        invariant
            lo <= n == v.len(),
            forall|j: int| 0 <= j < lo ==> title_punct(#[trigger] v@[j]),
        decreases n - lo,
    {
        lo = lo + 1;
    }
    proof {
        lemma_strip_punct_front_skip(v@, lo as int);
    }
    let mut hi: usize = n;
    while hi > lo && is_title_punct(v[hi - 1])
        invariant
            lo <= hi <= n == v.len(),
            forall|j: int| hi <= j < n ==> title_punct(#[trigger] v@[j]),
        decreases hi,
    {
        hi = hi - 1;
    }
    proof {
        let t = v@.skip(lo as int);
        assert(strip_punct_front(t) == t) by {
            if t.len() > 0 {
                assert(t[0] == v@[lo as int]);
            }
        }
        assert forall|j: int| (hi - lo) <= j < t.len() implies title_punct(#[trigger] t[j]) by {
            assert(t[j] == v@[lo + j]);
        }
        lemma_strip_punct_back_take(t, hi - lo);
        let u = t.take(hi - lo);
        assert(strip_punct_back(u) == u) by {
            if u.len() > 0 {
                assert(u.last() == v@[hi - 1]);
            }
        }
        assert(u == v@.subrange(lo as int, hi as int));
    }
    slice_vec(v, lo, hi)
}

pub fn build_fallback_title(seed: &str) -> (r: String)
    ensures
        r@ == fallback_title(seed@),
{
    let c = compact_vec(&chars_of(seed));
    let s = strip_punct(&c);
    let t = trim_vec(&s);
    if t.len() == 0 {
        owned("Remote session")
    } else {
        let k = take_vec(&t, 72);
        string_of(k.as_slice())
    }
}

/// The title a finished session gets: where it has none, or only a
/// placeholder, the fallback title built from the prompt; else it keeps its own.
pub fn finished_session_title(current: Option<&str>, prompt: &str) -> (r: Option<String>)
    ensures
        match current {
            Some(t) => if is_placeholder_title_spec(t@) {
                r matches Some(x) && x@ == fallback_title(prompt@)
            } else {
                r is None
            },
            None => r matches Some(x) && x@ == fallback_title(prompt@),
        },
{
    let needs = match current {
        Some(t) => is_placeholder_title(t),
        None => true,
    };
    if needs {
        Some(build_fallback_title(prompt))
    } else {
        None
    }
}

// ───────────────────────────── native shell ─────────────────────────────

/// Whether the native shell can run here.
#[derive(Debug, Clone, Copy)]
pub struct NativeShellStatus {
    pub available: bool,
}

/// A recent chat as the native shell lists it.
#[derive(Debug)]
pub struct NativeShellRecentChat {
    pub chat_id: String,
    pub workspace_id: String,
    pub title: String,
    pub updated_at: String,
    pub message_count: i64,
    pub is_active: bool,
}

/// What the native shell shows.
#[derive(Debug)]
pub struct NativeShellSnapshot {
    pub available: bool,
    pub workspace_name: Option<String>,
    pub workspace_path: Option<String>,
    pub pending_approval_count: usize,
    pub active_session_count: usize,
    pub quick_delegate_busy: bool,
    pub recent_chats: Vec<NativeShellRecentChat>,
}

/// A chat session as the agent's store lists it.
#[derive(Debug)]
pub struct ChatSessionSummary {
    pub id: String,
    pub workspace_id: String,
    pub title: Option<String>,
    pub updated_at: String,
    pub last_message_at: Option<String>,
    pub message_count: i64,
}

pub const MAX_RECENT_CHATS: usize = 5;

/// The title shown for a chat: its own where it is not blank, else
/// `Untitled chat`.
pub open spec fn shown_title(title: Option<Seq<char>>) -> Seq<char> {
    match title {
        Some(t) => if trim(t).len() > 0 {
            t
        } else {
            "Untitled chat"@
        },
        None => "Untitled chat"@,
    }
}

pub fn build_recent_chat(chat: &ChatSessionSummary, active_chat_ids: &Vec<String>) -> (r: NativeShellRecentChat)
    ensures
        r.chat_id@ == chat.id@,
        r.workspace_id@ == chat.workspace_id@,
        r.title@ == shown_title(crate::manifest::opt_view(chat.title)),
        r.updated_at@ == match chat.last_message_at {
            Some(t) => t@,
            None => chat.updated_at@,
        },
        r.message_count == chat.message_count,
        r.is_active == crate::text::str_views(active_chat_ids@).contains(chat.id@),
{
    let title = match &chat.title {
        Some(t) => if trim_vec(&chars_of(t.as_str())).len() > 0 {
            t.clone()
        } else {
            owned("Untitled chat")
        },
        None => owned("Untitled chat"),
    };
    NativeShellRecentChat {
        chat_id: chat.id.clone(),
        workspace_id: chat.workspace_id.clone(),
        title,
        updated_at: match &chat.last_message_at {
            Some(t) => t.clone(),
            None => chat.updated_at.clone(),
        },
        message_count: chat.message_count,
        is_active: crate::text::contains_str(active_chat_ids, chat.id.as_str()),
    }
}

/// The recent chats of a workspace: the first five that the store lists.
pub fn recent_chats(chats: &Vec<ChatSessionSummary>, active_chat_ids: &Vec<String>) -> (r: Vec<NativeShellRecentChat>)
    ensures
        r@.len() == if chats@.len() < 5 {
            chats@.len()
        } else {
            5
        },
        forall|i: int|
            0 <= i < r@.len() ==> {
                &&& (#[trigger] r@[i]).chat_id@ == chats@[i].id@
                &&& r@[i].workspace_id@ == chats@[i].workspace_id@
                &&& r@[i].title@ == shown_title(crate::manifest::opt_view(chats@[i].title))
                &&& r@[i].updated_at@ == match chats@[i].last_message_at {
                    Some(t) => t@,
                    None => chats@[i].updated_at@,
                }
                &&& r@[i].message_count == chats@[i].message_count
                &&& r@[i].is_active == crate::text::str_views(active_chat_ids@).contains(chats@[i].id@)
            },
{
    let n = if chats.len() < MAX_RECENT_CHATS {
        chats.len()
    } else {
        MAX_RECENT_CHATS
    };
    let mut r: Vec<NativeShellRecentChat> = Vec::new();
    let mut i: usize = 0;
    while i < n
        invariant
            n <= chats@.len(),
            n == if chats@.len() < 5 {
                chats@.len()
            } else {
                5
            },
            i <= n,
            r@.len() == i,
            forall|k: int|
                0 <= k < i ==> {
                    &&& (#[trigger] r@[k]).chat_id@ == chats@[k].id@
                    &&& r@[k].workspace_id@ == chats@[k].workspace_id@
                    &&& r@[k].title@ == shown_title(crate::manifest::opt_view(chats@[k].title))
                    &&& r@[k].updated_at@ == match chats@[k].last_message_at {
                        Some(t) => t@,
                        None => chats@[k].updated_at@,
                    }
                    &&& r@[k].message_count == chats@[k].message_count
                    &&& r@[k].is_active == crate::text::str_views(active_chat_ids@).contains(chats@[k].id@)
                },
        decreases n - i,
    {
        r.push(build_recent_chat(&chats[i], active_chat_ids));
        i = i + 1;
    }
    r
}

// ───────────────────────────── quick delegate ─────────────────────────────

/// Whether the quick-delegate window can run here, and whether a delegation
/// is running.
#[derive(Debug, Clone, Copy)]
pub struct QuickDelegateStatus {
    pub available: bool,
    pub busy: bool,
}

/// The quick-delegate busy flag: one delegation runs at a time.
#[derive(Debug)]
pub struct QuickDelegateState {
    busy: bool,
}

impl QuickDelegateState {
    pub closed spec fn busy_spec(&self) -> bool {
        self.busy
    }

    pub fn new() -> (r: Self)
        ensures
            !r.busy_spec(),
    {
        QuickDelegateState { busy: false }
    }

    pub fn is_busy(&self) -> (r: bool)
        ensures
            r == self.busy_spec(),
    {
        self.busy
    }

    /// Starts a delegation, unless one is running.
    pub fn begin_run(&mut self) -> (r: Result<(), String>)
        ensures
            old(self).busy_spec() ==> (r matches Err(e) && e@ == "A quick delegation is already running."@),
            !old(self).busy_spec() ==> r is Ok,
            final(self).busy_spec(),
    {
        if self.busy {
            Err(owned("A quick delegation is already running."))
        } else {
            self.busy = true;
            Ok(())
        }
    }

    pub fn finish_run(&mut self)
        ensures
            !final(self).busy_spec(),
    {
        self.busy = false;
    }

    /// What the quick-delegate window's `action` asks for. A `submit` with a
    /// prompt that is not blank starts a delegation (the flag is set); one
    /// with a blank prompt, or while a delegation runs, is answered with an
    /// error shown in the window. Other actions leave the flag as it was.
    pub fn handle_bridge_action(&mut self, action: &str, payload: Option<String>) -> (r: QuickDelegateAction)
        ensures
            r@ == bridge_decision(action@, crate::manifest::opt_view(payload), old(self).busy_spec()),
            final(self).busy_spec() == (old(self).busy_spec() || r is StartRun),
    {
        if str_eq(action, "hotkey") {
            QuickDelegateAction::ShowIdle
        } else if str_eq(action, "open_main") {
            QuickDelegateAction::FocusMainWindow
        } else if str_eq(action, "cancel") {
            QuickDelegateAction::Hide
        } else if str_eq(action, "submit") {
            let prompt: String = match payload {
                Some(p) => p,
                None => String::new(),
            };
            if trim_vec(&chars_of(prompt.as_str())).len() == 0 {
                return QuickDelegateAction::ShowError(owned("Type a delegation request first."));
            }
            match self.begin_run() {
                Err(e) => QuickDelegateAction::ShowError(e),
                Ok(()) => QuickDelegateAction::StartRun(prompt),
            }
        } else {
            QuickDelegateAction::Nothing
        }
    }
}

/// What the desktop does for a quick-delegate window action.
#[derive(Debug)]
pub enum QuickDelegateAction {
    /// Show the window in its idle state.
    ShowIdle,
    /// Bring the main window to the front.
    FocusMainWindow,
    /// Hide the window.
    Hide,
    /// Show the window in its error state with this message.
    ShowError(String),
    /// Run this prompt as a delegation.
    StartRun(String),
    /// Do nothing.
    Nothing,
}

/// A quick-delegate action as values.
pub enum BridgeDecision {
    ShowIdle,
    FocusMainWindow,
    Hide,
    ShowError(Seq<char>),
    StartRun(Seq<char>),
    Nothing,
}

impl View for QuickDelegateAction {
    type V = BridgeDecision;

    open spec fn view(&self) -> BridgeDecision {
        match self {
            QuickDelegateAction::ShowIdle => BridgeDecision::ShowIdle,
            QuickDelegateAction::FocusMainWindow => BridgeDecision::FocusMainWindow,
            QuickDelegateAction::Hide => BridgeDecision::Hide,
            QuickDelegateAction::ShowError(m) => BridgeDecision::ShowError(m@),
            QuickDelegateAction::StartRun(p) => BridgeDecision::StartRun(p@),
            QuickDelegateAction::Nothing => BridgeDecision::Nothing,
        }
    }
}

pub open spec fn bridge_decision(action: Seq<char>, payload: Option<Seq<char>>, busy: bool) -> BridgeDecision {
    if action == "hotkey"@ {
        BridgeDecision::ShowIdle
    } else if action == "open_main"@ {
        BridgeDecision::FocusMainWindow
    } else if action == "cancel"@ {
        BridgeDecision::Hide
    } else if action == "submit"@ {
        let prompt = match payload {
            Some(p) => p,
            None => Seq::<char>::empty(),
        };
        if trim(prompt).len() == 0 {
            BridgeDecision::ShowError("Type a delegation request first."@)
        } else if busy {
            BridgeDecision::ShowError("A quick delegation is already running."@)
        } else {
            BridgeDecision::StartRun(prompt)
        }
    } else {
        BridgeDecision::Nothing
    }
}

// ───────────────────────────── the native shell ─────────────────────────────

/// What the desktop does for an action of the native shell's palette.
#[derive(Debug)]
pub enum NativeShellAction {
    /// Show the command palette.
    ShowPalette,
    /// Bring the main window to the front.
    FocusMainWindow,
    /// Open the quick-delegate window.
    OpenQuickDelegate,
    /// Bring the main window to the front on the approvals to review.
    ReviewApprovals,
    /// Open the chat that this payload (JSON with its workspace and chat) names.
    ResumeChat(String),
    /// Run this prompt as a delegation (the quick-delegate flag is now set).
    SubmitPrompt(String),
    /// Do nothing.
    Nothing,
}

pub enum ShellDecision {
    ShowPalette,
    FocusMainWindow,
    OpenQuickDelegate,
    ReviewApprovals,
    ResumeChat(Seq<char>),
    SubmitPrompt(Seq<char>),
    Nothing,
}

impl View for NativeShellAction {
    type V = ShellDecision;

    open spec fn view(&self) -> ShellDecision {
        match self {
            NativeShellAction::ShowPalette => ShellDecision::ShowPalette,
            NativeShellAction::FocusMainWindow => ShellDecision::FocusMainWindow,
            NativeShellAction::OpenQuickDelegate => ShellDecision::OpenQuickDelegate,
            NativeShellAction::ReviewApprovals => ShellDecision::ReviewApprovals,
            NativeShellAction::ResumeChat(p) => ShellDecision::ResumeChat(p@),
            NativeShellAction::SubmitPrompt(p) => ShellDecision::SubmitPrompt(p@),
            NativeShellAction::Nothing => ShellDecision::Nothing,
        }
    }
}

/// The palette's decision: a prompt that is blank, or sent while a
/// delegation runs, is dropped; a resume without payload does nothing.
pub open spec fn shell_decision(action: Seq<char>, payload: Option<Seq<char>>, busy: bool) -> ShellDecision {
    if action == "hotkey"@ || action == "show_palette"@ {
        ShellDecision::ShowPalette
    } else if action == "open_main"@ {
        ShellDecision::FocusMainWindow
    } else if action == "open_quick_delegate"@ {
        ShellDecision::OpenQuickDelegate
    } else if action == "review_approvals"@ {
        ShellDecision::ReviewApprovals
    } else if action == "resume_chat"@ {
        match payload {
            Some(p) => ShellDecision::ResumeChat(p),
            None => ShellDecision::Nothing,
        }
    } else if action == "submit_prompt"@ {
        let prompt = match payload {
            Some(p) => p,
            None => Seq::<char>::empty(),
        };
        if trim(prompt).len() == 0 || busy {
            ShellDecision::Nothing
        } else {
            ShellDecision::SubmitPrompt(prompt)
        }
    } else {
        ShellDecision::Nothing
    }
}

/// Decides an action of the native shell's palette; a prompt it runs
/// starts a quick delegation.
pub fn native_shell_action(quick: &mut QuickDelegateState, action: &str, payload: Option<String>) -> (r: NativeShellAction)
    ensures
        r@ == shell_decision(action@, crate::manifest::opt_view(payload), old(quick).busy_spec()),
        final(quick).busy_spec() == (old(quick).busy_spec() || r is SubmitPrompt),
{
    if str_eq(action, "hotkey") || str_eq(action, "show_palette") {
        NativeShellAction::ShowPalette
    } else if str_eq(action, "open_main") {
        NativeShellAction::FocusMainWindow
    } else if str_eq(action, "open_quick_delegate") {
        NativeShellAction::OpenQuickDelegate
    } else if str_eq(action, "review_approvals") {
        NativeShellAction::ReviewApprovals
    } else if str_eq(action, "resume_chat") {
        match payload {
            Some(p) => NativeShellAction::ResumeChat(p),
            None => NativeShellAction::Nothing,
        }
    } else if str_eq(action, "submit_prompt") {
        let prompt: String = match payload {
            Some(p) => p,
            None => String::new(),
        };
        if trim_vec(&chars_of(prompt.as_str())).len() == 0 {
            return NativeShellAction::Nothing;
        }
        match quick.begin_run() {
            Err(_) => NativeShellAction::Nothing,
            Ok(()) => NativeShellAction::SubmitPrompt(prompt),
        }
    } else {
        NativeShellAction::Nothing
    }
}

/// What the native shell shows: the workspace given, the count of active
/// sessions, whether a quick delegation runs, and, where a workspace path
/// is given, the recent chats of the store's list (`chats`), marked active
/// where their chat is in the session table.
pub fn shell_snapshot(
    available: bool,
    workspace_name: Option<String>,
    workspace_path: Option<String>,
    pending_approval_count: usize,
    sessions: &SessionTable,
    quick: &QuickDelegateState,
    chats: &Vec<ChatSessionSummary>,
    now_secs: u64,
) -> (r: NativeShellSnapshot)
    ensures
        r.available == available,
        crate::manifest::opt_view(r.workspace_name) == crate::manifest::opt_view(workspace_name),
        crate::manifest::opt_view(r.workspace_path) == crate::manifest::opt_view(workspace_path),
        r.pending_approval_count == pending_approval_count,
        r.active_session_count == sessions.rows_spec().len(),
        r.quick_delegate_busy == quick.busy_spec(),
        workspace_path is None ==> r.recent_chats@.len() == 0,
        workspace_path is Some ==> r.recent_chats@.len() == if chats@.len() < 5 { chats@.len() } else { 5 },
        workspace_path is Some ==> forall|i: int|
            0 <= i < r.recent_chats@.len() ==> {
                &&& (#[trigger] r.recent_chats@[i]).chat_id@ == chats@[i].id@
                &&& r.recent_chats@[i].title@ == shown_title(crate::manifest::opt_view(chats@[i].title))
                &&& r.recent_chats@[i].is_active == has_chat(sessions.rows_spec(), chats@[i].id@)
            },
{
    let active = sessions.list_active(now_secs);
    let mut ids: Vec<String> = Vec::new();
    let mut i: usize = 0;
    while i < active.len()
        invariant
            i <= active@.len(),
            active@.len() == sessions.rows_spec().len(),
            forall|k: int| 0 <= k < active@.len() ==> (#[trigger] active@[k]).chat_id@ == sessions.rows_spec()[k].chat_id,
            crate::text::str_views(ids@) == sessions.rows_spec().take(i as int).map_values(|x: SessionRowView| x.chat_id),
        decreases active@.len() - i,
    {
        let id = active[i].chat_id.clone();
        assert(crate::text::str_views(ids@.push(id)) =~= crate::text::str_views(ids@).push(id@));
        assert(sessions.rows_spec().take(i + 1).map_values(|x: SessionRowView| x.chat_id)
            =~= sessions.rows_spec().take(i as int).map_values(|x: SessionRowView| x.chat_id).push(sessions.rows_spec()[i as int].chat_id));
        ids.push(id);
        i = i + 1;
    }
    let ghost idv = crate::text::str_views(ids@);
    assert(idv =~= sessions.rows_spec().map_values(|x: SessionRowView| x.chat_id));
    assert forall|c: Seq<char>| idv.contains(c) == has_chat(sessions.rows_spec(), c) by {
        if idv.contains(c) {
            let k = choose|k: int| 0 <= k < idv.len() && idv[k] == c;
            assert(sessions.rows_spec()[k].chat_id == c);
        }
        if has_chat(sessions.rows_spec(), c) {
            let k = choose|k: int| 0 <= k < sessions.rows_spec().len() && (#[trigger] sessions.rows_spec()[k]).chat_id == c;
            assert(idv[k] == c);
        }
    }
    let recent = match &workspace_path {
        Some(_) => recent_chats(chats, &ids),
        None => Vec::new(),
    };
    NativeShellSnapshot {
        available,
        workspace_name,
        workspace_path,
        pending_approval_count,
        active_session_count: active.len(),
        quick_delegate_busy: quick.is_busy(),
        recent_chats: recent,
    }
}

/// `value` trimmed; where it has more than `max_chars` characters, its first
/// `max_chars - 1` followed by `...`.
pub open spec fn shortened(value: Seq<char>, max_chars: nat) -> Seq<char> {
    let t = trim(value);
    if t.len() <= max_chars {
        t
    } else {
        t.take(if max_chars == 0 { 0 } else { max_chars - 1 }) + "..."@
    }
}

pub fn truncate_message(value: &str, max_chars: usize) -> (r: String)
    ensures
        r@ == shortened(value@, max_chars as nat),
{
    let t = trim_vec(&chars_of(value));
    if t.len() <= max_chars {
        return string_of(t.as_slice());
    }
    let keep: usize = if max_chars == 0 { 0 } else { max_chars - 1 };
    let mut out = slice_vec(&t, 0, keep);
    crate::text::push_all(&mut out, &chars_of("..."));
    string_of(out.as_slice())
}

/// A one-line summary of an agent's response: its words joined by single
/// spaces, shortened to 90 characters.
pub fn build_summary(response: &str) -> (r: String)
    ensures
        r@ == shortened(compact(response@), 90),
{
    let c = compact_vec(&chars_of(response));
    truncate_message(string_of(c.as_slice()).as_str(), 90)
}

/// The notice shown when a quick delegation ends: its body and its kind.
pub open spec fn delegation_notice(outcome: Result<Seq<char>, Seq<char>>) -> (Seq<char>, Seq<char>) {
    match outcome {
        Ok(response) => ("Quick delegation finished: "@ + shortened(compact(response), 90), "agent_finish"@),
        Err(error) => ("Quick delegation failed: "@ + shortened(error, 140), "agent_failure"@),
    }
}

pub fn finish_notification(outcome: &Result<String, String>) -> (r: (String, String))
    ensures
        (r.0@, r.1@) == delegation_notice(match outcome {
            Ok(x) => Ok(x@),
            Err(e) => Err(e@),
        }),
{
    match outcome {
        Ok(response) => {
            let body = crate::text::concat2("Quick delegation finished: ", build_summary(response.as_str()).as_str());
            (body, owned("agent_finish"))
        },
        Err(error) => {
            let body = crate::text::concat2("Quick delegation failed: ", truncate_message(error.as_str(), 140).as_str());
            (body, owned("agent_failure"))
        },
    }
}

// ───────────────────────────── remote workspace grants ─────────────────────────────

/// How long a grant lasts after it was made or last used: eight hours.
pub const DEFAULT_REMOTE_GRANT_TTL_MS: i64 = 28800000;

/// The right of a remote connector's peer to work in a workspace.
#[derive(Debug)]
pub struct RemoteWorkspaceGrant {
    pub workspace_id: String,
    pub connector_id: String,
    pub session_peer: String,
    pub canonical_path: String,
    pub display_name: String,
    pub granted_at_ms: i64,
    pub last_used_at_ms: i64,
    pub expires_at_ms: i64,
}

pub struct GrantView {
    pub workspace_id: Seq<char>,
    pub connector_id: Seq<char>,
    pub session_peer: Seq<char>,
    pub canonical_path: Seq<char>,
    pub display_name: Seq<char>,
    pub granted_at_ms: i64,
    pub last_used_at_ms: i64,
    pub expires_at_ms: i64,
}

impl View for RemoteWorkspaceGrant {
    type V = GrantView;

    open spec fn view(&self) -> GrantView {
        GrantView {
            workspace_id: self.workspace_id@,
            connector_id: self.connector_id@,
            session_peer: self.session_peer@,
            canonical_path: self.canonical_path@,
            display_name: self.display_name@,
            granted_at_ms: self.granted_at_ms,
            last_used_at_ms: self.last_used_at_ms,
            expires_at_ms: self.expires_at_ms,
        }
    }
}

impl RemoteWorkspaceGrant {
    pub fn copy(&self) -> (r: Self)
        ensures
            r@ == self@,
    {
        RemoteWorkspaceGrant {
            workspace_id: self.workspace_id.clone(),
            connector_id: self.connector_id.clone(),
            session_peer: self.session_peer.clone(),
            canonical_path: self.canonical_path.clone(),
            display_name: self.display_name.clone(),
            granted_at_ms: self.granted_at_ms,
            last_used_at_ms: self.last_used_at_ms,
            expires_at_ms: self.expires_at_ms,
        }
    }
}

/// The key of a grant: workspace, connector and peer, joined by `::`.
pub open spec fn grant_key(workspace_id: Seq<char>, connector_id: Seq<char>, session_peer: Seq<char>) -> Seq<char> {
    workspace_id + "::"@ + connector_id + "::"@ + session_peer
}

/// When a grant made or used at `now_ms` expires (the latest time there is,
/// where the sum would pass it).
pub open spec fn expiry(now_ms: i64) -> i64 {
    if now_ms + DEFAULT_REMOTE_GRANT_TTL_MS > i64::MAX {
        i64::MAX
    } else {
        (now_ms + DEFAULT_REMOTE_GRANT_TTL_MS) as i64
    }
}

pub fn compute_expiry(now_ms: i64) -> (r: i64)
    ensures
        r == expiry(now_ms),
{
    if now_ms > i64::MAX - DEFAULT_REMOTE_GRANT_TTL_MS {
        i64::MAX
    } else {
        now_ms + DEFAULT_REMOTE_GRANT_TTL_MS
    }
}

/// The name a grant shows: the last component of its path where that is a
/// name and not blank, else the whole path.
pub open spec fn grant_display_name(path: Seq<char>) -> Seq<char> {
    let c = comps(path);
    if c.len() > 0 && c.last() != seq!['.', '.'] && trim(c.last()).len() > 0 {
        c.last()
    } else {
        path
    }
}

fn display_name_of(path: &str) -> (r: String)
    ensures
        r@ == grant_display_name(path@),
{
    let c = crate::paths::comps_vec(&chars_of(path));
    if c.len() > 0 {
        let last = &c[c.len() - 1];
        let dd = chars_of("..");
        proof {
            reveal_strlit("..");
            assert(dd@ =~= seq!['.', '.']);
        }
        if !crate::text::vec_eq(last, &dd) && trim_vec(last).len() > 0 {
            return string_of(last.as_slice());
        }
    }
    owned(path)
}

pub open spec fn grants_view(s: Seq<(String, RemoteWorkspaceGrant)>) -> Seq<(Seq<char>, GrantView)> {
    s.map_values(|e: (String, RemoteWorkspaceGrant)| (e.0@, e.1@))
}

pub open spec fn grant_lookup(s: Seq<(Seq<char>, GrantView)>, key: Seq<char>) -> Option<GrantView> {
    crate::settings::lookup(s, key)
}

/// Clock of the grant store: milliseconds since the Unix epoch, 0 where the
/// clock is before it. Nothing is promised of the value.
#[verifier::external_body]
fn now_millis() -> (r: i64) {
    std::time::SystemTime::now().duration_since(std::time::UNIX_EPOCH).map(|d| d.as_millis() as i64).unwrap_or_default()
}

/// The grants in force, keyed by workspace, connector and peer.
#[derive(Debug)]
pub struct RemoteWorkspaceGrantStore {
    grants: Vec<(String, RemoteWorkspaceGrant)>,
}

fn key_of(workspace_id: &str, connector_id: &str, session_peer: &str) -> (r: String)
    ensures
        r@ == grant_key(workspace_id@, connector_id@, session_peer@),
{
    let mut v = chars_of(workspace_id);
    crate::text::push_all(&mut v, &chars_of("::"));
    crate::text::push_all(&mut v, &chars_of(connector_id));
    crate::text::push_all(&mut v, &chars_of("::"));
    crate::text::push_all(&mut v, &chars_of(session_peer));
    assert(v@ =~= grant_key(workspace_id@, connector_id@, session_peer@));
    string_of(v.as_slice())
}

fn grant_index(s: &Vec<(String, RemoteWorkspaceGrant)>, key: &str) -> (r: Option<usize>)
    ensures
        match crate::settings::key_pos(grants_view(s@), key@) {
            Some(i) => r matches Some(x) && x as int == i && 0 <= i < s@.len(),
            None => r is None,
        },
{
    let ghost sv = grants_view(s@);
    let ghost p = crate::settings::key_is::<GrantView>(key@);
    let mut i: usize = 0;
    while i < s.len()
        invariant
            i <= s@.len(),
            sv == grants_view(s@),
            p == crate::settings::key_is::<GrantView>(key@),
            forall|j: int| 0 <= j < i ==> !p(#[trigger] sv[j]),
        decreases s@.len() - i,
    {
        if str_eq(s[i].0.as_str(), key) {
            proof {
                crate::third_party::lemma_first_where_skip(sv, p, i as int);
                assert(sv.skip(i as int)[0] == sv[i as int]);
            }
            return Some(i);
        }
        i = i + 1;
    }
    proof {
        crate::third_party::lemma_first_where_skip(sv, p, i as int);
        assert(sv.skip(i as int).len() == 0);
    }
    None
}

/// Removes the pair at `i`.
pub open spec fn remove_at<T>(s: Seq<T>, i: int) -> Seq<T> {
    s.take(i) + s.skip(i + 1)
}

/// A grant as values, if any.
pub open spec fn grant_opt(r: Option<RemoteWorkspaceGrant>) -> Option<GrantView> {
    match r {
        Some(g) => Some(g@),
        None => None,
    }
}

/// Looking a grant up at `now_ms`: an expired one is dropped and not handed
/// out; a live one is handed out as it is.
pub open spec fn grant_looked_up(
    before: Seq<(Seq<char>, GrantView)>,
    after: Seq<(Seq<char>, GrantView)>,
    key: Seq<char>,
    now_ms: i64,
    r: Option<GrantView>,
) -> bool {
    match crate::settings::key_pos(before, key) {
        None => r is None && after == before,
        Some(i) => if before[i].1.expires_at_ms <= now_ms {
            r is None && after == remove_at(before, i)
        } else {
            r == Some(before[i].1) && after == before
        },
    }
}

/// Using a grant at `now_ms`: an expired one is dropped; a live one is
/// renewed from now and handed out.
pub open spec fn grant_touched(
    before: Seq<(Seq<char>, GrantView)>,
    after: Seq<(Seq<char>, GrantView)>,
    key: Seq<char>,
    now_ms: i64,
    r: Option<GrantView>,
) -> bool {
    match crate::settings::key_pos(before, key) {
        None => r is None && after == before,
        Some(i) => if before[i].1.expires_at_ms <= now_ms {
            r is None && after == remove_at(before, i)
        } else {
            let renewed = GrantView { last_used_at_ms: now_ms, expires_at_ms: expiry(now_ms), ..before[i].1 };
            r == Some(renewed) && after == before.update(i, (before[i].0, renewed))
        },
    }
}

impl RemoteWorkspaceGrantStore {
    pub closed spec fn grants_spec(&self) -> Seq<(Seq<char>, GrantView)> {
        grants_view(self.grants@)
    }

    pub fn new() -> (r: Self)
        ensures
            r.grants_spec().len() == 0,
    {
        RemoteWorkspaceGrantStore { grants: Vec::new() }
    }

    /// The grant of the peer at `now_ms` where it has not expired; an
    /// expired grant is dropped.
    pub fn get_active_at(&mut self, workspace_id: &str, connector_id: &str, session_peer: &str, now_ms: i64) -> (r: Option<RemoteWorkspaceGrant>)
        ensures
            match crate::settings::key_pos(old(self).grants_spec(), grant_key(workspace_id@, connector_id@, session_peer@)) {
                None => r is None && final(self).grants_spec() == old(self).grants_spec(),
                Some(i) => if old(self).grants_spec()[i].1.expires_at_ms <= now_ms {
                    r is None && final(self).grants_spec() == remove_at(old(self).grants_spec(), i)
                } else {
                    r matches Some(g) && g@ == old(self).grants_spec()[i].1 && final(self).grants_spec() == old(self).grants_spec()
                },
            },
    {
        let key = key_of(workspace_id, connector_id, session_peer);
        match grant_index(&self.grants, key.as_str()) {
            None => None,
            Some(i) => {
                assert(self.grants_spec()[i as int].1 == self.grants@[i as int].1@);
                if self.grants[i].1.expires_at_ms <= now_ms {
                    let ghost before = self.grants@;
                    let _ = self.grants.remove(i);
                    assert(grants_view(self.grants@) =~= remove_at(grants_view(before), i as int));
                    None
                } else {
                    Some(self.grants[i].1.copy())
                }
            },
        }
    }

    /// The grant of the peer, renewed at `now_ms`, where it has not expired;
    /// an expired grant is dropped.
    pub fn touch_at(&mut self, workspace_id: &str, connector_id: &str, session_peer: &str, now_ms: i64) -> (r: Option<RemoteWorkspaceGrant>)
        ensures
            match crate::settings::key_pos(old(self).grants_spec(), grant_key(workspace_id@, connector_id@, session_peer@)) {
                None => r is None && final(self).grants_spec() == old(self).grants_spec(),
                Some(i) => if old(self).grants_spec()[i].1.expires_at_ms <= now_ms {
                    r is None && final(self).grants_spec() == remove_at(old(self).grants_spec(), i)
                } else {
                    let g = old(self).grants_spec()[i].1;
                    let renewed = GrantView { last_used_at_ms: now_ms, expires_at_ms: expiry(now_ms), ..g };
                    &&& r matches Some(x) && x@ == renewed
                    &&& final(self).grants_spec() == old(self).grants_spec().update(i, (old(self).grants_spec()[i].0, renewed))
                },
            },
    {
        let key = key_of(workspace_id, connector_id, session_peer);
        match grant_index(&self.grants, key.as_str()) {
            None => None,
            Some(i) => {
                assert(self.grants_spec()[i as int].1 == self.grants@[i as int].1@);
                if self.grants[i].1.expires_at_ms <= now_ms {
                    let ghost before = self.grants@;
                    let _ = self.grants.remove(i);
                    assert(grants_view(self.grants@) =~= remove_at(grants_view(before), i as int));
                    None
                } else {
                    let ghost before = self.grants@;
                    let mut g = self.grants[i].1.copy();
                    g.last_used_at_ms = now_ms;
                    g.expires_at_ms = compute_expiry(now_ms);
                    let out = g.copy();
                    let k = self.grants[i].0.clone();
                    self.grants.set(i, (k, g));
                    assert(grants_view(self.grants@) =~= grants_view(before).update(i as int, (grants_view(before)[i as int].0, out@)));
                    Some(out)
                }
            },
        }
    }

    /// Grants the peer the workspace at `canonical_path` from `now_ms`, in
    /// place of any grant it held.
    pub fn insert_at(&mut self, workspace_id: &str, connector_id: &str, session_peer: &str, canonical_path: &str, now_ms: i64) -> (r: RemoteWorkspaceGrant)
        ensures
            r@ == (GrantView {
                workspace_id: workspace_id@,
                connector_id: connector_id@,
                session_peer: session_peer@,
                canonical_path: canonical_path@,
                display_name: grant_display_name(canonical_path@),
                granted_at_ms: now_ms,
                last_used_at_ms: now_ms,
                expires_at_ms: expiry(now_ms),
            }),
            final(self).grants_spec() == crate::settings::assign(
                old(self).grants_spec(),
                grant_key(workspace_id@, connector_id@, session_peer@),
                r@,
            ),
    {
        let g = RemoteWorkspaceGrant {
            workspace_id: owned(workspace_id),
            connector_id: owned(connector_id),
            session_peer: owned(session_peer),
            canonical_path: owned(canonical_path),
            display_name: display_name_of(canonical_path),
            granted_at_ms: now_ms,
            last_used_at_ms: now_ms,
            expires_at_ms: compute_expiry(now_ms),
        };
        let out = g.copy();
        let key = key_of(workspace_id, connector_id, session_peer);
        let ghost before = grants_view(self.grants@);
        let ghost kv = key@;
        match grant_index(&self.grants, key.as_str()) {
            Some(i) => {
                self.grants.set(i, (key, g));
            },
            None => {
                self.grants.push((key, g));
            },
        }
        assert(grants_view(self.grants@) =~= crate::settings::assign(before, kv, out@));
        out
    }

    /// `get_active_at` on the clock.
    pub fn get_active(&mut self, workspace_id: &str, connector_id: &str, session_peer: &str) -> (r: Option<RemoteWorkspaceGrant>)
        ensures
            exists|now: i64| #[trigger] grant_looked_up(old(self).grants_spec(), final(self).grants_spec(),
                grant_key(workspace_id@, connector_id@, session_peer@), now, grant_opt(r)),
    {
        let now = now_millis();
        let r = self.get_active_at(workspace_id, connector_id, session_peer, now);
        assert(grant_looked_up(old(self).grants_spec(), self.grants_spec(),
            grant_key(workspace_id@, connector_id@, session_peer@), now, grant_opt(r)));
        r
    }

    /// `touch_at` on the clock.
    pub fn touch(&mut self, workspace_id: &str, connector_id: &str, session_peer: &str) -> (r: Option<RemoteWorkspaceGrant>)
        ensures
            exists|now: i64| #[trigger] grant_touched(old(self).grants_spec(), final(self).grants_spec(),
                grant_key(workspace_id@, connector_id@, session_peer@), now, grant_opt(r)),
    {
        let now = now_millis();
        let r = self.touch_at(workspace_id, connector_id, session_peer, now);
        assert(grant_touched(old(self).grants_spec(), self.grants_spec(),
            grant_key(workspace_id@, connector_id@, session_peer@), now, grant_opt(r)));
        r
    }

    /// `insert_at` on the clock.
    pub fn insert(&mut self, workspace_id: &str, connector_id: &str, session_peer: &str, canonical_path: &str) -> (r: RemoteWorkspaceGrant)
        ensures
            r.workspace_id@ == workspace_id@,
            r.connector_id@ == connector_id@,
            r.session_peer@ == session_peer@,
            r.canonical_path@ == canonical_path@,
            r.display_name@ == grant_display_name(canonical_path@),
            r.last_used_at_ms == r.granted_at_ms,
            r.expires_at_ms == expiry(r.granted_at_ms),
            final(self).grants_spec() == crate::settings::assign(
                old(self).grants_spec(),
                grant_key(workspace_id@, connector_id@, session_peer@),
                r@,
            ),
    {
        let now = now_millis();
        self.insert_at(workspace_id, connector_id, session_peer, canonical_path, now)
    }
}

/// A grant is found while it lasts: right after it is made at `now_ms`, a
/// lookup at any time before its expiry finds it.
pub proof fn law_grant_lasts_until_expiry(s: Seq<(Seq<char>, GrantView)>, key: Seq<char>, g: GrantView, later: i64)
    requires
        later < g.expires_at_ms,
    ensures
        crate::settings::lookup(crate::settings::assign(s, key, g), key) == Some(g),
        !(crate::settings::lookup(crate::settings::assign(s, key, g), key).unwrap().expires_at_ms <= later),
{
    crate::settings::law_assign_then_lookup(s, key, g, key);
}

/// A part of a grant's triple with no `:` in it.
pub open spec fn colon_free(s: Seq<char>) -> bool {
    forall|i: int| 0 <= i < s.len() ==> #[trigger] s[i] != ':'
}

/// Joining with `::` keeps parts apart where the first part has no `:`.
proof fn lemma_split_at_colons(a1: Seq<char>, b1: Seq<char>, a2: Seq<char>, b2: Seq<char>)
    requires
        colon_free(a1),
        colon_free(a2),
        a1 + "::"@ + b1 == a2 + "::"@ + b2,
    ensures
        a1 == a2,
        b1 == b2,
{
    reveal_strlit("::");
    let k1 = a1 + "::"@ + b1;
    let k2 = a2 + "::"@ + b2;
    if a1.len() < a2.len() {
        assert(k1[a1.len() as int] == ':');
        assert(k2[a1.len() as int] == a2[a1.len() as int]);
    } else if a2.len() < a1.len() {
        assert(k2[a2.len() as int] == ':');
        assert(k1[a2.len() as int] == a1[a2.len() as int]);
    }
    assert(a1 =~= k1.take(a1.len() as int));
    assert(a2 =~= k2.take(a2.len() as int));
    assert(b1 =~= k1.skip(a1.len() as int + 2));
    assert(b2 =~= k2.skip(a2.len() as int + 2));
}

/// The grant keys of triples without `:` name their triple alone.
pub proof fn lemma_grant_key_injective(w1: Seq<char>, c1: Seq<char>, p1: Seq<char>, w2: Seq<char>, c2: Seq<char>, p2: Seq<char>)
    requires
        colon_free(w1),
        colon_free(c1),
        colon_free(w2),
        colon_free(c2),
        grant_key(w1, c1, p1) == grant_key(w2, c2, p2),
    ensures
        w1 == w2,
        c1 == c2,
        p1 == p2,
{
    assert(grant_key(w1, c1, p1) == w1 + "::"@ + (c1 + "::"@ + p1));
    assert(grant_key(w2, c2, p2) == w2 + "::"@ + (c2 + "::"@ + p2));
    lemma_split_at_colons(w1, c1 + "::"@ + p1, w2, c2 + "::"@ + p2);
    lemma_split_at_colons(c1, p1, c2, p2);
}

/// A lookup hands out only a live grant of the triple asked for: in a store
/// where each grant is kept under the key of its own triple (as `insert`
/// keeps it), and where workspace and connector ids hold no `:`, a grant
/// handed out at `now_ms` was made for that workspace, connector and peer
/// and has not expired; the live grant kept for the triple is handed out;
/// where nothing is handed out, the grant kept for the triple, if any, had
/// expired.
pub proof fn law_active_grant_matches_triple(
    before: Seq<(Seq<char>, GrantView)>,
    after: Seq<(Seq<char>, GrantView)>,
    workspace_id: Seq<char>,
    connector_id: Seq<char>,
    session_peer: Seq<char>,
    now_ms: i64,
    r: Option<GrantView>,
)
    requires
        grant_looked_up(before, after, grant_key(workspace_id, connector_id, session_peer), now_ms, r),
        forall|i: int| 0 <= i < before.len() ==> (#[trigger] before[i]).0 == grant_key(before[i].1.workspace_id, before[i].1.connector_id, before[i].1.session_peer),
        forall|i: int| 0 <= i < before.len() ==> colon_free((#[trigger] before[i]).1.workspace_id) && colon_free(before[i].1.connector_id),
        colon_free(workspace_id),
        colon_free(connector_id),
    ensures
        r matches Some(g) ==> {
            &&& g.workspace_id == workspace_id
            &&& g.connector_id == connector_id
            &&& g.session_peer == session_peer
            &&& g.expires_at_ms > now_ms
        },
        r is None ==> match crate::settings::lookup(before, grant_key(workspace_id, connector_id, session_peer)) {
            Some(g) => g.expires_at_ms <= now_ms,
            None => true,
        },
        match crate::settings::lookup(before, grant_key(workspace_id, connector_id, session_peer)) {
            Some(g) => g.expires_at_ms > now_ms ==> r == Some(g),
            None => r is None,
        },
{
    let key = grant_key(workspace_id, connector_id, session_peer);
    crate::third_party::lemma_first_where_props(before, crate::settings::key_is::<GrantView>(key));
    match crate::settings::key_pos(before, key) {
        Some(i) => {
            let g = before[i].1;
            assert(before[i].0 == key);
            lemma_grant_key_injective(g.workspace_id, g.connector_id, g.session_peer, workspace_id, connector_id, session_peer);
        },
        None => {},
    }
}

} // verus!
