//! The workflow recorder: one recording at a time, the steps it takes in,
//! and the history of the last fifty stopped recordings.
use vstd::prelude::*;
use crate::documents::nbytes;
use crate::text::{chars_of, concat2, decimal, owned, push_all, push_decimal, str_eq, string_of, take_chars, take_vec, trim, trim_vec};

verus! {

pub const MAX_STEPS_PER_RECORDING: usize = 400;
pub const MAX_HISTORY_RECORDINGS: usize = 50;
pub const MAX_TITLE_CHARS: usize = 120;
pub const MAX_KIND_CHARS: usize = 64;
pub const MAX_LABEL_CHARS: usize = 512;
pub const MAX_PAYLOAD_BYTES: usize = 24576;

/// A recorded step. `payload` is the step's JSON value as compact text.
#[derive(Debug)]
pub struct WorkflowRecordedStep {
    pub id: String,
    pub kind: String,
    pub label: String,
    pub payload: Option<String>,
    pub timestamp_ms: i64,
}

pub struct StepView {
    pub id: Seq<char>,
    pub kind: Seq<char>,
    pub label: Seq<char>,
    pub payload: Option<Seq<char>>,
    pub timestamp_ms: i64,
}

impl View for WorkflowRecordedStep {
    type V = StepView;

    open spec fn view(&self) -> StepView {
        StepView {
            id: self.id@,
            kind: self.kind@,
            label: self.label@,
            payload: crate::manifest::opt_view(self.payload),
            timestamp_ms: self.timestamp_ms,
        }
    }
}

impl WorkflowRecordedStep {
    pub fn copy(&self) -> (r: Self)
        ensures
            r@ == self@,
    {
        WorkflowRecordedStep {
            id: self.id.clone(),
            kind: self.kind.clone(),
            label: self.label.clone(),
            payload: crate::manifest::copy_opt_string(&self.payload),
            timestamp_ms: self.timestamp_ms,
        }
    }
}

pub open spec fn steps_view(s: Seq<WorkflowRecordedStep>) -> Seq<StepView> {
    s.map_values(|x: WorkflowRecordedStep| x@)
}

/// A recording, active or stopped.
#[derive(Debug)]
pub struct RecordedWorkflow {
    pub id: String,
    pub title: String,
    pub started_at_ms: i64,
    pub stopped_at_ms: Option<i64>,
    pub step_count: usize,
    pub steps: Vec<WorkflowRecordedStep>,
}

pub struct WorkflowView {
    pub id: Seq<char>,
    pub title: Seq<char>,
    pub started_at_ms: i64,
    pub stopped_at_ms: Option<i64>,
    pub step_count: usize,
    pub steps: Seq<StepView>,
}

impl View for RecordedWorkflow {
    type V = WorkflowView;

    open spec fn view(&self) -> WorkflowView {
        WorkflowView {
            id: self.id@,
            title: self.title@,
            started_at_ms: self.started_at_ms,
            stopped_at_ms: self.stopped_at_ms,
            step_count: self.step_count,
            steps: steps_view(self.steps@),
        }
    }
}

impl RecordedWorkflow {
    pub fn copy(&self) -> (r: Self)
        ensures
            r@ == self@,
    {
        let mut steps: Vec<WorkflowRecordedStep> = Vec::new();
        let mut i: usize = 0;
        while i < self.steps.len()
            invariant
                i <= self.steps@.len(),
                steps_view(steps@) == steps_view(self.steps@).take(i as int),
            decreases self.steps@.len() - i,
        {
            let s = self.steps[i].copy();
            proof {
                assert(steps_view(steps@.push(s)) =~= steps_view(steps@).push(s@));
                assert(steps_view(self.steps@).take(i + 1) =~= steps_view(self.steps@).take(
                    i as int,
                ).push(self.steps@[i as int]@));
            }
            steps.push(s);
            i = i + 1;
        }
        assert(steps_view(self.steps@).take(i as int) =~= steps_view(self.steps@));
        RecordedWorkflow {
            id: self.id.clone(),
            title: self.title.clone(),
            started_at_ms: self.started_at_ms,
            stopped_at_ms: self.stopped_at_ms,
            step_count: self.step_count,
            steps,
        }
    }
}

pub open spec fn workflows_view(s: Seq<RecordedWorkflow>) -> Seq<WorkflowView> {
    s.map_values(|x: RecordedWorkflow| x@)
}

/// The kinds of step that a recording takes in.
pub open spec fn allowed_kind(kind: Seq<char>) -> bool {
    kind == "user_instruction"@ || kind == "agent_run"@ || kind == "tool_call"@ || kind
        == "tool_result"@ || kind == "status"@ || kind == "agent_generated"@ || kind
        == "agent_run_requested"@
}

pub fn is_allowed_kind(kind: &str) -> (r: bool)
    ensures
        r == allowed_kind(kind@),
{
    str_eq(kind, "user_instruction") || str_eq(kind, "agent_run") || str_eq(kind, "tool_call")
        || str_eq(kind, "tool_result") || str_eq(kind, "status") || str_eq(kind, "agent_generated")
        || str_eq(kind, "agent_run_requested")
}

/// The first `max_chars` characters of `value`, or all of it where it is shorter.
pub fn truncate_with_limit(value: String, max_chars: usize) -> (r: String)
    ensures
        r@ == take_chars(value@, max_chars as int),
{
    let v = take_vec(&chars_of(value.as_str()), max_chars);
    string_of(v.as_slice())
}

/// `value` as an owned string: a `str` always ends on a character boundary,
/// so nothing is cut.
pub fn truncate_to_char_boundary(value: &str) -> (r: String)
    ensures
        r@ == value@,
{
    owned(value)
}

/// The title of a new recording: the one given, trimmed, where it is not
/// blank, else `New Recorded Workflow`; at most 120 characters.
pub open spec fn recording_title(title: Option<Seq<char>>) -> Seq<char> {
    take_chars(
        match title {
            Some(t) => if trim(t).len() > 0 {
                trim(t)
            } else {
                "New Recorded Workflow"@
            },
            None => "New Recorded Workflow"@,
        },
        120,
    )
}

/// Why a step is refused, if it is: checked in this order.
pub open spec fn step_refusal(step_count: nat, kind: Seq<char>, label: Seq<char>, payload: Option<Seq<char>>) -> Option<Seq<char>> {
    if step_count >= 400 {
        Some("Recording step limit reached (max 400)"@)
    } else if trim(kind).len() == 0 {
        Some("Recording step kind is required"@)
    } else if !allowed_kind(trim(kind)) {
        Some("Unsupported recording step kind '"@ + trim(kind) + "'"@)
    } else if trim(label).len() == 0 {
        Some("Recording step label is required"@)
    } else if payload is Some && nbytes(payload->0) > 24576 {
        Some("Recording step payload too large ("@ + decimal(nbytes(payload->0) as nat) + " bytes, max 24576)"@)
    } else {
        None
    }
}

/// The position of the first recording with the earliest start.
pub open spec fn oldest(h: Seq<WorkflowView>) -> int
    decreases h.len(),
{
    if h.len() <= 1 {
        0
    } else {
        let k = oldest(h.drop_last());
        if h.last().started_at_ms < h[k].started_at_ms {
            h.len() - 1
        } else {
            k
        }
    }
}

/// Does a recording have id `id`?
pub open spec fn has_id(id: Seq<char>) -> spec_fn(WorkflowView) -> bool {
    |x: WorkflowView| x.id == id
}

/// The history after `w` is stored: in place of a recording with its id,
/// else appended; then, beyond fifty, the oldest leaves.
pub open spec fn stored(h: Seq<WorkflowView>, w: WorkflowView) -> Seq<WorkflowView> {
    let h2 = match crate::third_party::first_where(h, has_id(w.id)) {
        Some(i) => h.update(i, w),
        None => h.push(w),
    };
    if h2.len() <= 50 {
        h2
    } else {
        h2.remove(oldest(h2))
    }
}

proof fn lemma_oldest(h: Seq<WorkflowView>)
    requires
        h.len() > 0,
    ensures
        0 <= oldest(h) < h.len(),
        forall|j: int| 0 <= j < h.len() ==> h[oldest(h)].started_at_ms <= #[trigger] h[j].started_at_ms,
    decreases h.len(),
{
    if h.len() > 1 {
        lemma_oldest(h.drop_last());
        let k = oldest(h.drop_last());
        assert forall|j: int| 0 <= j < h.len() implies h[oldest(h)].started_at_ms <= #[trigger] h[j].started_at_ms by {
            if j < h.len() - 1 {
                assert(h[j] == h.drop_last()[j]);
            }
        }
    }
}

/// Clock of the recorder: milliseconds since the Unix epoch, 0 where the
/// clock is before it. Nothing is promised of the value.
#[verifier::external_body]
pub(crate) fn now_ms() -> (r: i64) {
    std::time::SystemTime::now().duration_since(std::time::UNIX_EPOCH).unwrap_or_default().as_millis() as i64
}

/// `uuid::Uuid::new_v4`, as hyphenated text. Nothing is promised of the
/// value: it is random.
#[verifier::external_body]
pub(crate) fn new_uuid() -> (r: String) {
    uuid::Uuid::new_v4().to_string()
}

/// The recorder: at most one active recording, and the history of stopped ones.
#[derive(Debug)]
pub struct WorkflowRecorderService {
    active: Option<RecordedWorkflow>,
    history: Vec<RecordedWorkflow>,
}

impl WorkflowRecorderService {
    pub closed spec fn active_spec(&self) -> Option<WorkflowView> {
        match self.active {
            Some(w) => Some(w@),
            None => None,
        }
    }

    pub closed spec fn history_spec(&self) -> Seq<WorkflowView> {
        workflows_view(self.history@)
    }

    pub fn new() -> (r: Self)
        ensures
            r.active_spec() is None,
            r.history_spec().len() == 0,
    {
        WorkflowRecorderService { active: None, history: Vec::new() }
    }

    /// Starts a recording with id `id` at `now`, unless one is active.
    pub fn start_recording_at(&mut self, title: Option<String>, id: String, now: i64) -> (r: Result<RecordedWorkflow, String>)
        ensures
            old(self).active_spec() is Some ==> {
                &&& r matches Err(e) && e@ == "A recording is already active"@
                &&& final(self).active_spec() == old(self).active_spec()
            },
            old(self).active_spec() is None ==> {
                let w = WorkflowView {
                    id: id@,
                    title: recording_title(crate::manifest::opt_view(title)),
                    started_at_ms: now,
                    stopped_at_ms: None,
                    step_count: 0,
                    steps: seq![],
                };
                &&& r matches Ok(x) && x@ == w
                &&& final(self).active_spec() == Some(w)
            },
            final(self).history_spec() == old(self).history_spec(),
    {
        if self.active.is_some() {
            return Err(owned("A recording is already active"));
        }
        let normalized: String = match &title {
            Some(t) => {
                let tt = trim_vec(&chars_of(t.as_str()));
                if tt.len() > 0 {
                    truncate_to_char_boundary(string_of(tt.as_slice()).as_str())
                } else {
                    owned("New Recorded Workflow")
                }
            },
            None => owned("New Recorded Workflow"),
        };
        let w = RecordedWorkflow {
            id,
            title: truncate_with_limit(normalized, MAX_TITLE_CHARS),
            started_at_ms: now,
            stopped_at_ms: None,
            step_count: 0,
            steps: Vec::new(),
        };
        assert(steps_view(w.steps@) =~= Seq::<StepView>::empty());
        let out = w.copy();
        self.active = Some(w);
        Ok(out)
    }

    /// Starts a recording, with a fresh id, now.
    pub fn start_recording(&mut self, title: Option<String>) -> (r: Result<RecordedWorkflow, String>)
        ensures
            old(self).active_spec() is Some ==> (r is Err && final(self).active_spec() == old(self).active_spec()),
            old(self).active_spec() is None ==> (r matches Ok(x) && final(self).active_spec() == Some(x@)
                && x@.id.take(4) == "rec_"@ && x@.title == recording_title(crate::manifest::opt_view(title))
                && x@.stopped_at_ms is None && x@.step_count == 0 && x@.steps.len() == 0),
            final(self).history_spec() == old(self).history_spec(),
    {
        let id = concat2("rec_", new_uuid().as_str());
        proof {
            reveal_strlit("rec_");
        }
        assert(id@.take(4) =~= "rec_"@);
        let now = now_ms();
        self.start_recording_at(title, id, now)
    }

    /// Adds a step with id `id` at `now` to the active recording, unless it is refused.
    pub fn record_step_at(&mut self, kind: String, label: String, payload: Option<String>, id: String, now: i64) -> (r: Result<WorkflowRecordedStep, String>)
        ensures
            final(self).history_spec() == old(self).history_spec(),
            match old(self).active_spec() {
                None => r matches Err(e) && e@ == "No active recording session"@ && final(self).active_spec() is None,
                Some(a) => match step_refusal(a.steps.len(), kind@, label@, crate::manifest::opt_view(payload)) {
                    Some(msg) => r matches Err(e) && e@ == msg && final(self).active_spec() == old(self).active_spec(),
                    None => {
                        let s = StepView {
                            id: id@,
                            kind: take_chars(trim(kind@), 64),
                            label: take_chars(trim(label@), 512),
                            payload: crate::manifest::opt_view(payload),
                            timestamp_ms: now,
                        };
                        &&& r matches Ok(x) && x@ == s
                        &&& final(self).active_spec() == Some(WorkflowView {
                            steps: a.steps.push(s),
                            step_count: (a.steps.len() + 1) as usize,
                            ..a
                        })
                    },
                },
            },
    {
        let mut a = match self.active.take() {
            Some(a) => a,
            None => return Err(owned("No active recording session")),
        };
        let ghost av = a@;
        let refusal = step_refusal_exec(a.steps.len(), &kind, &label, &payload);
        match refusal {
            Some(msg) => {
                self.active = Some(a);
                return Err(msg);
            },
            None => {},
        }
        let k = string_of(trim_vec(&chars_of(kind.as_str())).as_slice());
        let l = string_of(trim_vec(&chars_of(label.as_str())).as_slice());
        let step = WorkflowRecordedStep {
            id,
            kind: truncate_with_limit(k, MAX_KIND_CHARS),
            label: truncate_with_limit(l, MAX_LABEL_CHARS),
            payload,
            timestamp_ms: now,
        };
        let out = step.copy();
        let ghost sv = step@;
        a.steps.push(step);
        a.step_count = a.steps.len();
        assert(steps_view(a.steps@) =~= av.steps.push(sv));
        self.active = Some(a);
        Ok(out)
    }

    /// Adds a step, with a fresh id, now.
    pub fn record_step(&mut self, kind: String, label: String, payload: Option<String>) -> (r: Result<WorkflowRecordedStep, String>)
        ensures
            final(self).history_spec() == old(self).history_spec(),
            match old(self).active_spec() {
                None => r matches Err(e) && e@ == "No active recording session"@ && final(self).active_spec() is None,
                Some(a) => match step_refusal(a.steps.len(), kind@, label@, crate::manifest::opt_view(payload)) {
                    Some(msg) => r matches Err(e) && e@ == msg && final(self).active_spec() == old(self).active_spec(),
                    None => {
                        &&& r matches Ok(x) && {
                            &&& x@.id.take(5) == "step_"@
                            &&& x@.kind == take_chars(trim(kind@), 64)
                            &&& x@.label == take_chars(trim(label@), 512)
                            &&& x@.payload == crate::manifest::opt_view(payload)
                            &&& final(self).active_spec() == Some(WorkflowView {
                                steps: a.steps.push(x@),
                                step_count: (a.steps.len() + 1) as usize,
                                ..a
                            })
                        }
                    },
                },
            },
    {
        let id = concat2("step_", new_uuid().as_str());
        proof {
            reveal_strlit("step_");
        }
        assert(id@.take(5) =~= "step_"@);
        let now = now_ms();
        self.record_step_at(kind, label, payload, id, now)
    }

    /// Stops the active recording at `now` and stores it in the history.
    pub fn stop_recording_at(&mut self, now: i64) -> (r: Result<RecordedWorkflow, String>)
        ensures
            match old(self).active_spec() {
                None => r matches Err(e) && e@ == "No active recording session"@ && final(self).history_spec() == old(self).history_spec(),
                Some(a) => {
                    let w = WorkflowView { stopped_at_ms: Some(now), step_count: a.steps.len() as usize, ..a };
                    &&& r matches Ok(x) && x@ == w
                    &&& final(self).history_spec() == stored(old(self).history_spec(), w)
                },
            },
            final(self).active_spec() is None,
    {
        let mut a = match self.active.take() {
            Some(a) => a,
            None => return Err(owned("No active recording session")),
        };
        a.stopped_at_ms = Some(now);
        a.step_count = a.steps.len();
        let out = a.copy();
        self.store(a);
        Ok(out)
    }

    /// Stops the active recording now.
    pub fn stop_recording(&mut self) -> (r: Result<RecordedWorkflow, String>)
        ensures
            match old(self).active_spec() {
                None => r matches Err(e) && e@ == "No active recording session"@ && final(self).history_spec() == old(self).history_spec(),
                Some(a) => r matches Ok(x) && x@.stopped_at_ms is Some
                    && x@ == (WorkflowView { stopped_at_ms: x@.stopped_at_ms, step_count: a.steps.len() as usize, ..a })
                    && final(self).history_spec() == stored(old(self).history_spec(), x@),
            },
            final(self).active_spec() is None,
    {
        let now = now_ms();
        self.stop_recording_at(now)
    }

    fn store(&mut self, w: RecordedWorkflow)
        ensures
            final(self).history_spec() == stored(old(self).history_spec(), w@),
            final(self).active_spec() == old(self).active_spec(),
    {
        let ghost h = self.history_spec();
        let ghost wv = w@;
        let at = find_recording(&self.history, w.id.as_str());
        let mut list: Vec<RecordedWorkflow> = Vec::new();
        std::mem::swap(&mut list, &mut self.history);
        let ghost h2 = match crate::third_party::first_where(h, has_id(wv.id)) {
            Some(i) => h.update(i, wv),
            None => h.push(wv),
        };
        match at {
            Some(i) => {
                list.set(i, w);
            },
            None => {
                list.push(w);
            },
        }
        assert(workflows_view(list@) =~= h2);
        if list.len() > MAX_HISTORY_RECORDINGS {
            let k = oldest_index(&list);
            let ghost before = workflows_view(list@);
            let _ = list.remove(k);
            assert(workflows_view(list@) =~= before.remove(k as int));
        }
        self.history = list;
    }

    /// A recording by id: the active one where it has that id, else the
    /// first of the history with it.
    pub fn get_recording(&self, id: &str) -> (r: Option<RecordedWorkflow>)
        ensures
            match self.active_spec() {
                Some(a) => if a.id == id@ {
                    r matches Some(x) && x@ == a
                } else {
                    match crate::third_party::first_where(self.history_spec(), has_id(id@)) {
                        Some(i) => r matches Some(x) && x@ == self.history_spec()[i],
                        None => r is None,
                    }
                },
                None => match crate::third_party::first_where(self.history_spec(), has_id(id@)) {
                    Some(i) => r matches Some(x) && x@ == self.history_spec()[i],
                    None => r is None,
                },
            },
    {
        match &self.active {
            Some(a) => {
                if str_eq(a.id.as_str(), id) {
                    return Some(a.copy());
                }
            },
            None => {},
        }
        match find_recording(&self.history, id) {
            Some(i) => {
                assert(self.history_spec()[i as int] == self.history@[i as int]@);
                Some(self.history[i].copy())
            },
            None => None,
        }
    }

    pub fn active_recording(&self) -> (r: Option<RecordedWorkflow>)
        ensures
            match self.active_spec() {
                Some(a) => r matches Some(x) && x@ == a,
                None => r is None,
            },
    {
        match &self.active {
            Some(a) => Some(a.copy()),
            None => None,
        }
    }
}

fn find_recording(h: &Vec<RecordedWorkflow>, id: &str) -> (r: Option<usize>)
    ensures
        match crate::third_party::first_where(workflows_view(h@), has_id(id@)) {
            Some(i) => r matches Some(x) && x as int == i && 0 <= i < h@.len(),
            None => r is None,
        },
{
    let ghost hv = workflows_view(h@);
    let ghost p = has_id(id@);
    let mut i: usize = 0;
    while i < h.len()
        invariant
            i <= h@.len(),
            hv == workflows_view(h@),
            p == has_id(id@),
            forall|j: int| 0 <= j < i ==> !p(#[trigger] hv[j]),
        decreases h@.len() - i,
    {
        if str_eq(h[i].id.as_str(), id) {
            proof {
                crate::third_party::lemma_first_where_skip(hv, p, i as int);
                assert(hv.skip(i as int)[0] == hv[i as int]);
            }
            return Some(i);
        }
        i = i + 1;
    }
    proof {
        crate::third_party::lemma_first_where_skip(hv, p, i as int);
        assert(hv.skip(i as int).len() == 0);
    }
    None
}

fn oldest_index(h: &Vec<RecordedWorkflow>) -> (r: usize)
    requires
        h@.len() > 0,
    ensures
        r as int == oldest(workflows_view(h@)),
        r < h@.len(),
{
    let ghost hv = workflows_view(h@);
    let mut k: usize = 0;
    let mut i: usize = 1;
    assert(hv.take(1).len() == 1);
    while i < h.len()
        invariant
            1 <= i <= h@.len(),
            hv == workflows_view(h@),
            k < i,
            k as int == oldest(hv.take(i as int)),
        decreases h@.len() - i,
    {
        let ghost t = hv.take(i + 1);
        assert(t.drop_last() =~= hv.take(i as int));
        assert(t.last() == hv[i as int]);
        assert(t[k as int] == hv[k as int]);
        assert(hv[i as int].started_at_ms == h@[i as int].started_at_ms);
        assert(hv[k as int].started_at_ms == h@[k as int].started_at_ms);
        if h[i].started_at_ms < h[k].started_at_ms {
            k = i;
        }
        i = i + 1;
    }
    assert(hv.take(i as int) =~= hv);
    k
}

fn step_refusal_exec(step_count: usize, kind: &String, label: &String, payload: &Option<String>) -> (r: Option<String>)
    ensures
        match step_refusal(step_count as nat, kind@, label@, crate::manifest::opt_view(*payload)) {
            Some(m) => r matches Some(x) && x@ == m,
            None => r is None,
        },
{
    if step_count >= MAX_STEPS_PER_RECORDING {
        return Some(owned("Recording step limit reached (max 400)"));
    }
    let k = trim_vec(&chars_of(kind.as_str()));
    if k.len() == 0 {
        return Some(owned("Recording step kind is required"));
    }
    let ks = string_of(k.as_slice());
    if !is_allowed_kind(ks.as_str()) {
        let mut m = chars_of("Unsupported recording step kind '");
        push_all(&mut m, &k);
        push_all(&mut m, &chars_of("'"));
        return Some(string_of(m.as_slice()));
    }
    if trim_vec(&chars_of(label.as_str())).len() == 0 {
        return Some(owned("Recording step label is required"));
    }
    match payload {
        Some(p) => {
            let n = p.as_str().len();
            if n > MAX_PAYLOAD_BYTES {
                let mut m = chars_of("Recording step payload too large (");
                push_decimal(&mut m, n as u64);
                push_all(&mut m, &chars_of(" bytes, max 24576)"));
                return Some(string_of(m.as_slice()));
            }
        },
        None => {},
    }
    None
}

/// The step kinds a recording takes in are exactly `user_instruction`, `agent_run`,
/// `tool_call`, `tool_result`, `status`, `agent_generated` and `agent_run_requested`; a step
/// of one of these kinds, with a label that is not blank and no payload, is taken in while the
/// recording holds fewer than 400 steps.
pub proof fn law_accepted_step_kinds(kind: Seq<char>, step_count: nat, label: Seq<char>)
    ensures
        allowed_kind(kind) <==> set!["user_instruction"@, "agent_run"@, "tool_call"@, "tool_result"@, "status"@, "agent_generated"@, "agent_run_requested"@].contains(kind),
        set!["user_instruction"@, "agent_run"@, "tool_call"@, "tool_result"@, "status"@, "agent_generated"@, "agent_run_requested"@].contains(kind) && step_count < 400 && trim(label).len() > 0 ==> step_refusal(
            step_count,
            kind,
            label,
            None,
        ) is None,
{
    assert(trim("user_instruction"@) == "user_instruction"@ && "user_instruction"@.len() > 0) by {
        reveal_strlit("user_instruction");
        assert(crate::text::trim_start("user_instruction"@) == "user_instruction"@);
        assert(crate::text::trim_end("user_instruction"@) == "user_instruction"@);
    }
    assert(trim("agent_run"@) == "agent_run"@ && "agent_run"@.len() > 0) by {
        reveal_strlit("agent_run");
        assert(crate::text::trim_start("agent_run"@) == "agent_run"@);
        assert(crate::text::trim_end("agent_run"@) == "agent_run"@);
    }
    assert(trim("tool_call"@) == "tool_call"@ && "tool_call"@.len() > 0) by {
        reveal_strlit("tool_call");
        assert(crate::text::trim_start("tool_call"@) == "tool_call"@);
        assert(crate::text::trim_end("tool_call"@) == "tool_call"@);
    }
    assert(trim("tool_result"@) == "tool_result"@ && "tool_result"@.len() > 0) by {
        reveal_strlit("tool_result");
        assert(crate::text::trim_start("tool_result"@) == "tool_result"@);
        assert(crate::text::trim_end("tool_result"@) == "tool_result"@);
    }
    assert(trim("status"@) == "status"@ && "status"@.len() > 0) by {
        reveal_strlit("status");
        assert(crate::text::trim_start("status"@) == "status"@);
        assert(crate::text::trim_end("status"@) == "status"@);
    }
    assert(trim("agent_generated"@) == "agent_generated"@ && "agent_generated"@.len() > 0) by {
        reveal_strlit("agent_generated");
        assert(crate::text::trim_start("agent_generated"@) == "agent_generated"@);
        assert(crate::text::trim_end("agent_generated"@) == "agent_generated"@);
    }
    assert(trim("agent_run_requested"@) == "agent_run_requested"@ && "agent_run_requested"@.len() > 0) by {
        reveal_strlit("agent_run_requested");
        assert(crate::text::trim_start("agent_run_requested"@) == "agent_run_requested"@);
        assert(crate::text::trim_end("agent_run_requested"@) == "agent_run_requested"@);
    }
}

} // verus!
