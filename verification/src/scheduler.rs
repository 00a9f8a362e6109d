//! The persistent scheduler's table of recurring workspace runs: what a new
//! run holds, how runs are listed, changed, claimed when due and closed
//! after they ran, and the notice a finished run gives. Keeping the table in
//! the database, the clock, and running the agent are the caller's part.
use vstd::prelude::*;
use crate::schedule::{
    copy_opt, find_run, given, given_exec, run_pos, normalize_scheduled_prompt, normalize_scheduled_run_title, normalized_text,
    opt_text, runs_view, RunView, WorkspaceScheduledRun, WorkspaceScheduledRunUpdate,
    cron_error_text, cron_accepts,
};
use crate::text::{chars_of, concat2, contains_seq, contains_sub, concat3, copy_strings, decimal, decimal_string, owned, str_eq, str_views, trim, trim_str};
use crate::recorder::new_uuid;
use crate::third_party::unix_seconds;

verus! {

/// The row of a new scenario run.
pub open spec fn scenario_row(
    id: Seq<char>,
    workspace_id: Seq<char>,
    workspace_path: Seq<char>,
    title: Seq<char>,
    scenario_id: Seq<char>,
    schedule: Seq<char>,
    trust_preset: Seq<char>,
    packs: Seq<Seq<char>>,
    now: i64,
    next_run: i64,
) -> RunView {
    RunView {
        id,
        workspace_id,
        workspace_path,
        job_kind: "scenario"@,
        title,
        scenario_id,
        prompt_text: None,
        schedule,
        trust_preset,
        enabled_pack_ids: packs,
        created_at: now,
        next_run_at: next_run,
        last_run_at: None,
        last_status: None,
        last_chat_id: None,
        last_error: None,
        last_request_id: None,
        last_artifact_count: 0,
        last_requires_explicit_approval: false,
        last_blocked_by_approval: false,
    }
}

/// The row of a new prompt run: no scenario, the `balanced` trust preset and
/// no packs.
pub open spec fn prompt_row(
    id: Seq<char>,
    workspace_id: Seq<char>,
    workspace_path: Seq<char>,
    title: Seq<char>,
    prompt: Seq<char>,
    schedule: Seq<char>,
    now: i64,
    next_run: i64,
) -> RunView {
    RunView {
        id,
        workspace_id,
        workspace_path,
        job_kind: "prompt"@,
        title,
        scenario_id: Seq::empty(),
        prompt_text: Some(prompt),
        schedule,
        trust_preset: "balanced"@,
        enabled_pack_ids: Seq::empty(),
        created_at: now,
        next_run_at: next_run,
        last_run_at: None,
        last_status: None,
        last_chat_id: None,
        last_error: None,
        last_request_id: None,
        last_artifact_count: 0,
        last_requires_explicit_approval: false,
        last_blocked_by_approval: false,
    }
}

pub open spec fn unknown_scenario(scenario_id: Seq<char>) -> Seq<char> {
    "Unknown first-party scenario '"@ + scenario_id + "'"@
}

/// The title of a scenario run: the scenario's title, else its id.
pub open spec fn scenario_title_or_id(title: Option<Seq<char>>, scenario_id: Seq<char>) -> Seq<char> {
    match title {
        Some(t) => t,
        None => scenario_id,
    }
}

/// A run belongs to a workspace that it names by id or by path.
pub open spec fn of_workspace(r: RunView, workspace_ref: Seq<char>) -> bool {
    r.workspace_id == workspace_ref || r.workspace_path == workspace_ref
}

pub open spec fn newer_pos(t: Seq<RunView>, x: RunView) -> int
    decreases t.len(),
{
    if t.len() == 0 {
        0
    } else if t[0].created_at < x.created_at {
        0
    } else {
        1 + newer_pos(t.drop_first(), x)
    }
}

/// Runs, newest first; runs made at the same second keep their order.
pub open spec fn newest_first(s: Seq<RunView>) -> Seq<RunView>
    decreases s.len(),
{
    if s.len() == 0 {
        s
    } else {
        let t = newest_first(s.drop_last());
        t.insert(newer_pos(t, s.last()), s.last())
    }
}

proof fn lemma_newer_pos_skip(t: Seq<RunView>, x: RunView, i: int)
    requires
        0 <= i <= t.len(),
        forall|j: int| 0 <= j < i ==> (#[trigger] t[j]).created_at >= x.created_at,
    ensures
        newer_pos(t, x) == i + newer_pos(t.skip(i), x),
    decreases i,
{
    if i == 0 {
        assert(t.skip(0) =~= t);
    } else {
        lemma_newer_pos_skip(t.drop_first(), x, i - 1);
        assert(t.drop_first().skip(i - 1) =~= t.skip(i));
    }
}

pub open spec fn keeps_run(id: Seq<char>) -> spec_fn(RunView) -> bool {
    |x: RunView| x.id != id
}

/// The runs without those with id `id`.
pub open spec fn without_run(runs: Seq<RunView>, id: Seq<char>) -> Seq<RunView> {
    runs.filter(keeps_run(id))
}

/// What the database answers to a second run with the same id.
pub open spec fn duplicate_key_error() -> Seq<char> {
    "error returned from database: (code: 1555) UNIQUE constraint failed: workspace_scheduled_runs.id"@
}

proof fn lemma_run_pos_none(runs: Seq<RunView>, id: Seq<char>)
    requires
        run_pos(runs, id) is None,
    ensures
        forall|j: int| 0 <= j < runs.len() ==> (#[trigger] runs[j]).id != id,
    decreases runs.len(),
{
    if runs.len() > 0 {
        lemma_run_pos_none(runs.drop_first(), id);
        assert forall|j: int| 0 <= j < runs.len() implies (#[trigger] runs[j]).id != id by {
            if j > 0 {
                assert(runs.drop_first()[j - 1] == runs[j]);
            }
        }
    }
}

proof fn lemma_run_pos_some(runs: Seq<RunView>, id: Seq<char>)
    requires
        run_pos(runs, id) is Some,
    ensures
        0 <= run_pos(runs, id)->0 < runs.len(),
        runs[run_pos(runs, id)->0].id == id,
    decreases runs.len(),
{
    if runs[0].id != id {
        lemma_run_pos_some(runs.drop_first(), id);
    }
}


/// A change to a run, as values.
pub struct UpdateView {
    pub title: Option<Seq<char>>,
    pub prompt_text: Option<Seq<char>>,
    pub scenario_id: Option<Seq<char>>,
    pub schedule: Seq<char>,
    pub trust_preset: Option<Seq<char>>,
    pub enabled_pack_ids: Option<Seq<Seq<char>>>,
}

pub open spec fn update_view(u: WorkspaceScheduledRunUpdate) -> UpdateView {
    UpdateView {
        title: opt_text(u.title),
        prompt_text: opt_text(u.prompt_text),
        scenario_id: opt_text(u.scenario_id),
        schedule: u.schedule@,
        trust_preset: opt_text(u.trust_preset),
        enabled_pack_ids: match u.enabled_pack_ids {
            Some(p) => Some(str_views(p@)),
            None => None,
        },
    }
}

/// The scenario of an updated scenario run.
pub open spec fn update_scenario(existing: RunView, named: Option<Seq<char>>) -> Seq<char> {
    match given(named) {
        Some(s) => s,
        None => existing.scenario_id,
    }
}

/// The run after an update, or why the update is refused.
pub open spec fn updated_run(
    existing: RunView,
    u: UpdateView,
    next_run_at: i64,
    scenario_known: bool,
    scenario_title: Option<Seq<char>>,
) -> Result<RunView, Seq<char>> {
    let fresh = |r: RunView| RunView {
        next_run_at: next_run_at,
        last_status: None,
        last_error: None,
        last_blocked_by_approval: false,
        ..r
    };
    if existing.job_kind == "scenario"@ {
        let sid = update_scenario(existing, u.scenario_id);
        if !scenario_known {
            Err(unknown_scenario(sid))
        } else {
            match normalized_text(scenario_title_or_id(scenario_title, sid), 120, "Scheduled run title cannot be empty"@) {
                Err(e) => Err(e),
                Ok(title) => Ok(fresh(RunView {
                    title: title,
                    scenario_id: sid,
                    prompt_text: None,
                    schedule: u.schedule,
                    trust_preset: match u.trust_preset {
                        Some(t) => t,
                        None => existing.trust_preset,
                    },
                    enabled_pack_ids: match u.enabled_pack_ids {
                        Some(p) => p,
                        None => existing.enabled_pack_ids,
                    },
                    ..existing
                })),
            }
        }
    } else if existing.job_kind == "prompt"@ {
        match normalized_text(
            match u.title {
                Some(t) => t,
                None => existing.title,
            },
            120,
            "Scheduled run title cannot be empty"@,
        ) {
            Err(e) => Err(e),
            Ok(title) => match (if u.prompt_text is Some { u.prompt_text } else { existing.prompt_text }) {
                None => Err("Scheduled prompt task is missing prompt_text"@),
                Some(raw) => match normalized_text(raw, 24000, "Scheduled prompt cannot be empty"@) {
                    Err(e) => Err(e),
                    Ok(p) => Ok(fresh(RunView {
                        title: title,
                        scenario_id: Seq::empty(),
                        prompt_text: Some(p),
                        schedule: u.schedule,
                        ..existing
                    })),
                },
            },
        }
    } else {
        Err("Unsupported scheduled run kind '"@ + existing.job_kind + "' for update"@)
    }
}

/// How a run ended.
#[derive(Debug)]
pub struct RunOutcome {
    pub status: String,
    pub chat_id: Option<String>,
    pub request_id: Option<String>,
    pub artifact_count: u64,
    pub requires_explicit_approval: bool,
    pub blocked_by_approval: bool,
    pub error: Option<String>,
}

pub struct OutcomeView {
    pub status: Seq<char>,
    pub chat_id: Option<Seq<char>>,
    pub request_id: Option<Seq<char>>,
    pub artifact_count: u64,
    pub requires_explicit_approval: bool,
    pub blocked_by_approval: bool,
    pub error: Option<Seq<char>>,
}

pub open spec fn outcome_view(o: RunOutcome) -> OutcomeView {
    OutcomeView {
        status: o.status@,
        chat_id: opt_text(o.chat_id),
        request_id: opt_text(o.request_id),
        artifact_count: o.artifact_count,
        requires_explicit_approval: o.requires_explicit_approval,
        blocked_by_approval: o.blocked_by_approval,
        error: opt_text(o.error),
    }
}

/// The run after it ended at `now`.
pub open spec fn finalized(r: RunView, o: OutcomeView, now: i64) -> RunView {
    RunView {
        last_run_at: Some(now),
        last_status: Some(o.status),
        last_chat_id: o.chat_id,
        last_request_id: o.request_id,
        last_artifact_count: if o.artifact_count <= i64::MAX { o.artifact_count } else { 0 },
        last_requires_explicit_approval: o.requires_explicit_approval,
        last_blocked_by_approval: o.blocked_by_approval,
        last_error: o.error,
        ..r
    }
}


/// `cron::Schedule::from_str`, then the first time of `upcoming(Utc)`, in
/// seconds since the Unix epoch. An expression that the cron crate refuses
/// gives the text of its parse error (the one message of cron 0.12); one
/// that it accepts gives the next time, or `None` where the schedule never
/// fires again. Which time comes depends on the clock, so nothing more is
/// said of it.
#[verifier::external_body]
fn upcoming_fire_time(schedule: &str) -> (r: Result<Option<i64>, String>)
    ensures
        match r {
            Ok(_) => cron_accepts(schedule@),
            Err(e) => !cron_accepts(schedule@) && e@ == cron_error_text(),
        },
{
    match <cron::Schedule as std::str::FromStr>::from_str(schedule) {
        Err(e) => Err(e.to_string()),
        Ok(s) => match s.upcoming(chrono::Utc).next() {
            Some(t) => Ok(Some(t.timestamp())),
            None => Ok(None),
        },
    }
}

/// When `schedule` next fires: a refused expression is `Invalid cron
/// schedule: ` and the parse error; a schedule that never fires again is
/// `Cannot calculate next run`.
pub(crate) fn next_run_timestamp(schedule: &str) -> (r: Result<i64, String>)
    ensures
        match r {
            Ok(_) => cron_accepts(schedule@),
            Err(e) => if cron_accepts(schedule@) {
                e@ == "Cannot calculate next run"@
            } else {
                e@ == "Invalid cron schedule: "@ + cron_error_text()
            },
        },
{
    match upcoming_fire_time(schedule) {
        Err(e) => Err(concat2("Invalid cron schedule: ", e.as_str())),
        Ok(Some(t)) => Ok(t),
        Ok(None) => Err(owned("Cannot calculate next run")),
    }
}

/// The notice of a finished run: its title and body.
pub open spec fn run_notice(title: Seq<char>, workspace_path: Seq<char>, status: Seq<char>, artifact_count: u64, error: Option<Seq<char>>, blocked_by_approval: bool) -> (Seq<char>, Seq<char>) {
    if status == "completed"@ {
        (
            "Scheduled run completed: "@ + title,
            if artifact_count > 0 {
                "Workspace task finished in "@ + workspace_path + " and produced "@ + decimal(artifact_count as nat) + " artifact"@
                    + (if artifact_count == 1 { ""@ } else { "s"@ }) + "."@
            } else {
                "Workspace task finished in "@ + workspace_path + "."@
            },
        )
    } else if blocked_by_approval {
        (
            "Scheduled run waiting for approval: "@ + title,
            "The recurring task reached an Airlock approval gate and needs your decision."@,
        )
    } else {
        (
            "Scheduled run failed: "@ + title,
            match error {
                Some(e) => e,
                None => "The recurring task did not finish successfully."@,
            },
        )
    }
}

pub fn run_notification(job: &WorkspaceScheduledRun, status: &str, artifact_count: u64, error: Option<&str>, blocked_by_approval: bool) -> (r: (String, String))
    ensures
        (r.0@, r.1@) == run_notice(job.title@, job.workspace_path@, status@, artifact_count, match error {
            Some(e) => Some(e@),
            None => None,
        }, blocked_by_approval),
{
    if str_eq(status, "completed") {
        let title = concat2("Scheduled run completed: ", job.title.as_str());
        let body = if artifact_count > 0 {
            let a = concat3("Workspace task finished in ", job.workspace_path.as_str(), " and produced ");
            let b = concat3(a.as_str(), decimal_string(artifact_count).as_str(), " artifact");
            concat3(b.as_str(), if artifact_count == 1 { "" } else { "s" }, ".")
        } else {
            concat3("Workspace task finished in ", job.workspace_path.as_str(), ".")
        };
        (title, body)
    } else if blocked_by_approval {
        (
            concat2("Scheduled run waiting for approval: ", job.title.as_str()),
            owned("The recurring task reached an Airlock approval gate and needs your decision."),
        )
    } else {
        (
            concat2("Scheduled run failed: ", job.title.as_str()),
            match error {
                Some(e) => owned(e),
                None => owned("The recurring task did not finish successfully."),
            },
        )
    }
}

/// A run as values, or the error text.
pub open spec fn run_result(r: Result<WorkspaceScheduledRun, String>) -> Result<RunView, Seq<char>> {
    match r {
        Ok(x) => Ok(x@),
        Err(e) => Err(e@),
    }
}

/// When a schedule next fires, as values.
pub open spec fn next_result(n: Result<i64, String>) -> Result<i64, Seq<char>> {
    match n {
        Ok(t) => Ok(t),
        Err(e) => Err(e@),
    }
}

/// What the cron crate can say of when `schedule` next fires.
pub open spec fn next_fire_outcome(schedule: Seq<char>, next: Result<i64, Seq<char>>) -> bool {
    match next {
        Ok(_) => cron_accepts(schedule),
        Err(e) => if cron_accepts(schedule) {
            e == "Cannot calculate next run"@
        } else {
            e == "Invalid cron schedule: "@ + cron_error_text()
        },
    }
}

/// Storing `row` as a new run: refused where its id is taken.
pub open spec fn row_inserted(before: Seq<RunView>, after: Seq<RunView>, r: Result<RunView, Seq<char>>, row: RunView) -> bool {
    if run_pos(before, row.id) is Some {
        r == Err::<RunView, Seq<char>>(duplicate_key_error()) && after == before
    } else {
        r == Ok::<RunView, Seq<char>>(row) && after == before.push(row)
    }
}

/// What adding a scenario run does to the table (`before` to `after`) and answers.
pub open spec fn scenario_run_added(
    before: Seq<RunView>,
    after: Seq<RunView>,
    r: Result<RunView, Seq<char>>,
    workspace_id: Seq<char>,
    workspace_path: Seq<char>,
    scenario_id: Seq<char>,
    schedule: Seq<char>,
    trust_preset: Seq<char>,
    packs: Seq<Seq<char>>,
    scenario_known: bool,
    scenario_title: Option<Seq<char>>,
    next: Result<i64, Seq<char>>,
    id: Seq<char>,
    now: i64,
) -> bool {
    if !scenario_known {
        r == Err::<RunView, Seq<char>>(unknown_scenario(scenario_id)) && after == before
    } else {
        match normalized_text(scenario_title_or_id(scenario_title, scenario_id), 120, "Scheduled run title cannot be empty"@) {
            Err(e) => r == Err::<RunView, Seq<char>>(e) && after == before,
            Ok(title) => match next {
                Err(e) => r == Err::<RunView, Seq<char>>(e) && after == before,
                Ok(n) => row_inserted(before, after, r, scenario_row(id, workspace_id, workspace_path, title, scenario_id, schedule, trust_preset, packs, now, n)),
            },
        }
    }
}

/// What adding a prompt run does to the table and answers.
pub open spec fn prompt_run_added(
    before: Seq<RunView>,
    after: Seq<RunView>,
    r: Result<RunView, Seq<char>>,
    workspace_id: Seq<char>,
    workspace_path: Seq<char>,
    title: Seq<char>,
    prompt_text: Seq<char>,
    schedule: Seq<char>,
    next: Result<i64, Seq<char>>,
    id: Seq<char>,
    now: i64,
) -> bool {
    match normalized_text(title, 120, "Scheduled run title cannot be empty"@) {
        Err(e) => r == Err::<RunView, Seq<char>>(e) && after == before,
        Ok(t) => match normalized_text(prompt_text, 24000, "Scheduled prompt cannot be empty"@) {
            Err(e) => r == Err::<RunView, Seq<char>>(e) && after == before,
            Ok(p) => match next {
                Err(e) => r == Err::<RunView, Seq<char>>(e) && after == before,
                Ok(n) => row_inserted(before, after, r, prompt_row(id, workspace_id, workspace_path, t, p, schedule, now, n)),
            },
        },
    }
}

/// What updating the run `id` does to the table and answers.
pub open spec fn run_updated(
    before: Seq<RunView>,
    after: Seq<RunView>,
    r: Result<RunView, Seq<char>>,
    id: Seq<char>,
    u: UpdateView,
    next: Result<i64, Seq<char>>,
    scenario_known: bool,
    scenario_title: Option<Seq<char>>,
) -> bool {
    match run_pos(before, id) {
        None => r == Err::<RunView, Seq<char>>("Scheduled run '"@ + id + "' was not found"@) && after == before,
        Some(k) => match next {
            Err(e) => r == Err::<RunView, Seq<char>>(e) && after == before,
            Ok(n) => match updated_run(before[k], u, n, scenario_known, scenario_title) {
                Err(e) => r == Err::<RunView, Seq<char>>(e) && after == before,
                Ok(row) => r == Ok::<RunView, Seq<char>>(row) && after == before.update(k, row),
            },
        },
    }
}

/// The recurring runs of the workspaces, in the order they were made.
#[derive(Debug)]
pub struct WorkspaceRunTable {
    runs: Vec<WorkspaceScheduledRun>,
}

impl WorkspaceRunTable {
    pub closed spec fn runs_spec(&self) -> Seq<RunView> {
        runs_view(self.runs@)
    }

    /// No two runs share an id: the id is the table's key.
    pub open spec fn wf(&self) -> bool {
        forall|i: int, j: int| 0 <= i < j < self.runs_spec().len() ==> #[trigger] self.runs_spec()[i].id != #[trigger] self.runs_spec()[j].id
    }

    pub fn new() -> (r: Self)
        ensures
            r.wf(),
            r.runs_spec().len() == 0,
    {
        let r = WorkspaceRunTable { runs: Vec::new() };
        assert(r.runs_spec() =~= Seq::<RunView>::empty());
        r
    }

    /// Inserts a row, unless its id is taken: the database's key refuses it.
    fn insert(&mut self, row: WorkspaceScheduledRun) -> (r: Result<WorkspaceScheduledRun, String>)
        requires
            old(self).wf(),
        ensures
            final(self).wf(),
            run_pos(old(self).runs_spec(), row@.id) is Some ==> (r matches Err(e) && e@ == duplicate_key_error()
                && final(self).runs_spec() == old(self).runs_spec()),
            run_pos(old(self).runs_spec(), row@.id) is None ==> (r matches Ok(x) && x@ == row@
                && final(self).runs_spec() == old(self).runs_spec().push(row@)),
    {
        if find_run(&self.runs, row.id.as_str()).is_some() {
            return Err(owned("error returned from database: (code: 1555) UNIQUE constraint failed: workspace_scheduled_runs.id"));
        }
        proof {
            lemma_run_pos_none(self.runs_spec(), row@.id);
        }
        let out = row.copy();
        let ghost rv = row@;
        self.runs.push(row);
        assert(self.runs_spec() =~= old(self).runs_spec().push(rv));
        Ok(out)
    }

    /// Adds a run of the first-party scenario `scenario_id`. `scenario_known`
    /// and `scenario_title` are what the scenario catalog says of it;
    /// `next_run` is when the schedule next fires (or why it cannot); `id`
    /// and `now` name and date the new run.
    pub fn add_workspace_run(
        &mut self,
        workspace_id: String,
        workspace_path: String,
        scenario_id: String,
        schedule: String,
        trust_preset: String,
        enabled_pack_ids: Vec<String>,
        scenario_known: bool,
        scenario_title: Option<String>,
        next_run: Result<i64, String>,
        id: String,
        now: i64,
    ) -> (r: Result<WorkspaceScheduledRun, String>)
        requires
            old(self).wf(),
        ensures
            final(self).wf(),
            scenario_run_added(old(self).runs_spec(), final(self).runs_spec(), run_result(r), workspace_id@, workspace_path@,
                scenario_id@, schedule@, trust_preset@, str_views(enabled_pack_ids@), scenario_known,
                opt_text(scenario_title), next_result(next_run), id@, now),
    {
        if !scenario_known {
            return Err(concat3("Unknown first-party scenario '", scenario_id.as_str(), "'"));
        }
        let raw_title = match &scenario_title {
            Some(t) => t.clone(),
            None => scenario_id.clone(),
        };
        let title = match normalize_scheduled_run_title(raw_title.as_str()) {
            Err(e) => return Err(e),
            Ok(t) => t,
        };
        let next = match next_run {
            Err(e) => return Err(e),
            Ok(n) => n,
        };
        let row = WorkspaceScheduledRun {
            id,
            workspace_id,
            workspace_path,
            job_kind: owned("scenario"),
            title,
            scenario_id,
            prompt_text: None,
            schedule,
            trust_preset,
            enabled_pack_ids,
            created_at: now,
            next_run_at: next,
            last_run_at: None,
            last_status: None,
            last_chat_id: None,
            last_error: None,
            last_request_id: None,
            last_artifact_count: 0,
            last_requires_explicit_approval: false,
            last_blocked_by_approval: false,
        };
        self.insert(row)
    }

    /// Adds a run of a prompt; `next_run`, `id` and `now` as for scenario runs.
    pub fn add_workspace_prompt_run(
        &mut self,
        workspace_id: String,
        workspace_path: String,
        title: String,
        prompt_text: String,
        schedule: String,
        next_run: Result<i64, String>,
        id: String,
        now: i64,
    ) -> (r: Result<WorkspaceScheduledRun, String>)
        requires
            old(self).wf(),
        ensures
            final(self).wf(),
            prompt_run_added(old(self).runs_spec(), final(self).runs_spec(), run_result(r), workspace_id@, workspace_path@,
                title@, prompt_text@, schedule@, next_result(next_run), id@, now),
    {
        let t = match normalize_scheduled_run_title(title.as_str()) {
            Err(e) => return Err(e),
            Ok(t) => t,
        };
        let p = match normalize_scheduled_prompt(prompt_text.as_str()) {
            Err(e) => return Err(e),
            Ok(p) => p,
        };
        let next = match next_run {
            Err(e) => return Err(e),
            Ok(n) => n,
        };
        let row = WorkspaceScheduledRun {
            id,
            workspace_id,
            workspace_path,
            job_kind: owned("prompt"),
            title: t,
            scenario_id: String::new(),
            prompt_text: Some(p),
            schedule,
            trust_preset: owned("balanced"),
            enabled_pack_ids: Vec::new(),
            created_at: now,
            next_run_at: next,
            last_run_at: None,
            last_status: None,
            last_chat_id: None,
            last_error: None,
            last_request_id: None,
            last_artifact_count: 0,
            last_requires_explicit_approval: false,
            last_blocked_by_approval: false,
        };
        assert(str_views(row.enabled_pack_ids@) =~= Seq::<Seq<char>>::empty());
        self.insert(row)
    }

    /// The runs of the workspace that `workspace_ref` names by id or by
    /// path, newest first.
    pub fn list_workspace_runs(&self, workspace_ref: &str) -> (r: Vec<WorkspaceScheduledRun>)
        ensures
            runs_view(r@) == newest_first(self.runs_spec().filter(|x: RunView| of_workspace(x, workspace_ref@))),
    {
        let ghost all = self.runs_spec();
        let ghost f = |x: RunView| of_workspace(x, workspace_ref@);
        let mut out: Vec<WorkspaceScheduledRun> = Vec::new();
        let mut k: usize = 0;
        while k < self.runs.len()
            invariant
                k <= self.runs@.len(),
                all == self.runs_spec(),
                f == |x: RunView| of_workspace(x, workspace_ref@),
                runs_view(out@) == newest_first(all.take(k as int).filter(f)),
            decreases self.runs@.len() - k,
        {
            let ghost pre = all.take(k + 1);
            assert(pre.drop_last() =~= all.take(k as int));
            assert(pre.last() == self.runs@[k as int]@);
            proof {
                reveal(Seq::filter);
            }
            let keep = str_eq(self.runs[k].workspace_id.as_str(), workspace_ref)
                || str_eq(self.runs[k].workspace_path.as_str(), workspace_ref);
            if keep {
                let x = self.runs[k].copy();
                let mut p: usize = 0;
                while p < out.len() && !(out[p].created_at < x.created_at)
                    invariant
                        p <= out.len(),
                        forall|j: int| 0 <= j < p ==> (#[trigger] runs_view(out@)[j]).created_at >= x@.created_at,
                    decreases out.len() - p,
                {
                    assert(runs_view(out@)[p as int] == out@[p as int]@);
                    p = p + 1;
                }
                proof {
                    let t = runs_view(out@);
                    lemma_newer_pos_skip(t, x@, p as int);
                    if p < out.len() {
                        assert(t.skip(p as int)[0] == t[p as int]);
                    }
                    assert(newer_pos(t, x@) == p);
                    assert(pre.filter(f) == all.take(k as int).filter(f).push(x@));
                    let s0 = all.take(k as int).filter(f);
                    assert(s0.push(x@).drop_last() =~= s0);
                    assert(newest_first(s0.push(x@)) == newest_first(s0).insert(newer_pos(newest_first(s0), x@), x@));
                    assert(runs_view(out@.insert(p as int, x)) =~= t.insert(p as int, x@));
                }
                out.insert(p, x);
            } else {
                assert(pre.filter(f) == all.take(k as int).filter(f));
            }
            k = k + 1;
        }
        assert(all.take(k as int) =~= all);
        out
    }

    /// Deletes the runs with id `id`.
    pub fn remove_workspace_run(&mut self, id: &str)
        requires
            old(self).wf(),
        ensures
            final(self).wf(),
            final(self).runs_spec() == without_run(old(self).runs_spec(), id@),
    {
        let ghost all = self.runs_spec();
        let ghost f = keeps_run(id@);
        let mut old_runs: Vec<WorkspaceScheduledRun> = Vec::new();
        std::mem::swap(&mut old_runs, &mut self.runs);
        assert(runs_view(old_runs@) == all);
        let mut k: usize = 0;
        assert(self.runs_spec() =~= Seq::<RunView>::empty());
        assert(all.take(0).filter(f) =~= Seq::<RunView>::empty()) by {
            reveal(Seq::filter);
        }
        while k < old_runs.len()
            invariant
                k <= old_runs@.len(),
                all == runs_view(old_runs@),
                f == keeps_run(id@),
                self.runs_spec() == all.take(k as int).filter(f),
                forall|i: int, j: int| 0 <= i < j < all.len() ==> #[trigger] all[i].id != #[trigger] all[j].id,
                forall|i: int, j: int| 0 <= i < j < self.runs_spec().len() ==> #[trigger] self.runs_spec()[i].id != #[trigger] self.runs_spec()[j].id,
                forall|m: int| 0 <= m < self.runs_spec().len() ==> exists|j: int| 0 <= j < k && #[trigger] all[j].id == (#[trigger] self.runs_spec()[m]).id,
            decreases old_runs@.len() - k,
        {
            let ghost pre = all.take(k + 1);
            assert(pre.drop_last() =~= all.take(k as int));
            assert(pre.last() == old_runs@[k as int]@);
            proof {
                reveal(Seq::filter);
            }
            if !str_eq(old_runs[k].id.as_str(), id) {
                let x = old_runs[k].copy();
                let ghost before = self.runs_spec();
                assert(x@ == all[k as int]);
                assert forall|m: int| 0 <= m < before.len() implies before[m].id != x@.id by {
                    let j = choose|j: int| 0 <= j < k && #[trigger] all[j].id == (#[trigger] before[m]).id;
                    assert(all[j].id != all[k as int].id);
                }
                self.runs.push(x);
                assert(self.runs_spec() =~= before.push(x@));
                assert forall|m: int| 0 <= m < self.runs_spec().len() implies exists|j: int| 0 <= j < k + 1 && #[trigger] all[j].id == (#[trigger] self.runs_spec()[m]).id by {
                    if m < before.len() {
                        let j = choose|j: int| 0 <= j < k && #[trigger] all[j].id == (#[trigger] before[m]).id;
                        assert(all[j].id == self.runs_spec()[m].id);
                    } else {
                        assert(all[k as int].id == self.runs_spec()[m].id);
                    }
                }
            }
            k = k + 1;
        }
        assert(all.take(k as int) =~= all);
    }

    /// The run with id `id`.
    pub fn get_workspace_run(&self, id: &str) -> (r: Option<WorkspaceScheduledRun>)
        ensures
            match run_pos(self.runs_spec(), id@) {
                Some(k) => r matches Some(x) && x@ == self.runs_spec()[k],
                None => r is None,
            },
    {
        match find_run(&self.runs, id) {
            Some(k) => {
                assert(self.runs_spec()[k as int] == self.runs@[k as int]@);
                Some(self.runs[k].copy())
            },
            None => None,
        }
    }

    /// The scenario an update of the run `id` would run: the one it names,
    /// trimmed, else the run's own. The caller asks the scenario catalog
    /// about it before `update_workspace_run`.
    pub fn scenario_for_update(&self, id: &str, update: &WorkspaceScheduledRunUpdate) -> (r: Option<String>)
        ensures
            match run_pos(self.runs_spec(), id@) {
                Some(k) => r matches Some(x) && x@ == update_scenario(self.runs_spec()[k], opt_text(update.scenario_id)),
                None => r is None,
            },
    {
        match find_run(&self.runs, id) {
            Some(k) => {
                assert(self.runs_spec()[k as int] == self.runs@[k as int]@);
                match given_exec(&update.scenario_id) {
                    Some(s) => Some(s),
                    None => Some(self.runs[k].scenario_id.clone()),
                }
            },
            None => None,
        }
    }

    /// Changes the run `id` as `update` asks. `next_run` is when the new
    /// schedule next fires (or why it cannot); `scenario_known` and
    /// `scenario_title` are what the catalog says of the scenario that
    /// `scenario_for_update` named. A changed run starts afresh: its last
    /// status, error and approval block are cleared.
    pub fn update_workspace_run(
        &mut self,
        id: &str,
        update: WorkspaceScheduledRunUpdate,
        next_run: Result<i64, String>,
        scenario_known: bool,
        scenario_title: Option<String>,
    ) -> (r: Result<WorkspaceScheduledRun, String>)
        requires
            old(self).wf(),
        ensures
            final(self).wf(),
            run_updated(old(self).runs_spec(), final(self).runs_spec(), run_result(r), id@, update_view(update),
                next_result(next_run), scenario_known, opt_text(scenario_title)),
    {
        let k = match find_run(&self.runs, id) {
            None => return Err(concat3("Scheduled run '", id, "' was not found")),
            Some(k) => k,
        };
        let n = match next_run {
            Err(e) => return Err(e),
            Ok(n) => n,
        };
        let ghost before = self.runs_spec();
        let ghost uv = update_view(update);
        assert(before[k as int] == self.runs@[k as int]@);
        let existing = self.runs[k].copy();
        let mut row = existing.copy();
        if str_eq(existing.job_kind.as_str(), "scenario") {
            let sid = match given_exec(&update.scenario_id) {
                Some(s) => s,
                None => existing.scenario_id.clone(),
            };
            if !scenario_known {
                return Err(concat3("Unknown first-party scenario '", sid.as_str(), "'"));
            }
            let raw_title = match &scenario_title {
                Some(t) => t.clone(),
                None => sid.clone(),
            };
            let title = match normalize_scheduled_run_title(raw_title.as_str()) {
                Err(e) => return Err(e),
                Ok(t) => t,
            };
            row.title = title;
            row.scenario_id = sid;
            row.prompt_text = None;
            row.schedule = update.schedule;
            row.trust_preset = match update.trust_preset {
                Some(t) => t,
                None => existing.trust_preset,
            };
            row.enabled_pack_ids = match update.enabled_pack_ids {
                Some(p) => p,
                None => existing.enabled_pack_ids,
            };
        } else if str_eq(existing.job_kind.as_str(), "prompt") {
            let raw_title = match &update.title {
                Some(t) => t.clone(),
                None => existing.title.clone(),
            };
            let title = match normalize_scheduled_run_title(raw_title.as_str()) {
                Err(e) => return Err(e),
                Ok(t) => t,
            };
            let raw_prompt = match &update.prompt_text {
                Some(p) => p.clone(),
                None => match &existing.prompt_text {
                    Some(p) => p.clone(),
                    None => return Err(owned("Scheduled prompt task is missing prompt_text")),
                },
            };
            let prompt = match normalize_scheduled_prompt(raw_prompt.as_str()) {
                Err(e) => return Err(e),
                Ok(p) => p,
            };
            row.title = title;
            row.scenario_id = String::new();
            row.prompt_text = Some(prompt);
            row.schedule = update.schedule;
        } else {
            return Err(concat3("Unsupported scheduled run kind '", existing.job_kind.as_str(), "' for update"));
        }
        row.next_run_at = n;
        row.last_status = None;
        row.last_error = None;
        row.last_blocked_by_approval = false;
        let out = row.copy();
        let ghost rv = row@;
        proof {
            assert(str_views(row.enabled_pack_ids@) == rv.enabled_pack_ids);
        }
        self.runs.set(k, row);
        assert(self.runs_spec() =~= before.update(k as int, rv));
        assert forall|i: int, j: int| 0 <= i < j < self.runs_spec().len() implies #[trigger] self.runs_spec()[i].id != #[trigger] self.runs_spec()[j].id by {
            assert(before[i].id != before[j].id);
        }
        Ok(out)
    }

    /// The runs due at `now`, in table order.
    pub fn due_runs(&self, now: i64) -> (r: Vec<WorkspaceScheduledRun>)
        ensures
            runs_view(r@) == self.runs_spec().filter(|x: RunView| x.next_run_at <= now),
    {
        let ghost all = self.runs_spec();
        let ghost f = |x: RunView| x.next_run_at <= now;
        let mut out: Vec<WorkspaceScheduledRun> = Vec::new();
        let mut k: usize = 0;
        assert(all.take(0).filter(f) =~= Seq::<RunView>::empty()) by {
            reveal(Seq::filter);
        }
        assert(runs_view(out@) =~= Seq::<RunView>::empty());
        while k < self.runs.len()
            invariant
                k <= self.runs@.len(),
                all == self.runs_spec(),
                f == |x: RunView| x.next_run_at <= now,
                runs_view(out@) == all.take(k as int).filter(f),
            decreases self.runs@.len() - k,
        {
            let ghost pre = all.take(k + 1);
            assert(pre.drop_last() =~= all.take(k as int));
            assert(pre.last() == self.runs@[k as int]@);
            proof {
                reveal(Seq::filter);
            }
            if self.runs[k].next_run_at <= now {
                let x = self.runs[k].copy();
                assert(runs_view(out@.push(x)) =~= runs_view(out@).push(x@));
                out.push(x);
            }
            k = k + 1;
        }
        assert(all.take(k as int) =~= all);
        out
    }

    /// Marks the run `id` as running, firing next at `next_run_at`.
    pub fn mark_claimed(&mut self, id: &str, next_run_at: i64)
        requires
            old(self).wf(),
        ensures
            final(self).wf(),
            match run_pos(old(self).runs_spec(), id@) {
                None => final(self).runs_spec() == old(self).runs_spec(),
                Some(k) => final(self).runs_spec() == old(self).runs_spec().update(k, RunView {
                    next_run_at: next_run_at,
                    last_status: Some("running"@),
                    last_error: None,
                    last_blocked_by_approval: false,
                    ..old(self).runs_spec()[k]
                }),
            },
    {
        match find_run(&self.runs, id) {
            None => {},
            Some(k) => {
                let ghost before = self.runs_spec();
                assert(before[k as int] == self.runs@[k as int]@);
                let mut row = self.runs[k].copy();
                row.next_run_at = next_run_at;
                row.last_status = Some(owned("running"));
                row.last_error = None;
                row.last_blocked_by_approval = false;
                let ghost rv = row@;
                self.runs.set(k, row);
                assert(self.runs_spec() =~= before.update(k as int, rv));
                assert forall|i: int, j: int| 0 <= i < j < self.runs_spec().len() implies #[trigger] self.runs_spec()[i].id != #[trigger] self.runs_spec()[j].id by {
                    assert(before[i].id != before[j].id);
                }
            },
        }
    }

    /// Records how the run `id` ended at `now`. The artifact count is kept
    /// as the database keeps it: a count beyond `i64::MAX` reads back as 0.
    pub fn finalize_workspace_run(
        &mut self,
        id: &str,
        outcome: RunOutcome,
        now: i64,
    )
        requires
            old(self).wf(),
        ensures
            final(self).wf(),
            match run_pos(old(self).runs_spec(), id@) {
                None => final(self).runs_spec() == old(self).runs_spec(),
                Some(k) => final(self).runs_spec() == old(self).runs_spec().update(k, finalized(old(self).runs_spec()[k], outcome_view(outcome), now)),
            },
    {
        match find_run(&self.runs, id) {
            None => {},
            Some(k) => {
                let ghost before = self.runs_spec();
                let ghost ov = outcome_view(outcome);
                assert(before[k as int] == self.runs@[k as int]@);
                let mut row = self.runs[k].copy();
                row.last_run_at = Some(now);
                row.last_status = Some(outcome.status);
                row.last_chat_id = outcome.chat_id;
                row.last_request_id = outcome.request_id;
                row.last_artifact_count = if outcome.artifact_count <= 9223372036854775807u64 { outcome.artifact_count } else { 0 };
                row.last_requires_explicit_approval = outcome.requires_explicit_approval;
                row.last_blocked_by_approval = outcome.blocked_by_approval;
                row.last_error = outcome.error;
                let ghost rv = row@;
                assert(rv == finalized(before[k as int], ov, now));
                self.runs.set(k, row);
                assert(self.runs_spec() =~= before.update(k as int, rv));
                assert forall|i: int, j: int| 0 <= i < j < self.runs_spec().len() implies #[trigger] self.runs_spec()[i].id != #[trigger] self.runs_spec()[j].id by {
                    assert(before[i].id != before[j].id);
                }
            },
        }
    }

    /// `add_workspace_run` with a fresh id (`scheduled_` and a random UUID),
    /// dated now, firing as the schedule says from now.
    pub fn add_workspace_run_now(
        &mut self,
        workspace_id: String,
        workspace_path: String,
        scenario_id: String,
        schedule: String,
        trust_preset: String,
        enabled_pack_ids: Vec<String>,
        scenario_known: bool,
        scenario_title: Option<String>,
    ) -> (r: Result<WorkspaceScheduledRun, String>)
        requires
            old(self).wf(),
        ensures
            final(self).wf(),
            exists|next: Result<i64, Seq<char>>, id: Seq<char>, now: i64| {
                &&& next_fire_outcome(schedule@, next)
                &&& id.take(10) == "scheduled_"@
                &&& #[trigger] scenario_run_added(old(self).runs_spec(), final(self).runs_spec(), run_result(r), workspace_id@, workspace_path@,
                    scenario_id@, schedule@, trust_preset@, str_views(enabled_pack_ids@), scenario_known,
                    opt_text(scenario_title), next, id, now)
            },
    {
        let now = unix_seconds();
        let next = next_run_timestamp(schedule.as_str());
        let id = concat2("scheduled_", new_uuid().as_str());
        proof {
            reveal_strlit("scheduled_");
        }
        assert(id@.take(10) =~= "scheduled_"@);
        let ghost args = (workspace_id@, workspace_path@, scenario_id@, schedule@, trust_preset@, str_views(enabled_pack_ids@), opt_text(scenario_title));
        let ghost nv = next_result(next);
        let ghost idv = id@;
        let ghost before = self.runs_spec();
        let r = self.add_workspace_run(workspace_id, workspace_path, scenario_id, schedule, trust_preset, enabled_pack_ids, scenario_known, scenario_title, next, id, now);
        assert(scenario_run_added(before, self.runs_spec(), run_result(r), args.0, args.1, args.2, args.3, args.4, args.5,
            scenario_known, args.6, nv, idv, now));
        r
    }

    /// `add_workspace_prompt_run` with a fresh id, dated now, firing as the
    /// schedule says from now.
    pub fn add_workspace_prompt_run_now(
        &mut self,
        workspace_id: String,
        workspace_path: String,
        title: String,
        prompt_text: String,
        schedule: String,
    ) -> (r: Result<WorkspaceScheduledRun, String>)
        requires
            old(self).wf(),
        ensures
            final(self).wf(),
            exists|next: Result<i64, Seq<char>>, id: Seq<char>, now: i64| {
                &&& next_fire_outcome(schedule@, next)
                &&& id.take(10) == "scheduled_"@
                &&& #[trigger] prompt_run_added(old(self).runs_spec(), final(self).runs_spec(), run_result(r), workspace_id@, workspace_path@,
                    title@, prompt_text@, schedule@, next, id, now)
            },
    {
        let now = unix_seconds();
        let next = next_run_timestamp(schedule.as_str());
        let id = concat2("scheduled_", new_uuid().as_str());
        proof {
            reveal_strlit("scheduled_");
        }
        assert(id@.take(10) =~= "scheduled_"@);
        let ghost args = (workspace_id@, workspace_path@, title@, prompt_text@, schedule@);
        let ghost nv = next_result(next);
        let ghost idv = id@;
        let ghost before = self.runs_spec();
        let r = self.add_workspace_prompt_run(workspace_id, workspace_path, title, prompt_text, schedule, next, id, now);
        assert(prompt_run_added(before, self.runs_spec(), run_result(r), args.0, args.1, args.2, args.3, args.4, nv, idv, now));
        r
    }

    /// `update_workspace_run`, firing as the new schedule says from now.
    pub fn update_workspace_run_now(
        &mut self,
        id: &str,
        update: WorkspaceScheduledRunUpdate,
        scenario_known: bool,
        scenario_title: Option<String>,
    ) -> (r: Result<WorkspaceScheduledRun, String>)
        requires
            old(self).wf(),
        ensures
            final(self).wf(),
            exists|next: Result<i64, Seq<char>>| {
                &&& next_fire_outcome(update.schedule@, next)
                &&& #[trigger] run_updated(old(self).runs_spec(), final(self).runs_spec(), run_result(r), id@, update_view(update),
                    next, scenario_known, opt_text(scenario_title))
            },
    {
        let next = next_run_timestamp(update.schedule.as_str());
        let ghost nv = next_result(next);
        let ghost uv = update_view(update);
        let ghost before = self.runs_spec();
        let r = self.update_workspace_run(id, update, next, scenario_known, scenario_title);
        assert(run_updated(before, self.runs_spec(), run_result(r), id@, uv, nv, scenario_known, opt_text(scenario_title)));
        r
    }
}

/// An update never changes which run it is: its id, workspace, kind and
/// creation time stay.
pub proof fn law_update_keeps_identity(
    existing: RunView,
    u: UpdateView,
    next_run_at: i64,
    scenario_known: bool,
    scenario_title: Option<Seq<char>>,
)
    ensures
        match updated_run(existing, u, next_run_at, scenario_known, scenario_title) {
            Ok(row) => {
                &&& row.id == existing.id
                &&& row.workspace_id == existing.workspace_id
                &&& row.workspace_path == existing.workspace_path
                &&& row.job_kind == existing.job_kind
                &&& row.created_at == existing.created_at
                &&& row.next_run_at == next_run_at
                &&& row.schedule == u.schedule
            },
            Err(_) => true,
        },
{
}

// ───────────────────────────── how a run failed ─────────────────────────────

/// An error that says the run was stopped for want of the user's approval.
pub open spec fn blocked_by_approval(error: Seq<char>) -> bool {
    contains_seq(error, "[Airlock]"@) || contains_seq(error, "blocked by Airlock"@) || contains_seq(error, "user decision"@)
}

/// The outcome of a run that failed with `error`: no chat, request or
/// artifact, and blocked by approval where the error says so.
pub fn failed_outcome(error: &str) -> (r: RunOutcome)
    ensures
        outcome_view(r) == (OutcomeView {
            status: "failed"@,
            chat_id: None,
            request_id: None,
            artifact_count: 0,
            requires_explicit_approval: false,
            blocked_by_approval: blocked_by_approval(error@),
            error: Some(error@),
        }),
{
    let e = chars_of(error);
    let blocked = contains_sub(&e, &chars_of("[Airlock]"))
        || contains_sub(&e, &chars_of("blocked by Airlock"))
        || contains_sub(&e, &chars_of("user decision"));
    RunOutcome {
        status: owned("failed"),
        chat_id: None,
        request_id: None,
        artifact_count: 0,
        requires_explicit_approval: false,
        blocked_by_approval: blocked,
        error: Some(owned(error)),
    }
}

/// The outcome of a due run that could not start: the scheduler has no
/// application to run it in yet.
pub fn no_app_outcome() -> (r: RunOutcome)
    ensures
        outcome_view(r) == (OutcomeView {
            status: "failed"@,
            chat_id: None,
            request_id: None,
            artifact_count: 0,
            requires_explicit_approval: false,
            blocked_by_approval: false,
            error: Some("Scheduler app handle not initialized"@),
        }),
{
    RunOutcome {
        status: owned("failed"),
        chat_id: None,
        request_id: None,
        artifact_count: 0,
        requires_explicit_approval: false,
        blocked_by_approval: false,
        error: Some(owned("Scheduler app handle not initialized")),
    }
}

// ───────────────────────────── plain scheduled jobs ─────────────────────────────

/// A recurring job that queues the task its payload holds.
#[derive(Debug)]
pub struct ScheduledJob {
    pub id: String,
    pub schedule: String,
    pub agent_id: String,
    pub payload_json: String,
    pub created_at: i64,
    pub next_run_at: i64,
}

pub struct JobView {
    pub id: Seq<char>,
    pub schedule: Seq<char>,
    pub agent_id: Seq<char>,
    pub payload_json: Seq<char>,
    pub created_at: i64,
    pub next_run_at: i64,
}

impl View for ScheduledJob {
    type V = JobView;

    open spec fn view(&self) -> JobView {
        JobView {
            id: self.id@,
            schedule: self.schedule@,
            agent_id: self.agent_id@,
            payload_json: self.payload_json@,
            created_at: self.created_at,
            next_run_at: self.next_run_at,
        }
    }
}

impl ScheduledJob {
    pub fn copy(&self) -> (r: Self)
        ensures
            r@ == self@,
    {
        ScheduledJob {
            id: self.id.clone(),
            schedule: self.schedule.clone(),
            agent_id: self.agent_id.clone(),
            payload_json: self.payload_json.clone(),
            created_at: self.created_at,
            next_run_at: self.next_run_at,
        }
    }
}

pub open spec fn jobs_view(s: Seq<ScheduledJob>) -> Seq<JobView> {
    s.map_values(|j: ScheduledJob| j@)
}

/// Where the job with id `id` stands.
pub open spec fn job_pos(s: Seq<JobView>, id: Seq<char>) -> Option<int> {
    if exists|i: int| 0 <= i < s.len() && s[i].id == id {
        Some(choose|i: int| 0 <= i < s.len() && s[i].id == id)
    } else {
        None
    }
}

pub open spec fn newer_job_pos(t: Seq<JobView>, x: JobView) -> int
    decreases t.len(),
{
    if t.len() == 0 {
        0
    } else if t[0].created_at < x.created_at {
        0
    } else {
        1 + newer_job_pos(t.drop_first(), x)
    }
}

/// Jobs, newest first; jobs made at the same second keep their order.
pub open spec fn jobs_newest_first(s: Seq<JobView>) -> Seq<JobView>
    decreases s.len(),
{
    if s.len() == 0 {
        s
    } else {
        let t = jobs_newest_first(s.drop_last());
        t.insert(newer_job_pos(t, s.last()), s.last())
    }
}

proof fn lemma_newer_job_pos_skip(t: Seq<JobView>, x: JobView, i: int)
    requires
        0 <= i <= t.len(),
        forall|j: int| 0 <= j < i ==> (#[trigger] t[j]).created_at >= x.created_at,
    ensures
        newer_job_pos(t, x) == i + newer_job_pos(t.skip(i), x),
    decreases i,
{
    if i == 0 {
        assert(t.skip(0) =~= t);
    } else {
        lemma_newer_job_pos_skip(t.drop_first(), x, i - 1);
        assert(t.drop_first().skip(i - 1) =~= t.skip(i));
    }
}

pub open spec fn keeps_job(id: Seq<char>) -> spec_fn(JobView) -> bool {
    |x: JobView| x.id != id
}

/// What the database answers to a second job with the same id.
pub open spec fn duplicate_job_error() -> Seq<char> {
    "error returned from database: (code: 1555) UNIQUE constraint failed: scheduled_jobs.id"@
}

/// An answer without a value, as values.
pub open spec fn unit_result(r: Result<(), String>) -> Result<(), Seq<char>> {
    match r {
        Ok(()) => Ok(()),
        Err(e) => Err(e@),
    }
}

/// What adding a job made at `now` does to the table and answers.
pub open spec fn job_added(
    before: Seq<JobView>,
    after: Seq<JobView>,
    r: Result<(), Seq<char>>,
    id: Seq<char>,
    schedule: Seq<char>,
    agent_id: Seq<char>,
    payload_json: Seq<char>,
    next: Result<i64, Seq<char>>,
    now: i64,
) -> bool {
    match next {
        Err(e) => r == Err::<(), Seq<char>>(e) && after == before,
        Ok(t) => if job_pos(before, id) is Some {
            r == Err::<(), Seq<char>>(duplicate_job_error()) && after == before
        } else {
            r == Ok::<(), Seq<char>>(()) && after == before.push(JobView {
                id,
                schedule,
                agent_id,
                payload_json,
                created_at: now,
                next_run_at: t,
            })
        },
    }
}

/// The plain scheduled jobs, in the order they were made.
#[derive(Debug)]
pub struct JobTable {
    jobs: Vec<ScheduledJob>,
}

fn find_job(v: &Vec<ScheduledJob>, id: &str) -> (r: Option<usize>)
    ensures
        match r {
            Some(k) => k < v@.len() && v@[k as int]@.id == id@,
            None => forall|j: int| 0 <= j < v@.len() ==> (#[trigger] v@[j])@.id != id@,
        },
{
    let mut i: usize = 0;
    while i < v.len()
        invariant
            i <= v@.len(),
            forall|j: int| 0 <= j < i ==> (#[trigger] v@[j])@.id != id@,
        decreases v@.len() - i,
    {
        if str_eq(v[i].id.as_str(), id) {
            return Some(i);
        }
        i = i + 1;
    }
    None
}

impl JobTable {
    pub closed spec fn jobs_spec(&self) -> Seq<JobView> {
        jobs_view(self.jobs@)
    }

    /// No two jobs share an id: the id is the table's key.
    pub open spec fn wf(&self) -> bool {
        forall|i: int, j: int| 0 <= i < j < self.jobs_spec().len() ==> #[trigger] self.jobs_spec()[i].id != #[trigger] self.jobs_spec()[j].id
    }

    pub fn new() -> (r: Self)
        ensures
            r.wf(),
            r.jobs_spec().len() == 0,
    {
        let r = JobTable { jobs: Vec::new() };
        assert(r.jobs_spec() =~= Seq::<JobView>::empty());
        r
    }

    /// Adds a job made at `now` that fires next at what `next_run` says:
    /// where the schedule cannot be used, its error; where the id is taken,
    /// the database's refusal.
    pub fn add_job(
        &mut self,
        id: String,
        schedule: String,
        agent_id: String,
        payload_json: String,
        next_run: Result<i64, String>,
        now: i64,
    ) -> (r: Result<(), String>)
        requires
            old(self).wf(),
        ensures
            final(self).wf(),
            job_added(old(self).jobs_spec(), final(self).jobs_spec(), unit_result(r), id@, schedule@, agent_id@,
                payload_json@, next_result(next_run), now),
    {
        let next = match next_run {
            Err(e) => return Err(e),
            Ok(t) => t,
        };
        match find_job(&self.jobs, id.as_str()) {
            Some(k) => {
                assert(self.jobs_spec()[k as int].id == id@);
                return Err(owned("error returned from database: (code: 1555) UNIQUE constraint failed: scheduled_jobs.id"));
            },
            None => {
                assert forall|j: int| 0 <= j < self.jobs_spec().len() implies self.jobs_spec()[j].id != id@ by {
                    assert(self.jobs_spec()[j] == self.jobs@[j]@);
                }
            },
        }
        let job = ScheduledJob { id, schedule, agent_id, payload_json, created_at: now, next_run_at: next };
        let ghost jv = job@;
        let ghost before = self.jobs_spec();
        self.jobs.push(job);
        assert(self.jobs_spec() =~= before.push(jv));
        Ok(())
    }

    /// The jobs, newest first.
    pub fn list_jobs(&self) -> (r: Vec<ScheduledJob>)
        ensures
            jobs_view(r@) == jobs_newest_first(self.jobs_spec()),
    {
        let ghost all = self.jobs_spec();
        let mut out: Vec<ScheduledJob> = Vec::new();
        let mut k: usize = 0;
        assert(jobs_view(out@) =~= jobs_newest_first(all.take(0)));
        while k < self.jobs.len()
            invariant
                k <= self.jobs@.len(),
                all == self.jobs_spec(),
                jobs_view(out@) == jobs_newest_first(all.take(k as int)),
            decreases self.jobs@.len() - k,
        {
            let ghost pre = all.take(k + 1);
            assert(pre.drop_last() =~= all.take(k as int));
            assert(pre.last() == self.jobs@[k as int]@);
            let x = self.jobs[k].copy();
            let mut p: usize = 0;
            while p < out.len() && !(out[p].created_at < x.created_at)
                invariant
                    p <= out.len(),
                    forall|j: int| 0 <= j < p ==> (#[trigger] jobs_view(out@)[j]).created_at >= x@.created_at,
                decreases out.len() - p,
            {
                assert(jobs_view(out@)[p as int] == out@[p as int]@);
                p = p + 1;
            }
            proof {
                let t = jobs_view(out@);
                lemma_newer_job_pos_skip(t, x@, p as int);
                if p < out.len() {
                    assert(t.skip(p as int)[0] == t[p as int]);
                }
                assert(newer_job_pos(t, x@) == p);
                assert(jobs_view(out@.insert(p as int, x)) =~= t.insert(p as int, x@));
            }
            out.insert(p, x);
            k = k + 1;
        }
        assert(all.take(k as int) =~= all);
        out
    }

    /// Deletes the job with id `id`, where there is one.
    pub fn remove_job(&mut self, id: &str)
        requires
            old(self).wf(),
        ensures
            final(self).wf(),
            final(self).jobs_spec() == old(self).jobs_spec().filter(keeps_job(id@)),
    {
        let ghost before = self.jobs_spec();
        match find_job(&self.jobs, id) {
            None => {
                assert forall|j: int| 0 <= j < before.len() implies keeps_job(id@)(before[j]) by {
                    assert(before[j] == self.jobs@[j]@);
                }
                proof {
                    lemma_filter_keeps_all(before, keeps_job(id@));
                }
            },
            Some(k) => {
                self.jobs.remove(k);
                let ghost after = self.jobs_spec();
                assert(after =~= before.remove(k as int));
                assert(before.filter(keeps_job(id@)) =~= after) by {
                    lemma_filter_drops_key(before, k as int, id@);
                }
                assert forall|i: int, j: int| 0 <= i < j < after.len() implies #[trigger] after[i].id != #[trigger] after[j].id by {
                    let si = if i < k { i } else { i + 1 };
                    let sj = if j < k { j } else { j + 1 };
                    assert(after[i] == before[si]);
                    assert(after[j] == before[sj]);
                    assert(before[si].id != before[sj].id);
                }
            },
        }
    }

    /// The jobs due at `now`, in table order.
    pub fn due_jobs(&self, now: i64) -> (r: Vec<ScheduledJob>)
        ensures
            jobs_view(r@) == self.jobs_spec().filter(|x: JobView| x.next_run_at <= now),
    {
        let ghost all = self.jobs_spec();
        let ghost f = |x: JobView| x.next_run_at <= now;
        let mut out: Vec<ScheduledJob> = Vec::new();
        let mut k: usize = 0;
        assert(all.take(0).filter(f) =~= Seq::<JobView>::empty()) by {
            reveal(Seq::filter);
        }
        assert(jobs_view(out@) =~= Seq::<JobView>::empty());
        while k < self.jobs.len()
            invariant
                k <= self.jobs@.len(),
                all == self.jobs_spec(),
                f == |x: JobView| x.next_run_at <= now,
                jobs_view(out@) == all.take(k as int).filter(f),
            decreases self.jobs@.len() - k,
        {
            let ghost pre = all.take(k + 1);
            assert(pre.drop_last() =~= all.take(k as int));
            assert(pre.last() == self.jobs@[k as int]@);
            proof {
                reveal(Seq::filter);
            }
            if self.jobs[k].next_run_at <= now {
                let x = self.jobs[k].copy();
                assert(jobs_view(out@.push(x)) =~= jobs_view(out@).push(x@));
                out.push(x);
            }
            k = k + 1;
        }
        assert(all.take(k as int) =~= all);
        out
    }

    /// After a job ran: it fires next at `next_run`, where its schedule
    /// gives a next time; else it stays as it was.
    pub fn reschedule(&mut self, id: &str, next_run: Option<i64>)
        requires
            old(self).wf(),
        ensures
            final(self).wf(),
            match (job_pos(old(self).jobs_spec(), id@), next_run) {
                (Some(k), Some(t)) => final(self).jobs_spec() == old(self).jobs_spec().update(k, JobView { next_run_at: t, ..old(self).jobs_spec()[k] }),
                _ => final(self).jobs_spec() == old(self).jobs_spec(),
            },
    {
        let ghost before = self.jobs_spec();
        let t = match next_run {
            None => return,
            Some(t) => t,
        };
        match find_job(&self.jobs, id) {
            None => {
                assert forall|j: int| 0 <= j < before.len() implies before[j].id != id@ by {
                    assert(before[j] == self.jobs@[j]@);
                }
            },
            Some(k) => {
                assert(before[k as int] == self.jobs@[k as int]@);
                let ghost kk = job_pos(before, id@)->0;
                assert(kk == k) by {
                    if kk != k {
                        assert(before[kk].id != before[k as int].id);
                    }
                }
                let mut job = self.jobs[k].copy();
                job.next_run_at = t;
                let ghost jv = job@;
                self.jobs.set(k, job);
                assert(self.jobs_spec() =~= before.update(k as int, jv));
                assert forall|i: int, j: int| 0 <= i < j < self.jobs_spec().len() implies #[trigger] self.jobs_spec()[i].id != #[trigger] self.jobs_spec()[j].id by {
                    assert(before[i].id != before[j].id);
                }
            },
        }
    }

    /// `add_job` made now, firing as the schedule says from now.
    pub fn add_job_now(&mut self, id: String, schedule: String, agent_id: String, payload_json: String) -> (r: Result<(), String>)
        requires
            old(self).wf(),
        ensures
            final(self).wf(),
            exists|next: Result<i64, Seq<char>>, now: i64| {
                &&& next_fire_outcome(schedule@, next)
                &&& #[trigger] job_added(old(self).jobs_spec(), final(self).jobs_spec(), unit_result(r), id@, schedule@, agent_id@,
                    payload_json@, next, now)
            },
    {
        let now = unix_seconds();
        let next = next_run_timestamp(schedule.as_str());
        let ghost args = (id@, schedule@, agent_id@, payload_json@);
        let ghost nv = next_result(next);
        let ghost before = self.jobs_spec();
        let r = self.add_job(id, schedule, agent_id, payload_json, next, now);
        assert(job_added(before, self.jobs_spec(), unit_result(r), args.0, args.1, args.2, args.3, nv, now));
        r
    }
}

/// Keeping the jobs that all pass a test keeps the whole list.
proof fn lemma_filter_keeps_all(s: Seq<JobView>, f: spec_fn(JobView) -> bool)
    requires
        forall|j: int| 0 <= j < s.len() ==> #[trigger] f(s[j]),
    ensures
        s.filter(f) =~= s,
    decreases s.len(),
{
    reveal(Seq::filter);
    if s.len() > 0 {
        lemma_filter_keeps_all(s.drop_last(), f);
        assert(s.drop_last().push(s.last()) =~= s);
    }
}

/// In a list keyed by id, dropping the entries with the id of the one at
/// `k` is removing that one.
proof fn lemma_filter_drops_key(s: Seq<JobView>, k: int, id: Seq<char>)
    requires
        0 <= k < s.len(),
        s[k].id == id,
        forall|i: int, j: int| 0 <= i < j < s.len() ==> #[trigger] s[i].id != #[trigger] s[j].id,
    ensures
        s.filter(keeps_job(id)) =~= s.remove(k),
    decreases s.len(),
{
    reveal(Seq::filter);
    let f = keeps_job(id);
    if k == s.len() - 1 {
        assert(s.drop_last() =~= s.remove(k));
        assert forall|j: int| 0 <= j < s.drop_last().len() implies f(s.drop_last()[j]) by {
            assert(s[j].id != s[k].id);
        }
        lemma_filter_keeps_all(s.drop_last(), f);
    } else {
        lemma_filter_drops_key(s.drop_last(), k, id);
        assert(s.drop_last().remove(k).push(s.last()) =~= s.remove(k));
        assert(s.last().id != s[k].id);
    }
}

/// A removed run is gone from the table, and every other run stays.
pub proof fn law_removed_run_is_gone(runs: Seq<RunView>, id: Seq<char>)
    ensures
        forall|i: int| 0 <= i < without_run(runs, id).len() ==> (#[trigger] without_run(runs, id)[i]).id != id,
        forall|x: RunView| runs.contains(x) && x.id != id ==> #[trigger] without_run(runs, id).contains(x),
{
    let f = keeps_run(id);
    assert forall|i: int| 0 <= i < runs.filter(f).len() implies (#[trigger] runs.filter(f)[i]).id != id by {
        runs.lemma_filter_pred(f, i);
    }
    assert forall|x: RunView| runs.contains(x) && x.id != id implies #[trigger] runs.filter(f).contains(x) by {
        let k = choose|k: int| 0 <= k < runs.len() && runs[k] == x;
        runs.lemma_filter_contains(f, k);
    }
}

/// A removed job is gone from the table, and every other job stays.
pub proof fn law_removed_job_is_gone(jobs: Seq<JobView>, id: Seq<char>)
    ensures
        forall|i: int| 0 <= i < jobs.filter(keeps_job(id)).len() ==> (#[trigger] jobs.filter(keeps_job(id))[i]).id != id,
        forall|x: JobView| jobs.contains(x) && x.id != id ==> #[trigger] jobs.filter(keeps_job(id)).contains(x),
{
    let f = keeps_job(id);
    assert forall|i: int| 0 <= i < jobs.filter(f).len() implies (#[trigger] jobs.filter(f)[i]).id != id by {
        jobs.lemma_filter_pred(f, i);
    }
    assert forall|x: JobView| jobs.contains(x) && x.id != id implies #[trigger] jobs.filter(f).contains(x) by {
        let k = choose|k: int| 0 <= k < jobs.len() && jobs[k] == x;
        jobs.lemma_filter_contains(f, k);
    }
}

} // verus!
