//! Recurring workspace tasks: the cron expression built from a schedule
//! kind and a time of day, the titles and prompts of scheduled runs, and the
//! plan that the scheduling tool hands to the persistent scheduler.
use vstd::prelude::*;
use crate::text::{
    chars_of, compact, compact_vec, copy_strings, decimal, lower_seq, lower_vec, owned, push_all,
    push_decimal, str_eq, str_views, string_of, take_chars, take_vec, trim, trim_str, trim_vec,
};

verus! {

// ───────────────────────────── tool arguments ─────────────────────────────

/// Arguments of `schedule_recurring_task`.
#[derive(Debug)]
pub struct ScheduleRecurringTaskArgs {
    pub title: Option<String>,
    pub task_prompt: Option<String>,
    pub scenario_id: Option<String>,
    /// `daily`, `weekdays`, `weekly`, `monthly` or `custom`.
    pub schedule_kind: Option<String>,
    pub hour: Option<u8>,
    pub minute: Option<u8>,
    pub day_of_week: Option<u8>,
    pub day_of_month: Option<u8>,
    pub cron_expression: Option<String>,
}

/// Arguments of `update_recurring_task`.
#[derive(Debug)]
pub struct UpdateRecurringTaskArgs {
    pub scheduled_run_id: String,
    pub title: Option<String>,
    pub task_prompt: Option<String>,
    pub scenario_id: Option<String>,
    pub schedule_kind: Option<String>,
    pub hour: Option<u8>,
    pub minute: Option<u8>,
    pub day_of_week: Option<u8>,
    pub day_of_month: Option<u8>,
    pub cron_expression: Option<String>,
}

/// Arguments of `list_recurring_tasks`.
#[derive(Debug)]
pub struct ListRecurringTasksArgs {
    pub include_prompt_text: Option<bool>,
}

/// Arguments of `delete_recurring_task`.
#[derive(Debug)]
pub struct DeleteRecurringTaskArgs {
    pub scheduled_run_id: String,
}

pub const DEFAULT_SCHEDULE_HOUR: u8 = 9;
pub const DEFAULT_SCHEDULE_MINUTE: u8 = 0;
pub const DEFAULT_SCHEDULE_DAY_OF_WEEK: u8 = 1;
pub const DEFAULT_SCHEDULE_DAY_OF_MONTH: u8 = 1;

// ───────────────────────────── cron ─────────────────────────────

/// Whether the `cron` crate parses `expr` as a schedule.
pub uninterp spec fn cron_accepts(expr: Seq<char>) -> bool;

/// `cron::Schedule::from_str` (cron 0.12): whether it parses `expr`. Every
/// parse failure of that version reports the same message, which
/// `CRON_ERROR` holds.
#[verifier::external_body]
fn cron_parses(expr: &str) -> (r: bool)
    ensures
        r == cron_accepts(expr@),
{
    <cron::Schedule as std::str::FromStr>::from_str(expr).is_ok()
}

pub open spec fn cron_error_text() -> Seq<char> {
    "Invalid expression: Invalid cron expression."@
}

// ───────────────────────────── the expression ─────────────────────────────

pub open spec fn opt_text(o: Option<String>) -> Option<Seq<char>> {
    match o {
        Some(s) => Some(s@),
        None => None,
    }
}

/// Whether an optional text is there and not blank.
pub open spec fn present(o: Option<Seq<char>>) -> bool {
    o matches Some(s) && trim(s).len() > 0
}

/// The schedule kind asked for, trimmed and lowercased; `custom` where a
/// cron expression is given instead, else `daily`.
pub open spec fn schedule_kind(kind: Option<Seq<char>>, cron: Option<Seq<char>>) -> Seq<char> {
    match kind {
        Some(k) => lower_seq(trim(k)),
        None => if present(cron) {
            "custom"@
        } else {
            "daily"@
        },
    }
}

pub open spec fn min_int(a: int, b: int) -> int {
    if a < b {
        a
    } else {
        b
    }
}

pub open spec fn or_default(o: Option<u8>, d: u8) -> int {
    match o {
        Some(v) => v as int,
        None => d as int,
    }
}

/// The cron expression, with seconds and years, that a schedule asks for,
/// before the cron parser has checked it.
pub open spec fn schedule_candidate(
    kind: Option<Seq<char>>,
    hour: Option<u8>,
    minute: Option<u8>,
    day_of_week: Option<u8>,
    day_of_month: Option<u8>,
    cron: Option<Seq<char>>,
) -> Result<Seq<char>, Seq<char>> {
    let k = schedule_kind(kind, cron);
    let h = decimal(min_int(or_default(hour, 9), 23) as nat);
    let m = decimal(min_int(or_default(minute, 0), 59) as nat);
    let dow = decimal(min_int(or_default(day_of_week, 1), 6) as nat);
    let dom = decimal(crate::args::clamp(or_default(day_of_month, 1), 1, 28) as nat);
    if k == "daily"@ {
        Ok("0 "@ + m + " "@ + h + " * * * *"@)
    } else if k == "weekdays"@ {
        Ok("0 "@ + m + " "@ + h + " * * 1-5 *"@)
    } else if k == "weekly"@ {
        Ok("0 "@ + m + " "@ + h + " * * "@ + dow + " *"@)
    } else if k == "monthly"@ {
        Ok("0 "@ + m + " "@ + h + " "@ + dom + " * * *"@)
    } else if k == "custom"@ {
        if present(cron) {
            Ok(trim(cron->0))
        } else {
            Err("custom schedules require a non-empty cron_expression"@)
        }
    } else {
        Err("Unsupported schedule_kind '"@ + k
            + "'. Use daily, weekdays, weekly, monthly, or custom"@)
    }
}

/// The expression that a schedule gives, once the cron parser has had its say.
pub open spec fn schedule_expression(
    kind: Option<Seq<char>>,
    hour: Option<u8>,
    minute: Option<u8>,
    day_of_week: Option<u8>,
    day_of_month: Option<u8>,
    cron: Option<Seq<char>>,
) -> Result<Seq<char>, Seq<char>> {
    match schedule_candidate(kind, hour, minute, day_of_week, day_of_month, cron) {
        Ok(e) => if cron_accepts(e) {
            Ok(e)
        } else {
            Err("Invalid schedule: "@ + cron_error_text())
        },
        Err(e) => Err(e),
    }
}

fn is_present(o: &Option<String>) -> (r: bool)
    ensures
        r == present(opt_text(*o)),
{
    match o {
        Some(s) => trim_vec(&chars_of(s.as_str())).len() > 0,
        None => false,
    }
}

fn cap_u8(v: Option<u8>, d: u8, hi: u8) -> (r: u8)
    ensures
        r == min_int(or_default(v, d), hi as int),
{
    let x = match v {
        Some(x) => x,
        None => d,
    };
    if x < hi {
        x
    } else {
        hi
    }
}

/// The candidate expression of a schedule: the time and day asked for (each
/// kept within its range) put in place, or the custom expression trimmed.
pub fn schedule_candidate_of(
    schedule_kind_arg: &Option<String>,
    hour: Option<u8>,
    minute: Option<u8>,
    day_of_week: Option<u8>,
    day_of_month: Option<u8>,
    cron_expression: &Option<String>,
) -> (r: Result<String, String>)
    ensures
        match schedule_candidate(
            opt_text(*schedule_kind_arg),
            hour,
            minute,
            day_of_week,
            day_of_month,
            opt_text(*cron_expression),
        ) {
            Ok(e) => r matches Ok(s) && s@ == e,
            Err(e) => r matches Err(s) && s@ == e,
        },
{
    let kind: Vec<char> = match schedule_kind_arg {
        Some(k) => lower_vec(&trim_vec(&chars_of(k.as_str()))),
        None => if is_present(cron_expression) {
            chars_of("custom")
        } else {
            chars_of("daily")
        },
    };
    let k = string_of(kind.as_slice());
    let h = cap_u8(hour, DEFAULT_SCHEDULE_HOUR, 23);
    let m = cap_u8(minute, DEFAULT_SCHEDULE_MINUTE, 59);
    let dow = cap_u8(day_of_week, DEFAULT_SCHEDULE_DAY_OF_WEEK, 6);
    let dom0 = match day_of_month {
        Some(x) => x,
        None => DEFAULT_SCHEDULE_DAY_OF_MONTH,
    };
    let dom: u8 = if dom0 < 1 {
        1
    } else if dom0 > 28 {
        28
    } else {
        dom0
    };
    let mut out = chars_of("0 ");
    push_decimal(&mut out, m as u64);
    out.push(' ');
    push_decimal(&mut out, h as u64);
    proof {
        reveal_strlit(" ");
    }
    if str_eq(k.as_str(), "daily") {
        push_all(&mut out, &chars_of(" * * * *"));
        Ok(string_of(out.as_slice()))
    } else if str_eq(k.as_str(), "weekdays") {
        push_all(&mut out, &chars_of(" * * 1-5 *"));
        Ok(string_of(out.as_slice()))
    } else if str_eq(k.as_str(), "weekly") {
        push_all(&mut out, &chars_of(" * * "));
        push_decimal(&mut out, dow as u64);
        push_all(&mut out, &chars_of(" *"));
        Ok(string_of(out.as_slice()))
    } else if str_eq(k.as_str(), "monthly") {
        out.push(' ');
        push_decimal(&mut out, dom as u64);
        push_all(&mut out, &chars_of(" * * *"));
        Ok(string_of(out.as_slice()))
    } else if str_eq(k.as_str(), "custom") {
        match cron_expression {
            Some(c) => {
                let t = trim_str(c.as_str());
                if chars_of(t.as_str()).len() > 0 {
                    Ok(t)
                } else {
                    Err(owned("custom schedules require a non-empty cron_expression"))
                }
            },
            None => Err(owned("custom schedules require a non-empty cron_expression")),
        }
    } else {
        let mut e = chars_of("Unsupported schedule_kind '");
        push_all(&mut e, &kind);
        push_all(&mut e, &chars_of("'. Use daily, weekdays, weekly, monthly, or custom"));
        Err(string_of(e.as_slice()))
    }
}

/// The outcome of a schedule once the cron parser's verdict `parsed` on the
/// candidate is known.
pub fn finish_schedule(candidate: Result<String, String>, parsed: bool) -> (r: Result<String, String>)
    ensures
        match candidate {
            Ok(e) => if parsed {
                r matches Ok(s) && s@ == e@
            } else {
                r matches Err(s) && s@ == "Invalid schedule: "@ + cron_error_text()
            },
            Err(e) => r matches Err(s) && s@ == e@,
        },
{
    proof {
        reveal_strlit("Invalid schedule: Invalid expression: Invalid cron expression.");
        reveal_strlit("Invalid schedule: ");
        reveal_strlit("Invalid expression: Invalid cron expression.");
    }
    match candidate {
        Ok(e) => if parsed {
            Ok(e)
        } else {
            Err(owned("Invalid schedule: Invalid expression: Invalid cron expression."))
        },
        Err(e) => Err(e),
    }
}

/// The cron expression of a scheduling request, checked by the cron parser.
pub fn build_schedule_expression(args: &ScheduleRecurringTaskArgs) -> (r: Result<String, String>)
    ensures
        match schedule_expression(
            opt_text(args.schedule_kind),
            args.hour,
            args.minute,
            args.day_of_week,
            args.day_of_month,
            opt_text(args.cron_expression),
        ) {
            Ok(e) => r matches Ok(s) && s@ == e,
            Err(e) => r matches Err(s) && s@ == e,
        },
{
    let candidate = schedule_candidate_of(
        &args.schedule_kind,
        args.hour,
        args.minute,
        args.day_of_week,
        args.day_of_month,
        &args.cron_expression,
    );
    let parsed = match &candidate {
        Ok(e) => cron_parses(e.as_str()),
        Err(_) => false,
    };
    finish_schedule(candidate, parsed)
}

// ───────────────────────────── titles and prompts ─────────────────────────────

/// The title of a prompt task that has none: its prompt with white space
/// collapsed, at most 72 characters; `Recurring chat task` for a blank prompt.
pub open spec fn prompt_title(prompt: Seq<char>) -> Seq<char> {
    let t = trim(compact(prompt));
    if t.len() == 0 {
        "Recurring chat task"@
    } else {
        take_chars(t, 72)
    }
}

pub fn derive_prompt_title(prompt: &str) -> (r: String)
    ensures
        r@ == prompt_title(prompt@),
{
    let c = compact_vec(&chars_of(prompt));
    let t = trim_vec(&c);
    if t.len() == 0 {
        owned("Recurring chat task")
    } else {
        string_of(take_vec(&t, 72).as_slice())
    }
}

pub const MAX_SCHEDULED_RUN_TITLE_CHARS: usize = 120;
pub const MAX_SCHEDULED_PROMPT_CHARS: usize = 24000;

/// A text trimmed and cut to `max` characters, or `err` where it is blank.
pub open spec fn normalized_text(raw: Seq<char>, max: int, err: Seq<char>) -> Result<Seq<char>, Seq<char>> {
    if trim(raw).len() == 0 {
        Err(err)
    } else {
        Ok(take_chars(trim(raw), max))
    }
}

pub fn normalize_scheduled_run_title(raw: &str) -> (r: Result<String, String>)
    ensures
        match normalized_text(raw@, 120, "Scheduled run title cannot be empty"@) {
            Ok(t) => r matches Ok(s) && s@ == t,
            Err(e) => r matches Err(s) && s@ == e,
        },
{
    let t = trim_vec(&chars_of(raw));
    if t.len() == 0 {
        Err(owned("Scheduled run title cannot be empty"))
    } else {
        Ok(string_of(take_vec(&t, MAX_SCHEDULED_RUN_TITLE_CHARS).as_slice()))
    }
}

pub fn normalize_scheduled_prompt(raw: &str) -> (r: Result<String, String>)
    ensures
        match normalized_text(raw@, 24000, "Scheduled prompt cannot be empty"@) {
            Ok(t) => r matches Ok(s) && s@ == t,
            Err(e) => r matches Err(s) && s@ == e,
        },
{
    let t = trim_vec(&chars_of(raw));
    if t.len() == 0 {
        Err(owned("Scheduled prompt cannot be empty"))
    } else {
        Ok(string_of(take_vec(&t, MAX_SCHEDULED_PROMPT_CHARS).as_slice()))
    }
}

// ───────────────────────────── scheduled runs ─────────────────────────────

/// A cron job of the scheduler.
#[derive(Debug)]
pub struct ScheduledJob {
    pub id: String,
    pub schedule: String,
    pub agent_id: String,
    pub payload_json: String,
    pub created_at: i64,
    pub next_run_at: i64,
}

/// A recurring run of a workspace: a first-party scenario or a prompt.
#[derive(Debug)]
pub struct WorkspaceScheduledRun {
    pub id: String,
    pub workspace_id: String,
    pub workspace_path: String,
    /// `scenario` or `prompt`.
    pub job_kind: String,
    pub title: String,
    pub scenario_id: String,
    pub prompt_text: Option<String>,
    pub schedule: String,
    pub trust_preset: String,
    pub enabled_pack_ids: Vec<String>,
    pub created_at: i64,
    pub next_run_at: i64,
    pub last_run_at: Option<i64>,
    pub last_status: Option<String>,
    pub last_chat_id: Option<String>,
    pub last_error: Option<String>,
    pub last_request_id: Option<String>,
    pub last_artifact_count: u64,
    pub last_requires_explicit_approval: bool,
    pub last_blocked_by_approval: bool,
}

/// A change to a recurring run.
#[derive(Debug)]
pub struct WorkspaceScheduledRunUpdate {
    pub title: Option<String>,
    pub prompt_text: Option<String>,
    pub scenario_id: Option<String>,
    pub schedule: String,
    pub trust_preset: Option<String>,
    pub enabled_pack_ids: Option<Vec<String>>,
}

/// What the scheduling tool asks the scheduler to create.
#[derive(Debug)]
pub enum SchedulePlan {
    Scenario { scenario_id: String, schedule: String },
    Prompt { title: String, prompt: String, schedule: String },
}

/// The text of an optional argument, trimmed, where it is not blank.
pub open spec fn given(o: Option<Seq<char>>) -> Option<Seq<char>> {
    match o {
        Some(s) => if trim(s).len() > 0 {
            Some(trim(s))
        } else {
            None
        },
        None => None,
    }
}

pub(crate) fn given_exec(o: &Option<String>) -> (r: Option<String>)
    ensures
        opt_text(r) == given(opt_text(*o)),
{
    match o {
        Some(s) => {
            let t = trim_str(s.as_str());
            if chars_of(t.as_str()).len() > 0 {
                Some(t)
            } else {
                None
            }
        },
        None => None,
    }
}

/// The plan of a scheduling request: a scenario run where a scenario is
/// named, else a prompt run, titled by the request or after its prompt.
pub open spec fn plan_spec(args: ScheduleRecurringTaskArgs, schedule: Seq<char>) -> Result<
    (bool, Seq<char>, Seq<char>),
    Seq<char>,
> {
    match given(opt_text(args.scenario_id)) {
        Some(s) => Ok((true, s, seq![])),
        None => match given(opt_text(args.task_prompt)) {
            Some(p) => Ok(
                (
                    false,
                    match given(opt_text(args.title)) {
                        Some(t) => t,
                        None => prompt_title(p),
                    },
                    p,
                ),
            ),
            None => Err(
                "schedule_recurring_task requires either scenario_id or a non-empty task_prompt"@,
            ),
        },
    }
}

/// The plan that `schedule_recurring_task` hands to the scheduler: the
/// schedule first, then the scenario or the prompt it runs.
pub fn plan_scheduled_task(args: &ScheduleRecurringTaskArgs) -> (r: Result<SchedulePlan, String>)
    ensures
        match schedule_expression(
            opt_text(args.schedule_kind),
            args.hour,
            args.minute,
            args.day_of_week,
            args.day_of_month,
            opt_text(args.cron_expression),
        ) {
            Err(e) => r matches Err(s) && s@ == e,
            Ok(sched) => match plan_spec(*args, sched) {
                Err(e) => r matches Err(s) && s@ == e,
                Ok((true, id, _)) => r matches Ok(SchedulePlan::Scenario { scenario_id, schedule }) && scenario_id@ == id && schedule@ == sched,
                Ok((false, title, prompt)) => r matches Ok(SchedulePlan::Prompt { title: t, prompt: p, schedule }) && t@ == title && p@ == prompt && schedule@ == sched,
            },
        },
{
    let schedule = match build_schedule_expression(args) {
        Ok(s) => s,
        Err(e) => return Err(e),
    };
    match given_exec(&args.scenario_id) {
        Some(id) => Ok(SchedulePlan::Scenario { scenario_id: id, schedule }),
        None => match given_exec(&args.task_prompt) {
            Some(p) => {
                let title = match given_exec(&args.title) {
                    Some(t) => t,
                    None => derive_prompt_title(p.as_str()),
                };
                Ok(SchedulePlan::Prompt { title, prompt: p, schedule })
            },
            None => Err(owned("schedule_recurring_task requires either scenario_id or a non-empty task_prompt")),
        },
    }
}

pub struct RunView {
    pub id: Seq<char>,
    pub workspace_id: Seq<char>,
    pub workspace_path: Seq<char>,
    pub job_kind: Seq<char>,
    pub title: Seq<char>,
    pub scenario_id: Seq<char>,
    pub prompt_text: Option<Seq<char>>,
    pub schedule: Seq<char>,
    pub trust_preset: Seq<char>,
    pub enabled_pack_ids: Seq<Seq<char>>,
    pub created_at: i64,
    pub next_run_at: i64,
    pub last_run_at: Option<i64>,
    pub last_status: Option<Seq<char>>,
    pub last_chat_id: Option<Seq<char>>,
    pub last_error: Option<Seq<char>>,
    pub last_request_id: Option<Seq<char>>,
    pub last_artifact_count: u64,
    pub last_requires_explicit_approval: bool,
    pub last_blocked_by_approval: bool,
}

impl View for WorkspaceScheduledRun {
    type V = RunView;

    open spec fn view(&self) -> RunView {
        RunView {
            id: self.id@,
            workspace_id: self.workspace_id@,
            workspace_path: self.workspace_path@,
            job_kind: self.job_kind@,
            title: self.title@,
            scenario_id: self.scenario_id@,
            prompt_text: opt_text(self.prompt_text),
            schedule: self.schedule@,
            trust_preset: self.trust_preset@,
            enabled_pack_ids: str_views(self.enabled_pack_ids@),
            created_at: self.created_at,
            next_run_at: self.next_run_at,
            last_run_at: self.last_run_at,
            last_status: opt_text(self.last_status),
            last_chat_id: opt_text(self.last_chat_id),
            last_error: opt_text(self.last_error),
            last_request_id: opt_text(self.last_request_id),
            last_artifact_count: self.last_artifact_count,
            last_requires_explicit_approval: self.last_requires_explicit_approval,
            last_blocked_by_approval: self.last_blocked_by_approval,
        }
    }
}

pub(crate) fn copy_opt(o: &Option<String>) -> (r: Option<String>)
    ensures
        opt_text(r) == opt_text(*o),
{
    match o {
        Some(s) => Some(s.clone()),
        None => None,
    }
}

impl WorkspaceScheduledRun {
    pub fn copy(&self) -> (r: Self)
        ensures
            r@ == self@,
    {
        WorkspaceScheduledRun {
            id: self.id.clone(),
            workspace_id: self.workspace_id.clone(),
            workspace_path: self.workspace_path.clone(),
            job_kind: self.job_kind.clone(),
            title: self.title.clone(),
            scenario_id: self.scenario_id.clone(),
            prompt_text: copy_opt(&self.prompt_text),
            schedule: self.schedule.clone(),
            trust_preset: self.trust_preset.clone(),
            enabled_pack_ids: copy_strings(&self.enabled_pack_ids),
            created_at: self.created_at,
            next_run_at: self.next_run_at,
            last_run_at: self.last_run_at,
            last_status: copy_opt(&self.last_status),
            last_chat_id: copy_opt(&self.last_chat_id),
            last_error: copy_opt(&self.last_error),
            last_request_id: copy_opt(&self.last_request_id),
            last_artifact_count: self.last_artifact_count,
            last_requires_explicit_approval: self.last_requires_explicit_approval,
            last_blocked_by_approval: self.last_blocked_by_approval,
        }
    }
}

/// A run as `list_recurring_tasks` shows it: the prompt of a prompt run is
/// hidden unless asked for.
pub open spec fn listed_run(r: RunView, include_prompt_text: bool) -> RunView {
    if !include_prompt_text && r.job_kind == "prompt"@ {
        RunView { prompt_text: None, ..r }
    } else {
        r
    }
}

/// Hides the prompts of prompt runs unless they are asked for.
pub fn redact_prompts(runs: &mut Vec<WorkspaceScheduledRun>, include_prompt_text: Option<bool>)
    ensures
        final(runs)@.len() == old(runs)@.len(),
        forall|i: int|
            0 <= i < final(runs)@.len() ==> #[trigger] final(runs)@[i]@ == listed_run(
                old(runs)@[i]@,
                match include_prompt_text {
                    Some(b) => b,
                    None => false,
                },
            ),
{
    let show_prompts = match include_prompt_text {
        Some(b) => b,
        None => false,
    };
    let mut i: usize = 0;
    while i < runs.len()
        invariant
            show_prompts == match include_prompt_text {
                Some(b) => b,
                None => false,
            },
            i <= runs@.len(),
            runs@.len() == old(runs)@.len(),
            forall|k: int|
                0 <= k < runs@.len() ==> #[trigger] runs@[k]@ == if k < i {
                    listed_run(old(runs)@[k]@, show_prompts)
                } else {
                    old(runs)@[k]@
                },
        decreases runs@.len() - i,
    {
        if !show_prompts && str_eq(runs[i].job_kind.as_str(), "prompt") {
            let mut r = runs[i].copy();
            r.prompt_text = None;
            runs.set(i, r);
        }
        i = i + 1;
    }
}


// ───────────────────────────── workspace targets ─────────────────────────────

/// What the scheduling tools read of a workspace.
#[derive(Debug)]
pub struct WorkspaceTarget {
    pub id: String,
    pub name: String,
    pub allowed_paths: Vec<String>,
    pub trust_preset: String,
    pub enabled_pack_ids: Vec<String>,
}

pub struct TargetView {
    pub id: Seq<char>,
    pub name: Seq<char>,
    pub allowed_paths: Seq<Seq<char>>,
    pub trust_preset: Seq<char>,
    pub enabled_pack_ids: Seq<Seq<char>>,
}

impl View for WorkspaceTarget {
    type V = TargetView;

    open spec fn view(&self) -> TargetView {
        TargetView {
            id: self.id@,
            name: self.name@,
            allowed_paths: str_views(self.allowed_paths@),
            trust_preset: self.trust_preset@,
            enabled_pack_ids: str_views(self.enabled_pack_ids@),
        }
    }
}

/// The workspace a tool call names, and the path it works in.
#[derive(Debug)]
pub struct ResolvedWorkspaceTarget {
    pub workspace: WorkspaceTarget,
    pub workspace_path: String,
}

/// The workspace that `workspace_ref` names: the one registered for it as a
/// path (`for_path`, where there is one), then working in that path; else
/// the one loaded by it as an id (`loaded`), working in its first allowed
/// path, or in `workspace_ref` where it has none.
pub open spec fn resolved_target(
    workspace_ref: Seq<char>,
    for_path: Option<TargetView>,
    loaded: Result<TargetView, Seq<char>>,
) -> Result<(TargetView, Seq<char>), Seq<char>> {
    match for_path {
        Some(w) => Ok((w, workspace_ref)),
        None => match loaded {
            Err(e) => Err(e),
            Ok(w) => Ok((w, if w.allowed_paths.len() > 0 { w.allowed_paths[0] } else { workspace_ref })),
        },
    }
}

pub fn resolve_workspace_target(
    workspace_ref: &str,
    for_path: Option<WorkspaceTarget>,
    loaded: Result<WorkspaceTarget, String>,
) -> (r: Result<ResolvedWorkspaceTarget, String>)
    ensures
        match resolved_target(
            workspace_ref@,
            match for_path {
                Some(w) => Some(w@),
                None => None,
            },
            match loaded {
                Ok(w) => Ok(w@),
                Err(e) => Err(e@),
            },
        ) {
            Ok((w, p)) => r matches Ok(t) && t.workspace@ == w && t.workspace_path@ == p,
            Err(e) => r matches Err(m) && m@ == e,
        },
{
    match for_path {
        Some(w) => Ok(ResolvedWorkspaceTarget { workspace: w, workspace_path: owned(workspace_ref) }),
        None => match loaded {
            Err(e) => Err(e),
            Ok(w) => {
                let path = if w.allowed_paths.len() > 0 {
                    w.allowed_paths[0].clone()
                } else {
                    owned(workspace_ref)
                };
                Ok(ResolvedWorkspaceTarget { workspace: w, workspace_path: path })
            },
        },
    }
}

/// The run id a tool call names, trimmed; `tool` names the tool in the
/// error where it is blank.
pub open spec fn run_id_of(raw: Seq<char>, tool: Seq<char>) -> Result<Seq<char>, Seq<char>> {
    if trim(raw).len() == 0 {
        Err(tool + " requires a non-empty scheduled_run_id"@)
    } else {
        Ok(trim(raw))
    }
}

pub fn scheduled_run_id_of(raw: &str, tool: &str) -> (r: Result<String, String>)
    ensures
        match run_id_of(raw@, tool@) {
            Ok(id) => r matches Ok(s) && s@ == id,
            Err(e) => r matches Err(m) && m@ == e,
        },
{
    let t = trim_str(raw);
    if chars_of(t.as_str()).len() == 0 {
        Err(crate::text::concat2(tool, " requires a non-empty scheduled_run_id"))
    } else {
        Ok(t)
    }
}

/// The change that `update_recurring_task` asks for, once the run `id` was
/// found among the workspace's runs: its new schedule, the given title,
/// prompt and scenario, and, for a scenario run, the workspace's trust
/// preset and packs.
pub open spec fn run_update_spec(
    id: Seq<char>,
    args: UpdateRecurringTaskArgs,
    workspace: TargetView,
    runs: Seq<RunView>,
) -> Result<(Option<Seq<char>>, Option<Seq<char>>, Option<Seq<char>>, Seq<char>, Option<Seq<char>>, Option<Seq<Seq<char>>>), Seq<char>> {
    match run_pos(runs, id) {
        None => Err("Scheduled run not found in the current workspace"@),
        Some(k) => match schedule_expression(
            opt_text(args.schedule_kind),
            args.hour,
            args.minute,
            args.day_of_week,
            args.day_of_month,
            opt_text(args.cron_expression),
        ) {
            Err(e) => Err(e),
            Ok(sched) => {
                let scenario = runs[k].job_kind == "scenario"@;
                Ok((
                    opt_text(args.title),
                    opt_text(args.task_prompt),
                    opt_text(args.scenario_id),
                    sched,
                    if scenario { Some(workspace.trust_preset) } else { None },
                    if scenario { Some(workspace.enabled_pack_ids) } else { None },
                ))
            },
        },
    }
}

/// Where the first run with id `id` stands.
pub open spec fn run_pos(runs: Seq<RunView>, id: Seq<char>) -> Option<int>
    decreases runs.len(),
{
    if runs.len() == 0 {
        None
    } else if runs[0].id == id {
        Some(0)
    } else {
        match run_pos(runs.drop_first(), id) {
            Some(k) => Some(k + 1),
            None => None,
        }
    }
}

pub open spec fn runs_view(s: Seq<WorkspaceScheduledRun>) -> Seq<RunView> {
    s.map_values(|r: WorkspaceScheduledRun| r@)
}

pub(crate) fn find_run(runs: &Vec<WorkspaceScheduledRun>, id: &str) -> (r: Option<usize>)
    ensures
        match r {
            Some(k) => k < runs@.len() && run_pos(runs_view(runs@), id@) == Some(k as int),
            None => run_pos(runs_view(runs@), id@) is None,
        },
{
    let ghost rv = runs_view(runs@);
    let mut i: usize = 0;
    assert(rv.skip(0) =~= rv);
    while i < runs.len()
        invariant
            i <= runs.len(),
            rv == runs_view(runs@),
            forall|j: int| 0 <= j < i ==> (#[trigger] rv[j]).id != id@,
            run_pos(rv, id@) == match run_pos(rv.skip(i as int), id@) {
                Some(k) => Some(k + i),
                None => None,
            },
        decreases runs.len() - i,
    {
        assert(rv.skip(i as int).drop_first() =~= rv.skip(i + 1));
        assert(rv.skip(i as int)[0] == rv[i as int]);
        if str_eq(runs[i].id.as_str(), id) {
            return Some(i);
        }
        i = i + 1;
    }
    None
}

pub fn plan_run_update(
    id: &str,
    args: &UpdateRecurringTaskArgs,
    workspace: &WorkspaceTarget,
    runs: &Vec<WorkspaceScheduledRun>,
) -> (r: Result<WorkspaceScheduledRunUpdate, String>)
    ensures
        match run_update_spec(id@, *args, workspace@, runs_view(runs@)) {
            Err(e) => r matches Err(m) && m@ == e,
            Ok((title, prompt, scenario, sched, trust, packs)) => r matches Ok(u) && {
                &&& opt_text(u.title) == title
                &&& opt_text(u.prompt_text) == prompt
                &&& opt_text(u.scenario_id) == scenario
                &&& u.schedule@ == sched
                &&& opt_text(u.trust_preset) == trust
                &&& match u.enabled_pack_ids {
                    Some(v) => packs == Some(str_views(v@)),
                    None => packs is None,
                }
            },
        },
{
    let k = match find_run(runs, id) {
        None => return Err(owned("Scheduled run not found in the current workspace")),
        Some(k) => k,
    };
    let sargs = ScheduleRecurringTaskArgs {
        title: copy_opt(&args.title),
        task_prompt: copy_opt(&args.task_prompt),
        scenario_id: copy_opt(&args.scenario_id),
        schedule_kind: copy_opt(&args.schedule_kind),
        hour: args.hour,
        minute: args.minute,
        day_of_week: args.day_of_week,
        day_of_month: args.day_of_month,
        cron_expression: copy_opt(&args.cron_expression),
    };
    let schedule = match build_schedule_expression(&sargs) {
        Ok(s) => s,
        Err(e) => return Err(e),
    };
    assert(runs_view(runs@)[k as int] == runs@[k as int]@);
    let scenario = str_eq(runs[k].job_kind.as_str(), "scenario");
    Ok(WorkspaceScheduledRunUpdate {
        title: copy_opt(&args.title),
        prompt_text: copy_opt(&args.task_prompt),
        scenario_id: copy_opt(&args.scenario_id),
        schedule,
        trust_preset: if scenario { Some(workspace.trust_preset.clone()) } else { None },
        enabled_pack_ids: if scenario { Some(copy_strings(&workspace.enabled_pack_ids)) } else { None },
    })
}

/// The reply of `delete_recurring_task`.
pub fn deleted_message(scheduled_run_id: &str, workspace_name: &str) -> (r: String)
    ensures
        r@ == "Deleted recurring task '"@ + scheduled_run_id@ + "' from workspace '"@ + workspace_name@ + "'"@,
{
    let a = crate::text::concat3("Deleted recurring task '", scheduled_run_id, "' from workspace '");
    crate::text::concat3(a.as_str(), workspace_name, "'")
}

/// The reply of `update_recurring_task`.
pub fn updated_message(title: &str, workspace_name: &str) -> (r: String)
    ensures
        r@ == "Updated native recurring task '"@ + title@ + "' for workspace '"@ + workspace_name@
            + "'. Use list_recurring_tasks to inspect the latest stored schedule."@,
{
    let a = crate::text::concat3("Updated native recurring task '", title, "' for workspace '");
    crate::text::concat3(a.as_str(), workspace_name, "'. Use list_recurring_tasks to inspect the latest stored schedule.")
}

/// A monthly schedule fires at second 0 of the requested minute (default 0, at most 59) of the
/// requested hour (default 9, at most 23), on the requested day of the month kept within
/// 1..=28 (default 1): a day from 1 to 28 appears as itself.
pub proof fn law_monthly_day_is_clamped(
    hour: Option<u8>,
    minute: Option<u8>,
    day_of_week: Option<u8>,
    day: Option<u8>,
    cron: Option<Seq<char>>,
)
    ensures
        ({
            let h: nat = match hour { Some(v) => if v > 23 { 23 } else { v as nat }, None => 9 };
            let m: nat = match minute { Some(v) => if v > 59 { 59 } else { v as nat }, None => 0 };
            let d: nat = match day {
                Some(v) => if v < 1 { 1 } else if v > 28 { 28 } else { v as nat },
                None => 1,
            };
            schedule_candidate(Some("monthly"@), hour, minute, day_of_week, day, cron) == Ok::<
                Seq<char>,
                Seq<char>,
            >("0 "@ + decimal(m) + " "@ + decimal(h) + " "@ + decimal(d) + " * * *"@)
        }),
        forall|v: u8|
            1 <= v <= 28 ==> #[trigger] schedule_candidate(
                Some("monthly"@),
                None,
                None,
                day_of_week,
                Some(v),
                cron,
            ) == Ok::<Seq<char>, Seq<char>>("0 0 9 "@ + decimal(v as nat) + " * * *"@),
{
    reveal_strlit("monthly");
    reveal_strlit("daily");
    reveal_strlit("weekdays");
    reveal_strlit("weekly");
    let k = "monthly"@;
    assert(crate::text::trim_start(k) == k);
    assert(crate::text::trim_end(k) == k);
    assert(lower_seq(k) =~= k);
    assert(schedule_kind(Some(k), cron) == k);
    assert forall|v: u8| 1 <= v <= 28 implies #[trigger] schedule_candidate(
        Some("monthly"@),
        None,
        None,
        day_of_week,
        Some(v),
        cron,
    ) == Ok::<Seq<char>, Seq<char>>("0 0 9 "@ + decimal(v as nat) + " * * *"@) by {
        reveal_strlit("0 0 9 ");
        reveal_strlit("0 ");
        reveal_strlit(" ");
        assert(decimal(0) == seq!['0']);
        assert(decimal(9) == seq!['9']);
        assert("0 "@ + decimal(0) + " "@ + decimal(9) + " "@ =~= "0 0 9 "@);
    }
}

/// The other built-in kinds put the same time of day in place: `daily` fires every day,
/// `weekdays` Monday to Friday, and `weekly` on the requested day of the week (default 1, at
/// most 6).
pub proof fn law_daily_weekdays_weekly_fields(
    hour: Option<u8>,
    minute: Option<u8>,
    day_of_week: Option<u8>,
    day: Option<u8>,
    cron: Option<Seq<char>>,
)
    ensures
        ({
            let h: nat = match hour { Some(v) => if v > 23 { 23 } else { v as nat }, None => 9 };
            let m: nat = match minute { Some(v) => if v > 59 { 59 } else { v as nat }, None => 0 };
            let w: nat = match day_of_week { Some(v) => if v > 6 { 6 } else { v as nat }, None => 1 };
            &&& schedule_candidate(Some("daily"@), hour, minute, day_of_week, day, cron) == Ok::<
                Seq<char>,
                Seq<char>,
            >("0 "@ + decimal(m) + " "@ + decimal(h) + " * * * *"@)
            &&& schedule_candidate(Some("weekdays"@), hour, minute, day_of_week, day, cron) == Ok::<
                Seq<char>,
                Seq<char>,
            >("0 "@ + decimal(m) + " "@ + decimal(h) + " * * 1-5 *"@)
            &&& schedule_candidate(Some("weekly"@), hour, minute, day_of_week, day, cron) == Ok::<
                Seq<char>,
                Seq<char>,
            >("0 "@ + decimal(m) + " "@ + decimal(h) + " * * "@ + decimal(w) + " *"@)
        }),
{
    reveal_strlit("daily");
    reveal_strlit("weekdays");
    reveal_strlit("weekly");
    let d = "daily"@;
    let wd = "weekdays"@;
    let wk = "weekly"@;
    assert(crate::text::trim_start(d) == d && crate::text::trim_end(d) == d);
    assert(crate::text::trim_start(wd) == wd && crate::text::trim_end(wd) == wd);
    assert(crate::text::trim_start(wk) == wk && crate::text::trim_end(wk) == wk);
    assert(lower_seq(d) =~= d);
    assert(lower_seq(wd) =~= wd);
    assert(lower_seq(wk) =~= wk);
    assert(schedule_kind(Some(d), cron) == d);
    assert(schedule_kind(Some(wd), cron) == wd);
    assert(schedule_kind(Some(wk), cron) == wk);
}

} // verus!
