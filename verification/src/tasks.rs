//! The task queue: pending tasks wait until each task they depend on has
//! completed or failed; a dequeued task runs, then completes, fails or is
//! cancelled. The task manager checks each task against the workspace in
//! force before it queues or starts it.
use vstd::prelude::*;
use crate::text::{chars_of, concat2, concat3, owned, starts_with, str_eq, str_views};
use crate::third_party::{first_where, lemma_first_where_props, lemma_first_where_skip};

verus! {

// ───────────────────────────── tasks ─────────────────────────────

/// Where a task stands.
#[derive(Debug, Clone, Copy, PartialEq, Eq, Structural)]
pub enum TaskStatus {
    Pending,
    Running,
    Paused,
    Completed,
    Failed,
    Cancelled,
}

/// A task for an AI provider: what it asks, the tasks it waits for, and the
/// workspace it belongs to. `completed_at` is in seconds since the Unix epoch.
#[derive(Debug)]
pub struct Task {
    pub id: String,
    pub description: String,
    pub provider: String,
    pub model: String,
    pub status: TaskStatus,
    pub dependencies: Vec<String>,
    pub error: Option<String>,
    pub completed_at: Option<i64>,
    pub workspace_id: Option<String>,
    pub workspace_path: Option<String>,
}

pub struct TaskView {
    pub id: Seq<char>,
    pub description: Seq<char>,
    pub provider: Seq<char>,
    pub model: Seq<char>,
    pub status: TaskStatus,
    pub dependencies: Seq<Seq<char>>,
    pub error: Option<Seq<char>>,
    pub completed_at: Option<i64>,
    pub workspace_id: Option<Seq<char>>,
    pub workspace_path: Option<Seq<char>>,
}

pub open spec fn opt_view(o: Option<String>) -> Option<Seq<char>> {
    match o {
        Some(s) => Some(s@),
        None => None,
    }
}

impl View for Task {
    type V = TaskView;

    open spec fn view(&self) -> TaskView {
        TaskView {
            id: self.id@,
            description: self.description@,
            provider: self.provider@,
            model: self.model@,
            status: self.status,
            dependencies: str_views(self.dependencies@),
            error: opt_view(self.error),
            completed_at: self.completed_at,
            workspace_id: opt_view(self.workspace_id),
            workspace_path: opt_view(self.workspace_path),
        }
    }
}

fn copy_opt(o: &Option<String>) -> (r: Option<String>)
    ensures
        opt_view(r) == opt_view(*o),
{
    match o {
        Some(s) => Some(s.clone()),
        None => None,
    }
}

impl Task {
    pub fn copy(&self) -> (r: Self)
        ensures
            r@ == self@,
    {
        Task {
            id: self.id.clone(),
            description: self.description.clone(),
            provider: self.provider.clone(),
            model: self.model.clone(),
            status: self.status,
            dependencies: crate::text::copy_strings(&self.dependencies),
            error: copy_opt(&self.error),
            completed_at: self.completed_at,
            workspace_id: copy_opt(&self.workspace_id),
            workspace_path: copy_opt(&self.workspace_path),
        }
    }
}

pub open spec fn task_views(s: Seq<Task>) -> Seq<TaskView> {
    s.map_values(|t: Task| t@)
}

// ───────────────────────────── tasks kept by id ─────────────────────────────

pub open spec fn has_id(id: Seq<char>) -> spec_fn(TaskView) -> bool {
    |t: TaskView| t.id == id
}

/// Where the task with id `id` stands in a list.
pub open spec fn pos_of(s: Seq<TaskView>, id: Seq<char>) -> Option<int> {
    first_where(s, has_id(id))
}

/// The task with id `id`, if the list holds one.
pub open spec fn find(s: Seq<TaskView>, id: Seq<char>) -> Option<TaskView> {
    match pos_of(s, id) {
        Some(i) => Some(s[i]),
        None => None,
    }
}

/// The list with `t` stored under its id: in place of the task with that id,
/// else appended.
pub open spec fn put(s: Seq<TaskView>, t: TaskView) -> Seq<TaskView> {
    match pos_of(s, t.id) {
        Some(i) => s.update(i, t),
        None => s.push(t),
    }
}

/// The list without the task with id `id`.
pub open spec fn take_out(s: Seq<TaskView>, id: Seq<char>) -> Seq<TaskView> {
    match pos_of(s, id) {
        Some(i) => s.remove(i),
        None => s,
    }
}

/// No two tasks of the list share an id: the list is a map from ids.
pub open spec fn distinct_ids(s: Seq<TaskView>) -> bool {
    forall|i: int, j: int| 0 <= i < s.len() && 0 <= j < s.len() && i != j ==> #[trigger] s[i].id != #[trigger] s[j].id
}

pub proof fn lemma_pos_of(s: Seq<TaskView>, id: Seq<char>)
    ensures
        match pos_of(s, id) {
            Some(k) => 0 <= k < s.len() && s[k].id == id && forall|j: int| 0 <= j < k ==> (#[trigger] s[j]).id != id,
            None => forall|j: int| 0 <= j < s.len() ==> (#[trigger] s[j]).id != id,
        },
{
    lemma_first_where_props(s, has_id(id));
    match pos_of(s, id) {
        Some(k) => {
            assert forall|j: int| 0 <= j < k implies (#[trigger] s[j]).id != id by {
                assert(!has_id(id)(s[j]));
            }
        },
        None => {
            assert forall|j: int| 0 <= j < s.len() implies (#[trigger] s[j]).id != id by {
                assert(!has_id(id)(s[j]));
            }
        },
    }
}

/// In a map from ids, the task found for an id is the only one with it.
pub proof fn lemma_distinct_pos(s: Seq<TaskView>, id: Seq<char>, i: int)
    requires
        distinct_ids(s),
        0 <= i < s.len(),
        s[i].id == id,
    ensures
        pos_of(s, id) == Some(i),
{
    lemma_pos_of(s, id);
    match pos_of(s, id) {
        Some(k) => {
            if k != i {
                assert(s[k].id != s[i].id);
            }
        },
        None => {
            assert(s[i].id != id);
        },
    }
}

/// Storing a task under its id keeps the list a map from ids; the task is
/// then found by its id, and every other id finds what it found before.
pub proof fn lemma_put(s: Seq<TaskView>, t: TaskView)
    requires
        distinct_ids(s),
    ensures
        distinct_ids(put(s, t)),
        find(put(s, t), t.id) == Some(t),
        forall|id: Seq<char>| id != t.id ==> #[trigger] find(put(s, t), id) == find(s, id),
{
    lemma_pos_of(s, t.id);
    let r = put(s, t);
    match pos_of(s, t.id) {
        Some(k) => {
            assert forall|i: int, j: int| 0 <= i < r.len() && 0 <= j < r.len() && i != j implies #[trigger] r[i].id != #[trigger] r[j].id by {
                if i != k && j != k {
                    assert(s[i].id != s[j].id);
                } else if i == k {
                    assert(s[k].id != s[j].id);
                } else {
                    assert(s[i].id != s[k].id);
                }
            }
            lemma_distinct_pos(r, t.id, k);
        },
        None => {
            let n = s.len() as int;
            assert forall|i: int, j: int| 0 <= i < r.len() && 0 <= j < r.len() && i != j implies #[trigger] r[i].id != #[trigger] r[j].id by {
                if i != n && j != n {
                    assert(s[i].id != s[j].id);
                } else if i == n {
                    assert(s[j].id != t.id);
                } else {
                    assert(s[i].id != t.id);
                }
            }
            lemma_distinct_pos(r, t.id, n);
        },
    }
    assert forall|id: Seq<char>| id != t.id implies #[trigger] find(r, id) == find(s, id) by {
        lemma_pos_of(s, id);
        lemma_pos_of(r, id);
        match pos_of(s, id) {
            Some(k) => {
                assert(r[k] == s[k]);
                lemma_distinct_pos(r, id, k);
            },
            None => {
                match pos_of(r, id) {
                    Some(m) => {
                        if m < s.len() {
                            assert(r[m] == s[m]);
                        } else {
                            assert(r[m] == t);
                        }
                    },
                    None => {},
                }
            },
        }
    }
}

/// Taking a task out keeps the list a map from ids; its id then finds
/// nothing, and every other id finds what it found before.
pub proof fn lemma_take_out(s: Seq<TaskView>, id: Seq<char>)
    requires
        distinct_ids(s),
    ensures
        distinct_ids(take_out(s, id)),
        find(take_out(s, id), id) is None,
        forall|other: Seq<char>| other != id ==> #[trigger] find(take_out(s, id), other) == find(s, other),
{
    lemma_pos_of(s, id);
    let r = take_out(s, id);
    match pos_of(s, id) {
        Some(k) => {
            assert forall|i: int, j: int| 0 <= i < r.len() && 0 <= j < r.len() && i != j implies #[trigger] r[i].id != #[trigger] r[j].id by {
                let si = if i < k { i } else { i + 1 };
                let sj = if j < k { j } else { j + 1 };
                assert(r[i] == s[si]);
                assert(r[j] == s[sj]);
                assert(s[si].id != s[sj].id);
            }
            lemma_pos_of(r, id);
            match pos_of(r, id) {
                Some(m) => {
                    let sm = if m < k { m } else { m + 1 };
                    assert(r[m] == s[sm]);
                    assert(s[sm].id != s[k].id);
                },
                None => {},
            }
            assert forall|other: Seq<char>| other != id implies #[trigger] find(r, other) == find(s, other) by {
                lemma_pos_of(s, other);
                lemma_pos_of(r, other);
                match pos_of(s, other) {
                    Some(q) => {
                        assert(q != k);
                        let rq = if q < k { q } else { q - 1 };
                        assert(r[rq] == s[q]);
                        lemma_distinct_pos(r, other, rq);
                    },
                    None => {
                        match pos_of(r, other) {
                            Some(m) => {
                                let sm = if m < k { m } else { m + 1 };
                                assert(r[m] == s[sm]);
                            },
                            None => {},
                        }
                    },
                }
            }
        },
        None => {},
    }
}

pub proof fn lemma_find_push(s: Seq<TaskView>, x: TaskView, id: Seq<char>)
    ensures
        (find(s.push(x), id) is Some) == (find(s, id) is Some || x.id == id),
{
    lemma_pos_of(s, id);
    lemma_pos_of(s.push(x), id);
    match pos_of(s, id) {
        Some(k) => {
            assert(s.push(x)[k] == s[k]);
        },
        None => {
            match pos_of(s.push(x), id) {
                Some(m) => {
                    if m < s.len() {
                        assert(s.push(x)[m] == s[m]);
                    }
                },
                None => {
                    assert(s.push(x)[s.len() as int] == x);
                },
            }
        },
    }
}

fn index_of(v: &Vec<Task>, id: &str) -> (r: Option<usize>)
    ensures
        match pos_of(task_views(v@), id@) {
            Some(i) => r matches Some(x) && x as int == i && i < v@.len(),
            None => r is None,
        },
{
    let ghost sv = task_views(v@);
    let ghost p = has_id(id@);
    let mut i: usize = 0;
    while i < v.len()
        invariant
            i <= v@.len(),
            sv == task_views(v@),
            p == has_id(id@),
            forall|j: int| 0 <= j < i ==> !p(#[trigger] sv[j]),
        decreases v@.len() - i,
    {
        if str_eq(v[i].id.as_str(), id) {
            proof {
                lemma_first_where_skip(sv, p, i as int);
                assert(sv.skip(i as int)[0] == sv[i as int]);
            }
            return Some(i);
        }
        i = i + 1;
    }
    proof {
        lemma_first_where_skip(sv, p, i as int);
        assert(sv.skip(i as int).len() == 0);
    }
    None
}

/// Stores `t` under its id.
fn put_task(v: &mut Vec<Task>, t: Task)
    ensures
        task_views(final(v)@) == put(task_views(old(v)@), t@),
{
    match index_of(v, t.id.as_str()) {
        Some(i) => {
            let ghost tv = t@;
            v.set(i, t);
            assert(task_views(v@) =~= task_views(old(v)@).update(i as int, tv));
        },
        None => {
            let ghost tv = t@;
            v.push(t);
            assert(task_views(v@) =~= task_views(old(v)@).push(tv));
        },
    }
}

/// Takes the task with id `id` out of the list, if it holds one.
fn remove_task(v: &mut Vec<Task>, id: &str) -> (r: Option<Task>)
    ensures
        task_views(final(v)@) == take_out(task_views(old(v)@), id@),
        match r {
            Some(t) => find(task_views(old(v)@), id@) == Some(t@),
            None => find(task_views(old(v)@), id@) is None,
        },
{
    match index_of(v, id) {
        Some(i) => {
            let t = v.remove(i);
            assert(task_views(v@) =~= task_views(old(v)@).remove(i as int));
            Some(t)
        },
        None => None,
    }
}

fn find_task(v: &Vec<Task>, id: &str) -> (r: Option<Task>)
    ensures
        match r {
            Some(t) => find(task_views(v@), id@) == Some(t@),
            None => find(task_views(v@), id@) is None,
        },
{
    match index_of(v, id) {
        Some(i) => Some(v[i].copy()),
        None => None,
    }
}

// ───────────────────────────── the queue ─────────────────────────────

/// A pending task and when it was queued (seconds since the Unix epoch).
/// Every task is queued at normal priority, so the time alone orders them.
#[derive(Debug)]
pub struct PendingTask {
    pub task: Task,
    pub created_at: i64,
}

pub open spec fn pending_views(s: Seq<PendingTask>) -> Seq<(TaskView, i64)> {
    s.map_values(|p: PendingTask| (p.task@, p.created_at))
}

/// A task that the list of completed tasks or the list of failed tasks holds.
pub open spec fn settled(completed: Seq<TaskView>, failed: Seq<TaskView>, id: Seq<char>) -> bool {
    find(completed, id) is Some || find(failed, id) is Some
}

/// A task can start once each task it depends on has completed or failed.
pub open spec fn ready(completed: Seq<TaskView>, failed: Seq<TaskView>, t: TaskView) -> bool {
    forall|k: int| 0 <= k < t.dependencies.len() ==> #[trigger] settled(completed, failed, t.dependencies[k])
}

/// The pending task at `i` is the one to start: it is ready, and no ready
/// task was queued after it (the queue pops its latest task first), nor at
/// the same time before it in the list.
pub open spec fn is_next(p: Seq<(TaskView, i64)>, completed: Seq<TaskView>, failed: Seq<TaskView>, i: int) -> bool {
    &&& 0 <= i < p.len()
    &&& ready(completed, failed, p[i].0)
    &&& forall|j: int| 0 <= j < p.len() && #[trigger] ready(completed, failed, p[j].0) ==> p[j].1 < p[i].1 || (p[j].1 == p[i].1 && i <= j)
}

pub open spec fn next_ready(p: Seq<(TaskView, i64)>, completed: Seq<TaskView>, failed: Seq<TaskView>) -> Option<int> {
    if exists|i: int| is_next(p, completed, failed, i) {
        Some(choose|i: int| is_next(p, completed, failed, i))
    } else {
        None
    }
}

proof fn lemma_next_unique(p: Seq<(TaskView, i64)>, completed: Seq<TaskView>, failed: Seq<TaskView>, i: int, j: int)
    requires
        is_next(p, completed, failed, i),
        is_next(p, completed, failed, j),
    ensures
        i == j,
{
    assert(ready(completed, failed, p[j].0));
    assert(ready(completed, failed, p[i].0));
}

/// Pending tasks wait for their dependencies; running, completed and failed
/// tasks are kept by id.
#[derive(Debug)]
pub struct TaskQueue {
    pending: Vec<PendingTask>,
    running: Vec<Task>,
    completed: Vec<Task>,
    failed: Vec<Task>,
}

impl TaskQueue {
    pub closed spec fn pending_spec(&self) -> Seq<(TaskView, i64)> {
        pending_views(self.pending@)
    }

    pub closed spec fn running_spec(&self) -> Seq<TaskView> {
        task_views(self.running@)
    }

    pub closed spec fn completed_spec(&self) -> Seq<TaskView> {
        task_views(self.completed@)
    }

    pub closed spec fn failed_spec(&self) -> Seq<TaskView> {
        task_views(self.failed@)
    }

    /// The running, completed and failed tasks are each kept by id.
    pub open spec fn wf(&self) -> bool {
        &&& distinct_ids(self.running_spec())
        &&& distinct_ids(self.completed_spec())
        &&& distinct_ids(self.failed_spec())
    }

    pub fn new() -> (r: Self)
        ensures
            r.wf(),
            r.pending_spec().len() == 0,
            r.running_spec().len() == 0,
            r.completed_spec().len() == 0,
            r.failed_spec().len() == 0,
    {
        let r = TaskQueue { pending: Vec::new(), running: Vec::new(), completed: Vec::new(), failed: Vec::new() };
        assert(r.pending_spec() =~= Seq::<(TaskView, i64)>::empty());
        assert(r.running_spec() =~= Seq::<TaskView>::empty());
        assert(r.completed_spec() =~= Seq::<TaskView>::empty());
        assert(r.failed_spec() =~= Seq::<TaskView>::empty());
        r
    }

    /// Queues `task` at `now`.
    pub fn enqueue(&mut self, task: Task, now: i64)
        requires
            old(self).wf(),
        ensures
            final(self).wf(),
            final(self).pending_spec() == old(self).pending_spec().push((task@, now)),
            final(self).running_spec() == old(self).running_spec(),
            final(self).completed_spec() == old(self).completed_spec(),
            final(self).failed_spec() == old(self).failed_spec(),
    {
        let ghost tv = task@;
        self.pending.push(PendingTask { task, created_at: now });
        assert(self.pending_spec() =~= old(self).pending_spec().push((tv, now)));
    }

    fn is_settled(&self, id: &str) -> (r: bool)
        ensures
            r == settled(self.completed_spec(), self.failed_spec(), id@),
    {
        index_of(&self.completed, id).is_some() || index_of(&self.failed, id).is_some()
    }

    fn is_ready(&self, t: &Task) -> (r: bool)
        ensures
            r == ready(self.completed_spec(), self.failed_spec(), t@),
    {
        let mut k: usize = 0;
        while k < t.dependencies.len()
            invariant
                k <= t.dependencies@.len(),
                forall|j: int| 0 <= j < k ==> #[trigger] settled(self.completed_spec(), self.failed_spec(), t@.dependencies[j]),
            decreases t.dependencies@.len() - k,
        {
            if !self.is_settled(t.dependencies[k].as_str()) {
                assert(!settled(self.completed_spec(), self.failed_spec(), t@.dependencies[k as int]));
                return false;
            }
            k = k + 1;
        }
        true
    }

    /// The next task to run: moved from the pending tasks to the running
    /// ones. `None` where no pending task is ready; nothing changes then.
    pub fn dequeue(&mut self) -> (r: Option<Task>)
        requires
            old(self).wf(),
        ensures
            final(self).wf(),
            final(self).completed_spec() == old(self).completed_spec(),
            final(self).failed_spec() == old(self).failed_spec(),
            match next_ready(old(self).pending_spec(), old(self).completed_spec(), old(self).failed_spec()) {
                None => {
                    &&& r is None
                    &&& final(self).pending_spec() == old(self).pending_spec()
                    &&& final(self).running_spec() == old(self).running_spec()
                },
                Some(i) => {
                    &&& r matches Some(t) && t@ == old(self).pending_spec()[i].0
                    &&& final(self).pending_spec() == old(self).pending_spec().remove(i)
                    &&& final(self).running_spec() == put(old(self).running_spec(), old(self).pending_spec()[i].0)
                },
            },
    {
        let ghost p = self.pending_spec();
        let ghost c = self.completed_spec();
        let ghost f = self.failed_spec();
        let mut best: Option<usize> = None;
        let mut i: usize = 0;
        while i < self.pending.len()
            invariant
                i <= self.pending@.len(),
                p == self.pending_spec(),
                c == self.completed_spec(),
                f == self.failed_spec(),
                match best {
                    None => forall|j: int| 0 <= j < i ==> !#[trigger] ready(c, f, p[j].0),
                    Some(b) => {
                        &&& b < i
                        &&& ready(c, f, p[b as int].0)
                        &&& forall|j: int| 0 <= j < i && #[trigger] ready(c, f, p[j].0) ==> p[j].1 < p[b as int].1 || (p[j].1 == p[b as int].1 && b <= j)
                    },
                },
            decreases self.pending@.len() - i,
        {
            assert(p[i as int] == (self.pending@[i as int].task@, self.pending@[i as int].created_at));
            if self.is_ready(&self.pending[i].task) {
                match best {
                    None => {
                        best = Some(i);
                    },
                    Some(b) => {
                        assert(p[b as int] == (self.pending@[b as int].task@, self.pending@[b as int].created_at));
                        if self.pending[i].created_at > self.pending[b].created_at {
                            best = Some(i);
                        }
                    },
                }
            }
            i = i + 1;
        }
        match best {
            None => {
                assert(!exists|j: int| is_next(p, c, f, j));
                None
            },
            Some(b) => {
                assert(is_next(p, c, f, b as int));
                proof {
                    let k = choose|k: int| is_next(p, c, f, k);
                    lemma_next_unique(p, c, f, k, b as int);
                }
                let pt = self.pending.remove(b);
                assert(self.pending_spec() =~= p.remove(b as int));
                let t = pt.task;
                let out = t.copy();
                proof {
                    lemma_put(self.running_spec(), t@);
                }
                put_task(&mut self.running, t);
                Some(out)
            },
        }
    }

    /// Moves the running task `task_id` to the completed tasks; nothing
    /// happens where no task of that id runs.
    pub fn complete_task(&mut self, task_id: &str)
        requires
            old(self).wf(),
        ensures
            final(self).wf(),
            final(self).pending_spec() == old(self).pending_spec(),
            final(self).failed_spec() == old(self).failed_spec(),
            match find(old(self).running_spec(), task_id@) {
                None => final(self).running_spec() == old(self).running_spec() && final(self).completed_spec() == old(self).completed_spec(),
                Some(t) => {
                    &&& final(self).running_spec() == take_out(old(self).running_spec(), task_id@)
                    &&& final(self).completed_spec() == put(old(self).completed_spec(), t)
                },
            },
    {
        proof {
            lemma_take_out(self.running_spec(), task_id@);
        }
        match remove_task(&mut self.running, task_id) {
            Some(t) => {
                proof {
                    lemma_pos_of(old(self).running_spec(), task_id@);
                    lemma_put(self.completed_spec(), t@);
                }
                put_task(&mut self.completed, t);
            },
            None => {},
        }
    }

    /// Moves the running task `task_id` to the failed tasks, with `error`
    /// and the time it failed; nothing happens where no task of that id runs.
    pub fn fail_task(&mut self, task_id: &str, error: String, now: i64)
        requires
            old(self).wf(),
        ensures
            final(self).wf(),
            final(self).pending_spec() == old(self).pending_spec(),
            final(self).completed_spec() == old(self).completed_spec(),
            match find(old(self).running_spec(), task_id@) {
                None => final(self).running_spec() == old(self).running_spec() && final(self).failed_spec() == old(self).failed_spec(),
                Some(t) => {
                    &&& final(self).running_spec() == take_out(old(self).running_spec(), task_id@)
                    &&& final(self).failed_spec() == put(old(self).failed_spec(), TaskView {
                        status: TaskStatus::Failed,
                        error: Some(error@),
                        completed_at: Some(now),
                        ..t
                    })
                },
            },
    {
        proof {
            lemma_take_out(self.running_spec(), task_id@);
        }
        match remove_task(&mut self.running, task_id) {
            Some(mut t) => {
                proof {
                    lemma_pos_of(old(self).running_spec(), task_id@);
                }
                t.status = TaskStatus::Failed;
                t.error = Some(error);
                t.completed_at = Some(now);
                proof {
                    lemma_put(self.failed_spec(), t@);
                }
                put_task(&mut self.failed, t);
            },
            None => {},
        }
    }

    /// Every task: the pending ones, then the running, completed and failed ones.
    pub fn get_all_tasks(&self) -> (r: Vec<Task>)
        ensures
            task_views(r@) == pending_tasks(self.pending_spec()) + self.running_spec()
                + self.completed_spec() + self.failed_spec(),
    {
        let mut out: Vec<Task> = Vec::new();
        let mut i: usize = 0;
        while i < self.pending.len()
            invariant
                i <= self.pending@.len(),
                task_views(out@) == pending_tasks(self.pending_spec()).take(i as int),
            decreases self.pending@.len() - i,
        {
            let t = self.pending[i].task.copy();
            let ghost pv = pending_tasks(self.pending_spec());
            assert(pv[i as int] == t@);
            assert(task_views(out@.push(t)) =~= task_views(out@).push(t@));
            assert(pv.take(i + 1) =~= pv.take(i as int).push(t@));
            out.push(t);
            i = i + 1;
        }
        assert(pending_tasks(self.pending_spec()).take(i as int) =~= pending_tasks(self.pending_spec()));
        append_copies(&mut out, &self.running);
        append_copies(&mut out, &self.completed);
        append_copies(&mut out, &self.failed);
        out
    }

    /// The task with id `task_id`: among the running tasks, then the
    /// completed, the failed and the pending ones.
    pub fn get_task(&self, task_id: &str) -> (r: Option<Task>)
        ensures
            match r {
                Some(t) => Some(t@) == lookup_task(self.pending_spec(), self.running_spec(), self.completed_spec(), self.failed_spec(), task_id@),
                None => lookup_task(self.pending_spec(), self.running_spec(), self.completed_spec(), self.failed_spec(), task_id@) is None,
            },
    {
        match find_task(&self.running, task_id) {
            Some(t) => return Some(t),
            None => {},
        }
        match find_task(&self.completed, task_id) {
            Some(t) => return Some(t),
            None => {},
        }
        match find_task(&self.failed, task_id) {
            Some(t) => return Some(t),
            None => {},
        }
        let ghost pv = pending_tasks(self.pending_spec());
        let mut i: usize = 0;
        while i < self.pending.len()
            invariant
                i <= self.pending@.len(),
                pv == pending_tasks(self.pending_spec()),
                find(self.running_spec(), task_id@) is None,
                find(self.completed_spec(), task_id@) is None,
                find(self.failed_spec(), task_id@) is None,
                forall|j: int| 0 <= j < i ==> (#[trigger] pv[j]).id != task_id@,
            decreases self.pending@.len() - i,
        {
            assert(pv[i as int] == self.pending@[i as int].task@);
            if str_eq(self.pending[i].task.id.as_str(), task_id) {
                proof {
                    lemma_pos_of(pv, task_id@);
                    match pos_of(pv, task_id@) {
                        Some(k) => {
                            if k < i {
                                assert(pv[k].id != task_id@);
                            } else if k > i {
                                assert(pv[i as int].id != task_id@);
                            }
                            assert(k == i);
                        },
                        None => {
                            assert(pv[i as int].id != task_id@);
                        },
                    }
                    assert(find(pv, task_id@) == Some(pv[i as int]));
                }
                let c = self.pending[i].task.copy();
                assert(c@ == pv[i as int]);
                assert(find(self.running_spec(), task_id@) is None);
                assert(find(self.completed_spec(), task_id@) is None);
                assert(find(self.failed_spec(), task_id@) is None);
                assert(lookup_task(self.pending_spec(), self.running_spec(), self.completed_spec(), self.failed_spec(), task_id@) == Some(pv[i as int]));
                return Some(c);
            }
            i = i + 1;
        }
        proof {
            lemma_pos_of(pv, task_id@);
        }
        None
    }

    pub fn running_count(&self) -> (r: usize)
        ensures
            r == self.running_spec().len(),
    {
        self.running.len()
    }

    pub fn pending_count(&self) -> (r: usize)
        ensures
            r == self.pending_spec().len(),
    {
        self.pending.len()
    }
}

/// The pending tasks, without the times they were queued.
pub open spec fn pending_tasks(p: Seq<(TaskView, i64)>) -> Seq<TaskView> {
    p.map_values(|e: (TaskView, i64)| e.0)
}

/// Two queues hold the same tasks in the same places.
pub open spec fn same_queue(a: TaskQueue, b: TaskQueue) -> bool {
    &&& a.pending_spec() == b.pending_spec()
    &&& a.running_spec() == b.running_spec()
    &&& a.completed_spec() == b.completed_spec()
    &&& a.failed_spec() == b.failed_spec()
}

/// The task that `get_task` finds.
pub open spec fn lookup_task(
    pending: Seq<(TaskView, i64)>,
    running: Seq<TaskView>,
    completed: Seq<TaskView>,
    failed: Seq<TaskView>,
    id: Seq<char>,
) -> Option<TaskView> {
    match find(running, id) {
        Some(t) => Some(t),
        None => match find(completed, id) {
            Some(t) => Some(t),
            None => match find(failed, id) {
                Some(t) => Some(t),
                None => find(pending_tasks(pending), id),
            },
        },
    }
}

fn append_copies(out: &mut Vec<Task>, v: &Vec<Task>)
    ensures
        task_views(final(out)@) == task_views(old(out)@) + task_views(v@),
{
    let ghost start = task_views(out@);
    let mut i: usize = 0;
    while i < v.len()
        invariant
            i <= v@.len(),
            task_views(out@) == start + task_views(v@).take(i as int),
        decreases v@.len() - i,
    {
        let t = v[i].copy();
        assert(task_views(out@.push(t)) =~= task_views(out@).push(t@));
        assert(task_views(v@).take(i + 1) =~= task_views(v@).take(i as int).push(t@));
        out.push(t);
        i = i + 1;
    }
    assert(task_views(v@).take(i as int) =~= task_views(v@));
}

// ───────────────────────────── saved queue state ─────────────────────────────

/// A snapshot of a queue as it is saved: its tasks by state.
#[derive(Debug)]
pub struct QueueState {
    pub pending: Vec<Task>,
    pub running: Vec<Task>,
    pub completed: Vec<Task>,
    pub failed: Vec<Task>,
}

/// The list that storing each of `items` by id, in turn, makes of `s`.
pub open spec fn put_all(s: Seq<TaskView>, items: Seq<TaskView>) -> Seq<TaskView>
    decreases items.len(),
{
    if items.len() == 0 {
        s
    } else {
        put(put_all(s, items.drop_last()), items.last())
    }
}

/// The pending entries that queueing `tasks` at `now`, in order, makes.
pub open spec fn queued_at(tasks: Seq<TaskView>, now: i64) -> Seq<(TaskView, i64)> {
    tasks.map_values(|t: TaskView| (t, now))
}

/// Stores copies of `items` by id into `v`, one after another.
fn put_copies(v: &mut Vec<Task>, items: &Vec<Task>)
    ensures
        task_views(final(v)@) == put_all(task_views(old(v)@), task_views(items@)),
{
    let ghost start = task_views(v@);
    let mut i: usize = 0;
    while i < items.len()
        invariant
            i <= items@.len(),
            task_views(v@) == put_all(start, task_views(items@).take(i as int)),
        decreases items@.len() - i,
    {
        let t = items[i].copy();
        assert(task_views(items@).take(i + 1).drop_last() =~= task_views(items@).take(i as int));
        put_task(v, t);
        i = i + 1;
    }
    assert(task_views(items@).take(i as int) =~= task_views(items@));
}

impl QueueState {
    /// The queue's tasks: the pending ones in the order they were queued,
    /// and the running, completed and failed ones as the queue keeps them.
    pub fn from_queue(queue: &TaskQueue) -> (r: Self)
        ensures
            task_views(r.pending@) == pending_tasks(queue.pending_spec()),
            task_views(r.running@) == queue.running_spec(),
            task_views(r.completed@) == queue.completed_spec(),
            task_views(r.failed@) == queue.failed_spec(),
    {
        let mut pending: Vec<Task> = Vec::new();
        let mut i: usize = 0;
        while i < queue.pending.len()
            invariant
                i <= queue.pending@.len(),
                task_views(pending@) == pending_tasks(queue.pending_spec()).take(i as int),
            decreases queue.pending@.len() - i,
        {
            let t = queue.pending[i].task.copy();
            let ghost pv = pending_tasks(queue.pending_spec());
            assert(pv[i as int] == t@);
            assert(task_views(pending@.push(t)) =~= task_views(pending@).push(t@));
            assert(pv.take(i + 1) =~= pv.take(i as int).push(t@));
            pending.push(t);
            i = i + 1;
        }
        assert(pending_tasks(queue.pending_spec()).take(i as int) =~= pending_tasks(queue.pending_spec()));
        let mut running: Vec<Task> = Vec::new();
        append_copies(&mut running, &queue.running);
        let mut completed: Vec<Task> = Vec::new();
        append_copies(&mut completed, &queue.completed);
        let mut failed: Vec<Task> = Vec::new();
        append_copies(&mut failed, &queue.failed);
        assert(task_views(running@) =~= queue.running_spec());
        assert(task_views(completed@) =~= queue.completed_spec());
        assert(task_views(failed@) =~= queue.failed_spec());
        QueueState { pending, running, completed, failed }
    }

    /// Replaces what `queue` holds by this snapshot: the pending tasks are
    /// queued again at `now`, in order; the others are stored by id, a later
    /// one in place of an earlier one with the same id.
    pub fn restore_to_queue(&self, queue: &mut TaskQueue, now: i64)
        ensures
            final(queue).wf(),
            final(queue).pending_spec() == queued_at(task_views(self.pending@), now),
            final(queue).running_spec() == put_all(Seq::empty(), task_views(self.running@)),
            final(queue).completed_spec() == put_all(Seq::empty(), task_views(self.completed@)),
            final(queue).failed_spec() == put_all(Seq::empty(), task_views(self.failed@)),
    {
        let mut pending: Vec<PendingTask> = Vec::new();
        let mut i: usize = 0;
        while i < self.pending.len()
            invariant
                i <= self.pending@.len(),
                pending_views(pending@) == queued_at(task_views(self.pending@), now).take(i as int),
            decreases self.pending@.len() - i,
        {
            let t = self.pending[i].copy();
            let ghost qv = queued_at(task_views(self.pending@), now);
            let e = PendingTask { task: t, created_at: now };
            assert(pending_views(pending@.push(e)) =~= pending_views(pending@).push((e.task@, now)));
            assert(qv.take(i + 1) =~= qv.take(i as int).push(qv[i as int]));
            pending.push(e);
            i = i + 1;
        }
        assert(queued_at(task_views(self.pending@), now).take(i as int) =~= queued_at(task_views(self.pending@), now));
        let mut running: Vec<Task> = Vec::new();
        put_copies(&mut running, &self.running);
        let mut completed: Vec<Task> = Vec::new();
        put_copies(&mut completed, &self.completed);
        let mut failed: Vec<Task> = Vec::new();
        put_copies(&mut failed, &self.failed);
        proof {
            assert(task_views(Seq::<Task>::empty()) =~= Seq::<TaskView>::empty());
            lemma_put_all_distinct(Seq::empty(), task_views(self.running@));
            lemma_put_all_distinct(Seq::empty(), task_views(self.completed@));
            lemma_put_all_distinct(Seq::empty(), task_views(self.failed@));
        }
        *queue = TaskQueue { pending, running, completed, failed };
    }
}

/// Storing items by id keeps a list a map from ids.
proof fn lemma_put_all_distinct(s: Seq<TaskView>, items: Seq<TaskView>)
    requires
        distinct_ids(s),
    ensures
        distinct_ids(put_all(s, items)),
    decreases items.len(),
{
    if items.len() > 0 {
        lemma_put_all_distinct(s, items.drop_last());
        lemma_put(put_all(s, items.drop_last()), items.last());
    }
}

/// Storing, one by one, the tasks of a list that is a map from ids into an
/// empty list gives back that list.
proof fn lemma_put_all_of_map(items: Seq<TaskView>)
    requires
        distinct_ids(items),
    ensures
        put_all(Seq::empty(), items) == items,
    decreases items.len(),
{
    if items.len() > 0 {
        let init = items.drop_last();
        let x = items.last();
        assert(distinct_ids(init));
        lemma_put_all_of_map(init);
        lemma_pos_of(init, x.id);
        match pos_of(init, x.id) {
            Some(k) => {
                assert(items[k].id != items[items.len() - 1].id);
            },
            None => {},
        }
        assert(init.push(x) =~= items);
    }
}

/// Restoring a snapshot of a queue gives back the queue: the same running,
/// completed and failed tasks, and the same pending tasks in the same order,
/// now queued at the time of the restore.
pub proof fn law_restore_undoes_snapshot(queue: TaskQueue, now: i64)
    requires
        queue.wf(),
    ensures
        put_all(Seq::empty(), queue.running_spec()) == queue.running_spec(),
        put_all(Seq::empty(), queue.completed_spec()) == queue.completed_spec(),
        put_all(Seq::empty(), queue.failed_spec()) == queue.failed_spec(),
        pending_tasks(queued_at(pending_tasks(queue.pending_spec()), now)) == pending_tasks(queue.pending_spec()),
{
    lemma_put_all_of_map(queue.running_spec());
    lemma_put_all_of_map(queue.completed_spec());
    lemma_put_all_of_map(queue.failed_spec());
    assert(pending_tasks(queued_at(pending_tasks(queue.pending_spec()), now)) =~= pending_tasks(queue.pending_spec()));
}

// ───────────────────────────── the task manager ─────────────────────────────

/// What the task manager reads of the workspace in force.
#[derive(Debug)]
pub struct WorkspaceContext {
    pub id: String,
    pub can_execute: bool,
    pub allowed_paths: Vec<String>,
}

pub struct ContextView {
    pub id: Seq<char>,
    pub can_execute: bool,
    pub allowed_paths: Seq<Seq<char>>,
}

impl View for WorkspaceContext {
    type V = ContextView;

    open spec fn view(&self) -> ContextView {
        ContextView { id: self.id@, can_execute: self.can_execute, allowed_paths: str_views(self.allowed_paths@) }
    }
}

impl WorkspaceContext {
    pub fn copy(&self) -> (r: Self)
        ensures
            r@ == self@,
    {
        WorkspaceContext {
            id: self.id.clone(),
            can_execute: self.can_execute,
            allowed_paths: crate::text::copy_strings(&self.allowed_paths),
        }
    }
}

pub open spec fn ctx_view(w: Option<WorkspaceContext>) -> Option<ContextView> {
    match w {
        Some(w) => Some(w@),
        None => None,
    }
}

/// Why the workspace in force refuses a task, checked in this order: there
/// is no workspace; the task names another workspace; the workspace does
/// not allow tasks; the task's path does not start with an allowed path.
pub open spec fn task_refusal(ws: Option<ContextView>, t: TaskView) -> Option<Seq<char>> {
    match ws {
        None => Some("No workspace context set"@),
        Some(w) => if t.workspace_id matches Some(id) && id != w.id {
            Some("Task belongs to different workspace: "@ + t.workspace_id->0)
        } else if !w.can_execute {
            Some("Task execution not permitted in this workspace"@)
        } else if t.workspace_path matches Some(p) && !(exists|k: int| 0 <= k < w.allowed_paths.len() && #[trigger] w.allowed_paths[k].is_prefix_of(p)) {
            Some("Task workspace path "@ + t.workspace_path->0 + " is not within allowed paths"@)
        } else {
            None
        },
    }
}

/// A task as it is queued: without a workspace of its own, it takes the
/// one in force.
pub open spec fn with_context(ws: Option<ContextView>, t: TaskView) -> TaskView {
    if t.workspace_id is None && ws is Some {
        TaskView { workspace_id: Some(ws->0.id), ..t }
    } else {
        t
    }
}

pub open spec fn cancelled(t: TaskView, now: i64) -> TaskView {
    TaskView { status: TaskStatus::Cancelled, completed_at: Some(now), ..t }
}

/// Cancelling every pending task with id `id`: each leaves the pending list
/// for the completed ones, in list order; the others keep their order.
pub open spec fn cancel_pending(p: Seq<(TaskView, i64)>, c: Seq<TaskView>, id: Seq<char>, now: i64) -> (Seq<(TaskView, i64)>, Seq<TaskView>)
    decreases p.len(),
{
    if p.len() == 0 {
        (p, c)
    } else {
        let (rp, rc) = cancel_pending(p.drop_last(), c, id, now);
        if p.last().0.id == id {
            (rp, put(rc, cancelled(p.last().0, now)))
        } else {
            (rp.push(p.last()), rc)
        }
    }
}

/// Queues tasks for the workspace in force and starts them one at a time.
#[derive(Debug)]
pub struct TaskManager {
    queue: TaskQueue,
    workspace: Option<WorkspaceContext>,
    max_concurrent_tasks: usize,
}

fn has_prefix_in(paths: &Vec<String>, p: &str) -> (r: bool)
    ensures
        r == exists|k: int| 0 <= k < str_views(paths@).len() && #[trigger] str_views(paths@)[k].is_prefix_of(p@),
{
    let pv = chars_of(p);
    let mut k: usize = 0;
    while k < paths.len()
        invariant
            k <= paths@.len(),
            pv@ == p@,
            forall|j: int| 0 <= j < k ==> !(#[trigger] str_views(paths@)[j]).is_prefix_of(p@),
        decreases paths@.len() - k,
    {
        assert(str_views(paths@)[k as int] == paths@[k as int]@);
        if starts_with(&pv, &chars_of(paths[k].as_str())) {
            return true;
        }
        k = k + 1;
    }
    false
}

impl TaskManager {
    pub closed spec fn queue_spec(&self) -> TaskQueue {
        self.queue
    }

    pub closed spec fn workspace_spec(&self) -> Option<ContextView> {
        ctx_view(self.workspace)
    }

    pub open spec fn wf(&self) -> bool {
        self.queue_spec().wf()
    }

    /// A manager with an empty queue, no workspace in force, and room for
    /// three tasks at a time.
    pub fn new() -> (r: Self)
        ensures
            r.wf(),
            r.workspace_spec() is None,
            r.queue_spec().pending_spec().len() == 0,
            r.queue_spec().running_spec().len() == 0,
            r.queue_spec().completed_spec().len() == 0,
            r.queue_spec().failed_spec().len() == 0,
            r.limit_spec() == 3,
    {
        TaskManager { queue: TaskQueue::new(), workspace: None, max_concurrent_tasks: 3 }
    }

    pub fn with_workspace(workspace: WorkspaceContext) -> (r: Self)
        ensures
            r.wf(),
            r.workspace_spec() == Some(workspace@),
            r.queue_spec().pending_spec().len() == 0,
            r.queue_spec().running_spec().len() == 0,
            r.queue_spec().completed_spec().len() == 0,
            r.queue_spec().failed_spec().len() == 0,
    {
        TaskManager { queue: TaskQueue::new(), workspace: Some(workspace), max_concurrent_tasks: 3 }
    }

    pub closed spec fn limit_spec(&self) -> usize {
        self.max_concurrent_tasks
    }

    /// How many tasks may run at a time.
    pub fn max_concurrent_tasks(&self) -> (r: usize)
        ensures
            r == self.limit_spec(),
    {
        self.max_concurrent_tasks
    }

    pub fn set_workspace(&mut self, workspace: WorkspaceContext)
        ensures
            final(self).workspace_spec() == Some(workspace@),
            final(self).queue_spec() == old(self).queue_spec(),
    {
        self.workspace = Some(workspace);
    }

    pub fn get_workspace(&self) -> (r: Option<WorkspaceContext>)
        ensures
            ctx_view(r) == self.workspace_spec(),
    {
        match &self.workspace {
            Some(w) => Some(w.copy()),
            None => None,
        }
    }

    /// Whether the workspace in force lets `task` run; the error says why not.
    pub fn validate_task(&self, task: &Task) -> (r: Result<(), String>)
        ensures
            match task_refusal(self.workspace_spec(), task@) {
                None => r is Ok,
                Some(e) => r matches Err(m) && m@ == e,
            },
    {
        let w = match &self.workspace {
            None => return Err(owned("No workspace context set")),
            Some(w) => w,
        };
        match &task.workspace_id {
            Some(id) => {
                if !str_eq(id.as_str(), w.id.as_str()) {
                    return Err(concat2("Task belongs to different workspace: ", id.as_str()));
                }
            },
            None => {},
        }
        if !w.can_execute {
            return Err(owned("Task execution not permitted in this workspace"));
        }
        match &task.workspace_path {
            Some(p) => {
                let ps = p.as_str();
                if !has_prefix_in(&w.allowed_paths, ps) {
                    return Err(concat3("Task workspace path ", ps, " is not within allowed paths"));
                }
                proof {
                    let k = choose|k: int| 0 <= k < str_views(w.allowed_paths@).len() && #[trigger] str_views(w.allowed_paths@)[k].is_prefix_of(ps@);
                    assert(w@.allowed_paths[k].is_prefix_of(p@));
                }
            },
            None => {},
        }
        Ok(())
    }

    /// Queues `task` at `now` where the workspace in force lets it run; a
    /// task without a workspace takes the one in force.
    pub fn add_task_with_validation(&mut self, task: Task, now: i64) -> (r: Result<(), String>)
        requires
            old(self).wf(),
        ensures
            final(self).wf(),
            final(self).workspace_spec() == old(self).workspace_spec(),
            match task_refusal(old(self).workspace_spec(), with_context(old(self).workspace_spec(), task@)) {
                Some(e) => r matches Err(m) && m@ == e && same_queue(final(self).queue_spec(), old(self).queue_spec()),
                None => {
                    &&& r is Ok
                    &&& final(self).queue_spec().pending_spec() == old(self).queue_spec().pending_spec().push(
                        (with_context(old(self).workspace_spec(), task@), now),
                    )
                    &&& final(self).queue_spec().running_spec() == old(self).queue_spec().running_spec()
                    &&& final(self).queue_spec().completed_spec() == old(self).queue_spec().completed_spec()
                    &&& final(self).queue_spec().failed_spec() == old(self).queue_spec().failed_spec()
                },
            },
    {
        let ghost original = task@;
        let mut task = task;
        if task.workspace_id.is_none() {
            match &self.workspace {
                Some(w) => {
                    task.workspace_id = Some(w.id.clone());
                },
                None => {},
            }
        }
        assert(task@ == with_context(old(self).workspace_spec(), original));
        match self.validate_task(&task) {
            Err(e) => Err(e),
            Ok(()) => {
                self.queue.enqueue(task, now);
                Ok(())
            },
        }
    }

    /// `add_task_with_validation` without its verdict.
    pub fn add_task(&mut self, task: Task, now: i64)
        requires
            old(self).wf(),
        ensures
            final(self).wf(),
            final(self).workspace_spec() == old(self).workspace_spec(),
    {
        let _ = self.add_task_with_validation(task, now);
    }

    pub fn add_task_validated(&mut self, task: Task, now: i64) -> (r: Result<(), String>)
        requires
            old(self).wf(),
        ensures
            final(self).wf(),
            final(self).workspace_spec() == old(self).workspace_spec(),
            match task_refusal(old(self).workspace_spec(), with_context(old(self).workspace_spec(), task@)) {
                Some(e) => r matches Err(m) && m@ == e && same_queue(final(self).queue_spec(), old(self).queue_spec()),
                None => r is Ok && final(self).queue_spec().pending_spec() == old(self).queue_spec().pending_spec().push(
                    (with_context(old(self).workspace_spec(), task@), now),
                ),
            },
    {
        self.add_task_with_validation(task, now)
    }

    pub fn get_task(&self, task_id: &str) -> (r: Option<Task>)
        ensures
            match r {
                Some(t) => Some(t@) == lookup_task(self.queue_spec().pending_spec(), self.queue_spec().running_spec(), self.queue_spec().completed_spec(), self.queue_spec().failed_spec(), task_id@),
                None => lookup_task(self.queue_spec().pending_spec(), self.queue_spec().running_spec(), self.queue_spec().completed_spec(), self.queue_spec().failed_spec(), task_id@) is None,
            },
    {
        self.queue.get_task(task_id)
    }

    pub fn list_tasks(&self) -> (r: Vec<Task>)
        ensures
            task_views(r@) == pending_tasks(self.queue_spec().pending_spec()) + self.queue_spec().running_spec()
                + self.queue_spec().completed_spec() + self.queue_spec().failed_spec(),
    {
        self.queue.get_all_tasks()
    }

    /// Starts the next ready task: it moves to the running tasks, then the
    /// workspace in force is asked whether it may run. A refused task stays
    /// among the running ones.
    pub fn begin_next_task(&mut self) -> (r: Result<Task, String>)
        requires
            old(self).wf(),
        ensures
            final(self).wf(),
            final(self).workspace_spec() == old(self).workspace_spec(),
            final(self).queue_spec().completed_spec() == old(self).queue_spec().completed_spec(),
            final(self).queue_spec().failed_spec() == old(self).queue_spec().failed_spec(),
            match next_ready(old(self).queue_spec().pending_spec(), old(self).queue_spec().completed_spec(), old(self).queue_spec().failed_spec()) {
                None => r matches Err(m) && m@ == "No tasks available to execute"@ && same_queue(final(self).queue_spec(), old(self).queue_spec()),
                Some(i) => {
                    let t = old(self).queue_spec().pending_spec()[i].0;
                    &&& final(self).queue_spec().pending_spec() == old(self).queue_spec().pending_spec().remove(i)
                    &&& final(self).queue_spec().running_spec() == put(old(self).queue_spec().running_spec(), t)
                    &&& match task_refusal(old(self).workspace_spec(), t) {
                        None => r matches Ok(x) && x@ == t,
                        Some(e) => r matches Err(m) && m@ == e,
                    }
                },
            },
    {
        let t = match self.queue.dequeue() {
            None => return Err(owned("No tasks available to execute")),
            Some(t) => t,
        };
        match self.validate_task(&t) {
            Err(e) => Err(e),
            Ok(()) => Ok(t),
        }
    }

    /// Records how the running task `task_id` ended: it completes, or it
    /// fails with the provider's error, which is handed back.
    pub fn finish_task(&mut self, task_id: &str, outcome: Result<(), String>, now: i64) -> (r: Result<(), String>)
        requires
            old(self).wf(),
        ensures
            final(self).wf(),
            final(self).workspace_spec() == old(self).workspace_spec(),
            final(self).queue_spec().pending_spec() == old(self).queue_spec().pending_spec(),
            match outcome {
                Ok(()) => r is Ok && match find(old(self).queue_spec().running_spec(), task_id@) {
                    None => same_queue(final(self).queue_spec(), old(self).queue_spec()),
                    Some(t) => final(self).queue_spec().running_spec() == take_out(old(self).queue_spec().running_spec(), task_id@)
                        && final(self).queue_spec().completed_spec() == put(old(self).queue_spec().completed_spec(), t)
                        && final(self).queue_spec().failed_spec() == old(self).queue_spec().failed_spec(),
                },
                Err(e) => r matches Err(m) && m@ == e@ && match find(old(self).queue_spec().running_spec(), task_id@) {
                    None => same_queue(final(self).queue_spec(), old(self).queue_spec()),
                    Some(t) => final(self).queue_spec().running_spec() == take_out(old(self).queue_spec().running_spec(), task_id@)
                        && final(self).queue_spec().failed_spec() == put(old(self).queue_spec().failed_spec(), TaskView {
                            status: TaskStatus::Failed,
                            error: Some(e@),
                            completed_at: Some(now),
                            ..t
                        })
                        && final(self).queue_spec().completed_spec() == old(self).queue_spec().completed_spec(),
                },
            },
    {
        match outcome {
            Ok(()) => {
                self.queue.complete_task(task_id);
                Ok(())
            },
            Err(e) => {
                self.queue.fail_task(task_id, e.clone(), now);
                Err(e)
            },
        }
    }

    /// Pauses the running task `task_id`.
    pub fn pause_task(&mut self, task_id: &str) -> (r: Result<(), String>)
        requires
            old(self).wf(),
        ensures
            final(self).wf(),
            final(self).workspace_spec() == old(self).workspace_spec(),
            final(self).queue_spec().pending_spec() == old(self).queue_spec().pending_spec(),
            final(self).queue_spec().completed_spec() == old(self).queue_spec().completed_spec(),
            final(self).queue_spec().failed_spec() == old(self).queue_spec().failed_spec(),
            match find(old(self).queue_spec().running_spec(), task_id@) {
                None => r matches Err(m) && m@ == "Task not found or not running: "@ + task_id@
                    && final(self).queue_spec().running_spec() == old(self).queue_spec().running_spec(),
                Some(t) => r is Ok && final(self).queue_spec().running_spec() == put(
                    old(self).queue_spec().running_spec(),
                    TaskView { status: TaskStatus::Paused, ..t },
                ),
            },
    {
        match index_of(&self.queue.running, task_id) {
            None => Err(concat2("Task not found or not running: ", task_id)),
            Some(k) => {
                self.set_running_status(k, TaskStatus::Paused);
                Ok(())
            },
        }
    }

    /// Resumes the running task `task_id`, which must be paused.
    pub fn resume_task(&mut self, task_id: &str) -> (r: Result<(), String>)
        requires
            old(self).wf(),
        ensures
            final(self).wf(),
            final(self).workspace_spec() == old(self).workspace_spec(),
            final(self).queue_spec().pending_spec() == old(self).queue_spec().pending_spec(),
            final(self).queue_spec().completed_spec() == old(self).queue_spec().completed_spec(),
            final(self).queue_spec().failed_spec() == old(self).queue_spec().failed_spec(),
            match find(old(self).queue_spec().running_spec(), task_id@) {
                None => r matches Err(m) && m@ == "Task not found or not running: "@ + task_id@
                    && final(self).queue_spec().running_spec() == old(self).queue_spec().running_spec(),
                Some(t) => if t.status == TaskStatus::Paused {
                    r is Ok && final(self).queue_spec().running_spec() == put(
                        old(self).queue_spec().running_spec(),
                        TaskView { status: TaskStatus::Running, ..t },
                    )
                } else {
                    r matches Err(m) && m@ == "Task is not paused"@
                        && final(self).queue_spec().running_spec() == old(self).queue_spec().running_spec()
                },
            },
    {
        match index_of(&self.queue.running, task_id) {
            None => Err(concat2("Task not found or not running: ", task_id)),
            Some(k) => {
                if self.queue.running[k].status == TaskStatus::Paused {
                    self.set_running_status(k, TaskStatus::Running);
                    Ok(())
                } else {
                    Err(owned("Task is not paused"))
                }
            },
        }
    }

    fn set_running_status(&mut self, k: usize, status: TaskStatus)
        requires
            old(self).wf(),
            k < old(self).queue_spec().running_spec().len(),
        ensures
            final(self).wf(),
            final(self).workspace_spec() == old(self).workspace_spec(),
            final(self).queue_spec().pending_spec() == old(self).queue_spec().pending_spec(),
            final(self).queue_spec().completed_spec() == old(self).queue_spec().completed_spec(),
            final(self).queue_spec().failed_spec() == old(self).queue_spec().failed_spec(),
            final(self).queue_spec().running_spec() == put(
                old(self).queue_spec().running_spec(),
                TaskView { status: status, ..old(self).queue_spec().running_spec()[k as int] },
            ),
    {
        let ghost rv = self.queue.running_spec();
        let mut t = self.queue.running[k].copy();
        t.status = status;
        let ghost tv = t@;
        proof {
            lemma_distinct_pos(rv, tv.id, k as int);
            lemma_put(rv, tv);
        }
        self.queue.running.set(k, t);
        assert(self.queue.running_spec() =~= rv.update(k as int, tv));
    }

    /// Cancels the task `task_id`: a running one, else every pending one of
    /// that id, moves to the completed tasks, cancelled at `now`.
    pub fn cancel_task(&mut self, task_id: &str, now: i64) -> (r: Result<(), String>)
        requires
            old(self).wf(),
        ensures
            final(self).wf(),
            final(self).workspace_spec() == old(self).workspace_spec(),
            final(self).queue_spec().failed_spec() == old(self).queue_spec().failed_spec(),
            match find(old(self).queue_spec().running_spec(), task_id@) {
                Some(t) => {
                    &&& r is Ok
                    &&& final(self).queue_spec().running_spec() == take_out(old(self).queue_spec().running_spec(), task_id@)
                    &&& final(self).queue_spec().completed_spec() == put(old(self).queue_spec().completed_spec(), cancelled(t, now))
                    &&& final(self).queue_spec().pending_spec() == old(self).queue_spec().pending_spec()
                },
                None => {
                    let (p, c) = cancel_pending(old(self).queue_spec().pending_spec(), old(self).queue_spec().completed_spec(), task_id@, now);
                    &&& final(self).queue_spec().running_spec() == old(self).queue_spec().running_spec()
                    &&& final(self).queue_spec().pending_spec() == p
                    &&& final(self).queue_spec().completed_spec() == c
                    &&& if find(pending_tasks(old(self).queue_spec().pending_spec()), task_id@) is Some {
                        r is Ok
                    } else {
                        r matches Err(m) && m@ == "Task not found: "@ + task_id@
                    }
                },
            },
    {
        proof {
            lemma_take_out(self.queue.running_spec(), task_id@);
        }
        match remove_task(&mut self.queue.running, task_id) {
            Some(mut t) => {
                proof {
                    lemma_pos_of(old(self).queue_spec().running_spec(), task_id@);
                }
                t.status = TaskStatus::Cancelled;
                t.completed_at = Some(now);
                proof {
                    lemma_put(self.queue.completed_spec(), t@);
                }
                put_task(&mut self.queue.completed, t);
                return Ok(());
            },
            None => {},
        }
        let ghost p0 = self.queue.pending_spec();
        let ghost c0 = self.queue.completed_spec();
        let mut old_pending: Vec<PendingTask> = Vec::new();
        std::mem::swap(&mut old_pending, &mut self.queue.pending);
        assert(pending_views(old_pending@) == p0);
        let mut kept: Vec<PendingTask> = Vec::new();
        let mut found = false;
        let mut i: usize = 0;
        assert(p0.take(0) =~= Seq::<(TaskView, i64)>::empty());
        while i < old_pending.len()
            invariant
                i <= old_pending@.len(),
                pending_views(old_pending@) == p0,
                distinct_ids(self.queue.completed_spec()),
                self.queue.running_spec() == old(self).queue_spec().running_spec(),
                self.queue.failed_spec() == old(self).queue_spec().failed_spec(),
                ctx_view(self.workspace) == old(self).workspace_spec(),
                distinct_ids(self.queue.running_spec()),
                distinct_ids(self.queue.failed_spec()),
                (pending_views(kept@), self.queue.completed_spec()) == cancel_pending(p0.take(i as int), c0, task_id@, now),
                found == (find(pending_tasks(p0.take(i as int)), task_id@) is Some),
            decreases old_pending@.len() - i,
        {
            let ghost pre = p0.take(i + 1);
            assert(pre.drop_last() =~= p0.take(i as int));
            assert(pre.last() == p0[i as int]);
            assert(p0[i as int] == (old_pending@[i as int].task@, old_pending@[i as int].created_at));
            proof {
                assert(pending_tasks(pre) =~= pending_tasks(p0.take(i as int)).push(old_pending@[i as int].task@));
                lemma_find_push(pending_tasks(p0.take(i as int)), old_pending@[i as int].task@, task_id@);
            }
            if str_eq(old_pending[i].task.id.as_str(), task_id) {
                let mut t = old_pending[i].task.copy();
                t.status = TaskStatus::Cancelled;
                t.completed_at = Some(now);
                proof {
                    lemma_put(self.queue.completed_spec(), t@);
                }
                put_task(&mut self.queue.completed, t);
                found = true;
            } else {
                let c = PendingTask { task: old_pending[i].task.copy(), created_at: old_pending[i].created_at };
                assert(pending_views(kept@.push(c)) =~= pending_views(kept@).push(p0[i as int]));
                kept.push(c);
            }
            i = i + 1;
        }
        assert(p0.take(i as int) =~= p0);
        self.queue.pending = kept;
        if found {
            Ok(())
        } else {
            Err(concat2("Task not found: ", task_id))
        }
    }

    pub fn running_task_count(&self) -> (r: usize)
        ensures
            r == self.queue_spec().running_spec().len(),
    {
        self.queue.running_count()
    }

    pub fn pending_task_count(&self) -> (r: usize)
        ensures
            r == self.queue_spec().pending_spec().len(),
    {
        self.queue.pending_count()
    }
}

// ───────────────────────────── laws ─────────────────────────────

/// A task is started only once every task it depends on has completed or
/// failed; and where some pending task is ready, one is started.
pub proof fn law_started_task_is_ready(p: Seq<(TaskView, i64)>, completed: Seq<TaskView>, failed: Seq<TaskView>)
    ensures
        match next_ready(p, completed, failed) {
            Some(i) => 0 <= i < p.len() && forall|k: int| 0 <= k < p[i].0.dependencies.len()
                ==> #[trigger] settled(completed, failed, p[i].0.dependencies[k]),
            None => forall|j: int| 0 <= j < p.len() ==> !#[trigger] ready(completed, failed, p[j].0),
        },
{
    match next_ready(p, completed, failed) {
        Some(i) => {
            assert(is_next(p, completed, failed, i));
        },
        None => {
            assert forall|j: int| 0 <= j < p.len() implies !#[trigger] ready(completed, failed, p[j].0) by {
                if ready(completed, failed, p[j].0) {
                    lemma_latest_ready_exists(p, completed, failed, j);
                }
            }
        },
    }
}

/// Where a pending task is ready, some ready task is the one to start.
proof fn lemma_latest_ready_exists(p: Seq<(TaskView, i64)>, completed: Seq<TaskView>, failed: Seq<TaskView>, j: int)
    requires
        0 <= j < p.len(),
        ready(completed, failed, p[j].0),
    ensures
        exists|i: int| is_next(p, completed, failed, i),
    decreases p.len(),
{
    let n = p.len() as int;
    let q = p.drop_last();
    if j == n - 1 && !(exists|m: int| 0 <= m < q.len() && #[trigger] ready(completed, failed, q[m].0)) {
        assert forall|m: int| 0 <= m < p.len() && #[trigger] ready(completed, failed, p[m].0) implies p[m].1 < p[j].1 || (p[m].1 == p[j].1 && j <= m) by {
            if m < n - 1 {
                assert(q[m] == p[m]);
            }
        }
        assert(is_next(p, completed, failed, j));
    } else {
        let m0 = if j < n - 1 { j } else { choose|m: int| 0 <= m < q.len() && #[trigger] ready(completed, failed, q[m].0) };
        assert(q[m0] == p[m0]);
        lemma_latest_ready_exists(q, completed, failed, m0);
        let b = choose|i: int| is_next(q, completed, failed, i);
        assert(q[b] == p[b]);
        if ready(completed, failed, p[n - 1].0) && p[n - 1].1 > p[b].1 {
            assert forall|m: int| 0 <= m < p.len() && #[trigger] ready(completed, failed, p[m].0) implies p[m].1 < p[n - 1].1 || (p[m].1 == p[n - 1].1 && n - 1 <= m) by {
                if m < n - 1 {
                    assert(q[m] == p[m]);
                    assert(ready(completed, failed, q[m].0));
                }
            }
            assert(is_next(p, completed, failed, n - 1));
        } else {
            assert forall|m: int| 0 <= m < p.len() && #[trigger] ready(completed, failed, p[m].0) implies p[m].1 < p[b].1 || (p[m].1 == p[b].1 && b <= m) by {
                if m < n - 1 {
                    assert(q[m] == p[m]);
                    assert(ready(completed, failed, q[m].0));
                }
            }
            assert(is_next(p, completed, failed, b));
        }
    }
}

/// After a cancel, no pending task has the cancelled id, and the others
/// are still pending.
pub proof fn law_cancel_clears_pending(p: Seq<(TaskView, i64)>, c: Seq<TaskView>, id: Seq<char>, now: i64)
    ensures
        find(pending_tasks(cancel_pending(p, c, id, now).0), id) is None,
        forall|e: (TaskView, i64)| p.contains(e) && e.0.id != id ==> #[trigger] cancel_pending(p, c, id, now).0.contains(e),
    decreases p.len(),
{
    if p.len() > 0 {
        let q = p.drop_last();
        law_cancel_clears_pending(q, c, id, now);
        let rp = cancel_pending(q, c, id, now).0;
        lemma_pos_of(pending_tasks(rp), id);
        if p.last().0.id != id {
            assert(pending_tasks(rp.push(p.last())) =~= pending_tasks(rp).push(p.last().0));
            lemma_find_push(pending_tasks(rp), p.last().0, id);
        }
        assert forall|e: (TaskView, i64)| p.contains(e) && e.0.id != id implies #[trigger] cancel_pending(p, c, id, now).0.contains(e) by {
            let k = choose|k: int| 0 <= k < p.len() && p[k] == e;
            if k < p.len() - 1 {
                assert(q[k] == e);
                assert(q.contains(e));
                assert(cancel_pending(q, c, id, now).0.contains(e));
                assert(rp.contains(e));
                let r = choose|r: int| 0 <= r < rp.len() && rp[r] == e;
                if p.last().0.id != id {
                    assert(rp.push(p.last())[r] == e);
                    assert(cancel_pending(p, c, id, now).0 == rp.push(p.last()));
                } else {
                    assert(cancel_pending(p, c, id, now).0 == rp);
                }
            } else {
                assert(rp.push(p.last())[rp.len() as int] == e);
            }
        }
    }
}

} // verus!
