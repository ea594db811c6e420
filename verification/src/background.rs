//! Background task bookkeeping for agent tools.
//!
//! Tasks are spawned and run by the asynchronous runtime; this module keeps
//! the table the runtime consults: which tasks exist, who owns them, their
//! status and outcome, and the view cached in the state store.

use vstd::prelude::*;
use vstd::string::{StrSliceExecFns, StringExecFns};

use crate::json::{clone_json, JsonValue, JsonView};
use crate::plugin::PluginDescriptor;
use crate::strmap::StrMap;
use crate::text::{
    all_digits, decimal, digits_value, lemma_decimal_digits, parse_u64, parse_u64_spec, push_decimal,
    str_eq, str_starts_with, unsigned_part,
};

verus! {

pub const BACKGROUND_TASKS_PLUGIN_ID: &'static str = "background_tasks";

/// Status of a background task.
#[derive(Debug, Clone, Copy, PartialEq, Eq)]
pub enum TaskStatus {
    Running,
    Completed,
    Failed,
    Cancelled,
}

impl Default for TaskStatus {
    fn default() -> (s: Self)
        ensures
            s == TaskStatus::Running,
    {
        TaskStatus::Running
    }
}

impl TaskStatus {
    pub open spec fn as_str_spec(self) -> Seq<char> {
        match self {
            TaskStatus::Running => "running"@,
            TaskStatus::Completed => "completed"@,
            TaskStatus::Failed => "failed"@,
            TaskStatus::Cancelled => "cancelled"@,
        }
    }

    /// The lower-case name of the status.
    pub fn as_str(self) -> (r: &'static str)
        ensures
            r@ == self.as_str_spec(),
    {
        match self {
            TaskStatus::Running => "running",
            TaskStatus::Completed => "completed",
            TaskStatus::Failed => "failed",
            TaskStatus::Cancelled => "cancelled",
        }
    }

    /// Every status but `Running` is terminal.
    pub fn is_terminal(self) -> (r: bool)
        ensures
            r == !(self is Running),
    {
        !matches!(self, TaskStatus::Running)
    }
}

/// Result produced by a background task on completion.
#[derive(Debug)]
pub enum TaskResult {
    Success(JsonValue),
    Failed(String),
    Cancelled,
}

impl TaskResult {
    pub open spec fn status_spec(&self) -> TaskStatus {
        match self {
            TaskResult::Success(_) => TaskStatus::Completed,
            TaskResult::Failed(_) => TaskStatus::Failed,
            TaskResult::Cancelled => TaskStatus::Cancelled,
        }
    }

    /// The terminal status a result gives its task.
    pub fn status(&self) -> (r: TaskStatus)
        ensures
            r == self.status_spec(),
    {
        match self {
            TaskResult::Success(_) => TaskStatus::Completed,
            TaskResult::Failed(_) => TaskStatus::Failed,
            TaskResult::Cancelled => TaskStatus::Cancelled,
        }
    }
}

/// Summary of a background task visible to tools and plugins.
#[derive(Debug)]
pub struct TaskSummary {
    pub task_id: String,
    pub task_type: String,
    pub description: String,
    pub status: TaskStatus,
    pub error: Option<String>,
    pub result: Option<JsonValue>,
    pub created_at_ms: u64,
    pub completed_at_ms: Option<u64>,
}

/// Lightweight view of a single background task.
#[derive(Debug, Clone, PartialEq, Eq)]
pub struct TaskViewEntry {
    pub task_type: String,
    pub description: String,
    pub status: TaskStatus,
}

/// Cached task view stored in the state store for prompt injection.
pub struct BackgroundTaskView {
    pub tasks: StrMap<TaskViewEntry>,
}

impl Default for BackgroundTaskView {
    fn default() -> (v: Self)
        ensures
            v.tasks@ == Map::<Seq<char>, TaskViewEntry>::empty(),
    {
        BackgroundTaskView { tasks: StrMap::new() }
    }
}

/// Action for the background task view state.
pub enum BackgroundTaskViewAction {
    Replace { tasks: StrMap<TaskViewEntry> },
    Clear,
}

impl BackgroundTaskView {
    /// `Replace` installs the given tasks; `Clear` empties the view.
    pub fn reduce(&mut self, action: BackgroundTaskViewAction)
        ensures
            match action {
                BackgroundTaskViewAction::Replace { tasks } => final(self).tasks@ == tasks@,
                BackgroundTaskViewAction::Clear => final(self).tasks@ == Map::<
                    Seq<char>,
                    TaskViewEntry,
                >::empty(),
            },
    {
        match action {
            BackgroundTaskViewAction::Replace { tasks } => {
                self.tasks = tasks;
            },
            BackgroundTaskViewAction::Clear => {
                self.tasks.clear();
            },
        }
    }
}

/// State key for the cached background task view.
pub struct BackgroundTaskViewKey;

impl BackgroundTaskViewKey {
    pub const KEY: &'static str = "background_tasks";

    pub fn apply(value: &mut BackgroundTaskView, update: BackgroundTaskViewAction)
        ensures
            match update {
                BackgroundTaskViewAction::Replace { tasks } => final(value).tasks@ == tasks@,
                BackgroundTaskViewAction::Clear => final(value).tasks@ == Map::<
                    Seq<char>,
                    TaskViewEntry,
                >::empty(),
            },
    {
        value.reduce(update);
    }
}

/// Plugin that registers the background task view state key.
pub struct BackgroundTaskPlugin;

impl BackgroundTaskPlugin {
    pub fn descriptor(&self) -> (d: PluginDescriptor)
        ensures
            d.name == BACKGROUND_TASKS_PLUGIN_ID,
    {
        PluginDescriptor { name: BACKGROUND_TASKS_PLUGIN_ID }
    }
}

/// What the table records of one task.
#[derive(Debug)]
pub struct TaskRecord {
    pub owner_thread_id: String,
    pub task_type: String,
    pub description: String,
    pub status: TaskStatus,
    pub error: Option<String>,
    pub result: Option<JsonValue>,
    pub created_at_ms: u64,
    pub completed_at_ms: Option<u64>,
}

/// The view of an optional JSON value.
pub open spec fn opt_json_view(o: Option<JsonValue>) -> Option<JsonView> {
    match o {
        Some(v) => Some(v.view()),
        None => None,
    }
}

/// The view of an optional string.
pub open spec fn opt_str_view(o: Option<String>) -> Option<Seq<char>> {
    match o {
        Some(s) => Some(s@),
        None => None,
    }
}

/// `s` summarizes the task `id` recorded as `r`.
pub open spec fn summarizes(s: TaskSummary, id: Seq<char>, r: TaskRecord) -> bool {
    &&& s.task_id@ == id
    &&& s.task_type@ == r.task_type@
    &&& s.description@ == r.description@
    &&& s.status == r.status
    &&& opt_str_view(s.error) == opt_str_view(r.error)
    &&& opt_json_view(s.result) == opt_json_view(r.result)
    &&& s.created_at_ms == r.created_at_ms
    &&& s.completed_at_ms == r.completed_at_ms
}

/// The record of a task that finished with `result` at `at_ms`: its status
/// is the result's; a success stores its value, a failure its error.
pub open spec fn completed_record(r: TaskRecord, result: TaskResult, at_ms: u64) -> TaskRecord {
    TaskRecord {
        status: result.status_spec(),
        completed_at_ms: Some(at_ms),
        result: match result {
            TaskResult::Success(v) => Some(v),
            _ => r.result,
        },
        error: match result {
            TaskResult::Failed(e) => Some(e),
            _ => r.error,
        },
        ..r
    }
}

fn clone_opt_str(o: &Option<String>) -> (r: Option<String>)
    ensures
        opt_str_view(r) == opt_str_view(*o),
{
    match o {
        Some(s) => Some(s.clone()),
        None => None,
    }
}

fn clone_opt_json(o: &Option<JsonValue>) -> (r: Option<JsonValue>)
    ensures
        opt_json_view(r) == opt_json_view(*o),
{
    match o {
        Some(v) => Some(clone_json(v)),
        None => None,
    }
}

fn summary_of(id: &String, r: &TaskRecord) -> (s: TaskSummary)
    ensures
        summarizes(s, id@, *r),
{
    TaskSummary {
        task_id: id.clone(),
        task_type: r.task_type.clone(),
        description: r.description.clone(),
        status: r.status,
        error: clone_opt_str(&r.error),
        result: clone_opt_json(&r.result),
        created_at_ms: r.created_at_ms,
        completed_at_ms: r.completed_at_ms,
    }
}

/// The task identifier for counter value `n`: `bg_<n>`.
pub open spec fn task_id_spec(n: u64) -> Seq<char> {
    "bg_"@ + decimal(n as nat)
}

/// The counter after one fresh ID is handed out (wrapping at `u64::MAX`).
pub open spec fn next_counter(c: u64) -> u64 {
    if c == u64::MAX {
        0
    } else {
        (c + 1) as u64
    }
}

/// The counter of a new table after `n` fresh IDs were handed out.
pub open spec fn counter_after(n: nat) -> u64
    decreases n,
{
    if n == 0 {
        0
    } else {
        next_counter(counter_after((n - 1) as nat))
    }
}

/// IDs count up from `bg_0`: on a new table, with no restore in between,
/// the `n`-th registration (counting from 0) gets the ID `bg_<n>`, for every
/// `n` a 64-bit counter reaches.
pub proof fn lemma_nth_task_id(n: nat)
    requires
        n <= u64::MAX,
    ensures
        counter_after(n) == n,
        task_id_spec(counter_after(n)) == "bg_"@ + decimal(n),
    decreases n,
{
    if n > 0 {
        lemma_nth_task_id((n - 1) as nat);
    }
}

/// The tasks `after` a registration of a task of `owner`, with type
/// `task_type` and description `description`, running since `now_ms`, under
/// the ID `id` taken from the counter `c0` (which becomes `c1`): the task is
/// added, running, and no other task changes.
pub open spec fn registered(
    before: Map<Seq<char>, TaskRecord>,
    c0: u64,
    after: Map<Seq<char>, TaskRecord>,
    c1: u64,
    id: Seq<char>,
    owner: Seq<char>,
    task_type: Seq<char>,
    description: Seq<char>,
    now_ms: u64,
) -> bool {
    &&& id == task_id_spec(c0)
    &&& c1 == next_counter(c0)
    &&& after.dom() == before.dom().insert(id)
    &&& forall|k: Seq<char>|
        k != id && before.contains_key(k) ==> after[k] == before[k]
    &&& after[id].owner_thread_id@ == owner
    &&& after[id].task_type@ == task_type
    &&& after[id].description@ == description
    &&& after[id].status == TaskStatus::Running
    &&& after[id].error is None
    &&& after[id].result is None
    &&& after[id].created_at_ms == now_ms
    &&& after[id].completed_at_ms is None
}

/// The tasks `after` task `id` finished with `result` at `at_ms`: its
/// record becomes [`completed_record`] (an unknown ID changes nothing), and
/// no other task changes.
pub open spec fn completed(
    before: Map<Seq<char>, TaskRecord>,
    after: Map<Seq<char>, TaskRecord>,
    id: Seq<char>,
    result: TaskResult,
    at_ms: u64,
) -> bool {
    &&& after.dom() == before.dom()
    &&& forall|k: Seq<char>|
        k != id && before.contains_key(k) ==> after[k] == before[k]
    &&& before.contains_key(id) ==> {
        let expect = completed_record(before[id], result, at_ms);
        let got = after[id];
        &&& got.owner_thread_id == expect.owner_thread_id
        &&& got.task_type == expect.task_type
        &&& got.description == expect.description
        &&& got.status == expect.status
        &&& opt_str_view(got.error) == opt_str_view(expect.error)
        &&& opt_json_view(got.result) == opt_json_view(expect.result)
        &&& got.created_at_ms == expect.created_at_ms
        &&& got.completed_at_ms == expect.completed_at_ms
    }
}

/// A task's life: on a table whose counter stands where `n` registrations
/// on a new table leave it, the next registration gets the ID `bg_<n>` and
/// records the task as running, with its owner, type and description; when
/// that task then finishes with `result` at `at_ms`, it keeps its owner, type
/// and description, takes the result's status and records the completion
/// time.
pub proof fn lemma_task_life(
    n: nat,
    t0: Map<Seq<char>, TaskRecord>,
    t1: Map<Seq<char>, TaskRecord>,
    t2: Map<Seq<char>, TaskRecord>,
    c1: u64,
    id: Seq<char>,
    owner: Seq<char>,
    task_type: Seq<char>,
    description: Seq<char>,
    now_ms: u64,
    result: TaskResult,
    at_ms: u64,
)
    requires
        n <= u64::MAX,
        registered(t0, counter_after(n), t1, c1, id, owner, task_type, description, now_ms),
        completed(t1, t2, id, result, at_ms),
    ensures
        id == "bg_"@ + decimal(n),
        t1.contains_key(id) && t1[id].status == TaskStatus::Running && t1[id].completed_at_ms is None,
        t2.contains_key(id),
        t2[id].owner_thread_id@ == owner,
        t2[id].task_type@ == task_type,
        t2[id].description@ == description,
        t2[id].status == result.status_spec(),
        t2[id].completed_at_ms == Some(at_ms),
{
    lemma_nth_task_id(n);
    assert(t1.dom().contains(id));
}

/// The table of background tasks, keyed by task ID.
pub struct TaskTable {
    tasks: StrMap<TaskRecord>,
    counter: u64,
}

impl TaskTable {
    pub closed spec fn spec_tasks(&self) -> Map<Seq<char>, TaskRecord> {
        self.tasks@
    }

    pub closed spec fn spec_counter(&self) -> u64 {
        self.counter
    }

    /// Every task ID `bg_<n>` in the table lies below the counter, so the
    /// next fresh ID is not taken.
    pub open spec fn ids_below_counter(&self) -> bool {
        forall|k: Seq<char>|
            #[trigger] self.spec_tasks().contains_key(k) && counter_floor(k) is Some
                ==> counter_floor(k)->0 <= self.spec_counter()
    }

    /// An empty table whose first task ID is `bg_0`.
    pub fn new() -> (t: Self)
        ensures
            t.spec_tasks() == Map::<Seq<char>, TaskRecord>::empty(),
            t.spec_counter() == 0,
            t.ids_below_counter(),
    {
        TaskTable { tasks: StrMap::new(), counter: 0 }
    }

    /// A fresh task ID `bg_<n>` from the counter, which then advances
    /// (wrapping around at `u64::MAX`). While every `bg_<n>` ID in the table
    /// lies below the counter and the counter has not run out, the ID is
    /// not taken and that stays so.
    pub fn next_task_id(&mut self) -> (id: String)
        ensures
            id@ == task_id_spec(old(self).spec_counter()),
            final(self).spec_counter() == next_counter(old(self).spec_counter()),
            final(self).spec_tasks() == old(self).spec_tasks(),
            old(self).ids_below_counter() && old(self).spec_counter() < u64::MAX ==> {
                &&& !old(self).spec_tasks().contains_key(id@)
                &&& final(self).ids_below_counter()
            },
    {
        proof {
            lemma_task_id_floor(self.counter);
        }
        let n = self.counter;
        self.counter = n.wrapping_add(1);
        let mut s = String::from_str("bg_");
        push_decimal(&mut s, n);
        s
    }

    /// Record a newly spawned task of `owner_thread_id`, running since
    /// `now_ms`, under a fresh ID, which is returned. While every `bg_<n>` ID
    /// in the table lies below the counter and the counter has not run out,
    /// no existing task is replaced, and that stays so.
    pub fn register(
        &mut self,
        owner_thread_id: &str,
        task_type: &str,
        description: &str,
        now_ms: u64,
    ) -> (id: String)
        ensures
            registered(
                old(self).spec_tasks(),
                old(self).spec_counter(),
                final(self).spec_tasks(),
                final(self).spec_counter(),
                id@,
                owner_thread_id@,
                task_type@,
                description@,
                now_ms,
            ),
            old(self).ids_below_counter() && old(self).spec_counter() < u64::MAX ==> {
                &&& !old(self).spec_tasks().contains_key(id@)
                &&& final(self).ids_below_counter()
            },
    {
        proof {
            lemma_task_id_floor(self.counter);
        }
        let id = self.next_task_id();
        let rec = TaskRecord {
            owner_thread_id: String::from_str(owner_thread_id),
            task_type: String::from_str(task_type),
            description: String::from_str(description),
            status: TaskStatus::Running,
            error: None,
            result: None,
            created_at_ms: now_ms,
            completed_at_ms: None,
        };
        self.tasks.insert(id.clone(), rec);
        assert(self.spec_tasks().dom() =~= old(self).spec_tasks().dom().insert(id@));
        proof {
            if old(self).ids_below_counter() && old(self).spec_counter() < u64::MAX {
                assert forall|k: Seq<char>|
                    #[trigger] self.spec_tasks().contains_key(k) && counter_floor(k) is Some implies counter_floor(k)->0
                        <= self.spec_counter() by {
                    if k != id@ {
                        assert(old(self).spec_tasks().contains_key(k));
                    }
                }
            }
        }
        id
    }

    /// Record that task `task_id` finished with `result` at `completed_at_ms`.
    /// An unknown ID leaves the table unchanged.
    pub fn complete(&mut self, task_id: &str, result: TaskResult, completed_at_ms: u64)
        ensures
            final(self).spec_counter() == old(self).spec_counter(),
            old(self).ids_below_counter() ==> final(self).ids_below_counter(),
            completed(
                old(self).spec_tasks(),
                final(self).spec_tasks(),
                task_id@,
                result,
                completed_at_ms,
            ),
    {
        let updated = match self.tasks.get(task_id) {
            Some(r) => {
                let status = result.status();
                let new_result = match &result {
                    TaskResult::Success(v) => Some(clone_json(v)),
                    _ => clone_opt_json(&r.result),
                };
                let new_error = match &result {
                    TaskResult::Failed(e) => Some(e.clone()),
                    _ => clone_opt_str(&r.error),
                };
                Some(
                    TaskRecord {
                        owner_thread_id: r.owner_thread_id.clone(),
                        task_type: r.task_type.clone(),
                        description: r.description.clone(),
                        status,
                        error: new_error,
                        result: new_result,
                        created_at_ms: r.created_at_ms,
                        completed_at_ms: Some(completed_at_ms),
                    },
                )
            },
            None => None,
        };
        if let Some(rec) = updated {
            self.tasks.insert(String::from_str(task_id), rec);
            assert(self.spec_tasks().dom() =~= old(self).spec_tasks().dom());
        }
    }

    /// Whether task `task_id` can be cancelled: it exists and is still running.
    pub fn request_cancel(&self, task_id: &str) -> (r: bool)
        ensures
            r == (self.spec_tasks().contains_key(task_id@) && self.spec_tasks()[task_id@].status
                == TaskStatus::Running),
    {
        match self.tasks.get(task_id) {
            Some(t) => !t.status.is_terminal(),
            None => false,
        }
    }

    /// The summary of a specific task.
    pub fn get(&self, task_id: &str) -> (r: Option<TaskSummary>)
        ensures
            match r {
                Some(s) => self.spec_tasks().contains_key(task_id@) && summarizes(
                    s,
                    task_id@,
                    self.spec_tasks()[task_id@],
                ),
                None => !self.spec_tasks().contains_key(task_id@),
            },
    {
        match self.tasks.get(task_id) {
            Some(t) => {
                let id = String::from_str(task_id);
                Some(summary_of(&id, t))
            },
            None => None,
        }
    }

    /// Summaries of all tasks owned by `owner_thread_id`, one per task.
    #[verifier::spinoff_prover]
    pub fn list(&self, owner_thread_id: &str) -> (r: Vec<TaskSummary>)
        ensures
            forall|i: int|
                0 <= i < r@.len() ==> self.spec_tasks().contains_key(#[trigger] r@[i].task_id@)
                    && self.spec_tasks()[r@[i].task_id@].owner_thread_id@ == owner_thread_id@
                    && summarizes(r@[i], r@[i].task_id@, self.spec_tasks()[r@[i].task_id@]),
            forall|k: Seq<char>|
                self.spec_tasks().contains_key(k) && self.spec_tasks()[k].owner_thread_id@
                    == owner_thread_id@ ==> exists|i: int|
                    0 <= i < r@.len() && #[trigger] r@[i].task_id@ == k,
            forall|i: int, j: int|
                0 <= i < r@.len() && 0 <= j < r@.len() && i != j ==> r@[i].task_id@
                    != r@[j].task_id@,
    {
        let entries = self.tasks.entries();
        let mut out: Vec<TaskSummary> = Vec::new();
        let ghost src: Seq<int> = Seq::empty();
        let n = entries.len();
        let mut i: usize = 0;
        while i < n
            invariant
                n == entries@.len(),
                i <= n,
                src.len() == out@.len(),
                forall|a: int| 0 <= a < src.len() ==> 0 <= #[trigger] src[a] < i,
                forall|a: int, b: int| 0 <= a < b < src.len() ==> src[a] < src[b],
                forall|a: int|
                    0 <= a < out@.len() ==> #[trigger] out@[a].task_id@ == entries@[src[a]].0@
                        && entries@[src[a]].1.owner_thread_id@ == owner_thread_id@ && summarizes(
                        out@[a],
                        entries@[src[a]].0@,
                        entries@[src[a]].1,
                    ),
                forall|j: int|
                    0 <= j < i && entries@[j].1.owner_thread_id@ == owner_thread_id@ ==> exists|a: int|
                        0 <= a < src.len() && #[trigger] src[a] == j,
                forall|x: int|
                    0 <= x < entries@.len() ==> self.spec_tasks().contains_key(
                        #[trigger] entries@[x].0@,
                    ) && self.spec_tasks()[entries@[x].0@] == entries@[x].1,
                forall|x: int, y: int|
                    0 <= x < entries@.len() && 0 <= y < entries@.len() && x != y ==> entries@[x].0@
                        != entries@[y].0@,
            decreases n - i,
        {
            let e = &entries[i];
            let ghost old_src = src;
            if str_eq(e.1.owner_thread_id.as_str(), owner_thread_id) {
                let s = summary_of(&e.0, &e.1);
                assert(*e == entries@[i as int]);
                assert(summarizes(s, entries@[i as int].0@, entries@[i as int].1));
                let ghost old_out = out@;
                out.push(s);
                proof {
                    src = src.push(i as int);
                    assert forall|a: int| 0 <= a < out@.len() implies #[trigger] out@[a].task_id@
                        == entries@[src[a]].0@ && entries@[src[a]].1.owner_thread_id@
                        == owner_thread_id@ && summarizes(
                        out@[a],
                        entries@[src[a]].0@,
                        entries@[src[a]].1,
                    ) by {
                        if a < old_out.len() {
                            assert(out@[a] == old_out[a]);
                            assert(src[a] == old_src[a]);
                        } else {
                            assert(src[a] == i);
                            assert(out@[a] == s);
                        }
                    }
                }
            }
            proof {
                assert forall|j: int|
                    0 <= j < i + 1 && entries@[j].1.owner_thread_id@ == owner_thread_id@ implies exists|a: int|
                    0 <= a < src.len() && #[trigger] src[a] == j by {
                    if j == i {
                        assert(src[src.len() - 1] == j);
                    } else {
                        let a = choose|a: int| 0 <= a < old_src.len() && #[trigger] old_src[a] == j;
                        assert(src[a] == j);
                    }
                }
            }
            i = i + 1;
        }
        proof {
            assert forall|k: Seq<char>|
                self.spec_tasks().contains_key(k) && self.spec_tasks()[k].owner_thread_id@
                    == owner_thread_id@ implies exists|i: int|
                0 <= i < out@.len() && #[trigger] out@[i].task_id@ == k by {
                let j = choose|j: int| 0 <= j < entries@.len() && #[trigger] entries@[j].0@ == k;
                let a = choose|a: int| 0 <= a < src.len() && #[trigger] src[a] == j;
                assert(out@[a].task_id@ == k);
            }
        }
        out
    }
}

/// A task is reported cancellable exactly while it runs: once it has
/// completed (with any result) no cancellation is requested.
pub proof fn lemma_completed_not_cancellable(r: TaskRecord, result: TaskResult, at_ms: u64)
    ensures
        completed_record(r, result, at_ms).status != TaskStatus::Running,
        completed_record(r, result, at_ms).status == result.status_spec(),
        completed_record(r, result, at_ms).completed_at_ms == Some(at_ms),
{
}

// ---------------------------------------------------------------------------
// Persisted task metadata
// ---------------------------------------------------------------------------

/// What is persisted of a task across runs of a thread.
#[derive(Debug)]
pub struct PersistedTaskMeta {
    pub task_id: String,
    pub task_type: String,
    pub description: String,
    pub status: TaskStatus,
    pub error: Option<String>,
    pub created_at_ms: u64,
    pub completed_at_ms: Option<u64>,
}

impl PersistedTaskMeta {
    /// The metadata persisted of a task summary: everything but the result.
    pub fn from_summary(summary: &TaskSummary) -> (m: Self)
        ensures
            m.task_id@ == summary.task_id@,
            m.task_type@ == summary.task_type@,
            m.description@ == summary.description@,
            m.status == summary.status,
            opt_str_view(m.error) == opt_str_view(summary.error),
            m.created_at_ms == summary.created_at_ms,
            m.completed_at_ms == summary.completed_at_ms,
    {
        PersistedTaskMeta {
            task_id: summary.task_id.clone(),
            task_type: summary.task_type.clone(),
            description: summary.description.clone(),
            status: summary.status,
            error: clone_opt_str(&summary.error),
            created_at_ms: summary.created_at_ms,
            completed_at_ms: summary.completed_at_ms,
        }
    }
}

/// The persisted metadata of a thread's tasks, by task ID.
pub struct BackgroundTaskStateSnapshot {
    pub tasks: StrMap<PersistedTaskMeta>,
}

impl Default for BackgroundTaskStateSnapshot {
    fn default() -> (s: Self)
        ensures
            s.tasks@ == Map::<Seq<char>, PersistedTaskMeta>::empty(),
    {
        BackgroundTaskStateSnapshot { tasks: StrMap::new() }
    }
}

/// Reducer actions for [`BackgroundTaskStateSnapshot`].
pub enum BackgroundTaskStateAction {
    /// Insert or replace one task's metadata, under its task ID.
    Upsert(PersistedTaskMeta),
    /// Replace all persisted metadata.
    ReplaceAll { tasks: StrMap<PersistedTaskMeta> },
}

impl BackgroundTaskStateSnapshot {
    pub fn reduce(&mut self, action: BackgroundTaskStateAction)
        ensures
            match action {
                BackgroundTaskStateAction::Upsert(meta) => final(self).tasks@ == old(
                    self,
                ).tasks@.insert(meta.task_id@, meta),
                BackgroundTaskStateAction::ReplaceAll { tasks } => final(self).tasks@ == tasks@,
            },
    {
        match action {
            BackgroundTaskStateAction::Upsert(meta) => {
                let key = meta.task_id.clone();
                self.tasks.insert(key, meta);
            },
            BackgroundTaskStateAction::ReplaceAll { tasks } => {
                self.tasks = tasks;
            },
        }
    }
}

/// State key of the persisted task metadata.
pub struct BackgroundTaskStateKey;

impl BackgroundTaskStateKey {
    pub const KEY: &'static str = "background_task_state";

    pub fn apply(value: &mut BackgroundTaskStateSnapshot, update: BackgroundTaskStateAction)
        ensures
            match update {
                BackgroundTaskStateAction::Upsert(meta) => final(value).tasks@ == old(
                    value,
                ).tasks@.insert(meta.task_id@, meta),
                BackgroundTaskStateAction::ReplaceAll { tasks } => final(value).tasks@ == tasks@,
            },
    {
        value.reduce(update);
    }
}

/// `r` is the record restored for thread `owner` from the metadata `m`.
pub open spec fn restored_from(r: TaskRecord, m: PersistedTaskMeta, owner: Seq<char>) -> bool {
    &&& r.owner_thread_id@ == owner
    &&& r.task_type@ == m.task_type@
    &&& r.description@ == m.description@
    &&& r.status == m.status
    &&& opt_str_view(r.error) == opt_str_view(m.error)
    &&& r.result is None
    &&& r.created_at_ms == m.created_at_ms
    &&& r.completed_at_ms == m.completed_at_ms
}

/// `m` is the metadata persisted for the task `id` recorded as `r`.
pub open spec fn persisted_from(m: PersistedTaskMeta, id: Seq<char>, r: TaskRecord) -> bool {
    &&& m.task_id@ == id
    &&& m.task_type@ == r.task_type@
    &&& m.description@ == r.description@
    &&& m.status == r.status
    &&& opt_str_view(m.error) == opt_str_view(r.error)
    &&& m.created_at_ms == r.created_at_ms
    &&& m.completed_at_ms == r.completed_at_ms
}

/// The counter value a restored task ID demands: one past `n` for an ID
/// `bg_<n>` (saturating), nothing for other IDs.
pub open spec fn counter_floor(id: Seq<char>) -> Option<u64> {
    if "bg_"@.is_prefix_of(id) {
        match parse_u64_spec(id.subrange(3, id.len() as int)) {
            Some(n) => Some(if n == u64::MAX {
                u64::MAX
            } else {
                (n + 1) as u64
            }),
            None => None,
        }
    } else {
        None
    }
}

/// A fresh ID `bg_<n>` demands the counter value just past `n`.
proof fn lemma_task_id_floor(n: u64)
    ensures
        counter_floor(task_id_spec(n)) == Some(
            if n == u64::MAX {
                u64::MAX
            } else {
                (n + 1) as u64
            },
        ),
{
    reveal_strlit("bg_");
    let d = decimal(n as nat);
    let id = task_id_spec(n);
    lemma_decimal_digits(n as nat);
    assert(id.subrange(0, 3) =~= "bg_"@);
    assert(id.subrange(3, id.len() as int) =~= d);
    assert(d[0] != '+') by {
        assert(all_digits(d));
    }
    assert(unsigned_part(d) == d);
    assert(parse_u64_spec(d) == Some(n as nat));
}


fn counter_floor_of(id: &str) -> (r: Option<u64>)
    ensures
        r == counter_floor(id@),
{
    proof {
        reveal_strlit("bg_");
    }
    if !str_starts_with(id, "bg_") {
        return None;
    }
    let n = id.unicode_len();
    let digits = id.substring_char(3, n);
    match parse_u64(digits) {
        Some(v) => Some(v.saturating_add(1)),
        None => None,
    }
}

impl TaskTable {
    /// Restore persisted task metadata for thread `owner_thread_id`: tasks
    /// not yet in the table are added (without a result), tasks already in
    /// the table are kept as they are, and the counter moves past every
    /// restored `bg_<n>` ID so that fresh IDs do not collide.
    pub fn restore_for_thread(&mut self, owner_thread_id: &str, snapshot: &BackgroundTaskStateSnapshot)
        ensures
            final(self).spec_tasks().dom() == old(self).spec_tasks().dom().union(
                snapshot.tasks@.dom(),
            ),
            forall|k: Seq<char>| #[trigger]
                old(self).spec_tasks().contains_key(k) ==> final(self).spec_tasks()[k] == old(
                    self,
                ).spec_tasks()[k],
            forall|k: Seq<char>|
                #[trigger] snapshot.tasks@.contains_key(k) && !old(self).spec_tasks().contains_key(k)
                    ==> restored_from(final(self).spec_tasks()[k], snapshot.tasks@[k], owner_thread_id@),
            final(self).spec_counter() >= old(self).spec_counter(),
            forall|k: Seq<char>|
                #[trigger] snapshot.tasks@.contains_key(k) && !old(self).spec_tasks().contains_key(k)
                    && counter_floor(k) is Some ==> final(self).spec_counter() >= counter_floor(
                    k,
                )->0,
            final(self).spec_counter() == old(self).spec_counter() || exists|k: Seq<char>|
                #[trigger] snapshot.tasks@.contains_key(k) && !old(self).spec_tasks().contains_key(k)
                    && counter_floor(k) == Some(final(self).spec_counter()),
            old(self).ids_below_counter() ==> final(self).ids_below_counter(),
    {
        let entries = snapshot.tasks.entries();
        let ghost snap = snapshot.tasks@;
        let ghost old_tasks = self.tasks@;
        let ghost old_counter = self.counter;
        let n = entries.len();
        let mut i: usize = 0;
        while i < n
            invariant
                n == entries@.len(),
                i <= n,
                forall|x: int|
                    0 <= x < entries@.len() ==> snap.contains_key(#[trigger] entries@[x].0@)
                        && snap[entries@[x].0@] == entries@[x].1,
                forall|k: Seq<char>|
                    snap.contains_key(k) ==> exists|x: int|
                        0 <= x < entries@.len() && #[trigger] entries@[x].0@ == k,
                forall|x: int, y: int|
                    0 <= x < entries@.len() && 0 <= y < entries@.len() && x != y ==> entries@[x].0@
                        != entries@[y].0@,
                forall|k: Seq<char>| #[trigger]
                    self.tasks@.contains_key(k) <==> (old_tasks.contains_key(k) || exists|x: int|
                        0 <= x < i && #[trigger] entries@[x].0@ == k),
                forall|k: Seq<char>| #[trigger]
                    old_tasks.contains_key(k) ==> self.tasks@[k] == old_tasks[k],
                forall|x: int|
                    0 <= x < i && !old_tasks.contains_key(#[trigger] entries@[x].0@) ==> restored_from(
                        self.tasks@[entries@[x].0@],
                        entries@[x].1,
                        owner_thread_id@,
                    ),
                self.counter >= old_counter,
                forall|x: int|
                    0 <= x < i && !old_tasks.contains_key(#[trigger] entries@[x].0@) && counter_floor(
                        entries@[x].0@,
                    ) is Some ==> self.counter >= counter_floor(entries@[x].0@)->0,
                self.counter == old_counter || exists|x: int|
                    0 <= x < i && !old_tasks.contains_key(#[trigger] entries@[x].0@) && counter_floor(
                        entries@[x].0@,
                    ) == Some(self.counter),
            decreases n - i,
        {
            let (id, meta) = (&entries[i].0, &entries[i].1);
            if !self.tasks.contains_key(id.as_str()) {
                proof {
                    if old_tasks.contains_key(id@) {
                        assert(self.tasks@.contains_key(id@));
                    }
                }
                let ghost c0 = self.counter;
                match counter_floor_of(id.as_str()) {
                    Some(floor) => {
                        if floor > self.counter {
                            self.counter = floor;
                        }
                    },
                    None => {},
                }
                let rec = TaskRecord {
                    owner_thread_id: String::from_str(owner_thread_id),
                    task_type: meta.task_type.clone(),
                    description: meta.description.clone(),
                    status: meta.status,
                    error: clone_opt_str(&meta.error),
                    result: None,
                    created_at_ms: meta.created_at_ms,
                    completed_at_ms: meta.completed_at_ms,
                };
                let ghost before = self.tasks@;
                self.tasks.insert(id.clone(), rec);
                proof {
                    assert forall|k: Seq<char>| #[trigger]
                        self.tasks@.contains_key(k) <==> (old_tasks.contains_key(k) || exists|x: int|
                            0 <= x < i + 1 && #[trigger] entries@[x].0@ == k) by {
                        if k == id@ {
                            assert(entries@[i as int].0@ == k);
                        } else if exists|x: int| 0 <= x < i + 1 && #[trigger] entries@[x].0@ == k {
                            let x = choose|x: int| 0 <= x < i + 1 && #[trigger] entries@[x].0@ == k;
                            assert(x != i);
                        }
                    }
                    assert forall|x: int|
                        0 <= x < i + 1 && !old_tasks.contains_key(#[trigger] entries@[x].0@) implies restored_from(
                        self.tasks@[entries@[x].0@],
                        entries@[x].1,
                        owner_thread_id@,
                    ) by {
                        if x < i {
                            assert(entries@[x].0@ != entries@[i as int].0@);
                        }
                    }
                    if c0 != self.counter {
                        assert(counter_floor(entries@[i as int].0@) == Some(self.counter));
                    }
                }
            } else {
                proof {
                    assert(self.tasks@.contains_key(id@));
                    assert forall|k: Seq<char>| #[trigger]
                        self.tasks@.contains_key(k) <==> (old_tasks.contains_key(k) || exists|x: int|
                            0 <= x < i + 1 && #[trigger] entries@[x].0@ == k) by {
                        if k == id@ {
                            assert(entries@[i as int].0@ == k);
                        }
                    }
                    if !old_tasks.contains_key(id@) {
                        let x = choose|x: int| 0 <= x < i && #[trigger] entries@[x].0@ == id@;
                        assert(x != i);
                    }
                }
            }
            i = i + 1;
        }
        proof {
            assert forall|k: Seq<char>|
                #[trigger] snap.contains_key(k) && !old_tasks.contains_key(k) implies restored_from(
                self.tasks@[k],
                snap[k],
                owner_thread_id@,
            ) && (counter_floor(k) is Some ==> self.counter >= counter_floor(k)->0) by {
                let x = choose|x: int| 0 <= x < entries@.len() && #[trigger] entries@[x].0@ == k;
            }
            assert forall|k: Seq<char>|
                #[trigger] self.tasks@.contains_key(k) <==> (old_tasks.contains_key(k) || snap.contains_key(k)) by {
                if snap.contains_key(k) {
                    let x = choose|x: int| 0 <= x < entries@.len() && #[trigger] entries@[x].0@ == k;
                }
            }
            assert(self.tasks@.dom() =~= old_tasks.dom().union(snap.dom()));
            if self.counter != old_counter {
                let x = choose|x: int|
                    0 <= x < n && !old_tasks.contains_key(#[trigger] entries@[x].0@) && counter_floor(
                        entries@[x].0@,
                    ) == Some(self.counter);
                assert(snap.contains_key(entries@[x].0@));
            }
            if old(self).ids_below_counter() {
                assert forall|k: Seq<char>|
                    #[trigger] self.spec_tasks().contains_key(k) && counter_floor(k) is Some implies counter_floor(k)->0
                        <= self.spec_counter() by {
                    if old_tasks.contains_key(k) {
                        assert(old(self).spec_tasks().contains_key(k));
                    } else {
                        assert(snap.contains_key(k));
                    }
                }
            }
        }
    }

    /// The metadata to persist of every task, keyed by task ID.
    pub fn persisted_snapshot(&self) -> (r: StrMap<PersistedTaskMeta>)
        ensures
            r@.dom() == self.spec_tasks().dom(),
            forall|k: Seq<char>| #[trigger]
                r@.contains_key(k) ==> persisted_from(r@[k], k, self.spec_tasks()[k]),
    {
        let entries = self.tasks.entries();
        let mut out: StrMap<PersistedTaskMeta> = StrMap::new();
        let n = entries.len();
        let mut i: usize = 0;
        while i < n
            invariant
                n == entries@.len(),
                i <= n,
                forall|x: int|
                    0 <= x < entries@.len() ==> self.spec_tasks().contains_key(
                        #[trigger] entries@[x].0@,
                    ) && self.spec_tasks()[entries@[x].0@] == entries@[x].1,
                forall|k: Seq<char>|
                    self.spec_tasks().contains_key(k) ==> exists|x: int|
                        0 <= x < entries@.len() && #[trigger] entries@[x].0@ == k,
                forall|k: Seq<char>| #[trigger]
                    out@.contains_key(k) <==> exists|x: int| 0 <= x < i && #[trigger] entries@[x].0@ == k,
                forall|k: Seq<char>| #[trigger]
                    out@.contains_key(k) ==> persisted_from(out@[k], k, self.spec_tasks()[k]),
            decreases n - i,
        {
            let (id, t) = (&entries[i].0, &entries[i].1);
            let meta = PersistedTaskMeta {
                task_id: id.clone(),
                task_type: t.task_type.clone(),
                description: t.description.clone(),
                status: t.status,
                error: clone_opt_str(&t.error),
                created_at_ms: t.created_at_ms,
                completed_at_ms: t.completed_at_ms,
            };
            out.insert(id.clone(), meta);
            proof {
                assert forall|k: Seq<char>| #[trigger]
                    out@.contains_key(k) <==> exists|x: int| 0 <= x < i + 1 && #[trigger] entries@[x].0@ == k by {
                    if k == id@ {
                        assert(entries@[i as int].0@ == k);
                    } else if exists|x: int| 0 <= x < i + 1 && #[trigger] entries@[x].0@ == k {
                        let x = choose|x: int| 0 <= x < i + 1 && #[trigger] entries@[x].0@ == k;
                        assert(x != i);
                    }
                }
            }
            i = i + 1;
        }
        proof {
            assert forall|k: Seq<char>| #[trigger] out@.contains_key(k) <==> self.spec_tasks().contains_key(k) by {
                if self.spec_tasks().contains_key(k) {
                    let x = choose|x: int| 0 <= x < entries@.len() && #[trigger] entries@[x].0@ == k;
                }
            }
            assert(out@.dom() =~= self.spec_tasks().dom());
        }
        out
    }
}


impl TaskTable {
    /// What the run-end hook commits: the persisted metadata of every task
    /// replaces what was persisted before.
    pub fn run_end_action(&self) -> (a: BackgroundTaskStateAction)
        ensures
            a matches BackgroundTaskStateAction::ReplaceAll { tasks } && tasks@.dom()
                == self.spec_tasks().dom() && forall|k: Seq<char>| #[trigger]
                tasks@.contains_key(k) ==> persisted_from(tasks@[k], k, self.spec_tasks()[k]),
    {
        BackgroundTaskStateAction::ReplaceAll { tasks: self.persisted_snapshot() }
    }
}

/// What the run-end hook persists of a task, the run-start hook of a later
/// run restores: its type, description, status, error and timestamps come
/// back unchanged, owned by the restoring thread and without a result.
pub proof fn lemma_persist_restore_roundtrip(
    id: Seq<char>,
    record: TaskRecord,
    meta: PersistedTaskMeta,
    restored: TaskRecord,
    owner: Seq<char>,
)
    requires
        persisted_from(meta, id, record),
        restored_from(restored, meta, owner),
    ensures
        restored.task_type@ == record.task_type@,
        restored.description@ == record.description@,
        restored.status == record.status,
        opt_str_view(restored.error) == opt_str_view(record.error),
        restored.created_at_ms == record.created_at_ms,
        restored.completed_at_ms == record.completed_at_ms,
        restored.owner_thread_id@ == owner,
        restored.result is None,
{
}

} // verus!
