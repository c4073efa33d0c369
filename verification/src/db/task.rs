//! The `task` table: the row that says where a unit of work has got to.

use crate::error::{Error, ErrorModel};
use crate::json::{decode_list, encode_list, json_list, list_json};
use crate::text::{
    cat2, copy, copy_list, copy_opt, int_text, integer, integer_reads_back, quote, quoted, same,
};
use vstd::prelude::*;

verus! {

/// `status` values. Nothing else is legal in the column.
#[derive(Debug, Clone, Copy, PartialEq, Eq, Structural)]
pub enum Status {
    Queued,
    Running,
    Parked,
    /// The task's plan is empty: it has run everything asked of it and now waits,
    /// idle, for a human or the orchestrator to apply another pipeline (with
    /// `shep run`), or to leave it be. Non-terminal: a rested task can move again.
    Resting,
    Finished,
    Cancelled,
}

impl Status {
    /// The word in the column.
    pub open spec fn word(self) -> Seq<char> {
        match self {
            Status::Queued => "queued"@,
            Status::Running => "running"@,
            Status::Parked => "parked"@,
            Status::Resting => "resting"@,
            Status::Finished => "finished"@,
            Status::Cancelled => "cancelled"@,
        }
    }

    /// The status a word says, if it says one.
    pub open spec fn of_word(s: Seq<char>) -> Option<Status> {
        if s == "queued"@ {
            Some(Status::Queued)
        } else if s == "running"@ {
            Some(Status::Running)
        } else if s == "parked"@ {
            Some(Status::Parked)
        } else if s == "resting"@ {
            Some(Status::Resting)
        } else if s == "finished"@ {
            Some(Status::Finished)
        } else if s == "cancelled"@ {
            Some(Status::Cancelled)
        } else {
            None
        }
    }

    /// A status a task never leaves.
    pub open spec fn terminal(self) -> bool {
        self is Finished || self is Cancelled
    }

    /// Every status, in the order `shep status` counts them.
    pub const ALL: [Status; 6] = [
        Status::Queued,
        Status::Running,
        Status::Parked,
        Status::Resting,
        Status::Finished,
        Status::Cancelled,
    ];

    pub fn as_str(self) -> (r: &'static str)
        ensures
            r@ == self.word(),
    {
        match self {
            Status::Queued => "queued",
            Status::Running => "running",
            Status::Parked => "parked",
            Status::Resting => "resting",
            Status::Finished => "finished",
            Status::Cancelled => "cancelled",
        }
    }

    /// The status a word says. Any other word is corruption.
    pub fn parse(s: &str) -> (r: Result<Status, Error>)
        ensures
            match Status::of_word(s@) {
                Some(v) => r == Ok::<Status, Error>(v),
                None => r matches Err(e) && e@ == (ErrorModel::Corrupt {
                    what: "task.status"@,
                    detail: "unknown status "@ + quoted(s@),
                }),
            },
    {
        if same(s, "queued") {
            Ok(Status::Queued)
        } else if same(s, "running") {
            Ok(Status::Running)
        } else if same(s, "parked") {
            Ok(Status::Parked)
        } else if same(s, "resting") {
            Ok(Status::Resting)
        } else if same(s, "finished") {
            Ok(Status::Finished)
        } else if same(s, "cancelled") {
            Ok(Status::Cancelled)
        } else {
            Err(Error::corrupt("task.status", cat2("unknown status ", &quote(s))))
        }
    }

    /// A task in a terminal status will never move again on its own. Resting is
    /// *not* terminal: it is the idle state a task returns to between pipelines.
    pub fn is_terminal(self) -> (r: bool)
        ensures
            r == self.terminal(),
    {
        match self {
            Status::Finished => true,
            Status::Cancelled => true,
            _ => false,
        }
    }
}

/// Every status is read back from the word it is written as.
pub proof fn status_words_read_back(s: Status)
    ensures
        Status::of_word(s.word()) == Some(s),
{
    reveal_strlit("queued");
    reveal_strlit("running");
    reveal_strlit("parked");
    reveal_strlit("resting");
    reveal_strlit("finished");
    reveal_strlit("cancelled");
    assert("queued"@[0] == 'q' && "running"@[1] == 'u' && "parked"@[0] == 'p' && "resting"@[1]
        == 'e' && "finished"@[0] == 'f' && "cancelled"@[0] == 'c');
    assert("running"@[0] == 'r' && "resting"@[0] == 'r');
}

#[derive(Debug)]
pub struct Task {
    pub id: String,
    pub brief: String,
    pub kind: String,
    pub pipeline: Option<String>,
    pub step: Option<String>,
    pub round: i64,
    pub status: Status,
    /// The top-level pipelines the task runs, in order: its remaining and
    /// completed plan. Seeded from the type at creation and extended by
    /// `shep run`. "What's next" is read from here, not from the type's config, so
    /// a pipeline applied by hand has somewhere to return to.
    pub plan: Vec<String>,
    /// When the current awaiting step must be resolved by, if it has a timeout.
    /// `None` means no deadline.
    pub await_deadline: Option<i64>,
    pub repo: String,
    pub worktree: Option<String>,
    pub branch: Option<String>,
    pub base: Option<String>,
    pub workspace_id: Option<String>,
    pub created: i64,
    pub updated: i64,
}

/// A task over its texts.
#[verifier::ext_equal]
pub struct TaskModel {
    pub id: Seq<char>,
    pub brief: Seq<char>,
    pub kind: Seq<char>,
    pub pipeline: Option<Seq<char>>,
    pub step: Option<Seq<char>>,
    pub round: i64,
    pub status: Status,
    pub plan: Seq<Seq<char>>,
    pub await_deadline: Option<i64>,
    pub repo: Seq<char>,
    pub worktree: Option<Seq<char>>,
    pub branch: Option<Seq<char>>,
    pub base: Option<Seq<char>>,
    pub workspace_id: Option<Seq<char>>,
    pub created: i64,
    pub updated: i64,
}

impl View for Task {
    type V = TaskModel;

    open spec fn view(&self) -> TaskModel {
        TaskModel {
            id: self.id@,
            brief: self.brief@,
            kind: self.kind@,
            pipeline: self.pipeline.deep_view(),
            step: self.step.deep_view(),
            round: self.round,
            status: self.status,
            plan: self.plan.deep_view(),
            await_deadline: self.await_deadline,
            repo: self.repo@,
            worktree: self.worktree.deep_view(),
            branch: self.branch.deep_view(),
            base: self.base.deep_view(),
            workspace_id: self.workspace_id.deep_view(),
            created: self.created,
            updated: self.updated,
        }
    }
}

impl DeepView for Task {
    type V = TaskModel;

    open spec fn deep_view(&self) -> TaskModel {
        self@
    }
}

impl Clone for Task {
    fn clone(&self) -> (r: Task)
        ensures
            r@ == self@,
    {
        Task {
            id: copy(&self.id),
            brief: copy(&self.brief),
            kind: copy(&self.kind),
            pipeline: copy_opt(&self.pipeline),
            step: copy_opt(&self.step),
            round: self.round,
            status: self.status,
            plan: copy_list(&self.plan),
            await_deadline: self.await_deadline,
            repo: copy(&self.repo),
            worktree: copy_opt(&self.worktree),
            branch: copy_opt(&self.branch),
            base: copy_opt(&self.base),
            workspace_id: copy_opt(&self.workspace_id),
            created: self.created,
            updated: self.updated,
        }
    }
}

/// What `shep create` supplies. Everything else is the engine's to decide.
#[derive(Debug)]
pub struct NewTask {
    pub brief: String,
    pub kind: String,
    pub repo: String,
    /// The type's pipelines, which seed the task's plan.
    pub plan: Vec<String>,
}

/// A set of fields to change.
///
/// The outer `Option` is "leave alone"; the inner one, where present, is the
/// column's own nullability.
#[derive(Debug)]
pub struct TaskPatch {
    pub status: Option<Status>,
    pub pipeline: Option<Option<String>>,
    pub step: Option<Option<String>>,
    pub round: Option<i64>,
    pub plan: Option<Vec<String>>,
    pub await_deadline: Option<Option<i64>>,
    pub worktree: Option<Option<String>>,
    pub branch: Option<Option<String>>,
    pub base: Option<Option<String>>,
    pub workspace_id: Option<Option<String>>,
}

#[verifier::ext_equal]
pub struct PatchModel {
    pub status: Option<Status>,
    pub pipeline: Option<Option<Seq<char>>>,
    pub step: Option<Option<Seq<char>>>,
    pub round: Option<i64>,
    pub plan: Option<Seq<Seq<char>>>,
    pub await_deadline: Option<Option<i64>>,
    pub worktree: Option<Option<Seq<char>>>,
    pub branch: Option<Option<Seq<char>>>,
    pub base: Option<Option<Seq<char>>>,
    pub workspace_id: Option<Option<Seq<char>>>,
}

impl View for TaskPatch {
    type V = PatchModel;

    open spec fn view(&self) -> PatchModel {
        PatchModel {
            status: self.status,
            pipeline: self.pipeline.deep_view(),
            step: self.step.deep_view(),
            round: self.round,
            plan: self.plan.deep_view(),
            await_deadline: self.await_deadline,
            worktree: self.worktree.deep_view(),
            branch: self.branch.deep_view(),
            base: self.base.deep_view(),
            workspace_id: self.workspace_id.deep_view(),
        }
    }
}

/// What a column holds after a patch.
pub open spec fn set<A>(was: A, patch: Option<A>) -> A {
    match patch {
        Some(v) => v,
        None => was,
    }
}

impl PatchModel {
    /// The patch that changes nothing.
    pub open spec fn nothing() -> PatchModel {
        PatchModel {
            status: None,
            pipeline: None,
            step: None,
            round: None,
            plan: None,
            await_deadline: None,
            worktree: None,
            branch: None,
            base: None,
            workspace_id: None,
        }
    }

    /// A task after the patch.
    pub open spec fn applied_to(self, t: TaskModel) -> TaskModel {
        TaskModel {
            status: set(t.status, self.status),
            pipeline: set(t.pipeline, self.pipeline),
            step: set(t.step, self.step),
            round: set(t.round, self.round),
            plan: set(t.plan, self.plan),
            await_deadline: set(t.await_deadline, self.await_deadline),
            worktree: set(t.worktree, self.worktree),
            branch: set(t.branch, self.branch),
            base: set(t.base, self.base),
            workspace_id: set(t.workspace_id, self.workspace_id),
            ..t
        }
    }
}

impl TaskPatch {
    pub fn new() -> (r: TaskPatch)
        ensures
            r@ == PatchModel::nothing(),
    {
        TaskPatch {
            status: None,
            pipeline: None,
            step: None,
            round: None,
            plan: None,
            await_deadline: None,
            worktree: None,
            branch: None,
            base: None,
            workspace_id: None,
        }
    }

    pub fn is_empty(&self) -> (r: bool)
        ensures
            r == (self@ == PatchModel::nothing()),
    {
        self.status.is_none() && self.pipeline.is_none() && self.step.is_none()
            && self.round.is_none() && self.plan.is_none() && self.await_deadline.is_none()
            && self.worktree.is_none() && self.branch.is_none() && self.base.is_none()
            && self.workspace_id.is_none()
    }

    pub fn status(self, s: Status) -> (r: TaskPatch)
        ensures
            r@ == (PatchModel { status: Some(s), ..self@ }),
    {
        TaskPatch { status: Some(s), ..self }
    }

    pub fn pipeline(self, p: Option<String>) -> (r: TaskPatch)
        ensures
            r@ == (PatchModel { pipeline: Some(p.deep_view()), ..self@ }),
    {
        TaskPatch { pipeline: Some(p), ..self }
    }

    pub fn step(self, s: Option<String>) -> (r: TaskPatch)
        ensures
            r@ == (PatchModel { step: Some(s.deep_view()), ..self@ }),
    {
        TaskPatch { step: Some(s), ..self }
    }

    pub fn round(self, n: i64) -> (r: TaskPatch)
        ensures
            r@ == (PatchModel { round: Some(n), ..self@ }),
    {
        TaskPatch { round: Some(n), ..self }
    }

    pub fn plan(self, plan: Vec<String>) -> (r: TaskPatch)
        ensures
            r@ == (PatchModel { plan: Some(plan.deep_view()), ..self@ }),
    {
        TaskPatch { plan: Some(plan), ..self }
    }

    pub fn await_deadline(self, deadline: Option<i64>) -> (r: TaskPatch)
        ensures
            r@ == (PatchModel { await_deadline: Some(deadline), ..self@ }),
    {
        TaskPatch { await_deadline: Some(deadline), ..self }
    }

    pub fn worktree(self, w: Option<String>) -> (r: TaskPatch)
        ensures
            r@ == (PatchModel { worktree: Some(w.deep_view()), ..self@ }),
    {
        TaskPatch { worktree: Some(w), ..self }
    }

    pub fn branch(self, b: Option<String>) -> (r: TaskPatch)
        ensures
            r@ == (PatchModel { branch: Some(b.deep_view()), ..self@ }),
    {
        TaskPatch { branch: Some(b), ..self }
    }

    pub fn base(self, b: Option<String>) -> (r: TaskPatch)
        ensures
            r@ == (PatchModel { base: Some(b.deep_view()), ..self@ }),
    {
        TaskPatch { base: Some(b), ..self }
    }

    pub fn workspace_id(self, w: Option<String>) -> (r: TaskPatch)
        ensures
            r@ == (PatchModel { workspace_id: Some(w.deep_view()), ..self@ }),
    {
        TaskPatch { workspace_id: Some(w), ..self }
    }

    /// Change a row. What the patch says nothing about stays as it is.
    pub fn apply(&self, task: &mut Task)
        ensures
            final(task)@ == self@.applied_to(old(task)@),
    {
        if let Some(v) = self.status {
            task.status = v;
        }
        if let Some(v) = &self.pipeline {
            task.pipeline = copy_opt(v);
        }
        if let Some(v) = &self.step {
            task.step = copy_opt(v);
        }
        if let Some(v) = self.round {
            task.round = v;
        }
        if let Some(v) = &self.plan {
            task.plan = copy_list(v);
        }
        if let Some(v) = self.await_deadline {
            task.await_deadline = v;
        }
        if let Some(v) = &self.worktree {
            task.worktree = copy_opt(v);
        }
        if let Some(v) = &self.branch {
            task.branch = copy_opt(v);
        }
        if let Some(v) = &self.base {
            task.base = copy_opt(v);
        }
        if let Some(v) = &self.workspace_id {
            task.workspace_id = copy_opt(v);
        }
    }
}

/// The columns of a row as the store holds them: the status is a word, and the
/// plan a JSON list.
#[derive(Debug)]
pub struct TaskRow {
    pub id: String,
    pub brief: String,
    pub kind: String,
    pub pipeline: Option<String>,
    pub step: Option<String>,
    pub round: i64,
    pub status: String,
    pub plan: String,
    pub await_deadline: Option<i64>,
    pub repo: String,
    pub worktree: Option<String>,
    pub branch: Option<String>,
    pub base: Option<String>,
    pub workspace_id: Option<String>,
    pub created: i64,
    pub updated: i64,
}

#[verifier::ext_equal]
pub struct RowModel {
    pub id: Seq<char>,
    pub brief: Seq<char>,
    pub kind: Seq<char>,
    pub pipeline: Option<Seq<char>>,
    pub step: Option<Seq<char>>,
    pub round: i64,
    pub status: Seq<char>,
    pub plan: Seq<char>,
    pub await_deadline: Option<i64>,
    pub repo: Seq<char>,
    pub worktree: Option<Seq<char>>,
    pub branch: Option<Seq<char>>,
    pub base: Option<Seq<char>>,
    pub workspace_id: Option<Seq<char>>,
    pub created: i64,
    pub updated: i64,
}

impl View for TaskRow {
    type V = RowModel;

    open spec fn view(&self) -> RowModel {
        RowModel {
            id: self.id@,
            brief: self.brief@,
            kind: self.kind@,
            pipeline: self.pipeline.deep_view(),
            step: self.step.deep_view(),
            round: self.round,
            status: self.status@,
            plan: self.plan@,
            await_deadline: self.await_deadline,
            repo: self.repo@,
            worktree: self.worktree.deep_view(),
            branch: self.branch.deep_view(),
            base: self.base.deep_view(),
            workspace_id: self.workspace_id.deep_view(),
            created: self.created,
            updated: self.updated,
        }
    }
}

impl RowModel {
    /// The columns of a task.
    pub open spec fn of(t: TaskModel) -> RowModel {
        RowModel {
            id: t.id,
            brief: t.brief,
            kind: t.kind,
            pipeline: t.pipeline,
            step: t.step,
            round: t.round,
            status: t.status.word(),
            plan: list_json(t.plan),
            await_deadline: t.await_deadline,
            repo: t.repo,
            worktree: t.worktree,
            branch: t.branch,
            base: t.base,
            workspace_id: t.workspace_id,
            created: t.created,
            updated: t.updated,
        }
    }

    /// The task that the columns hold, or what is malformed about them: the plan
    /// is looked at before the status.
    pub open spec fn task(self) -> Result<TaskModel, ErrorModel> {
        self.task_with(json_list(self.plan))
    }

    /// The same, by what the plan column was read as.
    pub open spec fn task_with(self, plan: Result<Seq<Seq<char>>, Seq<char>>) -> Result<
        TaskModel,
        ErrorModel,
    > {
        match plan {
            Err(e) => Err(ErrorModel::Corrupt { what: "task.plan"@, detail: e }),
            Ok(plan) => match Status::of_word(self.status) {
                None => Err(
                    ErrorModel::Corrupt {
                        what: "task.status"@,
                        detail: "unknown status "@ + quoted(self.status),
                    },
                ),
                Some(status) => Ok(
                    TaskModel {
                        id: self.id,
                        brief: self.brief,
                        kind: self.kind,
                        pipeline: self.pipeline,
                        step: self.step,
                        round: self.round,
                        status,
                        plan,
                        await_deadline: self.await_deadline,
                        repo: self.repo,
                        worktree: self.worktree,
                        branch: self.branch,
                        base: self.base,
                        workspace_id: self.workspace_id,
                        created: self.created,
                        updated: self.updated,
                    },
                ),
            },
        }
    }
}

/// The columns to write for a task. Reading them gives the task back.
pub fn to_row(task: &Task) -> (r: TaskRow)
    ensures
        r@ == RowModel::of(task@),
        r@.task() == Ok::<TaskModel, ErrorModel>(task@),
{
    let plan: String = match encode_list(&task.plan) {
        Ok(text) => text,
        Err(_) => copy("[]"),
    };
    proof {
        status_words_read_back(task.status);
    }
    TaskRow {
        id: copy(&task.id),
        brief: copy(&task.brief),
        kind: copy(&task.kind),
        pipeline: copy_opt(&task.pipeline),
        step: copy_opt(&task.step),
        round: task.round,
        status: copy(task.status.as_str()),
        plan,
        await_deadline: task.await_deadline,
        repo: copy(&task.repo),
        worktree: copy_opt(&task.worktree),
        branch: copy_opt(&task.branch),
        base: copy_opt(&task.base),
        workspace_id: copy_opt(&task.workspace_id),
        created: task.created,
        updated: task.updated,
    }
}

/// The task that a row holds. A plan that is no list of names, or a status that is
/// none, is corruption.
pub fn from_row(row: TaskRow) -> (r: Result<Task, Error>)
    ensures
        match row@.task() {
            Ok(t) => r matches Ok(task) && task@ == t,
            Err(m) => r matches Err(e) && e@ == m,
        },
{
    let plan: Result<Vec<String>, String> = decode_list(&row.plan);
    from_columns(row, plan)
}

/// The plan column, as it was read.
pub open spec fn plan_read(plan: Result<Vec<String>, String>) -> Result<
    Seq<Seq<char>>,
    Seq<char>,
> {
    match plan {
        Ok(items) => Ok(items.deep_view()),
        Err(e) => Err(e@),
    }
}

/// The task that a row holds, by what its plan column was read as.
pub fn from_columns(row: TaskRow, plan: Result<Vec<String>, String>) -> (r: Result<Task, Error>)
    ensures
        match row@.task_with(plan_read(plan)) {
            Ok(t) => r matches Ok(task) && task@ == t,
            Err(m) => r matches Err(e) && e@ == m,
        },
{
    let plan: Vec<String> = match plan {
        Ok(items) => items,
        Err(e) => {
            return Err(Error::corrupt("task.plan", e));
        },
    };
    let status: Status = match Status::parse(&row.status) {
        Ok(status) => status,
        Err(e) => {
            return Err(e);
        },
    };
    Ok(
        Task {
            id: row.id,
            brief: row.brief,
            kind: row.kind,
            pipeline: row.pipeline,
            step: row.step,
            round: row.round,
            status,
            plan,
            await_deadline: row.await_deadline,
            repo: row.repo,
            worktree: row.worktree,
            branch: row.branch,
            base: row.base,
            workspace_id: row.workspace_id,
            created: row.created,
            updated: row.updated,
        },
    )
}

/// The task that was looked up, or that there is no such task.
pub fn require(found: Option<Task>, id: &str) -> (r: Result<Task, Error>)
    ensures
        match found {
            Some(t) => r == Ok::<Task, Error>(t),
            None => r matches Err(e) && e@ == ErrorModel::TaskNotFound(id@),
        },
{
    match found {
        Some(t) => Ok(t),
        None => Err(Error::TaskNotFound(copy(id))),
    }
}

/// A whole-row update is of one row. Any other number means there is no such task.
pub fn updated_one(changed: usize, id: &str) -> (r: Result<(), Error>)
    ensures
        changed == 1 ==> r is Ok,
        changed != 1 ==> (r matches Err(e) && e@ == ErrorModel::TaskNotFound(id@)),
{
    if changed != 1 {
        return Err(Error::TaskNotFound(copy(id)));
    }
    Ok(())
}

/// The counts of `shep status`, from the words the store groups by. The first word
/// that is no status is corruption.
pub fn counts_by_status(rows: &Vec<(String, i64)>) -> (r: Result<Vec<(Status, i64)>, Error>)
    ensures
        match r {
            Ok(out) => out.len() == rows.len() && forall|i: int|
                0 <= i < rows.len() ==> Status::of_word((#[trigger] rows@[i]).0@) == Some(
                    out@[i].0,
                ) && out@[i].1 == rows@[i].1,
            Err(e) => exists|i: int|
                0 <= i < rows.len() && Status::of_word((#[trigger] rows@[i]).0@) is None && (
                forall|j: int|
                    0 <= j < i ==> Status::of_word((#[trigger] rows@[j]).0@) is Some) && e@ == (
                ErrorModel::Corrupt {
                    what: "task.status"@,
                    detail: "unknown status "@ + quoted(rows@[i].0@),
                }),
        },
{
    let mut out: Vec<(Status, i64)> = Vec::new();
    for i in 0..rows.len()
        invariant
            out.len() == i,
            forall|k: int|
                0 <= k < i ==> Status::of_word((#[trigger] rows@[k]).0@) == Some(out@[k].0)
                    && out@[k].1 == rows@[k].1,
    {
        match Status::parse(&rows[i].0) {
            Ok(status) => {
                out.push((status, rows[i].1));
            },
            Err(e) => {
                return Err(e);
            },
        }
    }
    Ok(out)
}

/// How many tasks are in a status, by the counts: none where it is not counted.
pub open spec fn count_in(counts: Seq<(Status, i64)>, status: Status) -> i64
    decreases counts.len(),
{
    if counts.len() == 0 {
        0
    } else if counts[0].0 == status {
        counts[0].1
    } else {
        count_in(counts.skip(1), status)
    }
}

pub fn count_of(counts: &Vec<(Status, i64)>, status: Status) -> (r: i64)
    ensures
        r == count_in(counts@, status),
{
    assert(counts@.skip(0) =~= counts@);
    for i in 0..counts.len()
        invariant
            count_in(counts@, status) == count_in(counts@.skip(i as int), status),
    {
        if counts[i].0 == status {
            return counts[i].1;
        }
        assert(counts@.skip(i as int).skip(1) =~= counts@.skip(i as int + 1));
    }
    0
}

/// The id after the greatest number that an id has, as the store reports it.
/// Called inside the write transaction, so the read and the insert cannot
/// interleave with another writer.
pub fn next_id(greatest: i64) -> (r: String)
    requires
        greatest < i64::MAX,
    ensures
        r@ == "t-"@ + int_text(greatest + 1),
{
    cat2("t-", &integer(greatest + 1))
}

/// The next id is none of those that were given before.
pub proof fn next_id_is_new(greatest: int, k: int)
    requires
        k <= greatest,
    ensures
        "t-"@ + int_text(k) != "t-"@ + int_text(greatest + 1),
{
    integer_reads_back(k);
    integer_reads_back(greatest + 1);
    let a = "t-"@ + int_text(k);
    let b = "t-"@ + int_text(greatest + 1);
    let n = "t-"@.len() as int;
    assert(a.skip(n) =~= int_text(k));
    assert(b.skip(n) =~= int_text(greatest + 1));
}

/// A task never leaves the statuses finished and cancelled, and leaves every other: a task
/// at rest can move again.
pub proof fn two_statuses_are_the_end(s: Status)
    ensures
        s.terminal() <==> s == Status::Finished || s == Status::Cancelled,
{
}

/// A word is a status exactly where it is one of the six.
pub proof fn six_words_are_statuses(s: Seq<char>)
    ensures
        Status::of_word(s) is Some <==> s == Status::Queued.word() || s == Status::Running.word()
            || s == Status::Parked.word() || s == Status::Resting.word() || s
            == Status::Finished.word() || s == Status::Cancelled.word(),
        Status::of_word(s) is Some ==> Status::of_word(s)->0.word() == s,
{
}

/// The count of a status is the first that is given for it, and none where none is.
pub proof fn a_status_is_counted(counts: Seq<(Status, i64)>, status: Status, i: int)
    requires
        0 <= i <= counts.len(),
        forall|j: int| 0 <= j < i ==> (#[trigger] counts[j]).0 != status,
    ensures
        i < counts.len() && counts[i].0 == status ==> count_in(counts, status) == counts[i].1,
        i == counts.len() ==> count_in(counts, status) == 0,
    decreases i,
{
    if i > 0 {
        assert(counts[0].0 != status);
        let rest = counts.skip(1);
        assert forall|j: int| 0 <= j < i - 1 implies (#[trigger] rest[j]).0 != status by {
            assert(rest[j] == counts[j + 1]);
        }
        a_status_is_counted(rest, status, i - 1);
    }
}

/// Each column of a row holds what the task has there: the status as its word, and all but
/// the status and the plan as they are.
pub proof fn each_column_holds_its_own(t: TaskModel, row: RowModel)
    ensures
        ({
            let row = RowModel::of(t);
            &&& row.id == t.id
            &&& row.brief == t.brief
            &&& row.kind == t.kind
            &&& row.pipeline == t.pipeline
            &&& row.step == t.step
            &&& row.round == t.round
            &&& row.await_deadline == t.await_deadline
            &&& row.repo == t.repo
            &&& row.worktree == t.worktree
            &&& row.branch == t.branch
            &&& row.base == t.base
            &&& row.workspace_id == t.workspace_id
            &&& row.created == t.created
            &&& row.updated == t.updated
            &&& row.status == t.status.word()
        }),
        row.task() is Ok ==> {
            let t = row.task()->Ok_0;
            &&& t.id == row.id
            &&& t.brief == row.brief
            &&& t.kind == row.kind
            &&& t.pipeline == row.pipeline
            &&& t.step == row.step
            &&& t.round == row.round
            &&& t.await_deadline == row.await_deadline
            &&& t.repo == row.repo
            &&& t.worktree == row.worktree
            &&& t.branch == row.branch
            &&& t.base == row.base
            &&& t.workspace_id == row.workspace_id
            &&& t.created == row.created
            &&& t.updated == row.updated
            &&& t.status.word() == row.status
        },
        json_list(row.plan) is Ok && Status::of_word(row.status) is Some ==> row.task() is Ok
            && row.task()->Ok_0.plan == json_list(row.plan)->Ok_0,
        json_list(row.plan) is Err || Status::of_word(row.status) is None ==> row.task() is Err,
{
}

} // verus!
