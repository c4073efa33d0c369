//! The names of events. They are fixed and few: a step called `lint` finishing is
//! a `task.step_finished` about `lint`, never a `lint.finished`, or editing a
//! config would mint new protocol.

use vstd::prelude::*;

verus! {

pub const TASK_CREATED: &'static str = "task.created";

pub const TASK_STEP_STARTED: &'static str = "task.step_started";

pub const TASK_STEP_FINISHED: &'static str = "task.step_finished";

/// A step returned `started`: the answer comes later, per the step's await.
pub const TASK_STEP_AWAITING: &'static str = "task.step_awaiting";

pub const TASK_PIPELINE_STARTED: &'static str = "task.pipeline_started";

pub const TASK_PIPELINE_FINISHED: &'static str = "task.pipeline_finished";

/// A pane (and the worktree it works in) is now a task's.
pub const TASK_PANE_BOUND: &'static str = "task.pane_bound";

/// A verdict about a commit was written to `check_run`.
pub const TASK_CHECK_SUBMITTED: &'static str = "task.check_submitted";

pub const TASK_PARKED: &'static str = "task.parked";

pub const TASK_RESUMED: &'static str = "task.resumed";

pub const TASK_CANCELLED: &'static str = "task.cancelled";

pub const TASK_FINISHED: &'static str = "task.finished";

pub const SUPERVISOR_STARTED: &'static str = "supervisor.started";

pub const SUPERVISOR_STOPPED: &'static str = "supervisor.stopped";

} // verus!
