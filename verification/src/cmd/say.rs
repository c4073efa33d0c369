//! The one line that a command answers with.

use crate::db::check::Conclusion;
use crate::db::task::{Task, TaskModel};
use crate::text::{cat2, cat3, cat4, copy, int_text, integer};
use vstd::prelude::*;
use vstd::string::*;

verus! {

/// What pausing or resuming says, by whether it was paused before.
pub fn paused(was: bool, now_paused: bool) -> (r: String)
    ensures
        r@ == (if !was && now_paused {
            "paused — the supervisor will start nothing new"@
        } else if was && !now_paused {
            "resumed"@
        } else if was {
            "already paused"@
        } else {
            "not paused"@
        }),
{
    if !was && now_paused {
        copy("paused — the supervisor will start nothing new")
    } else if was && !now_paused {
        copy("resumed")
    } else if was {
        copy("already paused")
    } else {
        copy("not paused")
    }
}

/// What `shep retry` says of a task that is queued again.
pub fn retried(task: &Task) -> (r: String)
    ensures
        r@ == task@.id + " queued again"@ + (match (task@.pipeline, task@.step) {
            (Some(p), Some(s)) => " at "@ + p + "/"@ + s,
            _ => ""@,
        }),
{
    let at: String = match (&task.pipeline, &task.step) {
        (Some(p), Some(s)) => cat4(" at ", p, "/", s),
        _ => copy(""),
    };
    cat3(&task.id, " queued again", &at)
}

/// What `shep cancel` says.
pub fn cancelled(task_id: &str) -> (r: String)
    ensures
        r@ == task_id@ + " cancelled"@,
{
    cat2(task_id, " cancelled")
}

/// What `shep bind-pane` says.
pub fn bound(pane: &str, task_id: &str) -> (r: String)
    ensures
        r@ == pane@ + " is "@ + task_id@,
{
    cat3(pane, " is ", task_id)
}

/// What `shep run` says of a task that is queued at a pipeline.
pub fn queued(task: &Task, pipeline: &str) -> (r: String)
    ensures
        r@ == task@.id + " is queued at "@ + pipeline@ + "/"@ + (match task@.step {
            Some(s) => s,
            None => "?"@,
        }),
{
    let step: &str = match &task.step {
        Some(s) => s.as_str(),
        None => "?",
    };
    cat4(&task.id, " is queued at ", pipeline, "/").concat(step)
}

/// What a command says that declined.
pub fn declined(task_id: &str, reason: &str) -> (r: String)
    ensures
        r@ == task_id@ + ": "@ + reason@,
{
    cat3(task_id, ": ", reason)
}

/// Where a task is now: its step, or its status.
pub open spec fn where_now(t: TaskModel) -> Seq<char> {
    match (t.pipeline, t.step) {
        (Some(p), Some(s)) => p + "/"@ + s,
        _ => t.status.word(),
    }
}

/// What `shep signal` says.
pub fn signalled(task: &Task, name: &str, conclusion: Conclusion, check_id: &str) -> (r: String)
    ensures
        r@ == task@.id + " "@ + conclusion.word() + " on signal "@ + name@ + " as "@ + check_id@
            + " ("@ + where_now(task@) + ")"@,
{
    let at: String = match (&task.pipeline, &task.step) {
        (Some(p), Some(s)) => cat3(p, "/", s),
        _ => copy(task.status.as_str()),
    };
    let mut line: String = copy(&task.id);
    line.append(" ");
    line.append(conclusion.as_str());
    line.append(" on signal ");
    line.append(name);
    line.append(" as ");
    line.append(check_id);
    line.append(" (");
    line.append(&at);
    line.append(")");
    line
}

/// What `shep signal` says where the check was written and the step had moved on: the
/// check is written either way, as it was true when the signal fired.
pub fn signal_declined(task_id: &str, check_id: &str, reason: &str) -> (r: String)
    ensures
        r@ == task_id@ + " recorded "@ + check_id@ + ": "@ + reason@,
{
    cat4(task_id, " recorded ", check_id, ": ").concat(reason)
}

/// What `shep forward` says.
pub fn forwarded(name: &Option<String>, seq_number: i64) -> (r: String)
    ensures
        r@ == "forwarded "@ + (match name {
            Some(n) => n@,
            None => "?"@,
        }) + " as raw_event "@ + int_text(seq_number as int),
{
    let name: &str = match name {
        Some(n) => n.as_str(),
        None => "?",
    };
    cat4("forwarded ", name, " as raw_event ", &integer(seq_number))
}

} // verus!
