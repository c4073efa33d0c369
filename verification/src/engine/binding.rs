//! Binding a Herdr pane to a task.

use super::transition::{outcome_of, Decision, DecisionModel};
use crate::db::event::{empty_payload, names, with, EventModel, Field, FieldModel, NewEvent};
use crate::db::task::{PatchModel, Status, Task, TaskModel, TaskPatch};
use crate::text::{cat3, copy, copy_opt};
use vstd::prelude::*;

verus! {

/// Where a task's work is happening. Everything but the pane is optional, because
/// absent means "leave what is there": re-binding a pane for a second round must not
/// erase the worktree the first round created.
#[derive(Debug)]
pub struct Binding {
    pub pane: String,
    pub workspace: Option<String>,
    pub worktree: Option<String>,
    pub branch: Option<String>,
    pub base: Option<String>,
}

impl Binding {
    /// A binding that says nothing but the pane.
    pub fn to(pane: String) -> (r: Binding)
        ensures
            r.pane@ == pane@,
            r.workspace is None,
            r.worktree is None,
            r.branch is None,
            r.base is None,
    {
        Binding { pane, workspace: None, worktree: None, branch: None, base: None }
    }
}

/// A column to set where there is a value, and to leave alone where there is none.
pub open spec fn given(value: Option<Seq<char>>) -> Option<Option<Seq<char>>> {
    match value {
        Some(v) => Some(Some(v)),
        None => None,
    }
}

/// The decision to bind a pane.
pub open spec fn bound(t: TaskModel, b: Binding) -> DecisionModel {
    if t.status.terminal() {
        DecisionModel::Bail(
            "task is "@ + t.status.word() + " — nothing should be starting work for it"@,
        )
    } else {
        DecisionModel::of(
            PatchModel {
                workspace_id: given(b.workspace.deep_view()),
                worktree: given(b.worktree.deep_view()),
                branch: given(b.branch.deep_view()),
                base: given(b.base.deep_view()),
                ..PatchModel::nothing()
            },
        ).and(
            EventModel::of(names::TASK_PANE_BOUND@).about(t.id).saying(
                seq![
                    ("pane"@, FieldModel::Text(Some(b.pane@))),
                    ("workspace"@, FieldModel::Text(b.workspace.deep_view())),
                    ("worktree"@, FieldModel::Text(b.worktree.deep_view())),
                    ("branch"@, FieldModel::Text(b.branch.deep_view())),
                    ("base"@, FieldModel::Text(b.base.deep_view())),
                ],
            ),
        )
    }
}

/// `shep bind-pane`: bind a pane to a task, with the worktree it works in. Where the
/// decision is to apply, the pane is bound in the same transaction.
///
/// A task that thinks it has a worktree but has no pane bound is a state nothing
/// recovers from, and the pane binding is what makes a Herdr event attributable at
/// all, so the two must not be separable.
pub fn bind_pane(task: &Task, binding: &Binding) -> (r: Decision)
    ensures
        r@ == bound(task@, *binding),
{
    if task.status.is_terminal() {
        return Decision::bail(
            cat3(
                "task is ",
                task.status.as_str(),
                " — nothing should be starting work for it",
            ),
        );
    }
    let mut patch: TaskPatch = TaskPatch::new();
    if binding.workspace.is_some() {
        patch = patch.workspace_id(copy_opt(&binding.workspace));
    }
    if binding.worktree.is_some() {
        patch = patch.worktree(copy_opt(&binding.worktree));
    }
    if binding.branch.is_some() {
        patch = patch.branch(copy_opt(&binding.branch));
    }
    if binding.base.is_some() {
        patch = patch.base(copy_opt(&binding.base));
    }
    let p = with(empty_payload(), "pane", Field::Text(Some(copy(&binding.pane))));
    let p = with(p, "workspace", Field::Text(copy_opt(&binding.workspace)));
    let p = with(p, "worktree", Field::Text(copy_opt(&binding.worktree)));
    let p = with(p, "branch", Field::Text(copy_opt(&binding.branch)));
    let p = with(p, "base", Field::Text(copy_opt(&binding.base)));
    let d: Decision = Decision::apply(patch).with_event(
        NewEvent::for_task(names::TASK_PANE_BOUND, &task.id).payload(p),
    );
    assert(d@ =~= bound(task@, *binding)) by {
        assert(p.deep_view() =~= bound(task@, *binding)->events[0].payload->0);
    }
    d
}

/// What a binding says nothing about stays as it was.
pub proof fn binding_erases_nothing(t: TaskModel, b: Binding)
    requires
        !t.status.terminal(),
    ensures
        ({
            let after = bound(t, b)->patch.applied_to(t);
            &&& b.workspace is None ==> after.workspace_id == t.workspace_id
            &&& b.worktree is None ==> after.worktree == t.worktree
            &&& b.branch is None ==> after.branch == t.branch
            &&& b.base is None ==> after.base == t.base
            &&& after.status == t.status && after.pipeline == t.pipeline && after.step == t.step
            &&& after.round == t.round && after.plan == t.plan
        }),
{
}

/// A task that is finished or cancelled is bound to nothing. Any other gets what the binding
/// says, and keeps all else, where it is and how it stands included. The pane is on record
/// with all that was said.
pub proof fn binding_sets_what_it_says(t: TaskModel, b: Binding, now: i64)
    ensures
        ({
            let after = outcome_of(t, bound(t, b), now);
            let open = t.status != Status::Finished && t.status != Status::Cancelled;
            &&& !open ==> after is Bailed
            &&& open ==> {
                &&& after is Applied && after->previous == t
                &&& after->task.workspace_id == (if b.workspace is Some {
                    Some(b.workspace->0@)
                } else {
                    t.workspace_id
                })
                &&& after->task.worktree == (if b.worktree is Some {
                    Some(b.worktree->0@)
                } else {
                    t.worktree
                })
                &&& after->task.branch == (if b.branch is Some {
                    Some(b.branch->0@)
                } else {
                    t.branch
                })
                &&& after->task.base == (if b.base is Some {
                    Some(b.base->0@)
                } else {
                    t.base
                })
                &&& after->task == (TaskModel {
                    workspace_id: after->task.workspace_id,
                    worktree: after->task.worktree,
                    branch: after->task.branch,
                    base: after->task.base,
                    updated: now,
                    ..t
                })
                &&& after->events.len() == 1
                &&& after->events[0].kind == "task.pane_bound"@
                &&& after->events[0].task_id == Some(t.id)
                &&& after->events[0].says("pane"@, FieldModel::Text(Some(b.pane@)))
                &&& after->events[0].says("workspace"@, FieldModel::Text(b.workspace.deep_view()))
                &&& after->events[0].says("worktree"@, FieldModel::Text(b.worktree.deep_view()))
                &&& after->events[0].says("branch"@, FieldModel::Text(b.branch.deep_view()))
                &&& after->events[0].says("base"@, FieldModel::Text(b.base.deep_view()))
            }
        }),
{
    let d = bound(t, b);
    if d is Apply {
        let p = d->events[0].payload->0;
        assert(p[0] == ("pane"@, FieldModel::Text(Some(b.pane@))));
        assert(p[1] == ("workspace"@, FieldModel::Text(b.workspace.deep_view())));
        assert(p[2] == ("worktree"@, FieldModel::Text(b.worktree.deep_view())));
        assert(p[3] == ("branch"@, FieldModel::Text(b.branch.deep_view())));
        assert(p[4] == ("base"@, FieldModel::Text(b.base.deep_view())));
    }
}

} // verus!
