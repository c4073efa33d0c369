//! A task's lifecycle from the outside: create, park, retry, re-run, cancel.
//!
//! These are the verbs the CLI exposes. Each one is a single transition (or a
//! single transaction), so a command either happened entirely or not at all.

use super::flow::{park, parked};
use super::transition::{outcome_of, Decision, DecisionModel};
use crate::config::{Pipeline, Policy};
use crate::db::event::{
    empty_payload, names, with, EventModel, Field, FieldModel, NewEvent, Payload,
};
use crate::db::task::{NewTask, PatchModel, Status, Task, TaskModel, TaskPatch};
use crate::error::{Error, ErrorModel};
use crate::text::{
    cat2, cat3, copy, copy_list, copy_opt, holds, push_deep, quote, quoted,
};
use vstd::prelude::*;

verus! {

/// A task as it is created.
pub open spec fn fresh(new: NewTask, id: Seq<char>, now: i64) -> TaskModel {
    TaskModel {
        id,
        brief: new.brief@,
        kind: new.kind@,
        pipeline: None,
        step: None,
        round: 0,
        status: Status::Queued,
        plan: new.plan.deep_view(),
        await_deadline: None,
        repo: new.repo@,
        worktree: None,
        branch: None,
        base: None,
        workspace_id: None,
        created: now,
        updated: now,
    }
}

/// The record that a task was created.
pub open spec fn created_event(t: TaskModel) -> EventModel {
    EventModel::of(names::TASK_CREATED@).about(t.id).saying(
        seq![
            ("type"@, FieldModel::Text(Some(t.kind))),
            ("repo"@, FieldModel::Text(Some(t.repo))),
            ("brief"@, FieldModel::Text(Some(t.brief))),
        ],
    )
}

/// Create a task: the row to insert and the event to write with it, in one
/// transaction, under the id allocated there. State and event commit together,
/// always.
pub fn create_task(new: &NewTask, id: String, now: i64) -> (r: (Task, NewEvent))
    ensures
        r.0@ == fresh(*new, id@, now),
        r.1@ == created_event(r.0@),
{
    let task: Task = Task {
        id,
        brief: copy(&new.brief),
        kind: copy(&new.kind),
        pipeline: None,
        step: None,
        round: 0,
        status: Status::Queued,
        plan: copy_list(&new.plan),
        await_deadline: None,
        repo: copy(&new.repo),
        worktree: None,
        branch: None,
        base: None,
        workspace_id: None,
        created: now,
        updated: now,
    };
    let p = with(empty_payload(), "type", Field::Text(Some(copy(&task.kind))));
    let p = with(p, "repo", Field::Text(Some(copy(&task.repo))));
    let p = with(p, "brief", Field::Text(Some(copy(&task.brief))));
    let event: NewEvent = NewEvent::for_task(names::TASK_CREATED, &task.id).payload(p);
    assert(event@ =~= created_event(task@)) by {
        assert(p.deep_view() =~= created_event(task@).payload->0);
    }
    (task, event)
}

/// The decision to park a task from outside a step.
pub open spec fn parked_from_outside(t: TaskModel, reason: Seq<char>) -> DecisionModel {
    if t.status == Status::Parked || t.status.terminal() {
        DecisionModel::Bail("already "@ + t.status.word())
    } else {
        parked(reason)
    }
}

/// Park a task from outside a step: a policy that will not load, or anything else
/// the engine cannot decide its way past.
pub fn park_task(task: &Task, reason: &str) -> (r: Decision)
    ensures
        r@ == parked_from_outside(task@, reason@),
{
    if task.status == Status::Parked || task.status.is_terminal() {
        return Decision::bail(cat2("already ", task.status.as_str()));
    }
    park(copy(reason))
}

/// Where a task is, as an event tells it.
pub open spec fn standing(t: TaskModel) -> Seq<(Seq<char>, FieldModel)> {
    seq![
        ("pipeline"@, FieldModel::Text(t.pipeline)),
        ("step"@, FieldModel::Text(t.step)),
        ("round"@, FieldModel::Number(Some(t.round))),
    ]
}

pub(super) fn with_standing(payload: Payload, task: &Task) -> (r: Payload)
    ensures
        r.deep_view() == payload.deep_view() + standing(task@),
{
    let p = with(payload, "pipeline", Field::Text(copy_opt(&task.pipeline)));
    let p = with(p, "step", Field::Text(copy_opt(&task.step)));
    let p = with(p, "round", Field::Number(Some(task.round)));
    assert(p.deep_view() =~= payload.deep_view() + standing(task@));
    p
}

/// The decision to queue a parked task again.
pub open spec fn retried(t: TaskModel) -> DecisionModel {
    if t.status != Status::Parked {
        DecisionModel::Bail(
            "only a parked task can be retried, and this one is "@ + t.status.word(),
        )
    } else {
        DecisionModel::of(
            PatchModel { status: Some(Status::Queued), ..PatchModel::nothing() },
        ).and(EventModel::of(names::TASK_RESUMED@).saying(standing(t)))
    }
}

/// Re-queue a parked task so the supervisor picks it up again, retrying the step it
/// stopped on.
pub fn retry(task: &Task) -> (r: Decision)
    ensures
        r@ == retried(task@),
{
    if task.status != Status::Parked {
        return Decision::bail(
            cat2("only a parked task can be retried, and this one is ", task.status.as_str()),
        );
    }
    let p = with_standing(empty_payload(), task);
    assert(p.deep_view() =~= standing(task@));
    Decision::apply(TaskPatch::new().status(Status::Queued)).with_event(
        NewEvent::new(names::TASK_RESUMED).payload(p),
    )
}

/// A plan that runs a pipeline: it is put at the end where it is not there.
pub open spec fn plan_with(plan: Seq<Seq<char>>, pipeline: Seq<char>) -> Seq<Seq<char>> {
    if plan.contains(pipeline) {
        plan
    } else {
        plan.push(pipeline)
    }
}

/// Why a pipeline cannot be run by hand, where it cannot. It need not be one that the
/// task's type or plan has: a task at rest can be sent through any.
pub open spec fn run_refusal(policy: Policy, pipeline: Seq<char>) -> Option<Seq<char>> {
    match policy.pipeline_called(pipeline) {
        None => Some("unknown pipeline "@ + quoted(pipeline)),
        Some(p) => if p.steps@.len() == 0 {
            Some("pipeline "@ + quoted(pipeline) + " has no steps"@)
        } else {
            None
        },
    }
}

/// The decision to put a task at the top of a pipeline.
pub open spec fn run_by_hand(t: TaskModel, pipeline: Seq<char>, first: Seq<char>) -> DecisionModel {
    if t.status.terminal() {
        DecisionModel::Bail("already "@ + t.status.word() + " — create a new task instead"@)
    } else {
        DecisionModel::of(
            PatchModel {
                status: Some(Status::Queued),
                pipeline: Some(Some(pipeline)),
                step: Some(Some(first)),
                round: Some(0i64),
                plan: Some(plan_with(t.plan, pipeline)),
                await_deadline: Some(None),
                ..PatchModel::nothing()
            },
        ).and(
            EventModel::of(names::TASK_RESUMED@).saying(
                seq![
                    ("reason"@, FieldModel::Text(Some("run by hand"@))),
                    ("pipeline"@, FieldModel::Text(Some(pipeline))),
                    ("step"@, FieldModel::Text(Some(first))),
                    (
                        "was"@,
                        FieldModel::Place { pipeline: t.pipeline, step: t.step, round: t.round },
                    ),
                ],
            ),
        )
    }
}

fn extended(plan: &Vec<String>, pipeline: &str) -> (r: Vec<String>)
    ensures
        r.deep_view() == plan_with(plan.deep_view(), pipeline@),
{
    broadcast use push_deep;

    let mut out: Vec<String> = copy_list(plan);
    if !holds(plan, pipeline) {
        let ghost prev = out;
        out.push(copy(pipeline));
        assert(out.deep_view() =~= prev.deep_view().push(pipeline@));
    }
    out
}

/// `shep run <pipeline>`: put a task at the top of a pipeline, out of band.
///
/// For the handoff you are in the middle of: read the diff, decide the review should
/// run again, and send it back yourself. Or for the task at rest: apply the next
/// pipeline, whether its type names it or not. The plan is extended by what it does not
/// have, so where the task goes afterwards is ordinary: the pipeline passes and the plan
/// carries on from there.
pub fn run_pipeline(policy: &Policy, task: &Task, pipeline: &str) -> (r: Result<Decision, Error>)
    ensures
        match run_refusal(*policy, pipeline@) {
            Some(why) => r matches Err(e) && e@ == ErrorModel::Other(why),
            None => r matches Ok(d) && d@ == run_by_hand(
                task@,
                pipeline@,
                policy.pipeline_called(pipeline@)->0.steps@[0].label(),
            ),
        },
{
    let p: &Pipeline = match policy.pipeline(pipeline) {
        Ok(p) => p,
        Err(e) => {
            return Err(e);
        },
    };
    if p.steps.len() == 0 {
        return Err(Error::Other(cat3("pipeline ", &quote(pipeline), " has no steps")));
    }
    let first: String = copy(p.steps[0].name());
    if task.status.is_terminal() {
        return Ok(
            Decision::bail(
                cat3("already ", task.status.as_str(), " — create a new task instead"),
            ),
        );
    }
    let patch: TaskPatch = TaskPatch::new().status(Status::Queued).pipeline(
        Some(copy(pipeline)),
    ).step(Some(copy(&first))).round(0).plan(extended(&task.plan, pipeline)).await_deadline(None);
    let payload = with(empty_payload(), "reason", Field::Text(Some(copy("run by hand"))));
    let payload = with(payload, "pipeline", Field::Text(Some(copy(pipeline))));
    let payload = with(payload, "step", Field::Text(Some(copy(&first))));
    let payload = with(
        payload,
        "was",
        Field::Place {
            pipeline: copy_opt(&task.pipeline),
            step: copy_opt(&task.step),
            round: task.round,
        },
    );
    let d: Decision = Decision::apply(patch).with_event(
        NewEvent::new(names::TASK_RESUMED).payload(payload),
    );
    assert(d@ =~= run_by_hand(task@, pipeline@, first@)) by {
        assert(payload.deep_view() =~= run_by_hand(
            task@,
            pipeline@,
            first@,
        )->events[0].payload->0);
    }
    Ok(d)
}

/// The decision to stop a task for good.
pub open spec fn cancelled(t: TaskModel, reason: Option<Seq<char>>) -> DecisionModel {
    if t.status.terminal() {
        DecisionModel::Bail("already "@ + t.status.word())
    } else {
        DecisionModel::of(
            PatchModel { status: Some(Status::Cancelled), ..PatchModel::nothing() },
        ).and(
            EventModel::of(names::TASK_CANCELLED@).saying(
                seq![
                    ("reason"@, FieldModel::Text(reason)),
                    ("was"@, FieldModel::Text(Some(t.status.word()))),
                ],
            ),
        )
    }
}

/// Stop a task for good.
pub fn cancel(task: &Task, reason: Option<String>) -> (r: Decision)
    ensures
        r@ == cancelled(task@, reason.deep_view()),
{
    if task.status.is_terminal() {
        return Decision::bail(cat2("already ", task.status.as_str()));
    }
    let p = with(empty_payload(), "reason", Field::Text(reason));
    let p = with(p, "was", Field::Text(Some(copy(task.status.as_str()))));
    let d: Decision = Decision::apply(TaskPatch::new().status(Status::Cancelled)).with_event(
        NewEvent::new(names::TASK_CANCELLED).payload(p),
    );
    assert(d@ =~= cancelled(task@, reason.deep_view())) by {
        assert(p.deep_view() =~= cancelled(task@, reason.deep_view())->events[0].payload->0);
    }
    d
}

// ---------------------------------------------------------------------------
// What the verbs do to a row
// ---------------------------------------------------------------------------

/// A new task is queued at no step of its plan, at no round yet, and works nowhere but in
/// its repo. The record says what it is.
pub proof fn a_new_task_is_queued(new: NewTask, id: Seq<char>, now: i64)
    ensures
        ({
            let t = fresh(new, id, now);
            let e = created_event(t);
            &&& t.status == Status::Queued
            &&& t.pipeline is None && t.step is None && t.round == 0
            &&& t.plan == new.plan.deep_view()
            &&& t.await_deadline is None
            &&& t.worktree is None && t.branch is None && t.base is None && t.workspace_id is None
            &&& t.id == id && t.brief == new.brief@ && t.kind == new.kind@ && t.repo == new.repo@
            &&& t.created == now && t.updated == now
            &&& e.kind == "task.created"@ && e.task_id == Some(id)
            &&& e.says("type"@, FieldModel::Text(Some(new.kind@)))
            &&& e.says("repo"@, FieldModel::Text(Some(new.repo@)))
            &&& e.says("brief"@, FieldModel::Text(Some(new.brief@)))
        }),
{
    let p = created_event(fresh(new, id, now)).payload->0;
    assert(p[0] == ("type"@, FieldModel::Text(Some(new.kind@))));
    assert(p[1] == ("repo"@, FieldModel::Text(Some(new.repo@))));
    assert(p[2] == ("brief"@, FieldModel::Text(Some(new.brief@))));
}

/// A task that is finished or cancelled cannot be cancelled. Any other is, wherever it
/// stands: nothing else of it changes, and the reason and what it was are on record.
pub proof fn any_open_task_can_be_cancelled(t: TaskModel, reason: Option<Seq<char>>, now: i64)
    ensures
        ({
            let after = outcome_of(t, cancelled(t, reason), now);
            let open = t.status != Status::Finished && t.status != Status::Cancelled;
            &&& !open ==> after is Bailed
            &&& open ==> after is Applied && after->previous == t
            &&& open ==> after->task == (TaskModel { status: Status::Cancelled, updated: now, ..t })
            &&& open ==> after->events.len() == 1
            &&& open ==> after->events[0].kind == "task.cancelled"@
            &&& open ==> after->events[0].task_id == Some(t.id)
            &&& open ==> after->events[0].says("reason"@, FieldModel::Text(reason))
            &&& open ==> after->events[0].says("was"@, FieldModel::Text(Some(t.status.word())))
        }),
{
    let d = cancelled(t, reason);
    if d is Apply {
        let p = d->events[0].payload->0;
        assert(p[0] == ("reason"@, FieldModel::Text(reason)));
        assert(p[1] == ("was"@, FieldModel::Text(Some(t.status.word()))));
    }
}

/// A task that is parked, finished or cancelled cannot be parked. Any other is, where it
/// stands, with the reason on record.
pub proof fn any_open_task_can_be_parked(t: TaskModel, reason: Seq<char>, now: i64)
    ensures
        ({
            let after = outcome_of(t, parked_from_outside(t, reason), now);
            let open = t.status == Status::Queued || t.status == Status::Running || t.status
                == Status::Resting;
            &&& !open ==> after is Bailed
            &&& open ==> after is Applied && after->previous == t
            &&& open ==> after->task == (TaskModel { status: Status::Parked, updated: now, ..t })
            &&& open ==> after->events.len() == 1
            &&& open ==> after->events[0].kind == "task.parked"@
            &&& open ==> after->events[0].task_id == Some(t.id)
            &&& open ==> after->events[0].says("reason"@, FieldModel::Text(Some(reason)))
        }),
{
    let d = parked_from_outside(t, reason);
    if d is Apply {
        let p = d->events[0].payload->0;
        assert(p[0] == ("reason"@, FieldModel::Text(Some(reason))));
    }
}

/// A parked task can be retried, and no other: it is queued where it stopped, at the round
/// it stopped at.
pub proof fn only_a_parked_task_is_retried(t: TaskModel, now: i64)
    ensures
        ({
            let after = outcome_of(t, retried(t), now);
            &&& t.status != Status::Parked ==> after is Bailed
            &&& t.status == Status::Parked ==> {
                &&& after is Applied && after->previous == t
                &&& after->task == (TaskModel { status: Status::Queued, updated: now, ..t })
                &&& after->events.len() == 1
                &&& after->events[0].kind == "task.resumed"@
                &&& after->events[0].task_id == Some(t.id)
                &&& after->events[0].says("pipeline"@, FieldModel::Text(t.pipeline))
                &&& after->events[0].says("step"@, FieldModel::Text(t.step))
                &&& after->events[0].says("round"@, FieldModel::Number(Some(t.round)))
            }
        }),
{
    if t.status == Status::Parked {
        let p = retried(t)->events[0].payload->0;
        assert(p[0] == ("pipeline"@, FieldModel::Text(t.pipeline)));
        assert(p[1] == ("step"@, FieldModel::Text(t.step)));
        assert(p[2] == ("round"@, FieldModel::Number(Some(t.round))));
    }
}

/// Any pipeline that has a step can be run by hand on a task that is not finished or
/// cancelled, wherever it stands: it is queued at the first step, in the first round,
/// waiting for nothing. The plan gains the pipeline at its end where it did not have it.
pub proof fn any_open_task_can_be_sent_through(
    policy: Policy,
    t: TaskModel,
    pipeline: Seq<char>,
    first: Seq<char>,
    now: i64,
)
    ensures
        run_refusal(policy, pipeline) is None <==> policy.pipeline_called(pipeline) is Some
            && policy.pipeline_called(pipeline)->0.steps@.len() > 0,
        ({
            let after = outcome_of(t, run_by_hand(t, pipeline, first), now);
            let open = t.status != Status::Finished && t.status != Status::Cancelled;
            &&& !open ==> after is Bailed
            &&& open ==> {
                &&& after is Applied && after->previous == t
                &&& t.plan.contains(pipeline) ==> after->task.plan == t.plan
                &&& !t.plan.contains(pipeline) ==> after->task.plan == t.plan.push(pipeline)
                &&& after->task == (TaskModel {
                    status: Status::Queued,
                    pipeline: Some(pipeline),
                    step: Some(first),
                    round: 0,
                    plan: after->task.plan,
                    await_deadline: None,
                    updated: now,
                    ..t
                })
                &&& after->events.len() == 1
                &&& after->events[0].kind == "task.resumed"@
                &&& after->events[0].task_id == Some(t.id)
                &&& after->events[0].says("reason"@, FieldModel::Text(Some("run by hand"@)))
                &&& after->events[0].says("pipeline"@, FieldModel::Text(Some(pipeline)))
                &&& after->events[0].says("step"@, FieldModel::Text(Some(first)))
                &&& after->events[0].says(
                    "was"@,
                    FieldModel::Place { pipeline: t.pipeline, step: t.step, round: t.round },
                )
            }
        }),
{
    let d = run_by_hand(t, pipeline, first);
    if d is Apply {
        let p = d->events[0].payload->0;
        assert(p[0] == ("reason"@, FieldModel::Text(Some("run by hand"@))));
        assert(p[1] == ("pipeline"@, FieldModel::Text(Some(pipeline))));
        assert(p[2] == ("step"@, FieldModel::Text(Some(first))));
        assert(p[3] == (
            "was"@,
            FieldModel::Place { pipeline: t.pipeline, step: t.step, round: t.round },
        ));
    }
}

} // verus!
