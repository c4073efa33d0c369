//! Recovery after a supervisor died mid-step.

use super::flow::finished;
use super::lifecycle::{standing, with_standing};
use super::step::{position, ReportModel, StepAt, StepAtModel};
use super::transition::{outcome_of, Decision, DecisionModel};
use crate::config::Policy;
use crate::db::event::{empty_payload, names, with, EventModel, Field, FieldModel, NewEvent};
use crate::db::task::{PatchModel, Status, Task, TaskModel, TaskPatch};
use crate::outcome::Outcome;
use crate::text::{copy, push_deep};
use vstd::prelude::*;

verus! {

/// A running task, with what says whether it waits: its policy, where that loads,
/// and whether a pane is bound to it.
#[derive(Debug)]
pub struct Candidate<'a> {
    pub task: &'a Task,
    pub policy: Option<&'a Policy>,
    pub has_pane: bool,
}

/// Does a running task wait on something outside the supervisor? Its step's `await`
/// is the witness; the pane is, where the policy will not load.
pub open spec fn deferred(t: TaskModel, policy: Option<&Policy>, has_pane: bool) -> bool {
    match position(t) {
        Some(at) => match policy {
            Some(p) => p.awaited(at.pipeline, at.step) is Some,
            None => has_pane,
        },
        None => false,
    }
}

/// Is this running task waiting on something outside the supervisor (an agent, or a
/// signal) rather than on a step script that died with it?
pub fn is_deferred(task: &Task, policy: Option<&Policy>, has_pane: bool) -> (r: bool)
    ensures
        r == deferred(task@, policy, has_pane),
{
    match StepAt::of(task) {
        Some(at) => match policy {
            Some(p) => p.step_await(&at.pipeline, &at.step).is_some(),
            None => has_pane,
        },
        None => false,
    }
}

/// The decision to queue a step again that was in flight when the supervisor died.
pub open spec fn requeued(t: TaskModel) -> DecisionModel {
    if t.status != Status::Running {
        DecisionModel::Bail("no longer running"@)
    } else {
        DecisionModel::of(
            PatchModel { status: Some(Status::Queued), ..PatchModel::nothing() },
        ).and(
            EventModel::of(names::TASK_RESUMED@).saying(
                seq![
                    (
                        "reason"@,
                        FieldModel::Text(Some("orphaned by a supervisor that stopped mid-step"@)),
                    ),
                ] + standing(t),
            ),
        )
    }
}

pub fn requeue(task: &Task) -> (r: Decision)
    ensures
        r@ == requeued(task@),
{
    if task.status != Status::Running {
        return Decision::bail(copy("no longer running"));
    }
    let p = with(
        empty_payload(),
        "reason",
        Field::Text(Some(copy("orphaned by a supervisor that stopped mid-step"))),
    );
    let p = with_standing(p, task);
    let d: Decision = Decision::apply(TaskPatch::new().status(Status::Queued)).with_event(
        NewEvent::new(names::TASK_RESUMED).payload(p),
    );
    assert(d@ =~= requeued(task@)) by {
        assert(p.deep_view() =~= requeued(task@)->events[0].payload->0);
    }
    d
}

/// The candidates that do not wait.
pub open spec fn orphaned<'a>() -> spec_fn(Candidate<'a>) -> bool {
    |c: Candidate| !deferred(c.task@, c.policy, c.has_pane)
}

pub open spec fn candidate_ids(cs: Seq<Candidate>) -> Seq<Seq<char>> {
    Seq::new(cs.len(), |i: int| cs[i].task@.id)
}

/// The tasks whose step was in flight when the supervisor died, and is to be queued
/// again.
///
/// A synchronous step died with the supervisor and has to be run again; a deferred
/// one is still out there and must be left alone. A task keeps its agent pane after
/// the step that opened it resolves, so the config is the better witness: what a step
/// is waiting for is exactly what its `await` says. The pane binding is the fallback
/// for a task whose policy will not load, since then nothing else can say.
pub fn recover_orphans(candidates: &Vec<Candidate>) -> (r: Vec<String>)
    ensures
        r.deep_view() == candidate_ids(candidates@.filter(orphaned())),
{
    broadcast use push_deep;

    let ghost all = candidates@;
    let ghost p = orphaned();
    let mut out: Vec<String> = Vec::new();
    proof {
        reveal(Seq::filter);
        assert(all.take(0).filter(p) =~= Seq::empty());
        assert(out.deep_view() =~= candidate_ids(all.take(0).filter(p)));
    }
    for i in 0..candidates.len()
        invariant
            all == candidates@,
            p == orphaned(),
            out.deep_view() == candidate_ids(all.take(i as int).filter(p)),
    {
        let c: &Candidate = &candidates[i];
        proof {
            reveal(Seq::filter);
            assert(all.take(i as int + 1).drop_last() =~= all.take(i as int));
            assert(all.take(i as int + 1).last() == all[i as int]);
        }
        if !is_deferred(c.task, c.policy, c.has_pane) {
            let ghost prev = out;
            let ghost kept = all.take(i as int).filter(p);
            out.push(copy(&c.task.id));
            assert(out.deep_view() =~= prev.deep_view().push(c.task@.id));
            assert(candidate_ids(kept.push(all[i as int])) =~= candidate_ids(kept).push(
                c.task@.id,
            ));
        }
    }
    assert(all.take(all.len() as int) =~= all);
    out
}

/// A running task waits exactly where the step it is at awaits a signal, whichever it is.
/// Where its policy does not load, a pane that is bound to it says so. One that is at no
/// step waits for nothing.
pub proof fn a_step_that_awaits_is_deferred(t: TaskModel, policy: Option<&Policy>, has_pane: bool)
    ensures
        t.pipeline is None || t.step is None ==> !deferred(t, policy, has_pane),
        t.pipeline is Some && t.step is Some && policy is Some ==> (deferred(t, policy, has_pane)
            <==> policy->0.awaited(t.pipeline->0, t.step->0) is Some),
        t.pipeline is Some && t.step is Some && policy is None ==> (deferred(t, policy, has_pane)
            <==> has_pane),
{
}

/// What recovery queues again, candidate by candidate: one more is queued behind the others
/// exactly where it does not wait.
pub proof fn each_candidate_counts_for_itself(cs: Seq<Candidate>, c: Candidate)
    ensures
        ({
            let before = candidate_ids(cs.filter(orphaned()));
            let after = candidate_ids(cs.push(c).filter(orphaned()));
            let waits = c.task@.pipeline is Some && c.task@.step is Some && match c.policy {
                Some(p) => p.awaited(c.task@.pipeline->0, c.task@.step->0) is Some,
                None => c.has_pane,
            };
            after == (if waits {
                before
            } else {
                before.push(c.task@.id)
            })
        }),
        candidate_ids(Seq::<Candidate>::empty().filter(orphaned())).len() == 0,
{
    reveal(Seq::filter);
    assert(cs.push(c).drop_last() =~= cs);
    let kept = cs.filter(orphaned());
    assert(candidate_ids(kept.push(c)) =~= candidate_ids(kept).push(c.task@.id));
}

/// A promise survives a supervisor: a task that its step's promise left running is not
/// among those to queue again, whatever signal it waits for.
pub proof fn a_promise_survives_the_supervisor(
    policy: &Policy,
    t: TaskModel,
    at: StepAtModel,
    report: ReportModel,
    now: i64,
    c: Candidate,
)
    requires
        t.status == Status::Running,
        t.pipeline == Some(at.pipeline),
        t.step == Some(at.step),
        t.round == at.round,
        report.outcome == Outcome::Started,
        policy.awaited(at.pipeline, at.step) is Some,
        c.policy == Some(policy),
        c.task@ == outcome_of(t, finished(*policy, t, at, report, now), now)->task,
    ensures
        c.task@.status == Status::Running,
        candidate_ids(seq![c].filter(orphaned())).len() == 0,
{
    each_candidate_counts_for_itself(Seq::empty(), c);
    assert(Seq::<Candidate>::empty().push(c) =~= seq![c]);
}

/// A step without a promise dies with its supervisor: a running task whose step awaits
/// nothing is queued again, also where a pane is bound to it.
pub proof fn a_step_without_a_promise_is_orphaned(policy: &Policy, c: Candidate)
    requires
        c.policy == Some(policy),
        c.task@.pipeline is Some && c.task@.step is Some,
        policy.awaited(c.task@.pipeline->0, c.task@.step->0) is None,
    ensures
        candidate_ids(seq![c].filter(orphaned())) == seq![c.task@.id],
{
    each_candidate_counts_for_itself(Seq::empty(), c);
    assert(Seq::<Candidate>::empty().push(c) =~= seq![c]);
    assert(candidate_ids(seq![c].filter(orphaned())) =~= seq![c.task@.id]);
}

/// A task that still runs is queued again where it is, at its round, and the record says
/// why and where. One that no longer runs is left alone.
pub proof fn an_orphan_is_queued_where_it_is(t: TaskModel, now: i64)
    ensures
        ({
            let after = outcome_of(t, requeued(t), now);
            &&& t.status != Status::Running ==> after is Bailed
            &&& t.status == Status::Running ==> {
                &&& after is Applied && after->previous == t
                &&& after->task == (TaskModel { status: Status::Queued, updated: now, ..t })
                &&& after->events.len() == 1
                &&& after->events[0].kind == "task.resumed"@
                &&& after->events[0].task_id == Some(t.id)
                &&& after->events[0].says("pipeline"@, FieldModel::Text(t.pipeline))
                &&& after->events[0].says("step"@, FieldModel::Text(t.step))
                &&& after->events[0].says("round"@, FieldModel::Number(Some(t.round)))
            }
        }),
{
    if t.status == Status::Running {
        let p = requeued(t)->events[0].payload->0;
        assert(p[1] == ("pipeline"@, FieldModel::Text(t.pipeline)));
        assert(p[2] == ("step"@, FieldModel::Text(t.step)));
        assert(p[3] == ("round"@, FieldModel::Number(Some(t.round))));
    }
}

} // verus!
