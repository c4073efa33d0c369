//! What holds of the engine as a whole.

use super::binding::{bound, Binding};
use super::checks::{awaits, signal_note, verdict_of};
use super::flow::{advanced, begun, finished, parked};
use super::itinerary::{
    a_pass_goes_to_the_next_place, a_task_starts_at_the_first_place,
    a_type_goes_through_each_place_once, answered, closer, every_answer_gets_closer_to_the_end,
    itinerary, stands,
};
use super::lifecycle::{
    cancelled, fresh, parked_from_outside, retried, run_by_hand, run_refusal,
};
use super::plan::{
    fails, leaves, moved, passes, passing_never_parks, plan_is_known, proceeds,
    starting_never_parks, starts, valid_pipeline, well_placed,
};
use super::recovery::requeued;
use super::resolve::{answer, awaits_agent, overdue};
use super::step::{position, resolution, ReportModel, StepAtModel};
use super::transition::{outcome_of, DecisionModel};
use crate::config::validate::is_valid;
use crate::config::Policy;
use crate::db::check::{latest, CheckModel, Conclusion};
use crate::db::task::{NewTask, Status, TaskModel};
use crate::outcome::Outcome;
use crate::table::first_index_found;
use crate::text::is_name;
use vstd::prelude::*;

verus! {

/// A task in a terminal status is moved by nothing: not by starting, finishing,
/// parking, retrying, running, cancelling, binding or recovering it.
pub proof fn terminal_tasks_never_move(
    policy: Policy,
    t: TaskModel,
    at: StepAtModel,
    report: ReportModel,
    binding: Binding,
    pipeline: Seq<char>,
    first: Seq<char>,
    reason: Seq<char>,
    now: i64,
)
    requires
        t.status.terminal(),
    ensures
        begun(policy, t) is Bail,
        finished(policy, t, at, report, now) is Bail,
        parked_from_outside(t, reason) is Bail,
        retried(t) is Bail,
        run_by_hand(t, pipeline, first) is Bail,
        cancelled(t, Some(reason)) is Bail,
        cancelled(t, None) is Bail,
        bound(t, binding) is Bail,
        requeued(t) is Bail,
{
}

/// A decision to change something records it.
pub open spec fn recorded(d: DecisionModel) -> bool {
    d is Apply ==> d->events.len() > 0
}

/// Every change of a task is written down with it.
pub proof fn every_change_is_recorded(
    policy: Policy,
    t: TaskModel,
    at: StepAtModel,
    report: ReportModel,
    binding: Binding,
    pipeline: Seq<char>,
    first: Seq<char>,
    reason: Seq<char>,
    now: i64,
)
    ensures
        recorded(begun(policy, t)),
        recorded(finished(policy, t, at, report, now)),
        recorded(parked_from_outside(t, reason)),
        recorded(retried(t)),
        recorded(run_by_hand(t, pipeline, first)),
        recorded(cancelled(t, Some(reason))),
        recorded(cancelled(t, None)),
        recorded(bound(t, binding)),
        recorded(requeued(t)),
{
}

/// A report about a step that the task is not at, or not running, changes nothing.
pub proof fn stale_reports_change_nothing(
    policy: Policy,
    t: TaskModel,
    at: StepAtModel,
    report: ReportModel,
    now: i64,
)
    requires
        t.status != Status::Running || position(t) != Some(at),
    ensures
        outcome_of(t, finished(policy, t, at, report, now), now) is Bailed,
{
}

/// Any answer to a step ends its wait. A promise keeps the task running where it is,
/// with the deadline its step has, or parks it where nothing would ever resolve it.
pub proof fn answers_end_the_wait(
    policy: Policy,
    t: TaskModel,
    at: StepAtModel,
    report: ReportModel,
    now: i64,
)
    requires
        t.status == Status::Running,
        position(t) == Some(at),
    ensures
        ({
            let after = outcome_of(t, finished(policy, t, at, report, now), now)->task;
            &&& report.outcome != Outcome::Started ==> after.await_deadline is None && after.status
                != Status::Running
            &&& report.outcome == Outcome::Started ==> position(after) == Some(at)
            &&& report.outcome == Outcome::Started && policy.awaited(at.pipeline, at.step) is Some
                ==> after.status == Status::Running && (after.await_deadline is Some
                <==> policy.wait_seconds(at.pipeline, at.step) is Some)
            &&& report.outcome == Outcome::Started && policy.awaited(at.pipeline, at.step) is None
                ==> after.status == Status::Parked
        }),
{
}

/// A step that waits for its agent is answered by the latest check about it: a pass moves
/// the task on, a fail sends it where its pipeline's rejections go. An agent that stops
/// without leaving one is no pass: the task parks, unless its step says what that means.
pub proof fn the_check_decides(
    policy: Policy,
    t: TaskModel,
    checks: Seq<CheckModel>,
    cause: Seq<char>,
    now: i64,
)
    requires
        awaits_agent(t, policy),
    ensures
        ({
            let at = position(t)->0;
            let said = answer(policy, at, checks, cause);
            let after = outcome_of(t, finished(policy, t, at, said, now), now)->task;
            match latest(checks, at.pipeline, at.step, at.round) {
                Some(c) => {
                    &&& said.outcome == verdict_of(c.conclusion)
                    &&& after == outcome_of(
                        t,
                        advanced(
                            if said.outcome == Outcome::Pass {
                                passes(policy, t)
                            } else {
                                fails(policy, t)
                            },
                        ).due(None),
                        now,
                    )->task
                },
                None => policy.missing(at.pipeline, at.step) is None ==> after.status
                    == Status::Parked,
            }
        }),
{
}

/// A signal that a step awaits is heard: the step gets its answer, which ends the wait.
pub proof fn an_awaited_signal_is_heard(
    policy: Policy,
    t: TaskModel,
    signal: Seq<char>,
    conclusion: Conclusion,
    note: Option<Seq<char>>,
    now: i64,
)
    requires
        awaits(policy, t, signal),
    ensures
        ({
            let said = ReportModel::said(
                verdict_of(conclusion),
                signal_note(signal, conclusion, note),
            );
            let after = outcome_of(t, finished(policy, t, position(t)->0, said, now), now);
            &&& after is Applied
            &&& after->task.await_deadline is None
            &&& after->task.status != Status::Running
        }),
{
}

/// A step that was in flight when the supervisor died is run again, where it was and at
/// the round it was at.
pub proof fn an_orphan_runs_again(policy: Policy, t: TaskModel, now: i64, later: i64)
    requires
        t.status == Status::Running,
        position(t) is Some,
    ensures
        ({
            let queued = outcome_of(t, requeued(t), now)->task;
            let running = outcome_of(queued, begun(policy, queued), later)->task;
            &&& queued.status == Status::Queued
            &&& running.status == Status::Running
            &&& position(running) == position(t)
        }),
{
}

/// A parked task is inert: nothing starts it, and `shep retry` queues it again at the
/// step it stopped on.
pub proof fn parking_is_undone_by_retry(
    policy: Policy,
    t: TaskModel,
    reason: Seq<char>,
    now: i64,
    later: i64,
)
    ensures
        ({
            let stopped = outcome_of(t, parked(reason), now)->task;
            let again = outcome_of(stopped, retried(stopped), later)->task;
            &&& stopped.status == Status::Parked
            &&& begun(policy, stopped) is Bail
            &&& again.status == Status::Queued
            &&& again.pipeline == t.pipeline && again.step == t.step && again.round == t.round
            &&& again.plan == t.plan
        }),
{
}

/// Under a valid config, a new task of a type starts: the first thing it does is to run
/// a script, at the first place of its plan, which goes through each place once.
pub proof fn a_new_task_starts(
    policy: Policy,
    new: NewTask,
    id: Seq<char>,
    now: i64,
    db: Seq<char>,
    pane: Option<Seq<char>>,
    home: Option<Seq<char>>,
)
    requires
        is_valid(policy),
        policy.type_called(new.kind@) is Some,
        new.plan.deep_view() == policy.type_called(new.kind@)->0.pipelines.deep_view(),
    ensures
        ({
            let t = fresh(new, id, now);
            let after = outcome_of(t, begun(policy, t), now)->task;
            &&& after.status == Status::Running
            &&& stands(policy, after)
            &&& itinerary(policy, after.plan).len() > 0
            &&& is_in(after, itinerary(policy, after.plan)[0])
            &&& resolution(policy, after, position(after)->0, db, pane, home) is Ok
        }),
{
    let t = fresh(new, id, now);
    a_type_goes_through_each_place_once(policy, new.kind@);
    starting_never_parks(policy, t);
    a_task_starts_at_the_first_place(policy, t);
    let after = outcome_of(t, begun(policy, t), now)->task;
    assert(proceeds(policy, t, starts(policy, t)));
    assert(well_placed(policy, moved(t, starts(policy, t))));
    still_placed(policy, moved(t, starts(policy, t)), after);
}

/// A place is kept where nothing about the place changes.
proof fn still_placed(policy: Policy, a: TaskModel, b: TaskModel)
    requires
        well_placed(policy, a),
        b.pipeline == a.pipeline,
        b.step == a.step,
        b.round == a.round,
        b.plan == a.plan,
    ensures
        well_placed(policy, b),
{
}

/// Under a valid config, a pass never strands a task that is at a place of its plan: it
/// is queued at a place of the plan, where starting it runs a script, or it comes to rest.
pub proof fn a_pass_moves_on(
    policy: Policy,
    t: TaskModel,
    at: StepAtModel,
    report: ReportModel,
    now: i64,
    db: Seq<char>,
    pane: Option<Seq<char>>,
    home: Option<Seq<char>>,
)
    requires
        is_valid(policy),
        well_placed(policy, t),
        t.status == Status::Running,
        position(t) == Some(at),
        report.outcome == Outcome::Pass,
    ensures
        ({
            let next = outcome_of(t, finished(policy, t, at, report, now), now)->task;
            ||| next.status == Status::Resting && next.pipeline is None && next.step is None
            ||| {
                let running = outcome_of(next, begun(policy, next), now)->task;
                &&& next.status == Status::Queued
                &&& well_placed(policy, next)
                &&& running.status == Status::Running
                &&& position(running) == position(next)
                &&& resolution(policy, running, position(running)->0, db, pane, home) is Ok
            }
        }),
{
    passing_never_parks(policy, t);
    let plan = passes(policy, t);
    let next = outcome_of(t, finished(policy, t, at, report, now), now)->task;
    if !(plan is Rest) {
        assert(proceeds(policy, t, plan));
        still_placed(policy, moved(t, plan), next);
    }
}

/// Is a task in this pipeline, at this step of it?
pub open spec fn is_in(t: TaskModel, place: (Seq<char>, Seq<char>)) -> bool {
    t.pipeline == Some(place.0) && t.step == Some(place.1)
}

/// A task runs the steps of its plan in their order: a pass at a place of the plan queues
/// it at the place after that one, and a pass at the last place brings it to rest.
pub proof fn a_task_goes_through_its_plan_in_order(
    policy: Policy,
    t: TaskModel,
    at: StepAtModel,
    report: ReportModel,
    now: i64,
    i: int,
)
    requires
        is_valid(policy),
        plan_is_known(policy, t.plan),
        itinerary(policy, t.plan).no_duplicates(),
        0 <= i < itinerary(policy, t.plan).len(),
        is_in(t, itinerary(policy, t.plan)[i]),
        t.status == Status::Running,
        position(t) == Some(at),
        report.outcome == Outcome::Pass,
    ensures
        ({
            let places = itinerary(policy, t.plan);
            let after = outcome_of(t, finished(policy, t, at, report, now), now)->task;
            &&& after.plan == t.plan
            &&& i + 1 < places.len() ==> after.status == Status::Queued && is_in(
                after,
                places[i + 1],
            )
            &&& i + 1 == places.len() ==> after.status == Status::Resting && position(
                after,
            ) is None
        }),
{
    a_pass_goes_to_the_next_place(policy, t, i);
}

/// A place, and how far it is from the end, are kept where nothing about the place changes.
proof fn still_stands(policy: Policy, t: TaskModel, a: TaskModel, b: TaskModel)
    requires
        stands(policy, a),
        closer(policy, t, a),
        b.pipeline == a.pipeline,
        b.step == a.step,
        b.round == a.round,
        b.plan == a.plan,
    ensures
        stands(policy, b),
        closer(policy, t, b),
{
}

/// A task ends: each pass, rejection or error that answers its step leaves it at rest, or
/// parked, or queued at a script of its plan that is closer to the end. There is no going
/// on for ever, since what it is closer by are counts that never go below nothing.
pub proof fn an_answered_task_is_closer_to_its_end(
    policy: Policy,
    t: TaskModel,
    at: StepAtModel,
    report: ReportModel,
    now: i64,
)
    requires
        is_valid(policy),
        stands(policy, t),
        t.status == Status::Running,
        position(t) == Some(at),
        report.outcome != Outcome::Started,
    ensures
        ({
            let after = outcome_of(t, finished(policy, t, at, report, now), now)->task;
            ||| after.status == Status::Resting
            ||| after.status == Status::Parked
            ||| after.status == Status::Queued && stands(policy, after) && closer(
                policy,
                t,
                after,
            )
        }),
{
    let pass = report.outcome == Outcome::Pass;
    let after = outcome_of(t, finished(policy, t, at, report, now), now)->task;
    every_answer_gets_closer_to_the_end(policy, t, pass);
    let next = answered(policy, t, pass);
    if report.outcome != Outcome::Error && next is Run {
        still_stands(policy, t, moved(t, next), after);
    }
}

/// Under a valid config, running a pipeline by hand puts a task at a place of its plan,
/// where the first step of the pipeline is a script. If the plan still goes through each
/// place once, the task goes on from there in order, and ends, as any other.
pub proof fn run_by_hand_finds_a_place(
    policy: Policy,
    t: TaskModel,
    pipeline: Seq<char>,
    now: i64,
)
    requires
        is_valid(policy),
        plan_is_known(policy, t.plan),
        !t.status.terminal(),
        run_refusal(policy, pipeline) is None,
        policy.script(policy.pipeline_called(pipeline)->0.steps@[0].label()) is Some,
    ensures
        ({
            let first = policy.pipeline_called(pipeline)->0.steps@[0].label();
            let after = outcome_of(t, run_by_hand(t, pipeline, first), now)->task;
            &&& after.status == Status::Queued
            &&& is_in(after, (pipeline, first))
            &&& well_placed(policy, after)
            &&& itinerary(policy, after.plan).no_duplicates() ==> stands(policy, after)
        }),
{
    let p = policy.pipeline_called(pipeline)->0;
    let first = p.steps@[0].label();
    let after = outcome_of(t, run_by_hand(t, pipeline, first), now)->task;
    valid_pipeline(policy, pipeline);
    assert(p.all_labels()[0] == first);
    if t.plan.contains(pipeline) {
        assert(after.plan == t.plan);
    } else {
        assert(after.plan == t.plan.push(pipeline));
        assert(after.plan[t.plan.len() as int] == pipeline);
        assert forall|i: int| 0 <= i < after.plan.len() implies policy.pipeline_called(
            #[trigger] after.plan[i],
        ) is Some by {
            if i < t.plan.len() {
                assert(after.plan[i] == t.plan[i]);
            }
        }
    }
}

/// A pipeline whose first step is no script is still run from that step by hand. Starting
/// the task there finds no script to run, which is an error.
pub proof fn run_by_hand_does_not_go_down(
    policy: Policy,
    t: TaskModel,
    pipeline: Seq<char>,
    now: i64,
    db: Seq<char>,
    pane: Option<Seq<char>>,
    home: Option<Seq<char>>,
)
    requires
        !t.status.terminal(),
        run_refusal(policy, pipeline) is None,
        policy.script(policy.pipeline_called(pipeline)->0.steps@[0].label()) is None,
    ensures
        ({
            let first = policy.pipeline_called(pipeline)->0.steps@[0].label();
            let after = outcome_of(t, run_by_hand(t, pipeline, first), now)->task;
            let running = outcome_of(after, begun(policy, after), now)->task;
            &&& after.status == Status::Queued
            &&& is_in(after, (pipeline, first))
            &&& running.status == Status::Running
            &&& is_in(running, (pipeline, first))
            &&& resolution(policy, running, position(running)->0, db, pane, home) is Err
        }),
{
}

/// A pipeline that is run by hand has somewhere to return to: where the plan did not have
/// it, its pass brings the task to rest again.
pub proof fn run_by_hand_returns(policy: Policy, t: TaskModel, pipeline: Seq<char>, now: i64)
    requires
        !t.status.terminal(),
        run_refusal(policy, pipeline) is None,
        !t.plan.contains(pipeline),
    ensures
        ({
            let first = policy.pipeline_called(pipeline)->0.steps@[0].label();
            let after = outcome_of(t, run_by_hand(t, pipeline, first), now)->task;
            &&& after.plan == t.plan.push(pipeline)
            &&& position(after) == Some(StepAtModel { pipeline, step: first, round: 0 })
            &&& leaves(policy, after, pipeline) is Rest
        }),
{
    let first = policy.pipeline_called(pipeline)->0.steps@[0].label();
    let after = outcome_of(t, run_by_hand(t, pipeline, first), now)->task;
    let n = t.plan.len() as int;
    assert forall|j: int| 0 <= j < n implies !is_name(pipeline)(#[trigger] after.plan[j]) by {
        assert(after.plan[j] == t.plan[j]);
        assert(t.plan.contains(t.plan[j]));
    }
    first_index_found(after.plan, is_name(pipeline), n);
}

/// A step that has only just begun is not overdue, whatever the task waited for before.
pub proof fn a_begun_step_is_not_overdue(policy: Policy, t: TaskModel, now: i64, later: i64)
    requires
        t.status == Status::Queued,
    ensures
        ({
            let after = outcome_of(t, begun(policy, t), now)->task;
            &&& after.status == Status::Running ==> after.await_deadline is None
            &&& !overdue(after, policy, later)
        }),
{
}

} // verus!
