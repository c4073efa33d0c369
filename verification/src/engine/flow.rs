//! The step flow: starting a task's next step and recording what it said.
//!
//! This is the core of the state machine. Everything else in the engine (lifecycle
//! commands, signals, recovery) funnels into [`begin_step`] and [`finish_step`].

use super::plan::{
    after_fail, after_pass, composition_ends, fails, passes, start, starts, Plan, PlanModel,
};
use super::step::{position, resolution, ReportModel, StepAt, StepAtModel, StepReport, StepSpec};
use super::transition::{outcome_of, Decision, DecisionModel};
use crate::config::Policy;
use crate::db::event::{empty_payload, names, with, EventModel, Field, FieldModel, NewEvent};
use crate::db::task::{PatchModel, Status, Task, TaskModel, TaskPatch};
use crate::error::Error;
use crate::outcome::Outcome;
use crate::text::{cat2, cat3, cat5, cat7, copy, copy_opt, int_text, integer, quote, quoted};
use vstd::prelude::*;
use vstd::string::*;

verus! {

/// What starting a task's next step turned out to mean.
#[derive(Debug)]
pub enum Started {
    /// A step is now in flight; run this and report back with [`finish_step`].
    Running(Box<StepSpec>),
    /// The task's plan is spent.
    Finished,
    /// The task is parked and will not move until `shep retry`.
    Parked { reason: String },
    /// The row moved before the lock was taken; someone else got there first.
    Bailed { reason: String },
}

// ---------------------------------------------------------------------------
// Parking and settling
// ---------------------------------------------------------------------------

/// The decision to park.
pub open spec fn parked(reason: Seq<char>) -> DecisionModel {
    DecisionModel::of(PatchModel { status: Some(Status::Parked), ..PatchModel::nothing() }).and(
        EventModel::of(names::TASK_PARKED@).saying(seq![("reason"@, FieldModel::Text(Some(reason)))]),
    )
}

/// Parking is the answer to everything the engine cannot decide. It is inert: the
/// task sits there until `shep retry`.
pub(super) fn park(reason: String) -> (r: Decision)
    ensures
        r@ == parked(reason@),
{
    let payload = with(empty_payload(), "reason", Field::Text(Some(reason)));
    let event: NewEvent = NewEvent::new(names::TASK_PARKED).payload(payload);
    let d: Decision = Decision::apply(TaskPatch::new().status(Status::Parked)).with_event(event);
    assert(d@ =~= parked(reason@)) by {
        assert(payload.deep_view() =~= seq![("reason"@, FieldModel::Text(Some(reason@)))]);
    }
    d
}

/// Where an event happened.
pub open spec fn place(pipeline: Seq<char>, step: Seq<char>, round: i64) -> Seq<
    (Seq<char>, FieldModel),
> {
    seq![
        ("pipeline"@, FieldModel::Text(Some(pipeline))),
        ("step"@, FieldModel::Text(Some(step))),
        ("round"@, FieldModel::Number(Some(round))),
    ]
}

fn place_payload(pipeline: &str, step: &str, round: i64) -> (r: crate::db::event::Payload)
    ensures
        r.deep_view() == place(pipeline@, step@, round),
{
    let p = with(empty_payload(), "pipeline", Field::Text(Some(copy(pipeline))));
    let p = with(p, "step", Field::Text(Some(copy(step))));
    let p = with(p, "round", Field::Number(Some(round)));
    assert(p.deep_view() =~= place(pipeline@, step@, round));
    p
}

/// A task moved to a step.
pub open spec fn moves_to(
    status: Status,
    pipeline: Seq<char>,
    step: Seq<char>,
    round: i64,
) -> PatchModel {
    PatchModel {
        status: Some(status),
        pipeline: Some(Some(pipeline)),
        step: Some(Some(step)),
        round: Some(round),
        ..PatchModel::nothing()
    }
}

/// The decision that starts a plan: a step is in flight, or the task settles.
pub open spec fn settled(plan: PlanModel) -> DecisionModel {
    match plan {
        // What is started waits for nothing yet, whatever the step before it did.
        PlanModel::Run { pipeline, step, round } => DecisionModel::of(
            PatchModel {
                await_deadline: Some(None),
                ..moves_to(Status::Running, pipeline, step, round)
            },
        ).and(EventModel::of(names::TASK_STEP_STARTED@).saying(place(pipeline, step, round))),
        PlanModel::Rest => DecisionModel::of(
            PatchModel {
                status: Some(Status::Resting),
                step: Some(None),
                pipeline: Some(None),
                ..PatchModel::nothing()
            },
        ).and(EventModel::of(names::TASK_FINISHED@)),
        PlanModel::Park { reason } => parked(reason),
    }
}

/// Turn a plan into the state change that starts it.
fn start_or_settle(plan: &Plan) -> (r: Decision)
    ensures
        r@ == settled(plan@),
{
    match plan {
        Plan::Run { pipeline, step, round } => {
            let patch: TaskPatch = TaskPatch::new().status(Status::Running).pipeline(
                Some(copy(pipeline)),
            ).step(Some(copy(step))).round(*round).await_deadline(None);
            let event: NewEvent = NewEvent::new(names::TASK_STEP_STARTED).payload(
                place_payload(pipeline, step, *round),
            );
            Decision::apply(patch).with_event(event)
        },
        Plan::Rest => Decision::apply(
            TaskPatch::new().status(Status::Resting).step(None).pipeline(None),
        ).with_event(NewEvent::new(names::TASK_FINISHED)),
        Plan::Park { reason } => park(copy(reason)),
    }
}

/// The decision that moves a task to where it goes next without starting it.
pub open spec fn advanced(plan: PlanModel) -> DecisionModel {
    match plan {
        PlanModel::Run { pipeline, step, round } => DecisionModel::of(
            moves_to(Status::Queued, pipeline, step, round),
        ),
        _ => settled(plan),
    }
}

/// Move a task to where it goes next without starting it.
///
/// The next step is left `queued`, and the next tick starts it. That keeps the two
/// statuses meaning one thing each (`queued` is "ready to run its next step",
/// `running` is "a step is in flight"), which is what makes orphan recovery
/// decidable. The cost is one poll interval between steps.
fn advance_to(plan: &Plan) -> (r: Decision)
    ensures
        r@ == advanced(plan@),
{
    match plan {
        Plan::Run { pipeline, step, round } => Decision::apply(
            TaskPatch::new().status(Status::Queued).pipeline(Some(copy(pipeline))).step(
                Some(copy(step)),
            ).round(*round),
        ),
        _ => start_or_settle(plan),
    }
}

// ---------------------------------------------------------------------------
// Beginning
// ---------------------------------------------------------------------------

/// What a queued task does: its recorded position *is* the next step, and planning
/// only happens where there is none yet.
pub open spec fn chosen(policy: Policy, t: TaskModel) -> PlanModel {
    match position(t) {
        Some(at) => PlanModel::Run { pipeline: at.pipeline, step: at.step, round: at.round },
        None => starts(policy, t),
    }
}

/// The decision to start a task's next step.
pub open spec fn begun(policy: Policy, t: TaskModel) -> DecisionModel {
    if t.status != Status::Queued {
        DecisionModel::Bail("not queued any more (it is "@ + t.status.word() + ")"@)
    } else {
        settled(chosen(policy, t))
    }
}

/// Start the next step of a queued task. Also returns the plan that was chosen, for
/// [`started`].
///
/// `queued` means "ready to run its next step" and `running` means "a step is in
/// flight right now". Keeping those apart is what makes recovery decidable.
pub fn begin_step(policy: &Policy, task: &Task) -> (r: (Decision, Option<Plan>))
    requires
        task.status == Status::Queued && position(task@) is None ==> composition_ends(*policy),
    ensures
        r.0@ == begun(*policy, task@),
        r.1 is Some <==> task.status == Status::Queued,
        r.1 is Some ==> r.1->0@ == chosen(*policy, task@),
{
    if task.status != Status::Queued {
        return (
            Decision::bail(cat3("not queued any more (it is ", task.status.as_str(), ")")),
            None,
        );
    }
    let plan: Plan = match StepAt::of(task) {
        Some(at) => Plan::Run { pipeline: at.pipeline, step: at.step, round: at.round },
        None => start(policy, task),
    };
    (start_or_settle(&plan), Some(plan))
}

/// What a plan that was started turned out to mean: what to run, that the plan is
/// spent, or why the task is parked. `task` is the row as it now stands.
pub fn started(
    policy: &Policy,
    task: &Task,
    plan: &Plan,
    db: &str,
    pane: Option<String>,
    home: &Option<String>,
) -> (r: Result<Started, Error>)
    ensures
        match plan@ {
            PlanModel::Run { pipeline, step, round } => match resolution(
                *policy,
                task@,
                (StepAtModel { pipeline, step, round }),
                db@,
                pane.deep_view(),
                home.deep_view(),
            ) {
                Ok(m) => r matches Ok(Started::Running(spec)) && spec@ == m,
                Err(m) => r matches Err(e) && e@ == m,
            },
            PlanModel::Rest => r matches Ok(Started::Finished),
            PlanModel::Park { reason } => r matches Ok(Started::Parked { reason: why }) && why@
                == reason,
        },
{
    match plan {
        Plan::Run { pipeline, step, round } => {
            match StepSpec::resolve(policy, task, pipeline, step, *round, db, pane, home) {
                Ok(spec) => Ok(Started::Running(Box::new(spec))),
                Err(e) => Err(e),
            }
        },
        Plan::Rest => Ok(Started::Finished),
        Plan::Park { reason } => Ok(Started::Parked { reason: copy(reason) }),
    }
}

// ---------------------------------------------------------------------------
// Finishing
// ---------------------------------------------------------------------------

/// An optional text, as Rust's `{:?}` writes it.
pub open spec fn quoted_opt(o: Option<Seq<char>>) -> Seq<char> {
    match o {
        Some(s) => "Some("@ + quoted(s) + ")"@,
        None => "None"@,
    }
}

fn quote_opt(o: &Option<String>) -> (r: String)
    ensures
        r@ == quoted_opt(o.deep_view()),
{
    match o {
        Some(s) => cat3("Some(", &quote(s), ")"),
        None => copy("None"),
    }
}

/// What is said to a report about a step that the task is not at any more.
pub open spec fn moved_on(t: TaskModel, at: StepAtModel) -> Seq<char> {
    "task moved on: it is "@ + t.status.word() + " at "@ + quoted_opt(t.pipeline) + "/"@
        + quoted_opt(t.step) + " round "@ + int_text(t.round as int) + ", not "@ + at.text()
}

/// When a wait that begins now must be over, where it has to be. A clock that
/// cannot hold the time stands at its end.
pub open spec fn deadline(now: i64, seconds: Option<i64>) -> Option<i64> {
    match seconds {
        Some(s) => Some(
            if now + s > i64::MAX {
                i64::MAX
            } else if now + s < i64::MIN {
                i64::MIN
            } else {
                (now + s) as i64
            },
        ),
        None => None,
    }
}

fn deadline_from(now: i64, seconds: Option<i64>) -> (r: Option<i64>)
    ensures
        r == deadline(now, seconds),
{
    match seconds {
        Some(s) => match now.checked_add(s) {
            Some(t) => Some(t),
            None => Some(
                if s > 0 {
                    i64::MAX
                } else {
                    i64::MIN
                },
            ),
        },
        None => None,
    }
}

/// The record that a step said something.
pub open spec fn finished_event(
    t: TaskModel,
    at: StepAtModel,
    report: ReportModel,
) -> EventModel {
    EventModel::of(names::TASK_STEP_FINISHED@).about(t.id).saying(
        place(at.pipeline, at.step, at.round).push(
            ("outcome"@, FieldModel::Text(Some(report.outcome.word()))),
        ).push(("note"@, FieldModel::Text(report.note))),
    )
}

/// The record that a step waits.
pub open spec fn awaiting_event(
    t: TaskModel,
    at: StepAtModel,
    signal: Seq<char>,
    report: ReportModel,
) -> EventModel {
    EventModel::of(names::TASK_STEP_AWAITING@).about(t.id).saying(
        place(at.pipeline, at.step, at.round).push(
            ("await"@, FieldModel::Text(Some(signal))),
        ).push(("pane"@, FieldModel::Text(report.pane))),
    )
}

/// Where what a step said moves the task.
pub open spec fn consequence(
    policy: Policy,
    t: TaskModel,
    at: StepAtModel,
    report: ReportModel,
    now: i64,
) -> DecisionModel {
    match report.outcome {
        Outcome::Pass => advanced(passes(policy, t)).due(None),
        Outcome::Error => parked(
            "step "@ + at.step + " errored: "@ + match report.note {
                Some(note) => note,
                None => "no reason given"@,
            },
        ).due(None),
        // A rejection is a verdict, not a failure: where it goes is the pipeline's
        // `on_fail`, bounded by its `max_rounds`.
        Outcome::Reject => advanced(fails(policy, t)).due(None),
        // A promise, not an answer. What resolves it is the step's await.
        Outcome::Started => match policy.awaited(at.pipeline, at.step) {
            Some(signal) => DecisionModel::of(
                PatchModel {
                    await_deadline: Some(
                        deadline(now, policy.wait_seconds(at.pipeline, at.step)),
                    ),
                    ..PatchModel::nothing()
                },
            ).and(awaiting_event(t, at, signal, report)),
            None => parked(
                "step "@ + at.step + " returned \"started\", but pipeline "@ + at.pipeline
                    + " has no await, so nothing would ever resolve it"@,
            ),
        },
    }
}

/// Is a task running a step, at that round?
pub open spec fn is_at(t: TaskModel, at: StepAtModel) -> bool {
    t.status == Status::Running && position(t) == Some(at)
}

/// The decision about what a step said.
pub open spec fn finished(
    policy: Policy,
    t: TaskModel,
    at: StepAtModel,
    report: ReportModel,
    now: i64,
) -> DecisionModel {
    if !is_at(t, at) {
        DecisionModel::Bail(moved_on(t, at))
    } else {
        consequence(policy, t, at, report, now).after(finished_event(t, at, report))
    }
}

/// Record what a step said, and move the task accordingly.
///
/// One transaction: the step finishing and whatever it leads to commit together, so
/// there is never an event for a change that didn't persist. Any answer to a step
/// ends its wait; only a promise begins one.
pub fn finish_step(
    policy: &Policy,
    task: &Task,
    at: &StepAt,
    report: &StepReport,
    now: i64,
) -> (r: Decision)
    requires
        is_at(task@, at@) ==> composition_ends(*policy),
        is_at(task@, at@) && report.outcome == Outcome::Reject ==> task.round < i64::MAX,
    ensures
        r@ == finished(*policy, task@, at@, report@, now),
{
    // The guard: this is a report on a specific step of a specific round. If any of
    // that has moved, the report is stale.
    let here: bool = match StepAt::of(task) {
        Some(current) => current.same_as(at),
        None => false,
    };
    if task.status != Status::Running || !here {
        let head: String = cat7(
            "task moved on: it is ",
            task.status.as_str(),
            " at ",
            &quote_opt(&task.pipeline),
            "/",
            &quote_opt(&task.step),
            " round ",
        );
        return Decision::bail(
            head.concat(&integer(task.round)).concat(", not ").concat(&at.text()),
        );
    }
    let payload = with(
        with(
            place_payload(&at.pipeline, &at.step, at.round),
            "outcome",
            Field::Text(Some(copy(report.outcome.as_str()))),
        ),
        "note",
        Field::Text(copy_opt(&report.note)),
    );
    let event: NewEvent = NewEvent::for_task(names::TASK_STEP_FINISHED, &task.id).payload(payload);
    let decision: Decision = match report.outcome {
        Outcome::Pass => advance_to(&after_pass(policy, task)).due(None),
        Outcome::Error => {
            let note: &str = match &report.note {
                Some(note) => note.as_str(),
                None => "no reason given",
            };
            park(cat2(&cat3("step ", &at.step, " errored: "), note)).due(None)
        },
        Outcome::Reject => advance_to(&after_fail(policy, task)).due(None),
        Outcome::Started => match policy.step_await(&at.pipeline, &at.step) {
            Some(signal) => {
                let seconds: Option<i64> = policy.step_timeout_secs(&at.pipeline, &at.step);
                let payload = with(
                    with(
                        place_payload(&at.pipeline, &at.step, at.round),
                        "await",
                        Field::Text(Some(copy(signal))),
                    ),
                    "pane",
                    Field::Text(copy_opt(&report.pane)),
                );
                let awaiting: NewEvent = NewEvent::for_task(
                    names::TASK_STEP_AWAITING,
                    &task.id,
                ).payload(payload);
                Decision::apply(
                    TaskPatch::new().await_deadline(deadline_from(now, seconds)),
                ).with_event(awaiting)
            },
            None => park(
                cat5(
                    "step ",
                    &at.step,
                    " returned \"started\", but pipeline ",
                    &at.pipeline,
                    " has no await, so nothing would ever resolve it",
                ),
            ),
        },
    };
    decision.preceded_by(event)
}

// ---------------------------------------------------------------------------
// What starting and finishing do to a row
// ---------------------------------------------------------------------------

/// Is a row what another is after moving to where a plan says, in a status, with no wait?
pub open spec fn went(
    t: TaskModel,
    plan: PlanModel,
    status: Status,
    now: i64,
    after: TaskModel,
) -> bool {
    match plan {
        PlanModel::Run { pipeline, step, round } => after == (TaskModel {
            status,
            pipeline: Some(pipeline),
            step: Some(step),
            round,
            await_deadline: None,
            updated: now,
            ..t
        }),
        PlanModel::Rest => after == (TaskModel {
            status: Status::Resting,
            pipeline: None,
            step: None,
            await_deadline: after.await_deadline,
            updated: now,
            ..t
        }),
        PlanModel::Park { .. } => after == (TaskModel {
            status: Status::Parked,
            await_deadline: after.await_deadline,
            updated: now,
            ..t
        }),
    }
}

/// Does an event tell a place?
pub open spec fn tells_place(
    e: EventModel,
    pipeline: Seq<char>,
    step: Seq<char>,
    round: i64,
) -> bool {
    &&& e.says("pipeline"@, FieldModel::Text(Some(pipeline)))
    &&& e.says("step"@, FieldModel::Text(Some(step)))
    &&& e.says("round"@, FieldModel::Number(Some(round)))
}

/// A queued task that has a place starts there, at its round, and one that has none starts
/// at the top of its plan: it then runs, and waits for nothing. A task in any other status
/// is not started. What is started is on record.
pub proof fn a_queued_task_starts_where_it_is(policy: Policy, t: TaskModel, now: i64)
    ensures
        ({
            let after = outcome_of(t, begun(policy, t), now);
            &&& t.status != Status::Queued ==> after is Bailed
            &&& t.status == Status::Queued ==> after is Applied && after->previous == t
            &&& t.status == Status::Queued && t.pipeline is Some && t.step is Some ==> {
                &&& after->task == (TaskModel {
                    status: Status::Running,
                    await_deadline: None,
                    updated: now,
                    ..t
                })
                &&& after->events.len() == 1
                &&& after->events[0].kind == "task.step_started"@
                &&& after->events[0].task_id == Some(t.id)
                &&& tells_place(after->events[0], t.pipeline->0, t.step->0, t.round)
            }
            &&& t.status == Status::Queued && (t.pipeline is None || t.step is None) ==> {
                let plan = starts(policy, t);
                &&& went(t, plan, Status::Running, now, after->task)
                &&& after->events.len() == 1
                &&& after->events[0].task_id == Some(t.id)
                &&& plan is Run ==> after->events[0].kind == "task.step_started"@ && tells_place(
                    after->events[0],
                    plan->pipeline,
                    plan->step,
                    plan->round,
                )
                &&& plan is Rest ==> after->events[0].kind == "task.finished"@
                &&& plan is Park ==> after->events[0].kind == "task.parked"@
                    && after->events[0].says("reason"@, FieldModel::Text(Some(plan->reason)))
            }
        }),
{
    let d = begun(policy, t);
    if d is Apply {
        let plan = match position(t) {
            Some(at) => PlanModel::Run { pipeline: at.pipeline, step: at.step, round: at.round },
            None => starts(policy, t),
        };
        match plan {
            PlanModel::Run { pipeline, step, round } => {
                let p = d->events[0].payload->0;
                assert(p[0] == ("pipeline"@, FieldModel::Text(Some(pipeline))));
                assert(p[1] == ("step"@, FieldModel::Text(Some(step))));
                assert(p[2] == ("round"@, FieldModel::Number(Some(round))));
            },
            PlanModel::Park { reason } => {
                let p = d->events[0].payload->0;
                assert(p[0] == ("reason"@, FieldModel::Text(Some(reason))));
            },
            PlanModel::Rest => {},
        }
    }
}

/// What a running step at its place said is on record first, whatever follows from it.
pub proof fn what_a_step_said_is_recorded(
    policy: Policy,
    t: TaskModel,
    at: StepAtModel,
    report: ReportModel,
    now: i64,
)
    requires
        t.status == Status::Running,
        t.pipeline == Some(at.pipeline),
        t.step == Some(at.step),
        t.round == at.round,
    ensures
        ({
            let after = outcome_of(t, finished(policy, t, at, report, now), now);
            &&& after is Applied && after->previous == t
            &&& after->events.len() > 0
            &&& after->events[0].kind == "task.step_finished"@
            &&& after->events[0].task_id == Some(t.id)
            &&& tells_place(after->events[0], at.pipeline, at.step, at.round)
            &&& after->events[0].says(
                "outcome"@,
                FieldModel::Text(Some(report.outcome.word())),
            )
            &&& after->events[0].says("note"@, FieldModel::Text(report.note))
        }),
{
    let p = finished(policy, t, at, report, now)->events[0].payload->0;
    assert(p[0] == ("pipeline"@, FieldModel::Text(Some(at.pipeline))));
    assert(p[1] == ("step"@, FieldModel::Text(Some(at.step))));
    assert(p[2] == ("round"@, FieldModel::Number(Some(at.round))));
    assert(p[3] == ("outcome"@, FieldModel::Text(Some(report.outcome.word()))));
    assert(p[4] == ("note"@, FieldModel::Text(report.note)));
}

/// A pass moves the task to where a pass goes, a rejection to where a rejection goes: it is
/// queued there, at rest, or parked where it stands, with the reason on record. Neither
/// leaves a wait behind.
pub proof fn a_verdict_moves_the_task(
    policy: Policy,
    t: TaskModel,
    at: StepAtModel,
    report: ReportModel,
    now: i64,
)
    requires
        t.status == Status::Running,
        t.pipeline == Some(at.pipeline),
        t.step == Some(at.step),
        t.round == at.round,
        report.outcome == Outcome::Pass || report.outcome == Outcome::Reject,
    ensures
        ({
            let after = outcome_of(t, finished(policy, t, at, report, now), now);
            let plan = if report.outcome == Outcome::Pass {
                passes(policy, t)
            } else {
                fails(policy, t)
            };
            &&& went(t, plan, Status::Queued, now, after->task)
            &&& after->task.await_deadline is None
            &&& plan is Run ==> after->events.len() == 1
            &&& plan is Rest ==> after->events.len() == 2 && after->events[1].kind
                == "task.finished"@ && after->events[1].task_id == Some(t.id)
            &&& plan is Park ==> after->events.len() == 2 && after->events[1].kind
                == "task.parked"@ && after->events[1].task_id == Some(t.id)
                && after->events[1].says("reason"@, FieldModel::Text(Some(plan->reason)))
        }),
{
    let d = finished(policy, t, at, report, now);
    let plan = if report.outcome == Outcome::Pass {
        passes(policy, t)
    } else {
        fails(policy, t)
    };
    if plan is Park {
        assert(d->events[1].payload->0[0] == ("reason"@, FieldModel::Text(Some(plan->reason))));
    }
}

/// Does an event give this reason?
pub open spec fn gives_reason(e: EventModel, reason: Seq<char>) -> bool {
    e.says("reason"@, FieldModel::Text(Some(reason)))
}

/// Does a text end with another?
pub open spec fn ends_with(s: Seq<char>, end: Seq<char>) -> bool {
    s.len() >= end.len() && s.skip(s.len() - end.len()) == end
}

/// An error parks the task where it stands, at its round, without a wait. The reason on
/// record ends with what the step said, where it said something.
pub proof fn an_error_parks_the_task(
    policy: Policy,
    t: TaskModel,
    at: StepAtModel,
    report: ReportModel,
    now: i64,
)
    requires
        t.status == Status::Running,
        t.pipeline == Some(at.pipeline),
        t.step == Some(at.step),
        t.round == at.round,
        report.outcome == Outcome::Error,
    ensures
        ({
            let after = outcome_of(t, finished(policy, t, at, report, now), now);
            &&& after->task == (TaskModel {
                status: Status::Parked,
                await_deadline: None,
                updated: now,
                ..t
            })
            &&& after->events.len() == 2
            &&& after->events[1].kind == "task.parked"@
            &&& after->events[1].task_id == Some(t.id)
            &&& exists|reason: Seq<char>| #[trigger]
                gives_reason(after->events[1], reason) && (report.note is Some ==> ends_with(
                    reason,
                    report.note->0,
                ))
        }),
{
    let d = finished(policy, t, at, report, now);
    let said = match report.note {
        Some(note) => note,
        None => "no reason given"@,
    };
    let head = "step "@ + at.step + " errored: "@;
    let reason = head + said;
    assert(d->events[1].payload->0[0] == ("reason"@, FieldModel::Text(Some(reason))));
    assert(reason.skip(head.len() as int) =~= said);
    let after = outcome_of(t, d, now);
    assert(gives_reason(after->events[1], reason));
}

/// A promise leaves the task running where it is, where its step awaits a signal, whatever
/// the signal is. It has a deadline exactly where the step has a timeout: that much later
/// than now, or as late as a clock goes. The signal and the pane are on record. Where the
/// step awaits nothing, the task is parked where it stands.
pub proof fn a_promise_is_waited_for(
    policy: Policy,
    t: TaskModel,
    at: StepAtModel,
    report: ReportModel,
    now: i64,
)
    requires
        t.status == Status::Running,
        t.pipeline == Some(at.pipeline),
        t.step == Some(at.step),
        t.round == at.round,
        report.outcome == Outcome::Started,
    ensures
        ({
            let after = outcome_of(t, finished(policy, t, at, report, now), now);
            let signal = policy.awaited(at.pipeline, at.step);
            let seconds = policy.wait_seconds(at.pipeline, at.step);
            &&& after->events.len() == 2
            &&& after->events[1].task_id == Some(t.id)
            &&& signal is Some ==> {
                &&& after->task == (TaskModel {
                    await_deadline: after->task.await_deadline,
                    updated: now,
                    ..t
                })
                &&& seconds is None ==> after->task.await_deadline is None
                &&& seconds is Some && now + seconds->0 <= i64::MAX && now + seconds->0 >= i64::MIN
                    ==> after->task.await_deadline == Some((now + seconds->0) as i64)
                &&& seconds is Some && now + seconds->0 > i64::MAX ==> after->task.await_deadline
                    == Some(i64::MAX)
                &&& after->events[1].kind == "task.step_awaiting"@
                &&& tells_place(after->events[1], at.pipeline, at.step, at.round)
                &&& after->events[1].says("await"@, FieldModel::Text(signal))
                &&& after->events[1].says("pane"@, FieldModel::Text(report.pane))
            }
            &&& signal is None ==> {
                &&& after->task == (TaskModel { status: Status::Parked, updated: now, ..t })
                &&& after->events[1].kind == "task.parked"@
            }
        }),
{
    let d = finished(policy, t, at, report, now);
    if let Some(signal) = policy.awaited(at.pipeline, at.step) {
        let p = d->events[1].payload->0;
        assert(p[0] == ("pipeline"@, FieldModel::Text(Some(at.pipeline))));
        assert(p[1] == ("step"@, FieldModel::Text(Some(at.step))));
        assert(p[2] == ("round"@, FieldModel::Number(Some(at.round))));
        assert(p[3] == ("await"@, FieldModel::Text(Some(signal))));
        assert(p[4] == ("pane"@, FieldModel::Text(report.pane)));
    }
}

} // verus!
