//! Checks: verdicts about specific commits.
//!
//! A check is how anything (a linter, a reviewing agent, a person) says pass or fail
//! about the exact commit it looked at. `shep` stamps the sha itself, so a submitter
//! can never pin a verdict to code it did not judge.

use super::flow::{a_verdict_moves_the_task, finished, went};
use super::plan::{fails, passes};
use super::step::{position, ReportModel, StepAt, StepAtModel, StepReport};
use crate::config::Policy;
use crate::db::check::{Check, CheckModel, Conclusion, NewCheck};
use crate::db::event::{empty_payload, names, with, EventModel, Field, FieldModel, NewEvent};
use crate::db::task::{Status, Task, TaskModel};
use crate::error::{Error, ErrorModel};
use crate::outcome::Outcome;
use crate::text::{cat4, cat6, copy, copy_opt, quote, quoted, same};
use vstd::prelude::*;
use vstd::string::*;

verus! {

/// What a check submitter supplies. Notably not the sha.
#[derive(Debug)]
pub struct Submission {
    pub conclusion: Conclusion,
    /// Who is judging: a step name, a tool, or a person.
    pub author: Option<String>,
    pub body: Option<String>,
    /// The position being judged, when the caller's environment says. Absent means
    /// "wherever the task is now", which is what an agent in a pane gets: its shell's
    /// environment was fixed when the pane was split and would go stale the moment
    /// the round changed.
    pub at: Option<StepAt>,
}

#[verifier::ext_equal]
pub struct SubmissionModel {
    pub conclusion: Conclusion,
    pub author: Option<Seq<char>>,
    pub body: Option<Seq<char>>,
    pub at: Option<StepAtModel>,
}

impl View for Submission {
    type V = SubmissionModel;

    open spec fn view(&self) -> SubmissionModel {
        SubmissionModel {
            conclusion: self.conclusion,
            author: self.author.deep_view(),
            body: self.body.deep_view(),
            at: self.at.deep_view(),
        }
    }
}

/// The position that is judged: the one that is given, else the task's own.
pub open spec fn judged(t: TaskModel, sub: SubmissionModel) -> Option<StepAtModel> {
    match sub.at {
        Some(at) => Some(at),
        None => position(t),
    }
}

/// Who judges: the one that is given, else the step, else nobody in particular.
pub open spec fn judge(t: TaskModel, sub: SubmissionModel) -> Seq<char> {
    match sub.author {
        Some(author) => author,
        None => match judged(t, sub) {
            Some(at) => at.step,
            None => "anonymous"@,
        },
    }
}

fn judged_by(task: &Task, sub: &Submission) -> (r: Option<StepAt>)
    ensures
        r.deep_view() == judged(task@, sub@),
{
    match &sub.at {
        Some(at) => Some(at.clone()),
        None => StepAt::of(task),
    }
}

/// `shep check submit`: a verdict plus evidence about a specific commit, as it is to
/// be written. `sha` is the commit at the head of the directory the task works in;
/// the submitter never supplies it, or a stale check becomes an agent-behaviour bug
/// instead of an impossible state.
pub fn submit_check(task: &Task, sub: &Submission, sha: String) -> (r: NewCheck)
    ensures
        r.task_id@ == task@.id,
        r.pipeline.deep_view() == (match judged(task@, sub@) {
            Some(at) => Some(at.pipeline),
            None => None,
        }),
        r.step.deep_view() == (match judged(task@, sub@) {
            Some(at) => Some(at.step),
            None => None,
        }),
        r.round == (match judged(task@, sub@) {
            Some(at) => Some(at.round),
            None => None,
        }),
        r.author@ == judge(task@, sub@),
        r.sha@ == sha@,
        r.conclusion == sub.conclusion,
        r.body.deep_view() == sub.body.deep_view(),
{
    let at: Option<StepAt> = judged_by(task, sub);
    let author: String = match &sub.author {
        Some(author) => copy(author),
        None => match &at {
            Some(a) => copy(&a.step),
            None => copy("anonymous"),
        },
    };
    let task_id: String = copy(&task.id);
    let body: Option<String> = copy_opt(&sub.body);
    match at {
        Some(a) => NewCheck {
            task_id,
            pipeline: Some(a.pipeline),
            step: Some(a.step),
            round: Some(a.round),
            author,
            sha,
            conclusion: sub.conclusion,
            body,
        },
        None => NewCheck {
            task_id,
            pipeline: None,
            step: None,
            round: None,
            author,
            sha,
            conclusion: sub.conclusion,
            body,
        },
    }
}

/// The record that a check was submitted.
pub open spec fn submitted(c: CheckModel) -> EventModel {
    EventModel::of(names::TASK_CHECK_SUBMITTED@).about(c.task_id).saying(
        seq![
            ("check"@, FieldModel::Text(Some(c.id))),
            ("author"@, FieldModel::Text(Some(c.author))),
            ("conclusion"@, FieldModel::Text(Some(c.conclusion.word()))),
            ("sha"@, FieldModel::Text(Some(c.sha))),
            ("pipeline"@, FieldModel::Text(c.pipeline)),
            ("step"@, FieldModel::Text(c.step)),
            ("round"@, FieldModel::Number(c.round)),
        ],
    )
}

/// The event to write with a check, in the same transaction.
pub fn submitted_event(check: &Check) -> (r: NewEvent)
    ensures
        r@ == submitted(check@),
{
    let p = with(empty_payload(), "check", Field::Text(Some(copy(&check.id))));
    let p = with(p, "author", Field::Text(Some(copy(&check.author))));
    let p = with(p, "conclusion", Field::Text(Some(copy(check.conclusion.as_str()))));
    let p = with(p, "sha", Field::Text(Some(copy(&check.sha))));
    let p = with(p, "pipeline", Field::Text(copy_opt(&check.pipeline)));
    let p = with(p, "step", Field::Text(copy_opt(&check.step)));
    let p = with(p, "round", Field::Number(check.round));
    let event: NewEvent = NewEvent::for_task(names::TASK_CHECK_SUBMITTED, &check.task_id).payload(
        p,
    );
    assert(event@ =~= submitted(check@)) by {
        assert(p.deep_view() =~= submitted(check@).payload->0);
    }
    event
}

/// What a conclusion means for the step it is about.
pub open spec fn verdict_of(c: Conclusion) -> Outcome {
    match c {
        Conclusion::Pass => Outcome::Pass,
        Conclusion::Fail => Outcome::Reject,
    }
}

pub fn outcome_of(c: Conclusion) -> (r: Outcome)
    ensures
        r == verdict_of(c),
{
    match c {
        Conclusion::Pass => Outcome::Pass,
        Conclusion::Fail => Outcome::Reject,
    }
}

/// What a signal settles: the step it is about, the check to submit first, and what
/// the step is then finished with.
#[derive(Debug)]
pub struct Settlement {
    pub at: StepAt,
    pub submission: Submission,
    pub report: StepReport,
}

/// Is a task at a step that awaits a signal?
pub open spec fn awaits(policy: Policy, t: TaskModel, signal: Seq<char>) -> bool {
    t.status == Status::Running && match position(t) {
        Some(at) => policy.awaited(at.pipeline, at.step) == Some(signal),
        None => false,
    }
}

/// What a signal said, as it is told.
pub open spec fn signal_note(
    signal: Seq<char>,
    conclusion: Conclusion,
    note: Option<Seq<char>>,
) -> Seq<char> {
    "signal "@ + signal + " said "@ + conclusion.word() + match note {
        Some(note) => ": "@ + note,
        None => Seq::empty(),
    }
}

/// `shep signal <task> --name <sig>`: resolve a step that is awaiting a named signal,
/// built-in or declared. The verdict rides on the signal (an external system is the
/// authority on its own result), recorded as a check for provenance, then the step is
/// finished with it.
pub fn settle_by_signal(
    policy: &Policy,
    task: &Task,
    signal: &str,
    conclusion: Conclusion,
    author: &str,
    note: &Option<String>,
) -> (r: Result<Settlement, Error>)
    ensures
        awaits(*policy, task@, signal@) ==> (r matches Ok(s) && s.at@ == position(task@)->0
            && s.submission@ == (SubmissionModel {
            conclusion,
            author: Some(author@),
            body: note.deep_view(),
            at: position(task@),
        }) && s.report@ == ReportModel::said(
            verdict_of(conclusion),
            signal_note(signal@, conclusion, note.deep_view()),
        )),
        !awaits(*policy, task@, signal@) ==> (r matches Err(e) && e@ == ErrorModel::Other(
            "task "@ + task@.id + " is not awaiting signal "@ + quoted(signal@) + ": it is "@
                + task.status.word() + " at "@ + match position(task@) {
                Some(at) => at.text(),
                None => "no step"@,
            },
        )),
{
    let here: Option<StepAt> = StepAt::of(task);
    let waiting: bool = match &here {
        Some(at) => task.status == Status::Running && match policy.step_await(
            &at.pipeline,
            &at.step,
        ) {
            Some(awaited) => same(awaited, signal),
            None => false,
        },
        None => false,
    };
    match here {
        Some(at) => {
            if waiting {
                let submission: Submission = Submission {
                    conclusion,
                    author: Some(copy(author)),
                    body: copy_opt(note),
                    at: Some(at.clone()),
                };
                let mut said: String = cat4("signal ", signal, " said ", conclusion.as_str());
                match note {
                    Some(n) => {
                        let ghost head = said@;
                        said.append(": ");
                        said.append(n);
                        assert(said@ =~= head + (": "@ + n@));
                    },
                    None => {
                        assert(said@ + Seq::<char>::empty() =~= said@);
                    },
                }
                let report: StepReport = StepReport::verdict(outcome_of(conclusion), said);
                Ok(Settlement { at, submission, report })
            } else {
                Err(Error::Other(not_awaiting(task, signal, &at.text())))
            }
        },
        None => Err(Error::Other(not_awaiting(task, signal, "no step"))),
    }
}

fn not_awaiting(task: &Task, signal: &str, at: &str) -> (r: String)
    ensures
        r@ == "task "@ + task@.id + " is not awaiting signal "@ + quoted(signal@) + ": it is "@
            + task.status.word() + " at "@ + at@,
{
    cat6(
        "task ",
        &task.id,
        " is not awaiting signal ",
        &quote(signal),
        ": it is ",
        task.status.as_str(),
    ).concat(" at ").concat(at)
}

/// A check is about the place that is given, and else about where the task stands. Whoever
/// is given is its author; else it is the step, and nobody in particular where there is
/// none.
pub proof fn a_check_is_about_a_place(t: TaskModel, sub: SubmissionModel)
    ensures
        sub.at is Some ==> judged(t, sub) == sub.at,
        sub.at is None && t.pipeline is Some && t.step is Some ==> judged(t, sub) == Some(
            StepAtModel { pipeline: t.pipeline->0, step: t.step->0, round: t.round },
        ),
        sub.at is None && (t.pipeline is None || t.step is None) ==> judged(t, sub) is None,
        sub.author is Some ==> judge(t, sub) == sub.author->0,
        sub.author is None && sub.at is Some ==> judge(t, sub) == sub.at->0.step,
        sub.author is None && sub.at is None && t.pipeline is Some && t.step is Some ==> judge(
            t,
            sub,
        ) == t.step->0,
        sub.author is None && sub.at is None && (t.pipeline is None || t.step is None) ==> judge(
            t,
            sub,
        ) == "anonymous"@,
{
}

/// A passing check passes its step, and a failing one rejects it: neither is an error, and
/// neither a promise.
pub proof fn a_conclusion_is_a_verdict(c: Conclusion)
    ensures
        verdict_of(c) == Outcome::Pass <==> c == Conclusion::Pass,
        verdict_of(c) == Outcome::Reject <==> c == Conclusion::Fail,
{
}

/// A task awaits a signal exactly where it runs a step that awaits that signal.
pub proof fn a_running_step_awaits_its_signal(policy: Policy, t: TaskModel, signal: Seq<char>)
    ensures
        awaits(policy, t, signal) <==> t.status == Status::Running && t.pipeline is Some
            && t.step is Some && policy.awaited(t.pipeline->0, t.step->0) == Some(signal),
{
}

/// A signal moves a task as its conclusion says: to where a pass goes, or to where a
/// rejection goes, and its wait is over.
pub proof fn a_signal_moves_the_task(
    policy: Policy,
    t: TaskModel,
    signal: Seq<char>,
    conclusion: Conclusion,
    note: Option<Seq<char>>,
    now: i64,
)
    requires
        t.status == Status::Running,
        t.pipeline is Some && t.step is Some,
        policy.awaited(t.pipeline->0, t.step->0) == Some(signal),
    ensures
        awaits(policy, t, signal),
        ({
            let said = ReportModel::said(
                verdict_of(conclusion),
                signal_note(signal, conclusion, note),
            );
            let after = super::transition::outcome_of(
                t,
                finished(policy, t, position(t)->0, said, now),
                now,
            )->task;
            let plan = if conclusion == Conclusion::Pass {
                passes(policy, t)
            } else {
                fails(policy, t)
            };
            &&& after.await_deadline is None
            &&& went(t, plan, Status::Queued, now, after)
        }),
{
    let said = ReportModel::said(verdict_of(conclusion), signal_note(signal, conclusion, note));
    a_verdict_moves_the_task(policy, t, position(t)->0, said, now);
}

/// The record of a check says all of it but its evidence.
pub proof fn a_submitted_check_is_recorded(c: CheckModel)
    ensures
        ({
            let e = submitted(c);
            &&& e.kind == "task.check_submitted"@
            &&& e.task_id == Some(c.task_id)
            &&& e.says("check"@, FieldModel::Text(Some(c.id)))
            &&& e.says("author"@, FieldModel::Text(Some(c.author)))
            &&& e.says("conclusion"@, FieldModel::Text(Some(c.conclusion.word())))
            &&& e.says("sha"@, FieldModel::Text(Some(c.sha)))
            &&& e.says("pipeline"@, FieldModel::Text(c.pipeline))
            &&& e.says("step"@, FieldModel::Text(c.step))
            &&& e.says("round"@, FieldModel::Number(c.round))
        }),
{
    let p = submitted(c).payload->0;
    assert(p[0] == ("check"@, FieldModel::Text(Some(c.id))));
    assert(p[1] == ("author"@, FieldModel::Text(Some(c.author))));
    assert(p[2] == ("conclusion"@, FieldModel::Text(Some(c.conclusion.word()))));
    assert(p[3] == ("sha"@, FieldModel::Text(Some(c.sha))));
    assert(p[4] == ("pipeline"@, FieldModel::Text(c.pipeline)));
    assert(p[5] == ("step"@, FieldModel::Text(c.step)));
    assert(p[6] == ("round"@, FieldModel::Number(c.round)));
}

} // verus!
