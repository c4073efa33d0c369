//! `transition()`: the only way a task row changes.
//!
//! The shape is: take the write lock, re-read the row, decide against what is
//! actually there, then write the state change and its events in the same commit.
//! If the row has moved since the caller looked at it, the decision is to bail and
//! nothing is written.

use crate::db::event::{EventModel, NewEvent};
use crate::db::task::{PatchModel, Task, TaskModel, TaskPatch};
use crate::text::push_deep;
use vstd::prelude::*;

verus! {

/// What was decided about the row.
#[derive(Debug)]
pub enum Decision {
    /// Change these fields and record these events.
    Apply { patch: TaskPatch, events: Vec<NewEvent> },
    /// The row is not what was expected, or the work is already done. Nothing is
    /// written and the reason is returned.
    Bail(String),
}

#[verifier::ext_equal]
pub enum DecisionModel {
    Apply { patch: PatchModel, events: Seq<EventModel> },
    Bail(Seq<char>),
}

impl View for Decision {
    type V = DecisionModel;

    open spec fn view(&self) -> DecisionModel {
        match self {
            Decision::Apply { patch, events } => DecisionModel::Apply {
                patch: patch@,
                events: events.deep_view(),
            },
            Decision::Bail(reason) => DecisionModel::Bail(reason@),
        }
    }
}

impl DecisionModel {
    /// Change fields, with nothing to record yet.
    pub open spec fn of(patch: PatchModel) -> DecisionModel {
        DecisionModel::Apply { patch, events: Seq::empty() }
    }

    /// The decision, with one more event at the end.
    pub open spec fn and(self, event: EventModel) -> DecisionModel {
        match self {
            DecisionModel::Apply { patch, events } => DecisionModel::Apply {
                patch,
                events: events.push(event),
            },
            DecisionModel::Bail(reason) => DecisionModel::Bail(reason),
        }
    }

    /// The decision, with one more event at the front.
    pub open spec fn after(self, event: EventModel) -> DecisionModel {
        match self {
            DecisionModel::Apply { patch, events } => DecisionModel::Apply {
                patch,
                events: seq![event] + events,
            },
            DecisionModel::Bail(reason) => DecisionModel::Bail(reason),
        }
    }

    /// The decision, with a deadline set or cleared.
    pub open spec fn due(self, deadline: Option<i64>) -> DecisionModel {
        match self {
            DecisionModel::Apply { patch, events } => DecisionModel::Apply {
                patch: PatchModel { await_deadline: Some(deadline), ..patch },
                events,
            },
            DecisionModel::Bail(reason) => DecisionModel::Bail(reason),
        }
    }
}

impl Decision {
    pub fn apply(patch: TaskPatch) -> (r: Decision)
        ensures
            r@ == DecisionModel::of(patch@),
    {
        let events: Vec<NewEvent> = Vec::new();
        assert(events.deep_view() =~= Seq::empty());
        Decision::Apply { patch, events }
    }

    pub fn with_event(self, event: NewEvent) -> (r: Decision)
        ensures
            r@ == self@.and(event@),
    {
        broadcast use push_deep;

        match self {
            Decision::Apply { patch, events } => {
                let mut more: Vec<NewEvent> = events;
                let ghost prev = more;
                more.push(event);
                assert(more.deep_view() =~= prev.deep_view().push(event@));
                Decision::Apply { patch, events: more }
            },
            Decision::Bail(reason) => Decision::Bail(reason),
        }
    }

    /// An event is the record of what happened; what follows is the consequence.
    pub fn preceded_by(self, event: NewEvent) -> (r: Decision)
        ensures
            r@ == self@.after(event@),
    {
        match self {
            Decision::Apply { patch, events } => {
                let mut more: Vec<NewEvent> = Vec::new();
                let ghost rest = events.deep_view();
                more.push(event);
                let mut others: Vec<NewEvent> = events;
                more.append(&mut others);
                assert(more.deep_view() =~= seq![event@] + rest);
                Decision::Apply { patch, events: more }
            },
            Decision::Bail(reason) => Decision::Bail(reason),
        }
    }

    /// The decision, with a deadline set or cleared.
    pub fn due(self, deadline: Option<i64>) -> (r: Decision)
        ensures
            r@ == self@.due(deadline),
    {
        match self {
            Decision::Apply { patch, events } => Decision::Apply {
                patch: patch.await_deadline(deadline),
                events,
            },
            Decision::Bail(reason) => Decision::Bail(reason),
        }
    }

    pub fn bail(reason: String) -> (r: Decision)
        ensures
            r@ == DecisionModel::Bail(reason@),
    {
        Decision::Bail(reason)
    }
}

/// A transition that changed something.
#[derive(Debug)]
pub struct Applied {
    /// The row as it now stands.
    pub task: Task,
    /// The row as it was before, for reporting what moved.
    pub previous: Task,
    /// The events to write alongside, in order.
    pub events: Vec<NewEvent>,
}

#[derive(Debug)]
pub enum Outcome {
    Applied(Applied),
    /// The decision was to decline; the store is untouched.
    Bailed(String),
}

#[verifier::ext_equal]
pub enum OutcomeModel {
    Applied { task: TaskModel, previous: TaskModel, events: Seq<EventModel> },
    Bailed(Seq<char>),
}

impl View for Outcome {
    type V = OutcomeModel;

    open spec fn view(&self) -> OutcomeModel {
        match self {
            Outcome::Applied(a) => OutcomeModel::Applied {
                task: a.task@,
                previous: a.previous@,
                events: a.events.deep_view(),
            },
            Outcome::Bailed(reason) => OutcomeModel::Bailed(reason@),
        }
    }
}

impl Outcome {
    pub fn applied(&self) -> (r: Option<&Applied>)
        ensures
            match self {
                Outcome::Applied(a) => r == Some(a),
                Outcome::Bailed(_) => r is None,
            },
    {
        match self {
            Outcome::Applied(a) => Some(a),
            Outcome::Bailed(_) => None,
        }
    }

    pub fn is_applied(&self) -> (r: bool)
        ensures
            r == (self is Applied),
    {
        match self {
            Outcome::Applied(_) => true,
            Outcome::Bailed(_) => false,
        }
    }
}

/// An event about a transition belongs to its task, unless it says whose it is.
pub open spec fn owned(event: EventModel, task_id: Seq<char>) -> EventModel {
    if event.task_id is None {
        event.about(task_id)
    } else {
        event
    }
}

/// What a decision about a row comes to at a time.
pub open spec fn outcome_of(current: TaskModel, decision: DecisionModel, now: i64) -> OutcomeModel {
    match decision {
        DecisionModel::Bail(reason) => OutcomeModel::Bailed(reason),
        DecisionModel::Apply { patch, events } => OutcomeModel::Applied {
            task: TaskModel { updated: now, ..patch.applied_to(current) },
            previous: current,
            events: Seq::new(events.len(), |i: int| owned(events[i], current.id)),
        },
    }
}

/// Run one state transition against a row, as it exists inside the write
/// transaction.
pub fn transition(current: &Task, decision: Decision, now: i64) -> (r: Outcome)
    ensures
        r@ == outcome_of(current@, decision@, now),
{
    match decision {
        Decision::Bail(reason) => Outcome::Bailed(reason),
        Decision::Apply { patch, events } => {
            let mut next: Task = current.clone();
            patch.apply(&mut next);
            next.updated = now;
            let owned_events: Vec<NewEvent> = own(events, &current.id);
            Outcome::Applied(
                Applied { task: next, previous: current.clone(), events: owned_events },
            )
        },
    }
}

/// The events, each with the task it is about.
fn own(events: Vec<NewEvent>, task_id: &str) -> (r: Vec<NewEvent>)
    ensures
        r.deep_view() == Seq::new(
            events.deep_view().len(),
            |i: int| owned(events.deep_view()[i], task_id@),
        ),
{
    broadcast use push_deep;

    let ghost given = events.deep_view();
    let ghost raw = events@;
    let ghost all = Seq::new(given.len(), |i: int| owned(given[i], task_id@));
    let mut out: Vec<NewEvent> = Vec::new();
    assert(out.deep_view() =~= all.take(0));
    for event in it: events
        invariant
            it.seq() == raw,
            raw.len() == given.len(),
            forall|i: int| 0 <= i < raw.len() ==> (#[trigger] raw[i])@ == given[i],
            all == Seq::new(given.len(), |i: int| owned(given[i], task_id@)),
            out.deep_view() == all.take(it.index()),
    {
        let ghost prev = out;
        let ghost k = it.index();
        assert(event@ == given[k]);
        let mine: NewEvent = if event.task_id.is_none() {
            event.task(task_id)
        } else {
            event
        };
        out.push(mine);
        assert(prev.deep_view().push(mine@) =~= all.take(k + 1));
    }
    assert(all.take(all.len() as int) =~= all);
    out
}

/// A transition changes nothing about who a task is: its id, brief, type, repo and
/// the time it was created stay.
pub proof fn a_task_stays_itself(current: TaskModel, decision: DecisionModel, now: i64)
    ensures
        outcome_of(current, decision, now) matches OutcomeModel::Applied { task, .. } ==> {
            &&& task.id == current.id
            &&& task.brief == current.brief
            &&& task.kind == current.kind
            &&& task.repo == current.repo
            &&& task.created == current.created
            &&& task.updated == now
        },
{
}

/// Every event a transition writes says which task it is about. One that does not
/// say so itself is about the task that moved.
pub proof fn events_have_a_task(current: TaskModel, decision: DecisionModel, now: i64, i: int)
    requires
        decision is Apply,
        0 <= i < decision->events.len(),
    ensures
        ({
            let written = outcome_of(current, decision, now)->events[i];
            &&& written.task_id is Some
            &&& decision->events[i].task_id is None ==> written.task_id == Some(current.id)
            &&& decision->events[i].task_id is Some ==> written == decision->events[i]
        }),
{
}

/// A decision that changes something sets each column that it names and leaves every other
/// as it was; one that does not changes nothing. What the row was is kept beside it.
pub proof fn a_transition_sets_what_it_names(current: TaskModel, decision: DecisionModel, now: i64)
    ensures
        decision is Bail ==> outcome_of(current, decision, now) == OutcomeModel::Bailed(
            decision->Bail_0,
        ),
        decision is Apply ==> {
            let patch = decision->patch;
            let after = outcome_of(current, decision, now);
            &&& after is Applied
            &&& after->previous == current
            &&& after->events.len() == decision->events.len()
            &&& after->task.status == (if patch.status is Some {
                patch.status->0
            } else {
                current.status
            })
            &&& after->task.pipeline == (if patch.pipeline is Some {
                patch.pipeline->0
            } else {
                current.pipeline
            })
            &&& after->task.step == (if patch.step is Some {
                patch.step->0
            } else {
                current.step
            })
            &&& after->task.round == (if patch.round is Some {
                patch.round->0
            } else {
                current.round
            })
            &&& after->task.plan == (if patch.plan is Some {
                patch.plan->0
            } else {
                current.plan
            })
            &&& after->task.await_deadline == (if patch.await_deadline is Some {
                patch.await_deadline->0
            } else {
                current.await_deadline
            })
            &&& after->task.worktree == (if patch.worktree is Some {
                patch.worktree->0
            } else {
                current.worktree
            })
            &&& after->task.branch == (if patch.branch is Some {
                patch.branch->0
            } else {
                current.branch
            })
            &&& after->task.base == (if patch.base is Some {
                patch.base->0
            } else {
                current.base
            })
            &&& after->task.workspace_id == (if patch.workspace_id is Some {
                patch.workspace_id->0
            } else {
                current.workspace_id
            })
        },
{
}

} // verus!
