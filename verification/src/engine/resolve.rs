//! Resolving a deferred step.
//!
//! A step that returned `started` made a promise, not an answer. What redeems it is a
//! Herdr event: the pane's agent stopping, the pane going away, or the workspace being
//! closed. The hook only appends to `raw_event`; deciding happens here, because the
//! payload carries no previous status and a hook that kept state of its own would be a
//! second source of truth.
//!
//! Two things make this safe to run every tick:
//!
//! - **A cursor, not a subscription.** `raw_event` is a log and `meta.raw_cursor` is
//!   this reader's place in it, so an event is acted on once and a supervisor that was
//!   down while an agent finished still sees it when it comes back.
//! - **The edge, not the level.** A status change has no previous-status field, and an
//!   agent that becomes ready for input is a status change in its own right. Resolving
//!   on `done` alone would therefore resolve every deferred step the moment it started,
//!   so resolution needs a remembered `working` first.

use super::checks::{outcome_of, verdict_of};
use super::flow::{
    a_verdict_moves_the_task, an_error_parks_the_task, ends_with, finished, went,
};
use super::plan::{fails, passes};
use super::step::{position, ReportModel, StepAt, StepAtModel, StepReport};
use crate::config::Policy;
use crate::db::check::{
    latest, latest_for_step, latest_is_latest, Check, CheckModel, Conclusion,
};
use crate::db::raw_event::{event_data, event_name, RawEvent};
use crate::db::task::{Status, Task, TaskModel};
use crate::json::{get_string, string_member};
use crate::outcome::Outcome;
use crate::text::{cat3, cat4, cat7, copy, push_deep, same};
use vstd::prelude::*;
use vstd::string::*;

verus! {

/// How many raw events one drain will look at. Bounded so a tick stays short; the rest
/// wait for the next one.
pub const BATCH: i64 = 200;

/// Herdr's agent statuses. Anything unrecognised is `Unknown`, which resolves nothing:
/// `unknown` does not prove completion, and a status word this build has never heard of
/// proves even less.
#[derive(Debug, Clone, Copy, PartialEq, Eq, Structural)]
pub enum AgentStatus {
    Idle,
    Working,
    Blocked,
    Done,
    Unknown,
}

impl AgentStatus {
    pub open spec fn word(self) -> Seq<char> {
        match self {
            AgentStatus::Idle => "idle"@,
            AgentStatus::Working => "working"@,
            AgentStatus::Blocked => "blocked"@,
            AgentStatus::Done => "done"@,
            AgentStatus::Unknown => "unknown"@,
        }
    }

    pub open spec fn of_word(s: Seq<char>) -> AgentStatus {
        if s == "idle"@ {
            AgentStatus::Idle
        } else if s == "working"@ {
            AgentStatus::Working
        } else if s == "blocked"@ {
            AgentStatus::Blocked
        } else if s == "done"@ {
            AgentStatus::Done
        } else {
            AgentStatus::Unknown
        }
    }

    /// Has the agent stopped?
    pub open spec fn stopped(self) -> bool {
        self is Done || self is Idle
    }

    /// Was the agent doing something?
    pub open spec fn busy(self) -> bool {
        self is Working || self is Blocked
    }

    pub fn as_str(self) -> (r: &'static str)
        ensures
            r@ == self.word(),
    {
        match self {
            AgentStatus::Idle => "idle",
            AgentStatus::Working => "working",
            AgentStatus::Blocked => "blocked",
            AgentStatus::Done => "done",
            AgentStatus::Unknown => "unknown",
        }
    }

    pub fn parse(s: &str) -> (r: AgentStatus)
        ensures
            r == AgentStatus::of_word(s@),
    {
        if same(s, "idle") {
            AgentStatus::Idle
        } else if same(s, "working") {
            AgentStatus::Working
        } else if same(s, "blocked") {
            AgentStatus::Blocked
        } else if same(s, "done") {
            AgentStatus::Done
        } else {
            AgentStatus::Unknown
        }
    }

    /// The agent has stopped. `done` is the one to expect for unattended work; `idle`
    /// is the same underlying state once the tab has been seen, which is what you get
    /// if you happened to be looking at it.
    pub fn is_stopped(self) -> (r: bool)
        ensures
            r == self.stopped(),
    {
        match self {
            AgentStatus::Done => true,
            AgentStatus::Idle => true,
            _ => false,
        }
    }

    /// The agent was doing something, so stopping means something. `blocked` counts: an
    /// agent that hit an approval prompt and then went quiet has stopped working,
    /// whether or not it got anywhere.
    pub fn was_working(self) -> (r: bool)
        ensures
            r == self.busy(),
    {
        match self {
            AgentStatus::Working => true,
            AgentStatus::Blocked => true,
            _ => false,
        }
    }
}

/// Every agent status is read back from the word it is written as.
pub proof fn agent_status_words_read_back(s: AgentStatus)
    ensures
        AgentStatus::of_word(s.word()) == s,
{
    reveal_strlit("idle");
    reveal_strlit("working");
    reveal_strlit("blocked");
    reveal_strlit("done");
    reveal_strlit("unknown");
    assert("idle"@[0] == 'i' && "working"@[0] == 'w' && "blocked"@[0] == 'b' && "done"@[0] == 'd'
        && "unknown"@[0] == 'u');
}

// ---------------------------------------------------------------------------
// Reading
// ---------------------------------------------------------------------------

/// What one Herdr event means for a deferred step.
#[derive(Debug)]
pub enum Signal {
    /// An agent's status changed in a pane.
    Status { pane: String, status: AgentStatus },
    /// A pane went away, which ends whatever was running in it.
    PaneGone { pane: String, how: String },
    /// A workspace closed, taking its panes with it and firing no pane events at all.
    /// The payload has no pane id, which is why tasks record their `workspace_id`.
    WorkspaceGone { workspace: String },
    /// Everything else.
    Ignored,
}

#[verifier::ext_equal]
pub enum SignalModel {
    Status { pane: Seq<char>, status: AgentStatus },
    PaneGone { pane: Seq<char>, how: Seq<char> },
    WorkspaceGone { workspace: Seq<char> },
    Ignored,
}

impl View for Signal {
    type V = SignalModel;

    open spec fn view(&self) -> SignalModel {
        match self {
            Signal::Status { pane, status } => SignalModel::Status {
                pane: pane@,
                status: *status,
            },
            Signal::PaneGone { pane, how } => SignalModel::PaneGone { pane: pane@, how: how@ },
            Signal::WorkspaceGone { workspace } => SignalModel::WorkspaceGone {
                workspace: workspace@,
            },
            Signal::Ignored => SignalModel::Ignored,
        }
    }
}

/// What an event means, by its dotted name and what its data says of a pane, an agent's
/// status and a workspace.
pub open spec fn meaning(
    kind: Option<Seq<char>>,
    pane: Option<Seq<char>>,
    status: Option<Seq<char>>,
    workspace: Option<Seq<char>>,
) -> SignalModel {
    if kind == Some("pane.agent_status_changed"@) {
        match (pane, status) {
            (Some(pane), Some(status)) => SignalModel::Status {
                pane,
                status: AgentStatus::of_word(status),
            },
            _ => SignalModel::Ignored,
        }
    } else if kind == Some("pane.exited"@) || kind == Some("pane.closed"@) {
        match pane {
            Some(pane) => SignalModel::PaneGone { pane, how: kind->0 },
            None => SignalModel::Ignored,
        }
    } else if kind == Some("workspace.closed"@) {
        match workspace {
            Some(workspace) => SignalModel::WorkspaceGone { workspace },
            None => SignalModel::Ignored,
        }
    } else {
        SignalModel::Ignored
    }
}

/// Read one stored event. Nothing here fails: an event we cannot parse is one we
/// ignore, because the alternative is a malformed payload wedging the loop.
pub fn read(raw: &RawEvent) -> (r: Signal)
    ensures
        r@ == meaning(
            event_name(raw.body@),
            string_member(event_data(raw.body@), "pane_id"@),
            string_member(event_data(raw.body@), "agent_status"@),
            string_member(event_data(raw.body@), "workspace_id"@),
        ),
{
    let data: String = raw.data();
    interpret(
        &raw.kind(),
        get_string(&data, "pane_id"),
        get_string(&data, "agent_status"),
        get_string(&data, "workspace_id"),
    )
}

/// What an event means, by its dotted name and what its data says.
///
/// `pane.exited` lags and sometimes never arrives at all, so it is a backstop rather
/// than the trigger. It still has to be honoured: an agent that quit outright never
/// reports `done`.
pub fn interpret(
    kind: &Option<String>,
    pane: Option<String>,
    status: Option<String>,
    workspace: Option<String>,
) -> (r: Signal)
    ensures
        r@ == meaning(
            kind.deep_view(),
            pane.deep_view(),
            status.deep_view(),
            workspace.deep_view(),
        ),
{
    let name: &str = match kind {
        Some(name) => name.as_str(),
        None => {
            return Signal::Ignored;
        },
    };
    if same(name, "pane.agent_status_changed") {
        match (pane, status) {
            (Some(pane), Some(status)) => Signal::Status {
                pane,
                status: AgentStatus::parse(&status),
            },
            _ => Signal::Ignored,
        }
    } else if same(name, "pane.exited") || same(name, "pane.closed") {
        match pane {
            Some(pane) => Signal::PaneGone { pane, how: copy(name) },
            None => Signal::Ignored,
        }
    } else if same(name, "workspace.closed") {
        match workspace {
            Some(workspace) => Signal::WorkspaceGone { workspace },
            None => Signal::Ignored,
        }
    } else {
        Signal::Ignored
    }
}

// ---------------------------------------------------------------------------
// Acting
// ---------------------------------------------------------------------------

/// A task in a workspace, with the panes bound to it, oldest first.
#[derive(Debug)]
pub struct Tenant {
    pub task: String,
    pub panes: Vec<String>,
}

/// What the store knows that bears on a signal.
#[derive(Debug)]
pub struct Facts {
    /// The task the signal's pane is bound to.
    pub owner: Option<String>,
    /// The last agent status seen in that pane.
    pub previous: Option<String>,
    /// The tasks living in the signal's workspace.
    pub tenants: Vec<Tenant>,
}

/// One thing to do about a signal.
#[derive(Debug)]
pub enum Effect {
    /// Remember the agent status seen in a pane.
    Record { pane: String, status: AgentStatus },
    /// A pane that has gone away has no agent status.
    Forget { pane: String },
    /// Give a task's deferred step its answer, if that is what it is waiting for.
    Resolve { task: String, cause: String },
}

#[verifier::ext_equal]
pub enum EffectModel {
    Record { pane: Seq<char>, status: AgentStatus },
    Forget { pane: Seq<char> },
    Resolve { task: Seq<char>, cause: Seq<char> },
}

impl View for Effect {
    type V = EffectModel;

    open spec fn view(&self) -> EffectModel {
        match self {
            Effect::Record { pane, status } => EffectModel::Record {
                pane: pane@,
                status: *status,
            },
            Effect::Forget { pane } => EffectModel::Forget { pane: pane@ },
            Effect::Resolve { task, cause } => EffectModel::Resolve { task: task@, cause: cause@ },
        }
    }
}

impl DeepView for Effect {
    type V = EffectModel;

    open spec fn deep_view(&self) -> EffectModel {
        self@
    }
}

/// Did an agent that was doing something stop?
pub open spec fn stopped_working(previous: Option<Seq<char>>, status: AgentStatus) -> bool {
    status.stopped() && previous is Some && AgentStatus::of_word(previous->0).busy()
}

/// Forgetting each of some panes.
pub open spec fn forgotten(panes: Seq<Seq<char>>) -> Seq<EffectModel> {
    Seq::new(panes.len(), |i: int| EffectModel::Forget { pane: panes[i] })
}

/// What a closed workspace does about its tasks, one after the other.
pub open spec fn evictions(tenants: Seq<Tenant>, workspace: Seq<char>) -> Seq<EffectModel>
    decreases tenants.len(),
{
    if tenants.len() == 0 {
        Seq::empty()
    } else {
        evictions(tenants.drop_last(), workspace) + forgotten(
            tenants.last().panes.deep_view(),
        ).push(
            EffectModel::Resolve {
                task: tenants.last().task@,
                cause: "workspace "@ + workspace + " closed"@,
            },
        )
    }
}

/// What to do about a signal, by what the store knows.
pub open spec fn effects(signal: SignalModel, facts: Facts) -> Seq<EffectModel> {
    match signal {
        SignalModel::Ignored => Seq::empty(),
        // Only panes a task is working in are worth remembering, and only a task's
        // own panes can resolve anything.
        SignalModel::Status { pane, status } => match facts.owner {
            None => Seq::empty(),
            Some(task) => if stopped_working(facts.previous.deep_view(), status) {
                seq![
                    EffectModel::Record { pane, status },
                    EffectModel::Resolve {
                        task: task@,
                        cause: "its agent went "@ + status.word() + " in pane "@ + pane,
                    },
                ]
            } else {
                seq![EffectModel::Record { pane, status }]
            },
        },
        SignalModel::PaneGone { pane, how } => match facts.owner {
            None => seq![EffectModel::Forget { pane }],
            Some(task) => seq![
                EffectModel::Forget { pane },
                EffectModel::Resolve { task: task@, cause: how + " for pane "@ + pane },
            ],
        },
        SignalModel::WorkspaceGone { workspace } => evictions(facts.tenants@, workspace),
    }
}

fn evict(out: &mut Vec<Effect>, tenant: &Tenant, workspace: &str)
    ensures
        final(out).deep_view() == old(out).deep_view() + forgotten(
            tenant.panes.deep_view(),
        ).push(
            EffectModel::Resolve {
                task: tenant.task@,
                cause: "workspace "@ + workspace@ + " closed"@,
            },
        ),
{
    broadcast use push_deep;

    let ghost before = out.deep_view();
    let ghost panes = tenant.panes.deep_view();
    let ghost f = forgotten(panes);
    assert(out.deep_view() =~= before + f.take(0));
    for i in 0..tenant.panes.len()
        invariant
            panes == tenant.panes.deep_view(),
            f == forgotten(panes),
            out.deep_view() == before + f.take(i as int),
    {
        let ghost prev = *out;
        out.push(Effect::Forget { pane: copy(&tenant.panes[i]) });
        assert(panes[i as int] == tenant.panes@[i as int]@);
        assert(prev.deep_view().push(f[i as int]) =~= before + f.take(i as int + 1));
    }
    assert(f.take(f.len() as int) =~= f);
    let ghost prev = *out;
    let cause: String = cat3("workspace ", workspace, " closed");
    let ghost e = EffectModel::Resolve { task: tenant.task@, cause: cause@ };
    out.push(Effect::Resolve { task: copy(&tenant.task), cause });
    assert(prev.deep_view().push(e) =~= before + f.push(e));
}

/// What to do about a signal, in order.
pub fn act(signal: &Signal, facts: &Facts) -> (r: Vec<Effect>)
    ensures
        r.deep_view() == effects(signal@, *facts),
{
    broadcast use push_deep;

    let mut out: Vec<Effect> = Vec::new();
    assert(out.deep_view() =~= Seq::empty());
    match signal {
        Signal::Ignored => {},
        Signal::Status { pane, status } => {
            if let Some(task) = &facts.owner {
                out.push(Effect::Record { pane: copy(pane), status: *status });
                let was_busy: bool = match &facts.previous {
                    Some(word) => AgentStatus::parse(word).was_working(),
                    None => false,
                };
                if status.is_stopped() && was_busy {
                    out.push(
                        Effect::Resolve {
                            task: copy(task),
                            cause: cat4("its agent went ", status.as_str(), " in pane ", pane),
                        },
                    );
                }
            }
        },
        Signal::PaneGone { pane, how } => {
            out.push(Effect::Forget { pane: copy(pane) });
            if let Some(task) = &facts.owner {
                out.push(
                    Effect::Resolve { task: copy(task), cause: cat3(how, " for pane ", pane) },
                );
            }
        },
        Signal::WorkspaceGone { workspace } => {
            assert(out.deep_view() =~= evictions(facts.tenants@.take(0), workspace@));
            for i in 0..facts.tenants.len()
                invariant
                    out.deep_view() == evictions(facts.tenants@.take(i as int), workspace@),
            {
                proof {
                    assert(facts.tenants@.take(i as int + 1).drop_last()
                        =~= facts.tenants@.take(i as int));
                    assert(facts.tenants@.take(i as int + 1).last() == facts.tenants@[i as int]);
                }
                evict(&mut out, &facts.tenants[i], workspace);
            }
            assert(facts.tenants@.take(facts.tenants.len() as int) =~= facts.tenants@);
        },
    }
    assert(out.deep_view() =~= effects(signal@, *facts));
    out
}

/// A status change resolves something only where the pane is a task's and the agent in
/// it was seen doing something before it stopped.
pub proof fn only_an_ending_resolves(pane: Seq<char>, status: AgentStatus, facts: Facts, i: int)
    requires
        0 <= i < effects(SignalModel::Status { pane, status }, facts).len(),
        effects(SignalModel::Status { pane, status }, facts)[i] is Resolve,
    ensures
        status.stopped(),
        facts.owner is Some,
        facts.previous is Some && AgentStatus::of_word(facts.previous->0@).busy(),
{
}

/// Do some effects give a task's step its answer?
pub open spec fn resolves(effects: Seq<EffectModel>, task: Seq<char>) -> bool {
    exists|i: int|
        0 <= i < effects.len() && (#[trigger] effects[i] matches EffectModel::Resolve {
            task: whose,
            ..
        } && whose == task)
}

/// An agent that was seen working or blocked in a task's pane and is then done or idle
/// resolves that task, and only that one; any other change of its status resolves nothing.
/// The status is remembered either way. A pane that is no task's is no matter.
pub proof fn an_ending_resolves_its_task(
    pane: Seq<char>,
    word: Seq<char>,
    workspace: Option<Seq<char>>,
    facts: Facts,
)
    ensures
        ({
            let signal = meaning(
                Some("pane.agent_status_changed"@),
                Some(pane),
                Some(word),
                workspace,
            );
            let does = effects(signal, facts);
            let was = facts.previous.deep_view();
            let over = (word == "done"@ || word == "idle"@) && (was == Some("working"@) || was
                == Some("blocked"@));
            &&& facts.owner is None ==> does.len() == 0
            &&& facts.owner is Some ==> {
                &&& does.len() == (if over {
                    2nat
                } else {
                    1nat
                })
                &&& does[0] matches EffectModel::Record { pane: at, status } && at == pane
                    && AgentStatus::of_word(word) == status
                &&& over ==> resolves(does, facts.owner->0@)
                &&& over ==> does[1] is Resolve && ends_with(does[1]->cause, pane)
            }
        }),
{
    agent_words_differ();
    let signal = meaning(
        Some("pane.agent_status_changed"@),
        Some(pane),
        Some(word),
        workspace,
    );
    let does = effects(signal, facts);
    if facts.owner is Some && does.len() == 2 {
        let head = "its agent went "@ + AgentStatus::of_word(word).word() + " in pane "@;
        assert(does[1] is Resolve);
        assert((head + pane).skip(head.len() as int) =~= pane);
    }
}

proof fn agent_words_differ()
    ensures
        "idle"@ != "working"@,
        "idle"@ != "blocked"@,
        "idle"@ != "done"@,
        "working"@ != "blocked"@,
        "working"@ != "done"@,
        "blocked"@ != "done"@,
{
    reveal_strlit("idle");
    reveal_strlit("working");
    reveal_strlit("blocked");
    reveal_strlit("done");
    assert("idle"@[0] == 'i' && "working"@[0] == 'w' && "blocked"@[0] == 'b' && "done"@[0] == 'd');
}

/// What is remembered of a pane is what tells its ending later: an agent that is seen
/// working or blocked and is seen done or idle next resolves its task.
pub proof fn what_is_remembered_tells_the_ending(
    pane: Seq<char>,
    busy: AgentStatus,
    over: AgentStatus,
    before: Facts,
    then: Facts,
)
    requires
        busy == AgentStatus::Working || busy == AgentStatus::Blocked,
        over == AgentStatus::Done || over == AgentStatus::Idle,
        before.owner is Some && then.owner is Some,
        effects(SignalModel::Status { pane, status: busy }, before)[0] matches EffectModel::Record {
            status,
            ..
        } && then.previous.deep_view() == Some(status.word()),
    ensures
        !resolves(
            effects(SignalModel::Status { pane, status: busy }, before),
            before.owner->0@,
        ),
        resolves(effects(SignalModel::Status { pane, status: over }, then), then.owner->0@),
{
    agent_status_words_read_back(busy);
    let does = effects(SignalModel::Status { pane, status: over }, then);
    assert(does[1] is Resolve);
}

/// A pane that exits or closes has no agent any more, and resolves the task it was of.
pub proof fn a_pane_that_goes_resolves_its_task(
    kind: Seq<char>,
    pane: Seq<char>,
    status: Option<Seq<char>>,
    workspace: Option<Seq<char>>,
    facts: Facts,
)
    requires
        kind == "pane.exited"@ || kind == "pane.closed"@,
    ensures
        ({
            let does = effects(meaning(Some(kind), Some(pane), status, workspace), facts);
            &&& does.len() > 0 && does[0] == (EffectModel::Forget { pane })
            &&& facts.owner is None ==> does.len() == 1
            &&& facts.owner is Some ==> does.len() == 2 && does[1] is Resolve && resolves(
                does,
                facts.owner->0@,
            ) && ends_with(does[1]->cause, pane)
        }),
{
    event_kinds_differ();
    let does = effects(meaning(Some(kind), Some(pane), status, workspace), facts);
    if facts.owner is Some {
        let head = kind + " for pane "@;
        assert(does[1] is Resolve);
        assert((head + pane).skip(head.len() as int) =~= pane);
    }
}

proof fn event_kinds_differ()
    ensures
        "pane.agent_status_changed"@ != "pane.exited"@,
        "pane.agent_status_changed"@ != "pane.closed"@,
        "pane.agent_status_changed"@ != "workspace.closed"@,
        "pane.exited"@ != "workspace.closed"@,
        "pane.closed"@ != "workspace.closed"@,
{
    reveal_strlit("pane.agent_status_changed");
    reveal_strlit("pane.exited");
    reveal_strlit("pane.closed");
    reveal_strlit("workspace.closed");
    assert("pane.agent_status_changed"@[5] == 'a' && "pane.exited"@[5] == 'e'
        && "pane.closed"@[5] == 'c' && "workspace.closed"@[0] == 'w' && "pane.exited"@[0] == 'p'
        && "pane.closed"@[0] == 'p' && "pane.agent_status_changed"@[0] == 'p');
}

/// A workspace that closes resolves each task that lives there, and forgets each of their
/// panes; it resolves no other task and forgets no other pane.
pub proof fn a_closed_workspace_resolves_its_tasks(
    pane: Option<Seq<char>>,
    status: Option<Seq<char>>,
    workspace: Seq<char>,
    facts: Facts,
)
    ensures
        ({
            let does = effects(
                meaning(Some("workspace.closed"@), pane, status, Some(workspace)),
                facts,
            );
            &&& forall|i: int|
                0 <= i < facts.tenants@.len() ==> resolves(
                    does,
                    (#[trigger] facts.tenants@[i]).task@,
                )
            &&& forall|i: int, j: int|
                0 <= i < facts.tenants@.len() && 0 <= j < facts.tenants@[i].panes@.len()
                    ==> does.contains(
                    EffectModel::Forget { pane: (#[trigger] facts.tenants@[i].panes@[j])@ },
                )
            &&& forall|e: int| 0 <= e < does.len() ==> comes_of(#[trigger] does[e], facts.tenants@)
        }),
{
    event_kinds_differ();
    evictions_are_complete(facts.tenants@, workspace);
}

/// Is an effect about one of some tenants?
pub open spec fn comes_of(effect: EffectModel, tenants: Seq<Tenant>) -> bool {
    match effect {
        EffectModel::Record { .. } => false,
        EffectModel::Forget { pane } => exists|i: int|
            0 <= i < tenants.len() && (#[trigger] tenants[i]).panes.deep_view().contains(pane),
        EffectModel::Resolve { task, .. } => exists|i: int|
            0 <= i < tenants.len() && (#[trigger] tenants[i]).task@ == task,
    }
}

proof fn evictions_are_complete(tenants: Seq<Tenant>, workspace: Seq<char>)
    ensures
        ({
            let does = evictions(tenants, workspace);
            &&& forall|i: int|
                0 <= i < tenants.len() ==> resolves(does, (#[trigger] tenants[i]).task@)
            &&& forall|i: int, j: int|
                0 <= i < tenants.len() && 0 <= j < tenants[i].panes@.len() ==> does.contains(
                    EffectModel::Forget { pane: (#[trigger] tenants[i].panes@[j])@ },
                )
            &&& forall|e: int| 0 <= e < does.len() ==> comes_of(#[trigger] does[e], tenants)
        }),
    decreases tenants.len(),
{
    if tenants.len() > 0 {
        let front = tenants.drop_last();
        let last = tenants.last();
        let before = evictions(front, workspace);
        let panes = last.panes.deep_view();
        let more = forgotten(panes).push(
            EffectModel::Resolve {
                task: last.task@,
                cause: "workspace "@ + workspace + " closed"@,
            },
        );
        let does = evictions(tenants, workspace);
        evictions_are_complete(front, workspace);
        assert(does == before + more);
        assert forall|i: int| 0 <= i < tenants.len() implies resolves(
            does,
            (#[trigger] tenants[i]).task@,
        ) by {
            if i < front.len() {
                assert(resolves(before, front[i].task@));
                let e = choose|e: int|
                    0 <= e < before.len() && (#[trigger] before[e] matches EffectModel::Resolve {
                        task: whose,
                        ..
                    } && whose == front[i].task@);
                assert(does[e] == before[e]);
            } else {
                assert(does[(before.len() + panes.len()) as int] == more[panes.len() as int]);
            }
        }
        assert forall|i: int, j: int|
            0 <= i < tenants.len() && 0 <= j < tenants[i].panes@.len() implies does.contains(
            EffectModel::Forget { pane: (#[trigger] tenants[i].panes@[j])@ },
        ) by {
            if i < front.len() {
                let x = EffectModel::Forget { pane: front[i].panes@[j]@ };
                assert(before.contains(x));
                assert(does[before.index_of(x)] == x);
            } else {
                assert(panes[j] == last.panes@[j]@);
                assert(does[before.len() + j] == more[j]);
            }
        }
        assert forall|e: int| 0 <= e < does.len() implies comes_of(#[trigger] does[e], tenants) by {
            if e < before.len() {
                assert(comes_of(before[e], front));
                still_comes_of(before[e], tenants);
            } else {
                assert(does[e] == more[e - before.len()]);
                assert(tenants[tenants.len() - 1] == last);
                if e - before.len() < panes.len() {
                    assert(panes.contains(panes[e - before.len()]));
                }
            }
        }
    }
}

proof fn still_comes_of(effect: EffectModel, tenants: Seq<Tenant>)
    requires
        tenants.len() > 0,
        comes_of(effect, tenants.drop_last()),
    ensures
        comes_of(effect, tenants),
{
    let front = tenants.drop_last();
    match effect {
        EffectModel::Forget { pane } => {
            let i = choose|i: int|
                0 <= i < front.len() && (#[trigger] front[i]).panes.deep_view().contains(pane);
            assert(tenants[i] == front[i]);
        },
        EffectModel::Resolve { task, .. } => {
            let i = choose|i: int| 0 <= i < front.len() && (#[trigger] front[i]).task@ == task;
            assert(tenants[i] == front[i]);
        },
        EffectModel::Record { .. } => {},
    }
}

/// An event that is none of these, or that does not say which pane or workspace it is about,
/// does nothing.
pub proof fn other_events_do_nothing(
    kind: Option<Seq<char>>,
    pane: Option<Seq<char>>,
    status: Option<Seq<char>>,
    workspace: Option<Seq<char>>,
    facts: Facts,
)
    requires
        ({
            ||| kind != Some("pane.agent_status_changed"@) && kind != Some("pane.exited"@) && kind
                != Some("pane.closed"@) && kind != Some("workspace.closed"@)
            ||| kind == Some("pane.agent_status_changed"@) && (pane is None || status is None)
            ||| (kind == Some("pane.exited"@) || kind == Some("pane.closed"@)) && pane is None
            ||| kind == Some("workspace.closed"@) && workspace is None
        }),
    ensures
        effects(meaning(kind, pane, status, workspace), facts).len() == 0,
{
    event_kinds_differ();
}

// ---------------------------------------------------------------------------
// Draining
// ---------------------------------------------------------------------------

/// What a drain did. Returned rather than logged so a tick can report it.
#[derive(Debug, PartialEq, Eq)]
pub struct Drained {
    /// Raw events read this time.
    pub consumed: usize,
    /// Deferred steps that got their answer.
    pub resolved: usize,
    /// Where the cursor now stands.
    pub cursor: i64,
}

impl Drained {
    /// A drain that has read nothing yet.
    pub fn from(cursor: i64) -> (r: Drained)
        ensures
            r.consumed == 0,
            r.resolved == 0,
            r.cursor == cursor,
    {
        Drained { consumed: 0, resolved: 0, cursor }
    }

    /// One more event was read, whatever came of it. An event that cannot be dealt with
    /// must not be read again forever, or one bad payload stops every task in the store
    /// from ever finishing.
    pub fn read(&mut self, seq: i64, resolved: usize)
        requires
            old(self).consumed < usize::MAX,
            old(self).resolved + resolved <= usize::MAX,
        ensures
            final(self).consumed == old(self).consumed + 1,
            final(self).resolved == old(self).resolved + resolved,
            final(self).cursor == seq,
    {
        self.consumed = self.consumed + 1;
        self.resolved = self.resolved + resolved;
        self.cursor = seq;
    }
}

/// Where the cursor stands after reading some events.
pub open spec fn cursor_after(cursor: i64, seqs: Seq<i64>) -> i64 {
    if seqs.len() == 0 {
        cursor
    } else {
        seqs.last()
    }
}

/// An event is read once: after a batch of events that came after the cursor, in order,
/// the cursor is behind none of them, and has not gone back.
pub proof fn no_event_is_read_twice(cursor: i64, seqs: Seq<i64>)
    requires
        forall|i: int| 0 <= i < seqs.len() ==> cursor < #[trigger] seqs[i],
        forall|i: int, j: int| 0 <= i < j < seqs.len() ==> seqs[i] < seqs[j],
    ensures
        cursor <= cursor_after(cursor, seqs),
        forall|i: int| 0 <= i < seqs.len() ==> #[trigger] seqs[i] <= cursor_after(cursor, seqs),
{
}

/// Read a batch of events: which of them resolved how many steps, one after the other.
pub fn drain(cursor: i64, seqs: &Vec<i64>, resolved: &Vec<usize>) -> (r: Drained)
    requires
        resolved.len() == seqs.len(),
        sum(resolved@) <= usize::MAX,
    ensures
        r.consumed == seqs.len(),
        r.resolved == sum(resolved@),
        r.cursor == cursor_after(cursor, seqs@),
{
    let mut drained: Drained = Drained::from(cursor);
    assert(resolved@.take(0) =~= Seq::empty());
    for i in 0..seqs.len()
        invariant
            resolved.len() == seqs.len(),
            sum(resolved@) <= usize::MAX,
            drained.consumed == i,
            drained.resolved == sum(resolved@.take(i as int)),
            drained.cursor == cursor_after(cursor, seqs@.take(i as int)),
    {
        proof {
            assert(resolved@.take(i as int + 1).drop_last() =~= resolved@.take(i as int));
            sum_grows(resolved@, i as int + 1);
        }
        drained.read(seqs[i], resolved[i]);
        assert(seqs@.take(i as int + 1).last() == seqs@[i as int]);
    }
    assert(seqs@.take(seqs.len() as int) =~= seqs@);
    assert(resolved@.take(resolved.len() as int) =~= resolved@);
    drained
}

pub open spec fn sum(counts: Seq<usize>) -> nat
    decreases counts.len(),
{
    if counts.len() == 0 {
        0
    } else {
        sum(counts.drop_last()) + counts.last() as nat
    }
}

proof fn sum_grows(counts: Seq<usize>, n: int)
    requires
        0 <= n <= counts.len(),
    ensures
        sum(counts.take(n)) <= sum(counts),
    decreases counts.len() - n,
{
    if n < counts.len() {
        assert(counts.take(n + 1).drop_last() =~= counts.take(n));
        sum_grows(counts, n + 1);
    } else {
        assert(counts.take(n) =~= counts);
    }
}

// ---------------------------------------------------------------------------
// Answering
// ---------------------------------------------------------------------------

/// The beginning of a commit's name.
pub open spec fn short(sha: Seq<char>) -> Seq<char> {
    if sha.len() > 7 {
        sha.take(7)
    } else {
        sha
    }
}

pub fn short_sha(sha: &str) -> (r: String)
    ensures
        r@ == short(sha@),
{
    let n: usize = sha.unicode_len();
    if n > 7 {
        assert(sha@.subrange(0, 7) =~= sha@.take(7));
        sha.substring_char(0, 7).to_owned()
    } else {
        copy(sha)
    }
}

/// Is a task at a step that an agent stopping answers?
pub open spec fn awaits_agent(t: TaskModel, policy: Policy) -> bool {
    t.status == Status::Running && match position(t) {
        Some(at) => policy.awaited(at.pipeline, at.step) == Some("agent_stopped"@),
        None => false,
    }
}

/// The answer to a step whose agent stopped: the latest check about it, or what the
/// step says a missing one means. Where it says nothing, that is an error: an agent that
/// stopped without leaving a check may have run out of turns, crashed, or been
/// interrupted, and none of those are a pass.
pub open spec fn answer(
    policy: Policy,
    at: StepAtModel,
    checks: Seq<CheckModel>,
    cause: Seq<char>,
) -> ReportModel {
    match latest(checks, at.pipeline, at.step, at.round) {
        Some(c) => ReportModel::said(
            verdict_of(c.conclusion),
            cause + "; "@ + c.id + " "@ + c.conclusion.word() + " by "@ + c.author + " (sha "@
                + short(c.sha) + ")"@,
        ),
        None => ReportModel::said(
            match policy.missing(at.pipeline, at.step) {
                Some(outcome) => outcome,
                None => Outcome::Error,
            },
            cause + ", leaving no check for "@ + at.text()
                + " — nothing says whether it worked"@,
        ),
    }
}

/// Give a task's deferred step its answer, if that is what the task is waiting for:
/// the step it is about, and what to finish it with.
///
/// Most events reach here about a task that is not waiting on anything, so declining is
/// the common case and must be quiet and harmless. Without the policy there is no
/// telling whether this step is even deferred, and guessing either way is worse than
/// leaving it alone. Nothing resolves a step that awaits another signal but that signal.
pub fn resolve_awaiting(
    task: &Task,
    policy: Option<&Policy>,
    checks: &Vec<Check>,
    cause: &str,
) -> (r: Option<(StepAt, StepReport)>)
    ensures
        match r {
            Some((at, report)) => policy is Some && awaits_agent(task@, *policy->0) && position(
                task@,
            ) == Some(at@) && report@ == answer(
                *policy->0,
                at@,
                checks.deep_view(),
                cause@,
            ),
            None => policy is None || !awaits_agent(task@, *policy->0),
        },
{
    if task.status != Status::Running {
        return None;
    }
    let at: StepAt = match StepAt::of(task) {
        Some(at) => at,
        None => {
            return None;
        },
    };
    let known: &Policy = match policy {
        Some(known) => known,
        None => {
            return None;
        },
    };
    let waiting: bool = match known.step_await(&at.pipeline, &at.step) {
        Some(signal) => same(signal, "agent_stopped"),
        None => false,
    };
    if !waiting {
        return None;
    }
    let report: StepReport = match latest_for_step(checks, &at.pipeline, &at.step, at.round) {
        Some(c) => StepReport::verdict(
            outcome_of(c.conclusion),
            cat7(cause, "; ", &c.id, " ", c.conclusion.as_str(), " by ", &c.author).concat(
                " (sha ",
            ).concat(&short_sha(&c.sha)).concat(")"),
        ),
        None => StepReport::verdict(
            match known.step_on_missing(&at.pipeline, &at.step) {
                Some(outcome) => outcome,
                None => Outcome::Error,
            },
            cat4(
                cause,
                ", leaving no check for ",
                &at.text(),
                " — nothing says whether it worked",
            ),
        ),
    };
    Some((at, report))
}

/// Is the wait of a task's step over without an answer?
pub open spec fn overdue(t: TaskModel, policy: Policy, now: i64) -> bool {
    &&& t.status == Status::Running
    &&& t.await_deadline is Some && t.await_deadline->0 <= now
    &&& position(t) is Some && policy.awaited(
        position(t)->0.pipeline,
        position(t)->0.step,
    ) is Some
}

/// Give a task's deferred step the verdict of its timeout, if its deadline has passed:
/// `on_timeout`, or an error where the step says nothing.
pub fn resolve_overdue(task: &Task, policy: &Policy, now: i64) -> (r: Option<(StepAt, StepReport)>)
    ensures
        match r {
            Some((at, report)) => overdue(task@, *policy, now) && position(task@) == Some(at@)
                && report@ == ReportModel::said(
                match policy.late(at@.pipeline, at@.step) {
                    Some(outcome) => outcome,
                    None => Outcome::Error,
                },
                "timed out waiting for "@ + policy.awaited(at@.pipeline, at@.step)->0,
            ),
            None => !overdue(task@, *policy, now),
        },
{
    if task.status != Status::Running {
        return None;
    }
    match task.await_deadline {
        Some(deadline) => {
            if deadline > now {
                return None;
            }
        },
        None => {
            return None;
        },
    }
    match StepAt::of(task) {
        Some(at) => match policy.step_await(&at.pipeline, &at.step) {
            Some(signal) => {
                let note: String = crate::text::cat2("timed out waiting for ", signal);
                let outcome: Outcome = match policy.step_on_timeout(&at.pipeline, &at.step) {
                    Some(outcome) => outcome,
                    None => Outcome::Error,
                };
                Some((at, StepReport::verdict(outcome, note)))
            },
            None => None,
        },
        None => None,
    }
}

/// The store's own record of a pane's agent status, for `shep get`.
pub fn pane_status(last: &Option<String>) -> (r: Option<AgentStatus>)
    ensures
        r == (match last {
            Some(word) => Some(AgentStatus::of_word(word@)),
            None => None,
        }),
{
    match last {
        Some(word) => Some(AgentStatus::parse(word)),
        None => None,
    }
}

// ---------------------------------------------------------------------------
// What an answer is
// ---------------------------------------------------------------------------

/// A running task waits for its agent exactly where the step it is at awaits that signal.
pub proof fn an_agent_answers_its_own_step(t: TaskModel, policy: Policy)
    ensures
        awaits_agent(t, policy) <==> t.status == Status::Running && t.pipeline is Some
            && t.step is Some && policy.awaited(t.pipeline->0, t.step->0) == Some(
            "agent_stopped"@,
        ),
{
}

/// The answer of an agent that stopped is what the latest check about the step at its round
/// concluded: a pass passes it, a fail rejects it. Where there is none, it is what the step
/// says that means, and an error where it does not say. The cause comes first in the note.
pub proof fn an_answer_is_the_latest_verdict(
    policy: Policy,
    at: StepAtModel,
    checks: Seq<CheckModel>,
    cause: Seq<char>,
    i: int,
)
    ensures
        ({
            let said = answer(policy, at, checks, cause);
            let about = |c: CheckModel|
                c.pipeline == Some(at.pipeline) && c.step == Some(at.step) && c.round == Some(
                    at.round,
                );
            &&& said.note is Some && said.note->0.len() >= cause.len() && said.note->0.take(
                cause.len() as int,
            ) == cause
            &&& 0 <= i < checks.len() && about(checks[i]) && (forall|j: int|
                0 <= j < checks.len() && j != i && about(#[trigger] checks[j]) ==> checks[j].created
                    < checks[i].created) ==> said.outcome == (if checks[i].conclusion
                == Conclusion::Pass {
                Outcome::Pass
            } else {
                Outcome::Reject
            })
            &&& (forall|j: int| 0 <= j < checks.len() ==> !about(#[trigger] checks[j]))
                ==> said.outcome == (if policy.missing(at.pipeline, at.step) is Some {
                policy.missing(at.pipeline, at.step)->0
            } else {
                Outcome::Error
            })
        }),
{
    let said = answer(policy, at, checks, cause);
    latest_is_latest(checks, at.pipeline, at.step, at.round);
    match latest(checks, at.pipeline, at.step, at.round) {
        Some(c) => {
            let k = checks.index_of(c);
            assert(checks[k] == c);
            assert(c.judges(at.pipeline, at.step, at.round));
            let rest = said.note->0;
            assert(rest.take(cause.len() as int) =~= cause);
            if 0 <= i < checks.len() && checks[i].judges(at.pipeline, at.step, at.round) {
                assert(!checks[i].later(c));
            }
        },
        None => {
            assert(said.note->0.take(cause.len() as int) =~= cause);
            if 0 <= i < checks.len() {
                assert(!checks[i].judges(at.pipeline, at.step, at.round));
            }
        },
    }
}

/// A wait is over exactly at its deadline and after, for a task that runs a step that awaits
/// a signal. One without a deadline is never over.
pub proof fn a_wait_is_over_at_its_deadline(t: TaskModel, policy: Policy, now: i64)
    ensures
        overdue(t, policy, now) <==> t.status == Status::Running && t.pipeline is Some
            && t.step is Some && policy.awaited(t.pipeline->0, t.step->0) is Some
            && t.await_deadline is Some && now >= t.await_deadline->0,
{
}

/// What an agent that stopped leaves moves its task: a passing check to where a pass goes, a
/// failing one to where a rejection goes. Where it leaves no check and its step does not say
/// what that means, the task is parked where it stands.
pub proof fn an_agent_that_stopped_moves_the_task(
    policy: Policy,
    t: TaskModel,
    checks: Seq<CheckModel>,
    cause: Seq<char>,
    now: i64,
    i: int,
)
    requires
        t.status == Status::Running,
        t.pipeline is Some && t.step is Some,
    ensures
        ({
            let at = position(t)->0;
            let after = super::transition::outcome_of(
                t,
                finished(policy, t, at, answer(policy, at, checks, cause), now),
                now,
            )->task;
            let about = |c: CheckModel|
                c.pipeline == t.pipeline && c.step == t.step && c.round == Some(t.round);
            let latest_is = 0 <= i < checks.len() && about(checks[i]) && forall|j: int|
                0 <= j < checks.len() && j != i && about(#[trigger] checks[j]) ==> checks[j].created
                    < checks[i].created;
            let none_is = forall|j: int| 0 <= j < checks.len() ==> !about(#[trigger] checks[j]);
            &&& latest_is && checks[i].conclusion == Conclusion::Pass ==> went(
                t,
                passes(policy, t),
                Status::Queued,
                now,
                after,
            )
            &&& latest_is && checks[i].conclusion == Conclusion::Fail ==> went(
                t,
                fails(policy, t),
                Status::Queued,
                now,
                after,
            )
            &&& none_is && policy.missing(at.pipeline, at.step) is None ==> after == (TaskModel {
                status: Status::Parked,
                await_deadline: None,
                updated: now,
                ..t
            })
        }),
{
    let at = position(t)->0;
    let said = answer(policy, at, checks, cause);
    an_answer_is_the_latest_verdict(policy, at, checks, cause, i);
    if said.outcome == Outcome::Pass || said.outcome == Outcome::Reject {
        a_verdict_moves_the_task(policy, t, at, said, now);
    } else if said.outcome == Outcome::Error {
        an_error_parks_the_task(policy, t, at, said, now);
    }
    let about = |c: CheckModel|
        c.pipeline == t.pipeline && c.step == t.step && c.round == Some(t.round);
    let same = |c: CheckModel|
        c.pipeline == Some(at.pipeline) && c.step == Some(at.step) && c.round == Some(at.round);
    assert(forall|c: CheckModel| #[trigger] about(c) == same(c));
    if forall|j: int| 0 <= j < checks.len() ==> !about(#[trigger] checks[j]) {
        assert forall|j: int| 0 <= j < checks.len() implies !same(#[trigger] checks[j]) by {
            assert(!about(checks[j]));
        }
    }
    if 0 <= i < checks.len() && about(checks[i]) && forall|j: int|
        0 <= j < checks.len() && j != i && about(#[trigger] checks[j]) ==> checks[j].created
            < checks[i].created {
        assert forall|j: int|
            0 <= j < checks.len() && j != i && same(#[trigger] checks[j]) implies checks[j].created
            < checks[i].created by {
            assert(about(checks[j]));
        }
    }
}

/// Each event moves the cursor to itself, and adds what it resolved to what was resolved.
pub proof fn each_event_counts_for_itself(
    cursor: i64,
    seqs: Seq<i64>,
    next: i64,
    counts: Seq<usize>,
    n: usize,
)
    ensures
        cursor_after(cursor, Seq::empty()) == cursor,
        cursor_after(cursor, seqs.push(next)) == next,
        sum(Seq::empty()) == 0,
        sum(counts.push(n)) == sum(counts) + n,
{
    assert(counts.push(n).drop_last() =~= counts);
}

/// A commit is told by the first seven characters of its name, or by all of a shorter one.
pub proof fn a_commit_is_told_by_its_beginning(sha: Seq<char>)
    ensures
        sha.len() <= 7 ==> short(sha) == sha,
        sha.len() > 7 ==> short(sha).len() == 7 && short(sha) == sha.subrange(0, 7),
{
    if sha.len() > 7 {
        assert(sha.take(7) =~= sha.subrange(0, 7));
    }
}

} // verus!
