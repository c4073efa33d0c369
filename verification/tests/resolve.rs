use shepherd::config::{Config, Pipeline, Policy, Signal as Declared, Step, StepDef};
use shepherd::db::check::{Check, Conclusion};
use shepherd::db::raw_event::RawEvent;
use shepherd::db::task::{Status, Task};
use shepherd::engine::resolve::{
    act, drain, interpret, pane_status, read, resolve_awaiting, resolve_overdue, short_sha,
    AgentStatus, Drained, Effect, Facts, Signal, Tenant,
};
use shepherd::table::Table;
use shepherd::Outcome;

fn raw(body: &str) -> RawEvent {
    RawEvent { seq: 1, ts: 1, body: body.to_string() }
}

fn told(s: &Signal) -> String {
    match s {
        Signal::Status { pane, status } => format!("{pane} is {}", status.as_str()),
        Signal::PaneGone { pane, how } => format!("{how} {pane}"),
        Signal::WorkspaceGone { workspace } => format!("{workspace} closed"),
        Signal::Ignored => "ignored".to_string(),
    }
}

fn done(effects: &[Effect]) -> Vec<String> {
    effects
        .iter()
        .map(|e| match e {
            Effect::Record { pane, status } => format!("record {pane} {}", status.as_str()),
            Effect::Forget { pane } => format!("forget {pane}"),
            Effect::Resolve { task, cause } => format!("resolve {task}: {cause}"),
        })
        .collect()
}

fn facts(owner: Option<&str>, previous: Option<&str>) -> Facts {
    Facts {
        owner: owner.map(|s| s.to_string()),
        previous: previous.map(|s| s.to_string()),
        tenants: Vec::new(),
    }
}

fn changed(status: AgentStatus) -> Signal {
    Signal::Status { pane: "w:p".to_string(), status }
}

#[test]
fn agent_statuses_are_read_back() {
    for s in [
        AgentStatus::Idle,
        AgentStatus::Working,
        AgentStatus::Blocked,
        AgentStatus::Done,
        AgentStatus::Unknown,
    ] {
        assert_eq!(AgentStatus::parse(s.as_str()), s);
    }
    assert_eq!(AgentStatus::parse("dancing"), AgentStatus::Unknown);
    assert!(AgentStatus::Idle.is_stopped() && AgentStatus::Done.is_stopped());
    assert!(!AgentStatus::Unknown.is_stopped() && !AgentStatus::Unknown.was_working());
    assert!(AgentStatus::Working.was_working() && AgentStatus::Blocked.was_working());
    assert_eq!(pane_status(&Some("done".to_string())), Some(AgentStatus::Done));
    assert_eq!(pane_status(&None), None);
}

#[test]
fn herdr_events_are_read() {
    let status = "{\"event\":\"pane_agent_status_changed\",\
                  \"data\":{\"pane_id\":\"w:p\",\"agent_status\":\"done\"}}";
    assert_eq!(told(&read(&raw(status))), "w:p is done");
    let flat = "{\"event\":\"pane_agent_status_changed\",\"pane_id\":\"w:p\",\"agent_status\":\"x\"}";
    assert_eq!(told(&read(&raw(flat))), "w:p is unknown");
    let gone = "{\"event\":\"pane_exited\",\"data\":{\"pane_id\":\"w:p\"}}";
    assert_eq!(told(&read(&raw(gone))), "pane.exited w:p");
    let closed = "{\"event\":\"pane_closed\",\"data\":{\"pane_id\":\"w:p\"}}";
    assert_eq!(told(&read(&raw(closed))), "pane.closed w:p");
    let workspace = "{\"event\":\"workspace_closed\",\"data\":{\"workspace_id\":\"w\"}}";
    assert_eq!(told(&read(&raw(workspace))), "w closed");
    for body in [
        "nonsense",
        "{}",
        "{\"event\":\"tab_opened\",\"data\":{\"pane_id\":\"w:p\"}}",
        "{\"event\":\"pane_exited\",\"data\":{}}",
        "{\"event\":\"pane_agent_status_changed\",\"data\":{\"pane_id\":\"w:p\"}}",
        "{\"event\":\"workspace_closed\",\"data\":{\"workspace_id\":3}}",
    ] {
        assert_eq!(told(&read(&raw(body))), "ignored", "{body}");
    }
}

#[test]
fn an_event_is_interpreted_by_its_name() {
    let kind = Some("pane.exited".to_string());
    assert_eq!(told(&interpret(&kind, Some("p".to_string()), None, None)), "pane.exited p");
    assert_eq!(told(&interpret(&kind, None, None, None)), "ignored");
    assert_eq!(told(&interpret(&None, Some("p".to_string()), None, None)), "ignored");
}

#[test]
fn only_the_edge_from_working_to_stopped_resolves() {
    let works = facts(Some("t-1"), Some("working"));
    assert_eq!(
        done(&act(&changed(AgentStatus::Done), &works)),
        ["record w:p done", "resolve t-1: its agent went done in pane w:p"]
    );
    assert_eq!(
        done(&act(&changed(AgentStatus::Idle), &facts(Some("t-1"), Some("blocked")))),
        ["record w:p idle", "resolve t-1: its agent went idle in pane w:p"]
    );
    assert_eq!(done(&act(&changed(AgentStatus::Blocked), &works)), ["record w:p blocked"]);
    assert_eq!(
        done(&act(&changed(AgentStatus::Done), &facts(Some("t-1"), Some("idle")))),
        ["record w:p done"]
    );
    assert_eq!(
        done(&act(&changed(AgentStatus::Done), &facts(Some("t-1"), None))),
        ["record w:p done"]
    );
    assert!(act(&changed(AgentStatus::Done), &facts(None, Some("working"))).is_empty());
}

#[test]
fn a_pane_that_goes_away_is_forgotten() {
    let gone = Signal::PaneGone { pane: "w:p".to_string(), how: "pane.exited".to_string() };
    assert_eq!(done(&act(&gone, &facts(None, None))), ["forget w:p"]);
    assert_eq!(
        done(&act(&gone, &facts(Some("t-1"), None))),
        ["forget w:p", "resolve t-1: pane.exited for pane w:p"]
    );
    assert!(act(&Signal::Ignored, &facts(Some("t-1"), None)).is_empty());
}

#[test]
fn a_closed_workspace_takes_its_panes_with_it() {
    let closed = Signal::WorkspaceGone { workspace: "w".to_string() };
    let f = Facts {
        owner: None,
        previous: None,
        tenants: vec![
            Tenant { task: "t-1".to_string(), panes: vec!["a".to_string(), "b".to_string()] },
            Tenant { task: "t-2".to_string(), panes: Vec::new() },
        ],
    };
    assert_eq!(
        done(&act(&closed, &f)),
        [
            "forget a", "forget b", "resolve t-1: workspace w closed",
            "resolve t-2: workspace w closed",
        ]
    );
}

#[test]
fn a_drain_moves_the_cursor_past_what_it_read() {
    let d = drain(5, &vec![6, 9, 12], &vec![1, 0, 2]);
    assert_eq!(d, Drained { consumed: 3, resolved: 3, cursor: 12 });
    assert_eq!(drain(5, &Vec::new(), &Vec::new()), Drained { consumed: 0, resolved: 0, cursor: 5 });
    let mut one = Drained::from(5);
    one.read(7, 1);
    assert_eq!(one, Drained { consumed: 1, resolved: 1, cursor: 7 });
}

fn policy(on_missing: Option<Outcome>, on_timeout: Option<Outcome>) -> Policy {
    let agent = StepDef {
        run: "a".to_string(),
        await_on: Some("agent_stopped".to_string()),
        on_missing,
        timeout: Some("1m".to_string()),
        on_timeout,
    };
    let other = StepDef {
        run: "b".to_string(),
        await_on: Some("ci".to_string()),
        on_missing: None,
        timeout: None,
        on_timeout: None,
    };
    let p = Pipeline {
        steps: vec![Step::Spec(agent), Step::Spec(other), Step::Name("c".to_string())],
        on_fail: None,
        max_rounds: None,
        on_exhausted: None,
    };
    Policy {
        config: Config {
            pipeline: Table::new().with("p".to_string(), p),
            types: Table::new(),
            signal: Table::new()
                .with("ci".to_string(), Declared { description: "CI".to_string() }),
        },
        repo: "/r".to_string(),
        path: "/r/c".to_string(),
        script_dirs: Vec::new(),
        runnable: Vec::new(),
    }
}

fn task(status: Status, step: Option<&str>) -> Task {
    Task {
        id: "t-1".to_string(),
        brief: "b".to_string(),
        kind: "k".to_string(),
        pipeline: Some("p".to_string()),
        step: step.map(|s| s.to_string()),
        round: 1,
        status,
        plan: Vec::new(),
        await_deadline: Some(100),
        repo: "/r".to_string(),
        worktree: None,
        branch: None,
        base: None,
        workspace_id: None,
        created: 0,
        updated: 0,
    }
}

fn judged(conclusion: Conclusion) -> Vec<Check> {
    vec![Check {
        id: "c-7".to_string(),
        task_id: "t-1".to_string(),
        pipeline: Some("p".to_string()),
        step: Some("a".to_string()),
        round: Some(1),
        author: "me".to_string(),
        sha: "0123456789abcdef".to_string(),
        conclusion,
        body: None,
        created: 5,
    }]
}

#[test]
fn a_stopped_agent_is_answered_by_its_check() {
    let p = policy(Some(Outcome::Pass), None);
    let t = task(Status::Running, Some("a"));
    let (at, r) = resolve_awaiting(&t, Some(&p), &judged(Conclusion::Fail), "it stopped")
        .expect("an answer");
    assert_eq!(at.text(), "p/a round 1");
    assert_eq!(r.outcome, Outcome::Reject);
    assert_eq!(r.note.as_deref(), Some("it stopped; c-7 fail by me (sha 0123456)"));
    let (_, r) =
        resolve_awaiting(&t, Some(&p), &judged(Conclusion::Pass), "x").expect("an answer");
    assert_eq!(r.outcome, Outcome::Pass);
}

#[test]
fn a_missing_check_means_what_the_step_says() {
    let t = task(Status::Running, Some("a"));
    let with = policy(Some(Outcome::Pass), None);
    let (_, r) = resolve_awaiting(&t, Some(&with), &Vec::new(), "it stopped").expect("an answer");
    assert_eq!(r.outcome, Outcome::Pass);
    let without = policy(None, None);
    let (_, r) = resolve_awaiting(&t, Some(&without), &Vec::new(), "it stopped").expect("one");
    assert_eq!(r.outcome, Outcome::Error);
    assert_eq!(
        r.note.as_deref(),
        Some("it stopped, leaving no check for p/a round 1 — nothing says whether it worked")
    );
}

#[test]
fn a_task_that_waits_for_nothing_is_left_alone() {
    let p = policy(None, None);
    let none = Vec::new();
    assert!(resolve_awaiting(&task(Status::Queued, Some("a")), Some(&p), &none, "x").is_none());
    assert!(resolve_awaiting(&task(Status::Running, None), Some(&p), &none, "x").is_none());
    assert!(resolve_awaiting(&task(Status::Running, Some("a")), None, &none, "x").is_none());
    assert!(resolve_awaiting(&task(Status::Running, Some("b")), Some(&p), &none, "x").is_none());
    assert!(resolve_awaiting(&task(Status::Running, Some("c")), Some(&p), &none, "x").is_none());
}

#[test]
fn a_wait_that_is_over_gets_its_timeouts_verdict() {
    let p = policy(None, Some(Outcome::Reject));
    let t = task(Status::Running, Some("a"));
    assert!(resolve_overdue(&t, &p, 99).is_none());
    let (at, r) = resolve_overdue(&t, &p, 100).expect("a verdict");
    assert_eq!(at.text(), "p/a round 1");
    assert_eq!(r.outcome, Outcome::Reject);
    assert_eq!(r.note.as_deref(), Some("timed out waiting for agent_stopped"));
    let (_, r) = resolve_overdue(&t, &policy(None, None), 500).expect("a verdict");
    assert_eq!(r.outcome, Outcome::Error);
    let mut open = task(Status::Running, Some("a"));
    open.await_deadline = None;
    assert!(resolve_overdue(&open, &p, 500).is_none());
    assert!(resolve_overdue(&task(Status::Running, Some("c")), &p, 500).is_none());
    assert!(resolve_overdue(&task(Status::Parked, Some("a")), &p, 500).is_none());
}

#[test]
fn a_commit_is_named_by_its_beginning() {
    assert_eq!(short_sha("0123456789"), "0123456");
    assert_eq!(short_sha("0123456"), "0123456");
    assert_eq!(short_sha("abc"), "abc");
    assert_eq!(short_sha("ééééééééé"), "ééééééé");
}
