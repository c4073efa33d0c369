use shepherd::cmd::trace::summarise;
use shepherd::config::{Config, Pipeline, Policy, Signal, Step, StepDef, TaskType};
use shepherd::db::check::{insert, Check, Conclusion, NewCheck};
use shepherd::db::event::{payload_text, Field, NewEvent};
use shepherd::db::task::{NewTask, Status, Task, TaskPatch};
use shepherd::engine::checks::{settle_by_signal, submit_check, submitted_event, Submission};
use shepherd::engine::flow::{begin_step, finish_step, started, Started};
use shepherd::engine::policy::{awaits_human, policy_failure, policy_for};
use shepherd::engine::recovery::{is_deferred, recover_orphans, requeue, Candidate};
use shepherd::engine::resolve::{resolve_awaiting, resolve_overdue};
use shepherd::engine::step::{
    combine, describe_status, environment, report, tail, verdict_line, Output, StepAt, StepReport,
    StepSpec, Verdict,
};
use shepherd::engine::{
    bind_pane, cancel, create_task, park_task, retry, run_pipeline, transition, Binding, Decision,
    TransitionOutcome,
};
use shepherd::table::Table;
use shepherd::{Error, Outcome};

fn texts(items: &[&str]) -> Vec<String> {
    items.iter().map(|s| s.to_string()).collect()
}

fn waits(run: &str, signal: &str, timeout: Option<&str>) -> Step {
    Step::Spec(StepDef {
        run: run.to_string(),
        await_on: Some(signal.to_string()),
        on_missing: None,
        timeout: timeout.map(|t| t.to_string()),
        on_timeout: None,
    })
}

fn pipeline(steps: Vec<Step>) -> Pipeline {
    Pipeline { steps, on_fail: None, max_rounds: None, on_exhausted: None }
}

fn policy() -> Policy {
    let name = |s: &str| Step::Name(s.to_string());
    let pipelines = Table::new()
        .with("implement".to_string(), pipeline(vec![waits("implement", "agent_stopped", Some("1m"))]))
        .with(
            "review".to_string(),
            Pipeline {
                on_fail: Some("fix".to_string()),
                max_rounds: Some(2),
                ..pipeline(vec![name("lint")])
            },
        )
        .with("handoff".to_string(), pipeline(vec![waits("handoff", "human", None)]))
        .with("empty".to_string(), pipeline(vec![]));
    let types = Table::new().with(
        "feature".to_string(),
        TaskType {
            description: "d".to_string(),
            pipelines: texts(&["implement", "review", "handoff", "empty", "lost"]),
        },
    );
    let signal = Table::new().with("human".to_string(), Signal { description: "you".to_string() });
    Policy {
        config: Config { pipeline: pipelines, types, signal },
        repo: "/r".to_string(),
        path: "/r/c".to_string(),
        script_dirs: texts(&["/r/.shep/scripts"]),
        runnable: ["implement", "lint", "fix", "handoff"]
            .iter()
            .map(|s| format!("/r/.shep/scripts/{s}.sh"))
            .collect(),
    }
}

fn task(status: Status, at: Option<(&str, &str)>) -> Task {
    Task {
        id: "t-1".to_string(),
        brief: "b".to_string(),
        kind: "feature".to_string(),
        pipeline: at.map(|a| a.0.to_string()),
        step: at.map(|a| a.1.to_string()),
        round: 0,
        status,
        plan: texts(&["implement", "review"]),
        await_deadline: None,
        repo: "/r".to_string(),
        worktree: None,
        branch: None,
        base: None,
        workspace_id: None,
        created: 1,
        updated: 1,
    }
}

fn at(pipeline: &str, step: &str, round: i64) -> StepAt {
    StepAt::new(pipeline.to_string(), step.to_string(), round)
}

fn event_text(e: &NewEvent) -> String {
    let mut out = e.kind.clone();
    if let Some(id) = &e.task_id {
        out.push_str(&format!(" {id}"));
    }
    for (key, value) in e.payload.iter().flatten() {
        let shown = match value {
            Field::Text(Some(t)) => t.clone(),
            Field::Text(None) | Field::Number(None) => "null".to_string(),
            Field::Number(Some(n)) => n.to_string(),
            Field::Place { pipeline, step, round } => format!("{pipeline:?}/{step:?}/{round}"),
        };
        out.push_str(&format!(" {key}={shown}"));
    }
    out
}

fn events_of(d: &Decision) -> Vec<String> {
    match d {
        Decision::Apply { events, .. } => events.iter().map(event_text).collect(),
        Decision::Bail(reason) => vec![format!("bail: {reason}")],
    }
}

fn after(t: &Task, d: Decision) -> Task {
    match transition(t, d, 99) {
        TransitionOutcome::Applied(a) => a.task,
        TransitionOutcome::Bailed(reason) => panic!("bailed: {reason}"),
    }
}

fn verdict(outcome: Outcome) -> StepReport {
    StepReport::verdict(outcome, "why".to_string())
}

#[test]
fn a_transition_changes_what_it_says_and_nothing_else() {
    let t = task(Status::Queued, None);
    let d = Decision::apply(TaskPatch::new().status(Status::Parked).round(4))
        .with_event(NewEvent::new("mine"))
        .with_event(NewEvent::for_task("theirs", "t-9"));
    let outcome = transition(&t, d, 99);
    assert!(outcome.is_applied());
    let a = outcome.applied().expect("applied");
    assert_eq!(a.task.status, Status::Parked);
    assert_eq!(a.task.round, 4);
    assert_eq!(a.task.updated, 99);
    assert_eq!((a.task.created, a.task.id.as_str(), a.task.brief.as_str()), (1, "t-1", "b"));
    assert_eq!(a.previous.status, Status::Queued);
    let told: Vec<_> = a.events.iter().map(event_text).collect();
    assert_eq!(told, ["mine t-1", "theirs t-9"]);
}

#[test]
fn bailing_changes_nothing() {
    let t = task(Status::Queued, None);
    let d = Decision::bail("no".to_string()).with_event(NewEvent::new("x"));
    match transition(&t, d, 99) {
        TransitionOutcome::Bailed(reason) => assert_eq!(reason, "no"),
        TransitionOutcome::Applied(_) => panic!("applied"),
    }
}

#[test]
fn events_are_built_up() {
    let e = NewEvent::new("k").task("t-3").caused_by(7);
    assert_eq!((e.kind.as_str(), e.task_id.as_deref(), e.caused_by), ("k", Some("t-3"), Some(7)));
    assert!(e.payload.is_none());
}

#[test]
fn a_new_task_is_queued_with_its_types_plan() {
    let new = NewTask {
        brief: "do it".to_string(),
        kind: "feature".to_string(),
        repo: "/r".to_string(),
        plan: texts(&["implement"]),
    };
    let (t, e) = create_task(&new, "t-4".to_string(), 50);
    assert_eq!((t.id.as_str(), t.status, t.round), ("t-4", Status::Queued, 0));
    assert_eq!((t.created, t.updated), (50, 50));
    assert_eq!(t.plan, texts(&["implement"]));
    assert_eq!(event_text(&e), "task.created t-4 type=feature repo=/r brief=do it");
}

#[test]
fn a_new_task_starts_its_first_step() {
    let p = policy();
    let t = task(Status::Queued, None);
    let (d, plan) = begin_step(&p, &t);
    assert_eq!(events_of(&d), ["task.step_started pipeline=implement step=implement round=0"]);
    let now = after(&t, d);
    assert_eq!(now.status, Status::Running);
    let s = started(&p, &now, &plan.expect("a plan"), "/db", Some("w:p".to_string()), &None);
    match s {
        Ok(Started::Running(spec)) => {
            assert_eq!(spec.script, "/r/.shep/scripts/implement.sh");
            assert_eq!(spec.cwd, "/r");
            assert_eq!(spec.pane.as_deref(), Some("w:p"));
            assert_eq!(spec.db, "/db");
        }
        _ => panic!("a step was expected"),
    }
}

#[test]
fn a_queued_task_goes_on_where_it_is() {
    let p = policy();
    let mut t = task(Status::Queued, Some(("review", "fix")));
    t.round = 1;
    let (d, _) = begin_step(&p, &t);
    assert_eq!(events_of(&d), ["task.step_started pipeline=review step=fix round=1"]);
    let (d, plan) = begin_step(&p, &task(Status::Parked, None));
    assert_eq!(events_of(&d), ["bail: not queued any more (it is parked)"]);
    assert!(plan.is_none());
}

#[test]
fn starting_a_spent_plan_rests_and_a_lost_one_parks() {
    let p = policy();
    let mut t = task(Status::Queued, None);
    t.plan = Vec::new();
    let (d, plan) = begin_step(&p, &t);
    assert_eq!(events_of(&d), ["task.finished"]);
    let now = after(&t, d);
    assert_eq!(now.status, Status::Resting);
    assert!(matches!(
        started(&p, &now, &plan.expect("a plan"), "/db", None, &None),
        Ok(Started::Finished)
    ));
    t.plan = texts(&["lost"]);
    let (d, plan) = begin_step(&p, &t);
    assert_eq!(events_of(&d), ["task.parked reason=no pipeline \"lost\" in config"]);
    assert!(matches!(
        started(&p, &t, &plan.expect("a plan"), "/db", None, &None),
        Ok(Started::Parked { reason }) if reason == "no pipeline \"lost\" in config"
    ));
}

#[test]
fn a_step_without_a_script_says_where_it_looked() {
    let p = policy();
    let t = task(Status::Queued, Some(("review", "gone")));
    let (_, plan) = begin_step(&p, &t);
    let e = started(&p, &t, &plan.expect("a plan"), "/db", None, &Some("/h".to_string())).err();
    assert_eq!(
        e.map(|e| e.message()),
        Some(
            "step \"gone\" has no script — looked in /r/.shep/scripts, /h/.config/shep/scripts"
                .to_string()
        )
    );
}

#[test]
fn passing_queues_the_next_step() {
    let p = policy();
    let mut t = task(Status::Running, Some(("implement", "implement")));
    t.await_deadline = Some(5);
    let d = finish_step(&p, &t, &at("implement", "implement", 0), &verdict(Outcome::Pass), 10);
    assert_eq!(
        events_of(&d),
        ["task.step_finished t-1 pipeline=implement step=implement round=0 outcome=pass note=why"]
    );
    let now = after(&t, d);
    assert_eq!(now.status, Status::Queued);
    assert_eq!((now.pipeline.as_deref(), now.step.as_deref()), (Some("review"), Some("lint")));
    assert_eq!(now.await_deadline, None);
}

#[test]
fn the_last_pass_brings_a_task_to_rest() {
    let p = policy();
    let t = task(Status::Running, Some(("review", "lint")));
    let d = finish_step(&p, &t, &at("review", "lint", 0), &verdict(Outcome::Pass), 10);
    let now = after(&t, d);
    assert_eq!(now.status, Status::Resting);
    assert_eq!((now.pipeline, now.step), (None, None));
}

#[test]
fn rejecting_goes_round_and_then_parks() {
    let p = policy();
    let mut t = task(Status::Running, Some(("review", "lint")));
    let d = finish_step(&p, &t, &at("review", "lint", 0), &verdict(Outcome::Reject), 10);
    let now = after(&t, d);
    assert_eq!((now.step.as_deref(), now.round, now.status), (Some("fix"), 1, Status::Queued));
    t.round = 1;
    let d = finish_step(&p, &t, &at("review", "lint", 1), &verdict(Outcome::Reject), 10);
    assert_eq!(
        events_of(&d)[1],
        format!(
            "task.parked reason=pipeline \"review\" rejected \"lint\" in all 2 rounds, so \
             \"review\" rejected this {}",
            "task"
        )
    );
    assert_eq!(after(&t, d).status, Status::Parked);
}

#[test]
fn an_error_parks_with_its_reason() {
    let p = policy();
    let t = task(Status::Running, Some(("review", "lint")));
    let d = finish_step(&p, &t, &at("review", "lint", 0), &verdict(Outcome::Error), 10);
    assert_eq!(events_of(&d)[1], "task.parked reason=step lint errored: why");
    let mut silent = verdict(Outcome::Error);
    silent.note = None;
    let d = finish_step(&p, &t, &at("review", "lint", 0), &silent, 10);
    assert_eq!(events_of(&d)[1], "task.parked reason=step lint errored: no reason given");
}

#[test]
fn a_promise_waits_with_its_deadline() {
    let p = policy();
    let t = task(Status::Running, Some(("implement", "implement")));
    let mut promise = verdict(Outcome::Started);
    promise.pane = Some("w:p".to_string());
    let d = finish_step(&p, &t, &at("implement", "implement", 0), &promise, 10);
    assert_eq!(
        events_of(&d)[1],
        "task.step_awaiting t-1 pipeline=implement step=implement round=0 await=agent_stopped \
         pane=w:p"
    );
    let now = after(&t, d);
    assert_eq!((now.status, now.await_deadline), (Status::Running, Some(70)));
    let d = finish_step(&p, &t, &at("implement", "implement", 0), &promise, i64::MAX);
    assert_eq!(after(&t, d).await_deadline, Some(i64::MAX));

    let t = task(Status::Running, Some(("handoff", "handoff")));
    let d = finish_step(&p, &t, &at("handoff", "handoff", 0), &promise, 10);
    assert_eq!(after(&t, d).await_deadline, None);
}

#[test]
fn a_promise_nothing_would_resolve_parks() {
    let p = policy();
    let t = task(Status::Running, Some(("review", "lint")));
    let d = finish_step(&p, &t, &at("review", "lint", 0), &verdict(Outcome::Started), 10);
    assert_eq!(
        events_of(&d)[1],
        "task.parked reason=step lint returned \"started\", but pipeline review has no await, so \
         nothing would ever resolve it"
    );
}

#[test]
fn what_a_step_said_is_told_in_the_trace() {
    let p = policy();
    let mut t = task(Status::Running, Some(("review", "fix")));
    t.round = 1;
    let report = StepReport::verdict(Outcome::Error, "no luck".to_string());
    let Decision::Apply { events, .. } = finish_step(&p, &t, &at("review", "fix", 1), &report, 9)
    else {
        panic!("it is at that step");
    };
    let text = payload_text(&events[0].payload).ok().expect("a text");
    assert_eq!(summarise(&text), "review/fix round 1  → error  no luck");
}

#[test]
fn stale_reports_bail() {
    let p = policy();
    let t = task(Status::Running, Some(("review", "lint")));
    let d = finish_step(&p, &t, &at("review", "fix", 1), &verdict(Outcome::Pass), 10);
    assert_eq!(
        events_of(&d),
        [
            "bail: task moved on: it is running at Some(\"review\")/Some(\"lint\") round 0, not \
             review/fix round 1"
        ]
    );
    let t = task(Status::Queued, None);
    let d = finish_step(&p, &t, &at("a", "b", 0), &verdict(Outcome::Pass), 10);
    assert_eq!(
        events_of(&d),
        ["bail: task moved on: it is queued at None/None round 0, not a/b round 0"]
    );
}

#[test]
fn parking_and_retrying_are_inverse() {
    let t = task(Status::Running, Some(("review", "lint")));
    let d = park_task(&t, "broken");
    assert_eq!(events_of(&d), ["task.parked reason=broken"]);
    let parked = after(&t, d);
    assert_eq!(events_of(&park_task(&parked, "again")), ["bail: already parked"]);
    let d = retry(&parked);
    assert_eq!(events_of(&d), ["task.resumed pipeline=review step=lint round=0"]);
    let back = after(&parked, d);
    assert_eq!((back.status, back.step.as_deref()), (Status::Queued, Some("lint")));
    assert_eq!(
        events_of(&retry(&back)),
        ["bail: only a parked task can be retried, and this one is queued"]
    );
}

#[test]
fn running_by_hand_queues_the_top_of_a_pipeline() {
    let p = policy();
    let mut t = task(Status::Resting, None);
    t.await_deadline = Some(4);
    let d = run_pipeline(&p, &t, "handoff").ok().expect("a decision");
    assert_eq!(
        events_of(&d),
        ["task.resumed reason=run by hand pipeline=handoff step=handoff was=None/None/0"]
    );
    let now = after(&t, d);
    assert_eq!((now.status, now.round, now.await_deadline), (Status::Queued, 0, None));
    assert_eq!(now.plan, texts(&["implement", "review", "handoff"]));
    let again = run_pipeline(&p, &now, "review").ok().expect("a decision");
    assert_eq!(after(&now, again).plan, texts(&["implement", "review", "handoff"]));
}

#[test]
fn running_by_hand_does_not_go_down_into_a_pipeline() {
    let mut p = policy();
    p.config.pipeline = p.config.pipeline.with(
        "outer".to_string(),
        Pipeline {
            steps: vec![Step::Name("review".to_string())],
            on_fail: None,
            max_rounds: None,
            on_exhausted: None,
        },
    );
    let t = task(Status::Resting, None);
    let queued = after(&t, run_pipeline(&p, &t, "outer").ok().expect("a decision"));
    assert_eq!(
        (queued.status, queued.pipeline.as_deref(), queued.step.as_deref()),
        (Status::Queued, Some("outer"), Some("review"))
    );
    let running = after(&queued, begin_step(&p, &queued).0);
    assert_eq!(running.status, Status::Running);
    let spec = StepSpec::resolve(&p, &running, "outer", "review", 0, "/db", None, &None);
    assert_eq!(
        spec.err().map(|e| e.message()),
        Some("step \"review\" has no script — looked in /r/.shep/scripts".to_string())
    );
}

#[test]
fn running_by_hand_can_be_refused() {
    let p = policy();
    let t = task(Status::Resting, None);
    let why = |t: &Task, name: &str| run_pipeline(&p, t, name).err().map(|e| e.message());
    assert_eq!(why(&t, "nope"), Some("unknown pipeline \"nope\"".to_string()));
    assert_eq!(why(&t, "lost"), Some("unknown pipeline \"lost\"".to_string()));
    assert_eq!(why(&t, "empty"), Some("pipeline \"empty\" has no steps".to_string()));
}

#[test]
fn a_resting_task_goes_through_a_pipeline_its_type_does_not_have() {
    let p = policy();
    let mut t = task(Status::Resting, None);
    t.kind = "odd".to_string();
    t.plan = texts(&["implement"]);
    let queued = after(&t, run_pipeline(&p, &t, "review").ok().expect("a decision"));
    assert_eq!(
        (queued.status, queued.pipeline.as_deref(), queued.step.as_deref(), queued.round),
        (Status::Queued, Some("review"), Some("lint"), 0)
    );
    assert_eq!(queued.plan, texts(&["implement", "review"]));
    let running = after(&queued, begin_step(&p, &queued).0);
    let d = finish_step(&p, &running, &at("review", "lint", 0), &verdict(Outcome::Pass), 10);
    assert_eq!(after(&running, d).status, Status::Resting);
}

#[test]
fn a_step_that_is_begun_again_is_not_overdue() {
    let p = policy();
    let mut t = task(Status::Running, Some(("implement", "implement")));
    t.await_deadline = Some(5);
    assert!(resolve_overdue(&t, &p, 9).is_some());
    let parked = after(&t, park_task(&t, "x"));
    let queued = after(&parked, retry(&parked));
    let again = after(&queued, begin_step(&p, &queued).0);
    assert_eq!((again.status, again.await_deadline), (Status::Running, None));
    assert!(resolve_overdue(&again, &p, 9).is_none());
}

#[test]
fn a_tasks_policy_is_what_loading_gives() {
    let t = task(Status::Queued, None);
    let loaded = policy_for(&t, Ok(policy())).ok().expect("a policy");
    assert_eq!(loaded.repo, "/r");
    let failed = policy_for(&t, Err(Error::other("no config".to_string())));
    assert_eq!(
        failed.err().map(|e| e.message()),
        Some("task t-1 cannot run: no config".to_string())
    );
}

#[test]
fn terminal_tasks_stay_where_they_are() {
    let p = policy();
    for status in [Status::Finished, Status::Cancelled] {
        let t = task(status, Some(("review", "lint")));
        let word = status.as_str();
        assert_eq!(events_of(&cancel(&t, None)), [format!("bail: already {word}")]);
        assert_eq!(events_of(&park_task(&t, "x")), [format!("bail: already {word}")]);
        assert!(events_of(&retry(&t))[0].starts_with("bail"));
        assert!(events_of(&requeue(&t))[0].starts_with("bail"));
        assert!(events_of(&begin_step(&p, &t).0)[0].starts_with("bail"));
        assert!(events_of(&bind_pane(&t, &Binding::to("p".to_string())))[0].starts_with("bail"));
        assert_eq!(
            run_pipeline(&p, &t, "review").ok().map(|d| events_of(&d)),
            Some(vec![format!("bail: already {word} — create a new task instead")])
        );
    }
}

#[test]
fn cancelling_says_what_it_was() {
    let t = task(Status::Running, None);
    let d = cancel(&t, Some("bored".to_string()));
    assert_eq!(events_of(&d), ["task.cancelled reason=bored was=running"]);
    assert_eq!(after(&t, d).status, Status::Cancelled);
    assert_eq!(events_of(&cancel(&t, None)), ["task.cancelled reason=null was=running"]);
}

#[test]
fn binding_leaves_alone_what_it_does_not_name() {
    let mut t = task(Status::Running, Some(("implement", "implement")));
    t.worktree = Some("/w".to_string());
    let mut b = Binding::to("w:p".to_string());
    b.branch = Some("topic".to_string());
    let d = bind_pane(&t, &b);
    assert_eq!(
        events_of(&d),
        ["task.pane_bound t-1 pane=w:p workspace=null worktree=null branch=topic base=null"]
    );
    let now = after(&t, d);
    assert_eq!(now.worktree.as_deref(), Some("/w"));
    assert_eq!(now.branch.as_deref(), Some("topic"));
    assert_eq!(
        events_of(&bind_pane(&task(Status::Finished, None), &b)),
        ["bail: task is finished — nothing should be starting work for it"]
    );
}

#[test]
fn orphans_are_steps_that_wait_for_nothing() {
    let p = policy();
    let waiting = task(Status::Running, Some(("implement", "implement")));
    let lost = task(Status::Running, Some(("review", "lint")));
    let nowhere = task(Status::Running, None);
    assert!(is_deferred(&waiting, Some(&p), false));
    assert!(!is_deferred(&lost, Some(&p), true));
    assert!(is_deferred(&lost, None, true));
    assert!(!is_deferred(&lost, None, false));
    assert!(!is_deferred(&nowhere, Some(&p), true));
    let mut second = lost.clone();
    second.id = "t-2".to_string();
    let found = recover_orphans(&vec![
        Candidate { task: &waiting, policy: Some(&p), has_pane: false },
        Candidate { task: &second, policy: Some(&p), has_pane: false },
    ]);
    assert_eq!(found, texts(&["t-2"]));
    assert_eq!(
        events_of(&requeue(&lost)),
        [
            "task.resumed reason=orphaned by a supervisor that stopped mid-step pipeline=review \
             step=lint round=0"
        ]
    );
    assert_eq!(events_of(&requeue(&task(Status::Parked, None))), ["bail: no longer running"]);
}

#[test]
fn an_orphan_is_run_again_where_it_was() {
    let mut t = task(Status::Running, Some(("review", "fix")));
    t.round = 1;
    let queued = after(&t, requeue(&t));
    assert_eq!(queued.status, Status::Queued);
    let again = after(&queued, begin_step(&policy(), &queued).0);
    assert_eq!(
        (again.status, again.pipeline.as_deref(), again.step.as_deref(), again.round),
        (Status::Running, Some("review"), Some("fix"), 1)
    );
}

#[test]
fn the_check_an_agent_leaves_decides() {
    let p = policy();
    let t = task(Status::Running, Some(("implement", "implement")));
    let check = |conclusion| {
        let new = NewCheck {
            task_id: "t-1".to_string(),
            pipeline: Some("implement".to_string()),
            step: Some("implement".to_string()),
            round: Some(0),
            author: "implement".to_string(),
            sha: "0123456789".to_string(),
            conclusion,
            body: None,
        };
        vec![insert(&new, "c-1".to_string(), 5)]
    };
    let end = |checks: Vec<Check>| {
        let (at, said) = resolve_awaiting(&t, Some(&p), &checks, "it went").expect("it waits");
        after(&t, finish_step(&p, &t, &at, &said, 10))
    };
    let on = end(check(Conclusion::Pass));
    assert_eq!((on.status, on.step.as_deref()), (Status::Queued, Some("lint")));
    assert_eq!(end(check(Conclusion::Fail)).status, Status::Parked);
    assert_eq!(end(Vec::new()).status, Status::Parked);
}

#[test]
fn a_check_is_about_where_the_task_is() {
    let t = task(Status::Running, Some(("review", "lint")));
    let sub = Submission { conclusion: Conclusion::Pass, author: None, body: None, at: None };
    let new = submit_check(&t, &sub, "abc".to_string());
    assert_eq!((new.task_id.as_str(), new.sha.as_str(), new.author.as_str()), ("t-1", "abc", "lint"));
    assert_eq!((new.pipeline.as_deref(), new.step.as_deref(), new.round), (Some("review"), Some("lint"), Some(0)));

    let said = Submission {
        conclusion: Conclusion::Fail,
        author: Some("me".to_string()),
        body: Some("no".to_string()),
        at: Some(at("x", "y", 3)),
    };
    let new = submit_check(&t, &said, "abc".to_string());
    assert_eq!((new.author.as_str(), new.round, new.body.as_deref()), ("me", Some(3), Some("no")));

    let nowhere = submit_check(&task(Status::Queued, None), &sub, "abc".to_string());
    assert_eq!((nowhere.author.as_str(), nowhere.pipeline, nowhere.round), ("anonymous", None, None));
}

#[test]
fn a_submitted_check_is_recorded() {
    let new = NewCheck {
        task_id: "t-1".to_string(),
        pipeline: Some("review".to_string()),
        step: None,
        round: Some(2),
        author: "me".to_string(),
        sha: "abc".to_string(),
        conclusion: Conclusion::Fail,
        body: None,
    };
    let c: Check = insert(&new, "c-5".to_string(), 77);
    assert_eq!((c.id.as_str(), c.created), ("c-5", 77));
    assert_eq!(
        event_text(&submitted_event(&c)),
        "task.check_submitted t-1 check=c-5 author=me conclusion=fail sha=abc pipeline=review \
         step=null round=2"
    );
}

#[test]
fn a_signal_settles_the_step_that_awaits_it() {
    let p = policy();
    let t = task(Status::Running, Some(("handoff", "handoff")));
    let s = settle_by_signal(&p, &t, "human", Conclusion::Fail, "me", &Some("ugly".to_string()));
    let s = s.ok().expect("a settlement");
    assert_eq!(s.at.text(), "handoff/handoff round 0");
    assert_eq!(s.report.outcome, Outcome::Reject);
    assert_eq!(s.report.note.as_deref(), Some("signal human said fail: ugly"));
    assert_eq!(s.submission.author.as_deref(), Some("me"));
    assert_eq!(s.submission.body.as_deref(), Some("ugly"));
    let s = settle_by_signal(&p, &t, "human", Conclusion::Pass, "me", &None).ok().expect("one");
    assert_eq!(s.report.outcome, Outcome::Pass);
    assert_eq!(s.report.note.as_deref(), Some("signal human said pass"));
}

#[test]
fn an_awaited_signal_ends_the_wait() {
    let p = policy();
    let mut t = task(Status::Running, Some(("handoff", "handoff")));
    t.plan = texts(&["implement", "handoff"]);
    t.await_deadline = Some(99);
    let s = settle_by_signal(&p, &t, "human", Conclusion::Pass, "me", &None).ok().expect("one");
    let now = after(&t, finish_step(&p, &t, &s.at, &s.report, 10));
    assert_eq!((now.status, now.await_deadline, now.step), (Status::Resting, None, None));
    let s = settle_by_signal(&p, &t, "human", Conclusion::Fail, "me", &None).ok().expect("one");
    let now = after(&t, finish_step(&p, &t, &s.at, &s.report, 10));
    assert_eq!((now.status, now.await_deadline), (Status::Parked, None));
}

#[test]
fn a_signal_nobody_awaits_is_refused() {
    let p = policy();
    let t = task(Status::Running, Some(("handoff", "handoff")));
    let why = |t: &Task, s: &str| {
        settle_by_signal(&p, t, s, Conclusion::Pass, "me", &None).err().map(|e: Error| e.message())
    };
    assert_eq!(
        why(&t, "ci"),
        Some(
            "task t-1 is not awaiting signal \"ci\": it is running at handoff/handoff round 0"
                .to_string()
        )
    );
    assert_eq!(
        why(&task(Status::Queued, None), "human"),
        Some("task t-1 is not awaiting signal \"human\": it is queued at no step".to_string())
    );
}

#[test]
fn waiting_on_a_person_is_awaiting_the_human_signal() {
    let p = policy();
    assert!(awaits_human(&p, "handoff"));
    assert!(!awaits_human(&p, "implement"));
    assert!(!awaits_human(&p, "nothing"));
    assert_eq!(
        policy_failure("t-1", &Error::other("bad".to_string())).message(),
        "task t-1 cannot run: bad"
    );
}

fn output(stdout: &str, stderr: &str, code: Option<i32>, signal: Option<i32>) -> Result<Output, String> {
    Ok(Output { stdout: stdout.to_string(), stderr: stderr.to_string(), code, signal })
}

fn no_verdict() -> Result<Verdict, String> {
    Err("bad json".to_string())
}

#[test]
fn the_verdict_is_on_the_last_line_that_says_anything() {
    assert_eq!(verdict_line("a\r\nb \n\n  \n"), Some("b ".to_string()));
    assert_eq!(verdict_line("a\nb\r"), Some("b\r".to_string()));
    assert_eq!(verdict_line("one"), Some("one".to_string()));
    assert_eq!(verdict_line(""), None);
    assert_eq!(verdict_line("\n \n\t"), None);
    for s in ["", "a", "a\n", "a\nb", "a\r\n\r\nb\r\n", "\n\nx\n \n", "x\r", "\r\n"] {
        let last = s.lines().filter(|l| !l.trim().is_empty()).next_back().map(|l| l.to_string());
        assert_eq!(verdict_line(s), last, "{s:?}");
    }
}

#[test]
fn a_script_reports_what_it_printed() {
    let v = Ok(Verdict {
        outcome: Outcome::Started,
        note: Some("n".to_string()),
        pane: Some("w:p".to_string()),
    });
    let r = report("/s.sh", &output("log\n{}\n", "oops\n", Some(0), None), &v);
    assert_eq!((r.outcome, r.exit_code), (Outcome::Started, Some(0)));
    assert_eq!((r.note.as_deref(), r.pane.as_deref()), (Some("n"), Some("w:p")));
    assert_eq!(r.logs, "log\n{}\n\nstderr: oops\n");
}

#[test]
fn a_script_that_fails_is_not_believed() {
    let claims = Ok(Verdict { outcome: Outcome::Pass, note: None, pane: None });
    let r = report("/s.sh", &output("{}", "", Some(3), None), &claims);
    assert_eq!((r.outcome, r.note.as_deref()), (Outcome::Error, Some("exited with status 3")));
    let r = report("/s.sh", &output("{}", "", None, Some(9)), &claims);
    assert_eq!(r.note.as_deref(), Some("exited on signal 9"));
    let r = report("/s.sh", &output(" \n", "", Some(0), None), &no_verdict());
    assert_eq!(
        r.note.as_deref(),
        Some("printed nothing — the last line of stdout must be one JSON object")
    );
    let r = report("/s.sh", &output("hello\n", "", Some(0), None), &no_verdict());
    assert_eq!(
        r.note.as_deref(),
        Some("last line of stdout is not a verdict (bad json): hello")
    );
    let r = report("/s.sh", &Err("gone".to_string()), &no_verdict());
    assert_eq!(r.note.as_deref(), Some("could not run /s.sh: gone"));
    assert_eq!((r.exit_code, r.logs.as_str()), (None, ""));
    assert_eq!(describe_status(None, None), "abnormally");
}

#[test]
fn a_verdict_is_one_object() {
    let pass = Ok(Verdict { outcome: Outcome::Pass, note: None, pane: None });
    let r = report("/s.sh", &output("[\"pass\"]\n", "", Some(0), None), &pass);
    assert_eq!(
        (r.outcome, r.note.as_deref()),
        (
            Outcome::Error,
            Some("last line of stdout is not a verdict (not one JSON object): [\"pass\"]"),
        )
    );
    let r = report("/s.sh", &output("  {\"outcome\":\"pass\"}", "", Some(0), None), &pass);
    assert_eq!((r.outcome, r.note.as_deref()), (Outcome::Pass, None));
}

#[test]
fn long_output_keeps_its_tail() {
    assert_eq!(tail("abc", 3), "abc");
    assert_eq!(tail("abcdé", 2), "… [3 characters omitted] …dé");
    let long = "x".repeat(4001);
    assert_eq!(combine(&long, ""), format!("… [1 characters omitted] …{}", "x".repeat(4000)));
    assert_eq!(combine("", " "), "");
    assert_eq!(combine("", "e"), "stderr: e");
}

#[test]
fn the_environment_leaves_out_what_is_absent() {
    let p = policy();
    let mut t = task(Status::Running, Some(("review", "lint")));
    t.worktree = Some("/w".to_string());
    t.base = Some("main".to_string());
    let spec = StepSpec::resolve(&p, &t, "review", "lint", 1, "/db", None, &None).ok().expect("one");
    assert_eq!(spec.cwd, "/w");
    let env: Vec<String> = environment(&spec).iter().map(|(k, v)| format!("{k}={v}")).collect();
    assert_eq!(
        env,
        [
            "SHEP_TASK_ID=t-1", "SHEP_TYPE=feature", "SHEP_PIPELINE=review", "SHEP_STEP=lint",
            "SHEP_ROUND=1", "SHEP_REPO=/r", "SHEP_DB=/db", "SHEP_WORKTREE=/w", "SHEP_BASE=main",
        ]
    );
}
