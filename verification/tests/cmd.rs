use shepherd::cmd::trace::{in_a_line, summarise, Said};
use shepherd::cmd::{
    ago, check, context, create, forward, get, ps, raw, repo_root, say, since, status, task_id,
    trace, truncate, types, validate,
};
use shepherd::config::{Config, Pipeline, Policy, Signal, Step, StepDef, TaskType};
use shepherd::db::check::{Check, Conclusion};
use shepherd::db::event::Event;
use shepherd::db::raw_event::RawEvent;
use shepherd::db::task::{Status, Task};
use shepherd::supervisor::{beat, health_at, Health};
use shepherd::table::Table;
use shepherd::Outcome;

fn text(s: &str) -> Option<String> {
    Some(s.to_string())
}

fn texts(items: &[&str]) -> Vec<String> {
    items.iter().map(|s| s.to_string()).collect()
}

fn task(id: &str, status: Status) -> Task {
    Task {
        id: id.to_string(),
        brief: "add  rate\nlimiting".to_string(),
        kind: "feature".to_string(),
        pipeline: text("review"),
        step: text("lint"),
        round: 1,
        status,
        plan: Vec::new(),
        await_deadline: None,
        repo: "/r".to_string(),
        worktree: None,
        branch: text("topic"),
        base: None,
        workspace_id: None,
        created: 0,
        updated: 100,
    }
}

fn a_check() -> Check {
    Check {
        id: "c-1".to_string(),
        task_id: "t-1".to_string(),
        pipeline: text("review"),
        step: None,
        round: None,
        author: "me".to_string(),
        sha: "abc".to_string(),
        conclusion: Conclusion::Fail,
        body: text("too slow"),
        created: 90,
    }
}

fn policy() -> Policy {
    let review = Pipeline {
        steps: vec![
            Step::Name("lint".to_string()),
            Step::Spec(StepDef {
                run: "agent".to_string(),
                await_on: text("agent_stopped"),
                on_missing: None,
                timeout: None,
                on_timeout: None,
            }),
            Step::Name("gone".to_string()),
        ],
        on_fail: text("fix"),
        max_rounds: Some(3),
        on_exhausted: Some(Outcome::Reject),
    };
    let ship = Pipeline {
        steps: vec![Step::Name("review".to_string())],
        on_fail: None,
        max_rounds: None,
        on_exhausted: None,
    };
    Policy {
        config: Config {
            pipeline: Table::new().with("ship".to_string(), ship).with("review".to_string(), review),
            types: Table::new().with(
                "feature".to_string(),
                TaskType {
                    description: "Normal.".to_string(),
                    pipelines: texts(&["review", "ship"]),
                },
            ),
            signal: Table::new()
                .with("ci".to_string(), Signal { description: "CI result".to_string() }),
        },
        repo: "/r".to_string(),
        path: "/r/c.toml".to_string(),
        script_dirs: texts(&["/s"]),
        runnable: texts(&["/s/lint.sh", "/s/agent.sh"]),
    }
}

#[test]
fn times_are_said_out_loud() {
    for (n, s) in [
        (-5, "just now"), (0, "just now"), (1, "just now"), (2, "2s ago"), (59, "59s ago"),
        (60, "1m ago"), (3599, "59m ago"), (3600, "1h ago"), (86399, "23h ago"),
        (86400, "1d ago"), (200000, "2d ago"),
    ] {
        assert_eq!(ago(n), s);
    }
    assert_eq!(since(100, 40), "1m ago");
    assert_eq!(since(40, 100), "just now");
    assert_eq!(since(i64::MAX, i64::MIN), format!("{}d ago", i64::MAX / 86400));
    assert_eq!(since(i64::MIN, i64::MAX), "just now");
}

#[test]
fn a_cell_is_one_line_of_its_width() {
    assert_eq!(truncate(" a  b\n c ", 10), "a b c");
    assert_eq!(truncate("abcdef", 6), "abcdef");
    assert_eq!(truncate("abcdefg", 6), "abcde…");
    assert_eq!(truncate("abcd efg", 6), "abcd…");
    assert_eq!(truncate("abc", 0), "…");
    assert_eq!(truncate("", 3), "");
    assert_eq!(truncate("日本語です", 3), "日本…");
    for (text, width) in [(" a  b\n c ", 4), ("abcd efg", 6), ("\tx\r\n", 0), ("", 0)] {
        let once = truncate(text, width);
        assert_eq!(truncate(&once, width), once);
    }
}

#[test]
fn tasks_are_listed_in_a_table() {
    let mut second = task("t-10", Status::Parked);
    second.pipeline = None;
    second.step = None;
    second.round = 0;
    assert_eq!(
        ps::lines(&vec![task("t-9", Status::Running), second], false, 160),
        texts(&[
            "ID    TYPE     STATUS   WHERE           UPDATED  BRIEF",
            "t-9   feature  running  review/lint r1  1m ago   add rate limiting",
            "t-10  feature  parked   -               1m ago   add rate limiting",
        ])
    );
    assert_eq!(ps::lines(&Vec::new(), false, 0), texts(&["no open tasks"]));
    assert_eq!(ps::lines(&Vec::new(), true, 0), texts(&["no tasks"]));
}

#[test]
fn only_open_tasks_are_kept_unless_all_are_asked_for() {
    let some = || vec![task("t-1", Status::Finished), task("t-2", Status::Resting)];
    let open: Vec<_> = ps::retain(some(), false).into_iter().map(|t| t.id).collect();
    assert_eq!(open, ["t-2"]);
    assert_eq!(ps::retain(some(), true).len(), 2);
    let mut early = task("t-3", Status::Queued);
    early.step = None;
    early.round = 0;
    assert_eq!(ps::position(&early), "review");
}

#[test]
fn a_task_is_shown_in_full() {
    assert_eq!(
        get::lines(&task("t-1", Status::Running), &text("w:p"), &vec![a_check()], 100),
        texts(&[
            "id        t-1",
            "brief     add  rate\nlimiting",
            "type      feature",
            "status    running",
            "pipeline  review",
            "step      lint",
            "round     1",
            "repo      /r",
            "branch    topic",
            "pane      w:p",
            "\nchecks",
            "  c-1   fail     me             10s ago    too slow",
        ])
    );
    let mut bare = task("t-1", Status::Queued);
    bare.branch = None;
    assert_eq!(get::lines(&bare, &None, &Vec::new(), 100).len(), 8);
}

fn event(seq: i64, kind: &str, payload: Option<&str>, caused_by: Option<i64>) -> Event {
    Event {
        seq,
        ts: 40,
        kind: kind.to_string(),
        task_id: text("t-1"),
        payload: payload.map(|p| p.to_string()),
        caused_by,
    }
}

#[test]
fn a_trace_tells_what_happened() {
    let events = vec![
        event(3, "task.created", Some("{\"type\":\"feature\",\"brief\":\"x\"}"), None),
        event(
            12,
            "task.step_finished",
            Some(
                "{\"pipeline\":\"review\",\"step\":\"lint\",\"round\":2,\"outcome\":\"reject\",\
                 \"note\":\"no\"}",
            ),
            Some(3),
        ),
    ];
    assert_eq!(
        trace::lines(&task("t-1", Status::Running), &text("w:p"), &events, 100),
        texts(&[
            "t-1  feature  running at review/lint round 1",
            "brief: add  rate\nlimiting",
            "repo:  /r",
            "pane:  w:p",
            "",
            "    3     1m ago  task.created           feature",
            "   12     1m ago  └─ task.step_finished     review/lint round 2  → reject  no",
        ])
    );
    let mut t = task("t-1", Status::Resting);
    t.step = None;
    assert_eq!(trace::lines(&t, &None, &Vec::new(), 0)[0], "t-1  feature  resting in review");
    t.pipeline = None;
    assert_eq!(trace::lines(&t, &None, &Vec::new(), 0)[0], "t-1  feature  resting");
}

#[test]
fn a_payload_is_summarised() {
    assert_eq!(summarise(&None), "");
    assert_eq!(summarise(&text("not json")), "");
    assert_eq!(summarise(&text("{\"step\":\"a\",\"round\":0}")), "a");
    assert_eq!(summarise(&text("{\"pipeline\":\"p\",\"await\":\"ci\",\"pane\":\"w\"}")), "p  ci  w");
    assert_eq!(summarise(&text("{\"reason\":\"r\",\"round\":4}")), "r");
    let said = Said {
        pipeline: "p".to_string(),
        step: "s".to_string(),
        round: Some(1),
        outcome: "pass".to_string(),
        awaits: String::new(),
        kind: String::new(),
        reason: String::new(),
        note: "n".to_string(),
        pane: String::new(),
    };
    assert_eq!(in_a_line(&said), "p/s round 1  → pass  n");
}

#[test]
fn the_status_of_a_store_is_told() {
    let counts = vec![(Status::Queued, 2), (Status::Resting, 1)];
    let h = health_at(Some(beat(7, 0, 100)), true, 103);
    assert_eq!(
        status::lines("/d/shep.db", 2, true, &h, &counts),
        texts(&[
            "store       /d/shep.db (schema v2)",
            "log         /d/supervisor.log",
            "paused      yes",
            "supervisor  running  pid 7  last beat 3s ago",
            "tasks       queued 2  running 0  parked 0  resting 1  finished 0  cancelled 0",
        ])
    );
    assert_eq!(status::lines("/d", 2, false, &Health::Down, &counts)[2], "paused      no");
    assert_eq!(
        status::absent_lines("/d"),
        texts(&["store       /d (absent — nothing created yet)", "supervisor  down"])
    );
}

#[test]
fn health_is_described() {
    let hb = beat(7, 0, 100);
    assert_eq!(status::describe(&Health::Down), "down");
    assert_eq!(
        status::describe(&health_at(Some(hb), true, 200)),
        "STALLED  pid 7 is alive but has not beaten for 100s"
    );
    assert_eq!(
        status::describe(&health_at(Some(hb), false, 160)),
        "down     (pid 7 died without cleaning up; last beat 1m ago)"
    );
}

#[test]
fn the_menu_of_types_is_aligned() {
    assert_eq!(types::lines(&policy()), texts(&["feature  Normal.", "         review → ship"]));
    assert_eq!(
        types::skill_lines(&policy()),
        texts(&["- `feature` — Normal.", "  - pipelines: review → ship"])
    );
}

#[test]
fn a_valid_config_is_listed() {
    assert_eq!(
        validate::lines(&policy()),
        texts(&[
            "/r/c.toml is valid",
            "\npipeline review  [on_fail → fix, max 3 round(s); on_exhausted reject]",
            "  lint           /s/lint.sh",
            "  agent          /s/agent.sh  ⟳ await agent_stopped",
            "  gone           UNRESOLVED",
            "\npipeline ship",
            "  review         pipeline review",
            "\nsignals",
            "  ci             CI result",
            "\ntype feature  Normal.",
            "  review → ship",
        ])
    );
}

#[test]
fn the_context_puts_the_brief_last() {
    assert_eq!(
        context::lines(&task("t-1", Status::Running)),
        texts(&[
            "task t-1 (feature), at review/lint round 1",
            "branch topic",
            "working in /r",
            "\nbrief\n\nadd  rate\nlimiting",
        ])
    );
    let mut t = task("t-1", Status::Running);
    t.base = text("main");
    t.worktree = text("/w");
    t.step = None;
    let lines = context::lines(&t);
    assert_eq!(lines[0], "task t-1 (feature), at review/- round 1");
    assert_eq!(lines[1], "branch topic off main");
    assert_eq!(lines[2], "working in /w");
    t.branch = None;
    assert_eq!(context::lines(&t).len(), 3);
}

#[test]
fn a_task_needs_a_brief() {
    assert_eq!(create::brief(&texts(&[" add", "it "]), "x").ok(), text("add it"));
    assert_eq!(
        create::brief(&texts(&[" ", ""]), "x").err().map(|e| e.message()),
        text("a task needs a brief: shep create --type x \"what to do\"")
    );
}

#[test]
fn a_new_task_takes_its_plan_from_its_type() {
    let new = create::new_task(&policy(), "b".to_string(), "feature", "/r").ok().expect("a task");
    assert_eq!(new.plan, texts(&["review", "ship"]));
    assert_eq!((new.brief.as_str(), new.kind.as_str(), new.repo.as_str()), ("b", "feature", "/r"));
    assert_eq!(
        create::new_task(&policy(), "b".to_string(), "x", "/r").err().map(|e| e.message()),
        text("unknown type \"x\". Available:\n  feature      Normal.")
    );
}

#[test]
fn a_verdict_goes_one_way() {
    assert_eq!(check::conclusion(true, false, "u"), Ok(Conclusion::Pass));
    assert_eq!(check::conclusion(false, true, "u"), Ok(Conclusion::Fail));
    assert_eq!(check::conclusion(false, false, "u"), Err("u".to_string()));
    assert_eq!(check::conclusion(true, true, "u"), Err("u".to_string()));
}

#[test]
fn a_body_is_what_stdin_says() {
    assert_eq!(check::body(" x \n"), text("x"));
    assert_eq!(check::body(" \n"), None);
}

#[test]
fn a_position_needs_all_three_variables() {
    let at = |p, s, r| check::position_from_env(&p, &s, &r).map(|a| a.text());
    assert_eq!(at(text("p"), text("s"), text("2")), text("p/s round 2"));
    assert_eq!(at(text("p"), text(" "), text("2")), None);
    assert_eq!(at(None, text("s"), text("2")), None);
    assert_eq!(at(text("p"), text("s"), text("two")), None);
    assert_eq!(at(text("p"), text("s"), None), None);
}

#[test]
fn a_check_is_read() {
    assert_eq!(
        check::lines(&a_check()),
        texts(&["c-1 fail by me on abc (review/- round 0)", "\ntoo slow"])
    );
    let mut bare = a_check();
    bare.body = None;
    assert_eq!(check::lines(&bare).len(), 1);
}

#[test]
fn raw_events_are_listed() {
    let e = |body: &str| RawEvent { seq: 7, ts: 40, body: body.to_string() };
    assert_eq!(
        raw::lines(
            &vec![
                e("{\"event\":\"pane_exited\",\"data\":{\"pane_id\":\"w:p\"}}"),
                e("{\"event\":\"pane_agent_status_changed\",\
                   \"data\":{\"pane_id\":\"w:p\",\"agent_status\":\"done\"}}"),
                e("?"),
            ],
            100
        ),
        texts(&[
            "7     1m ago     pane.exited                  w:p      ",
            "7     1m ago     pane.agent_status_changed    w:p      done",
            "7     1m ago     unparseable                  -        ",
        ])
    );
    assert_eq!(
        raw::lines(&Vec::new(), 0),
        texts(&["no raw events — has the plugin been linked?"])
    );
    assert_eq!(raw::line(1, "x", &None, &None, &text("s")).len(), 5 + 1 + 10 + 1 + 28 + 1 + 8 + 1 + 1);
}

#[test]
fn commands_answer_in_a_line() {
    let t = task("t-1", Status::Queued);
    assert_eq!(say::retried(&t), "t-1 queued again at review/lint");
    assert_eq!(say::cancelled("t-1"), "t-1 cancelled");
    assert_eq!(say::bound("w:p", "t-1"), "w:p is t-1");
    assert_eq!(say::queued(&t, "review"), "t-1 is queued at review/lint");
    assert_eq!(say::declined("t-1", "no"), "t-1: no");
    assert_eq!(
        say::signalled(&t, "ci", Conclusion::Pass, "c-1"),
        "t-1 pass on signal ci as c-1 (review/lint)"
    );
    assert_eq!(say::signal_declined("t-1", "c-1", "late"), "t-1 recorded c-1: late");
    assert_eq!(say::forwarded(&text("pane.exited"), 4), "forwarded pane.exited as raw_event 4");
    assert_eq!(say::forwarded(&None, 4), "forwarded ? as raw_event 4");
    let mut rested = task("t-1", Status::Resting);
    rested.pipeline = None;
    rested.step = None;
    assert_eq!(say::retried(&rested), "t-1 queued again");
    assert_eq!(say::queued(&rested, "p"), "t-1 is queued at p/?");
    assert_eq!(
        say::signalled(&rested, "ci", Conclusion::Fail, "c-1"),
        "t-1 fail on signal ci as c-1 (resting)"
    );
}

#[test]
fn pausing_says_what_changed() {
    assert_eq!(say::paused(false, true), "paused — the supervisor will start nothing new");
    assert_eq!(say::paused(true, false), "resumed");
    assert_eq!(say::paused(true, true), "already paused");
    assert_eq!(say::paused(false, false), "not paused");
}

#[test]
fn a_command_knows_which_task_it_is_about() {
    let which = |g, e, p| task_id(&g, &e, &p).ok();
    assert_eq!(which(text("a"), text("b"), text("c")), text("a"));
    assert_eq!(which(None, text("b"), text("c")), text("b"));
    assert_eq!(which(None, text(""), text("c")), text("c"));
    assert!(task_id(&None, &None, &None).is_err());
}

#[test]
fn the_repo_root_is_what_git_says_or_here() {
    assert_eq!(repo_root(&text("/top\n"), "/here"), "/top");
    assert_eq!(repo_root(&text("\n"), "/here"), "/here");
    assert_eq!(repo_root(&None, "/here"), "/here");
}

#[test]
fn an_event_is_forwarded_from_the_environment_or_stdin() {
    assert_eq!(forward::body_from_env(&text(" {} ")), text("{}"));
    assert_eq!(forward::body_from_env(&text(" ")), None);
    assert_eq!(forward::body_from_env(&None), None);
    assert_eq!(forward::body_from_stdin("{}\n").ok(), text("{}"));
    assert_eq!(
        forward::body_from_stdin("\n").err().map(|e| e.message()),
        text(
            "nothing to forward: $HERDR_PLUGIN_EVENT_JSON is unset and stdin is empty. This runs \
             as a Herdr event hook."
        )
    );
}
