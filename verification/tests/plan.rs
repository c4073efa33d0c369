use shepherd::config::{Config, Pipeline, Policy, Step, TaskType};
use shepherd::db::task::{Status, Task};
use shepherd::engine::plan::{after_fail, after_pass, start, Plan};
use shepherd::table::Table;
use shepherd::Outcome;

fn texts(items: &[&str]) -> Vec<String> {
    items.iter().map(|s| s.to_string()).collect()
}

fn plain(names: &[&str]) -> Pipeline {
    Pipeline {
        steps: names.iter().map(|s| Step::Name(s.to_string())).collect(),
        on_fail: None,
        max_rounds: None,
        on_exhausted: None,
    }
}

fn looping(names: &[&str], on_fail: &str, max: u32, spent: Option<Outcome>) -> Pipeline {
    Pipeline {
        on_fail: Some(on_fail.to_string()),
        max_rounds: Some(max),
        on_exhausted: spent,
        ..plain(names)
    }
}

fn policy(pipelines: Vec<(&str, Pipeline)>, scripts: &[&str]) -> Policy {
    let mut pipeline = Table::new();
    for (name, p) in pipelines {
        pipeline = pipeline.with(name.to_string(), p);
    }
    let types = Table::new().with(
        "t".to_string(),
        TaskType { description: "d".to_string(), pipelines: Vec::new() },
    );
    Policy {
        config: Config { pipeline, types, signal: Table::new() },
        repo: "/r".to_string(),
        path: "/r/c".to_string(),
        script_dirs: texts(&["/s"]),
        runnable: scripts.iter().map(|s| format!("/s/{s}.sh")).collect(),
    }
}

fn task(plan: &[&str], at: Option<(&str, &str)>, round: i64) -> Task {
    Task {
        id: "t-1".to_string(),
        brief: "b".to_string(),
        kind: "t".to_string(),
        pipeline: at.map(|a| a.0.to_string()),
        step: at.map(|a| a.1.to_string()),
        round,
        status: Status::Running,
        plan: texts(plan),
        await_deadline: None,
        repo: "/r".to_string(),
        worktree: None,
        branch: None,
        base: None,
        workspace_id: None,
        created: 0,
        updated: 0,
    }
}

fn told(plan: Plan) -> String {
    match plan {
        Plan::Run { pipeline, step, round } => format!("run {pipeline}/{step} {round}"),
        Plan::Rest => "rest".to_string(),
        Plan::Park { reason } => format!("park: {reason}"),
    }
}

fn workflow() -> Policy {
    policy(
        vec![
            ("implement", plain(&["implement"])),
            ("review", looping(&["lint", "test"], "fix", 3, None)),
            ("ship", plain(&["pack", "publish"])),
            ("publish", plain(&["upload", "announce"])),
        ],
        &["implement", "lint", "test", "fix", "pack", "upload", "announce"],
    )
}

const PLAN: [&str; 3] = ["implement", "review", "ship"];

#[test]
fn a_task_starts_at_the_top_of_its_plan() {
    assert_eq!(told(start(&workflow(), &task(&PLAN, None, 0))), "run implement/implement 0");
    assert_eq!(told(start(&workflow(), &task(&[], None, 0))), "rest");
    assert_eq!(
        told(start(&workflow(), &task(&["gone"], None, 0))),
        "park: no pipeline \"gone\" in config"
    );
}

#[test]
fn entering_goes_down_to_a_script() {
    let p = policy(
        vec![("outer", plain(&["inner", "b"])), ("inner", plain(&["a"]))],
        &["a", "b"],
    );
    assert_eq!(told(start(&p, &task(&["outer"], None, 0))), "run inner/a 0");
    assert_eq!(
        told(after_pass(&p, &task(&["outer"], Some(("inner", "a")), 0))),
        "run outer/b 0"
    );
    assert_eq!(told(after_pass(&p, &task(&["outer"], Some(("outer", "b")), 0))), "rest");
}

#[test]
fn passing_walks_the_plan_to_its_end() {
    let w = workflow();
    let mut at = ("implement".to_string(), "implement".to_string());
    let mut seen = Vec::new();
    loop {
        let t = task(&PLAN, Some((at.0.as_str(), at.1.as_str())), 0);
        seen.push(format!("{}/{}", at.0, at.1));
        match after_pass(&w, &t) {
            Plan::Run { pipeline, step, round } => {
                assert_eq!(round, 0);
                at = (pipeline, step);
            }
            Plan::Rest => break,
            Plan::Park { reason } => panic!("parked: {reason}"),
        }
    }
    assert_eq!(
        seen,
        [
            "implement/implement", "review/lint", "review/test", "ship/pack", "publish/upload",
            "publish/announce",
        ]
    );
}

#[test]
fn rejections_go_round_until_the_cap_is_spent() {
    let w = workflow();
    assert_eq!(
        told(after_fail(&w, &task(&PLAN, Some(("review", "lint")), 0))),
        "run review/fix 1"
    );
    assert_eq!(
        told(after_pass(&w, &task(&PLAN, Some(("review", "fix")), 1))),
        "run review/lint 1"
    );
    assert_eq!(
        told(after_pass(&w, &task(&PLAN, Some(("review", "lint")), 1))),
        "run review/test 1"
    );
    assert_eq!(
        told(after_fail(&w, &task(&PLAN, Some(("review", "fix")), 1))),
        "run review/fix 2"
    );
    assert_eq!(
        told(after_fail(&w, &task(&PLAN, Some(("review", "test")), 2))),
        format!(
            "park: pipeline \"review\" rejected \"test\" in all 3 rounds, so \"review\" rejected \
             this {}",
            "task"
        )
    );
}

#[test]
fn exhaustion_is_the_pipelines_own_outcome() {
    let at = Some(("p", "a"));
    let spent = |o| policy(vec![("p", looping(&["a"], "a", 1, o)), ("q", plain(&["b"]))], &["a", "b"]);
    assert_eq!(
        told(after_fail(&spent(Some(Outcome::Pass)), &task(&["p", "q"], at, 0))),
        "run q/b 0"
    );
    assert_eq!(
        told(after_fail(&spent(Some(Outcome::Error)), &task(&["p"], at, 0))),
        "park: pipeline \"p\" rejected \"a\" in all 1 rounds, and on_exhausted says error"
    );
    assert_eq!(
        told(after_fail(&spent(Some(Outcome::Started)), &task(&["p"], at, 0))),
        "park: pipeline \"p\" rejected \"a\" in all 1 rounds, and on_exhausted says started, \
         which a pipeline cannot mean"
    );
    assert_eq!(
        told(after_fail(&spent(Some(Outcome::Reject)), &task(&["q"], at, 0))),
        "park: pipeline \"p\" rejected \"a\" in all 1 rounds, and nothing composes \"p\""
    );
}

#[test]
fn a_nested_rejection_has_nowhere_to_go() {
    let p = policy(
        vec![("outer", plain(&["p"])), ("p", looping(&["a"], "a", 1, None))],
        &["a"],
    );
    assert_eq!(
        told(after_fail(&p, &task(&["outer"], Some(("p", "a")), 0))),
        "park: pipeline \"p\" rejected \"a\" in all 1 rounds, so it rejected — and \"outer\" has \
         nowhere to send a rejection"
    );
}

#[test]
fn a_rejection_without_a_loop_parks() {
    let w = workflow();
    assert_eq!(
        told(after_fail(&w, &task(&PLAN, Some(("ship", "pack")), 0))),
        "park: step \"pack\" rejected and pipeline \"ship\" has no on_fail"
    );
    assert_eq!(
        told(after_fail(&w, &task(&PLAN, None, 0))),
        "park: a rejection arrived for a task that is nowhere"
    );
}

#[test]
fn a_config_edited_under_a_task_is_said() {
    let w = workflow();
    let stranded = format!(
        "park: pipeline \"gone\" is not in config any more, so this {} is stranded",
        "task"
    );
    assert_eq!(told(after_pass(&w, &task(&PLAN, Some(("gone", "x")), 0))), stranded);
    assert_eq!(told(after_fail(&w, &task(&PLAN, Some(("gone", "x")), 0))), stranded);
    assert_eq!(
        told(after_pass(&w, &task(&PLAN, Some(("review", "gone")), 0))),
        "park: step \"gone\" is no longer a step of pipeline \"review\""
    );
    assert_eq!(
        told(after_pass(&w, &task(&["implement"], Some(("review", "test")), 0))),
        "park: pipeline \"review\" is not part of this plan and nothing composes it"
    );
    let p = policy(vec![("p", plain(&["a"])), ("e", plain(&[]))], &[]);
    assert_eq!(
        told(start(&p, &task(&["p"], None, 0))),
        "park: step \"a\" of pipeline \"p\" resolves to nothing runnable"
    );
    assert_eq!(told(start(&p, &task(&["e"], None, 0))), "park: pipeline \"e\" has no steps");
}

#[test]
fn a_task_that_is_nowhere_starts_when_it_passes() {
    assert_eq!(told(after_pass(&workflow(), &task(&PLAN, None, 0))), "run implement/implement 0");
}

/// Moves a task to where a plan says, and tells the place.
fn go(t: &mut Task, plan: Plan) -> Option<String> {
    match plan {
        Plan::Run { pipeline, step, round } => {
            let place = format!("{pipeline}/{step}");
            t.pipeline = Some(pipeline);
            t.step = Some(step);
            t.round = round;
            Some(place)
        }
        _ => None,
    }
}

#[test]
fn passes_alone_go_through_every_place_in_order() {
    let p = policy(
        vec![
            ("a", plain(&["n", "x"])),
            ("n", plain(&["s", "u"])),
            ("r", looping(&["lint", "test"], "fix", 2, None)),
            ("z", plain(&["y", "r2"])),
            ("r2", looping(&["last"], "fix", 2, None)),
        ],
        &["s", "u", "x", "lint", "test", "fix", "y", "last"],
    );
    let mut t = task(&["a", "r", "z"], None, 0);
    let mut places = Vec::new();
    let mut next = start(&p, &t);
    while let Some(place) = go(&mut t, next) {
        places.push(place);
        next = after_pass(&p, &t);
    }
    assert_eq!(places, ["n/s", "n/u", "a/x", "r/lint", "r/test", "z/y", "r2/last"]);
    assert_eq!(told(after_pass(&p, &t)), "rest");
}

#[test]
fn a_task_ends_whatever_is_answered() {
    let p = policy(
        vec![
            ("a", plain(&["n", "x"])),
            ("n", looping(&["s", "u"], "fix", 3, Some(Outcome::Pass))),
            ("r", looping(&["lint", "fix"], "fix", 2, Some(Outcome::Pass))),
        ],
        &["s", "u", "x", "lint", "fix"],
    );
    for answers in 0u32..4096 {
        let mut t = task(&["a", "r"], None, 0);
        let mut next = start(&p, &t);
        let mut asked = 0;
        while go(&mut t, next).is_some() {
            assert!(asked < 40, "{answers:b} goes on");
            let pass = answers >> (asked % 12) & 1 == 1;
            next = if pass { after_pass(&p, &t) } else { after_fail(&p, &t) };
            asked += 1;
        }
    }
}
