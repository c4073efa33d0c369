use shepherd::config::validate::{duplicates, Problem};
use shepherd::config::{
    config_path, is_executable_file, parse_duration, read_failure, report, resolved_steps,
    script_candidates, script_search_path, validate, Config, Pipeline, Policy, ReadFailure, Signal,
    Step, StepDef, StepKind, TaskType, BUILTIN_SIGNALS,
};
use shepherd::table::Table;
use shepherd::Outcome;

fn texts(items: &[&str]) -> Vec<String> {
    items.iter().map(|s| s.to_string()).collect()
}

fn steps(names: &[&str]) -> Vec<Step> {
    names.iter().map(|s| Step::Name(s.to_string())).collect()
}

fn plain(names: &[&str]) -> Pipeline {
    Pipeline { steps: steps(names), on_fail: None, max_rounds: None, on_exhausted: None }
}

fn looping(names: &[&str], on_fail: &str, max: u32) -> Pipeline {
    Pipeline {
        steps: steps(names),
        on_fail: Some(on_fail.to_string()),
        max_rounds: Some(max),
        on_exhausted: None,
    }
}

fn config(pipelines: Vec<(&str, Pipeline)>, types: Vec<(&str, &[&str])>) -> Config {
    let mut pipeline = Table::new();
    for (name, p) in pipelines {
        pipeline = pipeline.with(name.to_string(), p);
    }
    let mut kinds = Table::new();
    for (name, list) in types {
        kinds = kinds.with(
            name.to_string(),
            TaskType { description: format!("a {name}"), pipelines: texts(list) },
        );
    }
    Config { pipeline, types: kinds, signal: Table::new() }
}

fn policy(config: Config, scripts: &[&str]) -> Policy {
    Policy {
        config,
        repo: "/repo".to_string(),
        path: "/repo/.shep/config.toml".to_string(),
        script_dirs: texts(&["/repo/.shep/scripts"]),
        runnable: scripts.iter().map(|s| format!("/repo/.shep/scripts/{s}.sh")).collect(),
    }
}

fn messages(policy: &Policy) -> Vec<String> {
    validate(policy).iter().map(|p| format!("{}: {}", p.at, p.message)).collect()
}

fn waiting(run: &str) -> StepDef {
    StepDef {
        run: run.to_string(),
        await_on: None,
        on_missing: None,
        timeout: None,
        on_timeout: None,
    }
}

fn with_step(def: StepDef) -> Policy {
    let p = Pipeline {
        steps: vec![Step::Spec(def)],
        on_fail: None,
        max_rounds: None,
        on_exhausted: None,
    };
    policy(config(vec![("p", p)], vec![("t", &["p"])]), &["a"])
}

fn is_same(a: &Problem, at: &str, message: &str, hint: Option<&str>) {
    assert_eq!(a.at, at);
    assert_eq!(a.message, message);
    assert_eq!(a.hint.as_deref(), hint);
}

#[test]
fn tables_keep_their_names_in_order() {
    let t = Table::new().with("b".to_string(), 1).with("a".to_string(), 2).with("b".to_string(), 3);
    assert_eq!(t.len(), 2);
    assert_eq!(t.key(0), "a");
    assert_eq!(*t.value(1), 3);
    assert_eq!(t.get("b"), Some(&3));
    assert_eq!(t.get("c"), None);
    assert!(t.contains_key("a"));
    assert_eq!(t.find("b"), Some(1));
}

#[test]
fn a_repair_step_is_a_step_of_its_pipeline() {
    let mut p = looping(&["lint"], "fix", 3);
    let found = |p: &Pipeline, name: &str| p.step(name).map(|s| s.name().to_string());
    assert_eq!(found(&p, "lint"), Some("lint".to_string()));
    assert_eq!(found(&p, "fix"), Some("fix".to_string()));
    assert_eq!(found(&p, "test"), None);
    p.steps.push(Step::Spec(StepDef {
        await_on: Some("agent_stopped".to_string()),
        timeout: Some("1m".to_string()),
        ..waiting("fix")
    }));
    let fix = p.step("fix").expect("a step");
    assert_eq!((fix.await_on(), fix.timeout()), (Some("agent_stopped"), Some("1m")));
}

#[test]
fn durations_are_read() {
    assert_eq!(parse_duration("90"), Some(90));
    assert_eq!(parse_duration("90s"), Some(90));
    assert_eq!(parse_duration("30m"), Some(1800));
    assert_eq!(parse_duration(" 2h "), Some(7200));
    assert_eq!(parse_duration("1d"), Some(86400));
    assert_eq!(parse_duration("m"), None);
    assert_eq!(parse_duration("5w"), None);
    assert_eq!(parse_duration(""), None);
    assert_eq!(parse_duration("9223372036854775807"), Some(i64::MAX));
    assert_eq!(parse_duration("9223372036854775808"), None);
    assert_eq!(parse_duration("9223372036854775807m"), None);
}

#[test]
fn a_valid_config_has_no_problems() {
    let p = policy(
        config(
            vec![("review", looping(&["lint", "test"], "fix", 3)), ("ship", plain(&["ship"]))],
            vec![("feature", &["review", "ship"])],
        ),
        &["lint", "test", "fix", "ship"],
    );
    assert!(validate(&p).is_empty());
    assert!(p.problems().is_empty());
}

#[test]
fn a_config_without_types_creates_nothing() {
    let p = policy(config(vec![], vec![]), &[]);
    let found = validate(&p);
    assert_eq!(found.len(), 1);
    is_same(
        &found[0],
        "config",
        "no types defined, so nothing can be created",
        Some("a type is what an agent picks: [type.feature] with a description and pipelines"),
    );
}

#[test]
fn unknown_steps_say_where_they_were_looked_for() {
    let mut p = policy(config(vec![("p", plain(&["a"]))], vec![("t", &["p"])]), &[]);
    p.script_dirs = texts(&["/x", "/y"]);
    let found = validate(&p);
    assert_eq!(found.len(), 1);
    is_same(
        &found[0],
        "pipeline.p",
        "step \"a\" is neither a pipeline nor a runnable script",
        Some("looked for /x/a.sh, /y/a.sh — is it executable?"),
    );
}

#[test]
fn repeated_names_are_reported_once_and_in_order() {
    assert_eq!(duplicates(&texts(&["b", "a", "b", "a", "b", "c"])), texts(&["a", "b"]));
    let p = policy(
        config(vec![("p", plain(&["b", "a", "b", "a"]))], vec![("t", &["p", "p"])]),
        &["a", "b"],
    );
    assert_eq!(
        messages(&p),
        [
            "pipeline.p: step \"a\" appears more than once",
            "pipeline.p: step \"b\" appears more than once",
            "type.t: pipeline \"p\" appears more than once",
        ]
    );
}

#[test]
fn a_type_runs_no_pipeline_twice() {
    let names_it = config(
        vec![("b", plain(&["n", "y"])), ("n", plain(&["s"]))],
        vec![("t", &["n", "b"])],
    );
    let p = policy(names_it, &["s", "y"]);
    let found = validate(&p);
    assert_eq!(found.len(), 1);
    is_same(
        &found[0],
        "type.t",
        "pipeline \"n\" appears more than once",
        Some("a task records its position by pipeline name, so names must be unique"),
    );
    let pipelines = || {
        vec![("a", plain(&["n", "x"])), ("b", plain(&["n", "y"])), ("n", plain(&["s"]))]
    };
    let p = policy(config(pipelines(), vec![("t", &["a", "b"])]), &["s", "x", "y"]);
    assert_eq!(messages(&p), ["type.t: pipeline \"n\" appears more than once"]);
    let twice = policy(config(pipelines(), vec![("t", &["a", "a"])]), &["s", "x", "y"]);
    assert_eq!(messages(&twice), ["type.t: pipeline \"a\" appears more than once"]);
    let apart = policy(
        config(pipelines(), vec![("t", &["a"]), ("u", &["b"]), ("v", &["n"])]),
        &["s", "x", "y"],
    );
    assert_eq!(messages(&apart), Vec::<String>::new());
}

#[test]
fn loops_need_a_target_and_a_cap() {
    let mut open = looping(&["a"], "nowhere", 0);
    open.max_rounds = None;
    let mut capped = plain(&["a"]);
    capped.max_rounds = Some(3);
    capped.on_exhausted = Some(Outcome::Started);
    let p = policy(
        config(
            vec![("capped", capped), ("open", open), ("zero", looping(&["a"], "a", 0))],
            vec![("t", &["open"])],
        ),
        &["a"],
    );
    assert_eq!(
        messages(&p),
        [
            "pipeline.capped: max_rounds is set but on_fail is not, so nothing loops",
            "pipeline.capped: on_exhausted is set but on_fail is not, so the cap can never be spent",
            "pipeline.capped: on_exhausted = \"started\" is not an outcome a pipeline can have",
            "pipeline.open: on_fail \"nowhere\" is neither a pipeline nor a runnable script",
            "pipeline.open: on_fail is set but max_rounds is not: an unbounded loop",
            "pipeline.zero: max_rounds = 0 would run the pipeline no times at all",
        ]
    );
}

#[test]
fn a_loop_does_not_nest() {
    let p = policy(
        config(
            vec![("inner", plain(&["a"])), ("outer", looping(&["inner"], "a", 2))],
            vec![("t", &["outer"])],
        ),
        &["a"],
    );
    assert_eq!(
        messages(&p),
        [
            "pipeline.outer: this pipeline loops and step \"inner\" is a pipeline: entering \
             \"inner\" would reset the round the loop is counting"
        ]
    );
}

#[test]
fn a_cycle_is_reported_once_from_its_smallest_name() {
    let p = policy(
        config(
            vec![("b", plain(&["c"])), ("c", plain(&["a"])), ("a", plain(&["b"]))],
            vec![("t", &["b"])],
        ),
        &[],
    );
    let found = validate(&p);
    assert_eq!(found.len(), 1);
    is_same(
        &found[0],
        "pipeline.a",
        "pipeline composition is a cycle: a -> b -> c -> a",
        Some("a type is the only place a sequence may be composed, and it may not loop"),
    );
}

#[test]
fn two_cycles_are_two_problems() {
    let p = policy(
        config(
            vec![("a", plain(&["b", "a"])), ("b", plain(&["a"]))],
            vec![("t", &["a"])],
        ),
        &[],
    );
    assert_eq!(
        messages(&p),
        [
            "pipeline.a: pipeline composition is a cycle: a -> a",
            "pipeline.a: pipeline composition is a cycle: a -> b -> a",
        ]
    );
}

#[test]
fn a_script_of_the_same_name_wins() {
    let p = policy(
        config(vec![("integrate", plain(&["integrate"]))], vec![("t", &["integrate"])]),
        &["integrate"],
    );
    assert!(validate(&p).is_empty());
    match p.step_kind("integrate") {
        Some(StepKind::Script(path)) => assert_eq!(path, "/repo/.shep/scripts/integrate.sh"),
        _ => panic!("a script was expected"),
    }
    assert_eq!(p.nested_pipeline("integrate"), None);
}

#[test]
fn a_shadowed_pipeline_is_ambiguous() {
    let p = policy(
        config(vec![("a", plain(&["b"])), ("b", plain(&["s"]))], vec![("t", &["a"])]),
        &["b", "s"],
    );
    assert_eq!(
        messages(&p),
        [
            "pipeline.a: step \"b\" names a pipeline, but the script \
             /repo/.shep/scripts/b.sh shadows it"
        ]
    );
}

#[test]
fn nesting_is_capped() {
    let p = policy(
        config(
            vec![("a", plain(&["b"])), ("b", plain(&["c"])), ("c", plain(&["s"]))],
            vec![("t", &["a"])],
        ),
        &["s"],
    );
    assert_eq!(
        messages(&p),
        ["pipeline.a: step \"b\" is a pipeline that itself composes c — nesting is capped at 2"]
    );
}

#[test]
fn types_say_what_they_are_for_and_run_what_there_is() {
    let mut c = config(vec![("p", plain(&["a"]))], vec![("t", &["p", "q"])]);
    c.types = c.types.with(
        "e".to_string(),
        TaskType { description: " ".to_string(), pipelines: Vec::new() },
    );
    let p = policy(c, &["a"]);
    let found = validate(&p);
    assert_eq!(found.len(), 3);
    is_same(
        &found[0],
        "type.e",
        "description is empty",
        Some("it is the only thing an agent has to choose by"),
    );
    is_same(&found[1], "type.e", "no pipelines, so this type does nothing", None);
    is_same(&found[2], "type.t", "no such pipeline \"q\"", Some("defined pipelines: p"));
}

#[test]
fn an_empty_pipeline_does_nothing() {
    let p = policy(config(vec![("p", plain(&[]))], vec![("t", &["p"])]), &[]);
    assert_eq!(messages(&p), ["pipeline.p: no steps, so this pipeline does nothing"]);
}

#[test]
fn a_wait_has_to_make_sense() {
    let mut unknown = waiting("a");
    unknown.await_on = Some("ci".to_string());
    let found = validate(&with_step(unknown));
    assert_eq!(found.len(), 1);
    is_same(
        &found[0],
        "pipeline.p",
        "step \"a\" awaits unknown signal \"ci\"",
        Some("known signals: agent_stopped. Declare a custom one with [signal.ci]"),
    );

    let mut loose = waiting("a");
    loose.on_missing = Some(Outcome::Started);
    loose.timeout = Some("soon".to_string());
    assert_eq!(
        messages(&with_step(loose)),
        [
            "pipeline.p: step \"a\" sets on_missing but not await",
            "pipeline.p: step \"a\" on_missing = \"started\" is not a settled outcome",
            "pipeline.p: step \"a\" sets timeout but not await",
            "pipeline.p: step \"a\" has an unreadable timeout \"soon\"",
        ]
    );

    let mut late = waiting("a");
    late.on_timeout = Some(Outcome::Started);
    assert_eq!(
        messages(&with_step(late)),
        [
            "pipeline.p: step \"a\" sets on_timeout but not timeout",
            "pipeline.p: step \"a\" on_timeout = \"started\" is not a settled outcome",
        ]
    );

    let mut other = waiting("a");
    other.await_on = Some("ci".to_string());
    other.on_missing = Some(Outcome::Pass);
    let mut p = with_step(other);
    p.config.signal =
        Table::new().with("ci".to_string(), Signal { description: "CI".to_string() });
    assert_eq!(
        messages(&p),
        ["pipeline.p: step \"a\" sets on_missing but does not await \"agent_stopped\""]
    );
    assert!(p.signal_known("ci"));
    assert!(!p.signal_known("human"));
    assert_eq!(p.known_signals(), texts(&["agent_stopped", "ci"]));
    assert_eq!(BUILTIN_SIGNALS, ["agent_stopped"]);
}

#[test]
fn a_wait_is_read_off_its_step() {
    let mut def = waiting("a");
    def.await_on = Some("agent_stopped".to_string());
    def.on_missing = Some(Outcome::Pass);
    def.timeout = Some("30m".to_string());
    def.on_timeout = Some(Outcome::Reject);
    let p = with_step(def);
    assert!(validate(&p).is_empty());
    assert_eq!(p.step_await("p", "a"), Some("agent_stopped"));
    assert_eq!(p.step_on_missing("p", "a"), Some(Outcome::Pass));
    assert_eq!(p.step_timeout_secs("p", "a"), Some(1800));
    assert_eq!(p.step_on_timeout("p", "a"), Some(Outcome::Reject));
    assert_eq!(p.step_await("p", "b"), None);
    assert_eq!(p.step_await("q", "a"), None);
}

#[test]
fn the_report_counts_and_lists() {
    let p = policy(config(vec![("p", plain(&[]))], vec![]), &[]);
    assert_eq!(
        report(&p, &p.problems()),
        "/repo/.shep/config.toml has 2 problems:\
         \n  config: no types defined, so nothing can be created\
         \n    a type is what an agent picks: [type.feature] with a description and pipelines\
         \n  pipeline.p: no steps, so this pipeline does nothing"
    );
    let one = policy(config(vec![("p", plain(&[]))], vec![("t", &["p"])]), &[]);
    assert_eq!(
        report(&one, &one.problems()),
        "/repo/.shep/config.toml has 1 problem:\
         \n  pipeline.p: no steps, so this pipeline does nothing"
    );
}

#[test]
fn steps_are_resolved_for_show() {
    let p = policy(
        config(vec![("a", plain(&["s", "b", "x"])), ("b", plain(&["s"]))], vec![]),
        &["s"],
    );
    let found = resolved_steps(&p, "a");
    assert_eq!(found.len(), 3);
    assert_eq!(found[0].0, "s");
    assert!(matches!(&found[0].1, Some(StepKind::Script(s)) if s == "/repo/.shep/scripts/s.sh"));
    assert!(matches!(&found[1].1, Some(StepKind::Pipeline(b)) if b == "b"));
    assert!(found[2].1.is_none());
    assert!(resolved_steps(&p, "nothing").is_empty());
}

#[test]
fn types_are_picked_from_a_menu() {
    let p = policy(config(vec![("p", plain(&["a"]))], vec![("t", &["p"])]), &["a"]);
    assert_eq!(p.task_type("t").map(|t| t.pipelines.len()).ok(), Some(1));
    assert_eq!(
        p.task_type("x").err().map(|e| e.message()),
        Some("unknown type \"x\". Available:\n  t            a t".to_string())
    );
    assert_eq!(
        p.pipeline("x").err().map(|e| e.message()),
        Some("unknown pipeline \"x\"".to_string())
    );
    let none = policy(config(vec![], vec![]), &[]);
    assert_eq!(none.type_menu(), "/repo/.shep/config.toml defines no types");
}

#[test]
fn parsing_keeps_what_was_parsed_or_says_why_not() {
    let good = config(vec![("p", plain(&["a"]))], vec![("t", &["p"])]);
    let run = texts(&["/r/.shep/scripts/a.sh"]);
    let p = Policy::parse(Ok(good), "/r", "/r/c.toml", &None, run.clone());
    let p = p.ok().expect("a valid config");
    assert_eq!(p.repo, "/r");
    assert_eq!(p.path, "/r/c.toml");
    assert_eq!(p.script_dirs, texts(&["/r/.shep/scripts"]));
    assert_eq!(p.runnable, run);

    let broken = Policy::parse(Err("line 1".to_string()), "/r", "/r/c.toml", &None, Vec::new());
    assert_eq!(broken.err().map(|e| e.message()), Some("/r/c.toml: line 1".to_string()));

    let bad = config(vec![], vec![]);
    let refused = Policy::parse_in(Ok(bad), "/r", "/r/c.toml", Vec::new(), Vec::new());
    assert!(refused
        .err()
        .is_some_and(|e| e.message().starts_with("/r/c.toml has 1 problem:\n  config: no types")));

    let bad = config(vec![], vec![]);
    assert!(Policy::parse_only(Ok(bad), "/r", "/r/c.toml", &None, Vec::new()).is_ok());
    assert!(Policy::parse_only(Err("x".to_string()), "/r", "c", &None, Vec::new()).is_err());
}

#[test]
fn scripts_are_looked_for_in_the_repo_then_at_home() {
    assert_eq!(script_search_path("/r", &None), texts(&["/r/.shep/scripts"]));
    assert_eq!(script_search_path("/r", &Some(String::new())), texts(&["/r/.shep/scripts"]));
    assert_eq!(
        script_search_path("/r", &Some("/home/me".to_string())),
        texts(&["/r/.shep/scripts", "/home/me/.config/shep/scripts"])
    );
    let mut p = policy(config(vec![], vec![]), &[]);
    p.script_dirs = texts(&["/a", "/b"]);
    p.runnable = texts(&["/b/x.sh", "/a/y.sh", "/b/y.sh"]);
    assert_eq!(p.script_path("x"), Some("/b/x.sh".to_string()));
    assert_eq!(p.script_path("y"), Some("/a/y.sh".to_string()));
    assert_eq!(p.script_path("z"), None);
}

#[test]
fn every_file_that_could_matter_is_a_candidate() {
    let c = config(vec![("p", looping(&["a", "b"], "fix", 2))], vec![]);
    assert_eq!(
        script_candidates(&c, &texts(&["old"]), &texts(&["/x", "/y"])),
        texts(&[
            "/x/a.sh", "/y/a.sh", "/x/b.sh", "/y/b.sh", "/x/fix.sh", "/y/fix.sh", "/x/old.sh",
            "/y/old.sh",
        ])
    );
}

#[test]
fn a_file_is_runnable_where_somebody_may_run_it() {
    assert!(is_executable_file(true, 0o100755));
    assert!(is_executable_file(true, 0o100001));
    assert!(!is_executable_file(true, 0o100644));
    assert!(!is_executable_file(false, 0o040755));
}

#[test]
fn loading_takes_what_was_read_or_says_why_not() {
    let one = || config(vec![("p", plain(&["a"]))], vec![("t", &["p"])]);
    let files = || texts(&["/r/.shep/scripts/a.sh"]);
    let p = Policy::load(Ok(Ok(one())), "/r", &None, files()).ok().expect("a policy");
    assert_eq!((p.repo.as_str(), p.path.as_str()), ("/r", "/r/.shep/config.toml"));
    let why = |read| Policy::load(read, "/r", &None, Vec::new()).err().map(|e| e.message());
    assert_eq!(
        why(Err(ReadFailure::Failed("denied".to_string()))),
        Some("reading /r/.shep/config.toml: denied".to_string())
    );
    assert_eq!(
        why(Err(ReadFailure::Missing)),
        Some(
            "no .shep/config.toml in /r — shepherd needs its policy in the repo it works on"
                .to_string()
        )
    );
    assert_eq!(
        why(Ok(Err("bad key".to_string()))),
        Some("/r/.shep/config.toml: bad key".to_string())
    );
    assert!(why(Ok(Ok(one()))).expect("problems").starts_with("/r/.shep/config.toml has 1 problem"));
    let p = Policy::read_only(Ok(Ok(one())), "/r", &None, Vec::new()).ok().expect("a policy");
    assert_eq!(p.problems().len(), 1);
    assert!(Policy::read_only(Err(ReadFailure::Missing), "/r", &None, Vec::new()).is_err());
}

#[test]
fn a_config_that_cannot_be_read_says_so() {
    assert_eq!(config_path("/r"), "/r/.shep/config.toml");
    assert_eq!(
        read_failure("/r", &ReadFailure::Missing).message(),
        "no .shep/config.toml in /r — shepherd needs its policy in the repo it works on"
    );
    assert_eq!(
        read_failure("/r", &ReadFailure::Failed("denied".to_string())).message(),
        "reading /r/.shep/config.toml: denied"
    );
}

#[test]
fn outcomes_are_four_words() {
    for o in Outcome::ALL {
        assert_eq!(Outcome::parse(o.as_str()).ok(), Some(o));
    }
    assert_eq!(
        Outcome::parse("Pass\n").err().map(|e| e.message()),
        Some("unknown outcome \"Pass\\n\"".to_string())
    );
}
