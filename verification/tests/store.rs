use shepherd::db::check::{self, Check, CheckRow, Conclusion};
use shepherd::db::event::{payload_text, Field};
use shepherd::db::meta::{
    corrupt_value, is_paused, raw_cursor, set_paused, set_raw_cursor, Write,
};
use shepherd::db::pane::{self, Bound, Change};
use shepherd::db::raw_event::{dot, RawEvent};
use shepherd::db::schema::{check_version, latest_version, migration, M001_INITIAL, M002_PANE_AGENT};
use shepherd::db::task::{
    self, count_of, counts_by_status, from_row, require, to_row, updated_one, Status, Task,
    TaskPatch,
};
use shepherd::db::check_journal_mode;
use shepherd::json::{get_integer, get_string};
use shepherd::Error;

fn sample() -> Task {
    Task {
        id: "t-1".to_string(),
        brief: "b \"quoted\"".to_string(),
        kind: "feature".to_string(),
        pipeline: Some("review".to_string()),
        step: None,
        round: 2,
        status: Status::Resting,
        plan: vec!["a \"b\"".to_string(), "c\\d\n".to_string(), "é日".to_string()],
        await_deadline: Some(9),
        repo: "/r".to_string(),
        worktree: None,
        branch: Some("topic".to_string()),
        base: None,
        workspace_id: Some("w".to_string()),
        created: 3,
        updated: 4,
    }
}

#[test]
fn a_row_gives_back_the_task_it_was_written_for() {
    let t = sample();
    let row = to_row(&t);
    assert_eq!(row.status, "resting");
    assert_eq!(row.plan, "[\"a \\\"b\\\"\",\"c\\\\d\\n\",\"é日\"]");
    let back = from_row(row).ok().expect("a task");
    assert_eq!(back.id, t.id);
    assert_eq!(back.plan, t.plan);
    assert_eq!(back.status, t.status);
    assert_eq!((back.pipeline, back.step, back.round), (t.pipeline, t.step, t.round));
    assert_eq!((back.await_deadline, back.created, back.updated), (Some(9), 3, 4));
    assert_eq!((back.branch, back.workspace_id, back.worktree), (t.branch, t.workspace_id, None));
}

#[test]
fn a_malformed_row_is_corruption() {
    let mut row = to_row(&sample());
    row.status = "Queued".to_string();
    assert_eq!(
        from_row(row).err().map(|e| e.message()),
        Some("malformed task.status in the store: unknown status \"Queued\"".to_string())
    );
    let mut row = to_row(&sample());
    row.plan = "{".to_string();
    row.status = "nope".to_string();
    let why = serde_json::from_str::<Vec<String>>("{").err().map(|e| e.to_string());
    assert_eq!(
        from_row(row).err().map(|e| e.message()),
        why.map(|w| format!("malformed task.plan in the store: {w}"))
    );
    let mut row = to_row(&sample());
    row.plan = "[1]".to_string();
    assert!(matches!(from_row(row), Err(Error::Corrupt { what: "task.plan", .. })));
}

#[test]
fn every_status_is_read_back() {
    for s in Status::ALL {
        assert_eq!(Status::parse(s.as_str()).ok(), Some(s));
    }
    let terminal: Vec<_> = Status::ALL.into_iter().filter(|s| s.is_terminal()).collect();
    assert_eq!(terminal, [Status::Finished, Status::Cancelled]);
}

#[test]
fn a_patch_changes_only_what_it_names() {
    let mut t = sample();
    assert!(TaskPatch::new().is_empty());
    let p = TaskPatch::new()
        .status(Status::Queued)
        .pipeline(None)
        .step(Some("s".to_string()))
        .round(7)
        .plan(vec!["p".to_string()])
        .await_deadline(None)
        .worktree(Some("/w".to_string()))
        .branch(None)
        .base(Some("main".to_string()))
        .workspace_id(None);
    assert!(!p.is_empty());
    p.apply(&mut t);
    assert_eq!((t.status, t.pipeline, t.step, t.round), (Status::Queued, None, Some("s".to_string()), 7));
    assert_eq!((t.plan, t.await_deadline), (vec!["p".to_string()], None));
    assert_eq!((t.worktree.as_deref(), t.branch, t.base.as_deref(), t.workspace_id), (Some("/w"), None, Some("main"), None));
    assert_eq!((t.id.as_str(), t.repo.as_str(), t.created, t.updated), ("t-1", "/r", 3, 4));
}

#[test]
fn an_empty_patch_changes_nothing() {
    let mut t = sample();
    TaskPatch::new().apply(&mut t);
    assert_eq!((t.status, t.round, t.await_deadline), (Status::Resting, 2, Some(9)));
}

#[test]
fn a_task_that_is_not_there_is_said() {
    assert_eq!(
        require(None, "t-9").err().map(|e| e.message()),
        Some("no such task: t-9".to_string())
    );
    assert_eq!(require(Some(sample()), "t-1").ok().map(|t| t.id), Some("t-1".to_string()));
    assert!(updated_one(1, "t-1").is_ok());
    assert!(matches!(updated_one(0, "t-1"), Err(Error::TaskNotFound(id)) if id == "t-1"));
}

#[test]
fn ids_count_up() {
    assert_eq!(task::next_id(0), "t-1");
    assert_eq!(task::next_id(41), "t-42");
    assert_eq!(check::next_id(9), "c-10");
}

#[test]
fn tasks_are_counted_by_status() {
    let rows = vec![("queued".to_string(), 2), ("parked".to_string(), 1)];
    let counts = counts_by_status(&rows).ok().expect("counts");
    assert_eq!(counts, [(Status::Queued, 2), (Status::Parked, 1)]);
    assert_eq!(count_of(&counts, Status::Parked), 1);
    assert_eq!(count_of(&counts, Status::Running), 0);
    let bad = vec![("queued".to_string(), 2), ("x".to_string(), 1), ("y".to_string(), 1)];
    assert_eq!(
        counts_by_status(&bad).err().map(|e| e.message()),
        Some("malformed task.status in the store: unknown status \"x\"".to_string())
    );
}

fn check_at(id: &str, created: i64, conclusion: Conclusion, round: i64) -> Check {
    Check {
        id: id.to_string(),
        task_id: "t-1".to_string(),
        pipeline: Some("p".to_string()),
        step: Some("s".to_string()),
        round: Some(round),
        author: "me".to_string(),
        sha: "abc".to_string(),
        conclusion,
        body: None,
        created,
    }
}

#[test]
fn a_check_row_gives_back_the_check() {
    let mut c = check_at("c-1", 5, Conclusion::Fail, 2);
    c.body = Some("no".to_string());
    let row = check::to_row(&c);
    assert_eq!(row.conclusion, "fail");
    let back = check::from_row(row).ok().expect("a check");
    assert_eq!((back.id, back.conclusion, back.body), (c.id, c.conclusion, c.body));
    assert_eq!((back.pipeline, back.step, back.round), (c.pipeline, c.step, c.round));
    let bad = CheckRow { conclusion: "maybe".to_string(), ..check::to_row(&check_at("c", 1, Conclusion::Pass, 0)) };
    assert_eq!(
        check::from_row(bad).err().map(|e| e.message()),
        Some("malformed check_run.conclusion in the store: unknown conclusion \"maybe\"".to_string())
    );
    for c in [Conclusion::Pass, Conclusion::Fail] {
        assert_eq!(Conclusion::parse(c.as_str()).ok(), Some(c));
    }
}

#[test]
fn the_latest_check_for_a_step_counts() {
    let mut elsewhere = check_at("c-9", 99, Conclusion::Fail, 0);
    elsewhere.step = Some("other".to_string());
    let checks = vec![
        check_at("c-1", 5, Conclusion::Fail, 0),
        check_at("c-3", 7, Conclusion::Pass, 0),
        check_at("c-2", 7, Conclusion::Fail, 0),
        check_at("c-4", 8, Conclusion::Fail, 1),
        elsewhere,
    ];
    let id = |round| check::latest_for_step(&checks, "p", "s", round).map(|c| c.id.clone());
    assert_eq!(id(0), Some("c-3".to_string()));
    assert_eq!(id(1), Some("c-4".to_string()));
    assert_eq!(id(2), None);
}

#[test]
fn checks_of_one_second_are_told_apart_by_number() {
    let mut checks: Vec<Check> = (1..=10)
        .map(|n| check_at(&format!("c-{n}"), if n < 9 { n } else { 9 }, Conclusion::Pass, 0))
        .collect();
    let id = |checks: &Vec<Check>| {
        check::latest_for_step(checks, "p", "s", 0).map(|c| c.id.clone())
    };
    assert_eq!(id(&checks), Some("c-10".to_string()));
    checks.reverse();
    assert_eq!(id(&checks), Some("c-10".to_string()));
    let odd = vec![
        check_at("x", 9, Conclusion::Pass, 0),
        check_at("", 9, Conclusion::Fail, 0),
    ];
    assert_eq!(id(&odd), Some(String::new()));
}

#[test]
fn a_payload_is_written_as_an_object_and_reads_back() {
    let put = |key: &str, field| (key.to_string(), field);
    let payload = vec![
        put("pipeline", Field::Text(Some("p \"q\"\n".to_string()))),
        put("note", Field::Text(None)),
        put("round", Field::Number(Some(-2))),
        put("none", Field::Number(None)),
        put(
            "was",
            Field::Place { pipeline: None, step: Some("s".to_string()), round: i64::MAX },
        ),
    ];
    let text = payload_text(&Some(payload)).ok().flatten().expect("a text");
    assert_eq!(
        text,
        "{\"none\":null,\"note\":null,\"pipeline\":\"p \\\"q\\\"\\n\",\"round\":-2,\
         \"was\":{\"pipeline\":null,\"round\":9223372036854775807,\"step\":\"s\"}}"
    );
    assert_eq!(get_string(&text, "pipeline"), Some("p \"q\"\n".to_string()));
    assert_eq!(get_string(&text, "note"), None);
    assert_eq!(get_integer(&text, "round"), Some(-2));
    assert_eq!(get_string(&text, "was"), None);
    assert_eq!(get_string(&text, "gone"), None);
    let twice = vec![
        put("a", Field::Text(Some("first".to_string()))),
        put("a", Field::Text(Some("last".to_string()))),
    ];
    let text = payload_text(&Some(twice)).ok().flatten().expect("a text");
    assert_eq!(get_string(&text, "a"), Some("last".to_string()));
    assert!(matches!(payload_text(&None), Ok(None)));
}

fn bound(rows: &[(&str, &str)]) -> Vec<Bound> {
    rows.iter()
        .map(|(pane, task)| Bound { pane: pane.to_string(), task: task.to_string() })
        .collect()
}

#[test]
fn a_task_works_in_the_pane_bound_last() {
    let rows = bound(&[("w:1", "t-1"), ("w:2", "t-2"), ("w:3", "t-1")]);
    assert_eq!(pane::for_task(&rows, "t-1"), Some("w:3".to_string()));
    assert_eq!(pane::all_for_task(&rows, "t-1"), ["w:1", "w:3"]);
    assert_eq!(pane::for_task(&rows, "t-9"), None);
    assert_eq!(pane::task_for(&rows, "w:2"), Some("t-2".to_string()));
    assert_eq!(pane::task_for(&rows, "w:9"), None);
}

#[test]
fn binding_a_pane_again_makes_it_the_last() {
    let mut rows = bound(&[("w:1", "t-1"), ("w:3", "t-1")]);
    for change in pane::bind("w:1", "t-1") {
        match change {
            Change::Remove { pane } => rows.retain(|b| b.pane != pane),
            Change::Add { pane, task } => rows.push(Bound { pane, task }),
        }
    }
    assert_eq!(pane::for_task(&rows, "t-1"), Some("w:1".to_string()));
    assert_eq!(pane::all_for_task(&rows, "t-1"), ["w:3", "w:1"]);
}

fn left(w: Write) -> Option<String> {
    match w {
        Write::Put(v) => Some(v),
        Write::Delete => None,
    }
}

#[test]
fn pausing_is_read_back() {
    assert!(is_paused(&left(set_paused(true))));
    assert!(!is_paused(&left(set_paused(false))));
    assert!(!is_paused(&Some("yes".to_string())));
}

#[test]
fn the_cursor_is_read_back() {
    for n in [0, 17, i64::MAX] {
        assert_eq!(raw_cursor(&left(set_raw_cursor(n))).ok(), Some(n));
    }
    assert_eq!(raw_cursor(&None).ok(), Some(0));
    assert_eq!(
        raw_cursor(&Some("x".to_string())).err().map(|e| e.message()),
        Some("malformed meta value in the store: raw_cursor: not a number: \"x\"".to_string())
    );
    assert_eq!(
        corrupt_value("k", "why").message(),
        "malformed meta value in the store: k: why"
    );
}

#[test]
fn a_newer_store_is_refused() {
    assert_eq!(latest_version(), 2);
    assert_eq!(check_version(2, "/s").ok(), Some(2));
    assert_eq!(
        check_version(3, "/s").err().map(|e| e.message()),
        Some(
            "store at /s has schema version 3, but this build understands at most 2 — upgrade shep"
                .to_string()
        )
    );
    assert_eq!(migration(0), Some((1, M001_INITIAL)));
    assert_eq!(migration(1), Some((2, M002_PANE_AGENT)));
    assert_eq!(migration(2), None);
    assert_eq!(migration(-1), None);
}

#[test]
fn the_schema_holds_what_rows_hold() {
    let conn = rusqlite::Connection::open_in_memory().expect("a store");
    let mut version = 0;
    while let Some((next, sql)) = migration(version) {
        conn.execute_batch(sql).expect("a migration");
        version = next;
    }
    let t = to_row(&sample());
    let wrote = conn
        .execute(
            "INSERT INTO task (id, brief, type, round, status, plan, await_deadline, repo, \
             created, updated) VALUES (?1, ?2, ?3, ?4, ?5, ?6, ?7, ?8, ?9, ?10)",
            (
                &t.id, &t.brief, &t.kind, t.round, &t.status, &t.plan, t.await_deadline, &t.repo,
                t.created, t.updated,
            ),
        )
        .expect("an insert");
    assert_eq!(wrote, 1);
    let plan: String =
        conn.query_row("SELECT plan FROM task", [], |r| r.get(0)).expect("a row");
    assert_eq!(plan, t.plan);
}

#[test]
fn only_wal_mode_will_do() {
    assert!(check_journal_mode("wal").is_ok());
    assert!(check_journal_mode("WaL").is_ok());
    assert_eq!(
        check_journal_mode("delete").err().map(|e| e.message()),
        Some("could not put the store in WAL mode (got \"delete\")".to_string())
    );
}

fn raw(body: &str) -> RawEvent {
    RawEvent { seq: 1, ts: 2, body: body.to_string() }
}

#[test]
fn an_event_name_is_dotted_once() {
    assert_eq!(dot("pane_agent_status_changed"), "pane.agent_status_changed");
    assert_eq!(dot("plain"), "plain");
    assert_eq!(
        raw("{\"event\":\"pane_agent_status_changed\"}").kind(),
        Some("pane.agent_status_changed".to_string())
    );
    assert_eq!(raw("{\"event\":7}").kind(), None);
    assert_eq!(raw("not json").kind(), None);
    assert_eq!(raw("[]").kind(), None);
}

#[test]
fn an_events_data_is_its_own_or_the_whole() {
    let e = raw("{\"data\":{\"pane_id\":\"w:p\"}}");
    assert_eq!(get_string(&e.data(), "pane_id"), Some("w:p".to_string()));
    assert_eq!(e.data_field("pane_id"), Some("w:p".to_string()));
    let e = raw("{\"pane_id\":\"w:p\"}");
    assert_eq!(get_string(&e.data(), "pane_id"), Some("w:p".to_string()));
    assert_eq!(e.data_field("pane_id"), None);
}

#[test]
fn json_members_are_read() {
    let text = "{\"a\":\"x\\ny\",\"n\":-5,\"f\":1.5,\"o\":{\"k\":\"v\"},\"z\":null}";
    assert_eq!(get_string(text, "a"), Some("x\ny".to_string()));
    assert_eq!(get_string(text, "n"), None);
    assert_eq!(get_integer(text, "n"), Some(-5));
    assert_eq!(get_integer(text, "f"), None);
    assert_eq!(get_integer(text, "a"), None);
    assert_eq!(get_string(text, "missing"), None);
    assert_eq!(get_string("nope", "a"), None);
}

#[test]
fn errors_are_told() {
    assert_eq!(
        Error::NoStore("/s".to_string()).message(),
        "no store at /s — nothing has been created yet"
    );
    assert_eq!(Error::Sqlite("locked".to_string()).message(), "database error: locked");
    assert_eq!(Error::Json("eof".to_string()).message(), "json error: eof");
    assert_eq!(Error::Io("denied".to_string()).message(), "io error: denied");
    assert_eq!(Error::other("plain".to_string()).message(), "plain");
    assert_eq!(
        Error::corrupt("thing", "bent".to_string()).message(),
        "malformed thing in the store: bent"
    );
}
