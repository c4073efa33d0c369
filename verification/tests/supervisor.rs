use shepherd::db::event::Field;
use shepherd::git::{head_sha, Ran};
use shepherd::paths::{
    db_path, env_path, join_path, log_path, log_path_for, shep_bin, state_dir,
};
use shepherd::supervisor::{
    beat, ensure_sole, health_at, pid_alive, started_event, stopped_event, tick, Health,
    Heartbeat, Loop, Tick,
};

fn text(s: &str) -> Option<String> {
    Some(s.to_string())
}

#[test]
fn health_follows_the_heartbeat() {
    let hb = beat(7, 10, 100);
    assert_eq!(hb, Heartbeat { pid: 7, started: 10, beat: 100 });
    assert_eq!(health_at(None, true, 100), Health::Down);
    assert_eq!(health_at(Some(hb), true, 105), Health::Running { heartbeat: hb, age: 5 });
    assert_eq!(health_at(Some(hb), true, 106), Health::Stalled { heartbeat: hb, age: 6 });
    assert_eq!(health_at(Some(hb), false, 101), Health::Dead { heartbeat: hb, age: 1 });
    assert_eq!(health_at(Some(hb), true, 50), Health::Running { heartbeat: hb, age: 0 });
}

#[test]
fn health_has_a_word() {
    let hb = beat(7, 10, 100);
    assert_eq!(Health::Down.label(), "down");
    assert_eq!(health_at(Some(hb), true, 100).label(), "running");
    assert_eq!(health_at(Some(hb), true, 200).label(), "stalled");
    assert_eq!(health_at(Some(hb), false, 200).label(), "dead");
    assert!(health_at(Some(hb), true, 100).is_healthy());
    assert!(!health_at(Some(hb), true, 200).is_healthy());
    assert_eq!(Health::Down.heartbeat(), None);
    assert_eq!(health_at(Some(hb), false, 200).heartbeat(), Some(hb));
}

#[test]
fn a_second_supervisor_is_refused() {
    let hb = beat(7, 10, 100);
    assert!(ensure_sole(&Health::Down).is_ok());
    assert!(ensure_sole(&health_at(Some(hb), false, 100)).is_ok());
    for now in [100, 200] {
        assert_eq!(
            ensure_sole(&health_at(Some(hb), true, now)).err().map(|e| e.message()),
            Some("a supervisor is already running as pid 7 — stop it first".to_string())
        );
    }
}

#[test]
fn a_pid_is_alive_where_it_answers() {
    assert!(pid_alive(5, true, false));
    assert!(pid_alive(5, false, true));
    assert!(!pid_alive(5, false, false));
    assert!(!pid_alive(0, true, false));
    assert!(!pid_alive(-1, true, true));
}

#[test]
fn a_paused_tick_looks_at_nothing() {
    assert_eq!(tick(true, 3, 4), Tick { paused: true, queued: 0, running: 0 });
    assert_eq!(tick(false, 3, 4), Tick { paused: false, queued: 3, running: 4 });
}

#[test]
fn the_loop_reports_changes_beats_once_a_second_and_stops() {
    let mut l = Loop::new(100);
    let quiet = tick(false, 0, 0);
    let busy = tick(false, 1, 0);
    let t = l.turn(quiet, 100, Some(3));
    assert!(!t.report && !t.beat && !t.stop);
    let t = l.turn(busy, 101, Some(3));
    assert!(t.report && t.beat && !t.stop);
    let t = l.turn(busy, 101, Some(3));
    assert!(!t.report && !t.beat && t.stop);
    assert_eq!((l.ticks, l.last_beat), (3, 101));
    assert!(!l.turn(busy, 101, None).stop);
}

#[test]
fn a_supervisors_life_is_recorded() {
    let e = started_event(7, 200);
    assert_eq!(e.kind, "supervisor.started");
    let p = e.payload.expect("a payload");
    assert!(matches!(&p[0], (k, Field::Number(Some(7))) if k == "pid"));
    assert!(matches!(&p[1], (k, Field::Number(Some(200))) if k == "poll_ms"));
    let e = stopped_event(7, 12);
    assert_eq!(e.kind, "supervisor.stopped");
    let p = e.payload.expect("a payload");
    assert!(matches!(&p[1], (k, Field::Number(Some(12))) if k == "ticks"));
}

#[test]
fn paths_are_joined_as_std_joins_them() {
    for (dir, rest) in
        [("/a", "b"), ("/a/", "b"), ("", "b"), ("/a", "/b"), ("a", "b/c"), ("/", "x"), ("a", "")]
    {
        let std = std::path::Path::new(dir).join(rest);
        assert_eq!(join_path(dir, rest), std.display().to_string(), "{dir} {rest}");
    }
}

#[test]
fn the_state_lives_where_the_environment_says() {
    assert_eq!(env_path(&text("")), None);
    assert_eq!(env_path(&text("/x")), text("/x"));
    assert_eq!(state_dir(&text("/x"), &text("/h")), "/x/shep");
    assert_eq!(state_dir(&text(""), &text("/h")), "/h/.local/state/shep");
    assert_eq!(state_dir(&None, &None), ".shep-state");
    assert_eq!(db_path(&text("/d"), &None, &None), "/d");
    assert_eq!(db_path(&None, &None, &text("/h")), "/h/.local/state/shep/shep.db");
    assert_eq!(log_path(&None, &text("/x"), &None), "/x/shep/supervisor.log");
    assert_eq!(shep_bin(&text("/b"), &text("/c")), text("/b"));
    assert_eq!(shep_bin(&text(""), &text("/c")), text("/c"));
    assert_eq!(shep_bin(&None, &None), None);
}

#[test]
fn the_log_lies_beside_the_store() {
    for db in [
        "/a/b.db", "b.db", "/b.db", "a/b.db", "a//b.db", "a/./b.db", "./b.db", "/", "", "a/",
        "a/b/", "a/..", ".", "/.", "//", "a/.", "../b.db", "/a/./",
    ] {
        let std = match std::path::Path::new(db).parent() {
            Some(dir) if !dir.as_os_str().is_empty() => dir.join("supervisor.log"),
            _ => std::path::PathBuf::from("supervisor.log"),
        };
        assert_eq!(log_path_for(db), std.display().to_string(), "{db:?}");
    }
}

#[test]
fn the_head_commit_is_what_git_says() {
    let ran = |success, out: &str, err: &str| {
        Ok(Ran { success, stdout: out.to_string(), stderr: err.to_string() })
    };
    assert_eq!(head_sha("/w", &ran(true, "abc\n", "")).ok(), text("abc"));
    let why = |r| head_sha("/w", &r).err().map(|e| e.message());
    assert_eq!(
        why(ran(false, "", " no repo \n")),
        text("git rev-parse HEAD failed in /w: no repo")
    );
    assert_eq!(
        why(ran(true, "\n", "")),
        text("git rev-parse HEAD said nothing in /w — no commits yet?")
    );
    assert_eq!(why(Err("gone".to_string())), text("could not run git in /w: gone"));
}
