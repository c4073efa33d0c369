//! Schema and migrations. `user_version` is the version marker; each migration
//! runs in its own transaction together with the bump, so a half-applied migration
//! is not a state the store can be left in.

use crate::error::{Error, ErrorModel};
use crate::text::copy;
use vstd::prelude::*;

verus! {

/// The first migration: the data model, plus `meta`.
pub const M001_INITIAL: &'static str = "
CREATE TABLE task (
  id             TEXT PRIMARY KEY,
  brief          TEXT NOT NULL,
  type           TEXT NOT NULL,
  pipeline       TEXT,
  step           TEXT,
  round          INTEGER NOT NULL DEFAULT 0,
  status         TEXT NOT NULL,
  plan           TEXT NOT NULL DEFAULT '[]',
  await_deadline INTEGER,
  repo           TEXT NOT NULL,
  worktree       TEXT,
  branch         TEXT,
  base           TEXT,
  workspace_id   TEXT,
  created        INTEGER NOT NULL,
  updated        INTEGER NOT NULL
) STRICT;

CREATE INDEX task_status ON task(status);

CREATE TABLE check_run (
  id         TEXT PRIMARY KEY,
  task_id    TEXT NOT NULL REFERENCES task(id),
  pipeline   TEXT,
  step       TEXT,
  round      INTEGER,
  author     TEXT NOT NULL,
  sha        TEXT NOT NULL,
  conclusion TEXT NOT NULL,
  body       TEXT,
  created    INTEGER NOT NULL
) STRICT;

-- The lookup that resolves a deferred step: latest check for a
-- task + pipeline + step + round.
CREATE INDEX check_run_lookup ON check_run(task_id, pipeline, step, round, created);

CREATE TABLE event (
  seq       INTEGER PRIMARY KEY AUTOINCREMENT,
  ts        INTEGER NOT NULL,
  type      TEXT NOT NULL,
  task_id   TEXT,
  payload   TEXT,
  caused_by INTEGER
) STRICT;

CREATE INDEX event_task ON event(task_id, seq);

CREATE TABLE pane_task (
  pane_id TEXT PRIMARY KEY,
  task_id TEXT NOT NULL REFERENCES task(id)
) STRICT;

CREATE INDEX pane_task_task ON pane_task(task_id);

-- What Herdr said, as it said it.
CREATE TABLE raw_event (
  seq  INTEGER PRIMARY KEY AUTOINCREMENT,
  ts   INTEGER NOT NULL,
  body TEXT NOT NULL
) STRICT;

-- Supervisor heartbeat and the pause flag: small facts that are not tasks.
CREATE TABLE meta (
  key   TEXT PRIMARY KEY,
  value TEXT NOT NULL
) STRICT;
";

/// The second migration: the last agent status seen in a pane.
///
/// `pane_agent_status_changed` carries no previous status, so the `working` to
/// `done` edge can only be worked out against something we kept ourselves. This is
/// that: a projection of the status events in `raw_event`, one row per pane a task
/// is bound to.
pub const M002_PANE_AGENT: &'static str = "
CREATE TABLE pane_agent (
  pane_id TEXT PRIMARY KEY,
  status  TEXT NOT NULL,
  updated INTEGER NOT NULL
) STRICT;
";

/// The schema version this build writes.
pub fn latest_version() -> (r: i64)
    ensures
        r == 2,
{
    2
}

/// Refuse to read a store written by a newer build rather than misinterpret it.
pub fn check_version(found: i64, path: &str) -> (r: Result<i64, Error>)
    ensures
        found <= 2 ==> r == Ok::<i64, Error>(found),
        found > 2 ==> (r matches Err(e) && e@ == (ErrorModel::SchemaTooNew {
            path: path@,
            found: found as int,
            known: 2,
        })),
{
    if found > latest_version() {
        return Err(Error::SchemaTooNew { path: copy(path), found, known: latest_version() });
    }
    Ok(found)
}

/// The migration that takes a store from a version to the next: the version it is
/// then at, and what to run. A store at no version this build knows is left alone.
pub fn migration(current: i64) -> (r: Option<(i64, &'static str)>)
    ensures
        match r {
            Some((next, sql)) => 0 <= current < 2 && next == current + 1 && sql@ == (if current
                == 0 {
                M001_INITIAL@
            } else {
                M002_PANE_AGENT@
            }),
            None => !(0 <= current < 2),
        },
{
    if current == 0 {
        Some((1, M001_INITIAL))
    } else if current == 1 {
        Some((2, M002_PANE_AGENT))
    } else {
        None
    }
}

} // verus!
