//! `shep status`: is anything driving this store, and what is in it?

use super::{add_line, ago, ago_text};
use crate::db::task::{count_in, count_of, Status};
use crate::paths::{log_beside, log_path_for};
use crate::supervisor::Health;
use crate::text::{cat2, cat3, cat4, cat5, copy, int_text, integer};
use vstd::prelude::*;
use vstd::string::*;

verus! {

/// What is said of a supervisor's health.
pub open spec fn described(health: Health) -> Seq<char> {
    match health {
        Health::Down => "down"@,
        Health::Running { heartbeat, age } => "running  pid "@ + int_text(heartbeat.pid as int)
            + "  last beat "@ + ago_text(age as int),
        Health::Stalled { heartbeat, age } => "STALLED  pid "@ + int_text(heartbeat.pid as int)
            + " is alive but has not beaten for "@ + int_text(age as int) + "s"@,
        Health::Dead { heartbeat, age } => "down     (pid "@ + int_text(heartbeat.pid as int)
            + " died without cleaning up; last beat "@ + ago_text(age as int) + ")"@,
    }
}

pub fn describe(health: &Health) -> (r: String)
    ensures
        r@ == described(*health),
{
    match *health {
        Health::Down => copy("down"),
        Health::Running { heartbeat, age } => cat4(
            "running  pid ",
            &integer(heartbeat.pid as i64),
            "  last beat ",
            &ago(age),
        ),
        Health::Stalled { heartbeat, age } => cat5(
            "STALLED  pid ",
            &integer(heartbeat.pid as i64),
            " is alive but has not beaten for ",
            &integer(age),
            "s",
        ),
        Health::Dead { heartbeat, age } => cat5(
            "down     (pid ",
            &integer(heartbeat.pid as i64),
            " died without cleaning up; last beat ",
            &ago(age),
            ")",
        ),
    }
}

/// The line that counts the tasks.
pub open spec fn tally(counts: Seq<(Status, i64)>) -> Seq<char> {
    "tasks       queued "@ + int_text(count_in(counts, Status::Queued) as int) + "  running "@
        + int_text(count_in(counts, Status::Running) as int) + "  parked "@ + int_text(
        count_in(counts, Status::Parked) as int,
    ) + "  resting "@ + int_text(count_in(counts, Status::Resting) as int) + "  finished "@
        + int_text(count_in(counts, Status::Finished) as int) + "  cancelled "@ + int_text(
        count_in(counts, Status::Cancelled) as int,
    )
}

fn tally_line(counts: &Vec<(Status, i64)>) -> (r: String)
    ensures
        r@ == tally(counts@),
{
    let mut line: String = copy("tasks       queued ");
    line.append(&integer(count_of(counts, Status::Queued)));
    line.append("  running ");
    line.append(&integer(count_of(counts, Status::Running)));
    line.append("  parked ");
    line.append(&integer(count_of(counts, Status::Parked)));
    line.append("  resting ");
    line.append(&integer(count_of(counts, Status::Resting)));
    line.append("  finished ");
    line.append(&integer(count_of(counts, Status::Finished)));
    line.append("  cancelled ");
    line.append(&integer(count_of(counts, Status::Cancelled)));
    line
}

/// What is said of a store.
pub open spec fn status_of(
    store: Seq<char>,
    version: i64,
    paused: bool,
    health: Health,
    counts: Seq<(Status, i64)>,
) -> Seq<Seq<char>> {
    seq![
        "store       "@ + store + " (schema v"@ + int_text(version as int) + ")"@,
        "log         "@ + log_beside(store),
        "paused      "@ + (if paused {
            "yes"@
        } else {
            "no"@
        }),
        "supervisor  "@ + described(health),
        tally(counts),
    ]
}

pub fn lines(
    store: &str,
    version: i64,
    paused: bool,
    health: &Health,
    counts: &Vec<(Status, i64)>,
) -> (r: Vec<String>)
    ensures
        r.deep_view() == status_of(store@, version, paused, *health, counts@),
{
    let mut out: Vec<String> = Vec::new();
    assert(out.deep_view() =~= Seq::empty());
    add_line(&mut out, cat5("store       ", store, " (schema v", &integer(version), ")"));
    add_line(&mut out, cat2("log         ", &log_path_for(store)));
    let yes: &str = if paused {
        "yes"
    } else {
        "no"
    };
    add_line(&mut out, cat2("paused      ", yes));
    add_line(&mut out, cat2("supervisor  ", &describe(health)));
    add_line(&mut out, tally_line(counts));
    assert(out.deep_view() =~= status_of(store@, version, paused, *health, counts@));
    out
}

/// What is said where there is no store yet.
pub fn absent_lines(store: &str) -> (r: Vec<String>)
    ensures
        r.deep_view() == seq![
            "store       "@ + store@ + " (absent — nothing created yet)"@,
            "supervisor  down"@,
        ],
{
    let mut out: Vec<String> = Vec::new();
    assert(out.deep_view() =~= Seq::empty());
    add_line(&mut out, cat3("store       ", store, " (absent — nothing created yet)"));
    add_line(&mut out, copy("supervisor  down"));
    assert(out.deep_view() =~= seq![
        "store       "@ + store@ + " (absent — nothing created yet)"@,
        "supervisor  down"@,
    ]);
    out
}

} // verus!
