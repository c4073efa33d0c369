//! `shep get <task>`: everything the store knows about one task.

use super::{
    add_line, add_lines, ago_text, cut, dash, elapsed, or_dash, since, truncate, widest, width_of,
};
use crate::db::check::{Check, CheckModel};
use crate::db::task::{Task, TaskModel};
use crate::text::{cat3, copy, int_text, integer, pad, padded, push_deep};
use vstd::prelude::*;
use vstd::string::*;

verus! {

/// A row where there is a value.
pub open spec fn row_for(label: Seq<char>, value: Option<Seq<char>>) -> Seq<
    (Seq<char>, Seq<char>),
> {
    match value {
        Some(v) => seq![(label, v)],
        None => Seq::empty(),
    }
}

/// The labels and values of a task.
pub open spec fn rows_of(t: TaskModel, pane: Option<Seq<char>>) -> Seq<(Seq<char>, Seq<char>)> {
    seq![
        ("id"@, t.id),
        ("brief"@, t.brief),
        ("type"@, t.kind),
        ("status"@, t.status.word()),
        ("pipeline"@, or_dash(t.pipeline)),
        ("step"@, or_dash(t.step)),
        ("round"@, int_text(t.round as int)),
        ("repo"@, t.repo),
    ] + row_for("worktree"@, t.worktree) + row_for("branch"@, t.branch) + row_for(
        "base"@,
        t.base,
    ) + row_for("workspace"@, t.workspace_id) + row_for("pane"@, pane)
}

/// The labels alone.
pub open spec fn labels(rows: Seq<(Seq<char>, Seq<char>)>) -> Seq<Seq<char>> {
    Seq::new(rows.len(), |i: int| rows[i].0)
}

/// Labels and values, the values in line.
pub open spec fn aligned(rows: Seq<(Seq<char>, Seq<char>)>) -> Seq<Seq<char>> {
    Seq::new(
        rows.len(),
        |i: int| padded(rows[i].0, widest(labels(rows))) + "  "@ + rows[i].1,
    )
}

/// The line about one check.
pub open spec fn check_line(c: CheckModel, now: i64) -> Seq<char> {
    "  "@ + padded(c.id, 5) + " "@ + padded(c.conclusion.word(), 8) + " "@ + padded(c.author, 14)
        + " "@ + padded(ago_text(elapsed(now, c.created)), 10) + " "@ + cut(
        match c.body {
            Some(body) => body,
            None => ""@,
        },
        40,
    )
}

/// What is said of the checks on a task, where there are any.
pub open spec fn checks_of(checks: Seq<CheckModel>, now: i64) -> Seq<Seq<char>> {
    if checks.len() == 0 {
        Seq::empty()
    } else {
        seq!["\nchecks"@] + Seq::new(checks.len(), |i: int| check_line(checks[i], now))
    }
}

/// What `shep get` prints.
pub open spec fn get_of(
    t: TaskModel,
    pane: Option<Seq<char>>,
    checks: Seq<CheckModel>,
    now: i64,
) -> Seq<Seq<char>> {
    aligned(rows_of(t, pane)) + checks_of(checks, now)
}

fn add_row(rows: &mut Vec<(String, String)>, label: &str, value: &Option<String>)
    ensures
        final(rows).deep_view() == old(rows).deep_view() + row_for(label@, value.deep_view()),
{
    broadcast use push_deep;

    let ghost before = *rows;
    if let Some(v) = value {
        rows.push((copy(label), copy(v)));
        assert(rows.deep_view() =~= before.deep_view().push((label@, v@)));
    }
    assert(rows.deep_view() =~= before.deep_view() + row_for(label@, value.deep_view()));
}

fn rows(task: &Task, pane: &Option<String>) -> (r: Vec<(String, String)>)
    ensures
        r.deep_view() == rows_of(task@, pane.deep_view()),
{
    let mut out: Vec<(String, String)> = Vec::new();
    assert(out.deep_view() =~= Seq::empty());
    add_row(&mut out, "id", &Some(copy(&task.id)));
    add_row(&mut out, "brief", &Some(copy(&task.brief)));
    add_row(&mut out, "type", &Some(copy(&task.kind)));
    add_row(&mut out, "status", &Some(copy(task.status.as_str())));
    add_row(&mut out, "pipeline", &Some(dash(&task.pipeline)));
    add_row(&mut out, "step", &Some(dash(&task.step)));
    add_row(&mut out, "round", &Some(integer(task.round)));
    add_row(&mut out, "repo", &Some(copy(&task.repo)));
    add_row(&mut out, "worktree", &task.worktree);
    add_row(&mut out, "branch", &task.branch);
    add_row(&mut out, "base", &task.base);
    add_row(&mut out, "workspace", &task.workspace_id);
    add_row(&mut out, "pane", pane);
    assert(out.deep_view() =~= rows_of(task@, pane.deep_view()));
    out
}

fn align(rows: &Vec<(String, String)>) -> (r: Vec<String>)
    ensures
        r.deep_view() == aligned(rows.deep_view()),
{
    let ghost given = rows.deep_view();
    let mut names: Vec<String> = Vec::new();
    assert(names.deep_view() =~= labels(given).take(0));
    for i in 0..rows.len()
        invariant
            given == rows.deep_view(),
            names.deep_view() == labels(given).take(i as int),
    {
        let ghost prev = names.deep_view();
        add_line(&mut names, copy(&rows[i].0));
        assert(given[i as int] == (rows@[i as int].0@, rows@[i as int].1@));
        assert(prev.push(labels(given)[i as int]) =~= labels(given).take(i as int + 1));
    }
    assert(labels(given).take(given.len() as int) =~= labels(given));
    let width: usize = width_of(&names);
    let ghost all = aligned(given);
    let mut out: Vec<String> = Vec::new();
    assert(out.deep_view() =~= all.take(0));
    for i in 0..rows.len()
        invariant
            given == rows.deep_view(),
            all == aligned(given),
            width == widest(labels(given)),
            out.deep_view() == all.take(i as int),
    {
        let ghost prev = out.deep_view();
        assert(given[i as int] == (rows@[i as int].0@, rows@[i as int].1@));
        add_line(&mut out, cat3(&pad(&rows[i].0, width), "  ", &rows[i].1));
        assert(prev.push(all[i as int]) =~= all.take(i as int + 1));
    }
    assert(all.take(all.len() as int) =~= all);
    out
}

fn check_text(c: &Check, now: i64) -> (r: String)
    ensures
        r@ == check_line(c@, now),
{
    let body: &str = match &c.body {
        Some(body) => body.as_str(),
        None => "",
    };
    let mut line: String = copy("  ");
    line.append(&pad(&c.id, 5));
    line.append(" ");
    line.append(&pad(c.conclusion.as_str(), 8));
    line.append(" ");
    line.append(&pad(&c.author, 14));
    line.append(" ");
    line.append(&pad(&since(now, c.created), 10));
    line.append(" ");
    line.append(&truncate(body, 40));
    line
}

fn check_lines(checks: &Vec<Check>, now: i64) -> (r: Vec<String>)
    ensures
        r.deep_view() == checks_of(checks.deep_view(), now),
{
    let ghost given = checks.deep_view();
    let mut out: Vec<String> = Vec::new();
    assert(out.deep_view() =~= Seq::empty());
    if checks.len() == 0 {
        return out;
    }
    add_line(&mut out, copy("\nchecks"));
    let ghost all = checks_of(given, now);
    assert(out.deep_view() =~= all.take(1));
    for i in 0..checks.len()
        invariant
            given == checks.deep_view(),
            given.len() > 0,
            all == checks_of(given, now),
            out.deep_view() == all.take(i as int + 1),
    {
        let ghost prev = out.deep_view();
        assert(given[i as int] == checks@[i as int]@);
        add_line(&mut out, check_text(&checks[i], now));
        assert(prev.push(all[i as int + 1]) =~= all.take(i as int + 2));
    }
    assert(all.take(all.len() as int) =~= all);
    out
}

pub fn lines(task: &Task, pane: &Option<String>, checks: &Vec<Check>, now: i64) -> (r: Vec<String>)
    ensures
        r.deep_view() == get_of(task@, pane.deep_view(), checks.deep_view(), now),
{
    let mut out: Vec<String> = align(&rows(task, pane));
    add_lines(&mut out, check_lines(checks, now));
    out
}

} // verus!
