//! `shep ps`: a plain aligned table of tasks.

use super::{add_line, ago_text, cut, elapsed, since, truncate, widest, width_of};
use crate::db::task::{Status, Task, TaskModel};
use crate::text::{cat3, copy, int_text, integer, pad, padded, push_deep, trim_end, trimmed_end};
use vstd::prelude::*;
use vstd::string::*;

verus! {

/// Where a task is, in a cell.
pub open spec fn whereabouts(t: TaskModel) -> Seq<char> {
    let place = match (t.pipeline, t.step) {
        (Some(p), Some(s)) => p + "/"@ + s,
        (Some(p), None) => p,
        _ => "-"@,
    };
    if t.round > 0 {
        place + " r"@ + int_text(t.round as int)
    } else {
        place
    }
}

pub fn position(task: &Task) -> (r: String)
    ensures
        r@ == whereabouts(task@),
{
    let place: String = match (&task.pipeline, &task.step) {
        (Some(p), Some(s)) => cat3(p, "/", s),
        (Some(p), None) => copy(p),
        _ => copy("-"),
    };
    if task.round > 0 {
        cat3(&place, " r", &integer(task.round))
    } else {
        place
    }
}

/// The cells of one row: five that are aligned, and the brief.
#[verifier::ext_equal]
pub struct RowModel {
    pub id: Seq<char>,
    pub kind: Seq<char>,
    pub status: Seq<char>,
    pub place: Seq<char>,
    pub updated: Seq<char>,
    pub brief: Seq<char>,
}

impl RowModel {
    /// The row of the column names.
    pub open spec fn head() -> RowModel {
        RowModel {
            id: "ID"@,
            kind: "TYPE"@,
            status: "STATUS"@,
            place: "WHERE"@,
            updated: "UPDATED"@,
            brief: "BRIEF"@,
        }
    }

    /// The row of a task.
    pub open spec fn of(t: TaskModel, now: i64) -> RowModel {
        RowModel {
            id: t.id,
            kind: t.kind,
            status: t.status.word(),
            place: whereabouts(t),
            updated: ago_text(elapsed(now, t.updated)),
            brief: cut(t.brief, 48),
        }
    }
}

/// The names of the columns, and one row for each task.
pub open spec fn table(tasks: Seq<TaskModel>, now: i64) -> Seq<RowModel> {
    seq![RowModel::head()] + Seq::new(tasks.len(), |i: int| RowModel::of(tasks[i], now))
}

pub open spec fn ids(rows: Seq<RowModel>) -> Seq<Seq<char>> {
    Seq::new(rows.len(), |i: int| rows[i].id)
}

pub open spec fn kinds(rows: Seq<RowModel>) -> Seq<Seq<char>> {
    Seq::new(rows.len(), |i: int| rows[i].kind)
}

pub open spec fn statuses(rows: Seq<RowModel>) -> Seq<Seq<char>> {
    Seq::new(rows.len(), |i: int| rows[i].status)
}

pub open spec fn places(rows: Seq<RowModel>) -> Seq<Seq<char>> {
    Seq::new(rows.len(), |i: int| rows[i].place)
}

pub open spec fn times(rows: Seq<RowModel>) -> Seq<Seq<char>> {
    Seq::new(rows.len(), |i: int| rows[i].updated)
}

pub open spec fn briefs(rows: Seq<RowModel>) -> Seq<Seq<char>> {
    Seq::new(rows.len(), |i: int| rows[i].brief)
}

/// A row as it is printed: each column as wide as its widest cell, two blanks between
/// them. The last column is not padded, so a long brief cannot push the line about.
pub open spec fn row_line(rows: Seq<RowModel>, i: int) -> Seq<char> {
    trimmed_end(
        padded(rows[i].id, widest(ids(rows))) + "  "@ + padded(
            rows[i].kind,
            widest(kinds(rows)),
        ) + "  "@ + padded(rows[i].status, widest(statuses(rows))) + "  "@ + padded(
            rows[i].place,
            widest(places(rows)),
        ) + "  "@ + padded(rows[i].updated, widest(times(rows))) + "  "@ + rows[i].brief,
    )
}

/// What `shep ps` prints of some tasks.
pub open spec fn ps_of(tasks: Seq<TaskModel>, all: bool, now: i64) -> Seq<Seq<char>> {
    if tasks.len() == 0 {
        seq![
            if all {
                "no tasks"@
            } else {
                "no open tasks"@
            },
        ]
    } else {
        let rows = table(tasks, now);
        Seq::new(rows.len(), |i: int| row_line(rows, i))
    }
}

/// The tasks that are still open.
pub open spec fn open_tasks() -> spec_fn(TaskModel) -> bool {
    |t: TaskModel| !t.status.terminal()
}

/// The tasks to list: all of them, or those that are still open.
pub open spec fn listed_tasks(tasks: Seq<TaskModel>, all: bool) -> Seq<TaskModel> {
    if all {
        tasks
    } else {
        tasks.filter(open_tasks())
    }
}

/// Leave out what is not to be listed.
pub fn retain(tasks: Vec<Task>, all: bool) -> (r: Vec<Task>)
    ensures
        r.deep_view() == listed_tasks(tasks.deep_view(), all),
{
    broadcast use push_deep;

    if all {
        return tasks;
    }
    let ghost raw = tasks@;
    let ghost given = tasks.deep_view();
    let ghost p = open_tasks();
    let mut out: Vec<Task> = Vec::new();
    proof {
        reveal(Seq::filter);
        assert(out.deep_view() =~= given.take(0).filter(p));
    }
    for t in it: tasks
        invariant
            it.seq() == raw,
            raw.len() == given.len(),
            forall|i: int| 0 <= i < raw.len() ==> (#[trigger] raw[i])@ == given[i],
            p == open_tasks(),
            out.deep_view() == given.take(it.index()).filter(p),
    {
        let ghost k = it.index();
        proof {
            reveal(Seq::filter);
            assert(given.take(k + 1).drop_last() =~= given.take(k));
            assert(given.take(k + 1).last() == given[k]);
            assert(t@ == given[k]);
        }
        if !t.status.is_terminal() {
            let ghost prev = out;
            out.push(t);
            assert(out.deep_view() =~= prev.deep_view().push(given[k]));
        }
    }
    assert(given.take(given.len() as int) =~= given);
    out
}

/// The columns of the table.
struct Columns {
    ids: Vec<String>,
    kinds: Vec<String>,
    statuses: Vec<String>,
    places: Vec<String>,
    times: Vec<String>,
    briefs: Vec<String>,
}

impl Columns {
    spec fn hold(self, rows: Seq<RowModel>) -> bool {
        &&& self.ids.deep_view() == ids(rows)
        &&& self.kinds.deep_view() == kinds(rows)
        &&& self.statuses.deep_view() == statuses(rows)
        &&& self.places.deep_view() == places(rows)
        &&& self.times.deep_view() == times(rows)
        &&& self.briefs.deep_view() == briefs(rows)
    }
}

fn columns(tasks: &Vec<Task>, now: i64) -> (r: Columns)
    ensures
        r.hold(table(tasks.deep_view(), now)),
{
    let ghost given = tasks.deep_view();
    let ghost rows = table(given, now);
    let mut c: Columns = Columns {
        ids: Vec::new(),
        kinds: Vec::new(),
        statuses: Vec::new(),
        places: Vec::new(),
        times: Vec::new(),
        briefs: Vec::new(),
    };
    add_line(&mut c.ids, copy("ID"));
    add_line(&mut c.kinds, copy("TYPE"));
    add_line(&mut c.statuses, copy("STATUS"));
    add_line(&mut c.places, copy("WHERE"));
    add_line(&mut c.times, copy("UPDATED"));
    add_line(&mut c.briefs, copy("BRIEF"));
    proof {
        assert(c.ids.deep_view() =~= ids(rows.take(1)));
        assert(c.kinds.deep_view() =~= kinds(rows.take(1)));
        assert(c.statuses.deep_view() =~= statuses(rows.take(1)));
        assert(c.places.deep_view() =~= places(rows.take(1)));
        assert(c.times.deep_view() =~= times(rows.take(1)));
        assert(c.briefs.deep_view() =~= briefs(rows.take(1)));
    }
    for i in 0..tasks.len()
        invariant
            given == tasks.deep_view(),
            rows == table(given, now),
            rows.len() == given.len() + 1,
            c.hold(rows.take(i as int + 1)),
    {
        let t: &Task = &tasks[i];
        let ghost n = i as int + 1;
        let ghost prev = rows.take(n);
        assert(rows[n] == RowModel::of(given[i as int], now));
        assert(given[i as int] == t@);
        add_line(&mut c.ids, copy(&t.id));
        add_line(&mut c.kinds, copy(&t.kind));
        add_line(&mut c.statuses, copy(t.status.as_str()));
        add_line(&mut c.places, position(t));
        add_line(&mut c.times, since(now, t.updated));
        add_line(&mut c.briefs, truncate(&t.brief, 48));
        proof {
            assert(c.ids.deep_view() =~= ids(rows.take(n + 1)));
            assert(c.kinds.deep_view() =~= kinds(rows.take(n + 1)));
            assert(c.statuses.deep_view() =~= statuses(rows.take(n + 1)));
            assert(c.places.deep_view() =~= places(rows.take(n + 1)));
            assert(c.times.deep_view() =~= times(rows.take(n + 1)));
            assert(c.briefs.deep_view() =~= briefs(rows.take(n + 1)));
        }
    }
    assert(rows.take(rows.len() as int) =~= rows);
    c
}

/// What `shep ps` prints of the tasks to list.
pub fn lines(tasks: &Vec<Task>, all: bool, now: i64) -> (r: Vec<String>)
    ensures
        r.deep_view() == ps_of(tasks.deep_view(), all, now),
{
    let mut out: Vec<String> = Vec::new();
    assert(out.deep_view() =~= Seq::empty());
    if tasks.len() == 0 {
        if all {
            add_line(&mut out, copy("no tasks"));
        } else {
            add_line(&mut out, copy("no open tasks"));
        }
        assert(out.deep_view() =~= ps_of(tasks.deep_view(), all, now));
        return out;
    }
    let ghost rows = table(tasks.deep_view(), now);
    let ghost all_lines = Seq::new(rows.len(), |i: int| row_line(rows, i));
    let c: Columns = columns(tasks, now);
    let w1: usize = width_of(&c.ids);
    let w2: usize = width_of(&c.kinds);
    let w3: usize = width_of(&c.statuses);
    let w4: usize = width_of(&c.places);
    let w5: usize = width_of(&c.times);
    assert(out.deep_view() =~= all_lines.take(0));
    assert(c.briefs.deep_view().len() == rows.len());
    for i in 0..c.ids.len()
        invariant
            c.hold(rows),
            c.ids.len() == rows.len(),
            c.kinds.len() == rows.len(),
            c.statuses.len() == rows.len(),
            c.places.len() == rows.len(),
            c.times.len() == rows.len(),
            c.briefs.len() == rows.len(),
            all_lines == Seq::new(rows.len(), |i: int| row_line(rows, i)),
            w1 == widest(ids(rows)),
            w2 == widest(kinds(rows)),
            w3 == widest(statuses(rows)),
            w4 == widest(places(rows)),
            w5 == widest(times(rows)),
            out.deep_view() == all_lines.take(i as int),
    {
        let mut line: String = pad(&c.ids[i], w1);
        line.append("  ");
        line.append(&pad(&c.kinds[i], w2));
        line.append("  ");
        line.append(&pad(&c.statuses[i], w3));
        line.append("  ");
        line.append(&pad(&c.places[i], w4));
        line.append("  ");
        line.append(&pad(&c.times[i], w5));
        line.append("  ");
        line.append(&c.briefs[i]);
        proof {
            assert(ids(rows)[i as int] == c.ids@[i as int]@);
            assert(kinds(rows)[i as int] == c.kinds@[i as int]@);
            assert(statuses(rows)[i as int] == c.statuses@[i as int]@);
            assert(places(rows)[i as int] == c.places@[i as int]@);
            assert(times(rows)[i as int] == c.times@[i as int]@);
            assert(briefs(rows)[i as int] == c.briefs@[i as int]@);
        }
        let ghost prev = out.deep_view();
        add_line(&mut out, trim_end(&line));
        assert(prev.push(all_lines[i as int]) =~= all_lines.take(i as int + 1));
    }
    assert(all_lines.take(all_lines.len() as int) =~= all_lines);
    out
}

/// What is listed, task by task: one more is listed behind the others where all are asked
/// for, and else exactly where it is neither finished nor cancelled.
pub proof fn each_task_is_listed_for_itself(tasks: Seq<TaskModel>, t: TaskModel, all: bool)
    ensures
        listed_tasks(Seq::empty(), all).len() == 0,
        listed_tasks(tasks.push(t), all) == (if all || (t.status != Status::Finished && t.status
            != Status::Cancelled) {
            listed_tasks(tasks, all).push(t)
        } else {
            listed_tasks(tasks, all)
        }),
{
    reveal(Seq::filter);
    assert(tasks.push(t).drop_last() =~= tasks);
}

/// There is a line for each task, in order, under one for the columns: its cells are that
/// task's.
pub proof fn each_task_has_a_line(tasks: Seq<TaskModel>, all: bool, now: i64, i: int)
    requires
        0 <= i < tasks.len(),
    ensures
        ps_of(tasks, all, now).len() == tasks.len() + 1,
        ({
            let row = table(tasks, now)[i + 1];
            &&& ps_of(tasks, all, now)[i + 1] == row_line(table(tasks, now), i + 1)
            &&& row.id == tasks[i].id
            &&& row.kind == tasks[i].kind
            &&& row.status == tasks[i].status.word()
            &&& row.place == whereabouts(tasks[i])
            &&& row.updated == ago_text(elapsed(now, tasks[i].updated))
            &&& row.brief == cut(tasks[i].brief, 48)
        }),
{
}

/// A place is told by its pipeline and its step, and by its round from the second on.
pub proof fn a_place_is_told(t: TaskModel)
    ensures
        t.pipeline is Some && t.step is Some && t.round <= 0 ==> whereabouts(t) == t.pipeline->0
            + "/"@ + t.step->0,
        t.pipeline is Some && t.step is Some && t.round > 0 ==> whereabouts(t) == t.pipeline->0
            + "/"@ + t.step->0 + " r"@ + int_text(t.round as int),
        t.pipeline is None && t.round <= 0 ==> whereabouts(t) == "-"@,
{
}

} // verus!
