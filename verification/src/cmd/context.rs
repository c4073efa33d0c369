//! `shep context`: my brief.

use super::{add_line, dash, or_dash};
use crate::db::task::{Task, TaskModel};
use crate::engine::step::{work_dir, work_dir_of};
use crate::text::{cat2, cat4, copy, int_text, integer};
use vstd::prelude::*;
use vstd::string::*;

verus! {

/// The line about the branch, where there is one.
pub open spec fn branch_line(t: TaskModel) -> Seq<Seq<char>> {
    match (t.branch, t.base) {
        (Some(branch), Some(base)) => seq!["branch "@ + branch + " off "@ + base],
        (Some(branch), None) => seq!["branch "@ + branch],
        _ => Seq::empty(),
    }
}

/// What `shep context` prints: facts first and short, then the brief verbatim and last,
/// so that a long brief does not push what a step needs to know off the top of the pane.
pub open spec fn context_of(t: TaskModel) -> Seq<Seq<char>> {
    seq![
        "task "@ + t.id + " ("@ + t.kind + "), at "@ + or_dash(t.pipeline) + "/"@ + or_dash(t.step)
            + " round "@ + int_text(t.round as int),
    ] + branch_line(t) + seq!["working in "@ + work_dir(t), "\nbrief\n\n"@ + t.brief]
}

pub fn lines(task: &Task) -> (r: Vec<String>)
    ensures
        r.deep_view() == context_of(task@),
{
    let mut head: String = copy("task ");
    head.append(&task.id);
    head.append(" (");
    head.append(&task.kind);
    head.append("), at ");
    head.append(&dash(&task.pipeline));
    head.append("/");
    head.append(&dash(&task.step));
    head.append(" round ");
    head.append(&integer(task.round));
    let mut out: Vec<String> = Vec::new();
    assert(out.deep_view() =~= Seq::empty());
    add_line(&mut out, head);
    match (&task.branch, &task.base) {
        (Some(branch), Some(base)) => {
            add_line(&mut out, cat4("branch ", branch, " off ", base));
        },
        (Some(branch), None) => {
            add_line(&mut out, cat2("branch ", branch));
        },
        _ => {},
    }
    add_line(&mut out, cat2("working in ", &work_dir_of(task)));
    add_line(&mut out, cat2("\nbrief\n\n", &task.brief));
    assert(out.deep_view() =~= context_of(task@));
    out
}

} // verus!
