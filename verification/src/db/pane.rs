//! The `pane_task` table: which Herdr pane belongs to which task.
//!
//! It earns its keep twice: it makes a Herdr event attributable to a task, and it lets a
//! bare `shep context` resolve its own task from the pane it runs in.

use crate::text::{copy, push_deep, same};
use vstd::prelude::*;

verus! {

/// A row: a pane, and the task it belongs to.
#[derive(Debug)]
pub struct Bound {
    pub pane: String,
    pub task: String,
}

#[verifier::ext_equal]
pub struct BoundModel {
    pub pane: Seq<char>,
    pub task: Seq<char>,
}

impl View for Bound {
    type V = BoundModel;

    open spec fn view(&self) -> BoundModel {
        BoundModel { pane: self.pane@, task: self.task@ }
    }
}

impl DeepView for Bound {
    type V = BoundModel;

    open spec fn deep_view(&self) -> BoundModel {
        self@
    }
}

/// What is done to the table.
#[derive(Debug)]
pub enum Change {
    /// The row of a pane goes, if there is one.
    Remove { pane: String },
    /// A row is added after all others.
    Add { pane: String, task: String },
}

#[verifier::ext_equal]
pub enum ChangeModel {
    Remove { pane: Seq<char> },
    Add { pane: Seq<char>, task: Seq<char> },
}

impl View for Change {
    type V = ChangeModel;

    open spec fn view(&self) -> ChangeModel {
        match self {
            Change::Remove { pane } => ChangeModel::Remove { pane: pane@ },
            Change::Add { pane, task } => ChangeModel::Add { pane: pane@, task: task@ },
        }
    }
}

impl DeepView for Change {
    type V = ChangeModel;

    open spec fn deep_view(&self) -> ChangeModel {
        self@
    }
}

/// The rows of other panes.
pub open spec fn other_than(pane: Seq<char>) -> spec_fn(BoundModel) -> bool {
    |b: BoundModel| b.pane != pane
}

/// The rows, in the order in which they were bound, after a change.
pub open spec fn changed(rows: Seq<BoundModel>, change: ChangeModel) -> Seq<BoundModel> {
    match change {
        ChangeModel::Remove { pane } => rows.filter(other_than(pane)),
        ChangeModel::Add { pane, task } => rows.push(BoundModel { pane, task }),
    }
}

/// The rows after some changes, one after the other.
pub open spec fn all_changed(rows: Seq<BoundModel>, changes: Seq<ChangeModel>) -> Seq<BoundModel>
    decreases changes.len(),
{
    if changes.len() == 0 {
        rows
    } else {
        changed(all_changed(rows, changes.drop_last()), changes.last())
    }
}

/// What binding a pane to a task does to the table.
pub open spec fn binding_changes(pane: Seq<char>, task: Seq<char>) -> Seq<ChangeModel> {
    seq![ChangeModel::Remove { pane }, ChangeModel::Add { pane, task }]
}

/// Bind a pane to a task. A pane hosts one task at a time, so re-binding a pane replaces
/// what was there, and makes it the one bound most recently.
pub fn bind(pane: &str, task: &str) -> (r: Vec<Change>)
    ensures
        r.deep_view() == binding_changes(pane@, task@),
{
    let mut out: Vec<Change> = Vec::new();
    out.push(Change::Remove { pane: copy(pane) });
    out.push(Change::Add { pane: copy(pane), task: copy(task) });
    assert(out.deep_view() =~= binding_changes(pane@, task@));
    out
}

/// The task a pane belongs to, if any: that of its last row.
pub open spec fn owner(rows: Seq<BoundModel>, pane: Seq<char>) -> Option<Seq<char>>
    decreases rows.len(),
{
    if rows.len() == 0 {
        None
    } else if rows.last().pane == pane {
        Some(rows.last().task)
    } else {
        owner(rows.drop_last(), pane)
    }
}

/// The panes of a task, in the order in which they were bound.
pub open spec fn panes_of(rows: Seq<BoundModel>, task: Seq<char>) -> Seq<Seq<char>>
    decreases rows.len(),
{
    if rows.len() == 0 {
        Seq::empty()
    } else if rows.last().task == task {
        panes_of(rows.drop_last(), task).push(rows.last().pane)
    } else {
        panes_of(rows.drop_last(), task)
    }
}

/// The pane a task is working in: the one bound most recently.
pub open spec fn working_in(rows: Seq<BoundModel>, task: Seq<char>) -> Option<Seq<char>> {
    let panes = panes_of(rows, task);
    if panes.len() == 0 {
        None
    } else {
        Some(panes.last())
    }
}

/// Which task owns this pane, if any. The rows are in the order in which they were bound.
pub fn task_for(rows: &Vec<Bound>, pane: &str) -> (r: Option<String>)
    ensures
        r.deep_view() == owner(rows.deep_view(), pane@),
{
    let ghost all = rows.deep_view();
    let mut i: usize = rows.len();
    assert(all.take(i as int) =~= all);
    while i > 0
        invariant
            i <= rows.len(),
            all == rows.deep_view(),
            owner(all, pane@) == owner(all.take(i as int), pane@),
        decreases i,
    {
        proof {
            assert(all.take(i as int).drop_last() =~= all.take(i as int - 1));
            assert(all.take(i as int).last() == rows@[i as int - 1]@);
        }
        i = i - 1;
        if same(&rows[i].pane, pane) {
            return Some(copy(&rows[i].task));
        }
    }
    None
}

/// Every pane bound to a task, oldest first.
pub fn all_for_task(rows: &Vec<Bound>, task: &str) -> (r: Vec<String>)
    ensures
        r.deep_view() == panes_of(rows.deep_view(), task@),
{
    broadcast use push_deep;

    let ghost all = rows.deep_view();
    let mut out: Vec<String> = Vec::new();
    assert(out.deep_view() =~= panes_of(all.take(0), task@));
    for i in 0..rows.len()
        invariant
            all == rows.deep_view(),
            out.deep_view() == panes_of(all.take(i as int), task@),
    {
        proof {
            assert(all.take(i as int + 1).drop_last() =~= all.take(i as int));
            assert(all.take(i as int + 1).last() == rows@[i as int]@);
        }
        if same(&rows[i].task, task) {
            out.push(copy(&rows[i].pane));
        }
    }
    assert(all.take(all.len() as int) =~= all);
    out
}

/// Which pane a task is working in: the one bound most recently, since a task outlives any
/// one of its panes.
pub fn for_task(rows: &Vec<Bound>, task: &str) -> (r: Option<String>)
    ensures
        r.deep_view() == working_in(rows.deep_view(), task@),
{
    let mut panes: Vec<String> = all_for_task(rows, task);
    let ghost all = panes.deep_view();
    match panes.pop() {
        Some(pane) => {
            assert(all.last() == pane@);
            Some(pane)
        },
        None => None,
    }
}

/// A pane that was just bound is where its task works, and belongs to that task alone.
/// What any other pane belongs to is left as it was.
pub proof fn the_pane_bound_last(
    rows: Seq<BoundModel>,
    pane: Seq<char>,
    task: Seq<char>,
    other: Seq<char>,
)
    ensures
        ({
            let after = all_changed(rows, binding_changes(pane, task));
            &&& working_in(after, task) == Some(pane)
            &&& owner(after, pane) == Some(task)
            &&& forall|i: int|
                0 <= i < after.len() && (#[trigger] after[i]).pane == pane ==> i == after.len() - 1
            &&& other != pane ==> owner(after, other) == owner(rows, other)
        }),
{
    let changes = binding_changes(pane, task);
    let left = rows.filter(other_than(pane));
    assert(changes.drop_last().drop_last() =~= Seq::empty());
    assert(all_changed(rows, changes.drop_last()) == left) by {
        reveal_with_fuel(all_changed, 2);
        assert(changes.drop_last().last() == changes[0]);
    }
    let after = all_changed(rows, changes);
    assert(after == left.push(BoundModel { pane, task }));
    assert(after.drop_last() =~= left);
    assert forall|i: int| 0 <= i < left.len() implies (#[trigger] left[i]).pane != pane by {
        rows.lemma_filter_pred(other_than(pane), i);
    }
    if other != pane {
        removing_keeps_owners(rows, pane, other);
    }
}

proof fn removing_keeps_owners(rows: Seq<BoundModel>, pane: Seq<char>, other: Seq<char>)
    requires
        other != pane,
    ensures
        owner(rows.filter(other_than(pane)), other) == owner(rows, other),
    decreases rows.len(),
{
    reveal(Seq::filter);
    if rows.len() > 0 {
        removing_keeps_owners(rows.drop_last(), pane, other);
        let front = rows.drop_last().filter(other_than(pane));
        if rows.last().pane != pane {
            assert(front.push(rows.last()).drop_last() =~= front);
        }
    }
}

/// What one more row says: its pane is its task's from there on, and its task works in it;
/// what other panes and other tasks have is as it was. Nothing is anybody's to begin with.
pub proof fn each_row_counts_for_itself(
    rows: Seq<BoundModel>,
    row: BoundModel,
    pane: Seq<char>,
    task: Seq<char>,
)
    ensures
        owner(Seq::empty(), pane) is None,
        panes_of(Seq::empty(), task).len() == 0,
        owner(rows.push(row), pane) == (if row.pane == pane {
            Some(row.task)
        } else {
            owner(rows, pane)
        }),
        panes_of(rows.push(row), task) == (if row.task == task {
            panes_of(rows, task).push(row.pane)
        } else {
            panes_of(rows, task)
        }),
        working_in(rows.push(row), task) == (if row.task == task {
            Some(row.pane)
        } else {
            working_in(rows, task)
        }),
        working_in(rows, task) is None <==> panes_of(rows, task).len() == 0,
{
    assert(rows.push(row).drop_last() =~= rows);
}

} // verus!
