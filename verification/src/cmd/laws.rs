//! What the commands tell: that what they are about is in what they print.

use super::check::read_of;
use super::context::context_of;
use super::get::{aligned, checks_of, get_of, labels, row_for, rows_of};
use super::raw::{raw_line, raw_of};
use super::status::{described, status_of, tally};
use super::trace::{event_line, heading, trace_of, SaidModel};
use super::types::types_of;
use super::{ago_text, elapsed, widest};
use crate::config::Policy;
use crate::db::check::CheckModel;
use crate::db::event::Event;
use crate::db::raw_event::RawEvent;
use crate::db::task::{count_in, Status, TaskModel};
use crate::flat::flat_has;
use crate::supervisor::Health;
use crate::text::{int_text, joined, mentions, padded, parts_are_mentioned, what_a_part_mentions};
use vstd::prelude::*;

verus! {

/// Does one of some lines mention a text?
pub open spec fn tell(lines: Seq<Seq<char>>, x: Seq<char>) -> bool {
    exists|i: int| 0 <= i < lines.len() && mentions(#[trigger] lines[i], x)
}

proof fn is_told(lines: Seq<Seq<char>>, i: int, a: Seq<char>, x: Seq<char>, b: Seq<char>)
    requires
        0 <= i < lines.len(),
        lines[i] == a + x + b,
    ensures
        tell(lines, x),
{
    parts_are_mentioned(a, x, b);
    assert(mentions(lines[i], x));
}

proof fn padded_is_mentioned(s: Seq<char>, width: nat)
    ensures
        mentions(padded(s, width), s),
        mentions(crate::text::padded_left(s, width), s),
{
    let none = Seq::<char>::empty();
    parts_are_mentioned(none, s, none);
    assert(none + s + none =~= s);
    if s.len() < width {
        let more = crate::text::blanks((width - s.len()) as nat);
        parts_are_mentioned(none, s, more);
        parts_are_mentioned(more, s, none);
    }
}

/// A brief says which task it is, where it is, where its work is, and what is to be done; the
/// branch, where there is one, and what it is off.
pub proof fn a_brief_says_what_a_step_needs(t: TaskModel)
    ensures
        ({
            let lines = context_of(t);
            &&& tell(lines, t.id) && tell(lines, t.kind) && tell(lines, t.brief)
            &&& tell(lines, int_text(t.round as int))
            &&& t.pipeline is Some ==> tell(lines, t.pipeline->0)
            &&& t.step is Some ==> tell(lines, t.step->0)
            &&& t.worktree is Some ==> tell(lines, t.worktree->0)
            &&& t.worktree is None ==> tell(lines, t.repo)
            &&& t.branch is Some ==> tell(lines, t.branch->0)
            &&& t.branch is Some && t.base is Some ==> tell(lines, t.base->0)
        }),
{
    let lines = context_of(t);
    let none = Seq::<char>::empty();
    let p = super::or_dash(t.pipeline);
    let s = super::or_dash(t.step);
    let n = int_text(t.round as int);
    let a = "task "@;
    let b = " ("@;
    let c = "), at "@;
    let d = "/"@;
    let e = " round "@;
    let head = a + t.id + b + t.kind + c + p + d + s + e + n;
    assert(lines[0] == head);
    assert(head =~= a + t.id + (b + t.kind + c + p + d + s + e + n));
    is_told(lines, 0, a, t.id, b + t.kind + c + p + d + s + e + n);
    assert(head =~= (a + t.id + b) + t.kind + (c + p + d + s + e + n));
    is_told(lines, 0, a + t.id + b, t.kind, c + p + d + s + e + n);
    assert(head =~= (a + t.id + b + t.kind + c) + p + (d + s + e + n));
    is_told(lines, 0, a + t.id + b + t.kind + c, p, d + s + e + n);
    assert(head =~= (a + t.id + b + t.kind + c + p + d) + s + (e + n));
    is_told(lines, 0, a + t.id + b + t.kind + c + p + d, s, e + n);
    assert(head =~= (a + t.id + b + t.kind + c + p + d + s + e) + n + none);
    is_told(lines, 0, a + t.id + b + t.kind + c + p + d + s + e, n, none);
    let last = lines.len() - 1;
    assert(lines[last] == "\nbrief\n\n"@ + t.brief);
    assert(lines[last] =~= "\nbrief\n\n"@ + t.brief + none);
    is_told(lines, last, "\nbrief\n\n"@, t.brief, none);
    let dir = if t.worktree is Some {
        t.worktree->0
    } else {
        t.repo
    };
    assert(lines[last - 1] == "working in "@ + dir);
    assert(lines[last - 1] =~= "working in "@ + dir + none);
    is_told(lines, last - 1, "working in "@, dir, none);
    if t.branch is Some {
        let branch = t.branch->0;
        if t.base is Some {
            let base = t.base->0;
            assert(lines[1] == "branch "@ + branch + " off "@ + base);
            assert(lines[1] =~= "branch "@ + branch + (" off "@ + base));
            is_told(lines, 1, "branch "@, branch, " off "@ + base);
            assert(lines[1] =~= ("branch "@ + branch + " off "@) + base + none);
            is_told(lines, 1, "branch "@ + branch + " off "@, base, none);
        } else {
            assert(lines[1] == "branch "@ + branch);
            assert(lines[1] =~= "branch "@ + branch + none);
            is_told(lines, 1, "branch "@, branch, none);
        }
    }
}

/// What there is to say of a task has a row each, under its label; what there is not has
/// none. Each row has a line, and each check one more.
pub proof fn a_task_is_shown_in_full(
    t: TaskModel,
    pane: Option<Seq<char>>,
    checks: Seq<CheckModel>,
    now: i64,
)
    ensures
        ({
            let rows = rows_of(t, pane);
            &&& rows.contains(("id"@, t.id))
            &&& rows.contains(("brief"@, t.brief))
            &&& rows.contains(("type"@, t.kind))
            &&& rows.contains(("status"@, t.status.word()))
            &&& t.pipeline is Some ==> rows.contains(("pipeline"@, t.pipeline->0))
            &&& t.step is Some ==> rows.contains(("step"@, t.step->0))
            &&& rows.contains(("round"@, int_text(t.round as int)))
            &&& rows.contains(("repo"@, t.repo))
            &&& t.worktree is Some ==> rows.contains(("worktree"@, t.worktree->0))
            &&& t.branch is Some ==> rows.contains(("branch"@, t.branch->0))
            &&& t.base is Some ==> rows.contains(("base"@, t.base->0))
            &&& t.workspace_id is Some ==> rows.contains(("workspace"@, t.workspace_id->0))
            &&& pane is Some ==> rows.contains(("pane"@, pane->0))
            &&& aligned(rows).len() == rows.len()
            &&& forall|i: int|
                0 <= i < rows.len() ==> mentions(#[trigger] aligned(rows)[i], rows[i].0)
                    && mentions(aligned(rows)[i], rows[i].1)
            &&& get_of(t, pane, checks, now) == aligned(rows) + checks_of(checks, now)
            &&& checks.len() == 0 ==> checks_of(checks, now).len() == 0
            &&& checks.len() > 0 ==> checks_of(checks, now).len() == checks.len() + 1
        }),
{
    let rows = rows_of(t, pane);
    let w = row_for("worktree"@, t.worktree);
    let b = row_for("branch"@, t.branch);
    let c = row_for("base"@, t.base);
    let d = row_for("workspace"@, t.workspace_id);
    assert(rows[0] == ("id"@, t.id));
    assert(rows[1] == ("brief"@, t.brief));
    assert(rows[2] == ("type"@, t.kind));
    assert(rows[3] == ("status"@, t.status.word()));
    if t.pipeline is Some {
        assert(rows[4] == ("pipeline"@, t.pipeline->0));
    }
    if t.step is Some {
        assert(rows[5] == ("step"@, t.step->0));
    }
    assert(rows[6] == ("round"@, int_text(t.round as int)));
    assert(rows[7] == ("repo"@, t.repo));
    if t.worktree is Some {
        assert(rows[8] == ("worktree"@, t.worktree->0));
    }
    if t.branch is Some {
        assert(rows[8 + w.len() as int] == ("branch"@, t.branch->0));
    }
    if t.base is Some {
        assert(rows[8 + w.len() as int + b.len()] == ("base"@, t.base->0));
    }
    if t.workspace_id is Some {
        assert(rows[8 + w.len() as int + b.len() + c.len()] == ("workspace"@, t.workspace_id->0));
    }
    if pane is Some {
        assert(rows[8 + w.len() as int + b.len() + c.len() + d.len()] == ("pane"@, pane->0));
    }
    let none = Seq::<char>::empty();
    assert forall|i: int| 0 <= i < rows.len() implies mentions(
        #[trigger] aligned(rows)[i],
        rows[i].0,
    ) && mentions(aligned(rows)[i], rows[i].1) by {
        let label = padded(rows[i].0, widest(labels(rows)));
        padded_is_mentioned(rows[i].0, widest(labels(rows)));
        what_a_part_mentions(none, label, "  "@ + rows[i].1, rows[i].0);
        assert(label + ("  "@ + rows[i].1) =~= aligned(rows)[i]);
        parts_are_mentioned(label + "  "@, rows[i].1, none);
    }
}

/// Every type is on the menu, with what it is for and the pipelines it runs.
pub proof fn every_type_is_on_the_menu(policy: Policy, i: int)
    requires
        0 <= i < policy.config.types.entries().len(),
    ensures
        ({
            let e = policy.config.types.entries()[i];
            let lines = types_of(policy);
            &&& tell(lines, e.0)
            &&& tell(lines, e.1.description@)
            &&& tell(lines, joined(e.1.pipelines.deep_view(), " → "@))
        }),
{
    let entries = policy.config.types.entries();
    let e = entries[i];
    let width = super::types::name_width(policy);
    let f = super::types::type_lines(width);
    let lines = types_of(policy);
    let none = Seq::<char>::empty();
    let first = padded(e.0, width) + "  "@ + e.1.description@;
    let pipelines = joined(e.1.pipelines.deep_view(), " → "@);
    let second = padded(""@, width) + "  "@ + pipelines;
    assert(f(e)[0] == first && f(e)[1] == second);
    flat_has(entries, f, i, first);
    flat_has(entries, f, i, second);
    let a = lines.index_of(first);
    let b = lines.index_of(second);
    padded_is_mentioned(e.0, width);
    what_a_part_mentions(none, padded(e.0, width), "  "@ + e.1.description@, e.0);
    assert(padded(e.0, width) + ("  "@ + e.1.description@) =~= first);
    assert(mentions(lines[a], e.0));
    parts_are_mentioned(padded(e.0, width) + "  "@, e.1.description@, none);
    assert(mentions(lines[a], e.1.description@));
    parts_are_mentioned(padded(""@, width) + "  "@, pipelines, none);
    assert(mentions(lines[b], pipelines));
}

/// A trace tells the task, and then every event in a line of its own, in order: its number,
/// its kind, and what its payload says.
pub proof fn a_trace_tells_every_event(
    t: TaskModel,
    pane: Option<Seq<char>>,
    events: Seq<Event>,
    now: i64,
    i: int,
)
    requires
        0 <= i < events.len(),
    ensures
        ({
            let lines = trace_of(t, pane, events, now);
            let line = lines[heading(t, pane).len() + i];
            &&& lines.len() == heading(t, pane).len() + events.len()
            &&& line == event_line(events[i], now)
            &&& mentions(line, int_text(events[i].seq as int))
            &&& mentions(line, events[i].kind@)
            &&& mentions(line, super::trace::summary(events[i].payload.deep_view()))
        }),
{
    let e = events[i];
    let none = Seq::<char>::empty();
    let n = crate::text::padded_left(int_text(e.seq as int), 5);
    let when_said = crate::text::padded_left(ago_text(elapsed(now, e.ts)), 9);
    let mark = if e.caused_by is Some {
        "└─ "@
    } else {
        ""@
    };
    let kind = padded(e.kind@, 22);
    let said = super::trace::summary(e.payload.deep_view());
    let line = event_line(e, now);
    let gap = "  "@;
    padded_is_mentioned(int_text(e.seq as int), 5);
    what_a_part_mentions(
        none,
        n,
        gap + when_said + gap + mark + kind + " "@ + said,
        int_text(e.seq as int),
    );
    assert(line =~= n + (gap + when_said + gap + mark + kind + " "@ + said));
    padded_is_mentioned(e.kind@, 22);
    what_a_part_mentions(n + gap + when_said + gap + mark, kind, " "@ + said, e.kind@);
    assert(line =~= (n + gap + when_said + gap + mark) + kind + (" "@ + said));
    parts_are_mentioned(n + gap + when_said + gap + mark + kind + " "@, said, none);
}

/// What a payload says is told in full: each thing that it says is a part of the line.
pub proof fn what_a_payload_says_is_told(said: SaidModel)
    ensures
        said.outcome.len() > 0 ==> said.parts().contains("→ "@ + said.outcome),
        said.awaits.len() > 0 ==> said.parts().contains(""@ + said.awaits),
        said.kind.len() > 0 ==> said.parts().contains(""@ + said.kind),
        said.reason.len() > 0 ==> said.parts().contains(""@ + said.reason),
        said.note.len() > 0 ==> said.parts().contains(""@ + said.note),
        said.pane.len() > 0 ==> said.parts().contains(""@ + said.pane),
{
    let parts = said.parts();
    let a = super::trace::spot_part(super::trace::spot(said.pipeline, said.step), said.round);
    let b = super::trace::part("→ "@, said.outcome);
    let c = super::trace::part(""@, said.awaits);
    let d = super::trace::part(""@, said.kind);
    let e = super::trace::part(""@, said.reason);
    let f = super::trace::part(""@, said.note);
    if said.outcome.len() > 0 {
        assert(parts[a.len() as int] == "→ "@ + said.outcome);
    }
    if said.awaits.len() > 0 {
        assert(parts[a.len() as int + b.len()] == ""@ + said.awaits);
    }
    if said.kind.len() > 0 {
        assert(parts[a.len() as int + b.len() + c.len()] == ""@ + said.kind);
    }
    if said.reason.len() > 0 {
        assert(parts[a.len() as int + b.len() + c.len() + d.len()] == ""@ + said.reason);
    }
    if said.note.len() > 0 {
        assert(parts[a.len() as int + b.len() + c.len() + d.len() + e.len()] == ""@ + said.note);
    }
    if said.pane.len() > 0 {
        assert(parts[a.len() as int + b.len() + c.len() + d.len() + e.len() + f.len()] == ""@
            + said.pane);
    }
}

/// Every raw event has a line of its own, in order.
pub proof fn every_raw_event_has_a_line(events: Seq<RawEvent>, now: i64, i: int)
    requires
        0 <= i < events.len(),
    ensures
        raw_of(events, now).len() == events.len(),
        raw_of(events, now)[i] == raw_line(events[i], now),
        mentions(raw_of(events, now)[i], int_text(events[i].seq as int)),
{
    let e = events[i];
    let none = Seq::<char>::empty();
    let n = padded(int_text(e.seq as int), 5);
    let line = raw_line(e, now);
    padded_is_mentioned(int_text(e.seq as int), 5);
    let rest = line.skip(n.len() as int);
    assert(line =~= n + rest);
    what_a_part_mentions(none, n, rest, int_text(e.seq as int));
}

/// A check that is read says who concluded what, about which commit, and with what evidence.
pub proof fn a_check_is_read_in_full(c: CheckModel)
    ensures
        tell(read_of(c), c.id),
        tell(read_of(c), c.conclusion.word()),
        tell(read_of(c), c.author),
        tell(read_of(c), c.sha),
        c.body is Some ==> tell(read_of(c), c.body->0),
        c.body is None ==> read_of(c).len() == 1,
{
    let lines = read_of(c);
    let none = Seq::<char>::empty();
    let word = c.conclusion.word();
    let line = lines[0];
    let a = " "@;
    let b = " by "@;
    let d = " on "@;
    let head = c.id + a + word + b + c.author + d + c.sha;
    let rest = line.skip(head.len() as int);
    assert(line =~= head + rest);
    assert(line =~= none + c.id + (a + word + b + c.author + d + c.sha + rest));
    is_told(lines, 0, none, c.id, a + word + b + c.author + d + c.sha + rest);
    assert(line =~= (c.id + a) + word + (b + c.author + d + c.sha + rest));
    is_told(lines, 0, c.id + a, word, b + c.author + d + c.sha + rest);
    assert(line =~= (c.id + a + word + b) + c.author + (d + c.sha + rest));
    is_told(lines, 0, c.id + a + word + b, c.author, d + c.sha + rest);
    assert(line =~= (c.id + a + word + b + c.author + d) + c.sha + rest);
    is_told(lines, 0, c.id + a + word + b + c.author + d, c.sha, rest);
    if c.body is Some {
        assert(lines[1] == "\n"@ + c.body->0);
        assert(lines[1] =~= "\n"@ + c.body->0 + none);
        is_told(lines, 1, "\n"@, c.body->0, none);
    }
}

/// A store's status says where it is, whether it is paused, how its supervisor is, and how
/// many tasks are in each status, under that status's word.
pub proof fn a_status_says_how_many(
    store: Seq<char>,
    version: i64,
    paused: bool,
    health: Health,
    counts: Seq<(Status, i64)>,
    s: Status,
)
    ensures
        ({
            let lines = status_of(store, version, paused, health, counts);
            &&& lines.len() == 5
            &&& tell(lines, store)
            &&& mentions(
                lines[2],
                if paused {
                    "yes"@
                } else {
                    "no"@
                },
            )
            &&& mentions(lines[3], described(health))
            &&& mentions(lines[4], s.word() + " "@ + int_text(count_in(counts, s) as int))
        }),
{
    let lines = status_of(store, version, paused, health, counts);
    let none = Seq::<char>::empty();
    let rest = " (schema v"@ + int_text(version as int) + ")"@;
    assert(lines[0] =~= "store       "@ + store + rest);
    is_told(lines, 0, "store       "@, store, rest);
    let flag = if paused {
        "yes"@
    } else {
        "no"@
    };
    parts_are_mentioned("paused      "@, flag, none);
    parts_are_mentioned("supervisor  "@, described(health), none);
    counts_are_told(counts, s);
}

proof fn labels_are_words()
    ensures
        "tasks       queued "@ == "tasks       "@ + ("queued"@ + " "@),
        "  running "@ == "  "@ + ("running"@ + " "@),
        "  parked "@ == "  "@ + ("parked"@ + " "@),
        "  resting "@ == "  "@ + ("resting"@ + " "@),
        "  finished "@ == "  "@ + ("finished"@ + " "@),
        "  cancelled "@ == "  "@ + ("cancelled"@ + " "@),
{
    reveal_strlit(" ");
    reveal_strlit("  ");
    reveal_strlit("tasks       ");
    reveal_strlit("tasks       queued ");
    reveal_strlit("queued");
    reveal_strlit("  running ");
    reveal_strlit("running");
    reveal_strlit("  parked ");
    reveal_strlit("parked");
    reveal_strlit("  resting ");
    reveal_strlit("resting");
    reveal_strlit("  finished ");
    reveal_strlit("finished");
    reveal_strlit("  cancelled ");
    reveal_strlit("cancelled");
    assert("tasks       queued "@ =~= "tasks       "@ + ("queued"@ + " "@));
    assert("  running "@ =~= "  "@ + ("running"@ + " "@));
    assert("  parked "@ =~= "  "@ + ("parked"@ + " "@));
    assert("  resting "@ =~= "  "@ + ("resting"@ + " "@));
    assert("  finished "@ =~= "  "@ + ("finished"@ + " "@));
    assert("  cancelled "@ =~= "  "@ + ("cancelled"@ + " "@));
}

/// What one of six labels with its number mentions, all of them do.
proof fn one_of_six(
    l0: Seq<char>,
    n0: Seq<char>,
    l1: Seq<char>,
    n1: Seq<char>,
    l2: Seq<char>,
    n2: Seq<char>,
    l3: Seq<char>,
    n3: Seq<char>,
    l4: Seq<char>,
    n4: Seq<char>,
    l5: Seq<char>,
    n5: Seq<char>,
    k: int,
    x: Seq<char>,
)
    requires
        0 <= k < 6,
        k == 0 ==> mentions(l0 + n0, x),
        k == 1 ==> mentions(l1 + n1, x),
        k == 2 ==> mentions(l2 + n2, x),
        k == 3 ==> mentions(l3 + n3, x),
        k == 4 ==> mentions(l4 + n4, x),
        k == 5 ==> mentions(l5 + n5, x),
    ensures
        mentions(l0 + n0 + l1 + n1 + l2 + n2 + l3 + n3 + l4 + n4 + l5 + n5, x),
{
    let none = Seq::<char>::empty();
    let line = l0 + n0 + l1 + n1 + l2 + n2 + l3 + n3 + l4 + n4 + l5 + n5;
    if k == 0 {
        what_a_part_mentions(none, l0 + n0, l1 + n1 + l2 + n2 + l3 + n3 + l4 + n4 + l5 + n5, x);
        assert(line =~= (none) + (l0 + n0) + (l1 + n1 + l2 + n2 + l3 + n3 + l4 + n4 + l5 + n5));
    }
    if k == 1 {
        what_a_part_mentions(l0 + n0, l1 + n1, l2 + n2 + l3 + n3 + l4 + n4 + l5 + n5, x);
        assert(line =~= (l0 + n0) + (l1 + n1) + (l2 + n2 + l3 + n3 + l4 + n4 + l5 + n5));
    }
    if k == 2 {
        what_a_part_mentions(l0 + n0 + l1 + n1, l2 + n2, l3 + n3 + l4 + n4 + l5 + n5, x);
        assert(line =~= (l0 + n0 + l1 + n1) + (l2 + n2) + (l3 + n3 + l4 + n4 + l5 + n5));
    }
    if k == 3 {
        what_a_part_mentions(l0 + n0 + l1 + n1 + l2 + n2, l3 + n3, l4 + n4 + l5 + n5, x);
        assert(line =~= (l0 + n0 + l1 + n1 + l2 + n2) + (l3 + n3) + (l4 + n4 + l5 + n5));
    }
    if k == 4 {
        what_a_part_mentions(l0 + n0 + l1 + n1 + l2 + n2 + l3 + n3, l4 + n4, l5 + n5, x);
        assert(line =~= (l0 + n0 + l1 + n1 + l2 + n2 + l3 + n3) + (l4 + n4) + (l5 + n5));
    }
    if k == 5 {
        what_a_part_mentions(l0 + n0 + l1 + n1 + l2 + n2 + l3 + n3 + l4 + n4, l5 + n5, none, x);
        assert(line =~= (l0 + n0 + l1 + n1 + l2 + n2 + l3 + n3 + l4 + n4) + (l5 + n5) + (none));
    }
}

proof fn counts_are_told(counts: Seq<(Status, i64)>, s: Status)
    ensures
        mentions(tally(counts), s.word() + " "@ + int_text(count_in(counts, s) as int)),
{
    labels_are_words();
    let n = int_text(count_in(counts, s) as int);
    let n0 = int_text(count_in(counts, Status::Queued) as int);
    let n1 = int_text(count_in(counts, Status::Running) as int);
    let n2 = int_text(count_in(counts, Status::Parked) as int);
    let n3 = int_text(count_in(counts, Status::Resting) as int);
    let n4 = int_text(count_in(counts, Status::Finished) as int);
    let n5 = int_text(count_in(counts, Status::Cancelled) as int);
    let k: int = match s {
        Status::Queued => 0,
        Status::Running => 1,
        Status::Parked => 2,
        Status::Resting => 3,
        Status::Finished => 4,
        Status::Cancelled => 5,
    };
    labelled("tasks       "@, "queued"@, n0);
    labelled("  "@, "running"@, n1);
    labelled("  "@, "parked"@, n2);
    labelled("  "@, "resting"@, n3);
    labelled("  "@, "finished"@, n4);
    labelled("  "@, "cancelled"@, n5);
    one_of_six(
        "tasks       queued "@,
        n0,
        "  running "@,
        n1,
        "  parked "@,
        n2,
        "  resting "@,
        n3,
        "  finished "@,
        n4,
        "  cancelled "@,
        n5,
        k,
        s.word() + " "@ + n,
    );
}

proof fn labelled(gap: Seq<char>, word: Seq<char>, n: Seq<char>)
    ensures
        mentions(gap + (word + " "@) + n, word + " "@ + n),
{
    let none = Seq::<char>::empty();
    parts_are_mentioned(gap, word + " "@ + n, none);
    assert(gap + (word + " "@) + n =~= gap + (word + " "@ + n));
}

} // verus!
