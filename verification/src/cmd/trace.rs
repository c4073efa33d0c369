//! `shep trace <task>`: what happened, and what each thing led to.
//!
//! The event table is an audit trail, not a subscription bus: nothing reads it to make a
//! decision, and this is what it is for.

use super::{add_line, ago_text, elapsed, since};
use crate::db::event::{carries, field_under, put_more, Event, FieldModel};
use crate::db::task::{Task, TaskModel};
use crate::engine::flow::{finished_event, place};
use crate::engine::step::{ReportModel, StepAtModel};
use crate::json::{get_integer, get_string, integer_member, string_member};
use crate::text::{
    cat2, cat3, cat5, copy, int_text, integer, join, joined, pad, pad_left, padded, padded_left,
};
use vstd::prelude::*;
use vstd::string::*;

verus! {

/// A text of a payload, or nothing.
pub open spec fn said(payload: Seq<char>, key: Seq<char>) -> Seq<char> {
    match string_member(payload, key) {
        Some(v) => v,
        None => ""@,
    }
}

fn get(payload: &str, key: &str) -> (r: String)
    ensures
        r@ == said(payload@, key@),
{
    match get_string(payload, key) {
        Some(v) => v,
        None => copy(""),
    }
}

/// A text that was put into a payload, or nothing.
pub open spec fn put_text(payload: Seq<(Seq<char>, FieldModel)>, key: Seq<char>) -> Seq<char> {
    match field_under(payload, key) {
        Some(FieldModel::Text(Some(t))) => t,
        _ => ""@,
    }
}

/// A number that was put into a payload.
pub open spec fn put_number(payload: Seq<(Seq<char>, FieldModel)>, key: Seq<char>) -> Option<i64> {
    match field_under(payload, key) {
        Some(FieldModel::Number(n)) => n,
        _ => None,
    }
}

/// Where a payload says something happened.
pub open spec fn spot(pipeline: Seq<char>, step: Seq<char>) -> Seq<char> {
    if pipeline.len() == 0 {
        step
    } else if step.len() == 0 {
        pipeline
    } else {
        pipeline + "/"@ + step
    }
}

/// A part worth reading, where it says anything.
pub open spec fn part(prefix: Seq<char>, text: Seq<char>) -> Seq<Seq<char>> {
    if text.len() > 0 {
        seq![prefix + text]
    } else {
        Seq::empty()
    }
}

/// The part that says where, with the round where it is not the first.
pub open spec fn spot_part(at: Seq<char>, round: Option<i64>) -> Seq<Seq<char>> {
    if at.len() == 0 {
        Seq::empty()
    } else if round is Some && round->0 > 0 {
        seq![at + " round "@ + int_text(round->0 as int)]
    } else {
        seq![at]
    }
}

/// What a payload says that is worth reading. A text that is not there is empty.
#[derive(Debug)]
pub struct Said {
    pub pipeline: String,
    pub step: String,
    pub round: Option<i64>,
    pub outcome: String,
    pub awaits: String,
    pub kind: String,
    pub reason: String,
    pub note: String,
    pub pane: String,
}

#[verifier::ext_equal]
pub struct SaidModel {
    pub pipeline: Seq<char>,
    pub step: Seq<char>,
    pub round: Option<i64>,
    pub outcome: Seq<char>,
    pub awaits: Seq<char>,
    pub kind: Seq<char>,
    pub reason: Seq<char>,
    pub note: Seq<char>,
    pub pane: Seq<char>,
}

impl View for Said {
    type V = SaidModel;

    open spec fn view(&self) -> SaidModel {
        SaidModel {
            pipeline: self.pipeline@,
            step: self.step@,
            round: self.round,
            outcome: self.outcome@,
            awaits: self.awaits@,
            kind: self.kind@,
            reason: self.reason@,
            note: self.note@,
            pane: self.pane@,
        }
    }
}

impl SaidModel {
    /// What a payload says.
    pub open spec fn in_payload(payload: Seq<char>) -> SaidModel {
        SaidModel {
            pipeline: said(payload, "pipeline"@),
            step: said(payload, "step"@),
            round: integer_member(payload, "round"@),
            outcome: said(payload, "outcome"@),
            awaits: said(payload, "await"@),
            kind: said(payload, "type"@),
            reason: said(payload, "reason"@),
            note: said(payload, "note"@),
            pane: said(payload, "pane"@),
        }
    }

    /// What was put into a payload that is worth reading.
    pub open spec fn put_in(payload: Seq<(Seq<char>, FieldModel)>) -> SaidModel {
        SaidModel {
            pipeline: put_text(payload, "pipeline"@),
            step: put_text(payload, "step"@),
            round: put_number(payload, "round"@),
            outcome: put_text(payload, "outcome"@),
            awaits: put_text(payload, "await"@),
            kind: put_text(payload, "type"@),
            reason: put_text(payload, "reason"@),
            note: put_text(payload, "note"@),
            pane: put_text(payload, "pane"@),
        }
    }

    /// The parts of it, in the order they are read.
    pub open spec fn parts(self) -> Seq<Seq<char>> {
        spot_part(spot(self.pipeline, self.step), self.round) + part("→ "@, self.outcome) + part(
            ""@,
            self.awaits,
        ) + part(""@, self.kind) + part(""@, self.reason) + part(""@, self.note) + part(
            ""@,
            self.pane,
        )
    }
}

/// The part of a payload worth reading in a line.
pub open spec fn summary(payload: Option<Seq<char>>) -> Seq<char> {
    match payload {
        Some(p) => joined(SaidModel::in_payload(p).parts(), "  "@),
        None => ""@,
    }
}

fn add_part(out: &mut Vec<String>, prefix: &str, text: &str)
    ensures
        final(out).deep_view() == old(out).deep_view() + part(prefix@, text@),
{
    let ghost before = out.deep_view();
    if !text.is_empty() {
        add_line(out, cat2(prefix, text));
    }
    assert(out.deep_view() =~= before + part(prefix@, text@));
}

/// What a payload says, in a line.
pub fn in_a_line(said: &Said) -> (r: String)
    ensures
        r@ == joined(said@.parts(), "  "@),
{
    let mut out: Vec<String> = Vec::new();
    assert(out.deep_view() =~= Seq::empty());
    let at: String = if said.pipeline.as_str().is_empty() {
        copy(&said.step)
    } else if said.step.as_str().is_empty() {
        copy(&said.pipeline)
    } else {
        cat3(&said.pipeline, "/", &said.step)
    };
    let ghost where_at = at@;
    if !at.as_str().is_empty() {
        let round: i64 = match said.round {
            Some(n) => n,
            None => 0,
        };
        if round > 0 {
            add_line(&mut out, cat3(&at, " round ", &integer(round)));
        } else {
            add_line(&mut out, at);
        }
    }
    proof {
        assert(where_at == spot(said@.pipeline, said@.step));
        assert(out.deep_view() =~= spot_part(where_at, said.round));
    }
    add_part(&mut out, "→ ", &said.outcome);
    add_part(&mut out, "", &said.awaits);
    add_part(&mut out, "", &said.kind);
    add_part(&mut out, "", &said.reason);
    add_part(&mut out, "", &said.note);
    add_part(&mut out, "", &said.pane);
    join(&out, "  ")
}

/// The part of a payload worth reading in a line.
pub fn summarise(payload: &Option<String>) -> (r: String)
    ensures
        r@ == summary(payload.deep_view()),
{
    match payload {
        Some(p) => in_a_line(
            &Said {
                pipeline: get(p, "pipeline"),
                step: get(p, "step"),
                round: get_integer(p, "round"),
                outcome: get(p, "outcome"),
                awaits: get(p, "await"),
                kind: get(p, "type"),
                reason: get(p, "reason"),
                note: get(p, "note"),
                pane: get(p, "pane"),
            },
        ),
        None => copy(""),
    }
}

/// Where a task is, behind its status.
pub open spec fn standing(t: TaskModel) -> Seq<char> {
    match (t.pipeline, t.step) {
        (Some(p), Some(s)) => " at "@ + p + "/"@ + s + " round "@ + int_text(t.round as int),
        (Some(p), None) => " in "@ + p,
        _ => ""@,
    }
}

fn standing_of(task: &Task) -> (r: String)
    ensures
        r@ == standing(task@),
{
    match (&task.pipeline, &task.step) {
        (Some(p), Some(s)) => cat5(" at ", p, "/", s, " round ").concat(&integer(task.round)),
        (Some(p), None) => cat2(" in ", p),
        _ => copy(""),
    }
}

/// The lines about the task itself.
pub open spec fn heading(t: TaskModel, pane: Option<Seq<char>>) -> Seq<Seq<char>> {
    seq![
        t.id + "  "@ + t.kind + "  "@ + t.status.word() + standing(t),
        "brief: "@ + t.brief,
        "repo:  "@ + t.repo,
    ] + (match pane {
        Some(pane) => seq!["pane:  "@ + pane],
        None => Seq::empty(),
    }) + seq![""@]
}

/// The line about one event. A consequence is indented under the thing that caused it.
pub open spec fn event_line(e: Event, now: i64) -> Seq<char> {
    padded_left(int_text(e.seq as int), 5) + "  "@ + padded_left(
        ago_text(elapsed(now, e.ts)),
        9,
    ) + "  "@ + (if e.caused_by is Some {
        "└─ "@
    } else {
        ""@
    }) + padded(e.kind@, 22) + " "@ + summary(e.payload.deep_view())
}

/// What `shep trace` prints.
pub open spec fn trace_of(
    t: TaskModel,
    pane: Option<Seq<char>>,
    events: Seq<Event>,
    now: i64,
) -> Seq<Seq<char>> {
    heading(t, pane) + Seq::new(events.len(), |i: int| event_line(events[i], now))
}

fn event_text(e: &Event, now: i64) -> (r: String)
    ensures
        r@ == event_line(*e, now),
{
    let branch: &str = if e.caused_by.is_some() {
        "└─ "
    } else {
        ""
    };
    let mut line: String = pad_left(&integer(e.seq), 5);
    line.append("  ");
    line.append(&pad_left(&since(now, e.ts), 9));
    line.append("  ");
    line.append(branch);
    line.append(&pad(&e.kind, 22));
    line.append(" ");
    line.append(&summarise(&e.payload));
    line
}

pub fn lines(task: &Task, pane: &Option<String>, events: &Vec<Event>, now: i64) -> (r: Vec<String>)
    ensures
        r.deep_view() == trace_of(task@, pane.deep_view(), events@, now),
{
    let mut out: Vec<String> = Vec::new();
    assert(out.deep_view() =~= Seq::empty());
    add_line(
        &mut out,
        cat5(&task.id, "  ", &task.kind, "  ", task.status.as_str()).concat(&standing_of(task)),
    );
    add_line(&mut out, cat2("brief: ", &task.brief));
    add_line(&mut out, cat2("repo:  ", &task.repo));
    if let Some(pane) = pane {
        add_line(&mut out, cat2("pane:  ", pane));
    }
    add_line(&mut out, copy(""));
    let ghost head = heading(task@, pane.deep_view());
    let ghost all = Seq::new(events@.len(), |i: int| event_line(events@[i], now));
    assert(out.deep_view() =~= head);
    assert(out.deep_view() =~= head + all.take(0));
    for i in 0..events.len()
        invariant
            all == Seq::new(events@.len(), |i: int| event_line(events@[i], now)),
            out.deep_view() == head + all.take(i as int),
    {
        let ghost prev = out.deep_view();
        add_line(&mut out, event_text(&events[i], now));
        assert(prev.push(all[i as int]) =~= head + all.take(i as int + 1));
    }
    assert(all.take(all.len() as int) =~= all);
    out
}

/// A trace tells what was recorded: what it reads in the text of a payload is what was put
/// into the payload.
pub proof fn a_trace_tells_what_was_recorded(
    text: Seq<char>,
    payload: Seq<(Seq<char>, FieldModel)>,
)
    requires
        carries(text, payload),
    ensures
        SaidModel::in_payload(text) == SaidModel::put_in(payload),
        summary(Some(text)) == joined(SaidModel::put_in(payload).parts(), "  "@),
{
    let said = SaidModel::in_payload(text);
    let put = SaidModel::put_in(payload);
    assert(said =~= put);
}

/// What a step said is told where and how it was said.
pub proof fn a_finished_step_is_told(
    t: TaskModel,
    at: StepAtModel,
    report: ReportModel,
    text: Seq<char>,
)
    requires
        carries(text, finished_event(t, at, report).payload->0),
    ensures
        SaidModel::in_payload(text) == (SaidModel {
            pipeline: at.pipeline,
            step: at.step,
            round: Some(at.round),
            outcome: report.outcome.word(),
            awaits: ""@,
            kind: ""@,
            reason: ""@,
            note: match report.note {
                Some(note) => note,
                None => ""@,
            },
            pane: ""@,
        }),
{
    let payload = finished_event(t, at, report).payload->0;
    a_trace_tells_what_was_recorded(text, payload);
    keys_differ();
    let outcome = FieldModel::Text(Some(report.outcome.word()));
    place_puts(at.pipeline, at.step, at.round);
    put_more(place(at.pipeline, at.step, at.round), "outcome"@, outcome);
    put_more(
        place(at.pipeline, at.step, at.round).push(("outcome"@, outcome)),
        "note"@,
        FieldModel::Text(report.note),
    );
}

/// What an event has under each key that says where it happened.
proof fn place_puts(pipeline: Seq<char>, step: Seq<char>, round: i64)
    ensures
        forall|key: Seq<char>| #[trigger]
            field_under(place(pipeline, step, round), key) == if key == "round"@ {
                Some(FieldModel::Number(Some(round)))
            } else if key == "step"@ {
                Some(FieldModel::Text(Some(step)))
            } else if key == "pipeline"@ {
                Some(FieldModel::Text(Some(pipeline)))
            } else {
                None
            },
{
    let none = Seq::<(Seq<char>, FieldModel)>::empty();
    let one = none.push(("pipeline"@, FieldModel::Text(Some(pipeline))));
    let two = one.push(("step"@, FieldModel::Text(Some(step))));
    let three = two.push(("round"@, FieldModel::Number(Some(round))));
    put_more(none, "pipeline"@, FieldModel::Text(Some(pipeline)));
    put_more(one, "step"@, FieldModel::Text(Some(step)));
    put_more(two, "round"@, FieldModel::Number(Some(round)));
    assert(place(pipeline, step, round) =~= three);
}

/// The keys of a step that finished are different from each other and from the other keys
/// that a trace reads.
proof fn keys_differ()
    ensures
        "pipeline"@ != "step"@ && "pipeline"@ != "round"@ && "step"@ != "round"@,
        "outcome"@ != "pipeline"@ && "outcome"@ != "step"@ && "outcome"@ != "round"@,
        "note"@ != "pipeline"@ && "note"@ != "step"@ && "note"@ != "round"@ && "note"@
            != "outcome"@,
        "await"@ != "pipeline"@ && "await"@ != "step"@ && "await"@ != "round"@,
        "await"@ != "outcome"@ && "await"@ != "note"@,
        "type"@ != "pipeline"@ && "type"@ != "step"@ && "type"@ != "round"@,
        "type"@ != "outcome"@ && "type"@ != "note"@,
        "reason"@ != "pipeline"@ && "reason"@ != "step"@ && "reason"@ != "round"@,
        "reason"@ != "outcome"@ && "reason"@ != "note"@,
        "pane"@ != "pipeline"@ && "pane"@ != "step"@ && "pane"@ != "round"@,
        "pane"@ != "outcome"@ && "pane"@ != "note"@,
{
    reveal_strlit("pipeline");
    reveal_strlit("step");
    reveal_strlit("round");
    reveal_strlit("outcome");
    reveal_strlit("note");
    reveal_strlit("await");
    reveal_strlit("type");
    reveal_strlit("reason");
    reveal_strlit("pane");
    assert("pipeline"@.len() == 8 && "outcome"@.len() == 7 && "reason"@.len() == 6);
    assert("round"@.len() == 5 && "await"@.len() == 5);
    assert("step"@.len() == 4 && "note"@.len() == 4 && "type"@.len() == 4 && "pane"@.len() == 4);
    assert("step"@[0] == 's' && "note"@[0] == 'n' && "type"@[0] == 't' && "pane"@[0] == 'p');
    assert("round"@[0] == 'r' && "await"@[0] == 'a');
}

} // verus!
