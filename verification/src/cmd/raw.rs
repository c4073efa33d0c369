//! `shep raw`: read back what Herdr has said.

use super::{add_line, ago_text, elapsed, since};
use crate::db::raw_event::{event_name, RawEvent};
use crate::json::{json_member, string_member};
use crate::text::{copy, int_text, integer, pad, padded};
use vstd::prelude::*;
use vstd::string::*;

verus! {

/// A text of an event's `data`.
pub open spec fn data_text(body: Seq<char>, key: Seq<char>) -> Option<Seq<char>> {
    match json_member(body, "data"@) {
        Some(data) => string_member(data, key),
        None => None,
    }
}

/// The line about one event, by what its body says.
pub open spec fn event_line(
    seq_number: i64,
    when_said: Seq<char>,
    kind: Option<Seq<char>>,
    pane: Option<Seq<char>>,
    status: Option<Seq<char>>,
) -> Seq<char> {
    padded(int_text(seq_number as int), 5) + " "@ + padded(when_said, 10) + " "@ + padded(
        match kind {
            Some(k) => k,
            None => "unparseable"@,
        },
        28,
    ) + " "@ + padded(
        match pane {
            Some(p) => p,
            None => "-"@,
        },
        8,
    ) + " "@ + match status {
        Some(s) => s,
        None => ""@,
    }
}

/// The line about one event, by what its body says.
pub fn line(
    seq_number: i64,
    when_said: &str,
    kind: &Option<String>,
    pane: &Option<String>,
    status: &Option<String>,
) -> (r: String)
    ensures
        r@ == event_line(
            seq_number,
            when_said@,
            kind.deep_view(),
            pane.deep_view(),
            status.deep_view(),
        ),
{
    let kind: &str = match kind {
        Some(k) => k.as_str(),
        None => "unparseable",
    };
    let pane: &str = match pane {
        Some(p) => p.as_str(),
        None => "-",
    };
    let status: &str = match status {
        Some(s) => s.as_str(),
        None => "",
    };
    let mut out: String = pad(&integer(seq_number), 5);
    out.append(" ");
    out.append(&pad(when_said, 10));
    out.append(" ");
    out.append(&pad(kind, 28));
    out.append(" ");
    out.append(&pad(pane, 8));
    out.append(" ");
    out.append(status);
    out
}

/// The line about a raw event.
pub open spec fn raw_line(e: RawEvent, now: i64) -> Seq<char> {
    event_line(
        e.seq,
        ago_text(elapsed(now, e.ts)),
        event_name(e.body@),
        data_text(e.body@, "pane_id"@),
        data_text(e.body@, "agent_status"@),
    )
}

/// What `shep raw` prints.
pub open spec fn raw_of(events: Seq<RawEvent>, now: i64) -> Seq<Seq<char>> {
    if events.len() == 0 {
        seq!["no raw events — has the plugin been linked?"@]
    } else {
        Seq::new(events.len(), |i: int| raw_line(events[i], now))
    }
}

pub fn lines(events: &Vec<RawEvent>, now: i64) -> (r: Vec<String>)
    ensures
        r.deep_view() == raw_of(events@, now),
{
    let mut out: Vec<String> = Vec::new();
    assert(out.deep_view() =~= Seq::empty());
    if events.len() == 0 {
        add_line(&mut out, copy("no raw events — has the plugin been linked?"));
        assert(out.deep_view() =~= raw_of(events@, now));
        return out;
    }
    let ghost all = raw_of(events@, now);
    assert(out.deep_view() =~= all.take(0));
    for i in 0..events.len()
        invariant
            events@.len() > 0,
            all == raw_of(events@, now),
            out.deep_view() == all.take(i as int),
    {
        let ghost prev = out.deep_view();
        let e: &RawEvent = &events[i];
        add_line(
            &mut out,
            line(
                e.seq,
                &since(now, e.ts),
                &e.kind(),
                &e.data_field("pane_id"),
                &e.data_field("agent_status"),
            ),
        );
        assert(prev.push(all[i as int]) =~= all.take(i as int + 1));
    }
    assert(all.take(all.len() as int) =~= all);
    out
}

} // verus!
