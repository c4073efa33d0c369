//! The `raw_event` table: what Herdr said, as it said it.
//!
//! The hook's whole job is to append here. Interpretation (which pane, which task,
//! whether this is the `working` to `done` edge) happens later in the supervisor,
//! because the payload carries no previous status and a hook that decided things
//! would have to keep state of its own.

use crate::json::{get_string, json_member, member, string_member};
use crate::table::{first_index, first_index_absent, first_index_found};
use crate::text::{cat3, chars_of, copy};
use vstd::prelude::*;
use vstd::string::*;

verus! {

#[derive(Debug)]
pub struct RawEvent {
    pub seq: i64,
    pub ts: i64,
    pub body: String,
}

pub open spec fn underscores() -> spec_fn(char) -> bool {
    |c: char| c == '_'
}

/// A name with its first underscore turned into a dot.
pub open spec fn dotted(s: Seq<char>) -> Seq<char> {
    match first_index(s, underscores()) {
        Some(i) => s.take(i) + "."@ + s.skip(i + 1),
        None => s,
    }
}

/// A name with its first underscore turned into a dot.
pub fn dot(s: &str) -> (r: String)
    ensures
        r@ == dotted(s@),
{
    let cs: Vec<char> = chars_of(s);
    for i in 0..cs.len()
        invariant
            cs@ == s@,
            forall|j: int| 0 <= j < i ==> !underscores()(#[trigger] s@[j]),
    {
        if cs[i] == '_' {
            proof {
                first_index_found(s@, underscores(), i as int);
                assert(s@.subrange(0, i as int) =~= s@.take(i as int));
                assert(s@.subrange(i as int + 1, s@.len() as int) =~= s@.skip(i as int + 1));
            }
            return cat3(s.substring_char(0, i), ".", s.substring_char(i + 1, cs.len()));
        }
    }
    proof {
        first_index_absent(s@, underscores());
    }
    copy(s)
}

/// The dotted name of the event that a body is.
pub open spec fn event_name(body: Seq<char>) -> Option<Seq<char>> {
    match string_member(body, "event"@) {
        Some(raw) => Some(dotted(raw)),
        None => None,
    }
}

/// What an event is about: its `data`, or the whole body where there is none.
pub open spec fn event_data(body: Seq<char>) -> Seq<char> {
    match json_member(body, "data"@) {
        Some(data) => data,
        None => body,
    }
}

impl RawEvent {
    /// The dotted event name, if the body is the JSON Herdr hands to a hook. Herdr
    /// underscores the name inside the payload and dots it in the environment; this
    /// reports what the payload says, dotted.
    pub fn kind(&self) -> (r: Option<String>)
        ensures
            r.deep_view() == event_name(self.body@),
    {
        match get_string(&self.body, "event") {
            Some(raw) => Some(dot(&raw)),
            None => None,
        }
    }

    /// The JSON of what the event is about.
    pub fn data(&self) -> (r: String)
        ensures
            r@ == event_data(self.body@),
    {
        match member(&self.body, "data") {
            Some(data) => data,
            None => copy(&self.body),
        }
    }

    /// A text of the event's `data`, and of that alone.
    pub fn data_field(&self, key: &str) -> (r: Option<String>)
        ensures
            r.deep_view() == (match json_member(self.body@, "data"@) {
                Some(data) => string_member(data, key@),
                None => None,
            }),
    {
        match member(&self.body, "data") {
            Some(data) => get_string(&data, key),
            None => None,
        }
    }
}

/// A name is dotted at its first underscore, and there alone.
pub proof fn the_first_underscore_is_a_dot(head: Seq<char>, rest: Seq<char>)
    requires
        !head.contains('_'),
    ensures
        dotted(head + seq!['_'] + rest) == head + "."@ + rest,
        dotted(head) == head,
{
    let all = head + seq!['_'] + rest;
    let n = head.len() as int;
    assert forall|j: int| 0 <= j < n implies !underscores()(#[trigger] all[j]) by {
        assert(all[j] == head[j]);
        assert(head.contains(head[j]));
    }
    assert(all[n] == '_');
    first_index_found(all, underscores(), n);
    assert(all.take(n) =~= head);
    assert(all.skip(n + 1) =~= rest);
    assert forall|j: int| 0 <= j < head.len() implies !underscores()(#[trigger] head[j]) by {
        assert(head.contains(head[j]));
    }
    first_index_absent(head, underscores());
}

} // verus!
