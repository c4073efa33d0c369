//! The `event` table: an append-only audit trail. Nothing reads it to make a
//! decision, so its only jobs are `shep trace` and knowing what happened.

pub mod names;

use crate::error::Error;
use crate::json::{encode_payload, integer_member, json_member, payload_json, string_member};
use crate::text::{copy, push_deep};
use vstd::prelude::*;

verus! {

/// A value in an event's payload.
#[derive(Debug)]
pub enum Field {
    /// A text, or null.
    Text(Option<String>),
    /// A number, or null.
    Number(Option<i64>),
    /// Where a task was: an object of its own.
    Place { pipeline: Option<String>, step: Option<String>, round: i64 },
}

#[verifier::ext_equal]
pub enum FieldModel {
    Text(Option<Seq<char>>),
    Number(Option<i64>),
    Place { pipeline: Option<Seq<char>>, step: Option<Seq<char>>, round: i64 },
}

impl View for Field {
    type V = FieldModel;

    open spec fn view(&self) -> FieldModel {
        match self {
            Field::Text(t) => FieldModel::Text(t.deep_view()),
            Field::Number(n) => FieldModel::Number(*n),
            Field::Place { pipeline, step, round } => FieldModel::Place {
                pipeline: pipeline.deep_view(),
                step: step.deep_view(),
                round: *round,
            },
        }
    }
}

impl DeepView for Field {
    type V = FieldModel;

    open spec fn deep_view(&self) -> FieldModel {
        self@
    }
}

/// A payload: keys with their values, in the order they were put there.
pub type Payload = Vec<(String, Field)>;

/// An event to be written in the same transaction as the state change it records.
#[derive(Debug)]
pub struct NewEvent {
    pub kind: String,
    pub task_id: Option<String>,
    pub payload: Option<Payload>,
    pub caused_by: Option<i64>,
}

#[verifier::ext_equal]
pub struct EventModel {
    pub kind: Seq<char>,
    pub task_id: Option<Seq<char>>,
    pub payload: Option<Seq<(Seq<char>, FieldModel)>>,
    pub caused_by: Option<i64>,
}

impl View for NewEvent {
    type V = EventModel;

    open spec fn view(&self) -> EventModel {
        EventModel {
            kind: self.kind@,
            task_id: self.task_id.deep_view(),
            payload: self.payload.deep_view(),
            caused_by: self.caused_by,
        }
    }
}

impl DeepView for NewEvent {
    type V = EventModel;

    open spec fn deep_view(&self) -> EventModel {
        self@
    }
}

impl EventModel {
    /// An event of a kind, about nothing yet.
    pub open spec fn of(kind: Seq<char>) -> EventModel {
        EventModel { kind, task_id: None, payload: None, caused_by: None }
    }

    /// The event, about a task.
    pub open spec fn about(self, task_id: Seq<char>) -> EventModel {
        EventModel { task_id: Some(task_id), ..self }
    }

    /// Does the event tell this under this key?
    pub open spec fn says(self, key: Seq<char>, value: FieldModel) -> bool {
        self.payload is Some && self.payload->0.contains((key, value))
    }

    /// The event, with a payload.
    pub open spec fn saying(self, payload: Seq<(Seq<char>, FieldModel)>) -> EventModel {
        EventModel { payload: Some(payload), ..self }
    }
}

impl NewEvent {
    pub fn new(kind: &str) -> (r: NewEvent)
        ensures
            r@ == EventModel::of(kind@),
    {
        NewEvent { kind: copy(kind), task_id: None, payload: None, caused_by: None }
    }

    pub fn for_task(kind: &str, task_id: &str) -> (r: NewEvent)
        ensures
            r@ == EventModel::of(kind@).about(task_id@),
    {
        NewEvent::new(kind).task(task_id)
    }

    pub fn task(self, task_id: &str) -> (r: NewEvent)
        ensures
            r@ == self@.about(task_id@),
    {
        NewEvent {
            kind: self.kind,
            task_id: Some(copy(task_id)),
            payload: self.payload,
            caused_by: self.caused_by,
        }
    }

    pub fn payload(self, payload: Payload) -> (r: NewEvent)
        ensures
            r@ == self@.saying(payload.deep_view()),
    {
        NewEvent {
            kind: self.kind,
            task_id: self.task_id,
            payload: Some(payload),
            caused_by: self.caused_by,
        }
    }

    /// The seq that led here, for `shep trace`.
    pub fn caused_by(self, seq: i64) -> (r: NewEvent)
        ensures
            r@ == (EventModel { caused_by: Some(seq), ..self@ }),
    {
        NewEvent {
            kind: self.kind,
            task_id: self.task_id,
            payload: self.payload,
            caused_by: Some(seq),
        }
    }
}

/// An event as it was written. The payload is its JSON text.
#[derive(Debug)]
pub struct Event {
    pub seq: i64,
    pub ts: i64,
    pub kind: String,
    pub task_id: Option<String>,
    pub payload: Option<String>,
    pub caused_by: Option<i64>,
}

/// A payload with one more key at its end.
pub fn with(payload: Payload, key: &str, value: Field) -> (r: Payload)
    ensures
        r.deep_view() == payload.deep_view().push((key@, value@)),
{
    broadcast use push_deep;

    let mut out: Payload = payload;
    let ghost prev = out;
    out.push((copy(key), value));
    assert(out.deep_view() =~= prev.deep_view().push((key@, value@)));
    out
}

/// An empty payload.
pub fn empty_payload() -> (r: Payload)
    ensures
        r.deep_view() == Seq::<(Seq<char>, FieldModel)>::empty(),
{
    let r: Payload = Vec::new();
    assert(r.deep_view() =~= Seq::empty());
    r
}

// ---------------------------------------------------------------------------
// Writing and reading back
// ---------------------------------------------------------------------------

/// The value a payload has under a key: the last that was put there.
pub open spec fn field_under(payload: Seq<(Seq<char>, FieldModel)>, key: Seq<char>) -> Option<
    FieldModel,
>
    decreases payload.len(),
{
    if payload.len() == 0 {
        None
    } else if payload.last().0 == key {
        Some(payload.last().1)
    } else {
        field_under(payload.drop_last(), key)
    }
}

/// Does a JSON text tell a value, or none, under a key?
pub open spec fn tells(text: Seq<char>, key: Seq<char>, field: Option<FieldModel>) -> bool {
    match field {
        None => json_member(text, key) is None,
        Some(FieldModel::Text(t)) => {
            &&& json_member(text, key) is Some
            &&& string_member(text, key) == t
            &&& integer_member(text, key) is None
        },
        Some(FieldModel::Number(n)) => {
            &&& json_member(text, key) is Some
            &&& string_member(text, key) is None
            &&& integer_member(text, key) == n
        },
        Some(FieldModel::Place { pipeline, step, round }) => {
            &&& json_member(text, key) is Some
            &&& string_member(text, key) is None
            &&& integer_member(text, key) is None
            &&& string_member(json_member(text, key)->0, "pipeline"@) == pipeline
            &&& string_member(json_member(text, key)->0, "step"@) == step
            &&& integer_member(json_member(text, key)->0, "round"@) == Some(round)
        },
    }
}

/// Does a JSON text tell under each key what a payload has there?
pub open spec fn carries(text: Seq<char>, payload: Seq<(Seq<char>, FieldModel)>) -> bool {
    forall|key: Seq<char>| tells(text, key, #[trigger] field_under(payload, key))
}

/// The text to write for an event's payload. Reading it tells under each key what the
/// payload has there.
pub fn payload_text(payload: &Option<Payload>) -> (r: Result<Option<String>, Error>)
    ensures
        match payload {
            Some(p) => r matches Ok(Some(text)) && text@ == payload_json(p.deep_view()) && carries(
                text@,
                p.deep_view(),
            ),
            None => r matches Ok(None),
        },
{
    match payload {
        Some(p) => match encode_payload(p) {
            Ok(text) => Ok(Some(text)),
            Err(e) => Err(Error::Json(e)),
        },
        None => Ok(None),
    }
}

/// One more value is what the payload then has under its key, and changes no other.
pub proof fn put_more(payload: Seq<(Seq<char>, FieldModel)>, k: Seq<char>, v: FieldModel)
    ensures
        forall|key: Seq<char>| #[trigger]
            field_under(payload.push((k, v)), key) == if key == k {
                Some(v)
            } else {
                field_under(payload, key)
            },
{
    assert(payload.push((k, v)).drop_last() =~= payload);
}

/// What was put into a payload reads back from its text, under each key that was not put
/// there again later.
pub proof fn a_payload_reads_back(
    text: Seq<char>,
    payload: Seq<(Seq<char>, FieldModel)>,
    i: int,
)
    requires
        carries(text, payload),
        0 <= i < payload.len(),
        forall|j: int| i < j < payload.len() ==> (#[trigger] payload[j]).0 != payload[i].0,
    ensures
        tells(text, payload[i].0, Some(payload[i].1)),
{
    last_put(payload, i);
}

proof fn last_put(payload: Seq<(Seq<char>, FieldModel)>, i: int)
    requires
        0 <= i < payload.len(),
        forall|j: int| i < j < payload.len() ==> (#[trigger] payload[j]).0 != payload[i].0,
    ensures
        field_under(payload, payload[i].0) == Some(payload[i].1),
    decreases payload.len(),
{
    if i < payload.len() - 1 {
        assert(payload[payload.len() - 1].0 != payload[i].0);
        last_put(payload.drop_last(), i);
    }
}

} // verus!
