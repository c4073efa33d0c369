//! JSON, as far as the engine reads and writes it itself.
//!
//! `serde_json` does the work. What it makes of a text is a function of the text
//! alone, so each of its answers has a name here, and the contracts of the engine
//! speak of those names.

use crate::db::event::{carries, Field, FieldModel, Payload};
use vstd::prelude::*;

verus! {

/// The JSON text that `serde_json::to_string` writes for a list of texts.
pub uninterp spec fn list_json(items: Seq<Seq<char>>) -> Seq<char>;

/// What `serde_json::from_str` makes of a text that should be a list of texts: the
/// list, or what is wrong with it.
pub uninterp spec fn json_list(text: Seq<char>) -> Result<Seq<Seq<char>>, Seq<char>>;

/// The JSON text of the value that `Value::get` finds under a key of the object
/// that a text is. Nothing where the text is no JSON, is no object, or has no such
/// key.
pub uninterp spec fn json_member(text: Seq<char>, key: Seq<char>) -> Option<Seq<char>>;

/// The text that a JSON string stands for, as `Value::as_str` gives it. Nothing
/// where the text is not a JSON string.
pub uninterp spec fn json_string(text: Seq<char>) -> Option<Seq<char>>;

/// The number that a JSON text stands for, as `Value::as_i64` gives it. Nothing
/// where the text is not an integer of that size.
pub uninterp spec fn json_integer(text: Seq<char>) -> Option<i64>;

/// The JSON text that `serde_json::to_string` writes for an event's payload.
pub uninterp spec fn payload_json(payload: Seq<(Seq<char>, FieldModel)>) -> Seq<char>;

/// Calls `serde_json::to_string` on a list of texts. Writing strings into memory
/// does not fail, so there always is a text; it depends on the list alone, and
/// `serde_json::from_str` reads the same list back from it.
#[verifier::external_body]
pub(crate) fn encode_list(items: &Vec<String>) -> (r: Result<String, String>)
    ensures
        r is Ok,
        r->Ok_0@ == list_json(items.deep_view()),
        json_list(r->Ok_0@) is Ok,
        json_list(r->Ok_0@)->Ok_0 == items.deep_view(),
{
    match serde_json::to_string(items) {
        Ok(text) => Ok(text),
        Err(e) => Err(e.to_string()),
    }
}

/// Calls `serde_json::to_string` on the object that a payload is: a text or a number that
/// is absent is null, and a place is an object of its three fields. Of two values put under
/// one key with `Map::insert`, the later is kept. Writing such an object into memory does
/// not fail, so there always is a text; it depends on the payload alone, and what
/// `serde_json::from_str` and `Value::get` read under each key is what the payload has
/// there.
#[verifier::external_body]
pub(crate) fn encode_payload(payload: &Payload) -> (r: Result<String, String>)
    ensures
        r is Ok,
        r->Ok_0@ == payload_json(payload.deep_view()),
        carries(r->Ok_0@, payload.deep_view()),
{
    let mut object = serde_json::Map::new();
    for (key, field) in payload {
        let value = match field {
            Field::Text(text) => serde_json::Value::from(text.clone()),
            Field::Number(n) => serde_json::Value::from(*n),
            Field::Place { pipeline, step, round } => serde_json::Value::from_iter([
                ("pipeline", serde_json::Value::from(pipeline.clone())),
                ("step", serde_json::Value::from(step.clone())),
                ("round", serde_json::Value::from(*round)),
            ]),
        };
        object.insert(key.clone(), value);
    }
    serde_json::to_string(&object).map_err(|e| e.to_string())
}

/// Calls `serde_json::from_str` for a list of texts. The answer depends on the
/// text alone: the list, or the words of the error.
#[verifier::external_body]
pub(crate) fn decode_list(text: &str) -> (r: Result<Vec<String>, String>)
    ensures
        r is Ok <==> json_list(text@) is Ok,
        r is Ok ==> r->Ok_0.deep_view() == json_list(text@)->Ok_0,
        r is Err ==> r->Err_0@ == json_list(text@)->Err_0,
{
    match serde_json::from_str::<Vec<String>>(text) {
        Ok(items) => Ok(items),
        Err(e) => Err(e.to_string()),
    }
}

/// Calls `serde_json::from_str`, then `Value::get` with a key, and writes the value
/// it finds as JSON again. The answer depends on the text and the key alone.
#[verifier::external_body]
pub(crate) fn member(text: &str, key: &str) -> (r: Option<String>)
    ensures
        r.deep_view() == json_member(text@, key@),
{
    match serde_json::from_str::<serde_json::Value>(text) {
        Ok(value) => match value.get(key) {
            Some(found) => Some(found.to_string()),
            None => None,
        },
        Err(_) => None,
    }
}

/// Calls `serde_json::from_str`, then `Value::as_str`. The answer depends on the
/// text alone.
#[verifier::external_body]
pub(crate) fn string(text: &str) -> (r: Option<String>)
    ensures
        r.deep_view() == json_string(text@),
{
    match serde_json::from_str::<serde_json::Value>(text) {
        Ok(value) => match value.as_str() {
            Some(s) => Some(s.to_string()),
            None => None,
        },
        Err(_) => None,
    }
}

/// Calls `serde_json::from_str`, then `Value::as_i64`. The answer depends on the
/// text alone.
#[verifier::external_body]
pub(crate) fn number(text: &str) -> (r: Option<i64>)
    ensures
        r == json_integer(text@),
{
    match serde_json::from_str::<serde_json::Value>(text) {
        Ok(value) => value.as_i64(),
        Err(_) => None,
    }
}

/// A text under a key of an object.
pub open spec fn string_member(text: Seq<char>, key: Seq<char>) -> Option<Seq<char>> {
    match json_member(text, key) {
        Some(found) => json_string(found),
        None => None,
    }
}

/// An integer under a key of an object.
pub open spec fn integer_member(text: Seq<char>, key: Seq<char>) -> Option<i64> {
    match json_member(text, key) {
        Some(found) => json_integer(found),
        None => None,
    }
}

pub fn get_string(text: &str, key: &str) -> (r: Option<String>)
    ensures
        r.deep_view() == string_member(text@, key@),
{
    match member(text, key) {
        Some(found) => string(&found),
        None => None,
    }
}

pub fn get_integer(text: &str, key: &str) -> (r: Option<i64>)
    ensures
        r == integer_member(text@, key@),
{
    match member(text, key) {
        Some(found) => number(&found),
        None => None,
    }
}

/// A value under a key is read as what it is: a text that is there as a text, a number as a
/// number, and nothing where there is none of the kind.
pub proof fn a_member_is_read_as_what_it_is(text: Seq<char>, key: Seq<char>)
    ensures
        json_member(text, key) is None ==> string_member(text, key) is None && integer_member(
            text,
            key,
        ) is None,
        json_member(text, key) is Some ==> string_member(text, key) == json_string(
            json_member(text, key)->0,
        ) && integer_member(text, key) == json_integer(json_member(text, key)->0),
{
}

} // verus!
