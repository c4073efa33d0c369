//! `shep forward`: what a Herdr hook runs. It decides nothing, because the payload has no
//! previous-status field and a hook that kept state of its own would be a second source
//! of truth.

use crate::error::{Error, ErrorModel};
use crate::text::{
    blank, copy, is_blank, is_gaps, is_ink, trim, trimmed, trimming_takes_the_gaps,
};
use vstd::prelude::*;

verus! {

/// The event JSON Herdr puts in a hook's environment. stdin is empty for hooks, so this
/// is the whole input.
pub const EVENT_JSON: &'static str = "HERDR_PLUGIN_EVENT_JSON";

/// The dotted event name. Note Herdr underscores the same name inside the JSON.
pub const EVENT_NAME: &'static str = "HERDR_PLUGIN_EVENT";

/// The event in the environment, where there is one.
pub open spec fn in_env(value: Option<Seq<char>>) -> Option<Seq<char>> {
    match value {
        Some(json) => if is_blank(json) {
            None
        } else {
            Some(trimmed(json))
        },
        None => None,
    }
}

/// The event in the environment. Where there is none, either this was run by hand or
/// Herdr changed the contract; reading stdin makes both testable and pipeable.
pub fn body_from_env(value: &Option<String>) -> (r: Option<String>)
    ensures
        r.deep_view() == in_env(value.deep_view()),
{
    match value {
        Some(json) => if blank(json) {
            None
        } else {
            Some(trim(json))
        },
        None => None,
    }
}

/// The event on stdin, or that there is nothing to forward.
pub fn body_from_stdin(text: &str) -> (r: Result<String, Error>)
    ensures
        !is_blank(text@) ==> (r matches Ok(body) && body@ == trimmed(text@)),
        is_blank(text@) ==> (r matches Err(e) && e@ == ErrorModel::Other(
            "nothing to forward: $HERDR_PLUGIN_EVENT_JSON is unset and stdin is empty. This runs as a Herdr event hook."@,
        )),
{
    let body: String = trim(text);
    if body.as_str().is_empty() {
        return Err(
            Error::Other(
                copy(
                    "nothing to forward: $HERDR_PLUGIN_EVENT_JSON is unset and stdin is empty. This runs as a Herdr event hook.",
                ),
            ),
        );
    }
    Ok(body)
}

/// What is forwarded is the event without the gaps around it, and nothing where there is
/// nothing else.
pub proof fn an_event_is_forwarded_without_gaps(front: Seq<char>, s: Seq<char>, behind: Seq<char>)
    requires
        is_gaps(front),
        is_gaps(behind),
        s.len() > 0 ==> is_ink(s[0]) && is_ink(s.last()),
    ensures
        in_env(None) is None,
        s.len() > 0 ==> in_env(Some(front + s + behind)) == Some(s),
        s.len() == 0 ==> in_env(Some(front + s + behind)) is None,
{
    trimming_takes_the_gaps(front, s, behind);
}

} // verus!
